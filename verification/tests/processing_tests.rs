use dl_nzb::config::PostProcessingConfig;
use dl_nzb::downloader::DownloadResult;
use dl_nzb::error::{DlNzbError, PostProcessingError};
use dl_nzb::processing::{
    classify_par2_line, deletes_par2, file_count_in, is_archive_damaged, is_archive_volume,
    is_first_rar_volume, is_main_candidate, lowercase_extension, lowercase_file_name, main_par2,
    par2_result_from_code, parse_file_count, rar_archive_by, rar_base_name, report_status,
    Par2Event, Par2Repairer, Par2Report, Par2Result, Par2Run, Par2Status, PostProcessor,
};

fn processor(rar: bool, zip: bool) -> PostProcessor {
    let mut config = PostProcessingConfig::default();
    config.auto_extract_rar = rar;
    config.auto_extract_zip = zip;
    PostProcessor::new(config)
}

fn result(path: &str, failed: usize) -> DownloadResult {
    DownloadResult {
        filename: path.rsplit('/').next().unwrap().to_string(),
        path: path.to_string(),
        expected_size: 10,
        size: 10,
        segments_downloaded: 10 - failed,
        segments_failed: failed,
        download_time_ms: 0,
        failed_message_ids: Vec::new(),
    }
}

#[test]
fn rar_archives_by_path() {
    let p = processor(true, true);
    assert!(p.is_rar_archive("/d/movie.rar"));
    assert!(p.is_rar_archive("/d/MOVIE.RAR"));
    assert!(p.is_rar_archive("/d/movie.part01.rar"));
    assert!(p.is_rar_archive("/d/movie.part001.rar"));
    assert!(p.is_rar_archive("/d/movie.Part01.Rar"));
    assert!(!p.is_rar_archive("/d/movie.part02.rar"));
    assert!(!p.is_rar_archive("/d/movie.part010.rar"));
    assert!(!p.is_rar_archive("/d/movie.zip"));
    assert!(!p.is_rar_archive("/d/movie"));
    assert!(!p.is_rar_archive("/d/rar"));
    assert!(!p.is_rar_archive(""));
    // The switch for extraction plays no part here.
    assert!(processor(false, false).is_rar_archive("/d/movie.rar"));
}

#[test]
fn first_volume_rule() {
    assert!(is_first_rar_volume("movie.rar"));
    assert!(is_first_rar_volume("movie.part01.rar"));
    assert!(is_first_rar_volume("movie.part001.rar"));
    assert!(is_first_rar_volume("movie.part01.extra.rar"));
    assert!(!is_first_rar_volume("movie.part2.rar"));
    assert!(!is_first_rar_volume("movie.part1.rar"));
    assert!(rar_archive_by(&Some("rar".to_string()), "movie.rar"));
    assert!(!rar_archive_by(&Some("RAR".to_string()), "movie.rar"));
    assert!(!rar_archive_by(&None, "movie.rar"));
}

#[test]
fn extractable_archives_by_switch() {
    let both = processor(true, true);
    for path in ["a.rar", "a.zip", "a.7z", "a.tar", "a.tgz", "a.tar.gz", "a.bz2", "a.xz", "A.ZIP"] {
        assert!(both.is_extractable_archive(path), "{}", path);
    }
    for path in ["a.part02.rar", "a.txt", "a", "a.par2", ""] {
        assert!(!both.is_extractable_archive(path), "{}", path);
    }
    let rar_only = processor(true, false);
    assert!(rar_only.is_extractable_archive("a.rar"));
    assert!(rar_only.is_extractable_archive("a.7z"));
    assert!(!rar_only.is_extractable_archive("a.zip"));
    assert!(!rar_only.is_extractable_archive("a.tgz"));
    let zip_only = processor(false, true);
    assert!(!zip_only.is_extractable_archive("a.rar"));
    assert!(!zip_only.is_extractable_archive("a.7z"));
    assert!(zip_only.is_extractable_archive("a.zip"));
    assert!(zip_only.is_extractable_archive("a.xz"));
    assert!(zip_only.extractable_by(&Some("zip".to_string()), "a.zip"));
    assert!(!zip_only.extractable_by(&None, "a.zip"));
}

#[test]
fn path_parts_in_lowercase() {
    assert_eq!(lowercase_extension("/d/Movie.RaR"), Some("rar".to_string()));
    assert_eq!(lowercase_extension("/d/movie"), None);
    assert_eq!(lowercase_extension("/d/.hidden"), None);
    assert_eq!(lowercase_file_name("/d/Movie.Part01.RAR"), "movie.part01.rar");
    assert_eq!(lowercase_file_name("/"), "");
    assert_eq!(lowercase_file_name("ÄB.rar"), "äb.rar");
}

#[test]
fn extraction_follows_the_repair_step() {
    let p = processor(true, true);
    assert!(p.should_extract(true, Par2Status::NoPar2Files));
    assert!(!p.should_extract(false, Par2Status::NoPar2Files));
    assert!(p.should_extract(true, Par2Status::Success));
    assert!(p.should_extract(false, Par2Status::Success));
    assert!(!p.should_extract(true, Par2Status::Failed));
    assert!(!p.should_extract(false, Par2Status::Failed));
    let off = processor(false, true);
    assert!(!off.should_extract(true, Par2Status::Success));
    assert!(!off.should_extract(true, Par2Status::NoPar2Files));
}

#[test]
fn file_count_is_the_number_before_source() {
    assert_eq!(parse_file_count("Scanning 15 source files"), Some(15));
    assert_eq!(parse_file_count("There are 3 source files and 2 target files"), Some(3));
    assert_eq!(parse_file_count("  Scanning\t7   source\tfiles  "), Some(7));
    assert_eq!(parse_file_count("source files"), None);
    assert_eq!(parse_file_count("Scanning many source files"), None);
    assert_eq!(parse_file_count("no source here, but 4 source there"), Some(4));
    assert_eq!(parse_file_count("Scanning 99999999999999999999999 source files"), None);
    assert_eq!(parse_file_count(""), None);
    assert_eq!(parse_file_count("15 sources"), None);
    let words: Vec<String> = ["12", "source", "9", "source"].iter().map(|w| w.to_string()).collect();
    assert_eq!(file_count_in(&words), Some(12));
    assert_eq!(file_count_in(&Vec::new()), None);
}

#[test]
fn par2_lines() {
    assert!(matches!(classify_par2_line("Verifying source files:"), Par2Event::Verifying));
    assert!(matches!(
        classify_par2_line("Target: \"a.bin\" - found."),
        Par2Event::TargetFound
    ));
    assert!(matches!(
        classify_par2_line("Target: \"a.bin\" - damaged. Found 3 of 9 data blocks."),
        Par2Event::TargetDamaged
    ));
    assert!(matches!(classify_par2_line("Repair is required."), Par2Event::RepairRequired));
    assert!(matches!(
        classify_par2_line("Repair is not possible."),
        Par2Event::RepairNotPossible
    ));
    assert!(matches!(classify_par2_line("Repairing: 50.0%"), Par2Event::Repairing));
    assert!(matches!(classify_par2_line("Repair complete."), Par2Event::RepairComplete));
    assert!(matches!(classify_par2_line("All files are correct, repair is not required."), Par2Event::AllCorrect));
    assert!(matches!(
        classify_par2_line("There are 15 source files in total"),
        Par2Event::FileCount(15)
    ));
    assert!(matches!(classify_par2_line("all source files"), Par2Event::Other));
    assert!(matches!(classify_par2_line("Loading \"a.par2\"."), Par2Event::Other));
    assert!(matches!(classify_par2_line(""), Par2Event::Other));
}

#[test]
fn par2_run_and_report() {
    let mut run = Par2Run::new();
    assert!(matches!(run.report(true), Par2Report::Verified));
    assert!(matches!(run.report(false), Par2Report::Failed));
    for line in [
        "There are 3 source files.",
        "Verifying source files:",
        "Target: \"a\" - found.",
        "Target: \"b\" - found.",
        "Target: \"c\" - damaged. Found 1 of 4 data blocks.",
        "Repair is required.",
    ] {
        run.observe(classify_par2_line(line));
    }
    assert_eq!(run.total_files, 3);
    assert_eq!(run.files_verified, 2);
    assert!(run.repair_needed);
    assert!(run.repair_possible);
    assert!(matches!(run.report(true), Par2Report::Repaired));
    assert!(matches!(run.report(false), Par2Report::Failed));
    run.observe(classify_par2_line("Repair is not possible."));
    assert!(matches!(run.report(false), Par2Report::NotPossible));
    assert!(matches!(report_status(Par2Report::Repaired), Par2Status::Success));
    assert!(matches!(report_status(Par2Report::Verified), Par2Status::Success));
    assert!(matches!(report_status(Par2Report::NotPossible), Par2Status::Failed));
    assert!(matches!(report_status(Par2Report::Failed), Par2Status::Failed));
}

#[test]
fn recovery_files_are_deleted_after_success_only() {
    let mut config = PostProcessingConfig::default();
    assert!(!deletes_par2(&config, Par2Report::Verified));
    config.delete_par2_after_repair = true;
    assert!(deletes_par2(&config, Par2Report::Verified));
    assert!(deletes_par2(&config, Par2Report::Repaired));
    assert!(!deletes_par2(&config, Par2Report::Failed));
    assert!(!deletes_par2(&config, Par2Report::NotPossible));
}

#[test]
fn repair_outcomes() {
    assert!(Par2Repairer::outcome(Par2Result::Success, true).is_ok());
    assert!(Par2Repairer::outcome(Par2Result::Success, false).is_ok());
    assert!(Par2Repairer::outcome(Par2Result::RepairPossible, false).is_ok());
    let cases = [
        (Par2Result::RepairPossible, "PAR2 repair possible but not completed"),
        (Par2Result::RepairNotPossible, "PAR2 repair not possible: insufficient recovery data"),
        (Par2Result::InvalidArguments, "Invalid arguments"),
        (Par2Result::InsufficientData, "Insufficient critical data in PAR2 files"),
        (Par2Result::RepairFailed, "PAR2 repair failed"),
        (Par2Result::FileIOError, "File I/O error"),
        (Par2Result::LogicError, "Internal logic error"),
        (Par2Result::MemoryError, "Out of memory"),
    ];
    for (result, text) in cases {
        match Par2Repairer::outcome(result, true) {
            Err(DlNzbError::PostProcessing(PostProcessingError::Par2Failed(m))) => {
                assert_eq!(m, text)
            }
            other => panic!("unexpected: {:?}", other),
        }
    }
    assert!(Par2Repairer::outcome(Par2Result::RepairFailed, false).is_err());
    let repairer = Par2Repairer::new("/d/a.par2").unwrap();
    assert_eq!(repairer.par2_file, "/d/a.par2");
}

#[test]
fn repair_status_numbers() {
    assert!(matches!(par2_result_from_code(0), Some(Par2Result::Success)));
    assert!(matches!(par2_result_from_code(1), Some(Par2Result::RepairPossible)));
    assert!(matches!(par2_result_from_code(2), Some(Par2Result::RepairNotPossible)));
    assert!(matches!(par2_result_from_code(5), Some(Par2Result::RepairFailed)));
    assert!(matches!(par2_result_from_code(8), Some(Par2Result::MemoryError)));
    assert!(par2_result_from_code(9).is_none());
    assert!(par2_result_from_code(u32::MAX).is_none());
}

#[test]
fn main_recovery_file() {
    let names: Vec<String> =
        ["a.vol00+01.par2", "a.par2", "a.vol01+02.par2"].iter().map(|n| n.to_string()).collect();
    assert_eq!(main_par2(&names, &vec![500, 900, 100]), Some(1));
    let volumes: Vec<String> =
        ["a.vol00+01.par2", "a.vol01+02.par2", "a.vol03+04.par2"].iter().map(|n| n.to_string()).collect();
    assert_eq!(main_par2(&volumes, &vec![500, 100, 100]), Some(1));
    assert_eq!(main_par2(&volumes, &vec![7, 7, 7]), Some(0));
    assert_eq!(main_par2(&Vec::new(), &Vec::new()), None);
}

#[test]
fn archive_volumes() {
    assert_eq!(rar_base_name("movie.part01.rar"), "movie");
    assert_eq!(rar_base_name("movie.part01.rar.part02"), "movie");
    assert_eq!(rar_base_name("movie.rar"), "movie");
    assert_eq!(rar_base_name("movie.r.x.r00"), "movie.r.x");
    assert_eq!(rar_base_name("movie"), "movie");
    assert!(is_archive_volume("movie.part02.rar", "movie"));
    assert!(is_archive_volume("movie.r00", "movie"));
    assert!(is_archive_volume("movie.rar", "movie"));
    assert!(!is_archive_volume("movie.nfo", "movie"));
    assert!(!is_archive_volume("other.part02.rar", "movie"));
}

#[test]
fn main_file_candidates() {
    assert!(is_main_candidate("movie.mkv"));
    assert!(is_main_candidate("movie"));
    assert!(!is_main_candidate("movie.par2"));
    assert!(!is_main_candidate("movie.rar"));
    assert!(!is_main_candidate("movie.nfo"));
    assert!(!is_main_candidate("movie.sfv"));
}

#[test]
fn damaged_archives_by_file_name() {
    let results =
        vec![result("/d/a.rar", 0), result("/d/b.rar", 2), result("/other/b.rar", 0)];
    assert!(!is_archive_damaged(&results, "a.rar"));
    assert!(is_archive_damaged(&results, "b.rar"));
    assert!(!is_archive_damaged(&results, "c.rar"));
    assert!(!is_archive_damaged(&Vec::new(), "a.rar"));
}
