use dl_nzb::error::{DlNzbError, NzbError};
use dl_nzb::nzb::{output_name, par2_by_lowercase, Nzb, NzbFile, NzbGroup, NzbGroups, NzbSegment, NzbSegments};

const MANIFEST: &str = r#"<?xml version="1.0" encoding="UTF-8"?>
<!DOCTYPE nzb PUBLIC "-//newzBin//DTD NZB 1.1//EN" "http://www.newzbin.com/DTD/nzb/nzb-1.1.dtd">
<nzb xmlns="http://www.newzbin.com/DTD/2003/nzb">
    <head>
        <meta type="title">Big Buck Bunny</meta>
        <meta type="category">TV</meta>
        <meta type="tag">HD</meta>
        <meta type="tag">Rabbit</meta>
        <meta type="password">secret</meta>
    </head>
    <file poster="John &lt;nzb@nowhere.example&gt;" date="1706440708" subject="[1/2] - &quot;Big Buck Bunny - S01E01.mkv&quot; yEnc (1/2) 1478616">
        <groups>
            <group>alt.binaries.boneless</group>
        </groups>
        <segments>
            <segment bytes="739067" number="1">9cacde4c986547369becbf97003fb2c5-9483514693959@example</segment>
            <segment bytes="739549" number="2">70a3a038ce324e618e2751e063d6a036-7285710986748@example</segment>
        </segments>
    </file>
    <file poster="John &lt;nzb@nowhere.example&gt;" date="1706440709" subject="[2/2] - &quot;Big Buck Bunny - S01E01.mkv.par2&quot; yEnc (1/1) 1000">
        <groups>
            <group>alt.binaries.boneless</group>
        </groups>
        <segments>
            <segment bytes="1000" number="1">par@example</segment>
        </segments>
    </file>
</nzb>
"#;

fn file(subject: &str, sizes: &[u64]) -> NzbFile {
    NzbFile {
        poster: "p".to_string(),
        date: 42,
        subject: subject.to_string(),
        groups: NzbGroups { group: vec![NzbGroup { name: "g".to_string() }] },
        segments: NzbSegments {
            segment: sizes
                .iter()
                .enumerate()
                .map(|(i, b)| NzbSegment { bytes: *b, number: i as u32 + 1, message_id: format!("{}@x", i) })
                .collect(),
        },
    }
}

fn manifest(files: Vec<NzbFile>) -> Nzb {
    Nzb { files, title: None, category: None, tags: Vec::new(), passwords: Vec::new() }
}

#[test]
fn nzb_test_nzb_api_structure() {
    let xml = r#"
        <?xml version="1.0" encoding="UTF-8"?>
        <!DOCTYPE nzb PUBLIC "-//newzBin//DTD NZB 1.1//EN" "http://www.newzbin.com/DTD/nzb/nzb-1.1.dtd">
        <nzb xmlns="http://www.newzbin.com/DTD/2003/nzb">
            <head>
                <meta type="title">Test File</meta>
            </head>
            <file poster="test@example.com" date="1234567890" subject="test.zip">
                <groups>
                    <group>alt.binaries.test</group>
                </groups>
                <segments>
                    <segment bytes="1024" number="1">test@example.com</segment>
                </segments>
            </file>
        </nzb>
        "#;

    let nzb = Nzb::from_str(xml).unwrap();

    println!("Files count: {}", nzb.files().len());
    if let Some(file) = nzb.files().first() {
        println!("File poster: {}", file.poster);
        println!("File posted_at: {:?}", file.date);
        println!("File subject: {}", file.subject);
        if let Some(segment) = file.segments.segment.first() {
            println!("Segment size: {}", segment.bytes);
            println!("Segment number: {}", segment.number);
            println!("Segment message_id: {}", segment.message_id);
        }
    }

    println!("Meta title: {:?}", nzb.get_metadata("title"));
    println!("Meta category: {:?}", nzb.get_metadata("category"));
}

#[test]
fn manifest_is_read_field_by_field() {
    let nzb = Nzb::from_str(MANIFEST).unwrap();
    assert_eq!(nzb.files().len(), 2);
    let first = &nzb.files()[0];
    assert_eq!(first.poster, "John <nzb@nowhere.example>");
    assert_eq!(first.date, 1706440708);
    assert_eq!(first.subject, "[1/2] - \"Big Buck Bunny - S01E01.mkv\" yEnc (1/2) 1478616");
    assert_eq!(first.groups.group.len(), 1);
    assert_eq!(first.groups.group[0].name, "alt.binaries.boneless");
    assert_eq!(first.segments.segment.len(), 2);
    assert_eq!(first.segments.segment[0].bytes, 739067);
    assert_eq!(first.segments.segment[0].number, 1);
    assert_eq!(
        first.segments.segment[1].message_id,
        "70a3a038ce324e618e2751e063d6a036-7285710986748@example"
    );
    assert_eq!(nzb.title, Some("Big Buck Bunny".to_string()));
    assert_eq!(nzb.total_size(), 739067 + 739549 + 1000);
    assert_eq!(nzb.total_segments(), 3);
}

#[test]
fn refused_manifest_is_a_parse_error() {
    match Nzb::from_str("this is no manifest") {
        Err(DlNzbError::Nzb(NzbError::ParseError(text))) => {
            assert!(text.starts_with("Failed to parse NZB: "), "{}", text);
            assert!(text.len() > "Failed to parse NZB: ".len());
        }
        other => panic!("unexpected: {:?}", other),
    }
    assert!(Nzb::from_str("").is_err());
}

#[test]
fn metadata_by_key_and_in_full() {
    let nzb = Nzb::from_str(MANIFEST).unwrap();
    assert_eq!(nzb.get_metadata("title"), Some("Big Buck Bunny".to_string()));
    assert_eq!(nzb.get_metadata("category"), Some("TV".to_string()));
    assert_eq!(nzb.get_metadata("tag"), None);
    assert_eq!(nzb.get_metadata("Title"), None);
    let all = nzb.get_all_metadata();
    assert_eq!(all[0], ("title".to_string(), "Big Buck Bunny".to_string()));
    assert_eq!(all[1], ("category".to_string(), "TV".to_string()));
    let tags: Vec<&str> = all.iter().filter(|(k, _)| k == "tag").map(|(_, v)| v.as_str()).collect();
    assert_eq!(tags.len(), 2);
    assert!(tags.contains(&"HD") && tags.contains(&"Rabbit"));
    assert_eq!(all.last().unwrap(), &("password".to_string(), "secret".to_string()));
    assert_eq!(all.len(), 5);

    let bare = manifest(vec![file("x", &[1])]);
    assert!(bare.get_all_metadata().is_empty());
    assert_eq!(bare.get_metadata("title"), None);
}

#[test]
fn filename_from_subject() {
    assert_eq!(
        Nzb::get_filename_from_subject("[1/9] - \"filename.ext\" yEnc (1/5202)"),
        Some("filename.ext".to_string())
    );
    assert_eq!(
        Nzb::get_filename_from_subject("[1/9] - &quot;name with spaces.mkv&quot; yEnc"),
        Some("name with spaces.mkv".to_string())
    );
    assert_eq!(
        Nzb::get_filename_from_subject("\"first\" and \"second\""),
        Some("first".to_string())
    );
    assert_eq!(Nzb::get_filename_from_subject("no quotes here"), None);
    assert_eq!(Nzb::get_filename_from_subject("empty \"\" quotes"), None);
    assert_eq!(Nzb::get_filename_from_subject(""), None);
    // The subject is handed to the pattern, not returned as it is.
    assert_ne!(
        Nzb::get_filename_from_subject("\"a.bin\" yEnc"),
        Some("\"a.bin\" yEnc".to_string())
    );
}

#[test]
fn filename_of_the_manifest() {
    let nzb = Nzb::from_str(MANIFEST).unwrap();
    assert_eq!(nzb.get_filename(), Some("Big Buck Bunny - S01E01.mkv".to_string()));
    assert_eq!(manifest(Vec::new()).get_filename(), None);
    assert_eq!(manifest(vec![file("no name", &[1])]).get_filename(), None);
}

#[test]
fn name_of_the_output_file() {
    assert_eq!(output_name(Some("a.bin".to_string()), 42), "a.bin");
    assert_eq!(output_name(None, 42), "unknown_file_42");
    assert_eq!(output_name(None, 0), "unknown_file_0");
    assert_eq!(output_name(None, 1706440708), "unknown_file_1706440708");
}

#[test]
fn recovery_files_by_subject() {
    assert!(Nzb::is_par2_file("\"movie.par2\" yEnc"));
    assert!(Nzb::is_par2_file("\"movie.vol00+01.PAR2\" yEnc"));
    assert!(Nzb::is_par2_file("\"movie.par\" yEnc"));
    assert!(!Nzb::is_par2_file("\"movie.part01.rar\" yEnc"));
    assert!(!Nzb::is_par2_file("\"movie.mkv\" yEnc"));
    assert!(Nzb::is_par2_file("\"movie.part01.rar.par2\" yEnc"));
    assert!(par2_by_lowercase("a.par2"));
    assert!(!par2_by_lowercase("a.PAR2"));
}

#[test]
fn main_and_recovery_files() {
    let nzb = manifest(vec![
        file("\"a.mkv\"", &[1]),
        file("\"a.par2\"", &[1]),
        file("\"a.part01.rar\"", &[1]),
        file("\"a.vol0+1.par2\"", &[1]),
    ]);
    let main: Vec<&str> = nzb.get_main_files().iter().map(|f| f.subject.as_str()).collect();
    assert_eq!(main, vec!["\"a.mkv\"", "\"a.part01.rar\""]);
    let par2: Vec<&str> = nzb.get_par2_files().iter().map(|f| f.subject.as_str()).collect();
    assert_eq!(par2, vec!["\"a.par2\"", "\"a.vol0+1.par2\""]);
    assert!(manifest(Vec::new()).get_main_files().is_empty());
}

#[test]
fn totals_are_held_at_the_maximum() {
    let nzb = manifest(vec![file("a", &[10, 20]), file("b", &[]), file("c", &[5])]);
    assert_eq!(nzb.total_size(), 35);
    assert_eq!(nzb.total_segments(), 3);
    let huge = manifest(vec![file("a", &[u64::MAX, 1]), file("b", &[7])]);
    assert_eq!(huge.total_size(), u64::MAX);
    assert_eq!(manifest(Vec::new()).total_size(), 0);
    assert_eq!(manifest(Vec::new()).total_segments(), 0);
}
