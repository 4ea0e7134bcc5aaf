use dl_nzb::cli::{buffer_bytes, download_folder, folder_by_stem, segments_in_memory, Cli, Commands, NO_FILES};
use dl_nzb::config::Config;

fn cli() -> Cli {
    Cli {
        files: Vec::new(),
        output: None,
        list: false,
        quiet: false,
        verbose: 0,
        json: false,
        config: None,
        force: false,
        command: None,
        connections: None,
        output_dir: None,
        no_directories: false,
        keep_partial: false,
        no_par2: false,
        no_extract_rar: false,
        delete_rar_after_extract: false,
        delete_par2: false,
        print_names: false,
        server: None,
        port: None,
        ssl: None,
        username: None,
        password: None,
        memory_limit: None,
        buffer_size: None,
        max_concurrent_files: None,
        log_level: None,
        log_file: None,
    }
}

#[test]
fn log_level_by_flags() {
    let mut c = cli();
    assert_eq!(c.get_log_level(), "info");
    c.quiet = true;
    assert_eq!(c.get_log_level(), "error");
    c.verbose = 1;
    assert_eq!(c.get_log_level(), "debug");
    c.quiet = false;
    c.verbose = 2;
    assert_eq!(c.get_log_level(), "trace");
    c.verbose = 255;
    assert_eq!(c.get_log_level(), "trace");
    c.log_level = Some("warn".to_string());
    assert_eq!(c.get_log_level(), "warn");
}

#[test]
fn overrides_from_the_command_line() {
    let mut c = cli();
    c.server = Some("news.example.org".to_string());
    c.port = Some(563);
    c.connections = Some(8);
    c.ssl = Some(true);
    c.output = Some("/out".to_string());
    c.output_dir = Some("/old".to_string());
    c.log_level = Some("debug".to_string());
    let o = c.get_config_overrides();
    assert_eq!(o.server, Some("news.example.org".to_string()));
    assert_eq!(o.port, Some(563));
    assert_eq!(o.connections, Some(8));
    assert_eq!(o.ssl, Some(true));
    assert_eq!(o.download_dir, Some("/out".to_string()));
    assert_eq!(o.log_level, Some("debug".to_string()));
    let o = cli().get_config_overrides();
    assert!(o.server.is_none() && o.port.is_none() && o.download_dir.is_none());
}

#[test]
fn deprecated_flags_are_noticed() {
    assert!(!cli().has_deprecated_flags());
    let mut plain = cli();
    plain.output = Some("/out".to_string());
    plain.quiet = true;
    plain.list = true;
    plain.log_level = Some("debug".to_string());
    plain.log_file = Some("log.txt".to_string());
    assert!(!plain.has_deprecated_flags());
    let setters: Vec<fn(&mut Cli)> = vec![
        |c| c.connections = Some(1),
        |c| c.output_dir = Some("d".to_string()),
        |c| c.no_directories = true,
        |c| c.keep_partial = true,
        |c| c.no_par2 = true,
        |c| c.no_extract_rar = true,
        |c| c.delete_rar_after_extract = true,
        |c| c.delete_par2 = true,
        |c| c.print_names = true,
        |c| c.server = Some("s".to_string()),
        |c| c.port = Some(1),
        |c| c.ssl = Some(false),
        |c| c.username = Some("u".to_string()),
        |c| c.password = Some("p".to_string()),
        |c| c.memory_limit = Some(1),
        |c| c.buffer_size = Some(1),
        |c| c.max_concurrent_files = Some(1),
    ];
    for set in setters {
        let mut c = cli();
        set(&mut c);
        assert!(c.has_deprecated_flags());
    }
}

#[test]
fn parsed_values_are_settled() {
    let mut c = cli();
    c.output_dir = Some("/old".to_string());
    c.verbose = 3;
    c.quiet = true;
    c.password = Some("-".to_string());
    assert!(c.wants_password_from_stdin());
    c.normalize(Some("from stdin".to_string()));
    assert_eq!(c.output, Some("/old".to_string()));
    assert_eq!(c.verbose, 0);
    assert_eq!(c.password, Some("from stdin".to_string()));

    let mut c = cli();
    c.output = Some("/new".to_string());
    c.output_dir = Some("/old".to_string());
    c.verbose = 2;
    c.password = Some("given".to_string());
    assert!(!c.wants_password_from_stdin());
    c.normalize(Some("ignored".to_string()));
    assert_eq!(c.output, Some("/new".to_string()));
    assert_eq!(c.verbose, 2);
    assert_eq!(c.password, Some("given".to_string()));

    let mut c = cli();
    c.password = Some("-".to_string());
    c.normalize(None);
    assert_eq!(c.password, Some("-".to_string()));
}

#[test]
fn download_flags_reach_the_configuration() {
    let mut c = cli();
    c.no_directories = true;
    c.no_par2 = true;
    c.delete_par2 = true;
    c.memory_limit = Some(512);
    c.buffer_size = Some(64);
    c.max_concurrent_files = Some(3);
    c.username = Some("me".to_string());
    let mut config = Config::default();
    c.apply_to(&mut config);
    assert!(!config.download.create_subfolders);
    assert!(!config.post_processing.auto_par2_repair);
    assert!(config.post_processing.auto_extract_rar);
    assert!(!config.post_processing.delete_rar_after_extract);
    assert!(config.post_processing.delete_par2_after_repair);
    assert_eq!(config.memory.max_segments_in_memory, 512 * 1024 * 1024 / 100_000);
    assert_eq!(config.memory.io_buffer_size, 64 * 1024);
    assert_eq!(config.memory.max_concurrent_files, 3);
    assert_eq!(config.usenet.username, "me");
    assert_eq!(config.usenet.password, "");

    let mut untouched = Config::default();
    cli().apply_to(&mut untouched);
    assert!(untouched.download.create_subfolders);
    assert!(untouched.post_processing.auto_par2_repair);
    assert_eq!(untouched.memory.max_segments_in_memory, 100);
    assert_eq!(untouched.memory.io_buffer_size, 4 * 1024 * 1024);
}

#[test]
fn sizes_from_limits() {
    assert_eq!(segments_in_memory(0), 0);
    assert_eq!(segments_in_memory(1), 10);
    assert_eq!(segments_in_memory(100), 1048);
    assert_eq!(segments_in_memory(usize::MAX), usize::MAX / 100_000);
    assert_eq!(buffer_bytes(0), 0);
    assert_eq!(buffer_bytes(4096), 4 * 1024 * 1024);
    assert_eq!(buffer_bytes(usize::MAX), usize::MAX);
}

#[test]
fn folder_of_a_manifest() {
    let mut config = Config::default();
    config.download.dir = "/downloads".to_string();
    assert_eq!(download_folder(&config, "/nzb/Big.Buck.Bunny.nzb"), "/downloads/Big.Buck.Bunny");
    assert_eq!(download_folder(&config, "show.tar.nzb"), "/downloads/show.tar");
    assert_eq!(download_folder(&config, "/"), "/downloads/download");
    assert_eq!(folder_by_stem(&config, &None), "/downloads/download");
    config.download.create_subfolders = false;
    assert_eq!(download_folder(&config, "/nzb/Big.Buck.Bunny.nzb"), "/downloads");
    assert_eq!(folder_by_stem(&config, &Some("x".to_string())), "/downloads");
}

#[test]
fn subcommands_and_messages() {
    let mut c = cli();
    c.command = Some(Commands::Test);
    assert!(matches!(c.command, Some(Commands::Test)));
    assert_eq!(NO_FILES, "No NZB files specified. Use 'dl-nzb --help' for usage information.");
}
