use dev_env::catalog::deduplicate;
use dev_env::archive::{detect_format, ArchiveFormat};
use dev_env::fetch::{cache_file_name, FetchError, FetchSession};
use dev_env::layout::{get_install_dir, get_temp_dir, normalize, version_dir_name, FsAction, TopEntry};
use dev_env::ledger::{InstallLedger, InstalledEnvironment};
use dev_env::pipeline::{is_terminal, next_stage, stage_name, Outcome, Stage};
use dev_env::profile::{set_persistent_env, set_persistent_path};

fn ledger() -> InstallLedger {
    InstallLedger { install_path: "/home/u/.dev_env".to_string(), installed: Vec::new() }
}

#[test]
fn fresh_java_install_scenario() {
    let url = "https://download.oracle.com/java/17/archive/jdk-17.0.9_linux-x64_bin.tar.gz";
    let name = cache_file_name(url);
    assert_eq!(name, "jdk-17.0.9_linux-x64_bin.tar.gz");
    let s = FetchSession::begin(200, Some(1000), None).unwrap();
    assert_eq!(s.range_header(), None);
    assert_eq!(detect_format(&name, &[0x1f, 0x8b, 8, 0, 0, 0]), Some(ArchiveFormat::TarGz));
    let root = "/home/u/.dev_env";
    let vdir = get_install_dir(root, "Java", "17.0.9");
    assert_eq!(vdir, "/home/u/.dev_env/Java/java-17.0.9");
    let temp = get_temp_dir(root, "Java");
    let plan = normalize(&temp, &vdir, &vec![TopEntry { name: "jdk-17.0.9".to_string(), is_dir: true }], false);
    assert_eq!(plan.len(), 2);
    match &plan[0] {
        FsAction::Rename { from, to } => {
            assert_eq!(from, "/home/u/.dev_env/Java/temp/jdk-17.0.9");
            assert_eq!(to, &vdir);
        }
        _ => panic!("expected a rename"),
    }
    assert!(matches!(&plan[1], FsAction::RemoveDirAll(p) if p == &temp));
    let profile = set_persistent_env("", "JAVA_HOME", &vdir);
    let profile = set_persistent_path(&profile, Some("JAVA_HOME"), "bin");
    assert_eq!(profile, "export JAVA_HOME=/home/u/.dev_env/Java/java-17.0.9\nexport PATH=$PATH:$JAVA_HOME/bin");
    let mut l = ledger();
    l.switch_version("Java", "17.0.9", &vdir);
    assert_eq!(l.get_install_versions("java"), vec!["17.0.9"]);
    assert_eq!(l.get_current_version("Java"), Some("17.0.9".to_string()));
    let mut stage = Stage::CheckLocal;
    for o in [Outcome::Succeeded; 6] {
        stage = next_stage(stage, o);
    }
    assert_eq!(stage, Stage::Done);
}

#[test]
fn repeated_java_install_scenario() {
    assert_eq!(next_stage(Stage::CheckLocal, Outcome::AlreadyInstalled), Stage::Activating);
    assert_eq!(next_stage(Stage::Activating, Outcome::Succeeded), Stage::Recording);
    assert_eq!(next_stage(Stage::Recording, Outcome::Succeeded), Stage::Done);
    let mut l = ledger();
    l.switch_version("Java", "17.0.9", "/r/Java/java-17.0.9");
    l.switch_version("Java", "17.0.9", "/r/Java/java-17.0.9");
    assert_eq!(l.installed.len(), 1);
    assert_eq!(l.get_install_versions("Java"), vec!["17.0.9"]);
    assert_eq!(l.get_current_version("JAVA"), Some("17.0.9".to_string()));
}

#[test]
fn failed_probe_scenario() {
    assert_eq!(FetchSession::begin(404, Some(10), None), Err(FetchError::ProbeRejected { status: 404 }));
    assert_eq!(FetchSession::begin(500, None, Some(3)), Err(FetchError::ProbeRejected { status: 500 }));
    assert_eq!(next_stage(Stage::Fetching, Outcome::Failed), Stage::Failed);
    assert!(is_terminal(Stage::Failed));
    assert_eq!(next_stage(Stage::Failed, Outcome::Succeeded), Stage::Failed);
}

#[test]
fn resumed_fetch_requests_from_one_byte_back() {
    let mut s = FetchSession::begin(206, Some(1000), Some(400)).unwrap();
    assert_eq!(s.offset, 399);
    assert_eq!(s.range_header(), Some("bytes=399-".to_string()));
    assert_eq!(s.progress_len(), 601);
    s.on_chunk(600);
    assert!(!s.is_complete());
    s.on_chunk(1);
    assert!(s.is_complete());
    assert_eq!(s.written, 1000);
    let empty = FetchSession::begin(200, Some(5), Some(0)).unwrap();
    assert_eq!(empty.range_header(), Some("bytes=0-".to_string()));
}

#[test]
fn normalize_removes_stale_directory_first() {
    let entries = vec![
        TopEntry { name: "bin".to_string(), is_dir: true },
        TopEntry { name: "README".to_string(), is_dir: false },
    ];
    let plan = normalize("/r/Go/temp", "/r/Go/go-1.21.5", &entries, true);
    assert_eq!(plan.len(), 5);
    assert!(matches!(&plan[0], FsAction::RemoveDirAll(p) if p == "/r/Go/go-1.21.5"));
    assert!(matches!(&plan[1], FsAction::CreateDirAll(p) if p == "/r/Go/go-1.21.5"));
    assert!(matches!(&plan[2], FsAction::Rename { from, to } if from == "/r/Go/temp/bin" && to == "/r/Go/go-1.21.5/bin"));
    assert!(matches!(&plan[3], FsAction::Rename { from, to } if from == "/r/Go/temp/README" && to == "/r/Go/go-1.21.5/README"));
    assert!(matches!(&plan[4], FsAction::RemoveDirAll(p) if p == "/r/Go/temp"));
    assert_eq!(version_dir_name("MySQL", "8.0.35"), "mysql-8.0.35");
}

#[test]
fn ledger_entry_constructor() {
    let e = InstalledEnvironment::new("Redis", "7.2.3", "/r/Redis/redis-7.2.3");
    assert_eq!(e.current_version, Some("7.2.3".to_string()));
    assert_eq!(e.installed_versions, vec!["7.2.3"]);
    let mut l = ledger();
    l.switch_version("Redis", "7.0.14", "/a");
    l.switch_version("redis", "7.2.3", "/b");
    assert_eq!(l.get_install_versions("REDIS"), vec!["7.0.14", "7.2.3"]);
    assert_eq!(l.installed[0].home_dir, Some("/b".to_string()));
    assert_eq!(l.get_install_versions("Go"), Vec::<String>::new());
    assert_eq!(l.get_current_version("Go"), None);
    assert_eq!(deduplicate(&l.get_install_versions("Redis")).len(), 2);
}

#[test]
fn stage_names_identify_the_stage() {
    assert_eq!(stage_name(Stage::Fetching), "fetch");
    assert_eq!(stage_name(Stage::Extracting), "extract");
    assert_eq!(stage_name(Stage::Normalizing), "normalize");
    assert_eq!(stage_name(Stage::Recording), "record");
}
