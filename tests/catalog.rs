use dev_env::catalog::{deduplicate, get_java_version_from, validate_version, ChooseEnvironment};
use dev_env::releases::{GoVersion, JavaVersion, MySQLVersion, NodeVersion, RedisVersion};

#[test]
fn release_versions() {
    assert_eq!(JavaVersion::JDK17.get_version(), "17.0.9");
    assert_eq!(GoVersion::Go122Beta.get_version(), "1.22.0-beta1");
    assert_eq!(MySQLVersion::MySQL80.get_version(), "8.0.35");
    let all: Vec<&str> = JavaVersion::all().iter().map(|v| v.get_version()).collect();
    assert_eq!(all, vec!["8.0.392", "11.0.21", "17.0.9", "21.0.1"]);
    assert_eq!(NodeVersion::all().len(), 4);
    assert_eq!(RedisVersion::all()[2], RedisVersion::Redis72);
}

#[test]
fn environment_names() {
    assert_eq!(ChooseEnvironment::Node.get_name(), "Node.js");
    assert_eq!(ChooseEnvironment::PostgreSQL.get_name(), "PostgreSQL");
}

#[test]
fn version_validation() {
    assert!(validate_version("17.0.12"));
    assert!(!validate_version("17.0"));
    assert!(!validate_version("17..12"));
    assert!(!validate_version("17.0.1a"));
    assert!(!validate_version(".1.2"));
    assert!(!validate_version(""));
}

#[test]
fn java_version_from_output() {
    let out = "java 17.0.12 2024-07-16 LTS\nJava(TM) SE Runtime Environment";
    assert_eq!(get_java_version_from(out), Some("17.0.12".to_string()));
    assert_eq!(get_java_version_from("openjdk 21-ea 2023"), None);
    assert_eq!(get_java_version_from("java"), None);
}

#[test]
fn deduplicate_keeps_first_occurrences() {
    let v: Vec<String> = ["17.0.9", "11.0.21", "17.0.9", "8.0.392", "11.0.21"].iter().map(|s| s.to_string()).collect();
    assert_eq!(deduplicate(&v), vec!["17.0.9", "11.0.21", "8.0.392"]);
}

#[test]
fn java_release_from_version() {
    assert_eq!(JavaVersion::from_version("17.0.9"), Some(JavaVersion::JDK17));
    assert_eq!(JavaVersion::from_version("8.0.392"), Some(JavaVersion::JDK8));
    assert_eq!(JavaVersion::from_version("17.0.12"), None);
}
