use dev_env::profile::{registry_path_value, set_persistent_env, set_persistent_path};

#[test]
fn test_set_persistent_path() {
    let r = set_persistent_path("", None, "E:\\project\\rust-project\\env");
    assert_eq!(r, "export PATH=$PATH:E:\\project\\rust-project\\env");
}

#[test]
fn test_set_persistent_env() {
    let r = set_persistent_env("", "test", "hellod");
    assert_eq!(r, "export test=hellod");
}

#[test]
fn set_env_replaces_every_earlier_assignment() {
    let profile = "alias ll='ls -l'\nexport JAVA_HOME=/old\nexport PATH=$PATH:/x\nexport JAVA_HOME=/older";
    let r = set_persistent_env(profile, "JAVA_HOME", "/opt/java-17.0.9");
    assert_eq!(r, "alias ll='ls -l'\nexport PATH=$PATH:/x\nexport JAVA_HOME=/opt/java-17.0.9");
}

#[test]
fn set_env_twice_leaves_one_assignment() {
    let once = set_persistent_env("export A=1\n", "JAVA_HOME", "/j");
    let twice = set_persistent_env(&once, "JAVA_HOME", "/j");
    assert_eq!(once, twice);
    assert_eq!(twice.matches("export JAVA_HOME=").count(), 1);
}

#[test]
fn set_env_keeps_variables_sharing_a_prefix() {
    let r = set_persistent_env("export JAVA_HOME_OLD=/a", "JAVA_HOME", "/b");
    assert_eq!(r, "export JAVA_HOME_OLD=/a\nexport JAVA_HOME=/b");
}

#[test]
fn extend_path_appends_to_existing_path_line() {
    let r = set_persistent_path("export PATH=/usr/bin:/bin", Some("JAVA_HOME"), "bin");
    assert_eq!(r, "export PATH=/usr/bin:/bin:$JAVA_HOME/bin");
}

#[test]
fn extend_path_twice_lists_segment_once() {
    let once = set_persistent_path("export PATH=/usr/bin", Some("JAVA_HOME"), "bin");
    let twice = set_persistent_path(&once, Some("JAVA_HOME"), "bin");
    assert_eq!(once, twice);
    assert_eq!(twice.matches("$JAVA_HOME/bin").count(), 1);
    let fresh = set_persistent_path("", None, "/opt/go/bin");
    assert_eq!(set_persistent_path(&fresh, None, "/opt/go/bin"), fresh);
}

#[test]
fn extend_path_leaves_listed_segment_alone() {
    let profile = "export PATH=/a:/b";
    assert_eq!(set_persistent_path(profile, None, "/a"), profile);
}

#[test]
fn registry_path_puts_new_segment_first() {
    assert_eq!(registry_path_value(Some("JAVA_HOME"), "bin", "C:\\x"), "%JAVA_HOME%/bin;C:\\x");
    assert_eq!(registry_path_value(None, "C:\\go\\bin", "C:\\x"), "C:\\go\\bin;C:\\x");
}

#[test]
fn registry_path_twice_lists_segment_once() {
    let once = registry_path_value(Some("JAVA_HOME"), "bin", "C:\\x;C:\\y");
    let twice = registry_path_value(Some("JAVA_HOME"), "bin", &once);
    assert_eq!(once, twice);
    assert_eq!(registry_path_value(None, "C:\\y", "C:\\x;C:\\y"), "C:\\x;C:\\y");
}

#[test]
fn bare_path_line_is_rewritten_exported() {
    assert_eq!(set_persistent_path("PATH=/a", None, "/b"), "export PATH=/a:/b");
    assert_eq!(set_persistent_path("PATH=/a:/b", None, "/b"), "PATH=/a:/b");
    let once = set_persistent_path("# x\nPATH=/a\nexport PATH=/c", Some("GOROOT"), "bin");
    assert_eq!(once, "# x\nexport PATH=/a:$GOROOT/bin\nexport PATH=/c:$GOROOT/bin");
    assert_eq!(set_persistent_path(&once, Some("GOROOT"), "bin"), once);
}

#[test]
fn bare_assignment_is_replaced() {
    let r = set_persistent_env("JAVA_HOME=/old\nexport JAVA_HOME=/older\nJAVA_HOMEX=/k", "JAVA_HOME", "/new");
    assert_eq!(r, "JAVA_HOMEX=/k\nexport JAVA_HOME=/new");
}
