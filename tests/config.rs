use dev_env::environment::{activate_profile, executable_path, get_enviroment, is_supported_env, Environment};
use dev_env::layout::{default_index, get_cache_dir, get_env_home_dir, get_home_config_path, version_in_dir_name};
use dev_env::repository::{choose_package, default_format, normalize_arch, normalize_os};
use dev_env::vars::{get_vars, handle_vars};

fn java() -> Environment {
    Environment {
        name: "Java".to_string(),
        description: "JDK".to_string(),
        args: Vec::new(),
        executable: vec!["%INSTALL_DIR%".to_string(), "bin".to_string()],
        environment: vec![("JAVA_HOME".to_string(), "%INSTALL_DIR%".to_string())],
        repository: "https://x/%version%/jdk-%version%_%platform%-%arch%_bin.%format%".to_string(),
        support: None,
    }
}

#[test]
fn placeholders_are_substituted() {
    let vars = get_vars("/r/Java/java-17.0.9", &vec![("HOME".to_string(), "/home/u".to_string())]);
    assert_eq!(vars[0], ("INSTALL_DIR".to_string(), "/r/Java/java-17.0.9".to_string()));
    assert_eq!(handle_vars("%INSTALL_DIR%/bin:%HOME%/x:%NOPE%", &vars), "/r/Java/java-17.0.9/bin:/home/u/x:%NOPE%");
    assert_eq!(handle_vars("no placeholders", &vars), "no placeholders");
    let clash = get_vars("/i", &vec![
        ("INSTALL_DIR".to_string(), "/other".to_string()),
        ("A".to_string(), "1".to_string()),
        ("A".to_string(), "2".to_string()),
    ]);
    assert_eq!(clash, vec![("INSTALL_DIR".to_string(), "/i".to_string()), ("A".to_string(), "1".to_string())]);
}

#[test]
fn activation_sets_variables_and_path() {
    let vars = get_vars("/r/Java/java-17.0.9", &Vec::new());
    let env = java();
    assert_eq!(executable_path(&env, &vars), "/r/Java/java-17.0.9/bin");
    let once = activate_profile("export JAVA_HOME=/old", &env, &vars);
    assert_eq!(once, "export JAVA_HOME=/r/Java/java-17.0.9\nexport PATH=$PATH:/r/Java/java-17.0.9/bin");
    let twice = activate_profile(&once, &env, &vars);
    assert_eq!(twice, "export PATH=$PATH:/r/Java/java-17.0.9/bin\nexport JAVA_HOME=/r/Java/java-17.0.9");
    assert_eq!(activate_profile(&twice, &env, &vars), twice);
    assert!(env.has_unique_names());
    let mut dup = java();
    dup.environment.push(("JAVA_HOME".to_string(), "/x".to_string()));
    assert!(!dup.has_unique_names());
}

#[test]
fn environment_lookup_ignores_case() {
    let mut envs = vec![java()];
    let mut go = java();
    go.name = "Go".to_string();
    go.support = Some(false);
    envs.push(go);
    assert_eq!(get_enviroment(&envs, "JAVA"), Some(0));
    assert_eq!(get_enviroment(&envs, "go"), Some(1));
    assert_eq!(get_enviroment(&envs, "rust"), None);
    assert!(is_supported_env(&envs[0]));
    assert!(!is_supported_env(&envs[1]));
}

#[test]
fn package_urls() {
    assert_eq!(normalize_os("darwin"), "macos");
    assert_eq!(normalize_arch("amd64"), "x64");
    assert_eq!(normalize_arch("riscv64"), "riscv64");
    assert_eq!(default_format("windows"), "zip");
    assert_eq!(default_format("linux"), "tar.gz");
    let t = java().repository;
    assert_eq!(choose_package(&t, "17.0.9", "linux", "x64", "tar.gz", None), "https://x/17.0.9/jdk-17.0.9_linux-x64_bin.tar.gz");
    assert_eq!(choose_package(&t, "17.0.9", "linux", "x64", "tar.gz", Some("https://mirror/j.tgz")), "https://mirror/j.tgz");
    assert_eq!(choose_package("https://r/%arch%/rustup-init", "1.74.1", "windows", "x64", "zip", None), "https://r/x64/rustup-init.exe");
}

#[test]
fn home_paths() {
    assert_eq!(get_env_home_dir("/home/u"), "/home/u/.dev_env");
    assert_eq!(get_home_config_path("/home/u"), "/home/u/.dev_env/.env.config.json");
    assert_eq!(get_cache_dir("/tmp"), "/tmp/env_download_cache");
}

#[test]
fn install_directory_names() {
    assert_eq!(version_in_dir_name("java", "java-17.0.9"), Some("17.0.9".to_string()));
    assert_eq!(version_in_dir_name("java", "temp"), None);
    assert_eq!(version_in_dir_name("java", "java"), None);
    let versions = vec!["11.0.21".to_string(), "17.0.9".to_string()];
    assert_eq!(default_index(&versions, Some("17.0.9")), 1);
    assert_eq!(default_index(&versions, Some("21.0.1")), 0);
    assert_eq!(default_index(&versions, None), 0);
}
