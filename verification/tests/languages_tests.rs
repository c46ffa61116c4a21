use evalx::languages::{
    CommandConfig, ConfigContent, ConfigError, ConfigFile, LanguageRegistry, LoadError,
    ResourceLimits, TomlConfig,
};

fn strings(v: &[&str]) -> Vec<String> {
    v.iter().map(|s| s.to_string()).collect()
}

fn python_config() -> TomlConfig {
    TomlConfig {
        is_compiled: false,
        source_filename: "main.py".to_string(),
        executable_filename: "main.py".to_string(),
        chroot_path: None,
        env_vars: vec![("PYTHONPATH".to_string(), "/usr/lib/python3.10".to_string())],
        mount_paths: vec![],
        compile: CommandConfig { command: strings(&["echo", "no-compile"]), limits: None },
        run: CommandConfig { command: strings(&["/usr/bin/python3", "main.py"]), limits: None },
        limits: ResourceLimits { time_s: 5, memory_kb: 131072, processes: 5 },
    }
}

fn cpp_config() -> TomlConfig {
    TomlConfig {
        is_compiled: true,
        source_filename: "main.cpp".to_string(),
        executable_filename: "main".to_string(),
        chroot_path: None,
        env_vars: vec![],
        mount_paths: vec![],
        compile: CommandConfig { command: strings(&["/usr/bin/g++", "-o", "main", "main.cpp"]), limits: None },
        run: CommandConfig {
            command: strings(&["./main"]),
            limits: Some(ResourceLimits { time_s: 10, memory_kb: 262144, processes: 10 }),
        },
        limits: ResourceLimits { time_s: 10, memory_kb: 262144, processes: 10 },
    }
}

fn file(path: &str, content: ConfigContent) -> ConfigFile {
    ConfigFile { path: path.to_string(), content, absent_host_paths: vec![] }
}

#[test]
fn parse_path_reads_language_and_version() {
    assert_eq!(
        LanguageRegistry::parse_path("config/languages/go_language/v1.21.toml"),
        Some(("go".to_string(), "1.21".to_string()))
    );
    assert_eq!(
        LanguageRegistry::parse_path("config/languages/python_language/v3.9.toml"),
        Some(("python".to_string(), "3.9".to_string()))
    );
}

#[test]
fn parse_path_renames_java_11() {
    assert_eq!(
        LanguageRegistry::parse_path("config/languages/java_language/v11.toml"),
        Some(("java11".to_string(), "11".to_string()))
    );
    assert_eq!(
        LanguageRegistry::parse_path("config/languages/java_language/v21.toml"),
        Some(("java".to_string(), "21".to_string()))
    );
}

#[test]
fn parse_path_refuses_other_shapes() {
    assert_eq!(LanguageRegistry::parse_path("config/languages/python/v3.9.toml"), None);
    assert_eq!(LanguageRegistry::parse_path("config/languages/python_language/3.9.toml"), None);
    assert_eq!(LanguageRegistry::parse_path("v3.9.toml"), None);
    assert_eq!(LanguageRegistry::parse_path("c_language/.."), None);
}

#[test]
fn parse_path_follows_path_rules() {
    // Repeated slashes and `.` components do not count; the stem keeps
    // everything before the last dot; a leading dot is no extension.
    assert_eq!(
        LanguageRegistry::parse_path("config//languages/./c_language/./v11.toml"),
        Some(("c".to_string(), "11".to_string()))
    );
    assert_eq!(
        LanguageRegistry::parse_path("/abs/c_language/v1.2.3.toml/"),
        Some(("c".to_string(), "1.2.3".to_string()))
    );
    assert_eq!(
        LanguageRegistry::parse_path("x/c_language/v"),
        Some(("c".to_string(), "".to_string()))
    );
}

#[test]
fn validate_config_reports_each_rule() {
    assert_eq!(LanguageRegistry::validate_config(&python_config()), Ok(()));
    assert_eq!(LanguageRegistry::validate_config(&cpp_config()), Ok(()));
    let mut c = python_config();
    c.source_filename = String::new();
    assert_eq!(LanguageRegistry::validate_config(&c), Err(ConfigError::EmptySourceFilename));
    let mut c = python_config();
    c.run.command = vec![];
    assert_eq!(LanguageRegistry::validate_config(&c), Err(ConfigError::EmptyRunCommand));
    let mut c = cpp_config();
    c.executable_filename = String::new();
    assert_eq!(LanguageRegistry::validate_config(&c), Err(ConfigError::EmptyExecutableFilename));
    let mut c = cpp_config();
    c.compile.command = vec![];
    assert_eq!(LanguageRegistry::validate_config(&c), Err(ConfigError::EmptyCompileCommand));
    let mut c = python_config();
    c.limits.time_s = 0;
    assert_eq!(LanguageRegistry::validate_config(&c), Err(ConfigError::TimeLimitOutOfRange));
    c.limits.time_s = 61;
    assert_eq!(LanguageRegistry::validate_config(&c), Err(ConfigError::TimeLimitOutOfRange));
    c.limits.time_s = 60;
    assert_eq!(LanguageRegistry::validate_config(&c), Ok(()));
    // An interpreted language needs neither.
    let mut c = python_config();
    c.compile.command = vec![];
    c.executable_filename = String::new();
    assert_eq!(LanguageRegistry::validate_config(&c), Ok(()));
}

#[test]
fn validate_paths_lists_absolute_paths_in_order() {
    assert_eq!(LanguageRegistry::validate_paths(&python_config()), strings(&["/usr/bin/python3"]));
    assert_eq!(LanguageRegistry::validate_paths(&cpp_config()), strings(&["/usr/bin/g++"]));
    let mut c = cpp_config();
    c.mount_paths = strings(&["dev", "/opt/jdk"]);
    c.chroot_path = Some("/srv/root".to_string());
    c.run.command = strings(&["/usr/bin/java", "Main"]);
    assert_eq!(
        LanguageRegistry::validate_paths(&c),
        strings(&["/usr/bin/g++", "/usr/bin/java", "/opt/jdk", "/srv/root"])
    );
}

#[test]
fn registry_loads_valid_files_and_skips_others() {
    let mut bad = cpp_config();
    bad.source_filename = String::new();
    let files = vec![
        file("config/languages/python_language/v3.9.toml", ConfigContent::Parsed(python_config())),
        file("config/languages/cpp_language/v11.toml", ConfigContent::Parsed(cpp_config())),
        file("config/languages/c_language/v11.toml", ConfigContent::Parsed(bad)),
        file("config/languages/notes.toml", ConfigContent::Unreadable),
    ];
    let reg = LanguageRegistry::new(files).unwrap();
    let py = reg.get("python:3.9").unwrap();
    assert_eq!(py.name, "python");
    assert_eq!(py.version, "3.9");
    assert_eq!(py.source_filename, "main.py");
    let cpp = reg.get("cpp:11").unwrap();
    assert!(cpp.is_compiled);
    assert_eq!(cpp.run.limits, Some(ResourceLimits { time_s: 10, memory_kb: 262144, processes: 10 }));
    assert!(reg.get("c:11").is_none());
    assert!(reg.get("python").is_none());
    let mut names: Vec<String> = reg.list_all().into_iter().map(|c| format!("{}:{}", c.name, c.version)).collect();
    names.sort();
    assert_eq!(names, strings(&["cpp:11", "python:3.9"]));
}

#[test]
fn registry_later_file_replaces_earlier() {
    let mut second = python_config();
    second.source_filename = "app.py".to_string();
    let files = vec![
        file("a/python_language/v3.9.toml", ConfigContent::Parsed(python_config())),
        file("b/python_language/v3.9.toml", ConfigContent::Parsed(second)),
    ];
    let reg = LanguageRegistry::new(files).unwrap();
    assert_eq!(reg.get("python:3.9").unwrap().source_filename, "app.py");
    assert_eq!(reg.list_all().len(), 1);
}

#[test]
fn registry_load_errors() {
    let files = vec![file("config/languages/go_language/v1.21.toml", ConfigContent::Unparsable)];
    match LanguageRegistry::new(files) {
        Err(LoadError::Unparsable { path }) => assert_eq!(path, "config/languages/go_language/v1.21.toml"),
        other => panic!("unexpected {:?}", other.map(|_| ())),
    }
    let files = vec![file("config/languages/go_language/v1.21.toml", ConfigContent::Unreadable)];
    assert!(matches!(LanguageRegistry::new(files), Err(LoadError::Unreadable { .. })));
    let mut f = file("config/languages/cpp_language/v11.toml", ConfigContent::Parsed(cpp_config()));
    f.absent_host_paths = strings(&["/usr/bin/g++"]);
    match LanguageRegistry::new(vec![f]) {
        Err(LoadError::MissingHostPath { config_path, missing }) => {
            assert_eq!(config_path, "config/languages/cpp_language/v11.toml");
            assert_eq!(missing, "/usr/bin/g++");
        }
        other => panic!("unexpected {:?}", other.map(|_| ())),
    }
    // An empty directory gives an empty registry.
    let reg = LanguageRegistry::new(vec![]).unwrap();
    assert!(reg.list_all().is_empty());
}

#[test]
fn registry_insert_config_keys_by_name_and_version() {
    let mut reg = LanguageRegistry::empty();
    reg.insert_config("ruby".to_string(), "3.2".to_string(), python_config());
    assert_eq!(reg.get("ruby:3.2").unwrap().run.command, strings(&["/usr/bin/python3", "main.py"]));
    assert_eq!(reg.get("ruby:3.2").unwrap().env_vars, vec![("PYTHONPATH".to_string(), "/usr/lib/python3.10".to_string())]);
}

#[test]
fn validate_config_checks_step_time_limits() {
    let mut c = cpp_config();
    c.compile.limits = Some(ResourceLimits { time_s: 0, memory_kb: 1, processes: 1 });
    assert_eq!(LanguageRegistry::validate_config(&c), Err(ConfigError::TimeLimitOutOfRange));
    c.compile.limits = Some(ResourceLimits { time_s: 60, memory_kb: 1, processes: 1 });
    assert_eq!(LanguageRegistry::validate_config(&c), Ok(()));
    c.run.limits = Some(ResourceLimits { time_s: 61, memory_kb: 1, processes: 1 });
    assert_eq!(LanguageRegistry::validate_config(&c), Err(ConfigError::TimeLimitOutOfRange));
    c.run.limits = None;
    assert_eq!(LanguageRegistry::validate_config(&c), Ok(()));
}

#[test]
fn registry_holds_only_valid_configs_once_each() {
    let mut bad = cpp_config();
    bad.run.limits = Some(ResourceLimits { time_s: 90, memory_kb: 1, processes: 1 });
    let files = vec![
        file("config/languages/python_language/v3.9.toml", ConfigContent::Parsed(python_config())),
        file("config/languages/cpp_language/v11.toml", ConfigContent::Parsed(bad)),
        file("config/languages/python_language/v3.9.toml", ConfigContent::Parsed(python_config())),
    ];
    let reg = LanguageRegistry::new(files).unwrap();
    assert_eq!(reg.list_all().len(), 1);
    assert!(reg.get("cpp:11").is_none());
    let py = reg.get("python:3.9").unwrap();
    assert_eq!(LanguageRegistry::validate_config(&TomlConfig {
        is_compiled: py.is_compiled,
        source_filename: py.source_filename.clone(),
        executable_filename: py.executable_filename.clone(),
        chroot_path: py.chroot_path.clone(),
        env_vars: py.env_vars.clone(),
        mount_paths: py.mount_paths.clone(),
        compile: py.compile.clone(),
        run: py.run.clone(),
        limits: py.limits,
    }), Ok(()));
}
