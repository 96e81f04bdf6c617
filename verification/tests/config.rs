use slate::config::{Config, EnvWrapper, VarError, DEFAULT_NAME, SLATE_FILEPATH};

struct MockEnv {
    value: Option<bool>,
}

impl EnvWrapper for MockEnv {
    fn var(&self, _var: &str) -> Result<String, VarError> {
        match self.value {
            Some(_) => Ok("/tmp/slate".to_string()),
            None => Err(VarError::NotPresent),
        }
    }

    fn home_dir(&self) -> Option<String> {
        Some("/home/someone".to_string())
    }
}

struct Homeless;

impl EnvWrapper for Homeless {
    fn var(&self, var: &str) -> Result<String, VarError> {
        assert_eq!("SLATE_FILEPATH", var);
        Err(VarError::NotUnicode)
    }

    fn home_dir(&self) -> Option<String> {
        None
    }
}

struct OverrideOnly;

impl EnvWrapper for OverrideOnly {
    fn var(&self, var: &str) -> Result<String, VarError> {
        assert_eq!(SLATE_FILEPATH, var);
        Ok("relative/file".to_string())
    }

    fn home_dir(&self) -> Option<String> {
        panic!("the home directory is not needed where the variable is set");
    }
}

#[test]
fn it_uses_the_homedir_as_default_path() {
    let wrapper = MockEnv { value: None };
    let config: Config = Config::new(wrapper).unwrap();
    let mut expected: String = "/home/someone".to_string();
    expected.push_str("/.slate");

    assert_eq!(expected, config.filepath);
}

#[test]
fn it_uses_the_environment_var_if_set() {
    let wrapper = MockEnv { value: Some(true) };
    let config: Config = Config::new(wrapper).unwrap();
    let expected: String = String::from("/tmp/slate");

    assert_eq!(expected, config.filepath);
}

#[test]
fn there_is_no_configuration_without_variable_and_home() {
    assert_eq!(None, Config::new(Homeless));
    assert_eq!(None, Config::from_env(Err(VarError::NotPresent), None));
}

#[test]
fn the_home_directory_is_asked_only_when_needed() {
    let config = Config::new(OverrideOnly).unwrap();

    assert_eq!("relative/file", config.filepath);
}

#[test]
fn the_variable_wins_over_the_home_directory() {
    let config = Config::from_env(Ok("/var/slate.json".to_string()), Some("/home/me".to_string()));

    assert_eq!(Some(Config { filepath: "/var/slate.json".to_string() }), config);
}

#[test]
fn an_empty_override_is_an_override() {
    let config = Config::from_env(Ok(String::new()), Some("/home/me".to_string()));

    assert_eq!(Some(Config { filepath: String::new() }), config);
}

#[test]
fn the_default_file_is_joined_to_the_home_directory() {
    let path = |home: &str| Config::from_env(Err(VarError::NotPresent), Some(home.to_string())).unwrap().filepath;

    assert_eq!("/home/me/.slate", path("/home/me"));
    assert_eq!("/home/me/.slate", path("/home/me/"));
    assert_eq!("/.slate", path("/"));
    assert_eq!(".slate", path(""));
    assert_eq!("/h\u{f6}me/.slate", path("/h\u{f6}me"));
    assert_eq!(".slate", DEFAULT_NAME);
}
