//! Where the store keeps its file.

use vstd::prelude::*;

verus! {

/// The name of the environment variable that overrides the path of the
/// backing file.
pub const SLATE_FILEPATH: &'static str = "SLATE_FILEPATH";

/// The name of the backing file in the user's home directory.
pub const DEFAULT_NAME: &'static str = ".slate";

/// Why an environment variable has no value to give.
#[derive(Clone, Copy, Debug, PartialEq, Eq, Structural)]
pub enum VarError {
    /// The variable is not set.
    NotPresent,
    /// The variable's value is not valid Unicode.
    NotUnicode,
}

/// The environment, as far as the configuration reads it.
///
/// An environment may answer differently from one moment to the next, so the
/// contracts speak of what it may answer, not of what it holds. The two
/// relations say which answers the methods can give. As they stand they
/// admit every answer, which is true of any environment; an implementation
/// that knows more of itself says so by giving them bodies of its own.
pub trait EnvWrapper {
    /// `answer` is something that the environment may say of the variable
    /// `var`.
    open spec fn may_say(&self, var: Seq<char>, answer: Result<String, VarError>) -> bool {
        true
    }

    /// `home` is something that the environment may say of the user's home
    /// directory.
    open spec fn may_live(&self, home: Option<String>) -> bool {
        true
    }

    /// The value of the environment variable `var`.
    fn var(&self, var: &str) -> (answer: Result<String, VarError>)
        ensures
            self.may_say(var@, answer),
    ;

    /// The user's home directory, if there is one.
    fn home_dir(&self) -> (home: Option<String>)
        ensures
            self.may_live(home),
    ;
}

/// The configuration of a store.
#[derive(Clone, Debug, PartialEq, Eq)]
pub struct Config {
    /// Path of the backing file.
    pub filepath: String,
}

/// The path of `name` inside the directory `home`: the two are joined by one
/// `/`, which is left out where `home` is empty or ends in one already.
pub open spec fn joined(home: Seq<char>, name: Seq<char>) -> Seq<char> {
    if home.len() == 0 || home.last() == '/' {
        home + name
    } else {
        home + seq!['/'] + name
    }
}

/// The path that the configuration settles on: the override where the
/// variable gave one, else the default file in the home directory; none
/// where there is neither.
pub open spec fn settled(var: Result<String, VarError>, home: Option<String>) -> Option<Seq<char>> {
    match var {
        Ok(path) => Some(path@),
        Err(_) => match home {
            Some(dir) => Some(joined(dir@, DEFAULT_NAME@)),
            None => None,
        },
    }
}

/// What the configuration asks of an environment, and what the environment
/// may answer: `var` of the variable [`SLATE_FILEPATH`], and `home` of the
/// home directory where the variable gave no path. Where it gave one, the
/// home directory is not asked for and `home` may be anything.
pub open spec fn asked<T: EnvWrapper>(
    wrapper: T,
    var: Result<String, VarError>,
    home: Option<String>,
) -> bool {
    &&& wrapper.may_say(SLATE_FILEPATH@, var)
    &&& var is Err ==> wrapper.may_live(home)
}

/// `config` is the configuration for the two answers of the environment:
/// it holds the path that they settle on, and there is none where they
/// settle on none.
pub open spec fn comes_of(
    config: Option<Config>,
    var: Result<String, VarError>,
    home: Option<String>,
) -> bool {
    &&& config is Some <==> settled(var, home) is Some
    &&& config is Some ==> config->0.filepath@ == settled(var, home)->0
}

impl Config {
    /// The configuration for what was read from the environment: `var` is
    /// the value of the variable [`SLATE_FILEPATH`], `home` the user's home
    /// directory. There is none where the variable gave no path and no home
    /// directory is known.
    pub fn from_env(var: Result<String, VarError>, home: Option<String>) -> (config: Option<Config>)
        ensures
            comes_of(config, var, home),
    {
        match var {
            Ok(path) => Some(Config { filepath: path }),
            Err(_) => match home {
                Some(dir) => {
                    let mut path = dir;
                    let n = path.as_str().unicode_len();
                    if n > 0 && path.as_str().get_char(n - 1) != '/' {
                        proof {
                            reveal_strlit("/");
                            assert("/"@ =~= seq!['/']);
                        }
                        path.append("/");
                    }
                    path.append(DEFAULT_NAME);
                    Some(Config { filepath: path })
                },
                None => None,
            },
        }
    }

    /// The configuration that the environment `wrapper` gives. It is asked
    /// for the variable [`SLATE_FILEPATH`], and for the home directory only
    /// where the variable gave no path; the home directory plays no part
    /// where it did. The result is what [`Config::from_env`] makes of the
    /// answers.
    pub fn new<T: EnvWrapper>(wrapper: T) -> (config: Option<Config>)
        ensures
            exists|var: Result<String, VarError>, home: Option<String>|
                asked(wrapper, var, home) && #[trigger] comes_of(config, var, home),
    {
        match wrapper.var(SLATE_FILEPATH) {
            Ok(path) => {
                let config = Config::from_env(Ok(path), None);
                assert(asked(wrapper, Ok(path), None) && comes_of(config, Ok(path), None));
                config
            },
            Err(err) => {
                let home = wrapper.home_dir();
                let config = Config::from_env(Err(err), home);
                assert(asked(wrapper, Err(err), home) && comes_of(config, Err(err), home));
                config
            },
        }
    }
}

} // verus!
