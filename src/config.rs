use vstd::prelude::*;
use vstd::string::*;
use crate::error::Error;
use crate::text::{i64_of, parse_i64, same_text};

verus! {

/// The settings of the service, read once at start-up.
#[allow(non_snake_case)]
pub struct Config {
    pub ADMIN_ID: i64,
    pub TG_GROUP_ID: i64,
    pub DB_URL: String,
    pub AMO_CITY_URL: String,
    pub AMO_CITY_TOKEN: String,
    pub AMO_FORMAT_URL: String,
    pub AMO_FORMAT_TOKEN: String,
    pub PROF_CITY_URL: String,
    pub PROF_CITY_API_KEY: String,
    pub PROF_FORMAT_URL: String,
    pub PROF_FORMAT_API_KEY: String,
    pub SCHEDULE: String,
}

/// The value of the first variable named `name`, if any.
pub open spec fn env_lookup(env: Seq<(String, String)>, name: Seq<char>) -> Option<Seq<char>>
    decreases env.len(),
{
    if env.len() == 0 {
        None
    } else if env[0].0@ == name {
        Some(env[0].1@)
    } else {
        env_lookup(env.drop_first(), name)
    }
}

/// The problem with a text setting, else the problem found after it.
pub open spec fn text_setting(
    env: Seq<(String, String)>,
    name: Seq<char>,
    rest: Option<(bool, Seq<char>)>,
) -> Option<(bool, Seq<char>)> {
    if env_lookup(env, name) is None {
        Some((true, name))
    } else {
        rest
    }
}

/// The problem with an integer setting, else the problem found after it.
pub open spec fn int_setting(
    env: Seq<(String, String)>,
    name: Seq<char>,
    rest: Option<(bool, Seq<char>)>,
) -> Option<(bool, Seq<char>)> {
    match env_lookup(env, name) {
        None => Some((true, name)),
        Some(v) => if i64_of(v) is None { Some((false, name)) } else { rest },
    }
}

/// The first setting, in the order of `Config`'s fields, that is missing
/// (`true`) or malformed (`false`), with its name; `None` when all are fine.
pub open spec fn config_problem(env: Seq<(String, String)>) -> Option<(bool, Seq<char>)> {
    int_setting(env, "TG_HANMASTER_ID"@,
    int_setting(env, "TG_GROUP_ID"@,
    text_setting(env, "DB_URL"@,
    text_setting(env, "AMO_CITY_URL"@,
    text_setting(env, "AMO_CITY_TOKEN"@,
    text_setting(env, "AMO_FORMAT_URL"@,
    text_setting(env, "AMO_FORMAT_TOKEN"@,
    text_setting(env, "PROF_CITY_URL"@,
    text_setting(env, "PROF_CITY_API_KEY"@,
    text_setting(env, "PROF_FORMAT_URL"@,
    text_setting(env, "PROF_FORMAT_API_KEY"@,
    text_setting(env, "SCHEDULE"@, None))))))))))))
}

/// `c` holds the settings that `env` gives.
pub open spec fn config_matches(c: Config, env: Seq<(String, String)>) -> bool {
    &&& Some(c.ADMIN_ID) == i64_of(env_lookup(env, "TG_HANMASTER_ID"@).unwrap())
    &&& Some(c.TG_GROUP_ID) == i64_of(env_lookup(env, "TG_GROUP_ID"@).unwrap())
    &&& Some(c.DB_URL@) == env_lookup(env, "DB_URL"@)
    &&& Some(c.AMO_CITY_URL@) == env_lookup(env, "AMO_CITY_URL"@)
    &&& Some(c.AMO_CITY_TOKEN@) == env_lookup(env, "AMO_CITY_TOKEN"@)
    &&& Some(c.AMO_FORMAT_URL@) == env_lookup(env, "AMO_FORMAT_URL"@)
    &&& Some(c.AMO_FORMAT_TOKEN@) == env_lookup(env, "AMO_FORMAT_TOKEN"@)
    &&& Some(c.PROF_CITY_URL@) == env_lookup(env, "PROF_CITY_URL"@)
    &&& Some(c.PROF_CITY_API_KEY@) == env_lookup(env, "PROF_CITY_API_KEY"@)
    &&& Some(c.PROF_FORMAT_URL@) == env_lookup(env, "PROF_FORMAT_URL"@)
    &&& Some(c.PROF_FORMAT_API_KEY@) == env_lookup(env, "PROF_FORMAT_API_KEY"@)
    &&& Some(c.SCHEDULE@) == env_lookup(env, "SCHEDULE"@)
}

/// The error that a setting problem gives.
pub open spec fn is_config_error(e: Error, problem: (bool, Seq<char>)) -> bool {
    if problem.0 {
        e matches Error::ConfigMissingEnv(n) && n@ == problem.1
    } else {
        e matches Error::ConfigWrongFormat(n) && n@ == problem.1
    }
}

/// The value of the variable `name`, or `ConfigMissingEnv` naming it.
pub fn get_env(name: &str, env: &Vec<(String, String)>) -> (r: Result<String, Error>)
    ensures
        match env_lookup(env@, name@) {
            Some(v) => (r matches Ok(s) && s@ == v),
            None => (r matches Err(Error::ConfigMissingEnv(n)) && n@ == name@),
        },
{
    let mut i: usize = 0;
    assert(env@.subrange(0, env@.len() as int) =~= env@);
    while i < env.len()
        invariant
            0 <= i <= env@.len(),
            env_lookup(env@, name@) == env_lookup(env@.subrange(i as int, env@.len() as int), name@),
        decreases env@.len() - i,
    {
        let ghost rest = env@.subrange(i as int, env@.len() as int);
        assert(rest.drop_first() =~= env@.subrange(i + 1, env@.len() as int));
        if same_text(env[i].0.as_str(), name) {
            return Ok(env[i].1.clone());
        }
        i = i + 1;
    }
    Err(Error::ConfigMissingEnv(String::from_str(name)))
}

/// The variable `name` read as an integer: `ConfigMissingEnv` where it is
/// absent, `ConfigWrongFormat` where it is no `i64`.
pub fn get_env_as_parse(name: &str, env: &Vec<(String, String)>) -> (r: Result<i64, Error>)
    ensures
        match env_lookup(env@, name@) {
            Some(v) => match i64_of(v) {
                Some(x) => r == Ok::<i64, Error>(x),
                None => (r matches Err(Error::ConfigWrongFormat(n)) && n@ == name@),
            },
            None => (r matches Err(Error::ConfigMissingEnv(n)) && n@ == name@),
        },
{
    let val = match get_env(name, env) {
        Ok(v) => v,
        Err(e) => {
            return Err(e);
        },
    };
    match parse_i64(val.as_str()) {
        Some(x) => Ok(x),
        None => Err(Error::ConfigWrongFormat(String::from_str(name))),
    }
}

impl Config {
    /// Reads every setting from the environment's variables, failing on the
    /// first, in field order, that is missing or malformed.
    pub fn load_from_env(env: &Vec<(String, String)>) -> (r: Result<Config, Error>)
        ensures
            match config_problem(env@) {
                None => (r matches Ok(c) && config_matches(c, env@)),
                Some(p) => (r matches Err(e) && is_config_error(e, p)),
            },
    {
        let admin = match get_env_as_parse("TG_HANMASTER_ID", env) {
            Ok(v) => v,
            Err(e) => {
                return Err(e);
            },
        };
        let group = match get_env_as_parse("TG_GROUP_ID", env) {
            Ok(v) => v,
            Err(e) => {
                return Err(e);
            },
        };
        let db_url = match get_env("DB_URL", env) {
            Ok(v) => v,
            Err(e) => {
                return Err(e);
            },
        };
        let amo_city_url = match get_env("AMO_CITY_URL", env) {
            Ok(v) => v,
            Err(e) => {
                return Err(e);
            },
        };
        let amo_city_token = match get_env("AMO_CITY_TOKEN", env) {
            Ok(v) => v,
            Err(e) => {
                return Err(e);
            },
        };
        let amo_format_url = match get_env("AMO_FORMAT_URL", env) {
            Ok(v) => v,
            Err(e) => {
                return Err(e);
            },
        };
        let amo_format_token = match get_env("AMO_FORMAT_TOKEN", env) {
            Ok(v) => v,
            Err(e) => {
                return Err(e);
            },
        };
        let prof_city_url = match get_env("PROF_CITY_URL", env) {
            Ok(v) => v,
            Err(e) => {
                return Err(e);
            },
        };
        let prof_city_api_key = match get_env("PROF_CITY_API_KEY", env) {
            Ok(v) => v,
            Err(e) => {
                return Err(e);
            },
        };
        let prof_format_url = match get_env("PROF_FORMAT_URL", env) {
            Ok(v) => v,
            Err(e) => {
                return Err(e);
            },
        };
        let prof_format_api_key = match get_env("PROF_FORMAT_API_KEY", env) {
            Ok(v) => v,
            Err(e) => {
                return Err(e);
            },
        };
        let schedule = match get_env("SCHEDULE", env) {
            Ok(v) => v,
            Err(e) => {
                return Err(e);
            },
        };
        Ok(
            Config {
                ADMIN_ID: admin,
                TG_GROUP_ID: group,
                DB_URL: db_url,
                AMO_CITY_URL: amo_city_url,
                AMO_CITY_TOKEN: amo_city_token,
                AMO_FORMAT_URL: amo_format_url,
                AMO_FORMAT_TOKEN: amo_format_token,
                PROF_CITY_URL: prof_city_url,
                PROF_CITY_API_KEY: prof_city_api_key,
                PROF_FORMAT_URL: prof_format_url,
                PROF_FORMAT_API_KEY: prof_format_api_key,
                SCHEDULE: schedule,
            },
        )
    }
}

/// The service's settings from the environment's variables, built once at
/// start-up and handed to each part that needs them.
pub fn config(env: &Vec<(String, String)>) -> (r: Result<Config, Error>)
    ensures
        match config_problem(env@) {
            None => (r matches Ok(c) && config_matches(c, env@)),
            Some(p) => (r matches Err(e) && is_config_error(e, p)),
        },
{
    Config::load_from_env(env)
}

} // verus!
