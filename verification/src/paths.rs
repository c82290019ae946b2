//! Path resolver: the fixed on-disk layout under the user's home
//! directory. The derivation from a resolved home is a verified function
//! with an exact contract; only the home lookup itself is trusted. No
//! directory is created here; writers do that.

use vstd::prelude::*;

verus! {

/// The error text returned whenever the home directory cannot be resolved.
pub open spec fn home_unavailable_msg() -> Seq<char> {
    "Could not find home directory"@
}

/// The user's home directory as a plain string, if the environment can
/// resolve one.
///
/// Relies on dirs::home_dir: returns the current user's home directory, or
/// None when the environment does not provide one. The result depends on
/// the environment, so nothing is promised of it; a path that is not valid
/// UTF-8 is treated as unavailable.
#[verifier::external_body]
fn home_dir_string() -> Option<String> {
    dirs::home_dir().and_then(|p| p.into_os_string().into_string().ok())
}

/// The application directory under a given home: exactly `<home>/.macbot`.
pub fn macbot_dir_of(home: &str) -> (r: String)
    ensures
        r@ == home@ + "/.macbot"@,
{
    String::from_str(home).concat("/.macbot")
}

/// The state file under a given application directory: exactly
/// `<dir>/onboarding.json`.
pub fn onboarding_path_in(dir: &str) -> (r: String)
    ensures
        r@ == dir@ + "/onboarding.json"@,
{
    String::from_str(dir).concat("/onboarding.json")
}

/// The config file under a given application directory: exactly
/// `<dir>/.env`.
pub fn env_path_in(dir: &str) -> (r: String)
    ensures
        r@ == dir@ + "/.env"@,
{
    String::from_str(dir).concat("/.env")
}

/// The PID-record file under a given application directory: exactly
/// `<dir>/service.pid`.
pub fn pid_path_in(dir: &str) -> (r: String)
    ensures
        r@ == dir@ + "/service.pid"@,
{
    String::from_str(dir).concat("/service.pid")
}

/// The per-user application directory `<home>/.macbot` for the home the
/// environment resolves, or the home-unavailable error. The derivation
/// from the home is [`macbot_dir_of`], whose contract is exact; what this
/// function can promise of its own result is bounded by the environment
/// lookup, of which nothing is known.
pub fn get_macbot_dir() -> (r: Result<String, String>)
    ensures
        r matches Ok(p) ==> exists|h: Seq<char>| p@ == h + "/.macbot"@,
        r matches Err(e) ==> e@ == home_unavailable_msg(),
{
    match home_dir_string() {
        Some(home) => {
            let ghost h = home@;
            let dir = macbot_dir_of(home.as_str());
            proof {
                assert(dir@ == h + "/.macbot"@);
            }
            Ok(dir)
        },
        None => Err(String::from_str("Could not find home directory")),
    }
}

/// `<home>/.macbot/onboarding.json` for the resolved home: the composition
/// of [`macbot_dir_of`] and [`onboarding_path_in`], or the
/// home-unavailable error.
pub fn get_onboarding_path() -> (r: Result<String, String>)
    ensures
        r matches Ok(p) ==> exists|h: Seq<char>| p@ == h + "/.macbot/onboarding.json"@,
        r matches Err(e) ==> e@ == home_unavailable_msg(),
{
    match get_macbot_dir() {
        Ok(dir) => {
            let ghost h = choose|h: Seq<char>| dir@ == h + "/.macbot"@;
            let p = onboarding_path_in(dir.as_str());
            proof {
                reveal_strlit("/.macbot");
                reveal_strlit("/onboarding.json");
                reveal_strlit("/.macbot/onboarding.json");
                assert(p@ =~= h + "/.macbot/onboarding.json"@);
            }
            Ok(p)
        },
        Err(e) => Err(e),
    }
}

/// `<home>/.macbot/.env` for the resolved home: the composition of
/// [`macbot_dir_of`] and [`env_path_in`], or the home-unavailable error.
pub fn get_env_path() -> (r: Result<String, String>)
    ensures
        r matches Ok(p) ==> exists|h: Seq<char>| p@ == h + "/.macbot/.env"@,
        r matches Err(e) ==> e@ == home_unavailable_msg(),
{
    match get_macbot_dir() {
        Ok(dir) => {
            let ghost h = choose|h: Seq<char>| dir@ == h + "/.macbot"@;
            let p = env_path_in(dir.as_str());
            proof {
                reveal_strlit("/.macbot");
                reveal_strlit("/.env");
                reveal_strlit("/.macbot/.env");
                assert(p@ =~= h + "/.macbot/.env"@);
            }
            Ok(p)
        },
        Err(e) => Err(e),
    }
}

/// `<home>/.macbot/service.pid` for the resolved home: the composition of
/// [`macbot_dir_of`] and [`pid_path_in`], or the home-unavailable error.
pub fn get_pid_path() -> (r: Result<String, String>)
    ensures
        r matches Ok(p) ==> exists|h: Seq<char>| p@ == h + "/.macbot/service.pid"@,
        r matches Err(e) ==> e@ == home_unavailable_msg(),
{
    match get_macbot_dir() {
        Ok(dir) => {
            let ghost h = choose|h: Seq<char>| dir@ == h + "/.macbot"@;
            let p = pid_path_in(dir.as_str());
            proof {
                reveal_strlit("/.macbot");
                reveal_strlit("/service.pid");
                reveal_strlit("/.macbot/service.pid");
                assert(p@ =~= h + "/.macbot/service.pid"@);
            }
            Ok(p)
        },
        Err(e) => Err(e),
    }
}

} // verus!
