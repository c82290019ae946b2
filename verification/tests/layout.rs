use macbot_core::paths::{get_env_path, get_macbot_dir, get_onboarding_path, get_pid_path};

#[test]
fn paths_hang_off_the_home_directory() {
    match get_macbot_dir() {
        Ok(dir) => {
            assert!(dir.ends_with("/.macbot"));
            let onboarding = get_onboarding_path().expect("home was resolvable");
            assert_eq!(onboarding, format!("{}{}", dir, "/onboarding.json"));
            let env = get_env_path().expect("home was resolvable");
            assert_eq!(env, format!("{}{}", dir, "/.env"));
            let pid = get_pid_path().expect("home was resolvable");
            assert_eq!(pid, format!("{}{}", dir, "/service.pid"));
        }
        Err(e) => {
            assert_eq!(e, "Could not find home directory");
        }
    }
}

#[test]
fn path_failure_carries_one_message() {
    if let Err(e) = get_onboarding_path() {
        assert_eq!(e, "Could not find home directory");
    }
    if let Err(e) = get_pid_path() {
        assert_eq!(e, "Could not find home directory");
    }
}
