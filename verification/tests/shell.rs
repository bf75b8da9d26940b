use beehive::shell::{login_shell_candidates, resolve_login_shell_with_candidates};

/// Resolves with the candidates' executable flags given by `is_executable`,
/// standing in for the file system.
fn resolve(shell_env: Option<&str>, fallbacks: &[&str], is_executable: &dyn Fn(&str) -> bool) -> String {
    let candidates = login_shell_candidates(shell_env, fallbacks);
    let flags: Vec<bool> = candidates.iter().map(|c| is_executable(c)).collect();
    resolve_login_shell_with_candidates(shell_env, &candidates, &flags)
}

#[test]
fn test_resolve_login_shell_prefers_valid_shell_env() {
    let resolved = resolve(Some("/tmp/preferred-shell"), &["/does/not/exist"], &|p| p == "/tmp/preferred-shell");
    assert_eq!(resolved, "/tmp/preferred-shell");
}

#[test]
fn test_resolve_login_shell_falls_back_when_shell_env_invalid() {
    let resolved = resolve(Some("/does/not/exist"), &["/tmp/fallback-shell"], &|p| p == "/tmp/fallback-shell");
    assert_eq!(resolved, "/tmp/fallback-shell");
}

#[test]
fn test_resolve_login_shell_skips_non_executable_shell_env() {
    // The shell exists but is not executable: only the fallback is.
    let resolved = resolve(Some("/tmp/nonexec-shell"), &["/tmp/fallback2-shell"], &|p| p == "/tmp/fallback2-shell");
    assert_eq!(resolved, "/tmp/fallback2-shell");
}

#[test]
fn login_shell_falls_back_to_env_then_bin_sh() {
    assert_eq!(
        login_shell_candidates(Some("  /bin/zsh \n"), &["/bin/bash", "/bin/sh"]),
        vec!["/bin/zsh".to_string(), "/bin/bash".to_string(), "/bin/sh".to_string()]
    );
    assert_eq!(login_shell_candidates(Some("   "), &["/bin/bash"]), vec!["/bin/bash".to_string()]);
    assert_eq!(resolve(Some(" /opt/fish "), &["/bin/bash"], &|_| false), "/opt/fish");
    assert_eq!(resolve(Some("  "), &["/bin/bash"], &|_| false), "/bin/sh");
    assert_eq!(resolve(None, &[], &|_| false), "/bin/sh");
}

#[test]
fn login_shell_follows_the_rule_for_each_executability() {
    let candidates = login_shell_candidates(Some(" /bin/zsh "), &["/bin/bash", "/bin/sh"]);
    assert_eq!(candidates, vec!["/bin/zsh".to_string(), "/bin/bash".to_string(), "/bin/sh".to_string()]);
    assert_eq!(resolve_login_shell_with_candidates(Some(" /bin/zsh "), &candidates, &vec![true, true, true]), "/bin/zsh");
    assert_eq!(resolve_login_shell_with_candidates(Some(" /bin/zsh "), &candidates, &vec![false, false, true]), "/bin/sh");
    assert_eq!(resolve_login_shell_with_candidates(Some(" /bin/zsh "), &candidates, &vec![false, false, false]), "/bin/zsh");
    let none = login_shell_candidates(None, &[]);
    assert_eq!(resolve_login_shell_with_candidates(None, &none, &vec![]), "/bin/sh");
}
