use agent_sessions::remote::get_github_url;

#[test]
fn secure_shell_remote_becomes_a_browsable_address() {
    assert_eq!(
        get_github_url("git@github.com:user/repo.git\n"),
        Some("https://github.com/user/repo".to_string())
    );
    assert_eq!(
        get_github_url("git@github.com:user/repo"),
        Some("https://github.com/user/repo".to_string())
    );
    assert_eq!(
        get_github_url("  git@github.com:org/tool.git.git  "),
        Some("https://github.com/org/tool.git".to_string())
    );
    assert_eq!(
        get_github_url("git@github.com:"),
        Some("https://github.com/".to_string())
    );
    assert_eq!(
        get_github_url("git@github.com:.git"),
        Some("https://github.com/".to_string())
    );
}

#[test]
fn https_remote_loses_its_suffix() {
    assert_eq!(
        get_github_url("https://github.com/user/repo.git\n"),
        Some("https://github.com/user/repo".to_string())
    );
    assert_eq!(
        get_github_url("https://github.com/user/repo"),
        Some("https://github.com/user/repo".to_string())
    );
    assert_eq!(
        get_github_url("\t https://github.com/ \n"),
        Some("https://github.com/".to_string())
    );
}

#[test]
fn other_remotes_give_nothing() {
    assert_eq!(get_github_url(""), None);
    assert_eq!(get_github_url("   \n"), None);
    assert_eq!(get_github_url("git@gitlab.com:user/repo.git"), None);
    assert_eq!(get_github_url("https://gitlab.com/user/repo.git"), None);
    assert_eq!(get_github_url("http://github.com/user/repo.git"), None);
    assert_eq!(get_github_url("ssh://git@github.com/user/repo.git"), None);
    assert_eq!(get_github_url("https://github.com"), None);
    assert_eq!(get_github_url("x git@github.com:user/repo.git"), None);
}
