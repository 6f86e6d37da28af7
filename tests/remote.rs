use prpick::remote::{parse_remote_url, ScopeError};

fn ok(o: &str, n: &str) -> Result<(String, String), ScopeError> {
    Ok((o.to_string(), n.to_string()))
}

#[test]
fn ssh_url() {
    assert_eq!(parse_remote_url("git@github.com:owner/repo.git"), ok("owner", "repo"));
}

#[test]
fn https_url() {
    assert_eq!(parse_remote_url("https://github.com/owner/repo"), ok("owner", "repo"));
    assert_eq!(parse_remote_url("https://github.com/owner/repo.git"), ok("owner", "repo"));
}

#[test]
fn only_one_git_suffix_is_stripped() {
    assert_eq!(parse_remote_url("https://github.com/owner/repo.git.git"), ok("owner", "repo.git"));
}

#[test]
fn owner_ending_in_host_name() {
    assert_eq!(parse_remote_url("https://github.com/github.com/x"), ok("github.com", "x"));
    assert_eq!(parse_remote_url("git@github.com:mygithub.com/x.git"), ok("mygithub.com", "x"));
}

#[test]
fn empty_owner_or_name_is_rejected() {
    assert_eq!(parse_remote_url("https://github.com/owner/"), Err(ScopeError::InvalidPath));
    assert_eq!(parse_remote_url("git@github.com:/name"), Err(ScopeError::InvalidPath));
    assert_eq!(parse_remote_url("https://github.com/owner/.git"), Err(ScopeError::InvalidPath));
}

#[test]
fn extra_path_segments_are_ignored() {
    assert_eq!(parse_remote_url("https://github.com/owner/repo/tree/main"), ok("owner", "repo"));
}

#[test]
fn other_host_is_rejected() {
    assert_eq!(parse_remote_url("https://gitlab.com/owner/repo.git"), Err(ScopeError::NotHostedUrl));
    assert_eq!(parse_remote_url(""), Err(ScopeError::NotHostedUrl));
}

#[test]
fn missing_name_is_rejected() {
    assert_eq!(parse_remote_url("https://github.com/owneronly"), Err(ScopeError::InvalidPath));
    assert_eq!(parse_remote_url("git@github.com:owneronly.git"), Err(ScopeError::InvalidPath));
}
