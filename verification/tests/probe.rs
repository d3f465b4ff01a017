use ssh_probe::error::Error;
use ssh_probe::host::SshHost;
use ssh_probe::probe::{exit_outcome, probe_command, AUTHENTICATED_WITHOUT_SHELL};

#[test]
fn exit_code_zero_is_success() {
    assert_eq!(exit_outcome(Some(0)), Ok(()));
}

#[test]
fn exit_code_one_is_success() {
    assert_eq!(exit_outcome(Some(1)), Ok(()));
    assert_eq!(AUTHENTICATED_WITHOUT_SHELL, 1);
    assert_eq!(exit_outcome(Some(AUTHENTICATED_WITHOUT_SHELL)), Ok(()));
}

#[test]
fn any_other_exit_code_is_a_failure_that_records_the_code() {
    assert_eq!(exit_outcome(Some(255)), Err(Error::SshInvocationFailed(Some(255))));
    assert_eq!(exit_outcome(Some(2)), Err(Error::SshInvocationFailed(Some(2))));
    assert_eq!(exit_outcome(Some(-1)), Err(Error::SshInvocationFailed(Some(-1))));
    assert_eq!(exit_outcome(Some(128)), Err(Error::SshInvocationFailed(Some(128))));
    assert_eq!(
        exit_outcome(Some(i32::MIN)),
        Err(Error::SshInvocationFailed(Some(i32::MIN)))
    );
    assert_eq!(
        exit_outcome(Some(i32::MAX)),
        Err(Error::SshInvocationFailed(Some(i32::MAX)))
    );
}

#[test]
fn only_zero_and_one_are_success() {
    let mut code: i32 = -300;
    while code <= 300 {
        assert_eq!(exit_outcome(Some(code)).is_ok(), code == 0 || code == 1, "{}", code);
        code += 1;
    }
}

#[test]
fn an_end_without_exit_code_is_a_failure() {
    assert_eq!(exit_outcome(None), Err(Error::SshInvocationFailed(None)));
}

#[test]
fn the_probe_names_the_host_by_its_alias() {
    let host = SshHost {
        name: "github".to_string(),
        hostname: Some("github.com".to_string()),
        identity_file: Some("/home/u/.ssh/id".to_string()),
        user: Some("someone".to_string()),
    };
    assert_eq!(probe_command(&host), vec!["ssh", "-T", "git@github"]);
}

#[test]
fn the_probe_takes_the_alias_as_it_is() {
    assert_eq!(
        probe_command(&SshHost::new("my host".to_string())),
        vec!["ssh", "-T", "git@my host"]
    );
    assert_eq!(probe_command(&SshHost::new(String::new())), vec!["ssh", "-T", "git@"]);
}
