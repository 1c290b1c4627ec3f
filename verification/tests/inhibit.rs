use lapctl::commands::inhibit::{
    build_args, inhibit_after_daemon, inhibit_start, system_inhibition_change, InhibitAction,
    InhibitionChange,
};

#[test]
fn test_build_args_no_command() {
    let args = build_args(&[], "testing", "lapctl");
    assert_eq!(
        args,
        vec![
            "--why",
            "testing",
            "--who",
            "lapctl",
            "--what",
            "sleep:idle",
            "sleep",
            "infinity"
        ]
    );
}

#[test]
fn test_build_args_with_command() {
    let command_args = vec!["ls".to_string(), "-l".to_string()];
    let args = build_args(&command_args, "testing", "lapctl");
    assert_eq!(
        args,
        vec![
            "--why",
            "testing",
            "--who",
            "lapctl",
            "--what",
            "sleep:idle",
            "ls",
            "-l"
        ]
    );
}

#[test]
fn inhibit_routes() {
    assert_eq!(inhibit_start(true, false, true), InhibitAction::CallDaemon { active: false });
    assert_eq!(inhibit_start(true, true, false), InhibitAction::CallDaemon { active: true });
    assert_eq!(
        inhibit_start(false, true, false),
        InhibitAction::RunSystemdInhibit { background: true }
    );
    assert_eq!(
        inhibit_start(true, false, false),
        InhibitAction::RunSystemdInhibit { background: false }
    );
    assert_eq!(
        inhibit_after_daemon(true, false),
        InhibitAction::RunSystemdInhibit { background: true }
    );
    assert_eq!(inhibit_after_daemon(true, true), InhibitAction::Done);
    assert_eq!(inhibit_after_daemon(false, false), InhibitAction::Done);
}

#[test]
fn daemon_inhibition_changes() {
    assert_eq!(system_inhibition_change(true, false), InhibitionChange::Acquire);
    assert_eq!(system_inhibition_change(true, true), InhibitionChange::Keep);
    assert_eq!(system_inhibition_change(false, true), InhibitionChange::Release);
    assert_eq!(system_inhibition_change(false, false), InhibitionChange::Release);
}

#[test]
fn inhibition_follows_last_successful_request() {
    // (active, logind hands out a lock when asked)
    let requests = [(true, false), (true, true), (true, true), (false, true), (true, false)];
    let mut holding = false;
    let mut asked_logind = 0;
    let mut last_ok_active = false;
    for (active, acquired) in requests {
        let change = system_inhibition_change(active, holding);
        let ok = match change {
            InhibitionChange::Release => {
                holding = false;
                true
            }
            InhibitionChange::Keep => true,
            InhibitionChange::Acquire => {
                asked_logind += 1;
                holding = acquired;
                acquired
            }
        };
        if ok {
            last_ok_active = active;
        }
        assert_eq!(holding, last_ok_active);
    }
    assert_eq!(asked_logind, 3);
    assert!(!holding);
}
