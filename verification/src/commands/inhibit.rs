//! Keeping the system awake with `systemd-inhibit` or through the daemon.
use vstd::prelude::*;

verus! {

/// The `systemd-inhibit` arguments that block sleep and idle while
/// `command_args` runs, or indefinitely (`sleep infinity`) without one.
pub fn build_args(command_args: &[String], why: &str, who: &str) -> (r: Vec<String>)
    ensures
        r.deep_view() == seq!["--why"@, why@, "--who"@, who@, "--what"@, "sleep:idle"@] + (if command_args@.len() == 0 {
            seq!["sleep"@, "infinity"@]
        } else {
            command_args.deep_view()
        }),
{
    let mut args: Vec<String> = Vec::new();
    args.push(String::from_str("--why"));
    args.push(String::from_str(why));
    args.push(String::from_str("--who"));
    args.push(String::from_str(who));
    args.push(String::from_str("--what"));
    args.push(String::from_str("sleep:idle"));
    let ghost head = args.deep_view();
    assert(head =~= seq!["--why"@, why@, "--who"@, who@, "--what"@, "sleep:idle"@]);
    if command_args.len() == 0 {
        args.push(String::from_str("sleep"));
        args.push(String::from_str("infinity"));
        assert(args.deep_view() =~= head + seq!["sleep"@, "infinity"@]);
    } else {
        let mut i: usize = 0;
        while i < command_args.len()
            invariant
                i <= command_args@.len(),
                args.deep_view() == head + command_args.deep_view().subrange(0, i as int),
            decreases command_args@.len() - i,
        {
            let ghost before = args.deep_view();
            let c = command_args[i].clone();
            assert(c@ == command_args.deep_view()[i as int]);
            args.push(c);
            assert(args.deep_view() =~= before.push(c@));
            assert(args.deep_view() =~= head + command_args.deep_view().subrange(0, i + 1));
            i = i + 1;
        }
        assert(command_args.deep_view().subrange(0, command_args@.len() as int) =~= command_args.deep_view());
    }
    args
}

/// What `lapctl inhibit` does next.
#[derive(Clone, Copy, Debug, PartialEq, Eq, Structural)]
pub enum InhibitAction {
    /// Ask the daemon to start (`active`) or stop the persistent inhibition.
    CallDaemon { active: bool },
    /// Run `systemd-inhibit` with `build_args`, in the background or waiting
    /// for it.
    RunSystemdInhibit { background: bool },
    /// Nothing more to do.
    Done,
}

/// The first action: `--stop` asks the daemon to stop; `--daemon` without a
/// command asks it to start; anything else runs `systemd-inhibit` here, in
/// the background with `--daemon`.
pub fn inhibit_start(command_empty: bool, daemon: bool, stop: bool) -> (r: InhibitAction)
    ensures
        r == (if stop {
            InhibitAction::CallDaemon { active: false }
        } else if daemon && command_empty {
            InhibitAction::CallDaemon { active: true }
        } else {
            InhibitAction::RunSystemdInhibit { background: daemon }
        }),
{
    if stop {
        InhibitAction::CallDaemon { active: false }
    } else if daemon && command_empty {
        InhibitAction::CallDaemon { active: true }
    } else {
        InhibitAction::RunSystemdInhibit { background: daemon }
    }
}

/// The action after the daemon answered: a request to start that failed
/// falls back to a background `systemd-inhibit`; otherwise all is done.
pub fn inhibit_after_daemon(active: bool, succeeded: bool) -> (r: InhibitAction)
    ensures
        r == (if active && !succeeded {
            InhibitAction::RunSystemdInhibit { background: true }
        } else {
            InhibitAction::Done
        }),
{
    if active && !succeeded {
        InhibitAction::RunSystemdInhibit { background: true }
    } else {
        InhibitAction::Done
    }
}

/// What the daemon does with its held inhibitor lock.
#[derive(Clone, Copy, Debug, PartialEq, Eq, Structural)]
pub enum InhibitionChange {
    /// Take a new lock from logind.
    Acquire,
    /// Drop the held lock.
    Release,
    /// Leave things as they are.
    Keep,
}

/// A request to inhibit takes a lock unless one is held; a request to stop
/// drops the lock.
pub open spec fn inhibition_change(active: bool, holding: bool) -> InhibitionChange {
    if !active {
        InhibitionChange::Release
    } else if holding {
        InhibitionChange::Keep
    } else {
        InhibitionChange::Acquire
    }
}

/// The daemon's decision for a `set_system_inhibition` request.
pub fn system_inhibition_change(active: bool, holding: bool) -> (r: InhibitionChange)
    ensures
        r == inhibition_change(active, holding),
{
    if !active {
        InhibitionChange::Release
    } else if holding {
        InhibitionChange::Keep
    } else {
        InhibitionChange::Acquire
    }
}

/// Whether a lock is held after a change; `acquired` tells whether logind
/// handed out a lock when one was asked for.
pub open spec fn held_after(holding: bool, c: InhibitionChange, acquired: bool) -> bool {
    match c {
        InhibitionChange::Release => false,
        InhibitionChange::Keep => holding,
        InhibitionChange::Acquire => acquired,
    }
}

/// Whether the request returns `Ok`: only a failed logind call fails it.
pub open spec fn request_ok(c: InhibitionChange, acquired: bool) -> bool {
    !(c == InhibitionChange::Acquire && !acquired)
}

/// Whether the daemon holds a lock after the requests `(active, acquired)`
/// it served since it started (holding none).
pub open spec fn held_after_requests(rs: Seq<(bool, bool)>) -> bool
    decreases rs.len(),
{
    if rs.len() == 0 {
        false
    } else {
        let h = held_after_requests(rs.drop_last());
        held_after(h, inhibition_change(rs.last().0, h), rs.last().1)
    }
}

/// Whether the `i`-th request returned `Ok`.
pub open spec fn request_succeeded(rs: Seq<(bool, bool)>, i: int) -> bool {
    request_ok(inhibition_change(rs[i].0, held_after_requests(rs.take(i))), rs[i].1)
}

/// What the last request that returned `Ok` asked for (none: not held).
pub open spec fn last_ok_request_active(rs: Seq<(bool, bool)>) -> bool
    decreases rs.len(),
{
    if rs.len() == 0 {
        false
    } else if request_succeeded(rs, rs.len() - 1) {
        rs.last().0
    } else {
        last_ok_request_active(rs.drop_last())
    }
}

/// The daemon holds an inhibitor lock exactly when the last request that
/// returned `Ok` asked for one; a request that failed changes nothing; and
/// logind is asked for a lock only when none is held.
pub proof fn lemma_inhibition_follows_last_ok_request(rs: Seq<(bool, bool)>)
    ensures
        held_after_requests(rs) == last_ok_request_active(rs),
        rs.len() > 0 && !request_succeeded(rs, rs.len() - 1) ==> held_after_requests(rs)
            == held_after_requests(rs.drop_last()),
        forall|holding: bool|
            #![auto]
            inhibition_change(true, holding) == InhibitionChange::Acquire ==> !holding,
    decreases rs.len(),
{
    if rs.len() > 0 {
        assert(rs.take(rs.len() - 1) =~= rs.drop_last());
        lemma_inhibition_follows_last_ok_request(rs.drop_last());
    }
}

} // verus!
