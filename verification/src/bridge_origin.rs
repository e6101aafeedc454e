//! Health of the local 8080 bridge origin: classification of what was observed,
//! recovery cooldowns, and the parsing of `ps`, `lsof` and `launchctl` output that
//! tells whether the bridge daemon owns the port.
use vstd::prelude::*;

use crate::text::{
    append_chars, append_str, chars_eq, chars_eq_str, chars_of, decimal, decimal_chars, lines,
    lines_of, parse_unsigned, parse_unsigned_chars, starts_with, string_from, strip_prefix_str,
    trim, trim_chars, views, words, words_of,
};

verus! {

broadcast use vstd::string::group_string_axioms;

/// Failures of the origin while the daemon still owns the port before it counts as hung.
pub const BRIDGE_HUNG_CONFIRMATION_FAILURES: u32 = 3;

/// Cooldown after a successful self-heal, in seconds.
pub const WATCHDOG_COOLDOWN_SECS: u64 = 300;

/// Cooldown after a failed recovery, in seconds.
pub const MANUAL_RECOVER_FAILED_RETRY_COOLDOWN_SECS: u64 = 60;

/// Consecutive healthy checks that count as stable ownership after a recovery.
pub const BRIDGE_RECOVERY_STABLE_CHECKS: u32 = 3;

/// The launchd label of the bridge daemon.
pub const BRIDGE_DAEMON_LABEL: &'static str = "com.cunzhi.iterate.bridge";

/// What the origin looks like from the GUI process.
#[derive(Clone, Copy, Debug, PartialEq, Eq, Structural)]
pub enum BridgeOriginState {
    Healthy,
    OriginDown,
    WrongOwner,
    HungTransient,
    HungConfirmed,
}

/// The name of a state in logs and responses.
pub open spec fn bridge_origin_state_name(state: BridgeOriginState) -> Seq<char> {
    match state {
        BridgeOriginState::Healthy => "healthy"@,
        BridgeOriginState::OriginDown => "origin_down"@,
        BridgeOriginState::WrongOwner => "wrong_owner"@,
        BridgeOriginState::HungTransient => "origin_hung_transient"@,
        BridgeOriginState::HungConfirmed => "origin_hung_confirmed"@,
    }
}

impl BridgeOriginState {
    /// The name of the state in logs and responses.
    pub fn as_str(self) -> (res: &'static str)
        ensures
            res@ == bridge_origin_state_name(self),
    {
        match self {
            BridgeOriginState::Healthy => "healthy",
            BridgeOriginState::OriginDown => "origin_down",
            BridgeOriginState::WrongOwner => "wrong_owner",
            BridgeOriginState::HungTransient => "origin_hung_transient",
            BridgeOriginState::HungConfirmed => "origin_hung_confirmed",
        }
    }
}

/// The classification of an observation of the origin.
pub open spec fn classify_spec(
    local_origin_ok: bool,
    daemon_process_owns_port: bool,
    port_has_owner: bool,
    consecutive_hung_failures: u32,
) -> BridgeOriginState {
    if local_origin_ok {
        BridgeOriginState::Healthy
    } else if daemon_process_owns_port {
        if consecutive_hung_failures >= BRIDGE_HUNG_CONFIRMATION_FAILURES {
            BridgeOriginState::HungConfirmed
        } else {
            BridgeOriginState::HungTransient
        }
    } else if port_has_owner {
        BridgeOriginState::WrongOwner
    } else {
        BridgeOriginState::OriginDown
    }
}

/// Classifies an observation: healthy when the local origin answers; hung when the
/// daemon still owns the port (confirmed after three consecutive failures); a wrong
/// owner when someone else listens; down when nobody does.
pub fn classify_bridge_origin_state(
    local_origin_ok: bool,
    daemon_process_owns_port: bool,
    port_has_owner: bool,
    consecutive_hung_failures: u32,
) -> (res: BridgeOriginState)
    ensures
        res == classify_spec(
            local_origin_ok,
            daemon_process_owns_port,
            port_has_owner,
            consecutive_hung_failures,
        ),
{
    if local_origin_ok {
        BridgeOriginState::Healthy
    } else if daemon_process_owns_port {
        if consecutive_hung_failures >= BRIDGE_HUNG_CONFIRMATION_FAILURES {
            BridgeOriginState::HungConfirmed
        } else {
            BridgeOriginState::HungTransient
        }
    } else if port_has_owner {
        BridgeOriginState::WrongOwner
    } else {
        BridgeOriginState::OriginDown
    }
}

/// The count of consecutive hung failures that the process keeps between observations.
pub struct BridgeOriginTracker {
    pub consecutive_hung_failures: u32,
}

/// One observation of the origin, with what it was classified from.
#[derive(Clone, Copy, Debug)]
pub struct BridgeOriginObservation {
    pub state: BridgeOriginState,
    pub consecutive_hung_failures: u32,
    pub daemon_process_owns_port: bool,
    pub port_has_owner: bool,
}

/// `a.saturating_sub(b)` on unsigned integers.
pub open spec fn sat_sub(a: int, b: int) -> int {
    if a >= b {
        a - b
    } else {
        0
    }
}

/// The hung-failure count after an observation.
pub open spec fn next_hung_failures(
    previous: u32,
    local_origin_ok: bool,
    daemon_process_owns_port: bool,
) -> u32 {
    if local_origin_ok {
        0
    } else if daemon_process_owns_port {
        if previous == u32::MAX {
            u32::MAX
        } else {
            (previous + 1) as u32
        }
    } else {
        0
    }
}

/// Records an observation of the origin in the tracker and classifies it: the count of
/// consecutive hung failures grows (saturating) while the daemon owns the port and the
/// origin does not answer, and falls back to zero otherwise.
pub fn record_bridge_origin_observation(
    tracker: &mut BridgeOriginTracker,
    local_origin_ok: bool,
    daemon_process_owns_port: bool,
    port_owner_found: bool,
) -> (res: BridgeOriginObservation)
    ensures
        final(tracker).consecutive_hung_failures == next_hung_failures(
            old(tracker).consecutive_hung_failures,
            local_origin_ok,
            daemon_process_owns_port,
        ),
        res.consecutive_hung_failures == final(tracker).consecutive_hung_failures,
        res.daemon_process_owns_port == daemon_process_owns_port,
        res.port_has_owner == (daemon_process_owns_port || port_owner_found),
        res.state == classify_spec(
            local_origin_ok,
            daemon_process_owns_port,
            daemon_process_owns_port || port_owner_found,
            final(tracker).consecutive_hung_failures,
        ),
{
    let port_has_owner = daemon_process_owns_port || port_owner_found;
    if local_origin_ok {
        tracker.consecutive_hung_failures = 0;
    } else if daemon_process_owns_port {
        tracker.consecutive_hung_failures = tracker.consecutive_hung_failures.saturating_add(1);
    } else {
        tracker.consecutive_hung_failures = 0;
    }
    let state = classify_bridge_origin_state(
        local_origin_ok,
        daemon_process_owns_port,
        port_has_owner,
        tracker.consecutive_hung_failures,
    );
    BridgeOriginObservation {
        state,
        consecutive_hung_failures: tracker.consecutive_hung_failures,
        daemon_process_owns_port,
        port_has_owner,
    }
}

/// Seconds left of the cooldown after a successful recovery at `last_success_at` and a
/// failed one at `last_failed_at`: the longer of 300 s after a success and 60 s after a
/// failure.
pub open spec fn manual_cooldown_spec(now: u64, last_success_at: u64, last_failed_at: u64) -> int {
    let success_remaining = sat_sub(WATCHDOG_COOLDOWN_SECS as int, sat_sub(now as int, last_success_at as int));
    let failed_remaining = sat_sub(
        MANUAL_RECOVER_FAILED_RETRY_COOLDOWN_SECS as int,
        sat_sub(now as int, last_failed_at as int),
    );
    if success_remaining >= failed_remaining {
        success_remaining
    } else {
        failed_remaining
    }
}

/// Seconds left of the recovery cooldown (see `manual_cooldown_spec`).
pub fn manual_recovery_cooldown_remaining(now: u64, last_success_at: u64, last_failed_at: u64) -> (res: u64)
    ensures
        res == manual_cooldown_spec(now, last_success_at, last_failed_at),
{
    let success_remaining = WATCHDOG_COOLDOWN_SECS.saturating_sub(
        now.saturating_sub(last_success_at),
    );
    let failed_remaining = MANUAL_RECOVER_FAILED_RETRY_COOLDOWN_SECS.saturating_sub(
        now.saturating_sub(last_failed_at),
    );
    if success_remaining >= failed_remaining {
        success_remaining
    } else {
        failed_remaining
    }
}

/// A state in which a success cooldown does not hold recovery back.
pub open spec fn bypasses_success_cooldown(state: BridgeOriginState) -> bool {
    state == BridgeOriginState::OriginDown || state == BridgeOriginState::WrongOwner || state
        == BridgeOriginState::HungConfirmed
}

/// Seconds left before a recovery may start in `state`.
pub open spec fn state_cooldown_spec(
    now: u64,
    state: BridgeOriginState,
    last_success_at: u64,
    last_failed_at: u64,
) -> int {
    if bypasses_success_cooldown(state) {
        sat_sub(
            MANUAL_RECOVER_FAILED_RETRY_COOLDOWN_SECS as int,
            sat_sub(now as int, last_failed_at as int),
        )
    } else {
        manual_cooldown_spec(now, last_success_at, last_failed_at)
    }
}

/// Seconds left before a recovery may start: a down origin, a wrong owner and a
/// confirmed hang wait out only the 60 s after a failed recovery; other states also
/// wait out the 300 s after a successful one.
pub fn bridge_recovery_cooldown_remaining_for_state(
    now: u64,
    state: BridgeOriginState,
    last_success_at: u64,
    last_failed_at: u64,
) -> (res: u64)
    ensures
        res == state_cooldown_spec(now, state, last_success_at, last_failed_at),
{
    let failed_remaining = MANUAL_RECOVER_FAILED_RETRY_COOLDOWN_SECS.saturating_sub(
        now.saturating_sub(last_failed_at),
    );
    match state {
        BridgeOriginState::OriginDown | BridgeOriginState::WrongOwner
        | BridgeOriginState::HungConfirmed => {
            return failed_remaining;
        },
        _ => {},
    }
    manual_recovery_cooldown_remaining(now, last_success_at, last_failed_at)
}

/// The later of the in-memory and the persisted time of the last self-heal.
pub fn effective_last_self_heal_at(in_memory: u64, persisted: u64) -> (res: u64)
    ensures
        res >= in_memory,
        res >= persisted,
        res == in_memory || res == persisted,
{
    if persisted > in_memory {
        persisted
    } else {
        in_memory
    }
}

/// The time stored in the self-heal state file: its trimmed contents as a `u64`, or 0.
pub fn parse_persisted_last_self_heal_at(contents: &str) -> (res: u64)
    ensures
        match parse_unsigned(trim(contents@), u64::MAX as nat) {
            Some(v) => res == v,
            None => res == 0,
        },
{
    let t = chars_of(contents);
    let t = trim_chars(&t);
    match parse_unsigned_chars(&t, u64::MAX) {
        Some(v) => v,
        None => 0,
    }
}

/// Scans the words of a command line with what has been seen so far: `--bridge-only`
/// anywhere, and a port given last as `--port <port>` or `--port=<port>`.
pub open spec fn args_scan(ws: Seq<Seq<char>>, port: Seq<char>, bridge: bool, has_port: bool) -> bool
    decreases ws.len(),
{
    if ws.len() == 0 {
        bridge && has_port
    } else {
        let w = ws[0];
        let rest = ws.drop_first();
        if w == "--bridge-only"@ {
            args_scan(rest, port, true, has_port)
        } else if w == "--port"@ {
            args_scan(rest, port, bridge, rest.len() > 0 && rest[0] == port)
        } else if w == "--port="@ + port {
            args_scan(rest, port, bridge, true)
        } else {
            args_scan(rest, port, bridge, has_port)
        }
    }
}

/// The command line `args` runs the bridge daemon in bridge-only mode on `port`.
pub open spec fn bridge_args_match_spec(args: Seq<char>, port: u16) -> bool {
    args_scan(words(args), decimal(port as nat), false, false)
}

/// Whether a process's command line runs the bridge daemon on `port`: it holds
/// `--bridge-only`, and its last port option names `port`.
pub fn bridge_args_match(args: &str, port: u16) -> (res: bool)
    ensures
        res == bridge_args_match_spec(args@, port),
{
    let chars = chars_of(args);
    let parts = words_of(&chars);
    let ghost ws = views(parts@);
    let port_value = decimal_chars(port as u64);
    let mut port_eq: Vec<char> = chars_of("--port=");
    append_chars(&mut port_eq, &port_value);
    let mut has_bridge_only = false;
    let mut has_port = false;
    let mut i: usize = 0;
    assert(ws.skip(0) =~= ws);
    while i < parts.len()
        invariant
            ws == views(parts@),
            ws == words(args@),
            port_value@ == decimal(port as nat),
            port_eq@ == "--port="@ + decimal(port as nat),
            i <= parts.len(),
            bridge_args_match_spec(args@, port) == args_scan(
                ws.skip(i as int),
                port_value@,
                has_bridge_only,
                has_port,
            ),
        decreases parts.len() - i,
    {
        let ghost rest = ws.skip(i + 1);
        assert(ws.skip(i as int)[0] == parts[i as int]@);
        assert(ws.skip(i as int).drop_first() =~= rest);
        if chars_eq_str(&parts[i], "--bridge-only") {
            has_bridge_only = true;
        } else if chars_eq_str(&parts[i], "--port") {
            if i + 1 < parts.len() {
                assert(rest[0] == parts[i + 1]@);
                has_port = chars_eq(&parts[i + 1], &port_value);
            } else {
                has_port = false;
            }
        } else if chars_eq(&parts[i], &port_eq) {
            has_port = true;
        }
        i += 1;
    }
    assert(ws.skip(i as int) =~= seq![]);
    has_bridge_only && has_port
}

/// The pid that `lsof -t` printed first: the first line, trimmed, as a `u32`.
pub open spec fn port_owner_pid_spec(stdout: Seq<char>) -> Option<nat> {
    let ls = lines(stdout);
    if ls.len() == 0 {
        None
    } else {
        parse_unsigned(trim(ls[0]), u32::MAX as nat)
    }
}

/// The pid on the first line of `lsof -t` output.
pub fn parse_port_owner_pid(stdout: &str) -> (res: Option<u32>)
    ensures
        match res {
            Some(p) => port_owner_pid_spec(stdout@) == Some(p as nat),
            None => port_owner_pid_spec(stdout@) is None,
        },
{
    let chars = chars_of(stdout);
    let ls = lines_of(&chars);
    if ls.len() == 0 {
        return None;
    }
    assert(views(ls@)[0] == ls[0]@);
    let t = trim_chars(&ls[0]);
    match parse_unsigned_chars(&t, u32::MAX as u64) {
        Some(v) => Some(v as u32),
        None => None,
    }
}

/// The command line that `ps -o args=` printed, trimmed, unless it is empty.
pub fn normalize_process_args(stdout: &str) -> (res: Option<String>)
    ensures
        match res {
            Some(a) => a@ == trim(stdout@) && a@.len() > 0,
            None => trim(stdout@).len() == 0,
        },
{
    let t = chars_of(stdout);
    let t = trim_chars(&t);
    if t.len() == 0 {
        None
    } else {
        Some(string_from(&t))
    }
}

/// The user id that `id -u` printed, trimmed, or `501` when there is none.
pub fn current_uid_from_output(stdout: Option<&str>) -> (res: String)
    ensures
        match stdout {
            Some(out) => if trim(out@).len() > 0 {
                res@ == trim(out@)
            } else {
                res@ == "501"@
            },
            None => res@ == "501"@,
        },
{
    match stdout {
        Some(out) => {
            let t = chars_of(out);
            let t = trim_chars(&t);
            if t.len() > 0 {
                string_from(&t)
            } else {
                let d = chars_of("501");
                string_from(&d)
            }
        },
        None => {
            let d = chars_of("501");
            string_from(&d)
        },
    }
}

/// The launchd domain of a user: `gui/<uid>`.
pub fn bridge_daemon_domain(uid: &str) -> (res: String)
    ensures
        res@ == "gui/"@ + uid@,
{
    let mut v = chars_of("gui/");
    append_str(&mut v, uid);
    string_from(&v)
}

/// The launchd service of the bridge daemon: `gui/<uid>/com.cunzhi.iterate.bridge`.
pub fn bridge_daemon_service(uid: &str) -> (res: String)
    ensures
        res@ == "gui/"@ + uid@ + "/"@ + BRIDGE_DAEMON_LABEL@,
{
    let mut v = chars_of("gui/");
    append_str(&mut v, uid);
    append_str(&mut v, "/");
    append_str(&mut v, BRIDGE_DAEMON_LABEL);
    string_from(&v)
}

/// What `launchctl print` shows of a service while the lines are read: the pid from
/// `pid = N` (the last such line wins) and the lines inside `arguments = { ... }`.
pub open spec fn launchctl_scan(
    ls: Seq<Seq<char>>,
    pid: Option<nat>,
    args: Seq<Seq<char>>,
    in_arguments: bool,
) -> (Option<nat>, Seq<Seq<char>>)
    decreases ls.len(),
{
    if ls.len() == 0 {
        (pid, args)
    } else {
        let t = trim(ls[0]);
        let rest = ls.drop_first();
        if starts_with(t, "pid = "@) {
            launchctl_scan(
                rest,
                parse_unsigned(trim(t.skip(6)), u32::MAX as nat),
                args,
                in_arguments,
            )
        } else if t == "arguments = {"@ {
            launchctl_scan(rest, pid, args, true)
        } else if in_arguments {
            if t == "}"@ {
                launchctl_scan(rest, pid, args, false)
            } else if t.len() > 0 {
                launchctl_scan(rest, pid, args.push(t), in_arguments)
            } else {
                launchctl_scan(rest, pid, args, in_arguments)
            }
        } else {
            launchctl_scan(rest, pid, args, in_arguments)
        }
    }
}

/// The pid and the space-joined arguments of the service in `launchctl print` output.
pub open spec fn launchctl_state_spec(stdout: Seq<char>) -> Option<(nat, Seq<char>)> {
    let (pid, args) = launchctl_scan(lines(stdout), None, seq![], false);
    match pid {
        Some(p) => Some((p, crate::text::join(args, " "@))),
        None => None,
    }
}

/// The pid and the arguments of the bridge daemon in `launchctl print` output.
pub fn parse_launchctl_bridge_daemon_state(stdout: &str) -> (res: Option<(u32, String)>)
    ensures
        match res {
            Some((p, a)) => launchctl_state_spec(stdout@) == Some((p as nat, a@)),
            None => launchctl_state_spec(stdout@) is None,
        },
{
    let chars = chars_of(stdout);
    let ls = lines_of(&chars);
    let ghost all = views(ls@);
    let mut pid: Option<u32> = None;
    let mut args: Vec<Vec<char>> = Vec::new();
    let mut in_arguments = false;
    let mut i: usize = 0;
    assert(all.skip(0) =~= all);
    assert(views(args@) =~= seq![]);
    while i < ls.len()
        invariant
            all == views(ls@),
            all == lines(stdout@),
            i <= ls.len(),
            launchctl_scan(all, None, seq![], false) == launchctl_scan(
                all.skip(i as int),
                match pid {
                    Some(p) => Some(p as nat),
                    None => None,
                },
                views(args@),
                in_arguments,
            ),
        decreases ls.len() - i,
    {
        assert(all.skip(i as int)[0] == ls[i as int]@);
        assert(all.skip(i as int).drop_first() =~= all.skip(i + 1));
        let t = trim_chars(&ls[i]);
        match strip_prefix_str(&t, "pid = ") {
            Some(value) => {
                proof {
                    reveal_strlit("pid = ");
                }
                let v = trim_chars(&value);
                pid = match parse_unsigned_chars(&v, u32::MAX as u64) {
                    Some(p) => Some(p as u32),
                    None => None,
                };
                i += 1;
                continue;
            },
            None => {},
        }
        if chars_eq_str(&t, "arguments = {") {
            in_arguments = true;
            i += 1;
            continue;
        }
        if in_arguments {
            if chars_eq_str(&t, "}") {
                in_arguments = false;
            } else if t.len() > 0 {
                let ghost before = views(args@);
                let ghost tv = t@;
                args.push(t);
                assert(views(args@) =~= before.push(tv));
            }
        }
        i += 1;
    }
    assert(all.skip(i as int) =~= seq![]);
    match pid {
        Some(p) => {
            let joined = crate::text::join_chars(&args, " ");
            Some((p, string_from(&joined)))
        },
        None => None,
    }
}

/// Whether the bridge daemon owns the port, given the pid listening on it, that pid's
/// command line, and the daemon's pid and arguments from launchd: the owner runs the
/// bridge itself, or it is the daemon's own process and the daemon runs the bridge.
pub open spec fn daemon_owns_port_spec(
    owner_pid: Option<u32>,
    owner_args: Seq<char>,
    launchd: Option<(u32, Seq<char>)>,
    port: u16,
) -> bool {
    match owner_pid {
        None => false,
        Some(pid) => bridge_args_match_spec(owner_args, port) || match launchd {
            Some((lpid, largs)) => lpid == pid && bridge_args_match_spec(largs, port),
            None => false,
        },
    }
}

/// A command line without the word `--bridge-only` does not run the bridge, whatever its
/// port options say.
proof fn lemma_scan_needs_bridge_only(ws: Seq<Seq<char>>, port: Seq<char>, has_port: bool)
    requires
        !ws.contains("--bridge-only"@),
    ensures
        !args_scan(ws, port, false, has_port),
    decreases ws.len(),
{
    if ws.len() > 0 {
        assert(ws[0] != "--bridge-only"@);
        assert forall|i: int| 0 <= i < ws.drop_first().len() implies ws.drop_first()[i]
            != "--bridge-only"@ by {
            assert(ws.drop_first()[i] == ws[i + 1]);
        }
        let rest = ws.drop_first();
        lemma_scan_needs_bridge_only(rest, port, rest.len() > 0 && rest[0] == port);
        lemma_scan_needs_bridge_only(rest, port, true);
        lemma_scan_needs_bridge_only(rest, port, has_port);
    }
}

/// Who owns the bridge port. Nobody listening means the daemon does not own it. A
/// listener whose command line has no `--bridge-only` word owns it for the daemon only
/// when it is the launchd daemon's own process: a listener that is another process than
/// the daemon (or with no daemon known) is not the daemon, even while the daemon runs the
/// bridge elsewhere. A listener that itself runs the bridge on the port owns it, and so
/// does the daemon's own process listening with the daemon's arguments running the bridge
/// on that port.
pub proof fn law_daemon_owns_port_only_as_its_own_process(
    owner_pid: Option<u32>,
    owner_args: Seq<char>,
    launchd: Option<(u32, Seq<char>)>,
    port: u16,
)
    ensures
        owner_pid is None ==> !daemon_owns_port_spec(owner_pid, owner_args, launchd, port),
        owner_pid is Some && !words(owner_args).contains("--bridge-only"@) && (launchd is None
            || launchd.unwrap().0 != owner_pid.unwrap()) ==> !daemon_owns_port_spec(
            owner_pid,
            owner_args,
            launchd,
            port,
        ),
        owner_pid is Some && bridge_args_match_spec(owner_args, port) ==> daemon_owns_port_spec(
            owner_pid,
            owner_args,
            launchd,
            port,
        ),
        owner_pid is Some && launchd is Some && launchd.unwrap().0 == owner_pid.unwrap()
            && bridge_args_match_spec(launchd.unwrap().1, port) ==> daemon_owns_port_spec(
            owner_pid,
            owner_args,
            launchd,
            port,
        ),
{
    if !words(owner_args).contains("--bridge-only"@) {
        lemma_scan_needs_bridge_only(words(owner_args), decimal(port as nat), false);
    }
}

/// Decides whether the bridge daemon process owns `port` (see `daemon_owns_port_spec`).
pub fn bridge_daemon_process_owns_port(
    owner_pid: Option<u32>,
    owner_args: &str,
    launchd: Option<(u32, &str)>,
    port: u16,
) -> (res: bool)
    ensures
        res == daemon_owns_port_spec(
            owner_pid,
            owner_args@,
            match launchd {
                Some((p, a)) => Some((p, a@)),
                None => None,
            },
            port,
        ),
{
    let owner = match owner_pid {
        None => {
            return false;
        },
        Some(p) => p,
    };
    if bridge_args_match(owner_args, port) {
        return true;
    }
    match launchd {
        Some((lpid, largs)) => lpid == owner && bridge_args_match(largs, port),
        None => false,
    }
}

/// The status that the GUI shows while the background services start.
#[derive(Clone, Debug)]
pub struct StartupStatus {
    pub phase: String,
    pub message: String,
}

impl StartupStatus {
    /// Background services are starting, with a message.
    pub fn starting(message: &str) -> (res: Self)
        ensures
            res.phase@ == "starting"@,
            res.message@ == message@,
    {
        let p = chars_of("starting");
        let m = chars_of(message);
        StartupStatus { phase: string_from(&p), message: string_from(&m) }
    }

    /// Background services are ready.
    pub fn ready() -> (res: Self)
        ensures
            res.phase@ == "ready"@,
            res.message@ == "后台服务已就绪"@,
    {
        let p = chars_of("ready");
        let m = chars_of("后台服务已就绪");
        StartupStatus { phase: string_from(&p), message: string_from(&m) }
    }

    /// Background services run with reduced function, with a message.
    pub fn degraded(message: &str) -> (res: Self)
        ensures
            res.phase@ == "degraded"@,
            res.message@ == message@,
    {
        let p = chars_of("degraded");
        let m = chars_of(message);
        StartupStatus { phase: string_from(&p), message: string_from(&m) }
    }
}

/// The answer to a manual request to recover the bridge origin.
#[derive(Clone, Debug)]
pub struct BridgeOriginRecoveryResponse {
    pub status: String,
    pub origin_state: String,
    pub healthy: bool,
    pub recovered: bool,
    pub cooldown_remaining_secs: u64,
    pub message: String,
}

/// The answer given before any recovery is tried: none when a recovery should start,
/// `already_healthy` for a healthy origin, `cooldown_active` while a cooldown runs.
pub fn bridge_recovery_precheck(state: BridgeOriginState, cooldown_remaining_secs: u64) -> (res:
    Option<BridgeOriginRecoveryResponse>)
    ensures
        state == BridgeOriginState::Healthy ==> (res matches Some(r) && r.status@
            == "already_healthy"@ && r.healthy && !r.recovered && r.cooldown_remaining_secs == 0
            && r.origin_state@ == bridge_origin_state_name(state) && r.message@
            == "8080 bridge is already healthy"@),
        state != BridgeOriginState::Healthy && cooldown_remaining_secs > 0 ==> (res matches Some(
            r,
        ) && r.status@ == "cooldown_active"@ && !r.healthy && !r.recovered
            && r.cooldown_remaining_secs == cooldown_remaining_secs && r.origin_state@
            == bridge_origin_state_name(state) && r.message@ == "Bridge recovery is cooling down for "@
            + decimal(cooldown_remaining_secs as nat) + "s"@),
        state != BridgeOriginState::Healthy && cooldown_remaining_secs == 0 ==> res is None,
{
    let name = chars_of(state.as_str());
    if state == BridgeOriginState::Healthy {
        let s = chars_of("already_healthy");
        let m = chars_of("8080 bridge is already healthy");
        return Some(
            BridgeOriginRecoveryResponse {
                status: string_from(&s),
                origin_state: string_from(&name),
                healthy: true,
                recovered: false,
                cooldown_remaining_secs: 0,
                message: string_from(&m),
            },
        );
    }
    if cooldown_remaining_secs > 0 {
        let s = chars_of("cooldown_active");
        let mut m = chars_of("Bridge recovery is cooling down for ");
        let d = decimal_chars(cooldown_remaining_secs);
        append_chars(&mut m, &d);
        append_str(&mut m, "s");
        return Some(
            BridgeOriginRecoveryResponse {
                status: string_from(&s),
                origin_state: string_from(&name),
                healthy: false,
                recovered: false,
                cooldown_remaining_secs,
                message: string_from(&m),
            },
        );
    }
    None
}

/// The answer after a recovery was tried: `recovery_started` and healthy when it
/// worked; `failed`, with the 60 s retry cooldown, when it did not.
pub fn bridge_recovery_outcome(state: BridgeOriginState, recovered: bool) -> (res:
    BridgeOriginRecoveryResponse)
    ensures
        res.origin_state@ == bridge_origin_state_name(state),
        res.healthy == recovered,
        res.recovered == recovered,
        recovered ==> res.status@ == "recovery_started"@ && res.cooldown_remaining_secs == 0
            && res.message@ == "Bridge recovery was started and the origin became healthy"@,
        !recovered ==> res.status@ == "failed"@ && res.cooldown_remaining_secs
            == MANUAL_RECOVER_FAILED_RETRY_COOLDOWN_SECS && res.message@
            == "Bridge recovery failed or the origin did not become healthy"@,
{
    let name = chars_of(state.as_str());
    let (s, m, c) = if recovered {
        (
            chars_of("recovery_started"),
            chars_of("Bridge recovery was started and the origin became healthy"),
            0u64,
        )
    } else {
        (
            chars_of("failed"),
            chars_of("Bridge recovery failed or the origin did not become healthy"),
            MANUAL_RECOVER_FAILED_RETRY_COOLDOWN_SECS,
        )
    };
    BridgeOriginRecoveryResponse {
        status: string_from(&s),
        origin_state: string_from(&name),
        healthy: recovered,
        recovered,
        cooldown_remaining_secs: c,
        message: string_from(&m),
    }
}

/// One check while waiting for stable ownership after a recovery: the count of
/// consecutive healthy checks, and whether it has reached three.
pub fn stable_ownership_step(stable_checks: u32, owns_port: bool) -> (res: (u32, bool))
    requires
        stable_checks < BRIDGE_RECOVERY_STABLE_CHECKS,
    ensures
        owns_port ==> res.0 == stable_checks + 1 && res.1 == (stable_checks + 1
            >= BRIDGE_RECOVERY_STABLE_CHECKS),
        !owns_port ==> res.0 == 0 && !res.1,
{
    if owns_port {
        let n = stable_checks + 1;
        (n, n >= BRIDGE_RECOVERY_STABLE_CHECKS)
    } else {
        (0, false)
    }
}

/// The first decision of a daemon recovery, taken before anything is restarted.
#[derive(Clone, Copy, Debug, PartialEq, Eq, Structural)]
pub enum EnsureOwnershipAction {
    /// The daemon already owns the port: wait for stable ownership ("already_running").
    WaitAlreadyRunning,
    /// The origin is down but the daemon process holds the port: report success.
    ReportOwned,
    /// No daemon is installed: report failure.
    GiveUp,
    /// Bootstrap and kickstart the daemon, then wait for stable ownership.
    Restart,
}

/// The reason under which a daemon that holds the port counts as owning it even though
/// its local HTTP check fails.
pub const WATCHDOG_ORIGIN_DOWN_REASON: &'static str = "watchdog_origin_down";

/// Decides how a daemon recovery starts, from what was observed of the port.
pub fn ensure_ownership_action(
    daemon_owns_port: bool,
    reason: &str,
    process_owns_port: bool,
    plist_exists: bool,
) -> (res: EnsureOwnershipAction)
    ensures
        daemon_owns_port ==> res == EnsureOwnershipAction::WaitAlreadyRunning,
        !daemon_owns_port && reason@ == "watchdog_origin_down"@ && process_owns_port ==> res
            == EnsureOwnershipAction::ReportOwned,
        !daemon_owns_port && !(reason@ == "watchdog_origin_down"@ && process_owns_port)
            && !plist_exists ==> res == EnsureOwnershipAction::GiveUp,
        !daemon_owns_port && !(reason@ == "watchdog_origin_down"@ && process_owns_port)
            && plist_exists ==> res == EnsureOwnershipAction::Restart,
{
    if daemon_owns_port {
        return EnsureOwnershipAction::WaitAlreadyRunning;
    }
    let down = chars_eq_str(&chars_of(reason), WATCHDOG_ORIGIN_DOWN_REASON);
    if down && process_owns_port {
        EnsureOwnershipAction::ReportOwned
    } else if !plist_exists {
        EnsureOwnershipAction::GiveUp
    } else {
        EnsureOwnershipAction::Restart
    }
}

/// What the watchdog does on a tick when the local origin answers.
#[derive(Clone, Copy, Debug, PartialEq, Eq, Structural)]
pub enum OwnerDriftAction {
    /// The daemon owns the port (or there is no daemon): only observe.
    Observe,
    /// Another process owns the port, but a self-heal happened less than 300 s ago.
    SkipCooldown,
    /// Another process owns the port: try to give it back to the daemon.
    Recover,
}

/// The watchdog's decision when the local origin answers: recover only when a daemon is
/// installed, does not own the port, and the last self-heal is 300 s or more ago.
pub fn watchdog_owner_drift_action(
    now: u64,
    last_self_heal_at: u64,
    daemon_plist_exists: bool,
    daemon_owns_port: bool,
) -> (res: OwnerDriftAction)
    ensures
        !(daemon_plist_exists && !daemon_owns_port) ==> res == OwnerDriftAction::Observe,
        daemon_plist_exists && !daemon_owns_port && sat_sub(now as int, last_self_heal_at as int)
            < WATCHDOG_COOLDOWN_SECS ==> res == OwnerDriftAction::SkipCooldown,
        daemon_plist_exists && !daemon_owns_port && sat_sub(now as int, last_self_heal_at as int)
            >= WATCHDOG_COOLDOWN_SECS ==> res == OwnerDriftAction::Recover,
{
    if !(daemon_plist_exists && !daemon_owns_port) {
        OwnerDriftAction::Observe
    } else if now.saturating_sub(last_self_heal_at) < WATCHDOG_COOLDOWN_SECS {
        OwnerDriftAction::SkipCooldown
    } else {
        OwnerDriftAction::Recover
    }
}

/// What the watchdog does when the origin still does not answer on a recheck.
#[derive(Clone, Copy, Debug, PartialEq, Eq, Structural)]
pub enum OriginDownAction {
    /// The origin hangs, but not yet three times in a row: wait.
    Wait,
    /// A recovery cooldown runs: wait.
    Cooldown,
    /// Recover the daemon; the reason names the state.
    Recover,
}

/// The watchdog's decision for an origin that does not answer.
pub fn watchdog_origin_down_action(state: BridgeOriginState, cooldown_remaining_secs: u64) -> (res:
    OriginDownAction)
    ensures
        state == BridgeOriginState::HungTransient ==> res == OriginDownAction::Wait,
        state != BridgeOriginState::HungTransient && cooldown_remaining_secs > 0 ==> res
            == OriginDownAction::Cooldown,
        state != BridgeOriginState::HungTransient && cooldown_remaining_secs == 0 ==> res
            == OriginDownAction::Recover,
{
    if state == BridgeOriginState::HungTransient {
        OriginDownAction::Wait
    } else if cooldown_remaining_secs > 0 {
        OriginDownAction::Cooldown
    } else {
        OriginDownAction::Recover
    }
}

/// The reason that the watchdog gives the daemon recovery for a state.
pub fn watchdog_recover_reason(state: BridgeOriginState) -> (res: &'static str)
    ensures
        state == BridgeOriginState::HungConfirmed ==> res@ == "watchdog_origin_hung_confirmed"@,
        state == BridgeOriginState::WrongOwner ==> res@ == "watchdog_origin_wrong_owner"@,
        state != BridgeOriginState::HungConfirmed && state != BridgeOriginState::WrongOwner
            ==> res@ == "watchdog_origin_down"@,
{
    match state {
        BridgeOriginState::HungConfirmed => "watchdog_origin_hung_confirmed",
        BridgeOriginState::WrongOwner => "watchdog_origin_wrong_owner",
        _ => "watchdog_origin_down",
    }
}

/// After a failed daemon recovery the watchdog restarts the app, except for a confirmed
/// hang, where a restart would not free the port.
pub fn watchdog_restarts_after_failed_recovery(state: BridgeOriginState) -> (res: bool)
    ensures
        res == (state != BridgeOriginState::HungConfirmed),
{
    state != BridgeOriginState::HungConfirmed
}

// ---------------------------------------------------------------------------
// Laws
// ---------------------------------------------------------------------------

/// A healthy origin is classified healthy whatever else was observed, and an origin
/// that does not answer is never classified healthy.
pub proof fn law_healthy_iff_local_origin_ok(
    local_origin_ok: bool,
    daemon_process_owns_port: bool,
    port_has_owner: bool,
    failures: u32,
)
    ensures
        (classify_spec(local_origin_ok, daemon_process_owns_port, port_has_owner, failures)
            == BridgeOriginState::Healthy) == local_origin_ok,
{
}

/// A hang is confirmed exactly after three consecutive failures while the daemon owns
/// the port: three observations in a row with the origin down and the daemon owning the
/// port, starting from any count, end in a confirmed hang.
pub proof fn law_three_failures_confirm_hang(start: u32)
    ensures
        ({
            let a = next_hung_failures(start, false, true);
            let b = next_hung_failures(a, false, true);
            let c = next_hung_failures(b, false, true);
            classify_spec(false, true, true, c) == BridgeOriginState::HungConfirmed
        }),
{
}

/// One answering origin resets the count, so the next failure is only transient.
pub proof fn law_recovery_resets_hang_count(previous: u32)
    ensures
        next_hung_failures(previous, true, true) == 0,
        classify_spec(false, true, true, next_hung_failures(next_hung_failures(previous, true, true), false, true))
            == BridgeOriginState::HungTransient,
{
}

/// Cooldowns never exceed 300 s, a confirmed failure state never waits on a success
/// cooldown longer than the failed-retry cooldown of 60 s, and with no recovery
/// history older than 300 s there is no cooldown.
pub proof fn law_cooldown_bounds(
    now: u64,
    state: BridgeOriginState,
    last_success_at: u64,
    last_failed_at: u64,
)
    ensures
        0 <= state_cooldown_spec(now, state, last_success_at, last_failed_at)
            <= WATCHDOG_COOLDOWN_SECS,
        bypasses_success_cooldown(state) ==> state_cooldown_spec(
            now,
            state,
            last_success_at,
            last_failed_at,
        ) <= MANUAL_RECOVER_FAILED_RETRY_COOLDOWN_SECS,
        now >= last_success_at + WATCHDOG_COOLDOWN_SECS && now >= last_failed_at
            + MANUAL_RECOVER_FAILED_RETRY_COOLDOWN_SECS ==> state_cooldown_spec(
            now,
            state,
            last_success_at,
            last_failed_at,
        ) == 0,
        state_cooldown_spec(now, state, last_success_at, last_failed_at) <= manual_cooldown_spec(
            now,
            last_success_at,
            last_failed_at,
        ),
{
}

} // verus!
