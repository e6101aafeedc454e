//! How the MCP server judges the dialog services on the local ports: whether one can
//! take a request (idle, with the capabilities this server needs), whether a busy one is
//! stuck, what is logged about the one chosen, and in which order new ports are tried.
use vstd::prelude::*;

use crate::checkpoint::{byte_prefix, byte_take};
use crate::ordered::string_views;
use crate::text::{
    append_chars, append_str, chars_eq_str, chars_of, decimal, decimal_chars, parse_unsigned,
    parse_unsigned_chars, string_from, trim, trim_chars,
};

verus! {

broadcast use vstd::string::group_string_axioms;

// ---------------------------------------------------------------------------
// What a service reports
// ---------------------------------------------------------------------------

/// The capability that a dialog service must report for this server to use it.
pub const HTML_ARTIFACT_CAPABILITY: &'static str = "html_artifact";

/// The age, in seconds, after which a busy service caught in a passing phase counts as
/// stuck, unless the environment sets another one.
pub const DEFAULT_STALE_INTERACTION_TRANSIENT_SECS: i64 = 30;

/// The process behind a dialog service.
#[derive(Debug)]
pub struct RuntimeStatusProbe {
    pub pid: Option<u32>,
    pub exe_path: Option<String>,
    pub exe_mtime: Option<String>,
    pub exe_sha256: Option<String>,
}

/// What a dialog service reports on `/status`. `capabilities` holds the names that its
/// object `capabilities` sets to `true`.
#[derive(Debug)]
pub struct PortStatusProbe {
    pub version: Option<String>,
    pub runtime: Option<RuntimeStatusProbe>,
    pub is_busy: bool,
    pub busy_since: Option<String>,
    pub active_request_id: Option<String>,
    pub active_workspace: Option<String>,
    pub interaction_phase: Option<String>,
    pub phase_since: Option<String>,
    pub active_serve_request_id: Option<String>,
    pub ready_since: Option<String>,
    pub capabilities: Vec<String>,
    pub frontend_capabilities: Vec<String>,
}

/// The view of an optional `String`.
pub open spec fn os(o: Option<String>) -> Option<Seq<char>> {
    match o {
        Some(s) => Some(s@),
        None => None,
    }
}

fn holds_string(v: &Vec<String>, s: &str) -> (res: bool)
    ensures
        res == string_views(v@).contains(s@),
{
    let ghost sv = string_views(v@);
    let mut i: usize = 0;
    while i < v.len()
        invariant
            sv == string_views(v@),
            i <= v.len(),
            forall|j: int| 0 <= j < i ==> sv[j] != s@,
        decreases v.len() - i,
    {
        if chars_eq_str(&chars_of(v[i].as_str()), s) {
            assert(sv[i as int] == s@);
            return true;
        }
        i += 1;
    }
    assert(!sv.contains(s@)) by {
        if sv.contains(s@) {
            let j = choose|j: int| 0 <= j < sv.len() && sv[j] == s@;
            assert(sv[j] != s@);
        }
    }
    false
}

/// Whether a service has a capability: its capability object sets it to `true`, or its
/// frontend lists it.
pub fn port_status_has_capability(status: &PortStatusProbe, capability: &str) -> (res: bool)
    ensures
        res == (string_views(status.capabilities@).contains(capability@) || string_views(
            status.frontend_capabilities@,
        ).contains(capability@)),
{
    holds_string(&status.capabilities, capability) || holds_string(
        &status.frontend_capabilities,
        capability,
    )
}

/// Whether a service has what this server needs: the `html_artifact` capability.
pub fn port_status_supports_required_capabilities(status: &PortStatusProbe) -> (res: bool)
    ensures
        res == (string_views(status.capabilities@).contains(HTML_ARTIFACT_CAPABILITY@)
            || string_views(status.frontend_capabilities@).contains(HTML_ARTIFACT_CAPABILITY@)),
{
    port_status_has_capability(status, HTML_ARTIFACT_CAPABILITY)
}

/// Whether a service can take a request: it is not busy and has what this server needs.
pub fn port_status_is_idle(status: &PortStatusProbe) -> (res: bool)
    ensures
        res == (!status.is_busy && (string_views(status.capabilities@).contains(
            HTML_ARTIFACT_CAPABILITY@,
        ) || string_views(status.frontend_capabilities@).contains(HTML_ARTIFACT_CAPABILITY@))),
{
    !status.is_busy && port_status_supports_required_capabilities(status)
}

// ---------------------------------------------------------------------------
// What is logged about a service
// ---------------------------------------------------------------------------

/// A hash as logged: `-` when there is none, the first nineteen bytes and `...` when it
/// is longer.
pub open spec fn short_hash_text(value: Option<Seq<char>>) -> Seq<char> {
    match value {
        None => "-"@,
        Some(v) => {
            let p = byte_take(v, 19)->0;
            if p == v {
                v
            } else {
                p + "..."@
            }
        },
    }
}

/// A hash as it is logged. A hash longer than nineteen bytes is cut there, which needs a
/// character boundary at that byte.
pub fn short_hash(value: Option<&str>) -> (res: String)
    requires
        value matches Some(v) ==> byte_take(v@, 19) is Some,
    ensures
        res@ == short_hash_text(match value {
            Some(v) => Some(v@),
            None => None,
        }),
{
    match value {
        None => string_from(&chars_of("-")),
        Some(v) => {
            let p = byte_prefix(v, 19);
            let pc = chars_of(p.as_str());
            if crate::text::chars_eq(&pc, &chars_of(v)) {
                string_from(&chars_of(v))
            } else {
                let mut out = pc;
                append_str(&mut out, "...");
                string_from(&out)
            }
        },
    }
}

/// A value as logged: itself, or `-` when there is none.
pub open spec fn or_dash(value: Option<Seq<char>>) -> Seq<char> {
    match value {
        Some(v) => v,
        None => "-"@,
    }
}

/// The runtime of a status, if it reported one.
pub open spec fn runtime_of(status: Option<PortStatusProbe>) -> Option<RuntimeStatusProbe> {
    match status {
        Some(s) => s.runtime,
        None => None,
    }
}

/// The diagnostics line of the service chosen for a request.
pub open spec fn diagnostics_text(
    port: u16,
    request_workspace: Seq<char>,
    registered_workspace: Option<Seq<char>>,
    status: Option<PortStatusProbe>,
) -> Seq<char> {
    let version = match status {
        Some(s) => os(s.version),
        None => None,
    };
    let rt = runtime_of(status);
    let pid = match rt {
        Some(r) => match r.pid {
            Some(p) => decimal(p as nat),
            None => "-"@,
        },
        None => "-"@,
    };
    let exe_path = match rt {
        Some(r) => os(r.exe_path),
        None => None,
    };
    let exe_mtime = match rt {
        Some(r) => os(r.exe_mtime),
        None => None,
    };
    let sha = match rt {
        Some(r) => os(r.exe_sha256),
        None => None,
    };
    "port="@ + decimal(port as nat) + " request_workspace="@ + request_workspace
        + " registered_workspace="@ + or_dash(registered_workspace) + " version="@ + or_dash(
        version,
    ) + " pid="@ + pid + " exe_path="@ + or_dash(exe_path) + " exe_mtime="@ + or_dash(exe_mtime)
        + " exe_sha256="@ + short_hash_text(sha)
}

/// Whether the hash of a status can be logged: it is cut at a character boundary.
pub open spec fn hash_loggable(status: Option<PortStatusProbe>) -> bool {
    match runtime_of(status) {
        Some(r) => match r.exe_sha256 {
            Some(h) => byte_take(h@, 19) is Some,
            None => true,
        },
        None => true,
    }
}

fn push_or_dash(out: &mut Vec<char>, value: &Option<String>)
    ensures
        final(out)@ == old(out)@ + or_dash(os(*value)),
{
    match value {
        Some(v) => append_str(out, v.as_str()),
        None => append_str(out, "-"),
    }
}

/// What is logged about the service chosen for a request: its port, the workspaces of
/// the request and of the port, and the version and process that the service reported.
pub fn runtime_diagnostics_from_status(
    port: u16,
    request_workspace: &str,
    registered_workspace: Option<&str>,
    status: Option<&PortStatusProbe>,
) -> (res: String)
    requires
        hash_loggable(match status {
            Some(s) => Some(*s),
            None => None,
        }),
    ensures
        res@ == diagnostics_text(
            port,
            request_workspace@,
            match registered_workspace {
                Some(w) => Some(w@),
                None => None,
            },
            match status {
                Some(s) => Some(*s),
                None => None,
            },
        ),
{
    let mut out = chars_of("port=");
    append_chars(&mut out, &decimal_chars(port as u64));
    append_str(&mut out, " request_workspace=");
    append_str(&mut out, request_workspace);
    append_str(&mut out, " registered_workspace=");
    match registered_workspace {
        Some(w) => append_str(&mut out, w),
        None => append_str(&mut out, "-"),
    }
    append_str(&mut out, " version=");
    match status {
        Some(s) => push_or_dash(&mut out, &s.version),
        None => append_str(&mut out, "-"),
    }
    let runtime: Option<&RuntimeStatusProbe> = match status {
        Some(s) => match &s.runtime {
            Some(r) => Some(r),
            None => None,
        },
        None => None,
    };
    append_str(&mut out, " pid=");
    match runtime {
        Some(r) => match r.pid {
            Some(p) => append_chars(&mut out, &decimal_chars(p as u64)),
            None => append_str(&mut out, "-"),
        },
        None => append_str(&mut out, "-"),
    }
    append_str(&mut out, " exe_path=");
    match runtime {
        Some(r) => push_or_dash(&mut out, &r.exe_path),
        None => append_str(&mut out, "-"),
    }
    append_str(&mut out, " exe_mtime=");
    match runtime {
        Some(r) => push_or_dash(&mut out, &r.exe_mtime),
        None => append_str(&mut out, "-"),
    }
    append_str(&mut out, " exe_sha256=");
    let sha: Option<&str> = match runtime {
        Some(r) => match &r.exe_sha256 {
            Some(h) => Some(h.as_str()),
            None => None,
        },
        None => None,
    };
    let h = short_hash(sha);
    append_str(&mut out, h.as_str());
    string_from(&out)
}

// ---------------------------------------------------------------------------
// Stuck services
// ---------------------------------------------------------------------------

/// The instant that an RFC 3339 text names, as seconds since the Unix epoch and the
/// nanoseconds within that second; nothing when it does not parse.
pub uninterp spec fn rfc3339_instant(text: Seq<char>) -> Option<(i64, u32)>;

/// `chrono::DateTime::parse_from_rfc3339`, read as its Unix timestamp (`timestamp`,
/// `timestamp_subsec_nanos`). The result is named and depends on the text alone.
#[verifier::external_body]
pub(crate) fn parse_rfc3339_instant(text: &str) -> (res: Option<(i64, u32)>)
    ensures
        res == rfc3339_instant(text@),
{
    match chrono::DateTime::parse_from_rfc3339(text) {
        Ok(t) => Some((t.timestamp(), t.timestamp_subsec_nanos())),
        Err(_) => None,
    }
}

/// `chrono::Utc::now()`, as its Unix timestamp and the nanoseconds within that second.
/// Nothing is stated of it: it is the clock.
#[verifier::external_body]
fn utc_now_instant() -> (res: (i64, u32)) {
    let now = chrono::Utc::now();
    (now.timestamp(), now.timestamp_subsec_nanos())
}

/// The whole seconds from `then` to `now`, cut toward zero (`TimeDelta::num_seconds`).
pub open spec fn age_secs(now: (i64, u32), then: (i64, u32)) -> int {
    let d = (now.0 - then.0) * 1_000_000_000 + (now.1 - then.1);
    if d >= 0 {
        d / 1_000_000_000
    } else {
        -((-d) / 1_000_000_000)
    }
}

fn age_between(now: (i64, u32), then: (i64, u32)) -> (res: i128)
    ensures
        res == age_secs(now, then),
{
    let d: i128 = (now.0 as i128 - then.0 as i128) * 1_000_000_000 + (now.1 as i128
        - then.1 as i128);
    if d >= 0 {
        d / 1_000_000_000
    } else {
        -((-d) / 1_000_000_000)
    }
}

/// The age at `now` of an optional RFC 3339 time: nothing when it is missing, blank or
/// does not parse.
pub open spec fn timestamp_age(now: (i64, u32), text: Option<Seq<char>>) -> Option<int> {
    match text {
        None => None,
        Some(t) => if trim(t).len() == 0 {
            None
        } else {
            match rfc3339_instant(trim(t)) {
                Some(then) => Some(age_secs(now, then)),
                None => None,
            }
        },
    }
}

fn rfc3339_age_secs(now: (i64, u32), text: &Option<String>) -> (res: Option<i128>)
    ensures
        match res {
            Some(a) => timestamp_age(now, os(*text)) == Some(a as int),
            None => timestamp_age(now, os(*text)) is None,
        },
{
    match text {
        None => None,
        Some(t) => {
            let tt = trim_chars(&chars_of(t.as_str()));
            if tt.len() == 0 {
                return None;
            }
            let ts = string_from(&tt);
            match parse_rfc3339_instant(ts.as_str()) {
                Some(then) => Some(age_between(now, then)),
                None => None,
            }
        },
    }
}

/// An optional text, trimmed, unless it is missing or blank.
pub open spec fn trimmed_value(value: Option<Seq<char>>) -> Option<Seq<char>> {
    match value {
        Some(v) => if trim(v).len() == 0 {
            None
        } else {
            Some(trim(v))
        },
        None => None,
    }
}

/// A phase that a request passes through on its way: queued, starting the window,
/// answered or cleaning up.
pub open spec fn transient_phase(phase: Seq<char>) -> bool {
    phase == "queued"@ || phase == "starting_gui"@ || phase == "responded"@ || phase
        == "cleaning"@
}

/// Whether a busy service is stuck at `now`: it names no request, or its phase is `idle`
/// or `failed`, or it sits in a passing phase (dated by `phase_since`, else `busy_since`)
/// for `stale_after_secs` seconds or more. A service that waits for the user is not.
pub open spec fn stale_busy(status: PortStatusProbe, now: (i64, u32), stale_after_secs: i64) -> bool {
    if !status.is_busy {
        false
    } else if trimmed_value(os(status.active_request_id)) is None {
        true
    } else {
        match trimmed_value(os(status.interaction_phase)) {
            Some(p) => if p == "idle"@ || p == "failed"@ {
                true
            } else if p == "waiting_user"@ {
                false
            } else if transient_phase(p) {
                match (match timestamp_age(now, os(status.phase_since)) {
                    Some(a) => Some(a),
                    None => timestamp_age(now, os(status.busy_since)),
                }) {
                    Some(a) => a >= stale_after_secs,
                    None => false,
                }
            } else {
                false
            },
            None => false,
        }
    }
}

fn trimmed_opt(value: &Option<String>) -> (res: Option<Vec<char>>)
    ensures
        match res {
            Some(v) => trimmed_value(os(*value)) == Some(v@),
            None => trimmed_value(os(*value)) is None,
        },
{
    match value {
        Some(v) => {
            let t = trim_chars(&chars_of(v.as_str()));
            if t.len() == 0 {
                None
            } else {
                Some(t)
            }
        },
        None => None,
    }
}

/// Whether a busy service is stuck at the instant `now`.
pub fn is_stale_busy_status_at(status: &PortStatusProbe, now: (i64, u32), stale_after_secs: i64) -> (res:
    bool)
    ensures
        res == stale_busy(*status, now, stale_after_secs),
{
    if !status.is_busy {
        return false;
    }
    if trimmed_opt(&status.active_request_id).is_none() {
        return true;
    }
    match trimmed_opt(&status.interaction_phase) {
        None => false,
        Some(p) => {
            if chars_eq_str(&p, "idle") || chars_eq_str(&p, "failed") {
                true
            } else if chars_eq_str(&p, "waiting_user") {
                false
            } else if chars_eq_str(&p, "queued") || chars_eq_str(&p, "starting_gui")
                || chars_eq_str(&p, "responded") || chars_eq_str(&p, "cleaning") {
                let age = match rfc3339_age_secs(now, &status.phase_since) {
                    Some(a) => Some(a),
                    None => rfc3339_age_secs(now, &status.busy_since),
                };
                match age {
                    Some(a) => a >= stale_after_secs as i128,
                    None => false,
                }
            } else {
                false
            }
        },
    }
}

/// Whether a busy service is stuck now; what holds of every clock reading is that the
/// answer is the one `is_stale_busy_status_at` gives for that reading.
pub fn is_stale_busy_status(status: &PortStatusProbe, stale_after_secs: i64) -> (res: bool)
    ensures
        exists|now: (i64, u32)| res == stale_busy(*status, now, stale_after_secs),
{
    let now = utc_now_instant();
    is_stale_busy_status_at(status, now, stale_after_secs)
}

/// The stale age that a setting asks for: a positive integer, else thirty seconds.
pub open spec fn stale_after_setting(raw: Option<Seq<char>>) -> int {
    match raw {
        Some(r) => match parse_unsigned(r, i64::MAX as nat) {
            Some(v) => if v > 0 {
                v as int
            } else {
                DEFAULT_STALE_INTERACTION_TRANSIENT_SECS as int
            },
            None => DEFAULT_STALE_INTERACTION_TRANSIENT_SECS as int,
        },
        None => DEFAULT_STALE_INTERACTION_TRANSIENT_SECS as int,
    }
}

/// The stale age from the setting `ITERATE_STALE_INTERACTION_TRANSIENT_SECS`: the value
/// when it is a positive `i64`, else thirty seconds.
pub fn stale_interaction_transient_secs(raw: Option<&str>) -> (res: i64)
    ensures
        res == stale_after_setting(
            match raw {
                Some(r) => Some(r@),
                None => None,
            },
        ),
{
    match raw {
        Some(r) => match parse_unsigned_chars(&chars_of(r), 9223372036854775807) {
            Some(v) => if v > 0 {
                v as i64
            } else {
                DEFAULT_STALE_INTERACTION_TRANSIENT_SECS
            },
            None => DEFAULT_STALE_INTERACTION_TRANSIENT_SECS,
        },
        None => DEFAULT_STALE_INTERACTION_TRANSIENT_SECS,
    }
}

// ---------------------------------------------------------------------------
// Which port to try
// ---------------------------------------------------------------------------

/// The ports from `from` up to (not including) `to`.
pub open spec fn port_range(from: int, to: int) -> Seq<int> {
    Seq::new(if to > from { (to - from) as nat } else { 0 }, |i: int| from + i)
}

/// The largest of a nonempty list of ports.
pub open spec fn max_port(ports: Seq<u16>) -> int
    decreases ports.len(),
{
    if ports.len() <= 1 {
        ports[0] as int
    } else {
        let m = max_port(ports.drop_last());
        if ports.last() as int > m {
            ports.last() as int
        } else {
            m
        }
    }
}

/// Where new ports for a workspace start: after the largest of its ports (at most
/// 65535), or at the preferred port when it has none.
pub open spec fn candidates_start(existing: Seq<u16>, preferred: u16) -> int {
    if existing.len() == 0 {
        preferred as int
    } else if max_port(existing) + 1 > u16::MAX {
        u16::MAX as int
    } else {
        max_port(existing) + 1
    }
}

/// The ports to try for a new service of a workspace: from the start up to 5399, then
/// from 5311 up to the start.
pub open spec fn port_candidates(existing: Seq<u16>, preferred: u16) -> Seq<int> {
    let start = candidates_start(existing, preferred);
    (if start < 5400 {
        port_range(start, 5400)
    } else {
        seq![]
    }) + port_range(5311, start)
}

/// The ports of a list as integers.
pub open spec fn port_ints(ports: Seq<u16>) -> Seq<int> {
    ports.map_values(|p: u16| p as int)
}

/// The ports to try for a new service of a workspace, after the ports it already has.
pub fn build_workspace_port_candidates(existing_workspace_ports: &Vec<u16>, preferred_port: u16) -> (res:
    Vec<u16>)
    ensures
        port_ints(res@) == port_candidates(existing_workspace_ports@, preferred_port),
{
    let ghost ex = existing_workspace_ports@;
    let start: u16 = if existing_workspace_ports.len() == 0 {
        preferred_port
    } else {
        let mut m: u16 = existing_workspace_ports[0];
        let mut i: usize = 1;
        assert(ex.take(1).drop_last() =~= Seq::<u16>::empty());
        assert(max_port(ex.take(1)) == ex[0]);
        while i < existing_workspace_ports.len()
            invariant
                ex == existing_workspace_ports@,
                1 <= i <= ex.len(),
                m as int == max_port(ex.take(i as int)),
            decreases ex.len() - i,
        {
            assert(ex.take(i + 1).drop_last() =~= ex.take(i as int));
            assert(ex.take(i + 1).last() == ex[i as int]);
            if existing_workspace_ports[i] > m {
                m = existing_workspace_ports[i];
            }
            i += 1;
        }
        assert(ex.take(i as int) =~= ex);
        m.saturating_add(1)
    };
    assert(start as int == candidates_start(ex, preferred_port));
    let mut out: Vec<u16> = Vec::new();
    let ghost first: Seq<int> = if start < 5400 {
        port_range(start as int, 5400)
    } else {
        seq![]
    };
    if start < 5400 {
        let mut p: u16 = start;
        while p < 5400
            invariant
                start <= p <= 5400,
                port_ints(out@) == port_range(start as int, p as int),
            decreases 5400 - p,
        {
            let ghost before = out@;
            out.push(p);
            assert(port_ints(out@) =~= port_ints(before).push(p as int));
            assert(port_range(start as int, p + 1) =~= port_range(start as int, p as int).push(
                p as int,
            ));
            p += 1;
        }
    } else {
        assert(port_ints(out@) =~= first);
    }
    let ghost mid = out@;
    assert(port_ints(mid) == first);
    let mut q: u16 = 5311;
    assert(port_ints(out@) =~= first + port_range(5311, 5311));
    while q < start
        invariant
            5311 <= q,
            q <= start || q == 5311,
            port_ints(out@) == first + port_range(5311, q as int),
        decreases start - q,
    {
        let ghost before = out@;
        out.push(q);
        assert(port_ints(out@) =~= port_ints(before).push(q as int));
        assert(port_range(5311, q + 1) =~= port_range(5311, q as int).push(q as int));
        assert(first + port_range(5311, q + 1) =~= (first + port_range(5311, q as int)).push(
            q as int,
        ));
        q += 1;
    }
    assert(port_range(5311, q as int) =~= port_range(5311, start as int));
    out
}


// ---------------------------------------------------------------------------
// Routing a request to a port
// ---------------------------------------------------------------------------

/// What the router asks the caller to find out or do next.
#[derive(Clone, Copy, Debug, PartialEq, Eq, Structural)]
pub enum RouteAction {
    /// Is the workspace's service on this port idle? (`/status`)
    CheckIdle(u16),
    /// Does a dialog service run on this port? (`/health`)
    CheckRunning(u16),
    /// Does anything else take connections on this port?
    CheckOccupied(u16),
    /// Start a dialog service for the workspace on this port: did it become ready?
    StartService(u16),
    /// Route the request to this port.
    Use(u16),
}

/// Which answer the router waits for.
#[derive(Clone, Copy, Debug, PartialEq, Eq, Structural)]
pub enum RouteStage {
    /// Whether the workspace's port at this position is idle.
    Existing(usize),
    /// Whether the candidate at this position runs a service.
    Running(usize),
    /// Whether the candidate at this position is taken by something else.
    Occupied(usize),
    /// Whether the service started on the candidate at this position became ready.
    Started(usize),
    /// The route is chosen.
    Done,
}

/// Chooses the port of a workspace's request: an idle port of the workspace, else a new
/// service on the first free candidate port, else the workspace's first port (or the
/// preferred one when it has none).
pub struct PortRouter {
    pub existing: Vec<u16>,
    pub preferred: u16,
    pub candidates: Vec<u16>,
    pub stage: RouteStage,
}

/// The port that a request falls back to.
pub open spec fn fallback_port(existing: Seq<u16>, preferred: u16) -> u16 {
    if existing.len() > 0 {
        existing[0]
    } else {
        preferred
    }
}

/// The router's state and action when it moves on to the candidate at `j`.
pub open spec fn at_candidate(r: PortRouter, j: int, next: PortRouter, action: RouteAction) -> bool {
    if j < r.candidates@.len() {
        next.stage == RouteStage::Running(j as usize) && action == RouteAction::CheckRunning(r.candidates@[j])
    } else {
        next.stage == RouteStage::Done && action == RouteAction::Use(fallback_port(r.existing@, r.preferred))
    }
}

/// One step of the router, given the answer to what it asked.
pub open spec fn route_step(r: PortRouter, answer: bool, next: PortRouter, action: RouteAction) -> bool {
    match r.stage {
        RouteStage::Existing(i) => if answer {
            next.stage == RouteStage::Done && action == RouteAction::Use(r.existing@[i as int])
        } else if i + 1 < r.existing@.len() {
            next.stage == RouteStage::Existing((i + 1) as usize) && action == RouteAction::CheckIdle(
                r.existing@[i + 1],
            )
        } else {
            at_candidate(r, 0, next, action)
        },
        RouteStage::Running(j) => if answer {
            at_candidate(r, j + 1, next, action)
        } else {
            next.stage == RouteStage::Occupied(j) && action == RouteAction::CheckOccupied(r.candidates@[j as int])
        },
        RouteStage::Occupied(j) => if answer {
            at_candidate(r, j + 1, next, action)
        } else {
            next.stage == RouteStage::Started(j) && action == RouteAction::StartService(r.candidates@[j as int])
        },
        RouteStage::Started(j) => if answer {
            next.stage == RouteStage::Done && action == RouteAction::Use(r.candidates@[j as int])
        } else {
            at_candidate(r, j + 1, next, action)
        },
        RouteStage::Done => false,
    }
}

/// The router's positions stay within its lists.
pub open spec fn router_wf(r: PortRouter) -> bool {
    match r.stage {
        RouteStage::Existing(i) => i < r.existing@.len(),
        RouteStage::Running(j) => j < r.candidates@.len(),
        RouteStage::Occupied(j) => j < r.candidates@.len(),
        RouteStage::Started(j) => j < r.candidates@.len(),
        RouteStage::Done => true,
    }
}

impl PortRouter {
    fn move_to_candidate(&mut self, j: usize) -> (res: RouteAction)
        requires
            j <= old(self).candidates@.len(),
        ensures
            final(self).existing == old(self).existing,
            final(self).preferred == old(self).preferred,
            final(self).candidates == old(self).candidates,
            router_wf(*final(self)),
            at_candidate(*old(self), j as int, *final(self), res),
    {
        if j < self.candidates.len() {
            self.stage = RouteStage::Running(j);
            RouteAction::CheckRunning(self.candidates[j])
        } else {
            self.stage = RouteStage::Done;
            let p = if self.existing.len() > 0 {
                self.existing[0]
            } else {
                self.preferred
            };
            RouteAction::Use(p)
        }
    }

    /// Starts routing a request of a workspace whose running ports are `existing` (the
    /// best matches first), with the port the server was started for.
    pub fn start(existing: Vec<u16>, preferred: u16) -> (res: (PortRouter, RouteAction))
        ensures
            res.0.existing@ == existing@,
            res.0.preferred == preferred,
            port_ints(res.0.candidates@) == port_candidates(existing@, preferred),
            router_wf(res.0),
            existing@.len() > 0 ==> res.0.stage == RouteStage::Existing(0) && res.1
                == RouteAction::CheckIdle(existing@[0]),
            existing@.len() == 0 ==> at_candidate(res.0, 0, res.0, res.1),
    {
        let candidates = build_workspace_port_candidates(&existing, preferred);
        if existing.len() > 0 {
            let first = existing[0];
            (PortRouter { existing, preferred, candidates, stage: RouteStage::Existing(0) }, RouteAction::CheckIdle(first))
        } else {
            let mut r = PortRouter { existing, preferred, candidates, stage: RouteStage::Done };
            let a = r.move_to_candidate(0);
            (r, a)
        }
    }

    /// Takes the answer to what the router asked and decides what comes next.
    pub fn step(&mut self, answer: bool) -> (res: RouteAction)
        requires
            router_wf(*old(self)),
            old(self).stage != RouteStage::Done,
        ensures
            route_step(*old(self), answer, *final(self), res),
            router_wf(*final(self)),
            final(self).existing == old(self).existing,
            final(self).preferred == old(self).preferred,
            final(self).candidates == old(self).candidates,
    {
        match self.stage {
            RouteStage::Existing(i) => {
                assert(i < self.existing.len());
                if answer {
                    self.stage = RouteStage::Done;
                    RouteAction::Use(self.existing[i])
                } else if i + 1 < self.existing.len() {
                    self.stage = RouteStage::Existing(i + 1);
                    RouteAction::CheckIdle(self.existing[i + 1])
                } else {
                    self.move_to_candidate(0)
                }
            },
            RouteStage::Running(j) => {
                assert(j < self.candidates.len());
                if answer {
                    self.move_to_candidate(j + 1)
                } else {
                    self.stage = RouteStage::Occupied(j);
                    RouteAction::CheckOccupied(self.candidates[j])
                }
            },
            RouteStage::Occupied(j) => {
                assert(j < self.candidates.len());
                if answer {
                    self.move_to_candidate(j + 1)
                } else {
                    self.stage = RouteStage::Started(j);
                    RouteAction::StartService(self.candidates[j])
                }
            },
            RouteStage::Started(j) => {
                assert(j < self.candidates.len());
                if answer {
                    self.stage = RouteStage::Done;
                    RouteAction::Use(self.candidates[j])
                } else {
                    self.move_to_candidate(j + 1)
                }
            },
            RouteStage::Done => RouteAction::Use(self.preferred),
        }
    }
}


// ---------------------------------------------------------------------------
// The ports registered for workspaces
// ---------------------------------------------------------------------------

/// The order of workspace matches: the deeper (more specific) workspace first, then the
/// lower port.
pub open spec fn match_order() -> spec_fn((usize, u16), (usize, u16)) -> bool {
    |a: (usize, u16), b: (usize, u16)| a.0 > b.0 || (a.0 == b.0 && a.1 <= b.1)
}

/// The order of ports: ascending.
pub open spec fn port_order() -> spec_fn(u16, u16) -> bool {
    |a: u16, b: u16| a <= b
}

/// Both orders are total.
pub proof fn lemma_orders_total()
    ensures
        vstd::relations::total_ordering(match_order()),
        vstd::relations::total_ordering(port_order()),
{
}

fn insert_match(v: &mut Vec<(usize, u16)>, x: (usize, u16))
    requires
        vstd::relations::sorted_by(old(v)@, match_order()),
    ensures
        vstd::relations::sorted_by(final(v)@, match_order()),
        final(v)@.to_multiset() == old(v)@.to_multiset().insert(x),
{
    let ghost s = v@;
    let mut i: usize = 0;
    while i < v.len() && (v[i].0 > x.0 || (v[i].0 == x.0 && v[i].1 <= x.1))
        invariant
            s == v@,
            i <= v.len(),
            vstd::relations::sorted_by(s, match_order()),
            forall|j: int| 0 <= j < i ==> (match_order())(#[trigger] s[j], x),
        decreases v.len() - i,
    {
        i += 1;
    }
    v.insert(i, x);
    proof {
        vstd::seq_lib::to_multiset_insert(s, i as int, x);
        let t = v@;
        assert(t =~= s.insert(i as int, x));
        assert forall|a: int, b: int| 0 <= a < b < t.len() implies #[trigger] (match_order())(t[a], t[b]) by {
            if b < i {
                assert(t[a] == s[a] && t[b] == s[b]);
            } else if b == i {
                assert(t[a] == s[a]);
            } else if a < i {
                assert(t[a] == s[a] && t[b] == s[b - 1]);
                assert((match_order())(s[a], s[b - 1]));
            } else if a == i {
                assert(t[b] == s[b - 1]);
                assert((match_order())(s[i as int], s[b - 1]) || b - 1 == i);
            } else {
                assert(t[a] == s[a - 1] && t[b] == s[b - 1]);
                assert((match_order())(s[a - 1], s[b - 1]));
            }
        }
    }
}

/// How much is left for the router to ask: every answer lowers it, and a chosen route
/// has none left.
pub open spec fn route_rank(r: PortRouter) -> int {
    let e = r.existing@.len() as int;
    let c = r.candidates@.len() as int;
    match r.stage {
        RouteStage::Existing(i) => 3 * c + (e - i),
        RouteStage::Running(j) => 3 * (c - j),
        RouteStage::Occupied(j) => 3 * (c - j) - 1,
        RouteStage::Started(j) => 3 * (c - j) - 2,
        RouteStage::Done => 0,
    }
}

/// Every request gets a port: each answer moves the router forward, so the route is chosen
/// after at most as many answers as the router's rank when it starts (the workspace's
/// ports plus three per candidate port).
pub proof fn law_router_moves_forward(r: PortRouter, answer: bool, next: PortRouter, action: RouteAction)
    requires
        router_wf(r),
        r.stage != RouteStage::Done,
        route_step(r, answer, next, action),
        next.existing@ == r.existing@,
        next.candidates@ == r.candidates@,
    ensures
        0 <= route_rank(next) < route_rank(r),
        route_rank(r) <= r.existing@.len() + 3 * r.candidates@.len(),
{
    let c = r.candidates@.len() as int;
    assert(r.candidates@.len() == r.candidates.len());
    assert(r.existing@.len() == r.existing.len());
    match r.stage {
        RouteStage::Existing(i) => {
            assert(i < r.existing@.len());
            if answer {
                assert(next.stage == RouteStage::Done);
            } else if i + 1 < r.existing@.len() {
                assert(next.stage == RouteStage::Existing((i + 1) as usize));
            }
            if !answer && i + 1 >= r.existing@.len() {
                if 0 < c {
                    assert(next.stage == RouteStage::Running(0));
                } else {
                    assert(next.stage == RouteStage::Done);
                }
            }
        },
        RouteStage::Running(j) => {
            if answer {
                if j + 1 < c {
                    assert(next.stage == RouteStage::Running((j + 1) as usize));
                } else {
                    assert(next.stage == RouteStage::Done);
                }
            }
        },
        RouteStage::Occupied(j) => {
            if answer {
                if j + 1 < c {
                    assert(next.stage == RouteStage::Running((j + 1) as usize));
                } else {
                    assert(next.stage == RouteStage::Done);
                }
            }
        },
        RouteStage::Started(j) => {
            if !answer {
                if j + 1 < c {
                    assert(next.stage == RouteStage::Running((j + 1) as usize));
                } else {
                    assert(next.stage == RouteStage::Done);
                }
            }
        },
        RouteStage::Done => {},
    }
}

/// The ports that serve a workspace, the deeper registered workspace first, then the
/// lower port (`matches` pairs the depth of each registered workspace that contains the
/// requested one with its running port).
pub fn order_workspace_ports(matches: &Vec<(usize, u16)>) -> (res: Vec<u16>)
    ensures
        res@ == matches@.sort_by(match_order()).map_values(|m: (usize, u16)| m.1),
{
    let mut sorted: Vec<(usize, u16)> = Vec::new();
    let mut i: usize = 0;
    assert(sorted@ =~= matches@.take(0));
    while i < matches.len()
        invariant
            i <= matches.len(),
            vstd::relations::sorted_by(sorted@, match_order()),
            sorted@.to_multiset() == matches@.take(i as int).to_multiset(),
        decreases matches.len() - i,
    {
        insert_match(&mut sorted, matches[i]);
        proof {
            assert(matches@.take(i + 1) =~= matches@.take(i as int).push(matches@[i as int]));
            vstd::seq_lib::to_multiset_build(matches@.take(i as int), matches@[i as int]);
        }
        i += 1;
    }
    assert(matches@.take(i as int) =~= matches@);
    proof {
        lemma_orders_total();
        matches@.lemma_sort_by_ensures(match_order());
        vstd::seq_lib::lemma_sorted_unique(sorted@, matches@.sort_by(match_order()), match_order());
    }
    let mut out: Vec<u16> = Vec::new();
    let mut k: usize = 0;
    while k < sorted.len()
        invariant
            k <= sorted.len(),
            out@ == sorted@.take(k as int).map_values(|m: (usize, u16)| m.1),
        decreases sorted.len() - k,
    {
        out.push(sorted[k].1);
        assert(sorted@.take(k + 1).map_values(|m: (usize, u16)| m.1) =~= sorted@.take(k as int).map_values(
            |m: (usize, u16)| m.1,
        ).push(sorted@[k as int].1));
        k += 1;
    }
    assert(sorted@.take(k as int) =~= sorted@);
    out
}

fn insert_port(v: &mut Vec<u16>, x: u16)
    requires
        vstd::relations::sorted_by(old(v)@, port_order()),
    ensures
        vstd::relations::sorted_by(final(v)@, port_order()),
        final(v)@.to_multiset() == old(v)@.to_multiset().insert(x),
{
    let ghost s = v@;
    let mut i: usize = 0;
    while i < v.len() && v[i] <= x
        invariant
            s == v@,
            i <= v.len(),
            vstd::relations::sorted_by(s, port_order()),
            forall|j: int| 0 <= j < i ==> #[trigger] s[j] <= x,
        decreases v.len() - i,
    {
        i += 1;
    }
    v.insert(i, x);
    proof {
        vstd::seq_lib::to_multiset_insert(s, i as int, x);
        let t = v@;
        assert(t =~= s.insert(i as int, x));
        assert forall|a: int, b: int| 0 <= a < b < t.len() implies #[trigger] (port_order())(t[a], t[b]) by {
            if b < i {
                assert(t[a] == s[a] && t[b] == s[b]);
                assert((port_order())(s[a], s[b]));
            } else if b == i {
                assert(t[a] == s[a]);
            } else if a < i {
                assert(t[a] == s[a] && t[b] == s[b - 1]);
                assert((port_order())(s[a], s[b - 1]));
            } else if a == i {
                assert(t[b] == s[b - 1]);
                if b - 1 > i {
                    assert((port_order())(s[i as int], s[b - 1]));
                }
            } else {
                assert(t[a] == s[a - 1] && t[b] == s[b - 1]);
                assert((port_order())(s[a - 1], s[b - 1]));
            }
        }
    }
}

/// The ports named by the files of the port registry (the names that are `u16` numbers),
/// ascending.
pub open spec fn named_ports(names: Seq<Seq<char>>) -> Seq<u16>
    decreases names.len(),
{
    if names.len() == 0 {
        seq![]
    } else {
        match crate::text::parse_unsigned(names.last(), u16::MAX as nat) {
            Some(p) => named_ports(names.drop_last()).push(p as u16),
            None => named_ports(names.drop_last()),
        }
    }
}

/// The registered ports, ascending; the default port 5311 when none is registered.
pub fn registered_ports(names: &Vec<String>) -> (res: Vec<u16>)
    ensures
        ({
            let ports = named_ports(string_views(names@));
            if ports.len() == 0 {
                res@ == seq![5311u16]
            } else {
                res@ == ports.sort_by(port_order())
            }
        }),
{
    let ghost nv = string_views(names@);
    let mut ports: Vec<u16> = Vec::new();
    let mut i: usize = 0;
    assert(nv.take(0) =~= Seq::<Seq<char>>::empty());
    while i < names.len()
        invariant
            nv == string_views(names@),
            i <= names.len(),
            ports@ == named_ports(nv.take(i as int)),
        decreases names.len() - i,
    {
        assert(nv.take(i + 1).drop_last() =~= nv.take(i as int));
        assert(nv.take(i + 1).last() == names@[i as int]@);
        match crate::text::parse_unsigned_chars(&chars_of(names[i].as_str()), 65535) {
            Some(p) => ports.push(p as u16),
            None => {},
        }
        i += 1;
    }
    assert(nv.take(i as int) =~= nv);
    if ports.len() == 0 {
        let mut d: Vec<u16> = Vec::new();
        d.push(5311);
        assert(d@ =~= seq![5311u16]);
        return d;
    }
    let mut sorted: Vec<u16> = Vec::new();
    let mut k: usize = 0;
    assert(sorted@ =~= ports@.take(0));
    while k < ports.len()
        invariant
            k <= ports.len(),
            vstd::relations::sorted_by(sorted@, port_order()),
            sorted@.to_multiset() == ports@.take(k as int).to_multiset(),
        decreases ports.len() - k,
    {
        insert_port(&mut sorted, ports[k]);
        proof {
            assert(ports@.take(k + 1) =~= ports@.take(k as int).push(ports@[k as int]));
            vstd::seq_lib::to_multiset_build(ports@.take(k as int), ports@[k as int]);
        }
        k += 1;
    }
    assert(ports@.take(k as int) =~= ports@);
    proof {
        lemma_orders_total();
        ports@.lemma_sort_by_ensures(port_order());
        vstd::seq_lib::lemma_sorted_unique(sorted@, ports@.sort_by(port_order()), port_order());
    }
    sorted
}

} // verus!
