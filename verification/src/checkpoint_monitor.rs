//! The background checkpoint monitor: which workspaces it watches, and when a watched
//! workspace's changes have been stable long enough to be saved in a checkpoint.
//! Times are milliseconds on a monotonic clock that the caller reads.
use vstd::prelude::*;

use crate::checkpoint::{opt_view, relevant_status, CommandOutcome};
use crate::text::{
    chars_eq, chars_eq_str, chars_of, parse_unsigned, parse_unsigned_chars, string_from, trim,
    trim_chars,
};

verus! {

broadcast use vstd::string::group_string_axioms;

/// The default pause between two rounds of the monitor, in milliseconds.
pub const MONITOR_POLL_MS: u64 = 2000;

/// The default time that changes must stay the same before they are saved, in milliseconds.
pub const MONITOR_DEBOUNCE_MS: u64 = 5000;

/// How long a workspace stays watched after it was last touched, in milliseconds.
pub const MONITOR_TTL_MS: u64 = 1_800_000;

/// A duration in milliseconds read from a setting (`str::parse::<u64>`), or the default
/// when the setting is absent or not a number.
pub open spec fn setting_ms(setting: Option<Seq<char>>, default_ms: u64) -> u64 {
    match setting {
        Some(s) => match parse_unsigned(s, u64::MAX as nat) {
            Some(v) => v as u64,
            None => default_ms,
        },
        None => default_ms,
    }
}

/// The pause between rounds: the setting in milliseconds when it is a number, else two seconds.
pub fn monitor_poll_interval(setting: Option<&str>) -> (res: u64)
    ensures
        res == setting_ms(opt_view(setting), MONITOR_POLL_MS),
{
    match setting {
        Some(s) => match parse_unsigned_chars(&chars_of(s), u64::MAX) {
            Some(v) => v,
            None => MONITOR_POLL_MS,
        },
        None => MONITOR_POLL_MS,
    }
}

/// The debounce window: the setting in milliseconds when it is a number, else five seconds.
pub fn monitor_debounce_window(setting: Option<&str>) -> (res: u64)
    ensures
        res == setting_ms(opt_view(setting), MONITOR_DEBOUNCE_MS),
{
    match setting {
        Some(s) => match parse_unsigned_chars(&chars_of(s), u64::MAX) {
            Some(v) => v,
            None => MONITOR_DEBOUNCE_MS,
        },
        None => MONITOR_DEBOUNCE_MS,
    }
}

/// What the monitor knows of one watched workspace.
#[derive(Debug)]
pub struct MonitorEntry {
    pub project_path: String,
    /// The relevant status seen last (empty after a checkpoint).
    pub last_status: String,
    /// When that status was first seen.
    pub last_change_at: u64,
    /// When the workspace was last touched.
    pub last_seen_at: u64,
    /// The request that touched the workspace last with an id.
    pub last_request_id: Option<String>,
}

/// The workspaces that the monitor watches, each once, and whether its loop runs.
pub struct AutoCheckpointMonitor {
    pub entries: Vec<MonitorEntry>,
    pub started: bool,
}

/// No two entries watch the same workspace.
pub open spec fn distinct_paths(es: Seq<MonitorEntry>) -> bool {
    forall|i: int, j: int|
        0 <= i < j < es.len() ==> #[trigger] es[i].project_path@ != #[trigger] es[j].project_path@
}

/// The position of the entry that watches `path`.
pub open spec fn entry_of(es: Seq<MonitorEntry>, path: Seq<char>) -> Option<int> {
    if exists|i: int| 0 <= i < es.len() && #[trigger] es[i].project_path@ == path {
        Some(choose|i: int| 0 <= i < es.len() && #[trigger] es[i].project_path@ == path)
    } else {
        None
    }
}

/// The trimmed request id, when one was given and it is not blank.
pub open spec fn request_of(request_id: Option<Seq<char>>) -> Option<Seq<char>> {
    crate::checkpoint::given_label(request_id)
}

/// The view of an optional `String`.
pub open spec fn opt_string(o: Option<String>) -> Option<Seq<char>> {
    match o {
        Some(s) => Some(s@),
        None => None,
    }
}

/// `e` after a touch at `now`: seen now, and carrying the request id when one was given.
pub open spec fn touched(e: MonitorEntry, after: MonitorEntry, request_id: Option<Seq<char>>, now: u64) -> bool {
    &&& after.project_path@ == e.project_path@
    &&& after.last_status@ == e.last_status@
    &&& after.last_change_at == e.last_change_at
    &&& after.last_seen_at == now
    &&& opt_string(after.last_request_id) == match request_of(request_id) {
        Some(r) => Some(r),
        None => opt_string(e.last_request_id),
    }
}

/// A copy of an optional string.
fn copy_opt(o: &Option<String>) -> (res: Option<String>)
    ensures
        opt_string(res) == opt_string(*o),
{
    match o {
        Some(s) => Some(string_from(&chars_of(s.as_str()))),
        None => None,
    }
}

impl AutoCheckpointMonitor {
    /// Each workspace is watched by one entry.
    pub open spec fn wf(&self) -> bool {
        distinct_paths(self.entries@)
    }

    /// A monitor that watches nothing and whose loop has not started.
    pub fn new() -> (res: AutoCheckpointMonitor)
        ensures
            res.wf(),
            res.entries@.len() == 0,
            !res.started,
    {
        AutoCheckpointMonitor { entries: Vec::new(), started: false }
    }

    /// The position of the entry that watches `path`.
    pub fn find(&self, path: &str) -> (res: Option<usize>)
        requires
            self.wf(),
        ensures
            match res {
                Some(i) => i < self.entries@.len() && self.entries@[i as int].project_path@
                    == path@,
                None => entry_of(self.entries@, path@) is None,
            },
    {
        let p = chars_of(path);
        let mut i: usize = 0;
        while i < self.entries.len()
            invariant
                i <= self.entries@.len(),
                p@ == path@,
                forall|j: int| 0 <= j < i ==> #[trigger] self.entries@[j].project_path@ != path@,
            decreases self.entries.len() - i,
        {
            if chars_eq_str(&p, self.entries[i].project_path.as_str()) {
                return Some(i);
            }
            i += 1;
        }
        None
    }

    /// Forgets the workspaces not touched within `ttl_ms` before `now`.
    pub fn prune(&mut self, now: u64, ttl_ms: u64)
        requires
            old(self).wf(),
        ensures
            final(self).wf(),
            final(self).started == old(self).started,
            final(self).entries@ == live_entries(old(self).entries@, now, ttl_ms),
    {
        let ghost es = self.entries@;
        let mut rest: Vec<MonitorEntry> = Vec::new();
        std::mem::swap(&mut rest, &mut self.entries);
        let mut kept: Vec<MonitorEntry> = Vec::new();
        let n = rest.len();
        let mut i: usize = 0;
        assert(es.skip(0) =~= es);
        assert(es.take(0) =~= seq![]);
        while rest.len() > 0
            invariant
                es.len() == n,
                i <= es.len(),
                rest@ == es.skip(i as int),
                kept@ == live_entries(es.take(i as int), now, ttl_ms),
            decreases rest@.len(),
        {
            let e = rest.remove(0);
            assert(e == es[i as int]);
            assert(es.take(i + 1).drop_last() =~= es.take(i as int));
            assert(es.take(i + 1).last() == es[i as int]);
            assert(rest@ =~= es.skip(i + 1));
            let age = if now >= e.last_seen_at {
                now - e.last_seen_at
            } else {
                0
            };
            if age <= ttl_ms {
                kept.push(e);
            }
            i += 1;
        }
        assert(es.take(i as int) =~= es);
        proof {
            lemma_live_entries_distinct(es, now, ttl_ms);
        }
        self.entries = kept;
    }
}

/// The entries touched within `ttl_ms` before `now`, in order.
pub open spec fn live_entries(es: Seq<MonitorEntry>, now: u64, ttl_ms: u64) -> Seq<MonitorEntry>
    decreases es.len(),
{
    if es.len() == 0 {
        seq![]
    } else {
        let e = es.last();
        let age = if now >= e.last_seen_at {
            now - e.last_seen_at
        } else {
            0
        };
        if age <= ttl_ms {
            live_entries(es.drop_last(), now, ttl_ms).push(e)
        } else {
            live_entries(es.drop_last(), now, ttl_ms)
        }
    }
}

/// The live entries are entries of the monitor.
pub proof fn lemma_live_entries_within(es: Seq<MonitorEntry>, now: u64, ttl_ms: u64)
    ensures
        forall|k: int|
            0 <= k < live_entries(es, now, ttl_ms).len() ==> es.contains(
                #[trigger] live_entries(es, now, ttl_ms)[k],
            ),
    decreases es.len(),
{
    if es.len() > 0 {
        lemma_live_entries_within(es.drop_last(), now, ttl_ms);
        let l = live_entries(es, now, ttl_ms);
        let p = live_entries(es.drop_last(), now, ttl_ms);
        assert forall|k: int| 0 <= k < l.len() implies es.contains(#[trigger] l[k]) by {
            if k < p.len() {
                assert(l[k] == p[k]);
                let j = choose|j: int| 0 <= j < es.drop_last().len() && es.drop_last()[j] == p[k];
                assert(es[j] == p[k]);
            } else {
                assert(l[k] == es.last());
                assert(es[es.len() - 1] == es.last());
            }
        }
    }
}

/// Forgetting workspaces keeps each remaining workspace watched once.
pub proof fn lemma_live_entries_distinct(es: Seq<MonitorEntry>, now: u64, ttl_ms: u64)
    requires
        distinct_paths(es),
    ensures
        distinct_paths(live_entries(es, now, ttl_ms)),
    decreases es.len(),
{
    if es.len() > 0 {
        let d = es.drop_last();
        assert(distinct_paths(d));
        lemma_live_entries_distinct(d, now, ttl_ms);
        lemma_live_entries_within(d, now, ttl_ms);
        let l = live_entries(es, now, ttl_ms);
        let p = live_entries(d, now, ttl_ms);
        assert forall|a: int, b: int| 0 <= a < b < l.len() implies #[trigger] l[a].project_path@
            != #[trigger] l[b].project_path@ by {
            if b < p.len() {
                assert(l[a] == p[a] && l[b] == p[b]);
            } else {
                assert(l[b] == es.last());
                assert(l[a] == p[a]);
                assert(d.contains(p[a]));
                let j = choose|j: int| 0 <= j < d.len() && d[j] == p[a];
                assert(es[j] == p[a]);
                assert(es[es.len() - 1] == es.last());
            }
        }
    }
}

/// A new entry for a workspace touched at `now`.
pub open spec fn fresh_entry(e: MonitorEntry, path: Seq<char>, request_id: Option<Seq<char>>, now: u64) -> bool {
    &&& e.project_path@ == path
    &&& e.last_status@.len() == 0
    &&& e.last_change_at == now
    &&& e.last_seen_at == now
    &&& opt_string(e.last_request_id) == request_of(request_id)
}

/// Does some entry watch `path`?
pub open spec fn watches(es: Seq<MonitorEntry>, path: Seq<char>) -> bool {
    exists|i: int| 0 <= i < es.len() && #[trigger] es[i].project_path@ == path
}

/// Marks a workspace as worked on at `now`: it is watched from now on (for the time the
/// monitor keeps it), with the request id when one was given. Nothing happens for a blank
/// path or when automatic checkpoints are switched off. Returns whether the monitor's
/// loop must be started, which happens once.
pub fn touch_auto_checkpoint_monitor(
    monitor: &mut AutoCheckpointMonitor,
    project_path: &str,
    request_id: Option<&str>,
    enabled: bool,
    now: u64,
) -> (start_loop: bool)
    requires
        old(monitor).wf(),
    ensures
        final(monitor).wf(),
        trim(project_path@).len() == 0 || !enabled ==> {
            &&& final(monitor).entries@ == old(monitor).entries@
            &&& final(monitor).started == old(monitor).started
            &&& !start_loop
        },
        trim(project_path@).len() > 0 && enabled ==> {
            &&& start_loop == !old(monitor).started
            &&& final(monitor).started
            &&& final(monitor).entries@.len() == old(monitor).entries@.len() + (if watches(
                old(monitor).entries@,
                project_path@,
            ) {
                0int
            } else {
                1int
            })
            &&& forall|j: int|
                0 <= j < old(monitor).entries@.len() ==> if old(monitor).entries@[j].project_path@
                    == project_path@ {
                    touched(
                        old(monitor).entries@[j],
                        #[trigger] final(monitor).entries@[j],
                        opt_view(request_id),
                        now,
                    )
                } else {
                    final(monitor).entries@[j] == old(monitor).entries@[j]
                }
            &&& !watches(old(monitor).entries@, project_path@) ==> fresh_entry(
                final(monitor).entries@.last(),
                project_path@,
                opt_view(request_id),
                now,
            )
        },
{
    if trim_chars(&chars_of(project_path)).len() == 0 || !enabled {
        return false;
    }
    let start_loop = !monitor.started;
    monitor.started = true;
    let request = crate::checkpoint::given_label_copy(request_id);
    match monitor.find(project_path) {
        Some(i) => {
            let old_entry = &monitor.entries[i];
            let entry = MonitorEntry {
                project_path: string_from(&chars_of(old_entry.project_path.as_str())),
                last_status: string_from(&chars_of(old_entry.last_status.as_str())),
                last_change_at: old_entry.last_change_at,
                last_seen_at: now,
                last_request_id: match request {
                    Some(r) => Some(r),
                    None => copy_opt(&old_entry.last_request_id),
                },
            };
            let ghost before = monitor.entries@;
            monitor.entries.set(i, entry);
            proof {
                assert forall|j: int| 0 <= j < before.len() && j != i implies before[j].project_path@
                    != project_path@ by {
                    if j < i {
                        assert(before[j].project_path@ != before[i as int].project_path@);
                    } else {
                        assert(before[i as int].project_path@ != before[j].project_path@);
                    }
                }
                assert(watches(before, project_path@)) by {
                    assert(before[i as int].project_path@ == project_path@);
                }
            }
        },
        None => {
            let entry = MonitorEntry {
                project_path: string_from(&chars_of(project_path)),
                last_status: String::new(),
                last_change_at: now,
                last_seen_at: now,
                last_request_id: request,
            };
            let ghost before = monitor.entries@;
            monitor.entries.push(entry);
            proof {
                assert(!watches(before, project_path@)) by {
                    if watches(before, project_path@) {
                        let k = choose|k: int| 0 <= k < before.len() && #[trigger] before[k].project_path@
                            == project_path@;
                        assert(before[k].project_path@ != project_path@);
                    }
                }
                assert forall|a: int, b: int| 0 <= a < b < monitor.entries@.len() implies #[trigger] monitor.entries@[a].project_path@
                    != #[trigger] monitor.entries@[b].project_path@ by {
                    if b < before.len() {
                        assert(monitor.entries@[a] == before[a] && monitor.entries@[b] == before[b]);
                    } else {
                        assert(monitor.entries@[a] == before[a]);
                    }
                }
            }
        },
    }
    start_loop
}

/// The relevant status of a watched workspace, from what `git status --porcelain
/// --untracked-files=all` gave there: nothing when it did not run successfully.
pub fn git_status_porcelain(status: &CommandOutcome) -> (res: Option<String>)
    ensures
        match status {
            CommandOutcome::Exited { success: true, stdout, .. } => (res matches Some(r) && r@
                == relevant_status(stdout@)),
            _ => res is None,
        },
{
    match status {
        CommandOutcome::Exited { success, stdout, .. } => {
            if *success {
                Some(crate::checkpoint::filter_monitor_relevant_status(stdout.as_str()))
            } else {
                None
            }
        },
        CommandOutcome::SpawnFailed(_) => None,
    }
}

/// Time passed from `since` to `now`, none when the clock reads earlier.
pub open spec fn elapsed(since: u64, now: u64) -> u64 {
    if now >= since {
        (now - since) as u64
    } else {
        0
    }
}

/// One round of the monitor for a workspace: the status it remembers and when that status
/// appeared, after seeing `status` at `now`, and whether a checkpoint is due. A new status
/// is remembered; a status that stayed the same and is not empty for at least `debounce`
/// is due for a checkpoint, after which the status is forgotten.
pub open spec fn monitor_cycle(
    last_status: Seq<char>,
    last_change_at: u64,
    status: Option<Seq<char>>,
    now: u64,
    debounce: u64,
) -> (Seq<char>, u64, bool) {
    match status {
        None => (last_status, last_change_at, false),
        Some(s) => if s != last_status {
            (s, now, false)
        } else if trim(last_status).len() == 0 || elapsed(last_change_at, now) < debounce {
            (last_status, last_change_at, false)
        } else {
            (seq![], now, true)
        },
    }
}

/// Runs one round of the monitor for a workspace that showed `status` at `now`. Gives the
/// request id to create a checkpoint with, when one is due.
pub fn evaluate_monitor_cycle(
    entry: &mut MonitorEntry,
    status: Option<&str>,
    now: u64,
    debounce: u64,
) -> (res: Option<Option<String>>)
    ensures
        ({
            let c = monitor_cycle(
                old(entry).last_status@,
                old(entry).last_change_at,
                opt_view(status),
                now,
                debounce,
            );
            &&& final(entry).last_status@ == c.0
            &&& final(entry).last_change_at == c.1
            &&& res is Some <==> c.2
        }),
        res matches Some(r) ==> opt_string(r) == opt_string(old(entry).last_request_id),
        final(entry).project_path@ == old(entry).project_path@,
        final(entry).last_seen_at == old(entry).last_seen_at,
        opt_string(final(entry).last_request_id) == opt_string(old(entry).last_request_id),
{
    let s = match status {
        None => {
            return None;
        },
        Some(s) => chars_of(s),
    };
    let last = chars_of(entry.last_status.as_str());
    if !chars_eq(&s, &last) {
        entry.last_status = string_from(&s);
        entry.last_change_at = now;
        return None;
    }
    let waited = if now >= entry.last_change_at {
        now - entry.last_change_at
    } else {
        0
    };
    if trim_chars(&last).len() == 0 || waited < debounce {
        return None;
    }
    let request = copy_opt(&entry.last_request_id);
    entry.last_status = String::new();
    entry.last_change_at = now;
    Some(request)
}

/// Two rounds in a row never both call for a checkpoint: after one, the status is
/// forgotten, so the next round only remembers it again.
pub proof fn law_no_checkpoint_twice_in_a_row(
    last_status: Seq<char>,
    last_change_at: u64,
    status1: Option<Seq<char>>,
    now1: u64,
    status2: Option<Seq<char>>,
    now2: u64,
    debounce: u64,
)
    requires
        monitor_cycle(last_status, last_change_at, status1, now1, debounce).2,
    ensures
        ({
            let c1 = monitor_cycle(last_status, last_change_at, status1, now1, debounce);
            !monitor_cycle(c1.0, c1.1, status2, now2, debounce).2
        }),
{
    let c1 = monitor_cycle(last_status, last_change_at, status1, now1, debounce);
    assert(trim(c1.0).len() == 0) by {
        assert(c1.0 =~= seq![]);
    }
}

/// A checkpoint is only called for when the same non-empty status was seen at least
/// `debounce` after it first appeared.
pub proof fn law_checkpoint_needs_stable_changes(
    last_status: Seq<char>,
    last_change_at: u64,
    status: Option<Seq<char>>,
    now: u64,
    debounce: u64,
)
    requires
        monitor_cycle(last_status, last_change_at, status, now, debounce).2,
    ensures
        status == Some(last_status),
        trim(last_status).len() > 0,
        elapsed(last_change_at, now) >= debounce,
{
}


/// The entry that the conversation log gets when the monitor saved a checkpoint of a
/// workspace: a fixed note from the monitor, the request that last touched the workspace,
/// and the checkpoint.
pub fn monitor_checkpoint_entry(
    project_path: &str,
    request_id: Option<&str>,
    checkpoint: &crate::checkpoint_run::CheckpointMetadata,
) -> (res: crate::conversation_log::ConversationEntry)
    ensures
        res.ai_message@ == "后台自动检查点：检测到稳定改动，已创建工作区 checkpoint。"@,
        res.user_response@.len() == 0,
        opt_string(res.project_path) == Some(project_path@),
        opt_string(res.request_id) == opt_view(request_id),
        opt_string(res.checkpoint_id) == Some(checkpoint.checkpoint_id@),
        opt_string(res.checkpoint_commit) == Some(checkpoint.commit_hash@),
        opt_string(res.push_status) == Some(checkpoint.push_status@),
        opt_string(res.response_source) == Some("checkpoint_monitor"@),
        opt_string(res.workspace_checkpoint_message) == Some(checkpoint.commit_subject@),
        res.conversation_id is None && res.current_node_id is None && res.timeline_route_id is None,
        res.run_id is None && res.generation is None && res.stale_of is None && res.superseded_by is None,
        res.image_count == 0,
        res.file_paths@.len() == 0 && res.image_paths@.len() == 0 && res.selected_options@.len() == 0,
{
    crate::conversation_log::ConversationEntry {
        conversation_id: None,
        current_node_id: None,
        timeline_route_id: None,
        run_id: None,
        generation: None,
        stale_of: None,
        superseded_by: None,
        ai_message: string_from(&chars_of("后台自动检查点：检测到稳定改动，已创建工作区 checkpoint。")),
        user_response: string_from(&Vec::new()),
        project_path: Some(string_from(&chars_of(project_path))),
        image_count: 0,
        file_paths: Vec::new(),
        image_paths: Vec::new(),
        selected_options: Vec::new(),
        request_id: match request_id {
            Some(r) => Some(string_from(&chars_of(r))),
            None => None,
        },
        checkpoint_id: Some(string_from(&chars_of(checkpoint.checkpoint_id.as_str()))),
        checkpoint_commit: Some(string_from(&chars_of(checkpoint.commit_hash.as_str()))),
        push_status: Some(string_from(&chars_of(checkpoint.push_status.as_str()))),
        response_source: Some(string_from(&chars_of("checkpoint_monitor"))),
        workspace_checkpoint_message: Some(string_from(&chars_of(checkpoint.commit_subject.as_str()))),
    }
}

} // verus!
