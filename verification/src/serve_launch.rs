//! Starting a background service for a workspace: the command line it is started with,
//! the programs tried in turn, and the wait until it answers or the time is up.
use vstd::prelude::*;

use crate::text::{
    chars_of, decimal, decimal_chars, parse_unsigned, parse_unsigned_chars, string_from,
};

verus! {

broadcast use vstd::string::group_string_axioms;

/// The views of a sequence of strings.
pub open spec fn strs(v: Seq<String>) -> Seq<Seq<char>> {
    v.map_values(|s: String| s@)
}

/// The command line of a service on `port`: `--serve --port <port>`, and
/// `--workspace <workspace>` when a workspace is given.
pub open spec fn serve_command_line(port: u16, workspace: Seq<char>) -> Seq<Seq<char>> {
    let base = seq!["--serve"@, "--port"@, decimal(port as nat)];
    if workspace.len() == 0 {
        base
    } else {
        base + seq!["--workspace"@, workspace]
    }
}

/// The arguments that start a service on `port` for `workspace` (none when empty).
pub fn serve_args(port: u16, workspace: &str) -> (res: Vec<String>)
    ensures
        strs(res@) == serve_command_line(port, workspace@),
{
    let mut args: Vec<String> = Vec::new();
    args.push(string_from(&chars_of("--serve")));
    args.push(string_from(&chars_of("--port")));
    args.push(string_from(&decimal_chars(port as u64)));
    if chars_of(workspace).len() > 0 {
        args.push(string_from(&chars_of("--workspace")));
        args.push(string_from(&chars_of(workspace)));
    }
    assert(strs(args@) =~= serve_command_line(port, workspace@));
    args
}

/// How long a new service may take to answer, in milliseconds, by default.
pub const DEFAULT_SERVE_STARTUP_TIMEOUT_MS: u64 = 10000;

/// The time a new service may take to answer: the setting when it is a number of
/// milliseconds (as `str::parse::<u64>` reads it), else ten seconds.
pub open spec fn startup_timeout_ms(raw: Option<Seq<char>>) -> nat {
    match raw {
        Some(r) => match parse_unsigned(r, 18446744073709551615) {
            Some(v) => v,
            None => DEFAULT_SERVE_STARTUP_TIMEOUT_MS as nat,
        },
        None => DEFAULT_SERVE_STARTUP_TIMEOUT_MS as nat,
    }
}

/// The time a new service may take to answer, in milliseconds, from its setting.
pub fn serve_startup_timeout_ms(raw: Option<&str>) -> (res: u64)
    ensures
        res as nat == startup_timeout_ms(
            match raw {
                Some(r) => Some(r@),
                None => None,
            },
        ),
{
    match raw {
        Some(r) => match parse_unsigned_chars(&chars_of(r), 18446744073709551615) {
            Some(v) => v,
            None => DEFAULT_SERVE_STARTUP_TIMEOUT_MS,
        },
        None => DEFAULT_SERVE_STARTUP_TIMEOUT_MS,
    }
}

/// The program that is tried last, by name, wherever the search path finds it.
pub open spec fn fallback_launcher() -> Seq<char> {
    "iterate"@
}

/// The programs to try, from the places probed in order (each with whether an executable
/// is there): those that are executable, each once, in the order they came, and then the
/// program by its bare name.
pub open spec fn executable_once(probed: Seq<(Seq<char>, bool)>) -> Seq<Seq<char>>
    decreases probed.len(),
{
    if probed.len() == 0 {
        seq![]
    } else {
        let front = executable_once(probed.drop_last());
        let (path, executable) = probed.last();
        if executable && !front.contains(path) {
            front.push(path)
        } else {
            front
        }
    }
}

/// The programs to try when starting a service: the executable places probed, each once and
/// in order, then `iterate` by name.
pub fn launch_candidates(probed: &Vec<(String, bool)>) -> (res: Vec<String>)
    ensures
        strs(res@) == executable_once(probed@.map_values(|p: (String, bool)| (p.0@, p.1))).push(
            fallback_launcher(),
        ),
{
    let ghost ps = probed@.map_values(|p: (String, bool)| (p.0@, p.1));
    let mut out: Vec<String> = Vec::new();
    let mut i: usize = 0;
    while i < probed.len()
        invariant
            i <= probed.len(),
            ps == probed@.map_values(|p: (String, bool)| (p.0@, p.1)),
            strs(out@) == executable_once(ps.take(i as int)),
        decreases probed.len() - i,
    {
        let ghost front = ps.take(i as int);
        assert(ps.take(i + 1).drop_last() =~= front);
        assert(ps.take(i + 1).last() == ps[i as int]);
        let (path, executable) = (&probed[i].0, probed[i].1);
        if executable {
            let mut seen = false;
            let mut j: usize = 0;
            while j < out.len()
                invariant
                    j <= out.len(),
                    seen == exists|k: int| 0 <= k < j && strs(out@)[k] == path@,
                decreases out.len() - j,
            {
                let same = crate::text::chars_eq(&chars_of(out[j].as_str()), &chars_of(path.as_str()));
                proof {
                    assert(strs(out@)[j as int] == out@[j as int]@);
                    if !seen && !same {
                        assert forall|k: int| 0 <= k < j + 1 implies strs(out@)[k] != path@ by {}
                    }
                }
                if same {
                    seen = true;
                }
                j += 1;
            }
            proof {
                if seen {
                    let k = choose|k: int| 0 <= k < out.len() && strs(out@)[k] == path@;
                    assert(strs(out@).contains(path@));
                } else {
                    assert(!strs(out@).contains(path@));
                }
            }
            if !seen {
                let copy = string_from(&chars_of(path.as_str()));
                out.push(copy);
                assert(strs(out@) =~= executable_once(ps.take(i as int)).push(path@));
            }
        }
        i += 1;
    }
    assert(ps.take(probed.len() as int) =~= ps);
    out.push(string_from(&chars_of("iterate")));
    proof {
        reveal_strlit("iterate");
    }
    assert(strs(out@) =~= executable_once(ps).push(fallback_launcher()));
    out
}

/// Where the start of a service stands: trying the program at an index, waiting for the
/// service to answer, or done with whether it answers.
#[derive(Clone, Copy, Debug, PartialEq, Eq, Structural)]
pub enum ServeStage {
    Spawning(usize),
    Waiting,
    Done(bool),
}

/// What the caller does next.
#[derive(Debug, PartialEq, Eq)]
pub enum ServeAction {
    /// Start this program with the service's arguments.
    Spawn(String),
    /// No program could be started: the service is not there.
    GiveUp,
    /// Unless the time is up, wait a tenth of a second and ask the service whether it answers.
    Probe,
    /// The service answers.
    Ready,
    /// The time is up: stop the program and report that the service is not there.
    StopAndGiveUp,
}

/// What came of the last action.
#[derive(Clone, Copy, Debug, PartialEq, Eq, Structural)]
pub enum ServeEvent {
    /// Whether the program could be started.
    Spawned(bool),
    /// Whether the service answered its health check.
    Healthy(bool),
    /// The time for the service to answer is up.
    TimeUp,
}

/// The start of a service: the programs to try and where it stands.
pub struct ServeStart {
    pub launchers: Vec<String>,
    pub stage: ServeStage,
}

/// The stage after trying the program at `i`: spawning it, or done without a service
/// when there is none left.
pub open spec fn spawn_or_give_up(launchers: Seq<Seq<char>>, i: int) -> ServeStage {
    if 0 <= i < launchers.len() {
        ServeStage::Spawning(i as usize)
    } else {
        ServeStage::Done(false)
    }
}

/// One step of the start: a program that started is waited on, one that did not is
/// followed by the next; a service that answers is ready, one that does not is asked again
/// until the time is up.
pub open spec fn serve_step(launchers: Seq<Seq<char>>, stage: ServeStage, event: ServeEvent) -> ServeStage {
    match (stage, event) {
        (ServeStage::Spawning(i), ServeEvent::Spawned(true)) => ServeStage::Waiting,
        (ServeStage::Spawning(i), ServeEvent::Spawned(false)) => spawn_or_give_up(launchers, i + 1),
        (ServeStage::Waiting, ServeEvent::Healthy(true)) => ServeStage::Done(true),
        (ServeStage::Waiting, ServeEvent::TimeUp) => ServeStage::Done(false),
        _ => stage,
    }
}

/// The action that goes with arriving at stage `next` from `before`: start the program,
/// ask the service, report it ready, or give up (stopping the program when it was
/// started).
pub open spec fn serve_action(launchers: Seq<Seq<char>>, before: ServeStage, next: ServeStage, a: ServeAction) -> bool {
    match next {
        ServeStage::Spawning(i) => a matches ServeAction::Spawn(p) && p@ == launchers[i as int],
        ServeStage::Waiting => a is Probe,
        ServeStage::Done(true) => a is Ready,
        ServeStage::Done(false) => if before is Waiting {
            a is StopAndGiveUp
        } else {
            a is GiveUp
        },
    }
}

impl ServeStart {
    /// The programs, by their views.
    pub open spec fn launcher_views(&self) -> Seq<Seq<char>> {
        strs(self.launchers@)
    }

    /// A program being tried is one of the list.
    pub open spec fn wf(&self) -> bool {
        self.stage matches ServeStage::Spawning(i) ==> i < self.launchers.len()
    }

    /// Begins a start by trying the first program.
    pub fn start(launchers: Vec<String>) -> (res: (ServeStart, ServeAction))
        ensures
            res.0.wf(),
            res.0.launchers@ == launchers@,
            res.0.stage == spawn_or_give_up(strs(launchers@), 0),
            serve_action(strs(launchers@), ServeStage::Spawning(0), res.0.stage, res.1),
    {
        if launchers.len() > 0 {
            let first = string_from(&chars_of(launchers[0].as_str()));
            (ServeStart { launchers, stage: ServeStage::Spawning(0) }, ServeAction::Spawn(first))
        } else {
            (ServeStart { launchers, stage: ServeStage::Done(false) }, ServeAction::GiveUp)
        }
    }

    /// Takes what came of the last action and says what to do next.
    pub fn step(&mut self, event: ServeEvent) -> (action: ServeAction)
        requires
            old(self).wf(),
        ensures
            final(self).wf(),
            final(self).launchers@ == old(self).launchers@,
            final(self).stage == serve_step(old(self).launcher_views(), old(self).stage, event),
            serve_action(old(self).launcher_views(), old(self).stage, final(self).stage, action),
    {
        match (self.stage, event) {
            (ServeStage::Spawning(_), ServeEvent::Spawned(true)) => {
                self.stage = ServeStage::Waiting;
                ServeAction::Probe
            },
            (ServeStage::Spawning(i), ServeEvent::Spawned(false)) => {
                if i + 1 < self.launchers.len() {
                    let next = string_from(&chars_of(self.launchers[i + 1].as_str()));
                    self.stage = ServeStage::Spawning(i + 1);
                    ServeAction::Spawn(next)
                } else {
                    self.stage = ServeStage::Done(false);
                    ServeAction::GiveUp
                }
            },
            (ServeStage::Waiting, ServeEvent::Healthy(true)) => {
                self.stage = ServeStage::Done(true);
                ServeAction::Ready
            },
            (ServeStage::Waiting, ServeEvent::TimeUp) => {
                self.stage = ServeStage::Done(false);
                ServeAction::StopAndGiveUp
            },
            (ServeStage::Waiting, _) => ServeAction::Probe,
            (ServeStage::Done(true), _) => ServeAction::Ready,
            (ServeStage::Done(false), _) => ServeAction::GiveUp,
            (ServeStage::Spawning(i), _) => {
                let again = string_from(&chars_of(self.launchers[i].as_str()));
                ServeAction::Spawn(again)
            },
        }
    }
}

} // verus!
