//! Which Codex thread a dialog request belongs to: the first thread id that is given (by
//! the tool's arguments, by the caller's request metadata, or inside the arguments' own
//! metadata), else the newest thread that Codex's state databases record for the project.
use vstd::prelude::*;

use crate::ordered::{chars_less, chars_lt};
use crate::text::{chars_of, string_from};

verus! {

broadcast use vstd::string::group_string_axioms;

/// A thread that one of Codex's state databases records for the project, with the time
/// it was last updated in milliseconds.
#[derive(Debug)]
pub struct CodexThreadCandidate {
    pub thread_id: String,
    pub updated_at_ms: i64,
}

/// Whether candidate `c` replaces the best one so far: it was updated later, or at the
/// same time with a greater thread id.
pub open spec fn replaces(c: CodexThreadCandidate, best: CodexThreadCandidate) -> bool {
    c.updated_at_ms > best.updated_at_ms || (c.updated_at_ms == best.updated_at_ms && chars_lt(
        best.thread_id@,
        c.thread_id@,
    ))
}

/// The candidate that is chosen, going through them in order and keeping the first one
/// unless a later one replaces it.
pub open spec fn newest_candidate(cs: Seq<CodexThreadCandidate>) -> Option<int>
    decreases cs.len(),
{
    if cs.len() == 0 {
        None
    } else {
        match newest_candidate(cs.drop_last()) {
            Some(b) => if replaces(cs.last(), cs[b]) {
                Some(cs.len() - 1)
            } else {
                Some(b)
            },
            None => Some(cs.len() - 1),
        }
    }
}

/// The thread that the fallback picks was updated no earlier than any other that the
/// databases found.
pub proof fn law_fallback_thread_is_newest(cs: Seq<CodexThreadCandidate>)
    requires
        cs.len() > 0,
    ensures
        newest_candidate(cs) matches Some(k) && 0 <= k < cs.len() && forall|i: int|
            0 <= i < cs.len() ==> #[trigger] cs[i].updated_at_ms <= cs[k].updated_at_ms,
    decreases cs.len(),
{
    let front = cs.drop_last();
    if front.len() == 0 {
        assert(newest_candidate(front) is None);
        assert forall|i: int| 0 <= i < cs.len() implies #[trigger] cs[i].updated_at_ms
            <= cs[cs.len() - 1].updated_at_ms by {
            assert(i == 0);
        }
    } else {
        law_fallback_thread_is_newest(front);
        let b = newest_candidate(front)->0;
        assert(front[b] == cs[b]);
        if replaces(cs.last(), cs[b]) {
            assert forall|i: int| 0 <= i < cs.len() implies #[trigger] cs[i].updated_at_ms
                <= cs[cs.len() - 1].updated_at_ms by {
                if i < cs.len() - 1 {
                    assert(cs[i] == front[i]);
                }
            }
        } else {
            assert forall|i: int| 0 <= i < cs.len() implies #[trigger] cs[i].updated_at_ms
                <= cs[b].updated_at_ms by {
                if i < cs.len() - 1 {
                    assert(cs[i] == front[i]);
                }
            }
        }
    }
}

/// The index of the newest thread among those that the state databases found, in the
/// order the databases were read.
pub fn newest_codex_thread(candidates: &Vec<CodexThreadCandidate>) -> (res: Option<usize>)
    ensures
        match newest_candidate(candidates@) {
            Some(k) => 0 <= k < candidates.len() && res == Some(k as usize),
            None => res is None,
        },
{
    let mut best: Option<usize> = None;
    let mut i: usize = 0;
    assert(candidates@.take(0) =~= seq![]);
    while i < candidates.len()
        invariant
            i <= candidates.len(),
            match best {
                Some(b) => b < i && newest_candidate(candidates@.take(i as int)) == Some(b as int),
                None => newest_candidate(candidates@.take(i as int)) is None,
            },
        decreases candidates.len() - i,
    {
        let ghost t = candidates@.take(i + 1);
        assert(t.drop_last() =~= candidates@.take(i as int));
        assert(t.last() == candidates@[i as int]);
        match best {
            Some(b) => {
                assert(t[b as int] == candidates@[b as int]);
                let c = &candidates[i];
                let current = &candidates[b];
                if c.updated_at_ms > current.updated_at_ms || (c.updated_at_ms
                    == current.updated_at_ms && chars_less(
                    &chars_of(current.thread_id.as_str()),
                    &chars_of(c.thread_id.as_str()),
                )) {
                    best = Some(i);
                }
            },
            None => {
                best = Some(i);
            },
        }
        i += 1;
    }
    assert(candidates@.take(i as int) =~= candidates@);
    best
}

/// The first of the ids that is there, by its view.
pub open spec fn first_given(
    explicit: Option<Seq<char>>,
    caller: Option<Seq<char>>,
    argument: Option<Seq<char>>,
) -> Option<Seq<char>> {
    match explicit {
        Some(x) => Some(x),
        None => match caller {
            Some(x) => Some(x),
            None => argument,
        },
    }
}

/// The view of an optional string.
pub open spec fn opt_view(o: Option<String>) -> Option<Seq<char>> {
    match o {
        Some(s) => Some(s@),
        None => None,
    }
}

/// The thread id that a request names itself: the one in the tool's arguments, else the
/// caller's, else the one in the arguments' metadata (each already checked as an id).
/// When none is given, the newest thread of the project is looked up.
pub fn given_codex_thread_id(
    explicit: Option<String>,
    caller: Option<String>,
    argument: Option<String>,
) -> (res: Option<String>)
    ensures
        opt_view(res) == first_given(opt_view(explicit), opt_view(caller), opt_view(argument)),
{
    match explicit {
        Some(x) => Some(x),
        None => match caller {
            Some(x) => Some(x),
            None => argument,
        },
    }
}

/// The thread of the project that the newest state database entry names, when there is one.
pub fn fallback_codex_thread_id(candidates: &Vec<CodexThreadCandidate>) -> (res: Option<String>)
    ensures
        match newest_candidate(candidates@) {
            Some(k) => opt_view(res) == Some(candidates@[k].thread_id@),
            None => res is None,
        },
{
    match newest_codex_thread(candidates) {
        Some(k) => Some(string_from(&chars_of(candidates[k].thread_id.as_str()))),
        None => None,
    }
}

} // verus!
