//! Listing the checkpoints of a project: those recorded in its registry (newest record
//! first, one per commit), then those that `git log` and the reflog find, each commit
//! once, all ordered by time, newest first.
use vstd::prelude::*;

use crate::checkpoint::{
    checkpoint_files_from_show, first_id, output_lines, parse_checkpoint_id, trimmed_output_lines,
    CommandOutcome,
};
use crate::checkpoint_restore::Checkpoint;
use crate::ordered::{chars_vecs, holds_chars, string_views};
use crate::port_status::{parse_rfc3339_instant, rfc3339_instant};
use crate::text::{
    chars_of, join, join_chars, lines, lines_of, slice_chars, starts_with, starts_with_str,
    string_from, trim, trim_chars, views,
};

verus! {

broadcast use vstd::string::group_string_axioms;

/// The prefix of the subject of a checkpoint commit.
pub const CHECKPOINT_SUBJECT_PREFIX: &'static str = "iterate-checkpoint:";

/// A record of the checkpoint registry (`.cunzhi-memory/checkpoints.jsonl`).
#[derive(Debug)]
pub struct RegistryCheckpointEntry {
    pub checkpoint_id: String,
    pub checkpoint_commit: String,
    pub checkpoint_message: String,
    pub logged_at: String,
}

/// What `git show -s --format=%H%n%cI%n%s%n%B <commit>` says of a commit.
#[derive(Debug)]
pub struct CommitHeader {
    pub full_hash: String,
    pub timestamp_raw: String,
    pub subject: String,
    pub message: String,
}

/// The header of a checkpoint commit: its hash, time and subject (the first three lines,
/// trimmed) and its message (the lines after them, joined by `\n`); nothing when there
/// are fewer lines or the subject is not a checkpoint's.
pub open spec fn commit_header(stdout: Seq<char>) -> Option<(Seq<char>, Seq<char>, Seq<char>, Seq<char>)> {
    let ls = lines(stdout);
    if ls.len() < 3 || !starts_with(trim(ls[2]), CHECKPOINT_SUBJECT_PREFIX@) {
        None
    } else {
        Some((trim(ls[0]), trim(ls[1]), trim(ls[2]), join(ls.skip(3), "\n"@)))
    }
}

/// The header of a checkpoint commit, from what `git show -s` gave.
pub fn read_checkpoint_header(outcome: &CommandOutcome) -> (res: Option<CommitHeader>)
    ensures
        match outcome {
            CommandOutcome::Exited { success, stdout, .. } if *success => match commit_header(stdout@) {
                Some(h) => (res matches Some(r) && r.full_hash@ == h.0 && r.timestamp_raw@ == h.1
                    && r.subject@ == h.2 && r.message@ == h.3),
                None => res is None,
            },
            _ => res is None,
        },
{
    let stdout = match outcome {
        CommandOutcome::Exited { success, stdout, .. } => {
            if !*success {
                return None;
            }
            stdout
        },
        CommandOutcome::SpawnFailed(_) => {
            return None;
        },
    };
    let ls = lines_of(&chars_of(stdout.as_str()));
    let ghost lv = views(ls@);
    if ls.len() < 3 {
        return None;
    }
    let subject = trim_chars(&ls[2]);
    assert(lv[2] == ls[2]@);
    if !starts_with_str(&subject, CHECKPOINT_SUBJECT_PREFIX) {
        return None;
    }
    assert(lv[0] == ls[0]@ && lv[1] == ls[1]@);
    let mut rest: Vec<Vec<char>> = Vec::new();
    let mut i: usize = 3;
    assert(views(rest@) =~= lv.subrange(3, 3));
    while i < ls.len()
        invariant
            lv == views(ls@),
            3 <= i <= ls.len(),
            views(rest@) == lv.subrange(3, i as int),
        decreases ls.len() - i,
    {
        let c = slice_chars(&ls[i], 0, ls[i].len());
        assert(c@ =~= lv[i as int]);
        let ghost before = views(rest@);
        rest.push(c);
        assert(views(rest@) =~= before.push(lv[i as int]));
        assert(lv.subrange(3, i + 1) =~= lv.subrange(3, i as int).push(lv[i as int]));
        i += 1;
    }
    assert(lv.subrange(3, i as int) =~= lv.skip(3));
    Some(
        CommitHeader {
            full_hash: string_from(&trim_chars(&ls[0])),
            timestamp_raw: string_from(&trim_chars(&ls[1])),
            subject: string_from(&subject),
            message: string_from(&join_chars(&rest, "\n")),
        },
    )
}

/// The instant of an RFC 3339 time, or `now` when it does not parse.
pub open spec fn instant_or(text: Seq<char>, now: (i64, u32)) -> (i64, u32) {
    match rfc3339_instant(text) {
        Some(t) => t,
        None => now,
    }
}

/// The files of a commit that `git show --name-only` listed; none when it failed.
pub open spec fn listed_files(show: CommandOutcome) -> Seq<Seq<char>> {
    match show {
        CommandOutcome::Exited { success, stdout, .. } if success => output_lines(lines(stdout@)),
        _ => seq![],
    }
}

fn files_or_none(show: &CommandOutcome) -> (res: Vec<String>)
    ensures
        string_views(res@) == listed_files(*show),
{
    match checkpoint_files_from_show(show) {
        Ok(f) => f,
        Err(_) => Vec::new(),
    }
}

/// The checkpoint of a commit: its hash, the id in its message, its subject as name and
/// message, its time (`now` when it does not parse), and its files (`files_show` is what
/// `git show --name-only` gave for it).
pub fn checkpoint_from_commit(header: CommitHeader, files_show: &CommandOutcome, now: (i64, u32)) -> (res:
    Checkpoint)
    ensures
        res.id@ == header.full_hash@,
        match res.checkpoint_id {
            Some(c) => first_id(lines(header.message@)) == Some(c@),
            None => first_id(lines(header.message@)) is None,
        },
        res.name@ == header.subject@,
        res.message@ == header.subject@,
        res.timestamp == instant_or(header.timestamp_raw@, now),
        string_views(res.files@) == listed_files(*files_show),
{
    let ts = match parse_rfc3339_instant(header.timestamp_raw.as_str()) {
        Some(t) => t,
        None => now,
    };
    let id = parse_checkpoint_id(header.message.as_str());
    let name = string_from(&chars_of(header.subject.as_str()));
    Checkpoint {
        id: header.full_hash,
        checkpoint_id: id,
        name,
        timestamp: ts,
        files: files_or_none(files_show),
        message: header.subject,
    }
}

/// The checkpoint of a registry record: its commit, its id, its message as name and
/// message, the time it was logged (`now` when it does not parse), and its files.
pub fn registry_checkpoint(entry: RegistryCheckpointEntry, files_show: &CommandOutcome, now: (i64, u32)) -> (res:
    Checkpoint)
    ensures
        res.id@ == entry.checkpoint_commit@,
        res.checkpoint_id matches Some(c) && c@ == entry.checkpoint_id@,
        res.name@ == entry.checkpoint_message@,
        res.message@ == entry.checkpoint_message@,
        res.timestamp == instant_or(entry.logged_at@, now),
        string_views(res.files@) == listed_files(*files_show),
{
    let ts = match parse_rfc3339_instant(entry.logged_at.as_str()) {
        Some(t) => t,
        None => now,
    };
    let name = string_from(&chars_of(entry.checkpoint_message.as_str()));
    Checkpoint {
        id: entry.checkpoint_commit,
        checkpoint_id: Some(entry.checkpoint_id),
        name,
        timestamp: ts,
        files: files_or_none(files_show),
        message: entry.checkpoint_message,
    }
}

/// The checkpoint that a checkpoint run made, as a restore reports its safety checkpoint:
/// its commit, its id, its subject as name and message, `now` as its time, and its files
/// (none when they could not be listed).
pub fn made_checkpoint(
    made: crate::checkpoint_run::CheckpointMetadata,
    files_show: &CommandOutcome,
    now: (i64, u32),
) -> (res: Checkpoint)
    ensures
        res.id@ == made.commit_hash@,
        crate::checkpoint_restore::sv(res.checkpoint_id) == Some(made.checkpoint_id@),
        res.name@ == made.commit_subject@,
        res.message@ == made.commit_subject@,
        res.timestamp == now,
        string_views(res.files@) == listed_files(*files_show),
{
    let name = string_from(&chars_of(made.commit_subject.as_str()));
    Checkpoint {
        id: made.commit_hash,
        checkpoint_id: Some(made.checkpoint_id),
        name,
        timestamp: now,
        files: files_or_none(files_show),
        message: made.commit_subject,
    }
}

/// A registry record as plain text: id, commit, message and time.
pub open spec fn entry_view(e: RegistryCheckpointEntry) -> (Seq<char>, Seq<char>, Seq<char>, Seq<char>) {
    (e.checkpoint_id@, e.checkpoint_commit@, e.checkpoint_message@, e.logged_at@)
}

/// The records of a list whose commit is not in `seen` and not earlier in the list, in
/// order.
pub open spec fn first_per_commit(
    rs: Seq<(Seq<char>, Seq<char>, Seq<char>, Seq<char>)>,
    seen: Seq<Seq<char>>,
) -> Seq<(Seq<char>, Seq<char>, Seq<char>, Seq<char>)>
    decreases rs.len(),
{
    if rs.len() == 0 {
        seq![]
    } else if seen.contains(rs[0].1) {
        first_per_commit(rs.drop_first(), seen)
    } else {
        seq![rs[0]] + first_per_commit(rs.drop_first(), seen.push(rs[0].1))
    }
}

/// The registry records to list: newest first, the newest record of each commit.
pub open spec fn records_to_list(es: Seq<RegistryCheckpointEntry>) -> Seq<
    (Seq<char>, Seq<char>, Seq<char>, Seq<char>),
> {
    first_per_commit(es.reverse().map_values(|e: RegistryCheckpointEntry| entry_view(e)), seq![])
}

fn copy_entry(e: &RegistryCheckpointEntry) -> (res: RegistryCheckpointEntry)
    ensures
        entry_view(res) == entry_view(*e),
{
    RegistryCheckpointEntry {
        checkpoint_id: string_from(&chars_of(e.checkpoint_id.as_str())),
        checkpoint_commit: string_from(&chars_of(e.checkpoint_commit.as_str())),
        checkpoint_message: string_from(&chars_of(e.checkpoint_message.as_str())),
        logged_at: string_from(&chars_of(e.logged_at.as_str())),
    }
}

/// The registry records to list (read in file order): the newest record of each commit,
/// newest first.
pub fn registry_entries_to_list(entries: &Vec<RegistryCheckpointEntry>) -> (res: Vec<RegistryCheckpointEntry>)
    ensures
        res@.map_values(|e: RegistryCheckpointEntry| entry_view(e)) == records_to_list(entries@),
{
    let ghost rs = entries@.reverse().map_values(|e: RegistryCheckpointEntry| entry_view(e));
    let mut out: Vec<RegistryCheckpointEntry> = Vec::new();
    let mut seen: Vec<Vec<char>> = Vec::new();
    let mut k: usize = 0;
    let n = entries.len();
    assert(rs.skip(0) =~= rs);
    assert(views(seen@) =~= Seq::<Seq<char>>::empty());
    assert(out@.map_values(|e: RegistryCheckpointEntry| entry_view(e)) =~= Seq::<
        (Seq<char>, Seq<char>, Seq<char>, Seq<char>),
    >::empty());
    assert(out@.map_values(|e: RegistryCheckpointEntry| entry_view(e)) + first_per_commit(rs.skip(0), views(seen@))
        =~= first_per_commit(rs, seq![]));
    while k < n
        invariant
            n == entries.len(),
            rs == entries@.reverse().map_values(|e: RegistryCheckpointEntry| entry_view(e)),
            k <= n,
            out@.map_values(|e: RegistryCheckpointEntry| entry_view(e)) + first_per_commit(rs.skip(k as int), views(seen@))
                == first_per_commit(rs, seq![]),
        decreases n - k,
    {
        let e = &entries[n - 1 - k];
        assert(rs[k as int] == entry_view(entries@[n - 1 - k]));
        assert(rs.skip(k as int)[0] == rs[k as int]);
        assert(rs.skip(k as int).drop_first() =~= rs.skip(k + 1));
        let c = chars_of(e.checkpoint_commit.as_str());
        let ghost before = out@.map_values(|e: RegistryCheckpointEntry| entry_view(e));
        if !holds_chars(&seen, &c) {
            let copy = copy_entry(e);
            out.push(copy);
            let ghost sv = views(seen@);
            seen.push(c);
            assert(views(seen@) =~= sv.push(rs[k as int].1));
            assert(out@.map_values(|e: RegistryCheckpointEntry| entry_view(e)) =~= before.push(rs[k as int]));
            assert(before + (seq![rs[k as int]] + first_per_commit(rs.skip(k + 1), views(seen@))) =~= before.push(
                rs[k as int],
            ) + first_per_commit(rs.skip(k + 1), views(seen@)));
        }
        k += 1;
    }
    assert(rs.skip(k as int) =~= Seq::<(Seq<char>, Seq<char>, Seq<char>, Seq<char>)>::empty());
    assert(out@.map_values(|e: RegistryCheckpointEntry| entry_view(e)) + Seq::<(Seq<char>, Seq<char>, Seq<char>, Seq<char>)>::empty()
        =~= out@.map_values(|e: RegistryCheckpointEntry| entry_view(e)));
    out
}

/// The commits of a list that are not in `seen` and not earlier in the list, in order.
pub open spec fn unseen(commits: Seq<Seq<char>>, seen: Seq<Seq<char>>) -> Seq<Seq<char>>
    decreases commits.len(),
{
    if commits.len() == 0 {
        seq![]
    } else if seen.contains(commits[0]) {
        unseen(commits.drop_first(), seen)
    } else {
        seq![commits[0]] + unseen(commits.drop_first(), seen.push(commits[0]))
    }
}

/// What `unseen` keeps is not in `seen`, and comes once.
proof fn lemma_unseen_once(commits: Seq<Seq<char>>, seen: Seq<Seq<char>>)
    ensures
        forall|i: int| 0 <= i < unseen(commits, seen).len() ==> !seen.contains(#[trigger] unseen(commits, seen)[i]),
        forall|i: int, j: int|
            0 <= i < j < unseen(commits, seen).len() ==> #[trigger] unseen(commits, seen)[i]
                != #[trigger] unseen(commits, seen)[j],
    decreases commits.len(),
{
    if commits.len() > 0 {
        let rest = commits.drop_first();
        if seen.contains(commits[0]) {
            lemma_unseen_once(rest, seen);
            assert(unseen(commits, seen) == unseen(rest, seen));
        } else {
            let c = commits[0];
            let seen2 = seen.push(c);
            lemma_unseen_once(rest, seen2);
            let u = unseen(commits, seen);
            let r = unseen(rest, seen2);
            assert(u == seq![c] + r);
            assert forall|i: int| 0 <= i < r.len() implies #[trigger] r[i] != c && !seen.contains(r[i]) by {
                assert(!seen2.contains(r[i]));
                assert(seen2[seen.len() as int] == c);
                if seen.contains(r[i]) {
                    let w = choose|w: int| 0 <= w < seen.len() && seen[w] == r[i];
                    assert(seen2[w] == r[i]);
                }
            }
            assert forall|i: int| 0 <= i < u.len() implies !seen.contains(#[trigger] u[i]) by {
                if i > 0 {
                    assert(u[i] == r[i - 1]);
                }
            }
            assert forall|i: int, j: int| 0 <= i < j < u.len() implies #[trigger] u[i] != #[trigger] u[j] by {
                assert(u[j] == r[j - 1]);
                if i > 0 {
                    assert(u[i] == r[i - 1]);
                }
            }
        }
    }
}

/// What `first_per_commit` keeps names commits not in `seen`, each once.
proof fn lemma_first_per_commit_once(
    rs: Seq<(Seq<char>, Seq<char>, Seq<char>, Seq<char>)>,
    seen: Seq<Seq<char>>,
)
    ensures
        forall|i: int|
            0 <= i < first_per_commit(rs, seen).len() ==> !seen.contains(
                (#[trigger] first_per_commit(rs, seen)[i]).1,
            ),
        forall|i: int, j: int|
            0 <= i < j < first_per_commit(rs, seen).len() ==> (#[trigger] first_per_commit(rs, seen)[i]).1
                != (#[trigger] first_per_commit(rs, seen)[j]).1,
    decreases rs.len(),
{
    if rs.len() > 0 {
        let rest = rs.drop_first();
        if seen.contains(rs[0].1) {
            lemma_first_per_commit_once(rest, seen);
            assert(first_per_commit(rs, seen) == first_per_commit(rest, seen));
        } else {
            let c = rs[0].1;
            let seen2 = seen.push(c);
            lemma_first_per_commit_once(rest, seen2);
            let u = first_per_commit(rs, seen);
            let r = first_per_commit(rest, seen2);
            assert(u == seq![rs[0]] + r);
            assert forall|i: int| 0 <= i < r.len() implies (#[trigger] r[i]).1 != c && !seen.contains(r[i].1) by {
                assert(!seen2.contains(r[i].1));
                assert(seen2[seen.len() as int] == c);
                if seen.contains(r[i].1) {
                    let w = choose|w: int| 0 <= w < seen.len() && seen[w] == r[i].1;
                    assert(seen2[w] == r[i].1);
                }
            }
            assert forall|i: int| 0 <= i < u.len() implies !seen.contains((#[trigger] u[i]).1) by {
                if i > 0 {
                    assert(u[i] == r[i - 1]);
                }
            }
            assert forall|i: int, j: int| 0 <= i < j < u.len() implies (#[trigger] u[i]).1 != (
            #[trigger] u[j]).1 by {
                assert(u[j] == r[j - 1]);
                if i > 0 {
                    assert(u[i] == r[i - 1]);
                }
            }
        }
    }
}

/// Each commit is listed once: the registry's records name each commit once, and the
/// commits that `git log` and the reflog add are new to them and come once themselves.
pub proof fn law_each_commit_listed_once(entries: Seq<RegistryCheckpointEntry>, found: Seq<Seq<char>>)
    ensures
        ({
            let listed = records_to_list(entries).map_values(
                |r: (Seq<char>, Seq<char>, Seq<char>, Seq<char>)| r.1,
            );
            let all = listed + unseen(found, listed);
            forall|i: int, j: int| 0 <= i < j < all.len() ==> #[trigger] all[i] != #[trigger] all[j]
        }),
{
    let rs = entries.reverse().map_values(|e: RegistryCheckpointEntry| entry_view(e));
    lemma_first_per_commit_once(rs, seq![]);
    let reg = records_to_list(entries);
    let listed = reg.map_values(|r: (Seq<char>, Seq<char>, Seq<char>, Seq<char>)| r.1);
    let extra = unseen(found, listed);
    lemma_unseen_once(found, listed);
    let all = listed + extra;
    assert forall|i: int, j: int| 0 <= i < j < all.len() implies #[trigger] all[i] != #[trigger] all[j] by {
        if j < listed.len() {
            assert(all[i] == reg[i].1);
            assert(all[j] == reg[j].1);
        } else if i < listed.len() {
            assert(all[i] == listed[i]);
            assert(all[j] == extra[j - listed.len()]);
            assert(listed.contains(all[i]));
        } else {
            assert(all[i] == extra[i - listed.len()]);
            assert(all[j] == extra[j - listed.len()]);
        }
    }
}

/// The hashes that `git log --format=%H` (or the reflog) printed: its non-blank lines,
/// trimmed; none when it failed.
pub open spec fn printed_hashes(outcome: CommandOutcome) -> Seq<Seq<char>> {
    listed_files(outcome)
}

/// The commits that `git log` and then the reflog found, each once, without those
/// already listed from the registry.
pub fn commits_to_read(log: &CommandOutcome, reflog: &CommandOutcome, listed: &Vec<String>) -> (res: Vec<String>)
    ensures
        string_views(res@) == unseen(printed_hashes(*log) + printed_hashes(*reflog), string_views(listed@)),
{
    let a = files_or_none(log);
    let b = files_or_none(reflog);
    let mut all = chars_vecs(&a);
    let bv = chars_vecs(&b);
    let ghost av = views(all@);
    let mut i: usize = 0;
    while i < bv.len()
        invariant
            i <= bv.len(),
            views(all@) == av + views(bv@).take(i as int),
        decreases bv.len() - i,
    {
        let c = slice_chars(&bv[i], 0, bv[i].len());
        assert(c@ =~= views(bv@)[i as int]);
        let ghost before = views(all@);
        all.push(c);
        assert(views(all@) =~= before.push(views(bv@)[i as int]));
        assert(views(bv@).take(i + 1) =~= views(bv@).take(i as int).push(views(bv@)[i as int]));
        i += 1;
    }
    assert(views(bv@).take(i as int) =~= views(bv@));
    let ghost cs = views(all@);
    let mut seen = chars_vecs(listed);
    let mut out: Vec<Vec<char>> = Vec::new();
    let mut k: usize = 0;
    assert(cs.skip(0) =~= cs);
    assert(views(out@) + unseen(cs.skip(0), views(seen@)) =~= unseen(cs, string_views(listed@)));
    while k < all.len()
        invariant
            cs == views(all@),
            k <= all.len(),
            views(out@) + unseen(cs.skip(k as int), views(seen@)) == unseen(cs, string_views(listed@)),
        decreases all.len() - k,
    {
        assert(cs.skip(k as int)[0] == cs[k as int]);
        assert(cs.skip(k as int).drop_first() =~= cs.skip(k + 1));
        assert(cs[k as int] == all[k as int]@);
        if !holds_chars(&seen, &all[k]) {
            let c = slice_chars(&all[k], 0, all[k].len());
            assert(c@ =~= cs[k as int]);
            let ghost before = views(out@);
            let ghost sv = views(seen@);
            out.push(c);
            let c2 = slice_chars(&all[k], 0, all[k].len());
            assert(c2@ =~= cs[k as int]);
            seen.push(c2);
            assert(views(seen@) =~= sv.push(cs[k as int]));
            assert(views(out@) =~= before.push(cs[k as int]));
            assert(before + (seq![cs[k as int]] + unseen(cs.skip(k + 1), views(seen@))) =~= before.push(
                cs[k as int],
            ) + unseen(cs.skip(k + 1), views(seen@)));
        }
        k += 1;
    }
    assert(cs.skip(k as int) =~= Seq::<Seq<char>>::empty());
    assert(views(out@) + Seq::<Seq<char>>::empty() =~= views(out@));
    crate::ordered::to_strings(&out)
}

/// Whether one instant is earlier than another.
pub open spec fn earlier(a: (i64, u32), b: (i64, u32)) -> bool {
    a.0 < b.0 || (a.0 == b.0 && a.1 < b.1)
}

/// Inserts a checkpoint into a list ordered newest first, after every checkpoint that is
/// not older than it.
pub open spec fn insert_by_time(sorted: Seq<(i64, u32)>, t: (i64, u32)) -> int
    decreases sorted.len(),
{
    if sorted.len() == 0 {
        0
    } else if earlier(sorted[0], t) {
        0
    } else {
        1 + insert_by_time(sorted.drop_first(), t)
    }
}

/// The order of checkpoints by time, newest first, checkpoints of the same time in the
/// order given (a stable sort): as positions of the given list.
pub open spec fn newest_first(ts: Seq<(i64, u32)>) -> Seq<int>
    decreases ts.len(),
{
    if ts.len() == 0 {
        seq![]
    } else {
        let before = newest_first(ts.drop_last());
        let k = insert_by_time(before.map_values(|i: int| ts[i]), ts.last());
        before.insert(k, ts.len() - 1)
    }
}


/// Where a checkpoint goes in a list ordered newest first: after every checkpoint that is
/// not older, before the first that is older.
proof fn lemma_insert_by_time(sorted: Seq<(i64, u32)>, t: (i64, u32))
    ensures
        0 <= insert_by_time(sorted, t) <= sorted.len(),
        forall|j: int| 0 <= j < insert_by_time(sorted, t) ==> !earlier(#[trigger] sorted[j], t),
        insert_by_time(sorted, t) < sorted.len() ==> earlier(sorted[insert_by_time(sorted, t)], t),
    decreases sorted.len(),
{
    if sorted.len() > 0 && !earlier(sorted[0], t) {
        let rest = sorted.drop_first();
        lemma_insert_by_time(rest, t);
        assert forall|j: int| 0 <= j < insert_by_time(sorted, t) implies !earlier(
            #[trigger] sorted[j],
            t,
        ) by {
            if j > 0 {
                assert(sorted[j] == rest[j - 1]);
            }
        }
        if insert_by_time(sorted, t) < sorted.len() {
            assert(sorted[insert_by_time(sorted, t)] == rest[insert_by_time(rest, t)]);
        }
    }
}

/// The order that listing gives: each checkpoint once, and none after one older than it.
pub open spec fn newest_first_ordered(ts: Seq<(i64, u32)>, p: Seq<int>) -> bool {
    &&& p.len() == ts.len()
    &&& forall|j: int| 0 <= j < p.len() ==> 0 <= #[trigger] p[j] < ts.len()
    &&& forall|a: int, b: int| 0 <= a < b < p.len() ==> #[trigger] p[a] != #[trigger] p[b]
    &&& forall|a: int, b: int|
        0 <= a < b < p.len() ==> !earlier(ts[#[trigger] p[a]], ts[#[trigger] p[b]])
}

/// Checkpoints are listed newest first: each checkpoint of the list comes once, and none
/// comes after a checkpoint that is older than it.
pub proof fn law_list_is_newest_first(ts: Seq<(i64, u32)>)
    ensures
        newest_first_ordered(ts, newest_first(ts)),
    decreases ts.len(),
{
    if ts.len() > 0 {
        let n = ts.len() as int;
        let front = ts.drop_last();
        law_list_is_newest_first(front);
        let before = newest_first(front);
        let t = ts.last();
        let mapped = before.map_values(|i: int| ts[i]);
        lemma_insert_by_time(mapped, t);
        let k = insert_by_time(mapped, t);
        let p = before.insert(k, n - 1);
        assert(newest_first(ts) == p);
        assert forall|j: int| 0 <= j < before.len() implies #[trigger] mapped[j] == front[before[j]] by {
            assert(front[before[j]] == ts[before[j]]);
        }
        // The older part of the list stays older than the new checkpoint.
        assert forall|j: int| k <= j < before.len() implies earlier(#[trigger] mapped[j], t) by {
            if j > k {
                assert(!earlier(front[before[k]], front[before[j]]));
            }
        }
        assert forall|j: int| 0 <= j < p.len() implies 0 <= #[trigger] p[j] < ts.len() by {
            if j < k {
                assert(p[j] == before[j]);
            } else if j > k {
                assert(p[j] == before[j - 1]);
            }
        }
        assert forall|a: int, b: int| 0 <= a < b < p.len() implies #[trigger] p[a] != #[trigger] p[b]
            && !earlier(ts[p[a]], ts[p[b]]) by {
            if a < k {
                assert(p[a] == before[a]);
                assert(mapped[a] == ts[p[a]]);
            } else if a > k {
                assert(p[a] == before[a - 1]);
                assert(mapped[a - 1] == ts[p[a]]);
            }
            if b < k {
                assert(p[b] == before[b]);
                assert(mapped[b] == ts[p[b]]);
            } else if b > k {
                assert(p[b] == before[b - 1]);
                assert(mapped[b - 1] == ts[p[b]]);
            }
            if a != k && b != k {
                let a0 = if a < k { a } else { a - 1 };
                let b0 = if b < k { b } else { b - 1 };
                assert(a0 < b0);
                assert(before[a0] != before[b0]);
                assert(!earlier(front[before[a0]], front[before[b0]]));
            } else if a == k {
                assert(p[a] == n - 1);
                assert(earlier(mapped[b - 1], t));
            } else {
                assert(p[b] == n - 1);
                assert(!earlier(mapped[a], t));
            }
        }
    } else {
        assert(newest_first(ts) =~= Seq::<int>::empty());
    }
}

/// The positions of a list's checkpoints when they are ordered by time, newest first.
pub fn newest_first_order(ts: &Vec<(i64, u32)>) -> (res: Vec<usize>)
    ensures
        res@.len() == ts@.len(),
        res@.map_values(|j: usize| j as int) == newest_first(ts@),
        forall|j: int| 0 <= j < res@.len() ==> (#[trigger] res@[j]) < ts@.len(),
{
    let mut order: Vec<usize> = Vec::new();
    let mut i: usize = 0;
    assert(ts@.take(0) =~= Seq::<(i64, u32)>::empty());
    assert(order@.map_values(|j: usize| j as int) =~= Seq::<int>::empty());
    while i < ts.len()
        invariant
            i <= ts.len(),
            order@.len() == i,
            order@.map_values(|j: usize| j as int) == newest_first(ts@.take(i as int)),
            forall|j: int| 0 <= j < order@.len() ==> (#[trigger] order@[j]) < i,
        decreases ts.len() - i,
    {
        let ghost pre = ts@.take(i + 1);
        let ghost before = newest_first(pre.drop_last());
        assert(pre.drop_last() =~= ts@.take(i as int));
        let ghost mapped = before.map_values(|j: int| pre[j]);
        assert(pre.last() == ts@[i as int]);
        let t = ts[i];
        let mut k: usize = 0;
        assert(mapped.skip(0) =~= mapped);
        while k < order.len() && !(ts[order[k]].0 < t.0 || (ts[order[k]].0 == t.0 && ts[order[k]].1 < t.1))
            invariant
                i < ts.len(),
                k <= order@.len(),
                order@.len() == i,
                forall|j: int| 0 <= j < order@.len() ==> (#[trigger] order@[j]) < i,
                before == order@.map_values(|j: usize| j as int),
                mapped == before.map_values(|j: int| pre[j]),
                pre == ts@.take(i + 1),
                t == ts@[i as int],
                insert_by_time(mapped, t) == k + insert_by_time(mapped.skip(k as int), t),
            decreases order@.len() - k,
        {
            assert(mapped[k as int] == ts@[order@[k as int] as int]);
            assert(mapped.skip(k as int)[0] == mapped[k as int]);
            assert(mapped.skip(k as int).drop_first() =~= mapped.skip(k + 1));
            k += 1;
        }
        proof {
            if k < order@.len() {
                assert(mapped[k as int] == ts@[order@[k as int] as int]);
                assert(mapped.skip(k as int)[0] == mapped[k as int]);
            } else {
                assert(mapped.skip(k as int) =~= Seq::<(i64, u32)>::empty());
            }
        }
        assert(insert_by_time(mapped, t) == k);
        let ghost old_order = order@;
        order.insert(k, i);
        assert(order@.map_values(|j: usize| j as int) =~= before.insert(k as int, i as int));
        assert(newest_first(pre) == before.insert(insert_by_time(mapped, pre.last()), pre.len() - 1));
        assert forall|j: int| 0 <= j < order@.len() implies (#[trigger] order@[j]) < i + 1 by {
            if j < k {
                assert(order@[j] == old_order[j]);
            } else if j > k {
                assert(order@[j] == old_order[j - 1]);
            }
        }
        i += 1;
    }
    assert(ts@.take(i as int) =~= ts@);
    order
}

fn copy_checkpoint(c: &Checkpoint) -> (res: Checkpoint)
    ensures
        res.id@ == c.id@,
        crate::checkpoint_restore::sv(res.checkpoint_id) == crate::checkpoint_restore::sv(c.checkpoint_id),
        res.name@ == c.name@,
        res.timestamp == c.timestamp,
        string_views(res.files@) == string_views(c.files@),
        res.message@ == c.message@,
{
    Checkpoint {
        id: string_from(&chars_of(c.id.as_str())),
        checkpoint_id: match &c.checkpoint_id {
            Some(x) => Some(string_from(&chars_of(x.as_str()))),
            None => None,
        },
        name: string_from(&chars_of(c.name.as_str())),
        timestamp: c.timestamp,
        files: crate::ordered::to_strings(&chars_vecs(&c.files)),
        message: string_from(&chars_of(c.message.as_str())),
    }
}

/// The checkpoints ordered by time, newest first; those of the same time keep their
/// order (a stable sort).
pub fn sort_checkpoints_newest_first(cs: &Vec<Checkpoint>) -> (res: Vec<Checkpoint>)
    ensures
        res@.len() == cs@.len(),
        forall|j: int| 0 <= j < res@.len() ==> {
            let k = newest_first(cs@.map_values(|c: Checkpoint| c.timestamp))[j];
            &&& 0 <= k < cs@.len()
            &&& (#[trigger] res@[j]).id@ == cs@[k].id@
            &&& crate::checkpoint_restore::sv(res@[j].checkpoint_id) == crate::checkpoint_restore::sv(cs@[k].checkpoint_id)
            &&& res@[j].name@ == cs@[k].name@
            &&& res@[j].timestamp == cs@[k].timestamp
            &&& string_views(res@[j].files@) == string_views(cs@[k].files@)
            &&& res@[j].message@ == cs@[k].message@
        },
        forall|a: int, b: int|
            0 <= a < b < res@.len() ==> !earlier(#[trigger] res@[a].timestamp, #[trigger] res@[b].timestamp),
{
    let mut ts: Vec<(i64, u32)> = Vec::new();
    let mut i: usize = 0;
    while i < cs.len()
        invariant
            i <= cs.len(),
            ts@ == cs@.map_values(|c: Checkpoint| c.timestamp).take(i as int),
        decreases cs.len() - i,
    {
        ts.push(cs[i].timestamp);
        assert(cs@.map_values(|c: Checkpoint| c.timestamp).take(i + 1) =~= cs@.map_values(
            |c: Checkpoint| c.timestamp,
        ).take(i as int).push(cs[i as int].timestamp));
        i += 1;
    }
    assert(cs@.map_values(|c: Checkpoint| c.timestamp).take(i as int) =~= cs@.map_values(
        |c: Checkpoint| c.timestamp,
    ));
    let order = newest_first_order(&ts);
    let mut out: Vec<Checkpoint> = Vec::new();
    let mut j: usize = 0;
    while j < order.len()
        invariant
            order@.len() == cs@.len(),
            ts@ == cs@.map_values(|c: Checkpoint| c.timestamp),
            order@.map_values(|x: usize| x as int) == newest_first(ts@),
            forall|x: int| 0 <= x < order@.len() ==> (#[trigger] order@[x]) < cs@.len(),
            j <= order.len(),
            out@.len() == j,
            forall|x: int| 0 <= x < j ==> {
                let k = newest_first(cs@.map_values(|c: Checkpoint| c.timestamp))[x];
                &&& 0 <= k < cs@.len()
                &&& (#[trigger] out@[x]).id@ == cs@[k].id@
                &&& crate::checkpoint_restore::sv(out@[x].checkpoint_id) == crate::checkpoint_restore::sv(cs@[k].checkpoint_id)
                &&& out@[x].name@ == cs@[k].name@
                &&& out@[x].timestamp == cs@[k].timestamp
                &&& string_views(out@[x].files@) == string_views(cs@[k].files@)
                &&& out@[x].message@ == cs@[k].message@
            },
        decreases order.len() - j,
    {
        let k = order[j];
        assert(order@.map_values(|x: usize| x as int)[j as int] == k as int);
        let c = copy_checkpoint(&cs[k]);
        out.push(c);
        j += 1;
    }
    proof {
        let tv = cs@.map_values(|c: Checkpoint| c.timestamp);
        law_list_is_newest_first(tv);
        let p = newest_first(tv);
        assert forall|a: int, b: int| 0 <= a < b < out@.len() implies !earlier(
            #[trigger] out@[a].timestamp,
            #[trigger] out@[b].timestamp,
        ) by {
            assert(out@[a].timestamp == cs@[p[a]].timestamp);
            assert(out@[b].timestamp == cs@[p[b]].timestamp);
            assert(tv[p[a]] == cs@[p[a]].timestamp);
            assert(tv[p[b]] == cs@[p[b]].timestamp);
        }
    }
    out
}


// ---------------------------------------------------------------------------
// Creating a checkpoint
// ---------------------------------------------------------------------------

/// The error of a checkpoint that had nothing to save.
pub open spec fn nothing_to_save() -> Seq<char> {
    "没有需要保存的更改"@
}

/// The checkpoint that a checkpoint run made (`made`, as the run finished), made at `now`,
/// with the files that `git show --name-only` listed for its commit; an error when the run
/// saved nothing or the files could not be listed.
pub fn created_checkpoint(
    made: Option<crate::checkpoint_run::CheckpointMetadata>,
    files_show: &CommandOutcome,
    now: (i64, u32),
) -> (res: Result<Checkpoint, String>)
    ensures
        match made {
            None => (res matches Err(m) && m@ == nothing_to_save()),
            Some(meta) => match crate::checkpoint_restore::shown_files(*files_show) {
                Err(m) => (res matches Err(e) && e@ == m),
                Ok(files) => (res matches Ok(c) && {
                    &&& c.id@ == meta.commit_hash@
                    &&& crate::checkpoint_restore::sv(c.checkpoint_id) == Some(meta.checkpoint_id@)
                    &&& c.name@ == meta.commit_subject@
                    &&& c.message@ == meta.commit_subject@
                    &&& c.timestamp == now
                    &&& string_views(c.files@) == files
                }),
            },
        },
{
    let meta = match made {
        None => {
            return Err(string_from(&chars_of("没有需要保存的更改")));
        },
        Some(m) => m,
    };
    let files = match checkpoint_files_from_show(files_show) {
        Err(e) => {
            return Err(e);
        },
        Ok(f) => f,
    };
    let name = string_from(&chars_of(meta.commit_subject.as_str()));
    Ok(
        Checkpoint {
            id: meta.commit_hash,
            checkpoint_id: Some(meta.checkpoint_id),
            name,
            timestamp: now,
            files,
            message: meta.commit_subject,
        },
    )
}

/// What the checkpoint tool answers: the short commit, message and path of a new
/// checkpoint; a notice when there was nothing to save; else the error.
pub open spec fn checkpoint_tool_answer(
    created: Result<(Seq<char>, Seq<char>), Seq<char>>,
    project_path: Seq<char>,
) -> Result<Seq<char>, Seq<char>> {
    match created {
        Ok((id, message)) => Ok(
            "✅ 检查点已创建\n\n- 提交: `"@ + id.take(if id.len() <= 9 {
                id.len() as int
            } else {
                9
            }) + "`\n- 信息: "@ + message + "\n- 路径: "@ + project_path,
        ),
        Err(e) => if e == nothing_to_save() {
            Ok("ℹ️ 没有未提交的改动，无需创建检查点"@)
        } else {
            Err("创建 checkpoint 失败: "@ + e)
        },
    }
}

/// The checkpoint tool's answer for what creating a checkpoint gave.
pub fn checkpoint_tool_result(created: &Result<Checkpoint, String>, project_path: &str) -> (res: Result<
    String,
    String,
>)
    ensures
        match checkpoint_tool_answer(
            match created {
                Ok(c) => Ok((c.id@, c.message@)),
                Err(e) => Err(e@),
            },
            project_path@,
        ) {
            Ok(t) => (res matches Ok(r) && r@ == t),
            Err(t) => (res matches Err(r) && r@ == t),
        },
{
    match created {
        Ok(c) => {
            let id = chars_of(c.id.as_str());
            let n = if id.len() <= 9 {
                id.len()
            } else {
                9
            };
            let mut out = chars_of("✅ 检查点已创建\n\n- 提交: `");
            let short = slice_chars(&id, 0, n);
            assert(short@ =~= id@.take(n as int));
            crate::text::append_chars(&mut out, &short);
            crate::text::append_str(&mut out, "`\n- 信息: ");
            crate::text::append_str(&mut out, c.message.as_str());
            crate::text::append_str(&mut out, "\n- 路径: ");
            crate::text::append_str(&mut out, project_path);
            Ok(string_from(&out))
        },
        Err(e) => {
            let ev = chars_of(e.as_str());
            if crate::text::chars_eq_str(&ev, "没有需要保存的更改") {
                Ok(string_from(&chars_of("ℹ️ 没有未提交的改动，无需创建检查点")))
            } else {
                let mut m = chars_of("创建 checkpoint 失败: ");
                crate::text::append_chars(&mut m, &ev);
                Err(string_from(&m))
            }
        },
    }
}

} // verus!
