//! Restoring files from a checkpoint: which files a restore touches (the checkpoint's own
//! files, or a selection checked against them), the plan that a preview shows and whose
//! hash a confirmation must repeat, and the result that is reported.
use vstd::prelude::*;
use vstd::relations::{sorted_by, total_ordering};

use crate::browser_ws::{hex_encode, hex_lower, hmac_input_fits};
use crate::checkpoint::{
    byte_take, checkpoint_files_from_show, filter_checkpoint_relevant_status,
    is_valid_relative_checkpoint_path, output_lines, relevant_status, restore_plan_id, utf8_len,
    valid_relative_path, CommandOutcome,
};
use crate::conversation_log::{json_quoted, json_string};
use crate::ordered::{
    chars_less, chars_lt, chars_vecs, holds_chars, lemma_lt_asymmetric, lemma_lt_irreflexive,
    lemma_lt_total, lemma_lt_transitive, string_views, to_strings,
};
use crate::text::{
    append_chars, append_str, chars_eq, chars_eq_str, chars_of, decimal, decimal_chars, join,
    join_chars, lines, string_from, trim, trim_chars, views,
};

verus! {

broadcast use vstd::string::group_string_axioms;

// ---------------------------------------------------------------------------
// The order of paths
// ---------------------------------------------------------------------------

/// `a <= b` in the order of `String`.
pub open spec fn path_le(a: Seq<char>, b: Seq<char>) -> bool {
    !chars_lt(b, a)
}

/// The order in which paths are sorted.
pub open spec fn path_order() -> spec_fn(Seq<char>, Seq<char>) -> bool {
    |a: Seq<char>, b: Seq<char>| path_le(a, b)
}

/// The order of `String` is a total order.
pub proof fn lemma_path_order_total()
    ensures
        total_ordering(path_order()),
{
    let leq = path_order();
    assert forall|a: Seq<char>| #[trigger] leq(a, a) by {
        lemma_lt_irreflexive(a);
    }
    assert forall|a: Seq<char>, b: Seq<char>| #[trigger] leq(a, b) && #[trigger] leq(b, a) implies a
        == b by {
        lemma_lt_total(a, b);
    }
    assert forall|a: Seq<char>, b: Seq<char>, c: Seq<char>| #[trigger] leq(a, b) && #[trigger] leq(
        b,
        c,
    ) implies leq(a, c) by {
        if chars_lt(c, a) {
            lemma_lt_total(a, b);
            if chars_lt(a, b) {
                lemma_lt_transitive(c, a, b);
            }
        }
    }
    assert forall|a: Seq<char>, b: Seq<char>| #[trigger] leq(a, b) || #[trigger] leq(b, a) by {
        if chars_lt(a, b) {
            lemma_lt_asymmetric(a, b);
        }
    }
}

fn insert_in_order(v: &mut Vec<Vec<char>>, x: Vec<char>)
    requires
        sorted_by(views(old(v)@), path_order()),
    ensures
        sorted_by(views(final(v)@), path_order()),
        views(final(v)@).to_multiset() == views(old(v)@).to_multiset().insert(x@),
{
    let ghost s = views(v@);
    let ghost leq = path_order();
    let mut i: usize = 0;
    while i < v.len() && !chars_less(&x, &v[i])
        invariant
            s == views(v@),
            sorted_by(s, leq),
            leq == path_order(),
            i <= v.len(),
            forall|j: int| 0 <= j < i ==> path_le(#[trigger] s[j], x@),
        decreases v.len() - i,
    {
        assert(s[i as int] == v[i as int]@);
        i += 1;
    }
    if i < v.len() {
        assert(s[i as int] == v[i as int]@);
        assert(chars_lt(x@, s[i as int]));
    }
    let ghost xv = x@;
    v.insert(i, x);
    let ghost t = views(v@);
    assert(t =~= s.insert(i as int, xv));
    assert forall|a: int, b: int| 0 <= a < b < t.len() implies #[trigger] leq(t[a], t[b]) by {
        if b < i {
            assert(t[a] == s[a] && t[b] == s[b]);
            assert(leq(s[a], s[b]));
        } else if b == i {
            assert(t[a] == s[a] && t[b] == xv);
        } else if a < i {
            assert(t[a] == s[a] && t[b] == s[b - 1]);
            assert(leq(s[i as int], s[b - 1]) || b - 1 == i);
            if b - 1 > i {
                assert(leq(s[i as int], s[b - 1]));
            }
            lemma_lt_total(s[i as int], s[b - 1]);
            if chars_lt(s[b - 1], s[a]) {
                if s[i as int] == s[b - 1] {
                    lemma_lt_transitive(xv, s[i as int], s[a]);
                    lemma_lt_asymmetric(xv, s[a]);
                } else {
                    lemma_lt_transitive(s[i as int], s[b - 1], s[a]);
                    lemma_lt_transitive(xv, s[i as int], s[a]);
                    lemma_lt_asymmetric(xv, s[a]);
                }
            }
        } else if a == i {
            assert(t[a] == xv && t[b] == s[b - 1]);
            lemma_lt_total(s[i as int], s[b - 1]);
            if b - 1 > i {
                assert(leq(s[i as int], s[b - 1]));
            }
            if chars_lt(s[b - 1], xv) {
                if s[i as int] == s[b - 1] {
                    lemma_lt_asymmetric(xv, s[i as int]);
                } else {
                    lemma_lt_transitive(xv, s[i as int], s[b - 1]);
                    lemma_lt_asymmetric(xv, s[b - 1]);
                }
            }
        } else {
            assert(t[a] == s[a - 1] && t[b] == s[b - 1]);
            assert(leq(s[a - 1], s[b - 1]));
        }
    }
    proof {
        vstd::seq_lib::to_multiset_insert(s, i as int, xv);
    }
}

/// Sorts paths in the order of `String`.
pub fn sort_paths(v: &Vec<Vec<char>>) -> (res: Vec<Vec<char>>)
    ensures
        sorted_by(views(res@), path_order()),
        views(res@).to_multiset() == views(v@).to_multiset(),
{
    let mut out: Vec<Vec<char>> = Vec::new();
    let mut i: usize = 0;
    let ghost vv = views(v@);
    assert(views(out@) =~= vv.take(0));
    while i < v.len()
        invariant
            vv == views(v@),
            i <= v.len(),
            sorted_by(views(out@), path_order()),
            views(out@).to_multiset() == vv.take(i as int).to_multiset(),
        decreases v.len() - i,
    {
        let x = crate::text::slice_chars(&v[i], 0, v[i].len());
        assert(x@ =~= vv[i as int]);
        insert_in_order(&mut out, x);
        proof {
            assert(vv.take(i + 1) =~= vv.take(i as int).push(vv[i as int]));
            vstd::seq_lib::to_multiset_build(vv.take(i as int), vv[i as int]);
        }
        i += 1;
    }
    assert(vv.take(i as int) =~= vv);
    out
}

// ---------------------------------------------------------------------------
// Which files a restore touches
// ---------------------------------------------------------------------------

/// A file that a restore brings back from the target commit, or deletes because the
/// commit does not have it.
#[derive(Debug)]
pub struct RestoreFileChange {
    pub path: String,
    pub action: String,
    pub exists_in_commit: bool,
}

/// A list with `x` added unless it holds it already.
pub open spec fn add_once(s: Seq<Seq<char>>, x: Seq<char>) -> Seq<Seq<char>> {
    if s.contains(x) {
        s
    } else {
        s.push(x)
    }
}

/// The selection so far after one more selected file: the chosen paths, in order and
/// without repeats, and the warnings.
pub open spec fn select_step(
    st: (Seq<Seq<char>>, Seq<Seq<char>>),
    file: Seq<char>,
    checkpoint: Seq<Seq<char>>,
    present: Seq<Seq<char>>,
) -> (Seq<Seq<char>>, Seq<Seq<char>>) {
    let t = trim(file);
    if t.len() == 0 {
        st
    } else if !valid_relative_path(t) {
        (st.0, st.1.push("忽略非法文件路径: "@ + t))
    } else if checkpoint.contains(t) {
        (add_once(st.0, t), st.1)
    } else if present.contains(t) {
        (add_once(st.0, t), st.1.push("选中文件不在 checkpoint 变更列表中，将按目标提交快照恢复: "@ + t))
    } else {
        (add_once(st.0, t), st.1.push("选中文件在目标提交中不存在，确认后将删除: "@ + t))
    }
}

/// The chosen paths and the warnings of a selection: each selected file, trimmed, is
/// skipped when blank, refused with a warning when it leaves the project, and chosen
/// otherwise, with a warning when the checkpoint did not change it (it is then restored
/// from the commit, or deleted when the commit lacks it). `present` lists the paths that
/// the target commit holds.
pub open spec fn selection(
    files: Seq<Seq<char>>,
    checkpoint: Seq<Seq<char>>,
    present: Seq<Seq<char>>,
) -> (Seq<Seq<char>>, Seq<Seq<char>>)
    decreases files.len(),
{
    if files.len() == 0 {
        (seq![], seq![])
    } else {
        select_step(selection(files.drop_last(), checkpoint, present), files.last(), checkpoint, present)
    }
}

/// The files that a restore touches, before sorting: all the checkpoint's files without
/// a selection; else the checkpoint's files that were chosen, then the chosen paths that
/// the checkpoint did not change.
pub open spec fn unsorted_targets(
    checkpoint: Seq<Seq<char>>,
    selected: Option<Seq<Seq<char>>>,
    present: Seq<Seq<char>>,
) -> Seq<Seq<char>> {
    match selected {
        None => checkpoint,
        Some(fs) => {
            let chosen = selection(fs, checkpoint, present).0;
            checkpoint.filter(|p: Seq<char>| chosen.contains(p)) + chosen.filter(
                |p: Seq<char>| !checkpoint.contains(p),
            )
        },
    }
}

/// The warnings of a selection; none without one.
pub open spec fn selection_warnings(
    checkpoint: Seq<Seq<char>>,
    selected: Option<Seq<Seq<char>>>,
    present: Seq<Seq<char>>,
) -> Seq<Seq<char>> {
    match selected {
        None => seq![],
        Some(fs) => selection(fs, checkpoint, present).1,
    }
}

/// The paths whose presence in the target commit a restore asks git about: the
/// checkpoint's files and every selected path that stays inside the project.
pub open spec fn probe_paths(checkpoint: Seq<Seq<char>>, selected: Option<Seq<Seq<char>>>) -> Seq<
    Seq<char>,
> {
    match selected {
        None => checkpoint,
        Some(fs) => checkpoint + fs.map_values(|f: Seq<char>| trim(f)).filter(
            |t: Seq<char>| t.len() > 0 && valid_relative_path(t),
        ),
    }
}

fn push_warning(warnings: &mut Vec<Vec<char>>, prefix: &str, t: &Vec<char>)
    ensures
        views(final(warnings)@) == views(old(warnings)@).push(prefix@ + t@),
{
    let mut w = chars_of(prefix);
    append_chars(&mut w, t);
    let ghost before = views(warnings@);
    let ghost wv = w@;
    warnings.push(w);
    assert(views(warnings@) =~= before.push(wv));
}

fn push_once(chosen: &mut Vec<Vec<char>>, t: &Vec<char>)
    ensures
        views(final(chosen)@) == add_once(views(old(chosen)@), t@),
{
    if !holds_chars(chosen, t) {
        let ghost before = views(chosen@);
        let c = crate::text::slice_chars(t, 0, t.len());
        assert(c@ =~= t@);
        chosen.push(c);
        assert(views(chosen@) =~= before.push(t@));
    }
}

/// The checkpoint's files and the selected paths that stay inside the project: where a
/// restore needs to know whether the target commit holds them.
pub fn restore_probe_paths(checkpoint_files: &Vec<String>, selected_files: Option<&Vec<String>>) -> (res:
    Vec<String>)
    ensures
        string_views(res@) == probe_paths(
            string_views(checkpoint_files@),
            match selected_files {
                Some(f) => Some(string_views(f@)),
                None => None,
            },
        ),
{
    let mut out = chars_vecs(checkpoint_files);
    match selected_files {
        None => {},
        Some(files) => {
            let ghost fv = string_views(files@);
            let ghost base = views(out@);
            let ghost f = |t: Seq<char>| t.len() > 0 && valid_relative_path(t);
            let ghost tm = fv.map_values(|x: Seq<char>| trim(x));
            let mut i: usize = 0;
            assert(tm.take(0).filter(f) =~= Seq::<Seq<char>>::empty()) by {
                reveal(Seq::filter);
            }
            assert(base + Seq::<Seq<char>>::empty() =~= base);
            while i < files.len()
                invariant
                    fv == string_views(files@),
                    tm == fv.map_values(|x: Seq<char>| trim(x)),
                    f == (|t: Seq<char>| t.len() > 0 && valid_relative_path(t)),
                    i <= files.len(),
                    views(out@) == base + tm.take(i as int).filter(f),
                decreases files.len() - i,
            {
                assert(tm.take(i + 1).drop_last() =~= tm.take(i as int));
                assert(tm.take(i + 1).last() == trim(fv[i as int]));
                let t = trim_chars(&chars_of(files[i].as_str()));
                let ghost before = views(out@);
                let ghost tv = t@;
                let ghost prev = tm.take(i as int).filter(f);
                let ts = string_from(&t);
                if t.len() > 0 && is_valid_relative_checkpoint_path(ts.as_str()) {
                    out.push(t);
                    assert(f(tv));
                    assert(tm.take(i + 1) =~= tm.take(i as int).push(tv));
                    proof {
                        tm.take(i as int).lemma_filter_push(tv, f);
                    }
                    assert(views(out@) =~= before.push(tv));
                    assert(base + prev.push(tv) =~= (base + prev).push(tv));
                } else {
                    assert(!f(tv));
                    assert(tm.take(i + 1) =~= tm.take(i as int).push(tv));
                    proof {
                        tm.take(i as int).lemma_filter_push(tv, f);
                    }
                }
                i += 1;
            }
            assert(tm.take(i as int) =~= tm);
        },
    }
    to_strings(&out)
}

fn select_files(
    files: &Vec<String>,
    checkpoint: &Vec<Vec<char>>,
    present: &Vec<Vec<char>>,
) -> (res: (Vec<Vec<char>>, Vec<Vec<char>>))
    ensures
        (views(res.0@), views(res.1@)) == selection(string_views(files@), views(checkpoint@), views(present@)),
{
    let ghost fv = string_views(files@);
    let ghost cv = views(checkpoint@);
    let ghost pv = views(present@);
    let mut chosen: Vec<Vec<char>> = Vec::new();
    let mut warnings: Vec<Vec<char>> = Vec::new();
    let mut i: usize = 0;
    assert(fv.take(0) =~= Seq::<Seq<char>>::empty());
    assert(views(chosen@) =~= Seq::<Seq<char>>::empty());
    assert(views(warnings@) =~= Seq::<Seq<char>>::empty());
    while i < files.len()
        invariant
            fv == string_views(files@),
            cv == views(checkpoint@),
            pv == views(present@),
            i <= files.len(),
            (views(chosen@), views(warnings@)) == selection(fv.take(i as int), cv, pv),
        decreases files.len() - i,
    {
        assert(fv.take(i + 1).drop_last() =~= fv.take(i as int));
        assert(fv.take(i + 1).last() == fv[i as int]);
        let t = trim_chars(&chars_of(files[i].as_str()));
        if t.len() == 0 {
        } else if !is_valid_relative_checkpoint_path(string_from(&t).as_str()) {
            push_warning(&mut warnings, "忽略非法文件路径: ", &t);
        } else if holds_chars(checkpoint, &t) {
            push_once(&mut chosen, &t);
        } else if holds_chars(present, &t) {
            push_once(&mut chosen, &t);
            push_warning(&mut warnings, "选中文件不在 checkpoint 变更列表中，将按目标提交快照恢复: ", &t);
        } else {
            push_once(&mut chosen, &t);
            push_warning(&mut warnings, "选中文件在目标提交中不存在，确认后将删除: ", &t);
        }
        i += 1;
    }
    assert(fv.take(i as int) =~= fv);
    (chosen, warnings)
}

fn filter_held(v: &Vec<Vec<char>>, by: &Vec<Vec<char>>, keep_held: bool) -> (res: Vec<Vec<char>>)
    ensures
        keep_held ==> views(res@) == views(v@).filter(|p: Seq<char>| views(by@).contains(p)),
        !keep_held ==> views(res@) == views(v@).filter(|p: Seq<char>| !views(by@).contains(p)),
{
    let ghost vv = views(v@);
    let ghost bv = views(by@);
    let ghost f = if keep_held {
        |p: Seq<char>| bv.contains(p)
    } else {
        |p: Seq<char>| !bv.contains(p)
    };
    let mut out: Vec<Vec<char>> = Vec::new();
    let mut i: usize = 0;
    assert(vv.take(0).filter(f) =~= Seq::<Seq<char>>::empty()) by {
        reveal(Seq::filter);
    }
    while i < v.len()
        invariant
            vv == views(v@),
            bv == views(by@),
            f == (if keep_held {
                |p: Seq<char>| bv.contains(p)
            } else {
                |p: Seq<char>| !bv.contains(p)
            }),
            i <= v.len(),
            views(out@) == vv.take(i as int).filter(f),
        decreases v.len() - i,
    {
        assert(vv.take(i + 1).drop_last() =~= vv.take(i as int));
        assert(vv.take(i + 1).last() == vv[i as int]);
        let held = holds_chars(by, &v[i]);
        let ghost prev = vv.take(i as int).filter(f);
        if held == keep_held {
            let ghost before = views(out@);
            let c = crate::text::slice_chars(&v[i], 0, v[i].len());
            assert(c@ =~= vv[i as int]);
            out.push(c);
            assert(f(vv[i as int]));
            assert(vv.take(i + 1) =~= vv.take(i as int).push(vv[i as int]));
            proof {
                vv.take(i as int).lemma_filter_push(vv[i as int], f);
            }
            assert(views(out@) =~= before.push(vv[i as int]));
        } else {
            assert(!f(vv[i as int]));
            assert(vv.take(i + 1) =~= vv.take(i as int).push(vv[i as int]));
            proof {
                vv.take(i as int).lemma_filter_push(vv[i as int], f);
            }
        }
        i += 1;
    }
    assert(vv.take(i as int) =~= vv);
    out
}

/// The files of a checkpoint commit that `git show --name-only` listed, or the error.
pub open spec fn shown_files(show: CommandOutcome) -> Result<Seq<Seq<char>>, Seq<char>> {
    match show {
        CommandOutcome::SpawnFailed(e) => Err("获取 commit 文件列表失败: "@ + e@),
        CommandOutcome::Exited { success, stdout, stderr } => if success {
            Ok(output_lines(lines(stdout@)))
        } else {
            Err("获取 commit 文件列表失败: "@ + trim(stderr@))
        },
    }
}

/// The error of a restore whose checkpoint changed no file and that selected nothing.
pub open spec fn nothing_to_restore() -> Seq<char> {
    "该 checkpoint 没有可恢复的文件"@
}

/// What a restore does with a file: `restore` it from the commit when the commit holds
/// it, else `delete` it.
pub open spec fn change_for(path: Seq<char>, present: Seq<Seq<char>>, c: RestoreFileChange) -> bool {
    &&& c.path@ == path
    &&& c.exists_in_commit == present.contains(path)
    &&& c.action@ == (if present.contains(path) {
        "restore"@
    } else {
        "delete"@
    })
}

/// The changes of a restore: one per path, in order.
pub open spec fn changes_for(paths: Seq<Seq<char>>, present: Seq<Seq<char>>, cs: Seq<RestoreFileChange>) -> bool {
    &&& cs.len() == paths.len()
    &&& forall|i: int| 0 <= i < paths.len() ==> change_for(paths[i], present, #[trigger] cs[i])
}

/// A change for one path.
pub fn restore_target_action(path: &Vec<char>, present: &Vec<Vec<char>>) -> (res: RestoreFileChange)
    ensures
        change_for(path@, views(present@), res),
{
    let exists = holds_chars(present, path);
    RestoreFileChange {
        path: string_from(path),
        action: if exists {
            string_from(&chars_of("restore"))
        } else {
            string_from(&chars_of("delete"))
        },
        exists_in_commit: exists,
    }
}

/// Which files a restore touches, sorted, with the warnings of the selection. `show` is
/// what `git show --pretty=format: --name-only <commit>` gave; `present_in_commit` lists
/// the paths of `restore_probe_paths` that the commit holds (`git cat-file -e`).
pub fn selected_restore_targets(
    show: &CommandOutcome,
    selected_files: Option<&Vec<String>>,
    present_in_commit: &Vec<String>,
) -> (res: Result<(Vec<RestoreFileChange>, Vec<String>), String>)
    ensures
        match shown_files(*show) {
            Err(m) => (res matches Err(e) && e@ == m),
            Ok(files) => if files.len() == 0 && selected_files is None {
                res matches Err(e) && e@ == nothing_to_restore()
            } else {
                res matches Ok(r) && changes_for(
                    unsorted_targets(
                        files,
                        match selected_files {
                            Some(f) => Some(string_views(f@)),
                            None => None,
                        },
                        string_views(present_in_commit@),
                    ).sort_by(path_order()),
                    string_views(present_in_commit@),
                    r.0@,
                ) && string_views(r.1@) == selection_warnings(
                    files,
                    match selected_files {
                        Some(f) => Some(string_views(f@)),
                        None => None,
                    },
                    string_views(present_in_commit@),
                )
            },
        },
{
    let files = match checkpoint_files_from_show(show) {
        Ok(f) => f,
        Err(e) => {
            return Err(e);
        },
    };
    if files.len() == 0 && selected_files.is_none() {
        return Err(string_from(&chars_of("该 checkpoint 没有可恢复的文件")));
    }
    let checkpoint = chars_vecs(&files);
    let present = chars_vecs(present_in_commit);
    let ghost sel = match selected_files {
        Some(f) => Some(string_views(f@)),
        None => None,
    };
    let (unsorted, warnings) = match selected_files {
        None => (checkpoint, Vec::new()),
        Some(fs) => {
            let (chosen, warnings) = select_files(fs, &checkpoint, &present);
            let mut first = filter_held(&checkpoint, &chosen, true);
            let rest = filter_held(&chosen, &checkpoint, false);
            let ghost a = views(first@);
            let mut k: usize = 0;
            while k < rest.len()
                invariant
                    k <= rest.len(),
                    views(first@) == a + views(rest@).take(k as int),
                decreases rest.len() - k,
            {
                let c = crate::text::slice_chars(&rest[k], 0, rest[k].len());
                assert(c@ =~= views(rest@)[k as int]);
                let ghost before = views(first@);
                first.push(c);
                assert(views(first@) =~= before.push(views(rest@)[k as int]));
                assert(views(rest@).take(k + 1) =~= views(rest@).take(k as int).push(
                    views(rest@)[k as int],
                ));
                k += 1;
            }
            assert(views(rest@).take(k as int) =~= views(rest@));
            (first, warnings)
        },
    };
    assert(views(unsorted@) == unsorted_targets(views(checkpoint@), sel, views(present@)));
    let sorted = sort_paths(&unsorted);
    proof {
        let u = views(unsorted@);
        lemma_path_order_total();
        u.lemma_sort_by_ensures(path_order());
        vstd::seq_lib::lemma_sorted_unique(views(sorted@), u.sort_by(path_order()), path_order());
    }
    let mut changes: Vec<RestoreFileChange> = Vec::new();
    let mut i: usize = 0;
    while i < sorted.len()
        invariant
            i <= sorted.len(),
            changes@.len() == i,
            forall|j: int| 0 <= j < i ==> change_for(views(sorted@)[j], views(present@), #[trigger] changes@[j]),
        decreases sorted.len() - i,
    {
        let c = restore_target_action(&sorted[i], &present);
        changes.push(c);
        i += 1;
    }
    let ws = to_strings(&warnings);
    Ok((changes, ws))
}

// ---------------------------------------------------------------------------
// The plan of a restore
// ---------------------------------------------------------------------------

/// The mode of a restore: files are put back as the target commit has them.
pub const RESTORE_MODE: &'static str = "restore_snapshot";

/// The commit that `git rev-parse --verify HEAD` named, if it named one.
pub open spec fn head_hash(outcome: CommandOutcome) -> Option<Seq<char>> {
    match outcome {
        CommandOutcome::Exited { success, stdout, .. } => if success && trim(stdout@).len() > 0 {
            Some(trim(stdout@))
        } else {
            None
        },
        CommandOutcome::SpawnFailed(_) => None,
    }
}

/// The commit at `HEAD`, from what `git rev-parse --verify HEAD` gave.
pub fn git_head_hash(outcome: &CommandOutcome) -> (res: Option<String>)
    ensures
        match res {
            Some(h) => head_hash(*outcome) == Some(h@),
            None => head_hash(*outcome) is None,
        },
{
    match outcome {
        CommandOutcome::Exited { success, stdout, .. } => {
            if !*success {
                return None;
            }
            let t = trim_chars(&chars_of(stdout.as_str()));
            if t.len() == 0 {
                None
            } else {
                Some(string_from(&t))
            }
        },
        CommandOutcome::SpawnFailed(_) => None,
    }
}

/// The status listing that a restore records: what `git status --porcelain
/// --untracked-files=all` gave, without the checkpoint machinery's own files; empty when
/// the command failed.
pub open spec fn status_snapshot(outcome: CommandOutcome) -> Seq<char> {
    match outcome {
        CommandOutcome::Exited { success, stdout, .. } => if success {
            relevant_status(stdout@)
        } else {
            seq![]
        },
        CommandOutcome::SpawnFailed(_) => seq![],
    }
}

/// The status listing that a restore records.
pub fn checkpoint_status_snapshot(outcome: &CommandOutcome) -> (res: String)
    ensures
        res@ == status_snapshot(*outcome),
{
    match outcome {
        CommandOutcome::Exited { success, stdout, .. } => {
            if *success {
                filter_checkpoint_relevant_status(stdout.as_str())
            } else {
                string_from(&Vec::new())
            }
        },
        CommandOutcome::SpawnFailed(_) => string_from(&Vec::new()),
    }
}

/// The JSON text of a change: its path, action and whether the commit holds the file.
pub open spec fn change_json(c: RestoreFileChange) -> Seq<char> {
    "{\"path\":"@ + json_quoted(c.path@) + ",\"action\":"@ + json_quoted(c.action@)
        + ",\"exists_in_commit\":"@ + (if c.exists_in_commit {
        "true"@
    } else {
        "false"@
    }) + "}"@
}

/// The JSON text of the state of a selected file.
pub open spec fn state_json(path: Seq<char>, state: Seq<char>) -> Seq<char> {
    "{\"path\":"@ + json_quoted(path) + ",\"state\":"@ + json_quoted(state) + "}"@
}

/// The JSON texts of the states of the files of a restore, one per file, in order.
pub open spec fn states_json(changes: Seq<RestoreFileChange>, states: Seq<Seq<char>>) -> Seq<Seq<char>> {
    Seq::new(changes.len(), |i: int| state_json(changes[i].path@, states[i]))
}

/// The fingerprint of a restore plan, as `serde_json` writes it: the mode, the commit at
/// `HEAD` (`null` when there is none), the status listing, the target commit, the
/// changes, the states of the files and the warnings.
pub open spec fn plan_fingerprint(
    head_before: Option<Seq<char>>,
    status: Seq<char>,
    target_commit: Seq<char>,
    changes: Seq<RestoreFileChange>,
    states: Seq<Seq<char>>,
    warnings: Seq<Seq<char>>,
) -> Seq<char> {
    "{\"mode\":"@ + json_quoted(RESTORE_MODE@) + ",\"head_before\":"@ + (match head_before {
        Some(h) => json_quoted(h),
        None => "null"@,
    }) + ",\"status_snapshot\":"@ + json_quoted(status) + ",\"target_commit\":"@ + json_quoted(
        target_commit,
    ) + ",\"changed_files\":["@ + join(changes.map_values(|c: RestoreFileChange| change_json(c)), ","@)
        + "],\"selected_file_state\":["@ + join(states_json(changes, states), ","@)
        + "],\"warnings\":["@ + join(warnings.map_values(|w: Seq<char>| json_quoted(w)), ","@)
        + "]}"@
}

/// SHA-256 of bytes.
pub uninterp spec fn sha256(data: Seq<u8>) -> Seq<u8>;

/// `ring::digest::digest(&ring::digest::SHA256, data)`: the 32 bytes of SHA-256 of the
/// data, which stays below the length at which the crate refuses its input.
#[verifier::external_body]
fn sha256_digest(data: &[u8]) -> (res: Vec<u8>)
    requires
        hmac_input_fits(data@.len()),
    ensures
        res@ == sha256(data@),
        res@.len() == 32,
{
    ring::digest::digest(&ring::digest::SHA256, data).as_ref().to_vec()
}

/// The hexadecimal SHA-256 of the UTF-8 bytes of a text short enough to hash.
pub fn sha256_hex(text: &str) -> (res: String)
    requires
        hmac_input_fits(text@.len() * 4),
    ensures
        res@ == hex_lower(sha256(vstd::utf8::encode_utf8(text@))),
{
    proof {
        crate::browser_ws::lemma_utf8_len_bound(text@);
    }
    let digest = sha256_digest(text.as_bytes());
    hex_encode(digest.as_slice())
}

/// The hexadecimal SHA-256 of bytes short enough to hash.
fn sha256_hex_bytes(bytes: &[u8]) -> (res: String)
    requires
        hmac_input_fits(bytes@.len()),
    ensures
        res@ == hex_lower(sha256(bytes@)),
{
    let digest = sha256_digest(bytes);
    hex_encode(digest.as_slice())
}

/// What the workspace holds at a file of a restore plan, as read before the restore.
#[derive(Debug)]
pub enum FileProbe {
    /// A symbolic link, with its target as the path displays it.
    Symlink(String),
    /// A regular file, with its bytes.
    File(Vec<u8>),
    /// A directory, with the length its metadata gives.
    Dir(u64),
    /// Something else that exists.
    Other,
    /// Nothing.
    Absent,
}

/// The state of a file that a restore plan records: the link target, the SHA-256 of the
/// file's bytes in lowercase hexadecimal, the directory's length, or what else is there.
pub open spec fn file_state_spec(p: FileProbe) -> Seq<char> {
    match p {
        FileProbe::Symlink(t) => "symlink:"@ + t@,
        FileProbe::File(c) => "file:"@ + hex_lower(sha256(c@)),
        FileProbe::Dir(n) => "dir:"@ + decimal(n as nat),
        FileProbe::Other => "other"@,
        FileProbe::Absent => "absent"@,
    }
}

/// A file's bytes are short enough to hash.
pub open spec fn probe_fits(p: FileProbe) -> bool {
    p matches FileProbe::File(c) ==> hmac_input_fits(c@.len())
}

/// The states of the probed files, in order.
pub open spec fn probe_states(ps: Seq<FileProbe>) -> Seq<Seq<char>> {
    ps.map_values(|p: FileProbe| file_state_spec(p))
}

/// The state that a restore plan records for a probed file.
pub fn file_state_of(probe: &FileProbe) -> (res: String)
    requires
        probe_fits(*probe),
    ensures
        res@ == file_state_spec(*probe),
{
    proof {
        reveal_strlit("symlink:");
        reveal_strlit("file:");
        reveal_strlit("dir:");
    }
    match probe {
        FileProbe::Symlink(t) => {
            let mut m = chars_of("symlink:");
            append_str(&mut m, t.as_str());
            string_from(&m)
        },
        FileProbe::File(c) => {
            let h = sha256_hex_bytes(c.as_slice());
            let mut m = chars_of("file:");
            append_str(&mut m, h.as_str());
            string_from(&m)
        },
        FileProbe::Dir(n) => {
            let mut m = chars_of("dir:");
            let d = decimal_chars(*n);
            append_chars(&mut m, &d);
            string_from(&m)
        },
        FileProbe::Other => string_from(&chars_of("other")),
        FileProbe::Absent => string_from(&chars_of("absent")),
    }
}

/// The states of the files of a restore plan, in the order they were probed.
pub fn selected_file_state_snapshot(probes: &Vec<FileProbe>) -> (res: Vec<String>)
    requires
        forall|i: int| 0 <= i < probes.len() ==> probe_fits(#[trigger] probes@[i]),
    ensures
        res.len() == probes.len(),
        string_views(res@) == probe_states(probes@),
{
    let mut out: Vec<String> = Vec::new();
    let mut i: usize = 0;
    while i < probes.len()
        invariant
            i <= probes.len(),
            forall|j: int| 0 <= j < probes.len() ==> probe_fits(#[trigger] probes@[j]),
            out.len() == i,
            string_views(out@) == probe_states(probes@.take(i as int)),
        decreases probes.len() - i,
    {
        let st = file_state_of(&probes[i]);
        let ghost before = out@;
        out.push(st);
        assert(out@ == before.push(st));
        assert(string_views(out@) =~= string_views(before).push(st@));
        assert(probes@.take(i + 1) =~= probes@.take(i as int).push(probes@[i as int]));
        assert(string_views(out@) =~= probe_states(probes@.take(i + 1)));
        i += 1;
    }
    assert(probes@.take(i as int) =~= probes@);
    out
}

fn json_of(s: &str) -> (res: Vec<char>)
    ensures
        res@ == json_quoted(s@),
{
    chars_of(json_string(s).as_str())
}

fn join_json(parts: &Vec<Vec<char>>) -> (res: Vec<char>)
    ensures
        res@ == join(views(parts@), ","@),
{
    join_chars(parts, ",")
}

/// The fingerprint of a restore plan. `file_states` holds the state of each file of the
/// plan, in the order of `targets` (which is sorted by path).
pub fn restore_plan_fingerprint(
    head_before: Option<&str>,
    status_snapshot: &str,
    target_commit: &str,
    targets: &Vec<RestoreFileChange>,
    file_states: &Vec<String>,
    warnings: &Vec<String>,
) -> (res: String)
    requires
        file_states.len() == targets.len(),
    ensures
        res@ == plan_fingerprint(
            match head_before {
                Some(h) => Some(h@),
                None => None,
            },
            status_snapshot@,
            target_commit@,
            targets@,
            string_views(file_states@),
            string_views(warnings@),
        ),
{
    let mut out = chars_of("{\"mode\":");
    append_chars(&mut out, &json_of(RESTORE_MODE));
    append_str(&mut out, ",\"head_before\":");
    match head_before {
        Some(h) => append_chars(&mut out, &json_of(h)),
        None => append_str(&mut out, "null"),
    }
    append_str(&mut out, ",\"status_snapshot\":");
    append_chars(&mut out, &json_of(status_snapshot));
    append_str(&mut out, ",\"target_commit\":");
    append_chars(&mut out, &json_of(target_commit));
    append_str(&mut out, ",\"changed_files\":[");
    let mut cs: Vec<Vec<char>> = Vec::new();
    let mut ss: Vec<Vec<char>> = Vec::new();
    let mut i: usize = 0;
    let ghost cm = targets@.map_values(|c: RestoreFileChange| change_json(c));
    let ghost sm = states_json(targets@, string_views(file_states@));
    while i < targets.len()
        invariant
            i <= targets.len(),
            file_states.len() == targets.len(),
            cm == targets@.map_values(|c: RestoreFileChange| change_json(c)),
            sm == states_json(targets@, string_views(file_states@)),
            views(cs@) == cm.take(i as int),
            views(ss@) == sm.take(i as int),
        decreases targets.len() - i,
    {
        let c = &targets[i];
        let mut cj = chars_of("{\"path\":");
        append_chars(&mut cj, &json_of(c.path.as_str()));
        append_str(&mut cj, ",\"action\":");
        append_chars(&mut cj, &json_of(c.action.as_str()));
        append_str(&mut cj, ",\"exists_in_commit\":");
        if c.exists_in_commit {
            append_str(&mut cj, "true");
        } else {
            append_str(&mut cj, "false");
        }
        append_str(&mut cj, "}");
        let ghost before_c = views(cs@);
        let ghost cjv = cj@;
        cs.push(cj);
        assert(views(cs@) =~= before_c.push(cjv));
        assert(cm.take(i + 1) =~= cm.take(i as int).push(cm[i as int]));
        let mut sj = chars_of("{\"path\":");
        append_chars(&mut sj, &json_of(c.path.as_str()));
        append_str(&mut sj, ",\"state\":");
        append_chars(&mut sj, &json_of(file_states[i].as_str()));
        append_str(&mut sj, "}");
        let ghost before_s = views(ss@);
        let ghost sjv = sj@;
        ss.push(sj);
        assert(views(ss@) =~= before_s.push(sjv));
        assert(sm.take(i + 1) =~= sm.take(i as int).push(sm[i as int]));
        i += 1;
    }
    assert(cm.take(i as int) =~= cm);
    assert(sm.take(i as int) =~= sm);
    append_chars(&mut out, &join_json(&cs));
    append_str(&mut out, "],\"selected_file_state\":[");
    append_chars(&mut out, &join_json(&ss));
    append_str(&mut out, "],\"warnings\":[");
    let mut ws: Vec<Vec<char>> = Vec::new();
    let ghost wm = string_views(warnings@).map_values(|w: Seq<char>| json_quoted(w));
    let mut k: usize = 0;
    while k < warnings.len()
        invariant
            k <= warnings.len(),
            wm == string_views(warnings@).map_values(|w: Seq<char>| json_quoted(w)),
            views(ws@) == wm.take(k as int),
        decreases warnings.len() - k,
    {
        let wj = json_of(warnings[k].as_str());
        let ghost before_w = views(ws@);
        let ghost wjv = wj@;
        ws.push(wj);
        assert(views(ws@) =~= before_w.push(wjv));
        assert(wm.take(k + 1) =~= wm.take(k as int).push(wm[k as int]));
        k += 1;
    }
    assert(wm.take(k as int) =~= wm);
    append_chars(&mut out, &join_json(&ws));
    append_str(&mut out, "]}");
    string_from(&out)
}

/// The hash of a restore plan: the hexadecimal SHA-256 of its fingerprint; nothing when
/// the fingerprint is too long to hash.
pub fn restore_plan_hash(
    head_before: Option<&str>,
    status_snapshot: &str,
    target_commit: &str,
    targets: &Vec<RestoreFileChange>,
    file_states: &Vec<String>,
    warnings: &Vec<String>,
) -> (res: Option<String>)
    requires
        file_states.len() == targets.len(),
    ensures
        ({
            let f = plan_fingerprint(
                match head_before {
                    Some(h) => Some(h@),
                    None => None,
                },
                status_snapshot@,
                target_commit@,
                targets@,
                string_views(file_states@),
                string_views(warnings@),
            );
            if hmac_input_fits(f.len() * 4) {
                res matches Some(h) && h@ == hex_lower(sha256(vstd::utf8::encode_utf8(f)))
            } else {
                res is None
            }
        }),
{
    let f = restore_plan_fingerprint(
        head_before,
        status_snapshot,
        target_commit,
        targets,
        file_states,
        warnings,
    );
    let n = chars_of(f.as_str()).len();
    if n as u64 >= 0x0400_0000_0000_0000u64 {
        return None;
    }
    Some(sha256_hex(f.as_str()))
}

/// ASCII text takes a byte a character, so any count of bytes ends at a character.
proof fn lemma_ascii_byte_take(s: Seq<char>, n: nat)
    requires
        forall|i: int| 0 <= i < s.len() ==> (#[trigger] s[i] as u32) < 0x80,
    ensures
        byte_take(s, n) == Some(s.take(if n <= s.len() {
            n as int
        } else {
            s.len() as int
        })),
    decreases s.len(),
{
    if s.len() == 0 || n == 0 {
        assert(s.take(0) =~= Seq::<char>::empty());
    } else {
        assert(utf8_len(s[0]) == 1);
        let t = s.drop_first();
        assert forall|i: int| 0 <= i < t.len() implies (#[trigger] t[i] as u32) < 0x80 by {
            assert(t[i] == s[i + 1]);
        }
        lemma_ascii_byte_take(t, (n - 1) as nat);
        let k: int = if n <= s.len() {
            n as int
        } else {
            s.len() as int
        };
        assert(seq![s[0]] + t.take(k - 1) =~= s.take(k));
    }
}

/// Hexadecimal text is ASCII.
proof fn lemma_hex_ascii(bytes: Seq<u8>)
    ensures
        forall|i: int| 0 <= i < hex_lower(bytes).len() ==> (#[trigger] hex_lower(bytes)[i] as u32) < 0x80,
    decreases bytes.len(),
{
    if bytes.len() > 0 {
        lemma_hex_ascii(bytes.drop_last());
        let h = hex_lower(bytes);
        let p = hex_lower(bytes.drop_last());
        let a = crate::browser_ws::hex_digit(bytes.last() / 16);
        let b = crate::browser_ws::hex_digit(bytes.last() % 16);
        assert(h == p + seq![a, b]);
        assert forall|i: int| 0 <= i < h.len() implies (#[trigger] h[i] as u32) < 0x80 by {
            if i < p.len() {
                assert(h[i] == p[i]);
            }
        }
    }
}

/// The id of a restore plan with a hash: `rp_` and the hash's first sixteen characters.
pub fn plan_id_of_hash(plan_hash: &String) -> (res: String)
    requires
        exists|bytes: Seq<u8>| plan_hash@ == hex_lower(bytes),
    ensures
        res@ == "rp_"@ + plan_hash@.take(if plan_hash@.len() <= 16 {
            plan_hash@.len() as int
        } else {
            16
        }),
{
    proof {
        let bytes = choose|bytes: Seq<u8>| plan_hash@ == hex_lower(bytes);
        lemma_hex_ascii(bytes);
        lemma_ascii_byte_take(plan_hash@, 16);
    }
    restore_plan_id(plan_hash.as_str())
}

/// The error of a confirmation whose plan hash is not the current plan's.
pub open spec fn stale_plan_error() -> Seq<char> {
    "恢复预览已过期，请重新预览"@
}

/// A confirmation that names another plan than the current one.
pub open spec fn stale_confirmation(dry_run: bool, expected: Option<&str>, plan_hash: Seq<char>) -> bool {
    !dry_run && match expected {
        Some(e) => e@ != plan_hash,
        None => false,
    }
}

/// A restore goes ahead only if a confirmation names the plan that a preview showed: a
/// preview always passes, and so does a confirmation without a hash.
pub fn check_expected_plan_hash(dry_run: bool, expected_plan_hash: Option<&str>, plan_hash: &str) -> (res:
    Result<(), String>)
    ensures
        stale_confirmation(dry_run, expected_plan_hash, plan_hash@) ==> (res matches Err(m) && m@
            == stale_plan_error()),
        !stale_confirmation(dry_run, expected_plan_hash, plan_hash@) ==> res is Ok,
{
    if !dry_run {
        match expected_plan_hash {
            Some(e) => {
                if !chars_eq_str(&chars_of(e), plan_hash) {
                    return Err(string_from(&chars_of("恢复预览已过期，请重新预览")));
                }
            },
            None => {},
        }
    }
    Ok(())
}

/// How many of the changes restore a file.
pub open spec fn restore_count(cs: Seq<RestoreFileChange>) -> nat
    decreases cs.len(),
{
    if cs.len() == 0 {
        0
    } else {
        restore_count(cs.drop_last()) + if cs.last().exists_in_commit {
            1nat
        } else {
            0nat
        }
    }
}

proof fn lemma_restore_count_bound(cs: Seq<RestoreFileChange>)
    ensures
        restore_count(cs) <= cs.len(),
    decreases cs.len(),
{
    if cs.len() > 0 {
        lemma_restore_count_bound(cs.drop_last());
    }
}

/// The summary of a plan: `<n> restore, <m> delete`.
pub open spec fn diff_summary(cs: Seq<RestoreFileChange>) -> Seq<char> {
    decimal(restore_count(cs)) + " restore, "@ + decimal((cs.len() - restore_count(cs)) as nat)
        + " delete"@
}

/// The summary of what a plan restores and deletes.
pub fn restore_diff_summary(targets: &Vec<RestoreFileChange>) -> (res: String)
    ensures
        res@ == diff_summary(targets@),
{
    let mut r: usize = 0;
    let mut i: usize = 0;
    while i < targets.len()
        invariant
            i <= targets.len(),
            r == restore_count(targets@.take(i as int)),
            r <= i,
        decreases targets.len() - i,
    {
        assert(targets@.take(i + 1).drop_last() =~= targets@.take(i as int));
        if targets[i].exists_in_commit {
            r += 1;
        }
        i += 1;
    }
    assert(targets@.take(i as int) =~= targets@);
    let mut out = decimal_chars(r as u64);
    append_str(&mut out, " restore, ");
    append_chars(&mut out, &decimal_chars((targets.len() - r) as u64));
    append_str(&mut out, " delete");
    string_from(&out)
}

/// What a `git checkout <commit> -- <path>` that restores a file gave: nothing to report,
/// or the error that stops the restore.
pub fn restore_checkout_result(outcome: &CommandOutcome) -> (res: Result<(), String>)
    ensures
        match outcome {
            CommandOutcome::SpawnFailed(e) => (res matches Err(m) && m@ == "执行 git checkout 失败: "@
                + e@),
            CommandOutcome::Exited { success, stderr, .. } => if *success {
                res is Ok
            } else {
                res matches Err(m) && m@ == "恢复 checkpoint 失败: "@ + trim(stderr@)
            },
        },
{
    match outcome {
        CommandOutcome::SpawnFailed(e) => {
            let mut m = chars_of("执行 git checkout 失败: ");
            append_str(&mut m, e.as_str());
            Err(string_from(&m))
        },
        CommandOutcome::Exited { success, stderr, .. } => {
            if *success {
                Ok(())
            } else {
                let mut m = chars_of("恢复 checkpoint 失败: ");
                append_chars(&mut m, &trim_chars(&chars_of(stderr.as_str())));
                Err(string_from(&m))
            }
        },
    }
}

// ---------------------------------------------------------------------------
// Planning and reporting a restore
// ---------------------------------------------------------------------------

/// The error of a restore that touches no file.
pub open spec fn no_files_error() -> Seq<char> {
    "没有可恢复的文件"@
}

/// The files of a restore, or why there is nothing to restore.
pub fn restore_targets_or_error(
    selection: Result<(Vec<RestoreFileChange>, Vec<String>), String>,
) -> (res: Result<(Vec<RestoreFileChange>, Vec<String>), String>)
    ensures
        match selection {
            Err(e) => (res matches Err(m) && m == e),
            Ok(t) => if t.0@.len() == 0 {
                res matches Err(m) && m@ == no_files_error()
            } else {
                res == Ok::<(Vec<RestoreFileChange>, Vec<String>), String>(t)
            },
        },
{
    match selection {
        Err(e) => Err(e),
        Ok(t) => {
            if t.0.len() == 0 {
                Err(string_from(&chars_of("没有可恢复的文件")))
            } else {
                Ok(t)
            }
        },
    }
}

/// What a preview shows and a confirmation checks.
#[derive(Debug)]
pub struct RestorePlan {
    pub head_before: Option<String>,
    pub changed_files: Vec<RestoreFileChange>,
    pub warnings: Vec<String>,
    pub status_snapshot: String,
    pub dirty_before_restore: bool,
    pub plan_hash: String,
    pub plan_id: String,
    pub diff_summary: String,
}

/// The error of a plan whose fingerprint is too long to hash.
pub open spec fn oversized_plan_error() -> Seq<char> {
    "生成恢复预览指纹失败: 指纹过长"@
}

/// The view of an optional `String`.
pub open spec fn sv(o: Option<String>) -> Option<Seq<char>> {
    match o {
        Some(s) => Some(s@),
        None => None,
    }
}

/// Plans a restore of `targets` (the files that `restore_targets_or_error` gave) to
/// `target_commit`: records the status listing and the state of each file (from `file_probes`,
/// in the order of `targets`, or the error met reading them), hashes the plan, and checks
/// a confirmation's hash against it.
pub fn plan_restore(
    head_before: Option<String>,
    status: &CommandOutcome,
    target_commit: &str,
    targets: Vec<RestoreFileChange>,
    warnings: Vec<String>,
    file_probes: Result<Vec<FileProbe>, String>,
    dry_run: bool,
    expected_plan_hash: Option<&str>,
) -> (res: Result<RestorePlan, String>)
    requires
        file_probes matches Ok(pr) ==> pr.len() == targets.len() && forall|i: int|
            0 <= i < pr.len() ==> probe_fits(#[trigger] pr@[i]),
    ensures
        match file_probes {
            Err(e) => (res matches Err(m) && m == e),
            Ok(pr) => {
                let status_text = status_snapshot(*status);
                let f = plan_fingerprint(
                    sv(head_before),
                    status_text,
                    target_commit@,
                    targets@,
                    probe_states(pr@),
                    string_views(warnings@),
                );
                let hash = hex_lower(sha256(vstd::utf8::encode_utf8(f)));
                if !hmac_input_fits(f.len() * 4) {
                    res matches Err(m) && m@ == oversized_plan_error()
                } else if stale_confirmation(dry_run, expected_plan_hash, hash) {
                    res matches Err(m) && m@ == stale_plan_error()
                } else {
                    res matches Ok(p) && {
                        &&& p.head_before == head_before
                        &&& p.changed_files == targets
                        &&& p.warnings == warnings
                        &&& p.status_snapshot@ == status_text
                        &&& p.dirty_before_restore == (trim(status_text).len() > 0)
                        &&& p.plan_hash@ == hash
                        &&& p.plan_id@ == "rp_"@ + hash.take(if hash.len() <= 16 {
                            hash.len() as int
                        } else {
                            16
                        })
                        &&& p.diff_summary@ == diff_summary(targets@)
                    }
                }
            },
        },
{
    let status_text = checkpoint_status_snapshot(status);
    let dirty = trim_chars(&chars_of(status_text.as_str())).len() > 0;
    let states = match file_probes {
        Err(e) => {
            return Err(e);
        },
        Ok(pr) => selected_file_state_snapshot(&pr),
    };
    let head: Option<&str> = match &head_before {
        Some(h) => Some(h.as_str()),
        None => None,
    };
    let hash = match restore_plan_hash(
        head,
        status_text.as_str(),
        target_commit,
        &targets,
        &states,
        &warnings,
    ) {
        Some(h) => h,
        None => {
            return Err(string_from(&chars_of("生成恢复预览指纹失败: 指纹过长")));
        },
    };
    let id = plan_id_of_hash(&hash);
    match check_expected_plan_hash(dry_run, expected_plan_hash, hash.as_str()) {
        Err(e) => {
            return Err(e);
        },
        Ok(()) => {},
    }
    let summary = restore_diff_summary(&targets);
    Ok(
        RestorePlan {
            head_before,
            changed_files: targets,
            warnings,
            status_snapshot: status_text,
            dirty_before_restore: dirty,
            plan_hash: hash,
            plan_id: id,
            diff_summary: summary,
        },
    )
}

/// Whether a restore saves the work in progress first: it is no preview, a safety
/// checkpoint was asked for, and the project has changes.
pub fn creates_safety_checkpoint(dry_run: bool, create_safety_checkpoint: bool, plan: &RestorePlan) -> (res:
    bool)
    ensures
        res == (!dry_run && create_safety_checkpoint && plan.dirty_before_restore),
{
    !dry_run && create_safety_checkpoint && plan.dirty_before_restore
}

/// A checkpoint as it is listed: its commit, its id, its subject, when it was made (Unix
/// seconds and nanoseconds, UTC), the files it changed, and its message.
#[derive(Debug)]
pub struct Checkpoint {
    pub id: String,
    pub checkpoint_id: Option<String>,
    pub name: String,
    pub timestamp: (i64, u32),
    pub files: Vec<String>,
    pub message: String,
}

/// What a restore reports.
#[derive(Debug)]
pub struct RestoreCheckpointResult {
    pub ok: bool,
    pub dry_run: bool,
    pub target_commit: String,
    pub mode: String,
    pub head_before: Option<String>,
    pub safety_checkpoint: Option<Checkpoint>,
    pub will_create_safety_checkpoint: bool,
    pub changed_files: Vec<RestoreFileChange>,
    pub warnings: Vec<String>,
    pub diff_summary: Option<String>,
    pub restore_plan_id: Option<String>,
    pub restore_plan_hash: Option<String>,
    pub status_snapshot: Option<String>,
    pub plan_expires_at: Option<String>,
}

/// The report of a restore (or of its preview) of a plan: the plan's files, warnings (with
/// `extra_warnings` after them, such as a failure to record the restore), summary, id,
/// hash and status listing; the safety checkpoint made; when a preview expires.
pub fn restore_checkpoint_result(
    plan: RestorePlan,
    dry_run: bool,
    target_commit: &str,
    create_safety_checkpoint: bool,
    safety_checkpoint: Option<Checkpoint>,
    extra_warnings: Vec<String>,
    plan_expires_at: Option<String>,
) -> (res: RestoreCheckpointResult)
    ensures
        res.ok,
        res.dry_run == dry_run,
        res.target_commit@ == target_commit@,
        res.mode@ == RESTORE_MODE@,
        res.head_before == plan.head_before,
        res.safety_checkpoint == safety_checkpoint,
        res.will_create_safety_checkpoint == (create_safety_checkpoint && plan.dirty_before_restore),
        res.changed_files == plan.changed_files,
        res.warnings@ == plan.warnings@ + extra_warnings@,
        sv(res.diff_summary) == Some(plan.diff_summary@),
        sv(res.restore_plan_id) == Some(plan.plan_id@),
        sv(res.restore_plan_hash) == Some(plan.plan_hash@),
        sv(res.status_snapshot) == Some(plan.status_snapshot@),
        res.plan_expires_at == (if dry_run {
            plan_expires_at
        } else {
            None
        }),
{
    let mut warnings = plan.warnings;
    let mut extra = extra_warnings;
    let ghost w0 = warnings@;
    let ghost e0 = extra@;
    warnings.append(&mut extra);
    assert(warnings@ =~= w0 + e0);
    RestoreCheckpointResult {
        ok: true,
        dry_run,
        target_commit: string_from(&chars_of(target_commit)),
        mode: string_from(&chars_of(RESTORE_MODE)),
        head_before: plan.head_before,
        safety_checkpoint,
        will_create_safety_checkpoint: create_safety_checkpoint && plan.dirty_before_restore,
        changed_files: plan.changed_files,
        warnings,
        diff_summary: Some(plan.diff_summary),
        restore_plan_id: Some(plan.plan_id),
        restore_plan_hash: Some(plan.plan_hash),
        status_snapshot: Some(plan.status_snapshot),
        plan_expires_at: if dry_run {
            plan_expires_at
        } else {
            None
        },
    }
}

} // verus!
