//! Scheduled jobs kept in the user's crontab: how the listing is read, and what the
//! crontab becomes when a labelled job is added or removed.
use vstd::prelude::*;

use crate::checkpoint::CommandOutcome;
use crate::ordered::{chars_vecs, string_views, to_strings};
use crate::text::{
    append_chars, append_str, chars_of, contains, contains_chars, find, join, join_chars,
    lemma_find_first, lines, lines_of, slice_chars, starts_with, starts_with_str, string_from,
    trim, trim_chars, views,
};

verus! {

broadcast use vstd::string::group_string_axioms;

/// A job of the crontab as listed: its position among the jobs, its line, and its label.
#[derive(Debug)]
pub struct CronJob {
    pub index: usize,
    pub entry: String,
    pub label: String,
}

/// What `crontab -l` listed.
#[derive(Debug)]
pub enum CronListing {
    /// The user has no crontab.
    NoCrontab,
    /// The jobs, in order.
    Jobs(Vec<CronJob>),
}

/// Where the last occurrence of `p` in `s` starts.
pub open spec fn rfind(s: Seq<char>, p: Seq<char>) -> Option<int>
    decreases s.len(),
{
    if s.len() < p.len() {
        None
    } else if s.skip(s.len() - p.len()) == p {
        Some(s.len() - p.len())
    } else if s.len() == 0 {
        None
    } else {
        rfind(s.drop_last(), p)
    }
}

/// The label of a job line: what follows its last `# `, trimmed; empty without one.
pub open spec fn job_label(line: Seq<char>) -> Seq<char> {
    match rfind(line, "# "@) {
        Some(k) => trim(line.skip(k + 2)),
        None => seq![],
    }
}

/// A line of `crontab -l` that names a job: not blank, and not a comment.
pub open spec fn job_line(line: Seq<char>) -> bool {
    trim(line).len() > 0 && !starts_with(line, "#"@)
}

/// The job lines among some lines, in order.
pub open spec fn job_lines(ls: Seq<Seq<char>>) -> Seq<Seq<char>> {
    ls.filter(|l: Seq<char>| job_line(l))
}

/// What `crontab -l` lists: no crontab when it failed saying so, else the jobs of its
/// output, each with its index, trimmed line and label.
pub open spec fn listing_matches(outcome: CommandOutcome, listing: CronListing) -> bool {
    match outcome {
        CommandOutcome::SpawnFailed(_) => false,
        CommandOutcome::Exited { success, stdout, stderr } => if !success && contains(
            stderr@,
            "no crontab"@,
        ) {
            listing is NoCrontab
        } else {
            listing matches CronListing::Jobs(jobs) && {
                let ls = job_lines(lines(stdout@));
                &&& jobs@.len() == ls.len()
                &&& forall|i: int|
                    0 <= i < ls.len() ==> (#[trigger] jobs@[i]).index == i && jobs@[i].entry@
                        == trim(ls[i]) && jobs@[i].label@ == job_label(ls[i])
            }
        },
    }
}

fn label_of(line: &Vec<char>) -> (res: Vec<char>)
    ensures
        res@ == job_label(line@),
{
    proof {
        reveal_strlit("# ");
    }
    let mut n: usize = line.len();
    assert(line@.take(n as int) =~= line@);
    loop
        invariant
            n <= line.len(),
            rfind(line@, "# "@) == rfind(line@.take(n as int), "# "@),
        decreases n,
    {
        proof {
            reveal_strlit("# ");
        }
        let ghost t = line@.take(n as int);
        if n < 2 {
            assert(t.len() < 2);
            return Vec::new();
        }
        if line[n - 2] == '#' && line[n - 1] == ' ' {
            assert(t.skip(n - 2) =~= seq!['#', ' ']);
            assert("# "@ =~= seq!['#', ' ']);
            let rest = slice_chars(line, n, line.len());
            assert(rest@ =~= line@.skip(n as int));
            return trim_chars(&rest);
        }
        assert(t.skip(n - 2) != "# "@) by {
            assert("# "@ =~= seq!['#', ' ']);
            if t.skip(n - 2) == "# "@ {
                assert(t.skip(n - 2)[0] == t[n - 2]);
                assert(t.skip(n - 2)[1] == t[n - 1]);
                assert(t[n - 2] == line@[n - 2]);
                assert(t[n - 1] == line@[n - 1]);
            }
        }
        assert(t.drop_last() =~= line@.take(n - 1));
        n -= 1;
    }
}

/// The jobs that `crontab -l` listed, or why it could not run.
pub fn cron_list_jobs(outcome: &CommandOutcome) -> (res: Result<CronListing, String>)
    ensures
        match outcome {
            CommandOutcome::SpawnFailed(e) => (res matches Err(m) && m@ == "执行 crontab -l 失败: "@
                + e@),
            _ => (res matches Ok(l) && listing_matches(*outcome, l)),
        },
{
    let (success, stdout, stderr) = match outcome {
        CommandOutcome::SpawnFailed(e) => {
            let mut m = chars_of("执行 crontab -l 失败: ");
            append_str(&mut m, e.as_str());
            return Err(string_from(&m));
        },
        CommandOutcome::Exited { success, stdout, stderr } => (*success, stdout, stderr),
    };
    if !success && crate::text::contains_str(&chars_of(stderr.as_str()), "no crontab") {
        return Ok(CronListing::NoCrontab);
    }
    let ls = lines_of(&chars_of(stdout.as_str()));
    let ghost lv = views(ls@);
    let ghost f = |l: Seq<char>| job_line(l);
    let mut jobs: Vec<CronJob> = Vec::new();
    let mut kept: usize = 0;
    let mut i: usize = 0;
    assert(lv.take(0).filter(f) =~= Seq::<Seq<char>>::empty()) by {
        reveal(Seq::filter);
    }
    proof {
        reveal_strlit("#");
    }
    while i < ls.len()
        invariant
            lv == views(ls@),
            f == (|l: Seq<char>| job_line(l)),
            i <= ls.len(),
            jobs@.len() == lv.take(i as int).filter(f).len(),
            forall|j: int|
                0 <= j < jobs@.len() ==> (#[trigger] jobs@[j]).index == j && jobs@[j].entry@ == trim(
                    lv.take(i as int).filter(f)[j],
                ) && jobs@[j].label@ == job_label(lv.take(i as int).filter(f)[j]),
        decreases ls.len() - i,
    {
        let ghost prev = lv.take(i as int).filter(f);
        assert(lv.take(i + 1) =~= lv.take(i as int).push(lv[i as int]));
        proof {
            lv.take(i as int).lemma_filter_push(lv[i as int], f);
        }
        assert(lv[i as int] == ls[i as int]@);
        let t = trim_chars(&ls[i]);
        if t.len() > 0 && !starts_with_str(&ls[i], "#") {
            assert(f(lv[i as int]));
            let job = CronJob { index: jobs.len(), entry: string_from(&t), label: string_from(&label_of(&ls[i])) };
            jobs.push(job);
            assert forall|j: int| 0 <= j < jobs@.len() implies (#[trigger] jobs@[j]).index == j
                && jobs@[j].entry@ == trim(prev.push(lv[i as int])[j]) && jobs@[j].label@
                == job_label(prev.push(lv[i as int])[j]) by {
                if j < prev.len() {
                    assert(prev.push(lv[i as int])[j] == prev[j]);
                }
            }
        } else {
            assert(!f(lv[i as int]));
        }
        i += 1;
    }
    assert(lv.take(i as int) =~= lv);
    Ok(CronListing::Jobs(jobs))
}

/// The non-blank lines of an existing crontab, in order; none when `crontab -l` could not
/// run.
pub open spec fn crontab_entries(existing: CommandOutcome) -> Seq<Seq<char>> {
    match existing {
        CommandOutcome::SpawnFailed(_) => seq![],
        CommandOutcome::Exited { stdout, .. } => text_entries(stdout@),
    }
}

/// The non-blank lines of a crontab's text, in order.
pub open spec fn text_entries(text: Seq<char>) -> Seq<Seq<char>> {
    lines(text).filter(|l: Seq<char>| trim(l).len() > 0)
}

/// The lines of a crontab without the jobs of a label (those containing `# <label>`).
pub open spec fn without_label(entries: Seq<Seq<char>>, label: Seq<char>) -> Seq<Seq<char>> {
    entries.filter(|l: Seq<char>| !contains(l, "# "@ + label))
}

fn entries_of(existing: &CommandOutcome) -> (res: Vec<Vec<char>>)
    ensures
        views(res@) == crontab_entries(*existing),
{
    let stdout = match existing {
        CommandOutcome::SpawnFailed(_) => {
            return Vec::new();
        },
        CommandOutcome::Exited { stdout, .. } => stdout,
    };
    let ls = lines_of(&chars_of(stdout.as_str()));
    let ghost lv = views(ls@);
    let ghost f = |l: Seq<char>| trim(l).len() > 0;
    let mut out: Vec<Vec<char>> = Vec::new();
    let mut i: usize = 0;
    assert(lv.take(0).filter(f) =~= Seq::<Seq<char>>::empty()) by {
        reveal(Seq::filter);
    }
    while i < ls.len()
        invariant
            lv == views(ls@),
            f == (|l: Seq<char>| trim(l).len() > 0),
            i <= ls.len(),
            views(out@) == lv.take(i as int).filter(f),
        decreases ls.len() - i,
    {
        assert(lv.take(i + 1) =~= lv.take(i as int).push(lv[i as int]));
        proof {
            lv.take(i as int).lemma_filter_push(lv[i as int], f);
        }
        assert(lv[i as int] == ls[i as int]@);
        if trim_chars(&ls[i]).len() > 0 {
            let c = slice_chars(&ls[i], 0, ls[i].len());
            assert(c@ =~= lv[i as int]);
            let ghost before = views(out@);
            out.push(c);
            assert(views(out@) =~= before.push(lv[i as int]));
        }
        i += 1;
    }
    assert(lv.take(i as int) =~= lv);
    out
}

fn drop_label(entries: &Vec<Vec<char>>, label: &str) -> (res: Vec<Vec<char>>)
    ensures
        views(res@) == without_label(views(entries@), label@),
{
    let mut mark = chars_of("# ");
    append_str(&mut mark, label);
    let ghost ev = views(entries@);
    let ghost f = |l: Seq<char>| !contains(l, "# "@ + label@);
    let mut out: Vec<Vec<char>> = Vec::new();
    let mut i: usize = 0;
    assert(ev.take(0).filter(f) =~= Seq::<Seq<char>>::empty()) by {
        reveal(Seq::filter);
    }
    while i < entries.len()
        invariant
            ev == views(entries@),
            mark@ == "# "@ + label@,
            f == (|l: Seq<char>| !contains(l, "# "@ + label@)),
            i <= entries.len(),
            views(out@) == ev.take(i as int).filter(f),
        decreases entries.len() - i,
    {
        assert(ev.take(i + 1) =~= ev.take(i as int).push(ev[i as int]));
        proof {
            ev.take(i as int).lemma_filter_push(ev[i as int], f);
        }
        assert(ev[i as int] == entries[i as int]@);
        if !contains_chars(&entries[i], &mark) {
            let c = slice_chars(&entries[i], 0, entries[i].len());
            assert(c@ =~= ev[i as int]);
            let ghost before = views(out@);
            out.push(c);
            assert(views(out@) =~= before.push(ev[i as int]));
        }
        i += 1;
    }
    assert(ev.take(i as int) =~= ev);
    out
}

/// The line of a new job: its schedule, its command and `# <label>`.
pub open spec fn job_entry(schedule: Seq<char>, command: Seq<char>, label: Seq<char>) -> Seq<char> {
    schedule + " "@ + command + " # "@ + label
}

/// A job to add: what the crontab becomes (the existing jobs without those of the label,
/// then the new one, each line ended by `\n`) and the new job's line.
#[derive(Debug)]
pub struct CronAddition {
    pub crontab: String,
    pub entry: String,
    pub label: String,
}

/// Adds a job: a schedule and a command are required; the label defaults to `cunzhi`,
/// and a job of the same label is replaced. `existing` is what `crontab -l` gave.
pub fn cron_add_job(
    schedule: Option<&str>,
    command: Option<&str>,
    label: Option<&str>,
    existing: &CommandOutcome,
) -> (res: Result<CronAddition, String>)
    ensures
        schedule is None ==> (res matches Err(m) && m@ == "缺少 schedule 参数"@),
        schedule is Some && command is None ==> (res matches Err(m) && m@ == "缺少 command 参数"@),
        match (schedule, command) {
            (Some(s), Some(c)) => (res matches Ok(a) && {
                let l = match label {
                    Some(l) => l@,
                    None => "cunzhi"@,
                };
                let e = job_entry(s@, c@, l);
                &&& a.entry@ == e
                &&& a.label@ == l
                &&& a.crontab@ == join(without_label(crontab_entries(*existing), l).push(e), "\n"@)
                    + "\n"@
            }),
            _ => true,
        },
{
    let s = match schedule {
        Some(s) => s,
        None => {
            return Err(string_from(&chars_of("缺少 schedule 参数")));
        },
    };
    let c = match command {
        Some(c) => c,
        None => {
            return Err(string_from(&chars_of("缺少 command 参数")));
        },
    };
    let l = match label {
        Some(l) => chars_of(l),
        None => chars_of("cunzhi"),
    };
    let ls = string_from(&l);
    let mut e = chars_of(s);
    append_str(&mut e, " ");
    append_str(&mut e, c);
    append_str(&mut e, " # ");
    append_chars(&mut e, &l);
    let entries = entries_of(existing);
    let mut kept = drop_label(&entries, ls.as_str());
    let ghost before = views(kept@);
    let ev = slice_chars(&e, 0, e.len());
    assert(ev@ =~= e@);
    kept.push(ev);
    assert(views(kept@) =~= before.push(e@));
    let mut text = join_chars(&kept, "\n");
    append_str(&mut text, "\n");
    Ok(CronAddition { crontab: string_from(&text), entry: string_from(&e), label: ls })
}

/// A job removal: what the crontab becomes (empty when no job is left) and how many jobs
/// went.
#[derive(Debug)]
pub struct CronRemoval {
    pub crontab: String,
    pub removed: usize,
}

/// Removes the jobs of a label, which is required; it is an error when none has it.
pub fn cron_remove_job(label: Option<&str>, existing: &CommandOutcome) -> (res: Result<
    CronRemoval,
    String,
>)
    ensures
        label is None ==> (res matches Err(m) && m@ == "缺少 label 参数"@),
        label matches Some(l) ==> {
            let before = crontab_entries(*existing);
            let after = without_label(before, l@);
            if before.len() == after.len() {
                res matches Err(m) && m@ == "未找到标签为 '"@ + l@ + "' 的定时任务"@
            } else {
                res matches Ok(r) && r.removed == before.len() - after.len() && r.crontab@ == (if after.len()
                    == 0 {
                    Seq::<char>::empty()
                } else {
                    join(after, "\n"@) + "\n"@
                })
            }
        },
{
    let l = match label {
        Some(l) => l,
        None => {
            return Err(string_from(&chars_of("缺少 label 参数")));
        },
    };
    let entries = entries_of(existing);
    let kept = drop_label(&entries, l);
    proof {
        views(entries@).lemma_filter_len(|x: Seq<char>| !contains(x, "# "@ + l@));
    }
    assert(views(kept@).len() == kept@.len());
    assert(views(entries@).len() == entries@.len());
    if kept.len() == entries.len() {
        let mut m = chars_of("未找到标签为 '");
        append_str(&mut m, l);
        append_str(&mut m, "' 的定时任务");
        return Err(string_from(&m));
    }
    let text = if kept.len() == 0 {
        Vec::new()
    } else {
        let mut t = join_chars(&kept, "\n");
        append_str(&mut t, "\n");
        t
    };
    Ok(CronRemoval { crontab: string_from(&text), removed: entries.len() - kept.len() })
}


// ---------------------------------------------------------------------------
// Adding and removing a job
// ---------------------------------------------------------------------------

proof fn lemma_filter_all<A>(s: Seq<A>, f: spec_fn(A) -> bool)
    requires
        forall|i: int| 0 <= i < s.len() ==> f(#[trigger] s[i]),
    ensures
        s.filter(f) == s,
    decreases s.len(),
{
    if s.len() == 0 {
        assert(s.filter(f) =~= s) by {
            reveal(Seq::filter);
        }
    } else {
        let front = s.drop_last();
        assert forall|i: int| 0 <= i < front.len() implies f(#[trigger] front[i]) by {
            assert(front[i] == s[i]);
        }
        lemma_filter_all(front, f);
        assert(f(s[s.len() - 1]));
        front.lemma_filter_push(s.last(), f);
        assert(front.push(s.last()) =~= s);
    }
}

proof fn lemma_filter_keeps<A>(s: Seq<A>, f: spec_fn(A) -> bool, p: spec_fn(A) -> bool)
    requires
        forall|i: int| 0 <= i < s.len() ==> p(#[trigger] s[i]),
    ensures
        forall|i: int| 0 <= i < s.filter(f).len() ==> p(#[trigger] s.filter(f)[i]),
    decreases s.len(),
{
    if s.len() == 0 {
        assert(s.filter(f) =~= Seq::<A>::empty()) by {
            reveal(Seq::filter);
        }
    } else {
        let front = s.drop_last();
        assert forall|i: int| 0 <= i < front.len() implies p(#[trigger] front[i]) by {
            assert(front[i] == s[i]);
        }
        lemma_filter_keeps(front, f, p);
        front.lemma_filter_push(s.last(), f);
        assert(front.push(s.last()) =~= s);
        assert(p(s[s.len() - 1]));
        let ff = front.filter(f);
        assert forall|i: int| 0 <= i < s.filter(f).len() implies p(#[trigger] s.filter(f)[i]) by {
            if f(s.last()) {
                if i < ff.len() {
                    assert(s.filter(f)[i] == ff[i]);
                } else {
                    assert(s.filter(f)[i] == s.last());
                }
            } else {
                assert(s.filter(f)[i] == ff[i]);
            }
        }
    }
}

proof fn lemma_nonblank(s: Seq<char>, i: int)
    requires
        0 <= i < s.len(),
        !crate::text::is_ws(s[i]),
    ensures
        trim(s).len() > 0,
    decreases s.len(),
{
    if crate::text::is_ws(s[0]) {
        assert(i > 0);
        assert(s.drop_first()[i - 1] == s[i]);
        lemma_nonblank(s.drop_first(), i - 1);
        assert(crate::text::trim_start(s) == crate::text::trim_start(s.drop_first()));
        assert(trim(s) == trim(s.drop_first()));
    } else {
        assert(crate::text::trim_start(s) == s);
        lemma_trim_end_keeps_first(s);
    }
}

proof fn lemma_trim_end_keeps_first(t: Seq<char>)
    requires
        t.len() > 0,
        !crate::text::is_ws(t[0]),
    ensures
        crate::text::trim_end(t).len() > 0,
    decreases t.len(),
{
    if crate::text::is_ws(t.last()) {
        assert(t.len() > 1);
        assert(t.drop_last()[0] == t[0]);
        lemma_trim_end_keeps_first(t.drop_last());
    }
}

/// Removing a label's jobs from the crontab that adding a job of that label wrote takes
/// out exactly the new job: what is left are the jobs that were there before, without the
/// label's. The law needs the new job's line and the existing lines to hold no line break
/// and to end with no carriage return, which the crontab's reading would cut off.
pub proof fn law_added_job_is_removed_by_its_label(
    existing: CommandOutcome,
    schedule: Seq<char>,
    command: Seq<char>,
    label: Seq<char>,
)
    requires
        forall|i: int| 0 <= i < schedule.len() ==> schedule[i] != '\n',
        forall|i: int| 0 <= i < command.len() ==> command[i] != '\n',
        forall|i: int| 0 <= i < label.len() ==> label[i] != '\n',
        crate::text::strip_cr(job_entry(schedule, command, label)) == job_entry(schedule, command, label),
        forall|k: int|
            0 <= k < crontab_entries(existing).len() ==> crate::text::strip_cr(
                #[trigger] crontab_entries(existing)[k],
            ) == crontab_entries(existing)[k],
    ensures
        ({
            let kept = without_label(crontab_entries(existing), label);
            let written = join(kept.push(job_entry(schedule, command, label)), "\n"@) + "\n"@;
            &&& text_entries(written) == kept.push(job_entry(schedule, command, label))
            &&& without_label(text_entries(written), label) == kept
            &&& text_entries(written).len() == kept.len() + 1
        }),
{
    reveal_strlit(" ");
    reveal_strlit(" # ");
    reveal_strlit("# ");
    let nonblank = |l: Seq<char>| trim(l).len() > 0;
    let nolabel = |l: Seq<char>| !contains(l, "# "@ + label);
    let one_line = |l: Seq<char>| forall|i: int| 0 <= i < l.len() ==> l[i] != '\n';
    let no_cr = |l: Seq<char>| crate::text::strip_cr(l) == l;
    let entries = crontab_entries(existing);
    // What was there: non-blank single lines.
    match existing {
        CommandOutcome::SpawnFailed(_) => {
            assert(entries =~= Seq::<Seq<char>>::empty());
        },
        CommandOutcome::Exited { stdout, .. } => {
            let ls = lines(stdout@);
            crate::text::lemma_lines_from_no_breaks(stdout@, seq![]);
            assert forall|k: int| 0 <= k < ls.len() implies one_line(#[trigger] ls[k]) by {}
            lemma_filter_keeps(ls, nonblank, one_line);
            assert(entries == ls.filter(nonblank));
            assert forall|k: int| 0 <= k < entries.len() implies nonblank(#[trigger] entries[k]) by {
                ls.lemma_filter_pred(nonblank, k);
            }
        },
    }
    assert forall|k: int| 0 <= k < entries.len() implies one_line(#[trigger] entries[k]) && nonblank(
        entries[k],
    ) && no_cr(entries[k]) by {
        match existing {
            CommandOutcome::SpawnFailed(_) => {},
            CommandOutcome::Exited { stdout, .. } => {
                lines(stdout@).lemma_filter_pred(nonblank, k);
            },
        }
    }
    let kept = entries.filter(nolabel);
    assert(kept == without_label(entries, label));
    lemma_filter_keeps(entries, nolabel, one_line);
    lemma_filter_keeps(entries, nolabel, nonblank);
    lemma_filter_keeps(entries, nolabel, no_cr);
    assert forall|k: int| 0 <= k < kept.len() implies nolabel(#[trigger] kept[k]) by {
        entries.lemma_filter_pred(nolabel, k);
    }
    // The new job: a single non-blank line that names the label.
    let e = job_entry(schedule, command, label);
    let at: int = (schedule.len() + 1 + command.len() + 1) as int;
    assert(e =~= schedule + (" "@ + (command + (" # "@ + label))));
    let mark = "# "@ + label;
    assert(mark.len() == 2 + label.len());
    assert(e.subrange(at, at + mark.len()) =~= mark);
    assert(contains(e, "# "@ + label));
    assert(!nolabel(e));
    assert(e[at] == '#');
    assert(!crate::text::is_ws(e[at]));
    lemma_nonblank(e, at);
    assert forall|i: int| 0 <= i < e.len() implies e[i] != '\n' by {
        if i < schedule.len() {
            assert(e[i] == schedule[i]);
        } else if i == schedule.len() {
        } else if i < schedule.len() + 1 + command.len() {
            assert(e[i] == command[i - schedule.len() - 1]);
        } else if i < at + 2 {
        } else {
            assert(e[i] == label[i - at - 2]);
        }
    }
    // Written and read back.
    let parts = kept.push(e);
    assert forall|k: int, i: int| 0 <= k < parts.len() && 0 <= i < parts[k].len()
        implies parts[k][i] != '\n' by {
        if k < kept.len() {
            assert(parts[k] == kept[k]);
            assert(one_line(kept[k]));
        }
    }
    assert forall|k: int| 0 <= k < parts.len() implies crate::text::strip_cr(#[trigger] parts[k]) == parts[k] by {
        if k < kept.len() {
            assert(parts[k] == kept[k]);
            assert(no_cr(kept[k]));
        }
    }
    crate::text::lemma_lines_of_joined(parts);
    let written = join(parts, "\n"@) + "\n"@;
    assert forall|k: int| 0 <= k < parts.len() implies nonblank(#[trigger] parts[k]) by {
        if k < kept.len() {
            assert(parts[k] == kept[k]);
            assert(nonblank(kept[k]));
        }
    }
    lemma_filter_all(parts, nonblank);
    assert(text_entries(written) == parts);
    kept.lemma_filter_push(e, nolabel);
    lemma_filter_all(kept, nolabel);
    assert(without_label(parts, label) == kept);
}

} // verus!
