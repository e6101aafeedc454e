//! Commit checkpoints of a workspace: which changes count, how a checkpoint commit is
//! named, how git's answers are read, and the run that creates one.
use vstd::prelude::*;

use crate::text::{
    append_chars, append_str, chars_eq_str, chars_of, contains, contains_str, join, join_chars,
    lines, lines_of, slice_chars, split_chars, split_on, starts_with, starts_with_str,
    strip_prefix_str, string_from, trim, trim_chars, trim_end, trim_end_chars, views,
};

verus! {

broadcast use vstd::string::group_string_axioms;

// ---------------------------------------------------------------------------
// Which changes count
// ---------------------------------------------------------------------------

/// The directories that the checkpoint machinery writes itself.
pub open spec fn index_path(path: Seq<char>) -> bool {
    ||| path == ".cunzhi-knowledge"@
    ||| starts_with(path, ".cunzhi-knowledge/"@)
    ||| path == ".cunzhi-memory"@
    ||| starts_with(path, ".cunzhi-memory/"@)
}

/// Whether a workspace-relative path lies in what the checkpoint machinery writes
/// (`.cunzhi-knowledge` or `.cunzhi-memory`, or below them).
pub fn is_checkpoint_index_path(path: &str) -> (res: bool)
    ensures
        res == index_path(path@),
{
    let p = chars_of(path);
    chars_eq_str(&p, ".cunzhi-knowledge") || starts_with_str(&p, ".cunzhi-knowledge/")
        || chars_eq_str(&p, ".cunzhi-memory") || starts_with_str(&p, ".cunzhi-memory/")
}

/// How many bytes a character takes in UTF-8.
pub open spec fn utf8_len(c: char) -> nat {
    let u = c as u32;
    if u < 0x80 {
        1
    } else if u < 0x800 {
        2
    } else if u < 0x10000 {
        3
    } else {
        4
    }
}

/// What follows the first `n` bytes of `s` (`str::get(n..)`): nothing when `s` is
/// shorter or byte `n` falls inside a character.
pub open spec fn byte_skip(s: Seq<char>, n: nat) -> Option<Seq<char>>
    decreases s.len(),
{
    if n == 0 {
        Some(s)
    } else if s.len() == 0 {
        None
    } else if utf8_len(s[0]) <= n {
        byte_skip(s.drop_first(), (n - utf8_len(s[0])) as nat)
    } else {
        None
    }
}

/// How many bytes a character takes in UTF-8.
pub fn char_utf8_len(c: char) -> (res: usize)
    ensures
        res == utf8_len(c),
{
    let u = c as u32;
    if u < 0x80 {
        1
    } else if u < 0x800 {
        2
    } else if u < 0x10000 {
        3
    } else {
        4
    }
}

/// `s.get(n..)` on the characters of a string.
fn byte_skip_chars(s: &Vec<char>, n: usize) -> (res: Option<Vec<char>>)
    ensures
        match res {
            Some(r) => byte_skip(s@, n as nat) == Some(r@),
            None => byte_skip(s@, n as nat) is None,
        },
{
    let mut i: usize = 0;
    let mut left: usize = n;
    assert(s@.skip(0) =~= s@);
    while left > 0
        invariant
            i <= s.len(),
            left <= n,
            byte_skip(s@, n as nat) == byte_skip(s@.skip(i as int), left as nat),
        decreases left,
    {
        if i == s.len() {
            return None;
        }
        let w = char_utf8_len(s[i]);
        assert(s@.skip(i as int)[0] == s@[i as int]);
        if w > left {
            return None;
        }
        assert(s@.skip(i as int).drop_first() =~= s@.skip(i + 1));
        left = left - w;
        i += 1;
    }
    Some(slice_chars(s, i, s.len()))
}

/// The path that a line of `git status --porcelain` names: what follows its first three
/// bytes, trimmed.
pub open spec fn status_line_path(line: Seq<char>) -> Seq<char> {
    match byte_skip(line, 3) {
        Some(rest) => trim(rest),
        None => seq![],
    }
}

/// Whether a status line, without trailing whitespace, is kept: it is not empty and
/// names a path outside what the checkpoint machinery writes.
pub open spec fn status_line_kept(line: Seq<char>) -> bool {
    let t = trim_end(line);
    t.len() > 0 && !index_path(status_line_path(t))
}

/// The kept lines of a status listing, each without trailing whitespace, in order.
pub open spec fn kept_status_lines(ls: Seq<Seq<char>>) -> Seq<Seq<char>>
    decreases ls.len(),
{
    if ls.len() == 0 {
        seq![]
    } else if status_line_kept(ls.last()) {
        kept_status_lines(ls.drop_last()).push(trim_end(ls.last()))
    } else {
        kept_status_lines(ls.drop_last())
    }
}

/// A `git status --porcelain` listing without the changes that the checkpoint machinery
/// makes itself: its other lines, trimmed at the end, joined by `\n`.
pub open spec fn relevant_status(raw: Seq<char>) -> Seq<char> {
    join(kept_status_lines(lines(raw)), "\n"@)
}

fn relevant_status_chars(raw: &str) -> (res: String)
    ensures
        res@ == relevant_status(raw@),
{
    let text = chars_of(raw);
    let ls = lines_of(&text);
    let ghost lv = views(ls@);
    let mut kept: Vec<Vec<char>> = Vec::new();
    let mut i: usize = 0;
    assert(lv.take(0) =~= seq![]);
    while i < ls.len()
        invariant
            lv == views(ls@),
            lv == lines(raw@),
            i <= ls.len(),
            views(kept@) == kept_status_lines(lv.take(i as int)),
        decreases ls.len() - i,
    {
        assert(lv.take(i + 1).drop_last() =~= lv.take(i as int));
        assert(lv.take(i + 1).last() == ls[i as int]@);
        let t = trim_end_chars(&ls[i]);
        if t.len() > 0 {
            let path = match byte_skip_chars(&t, 3) {
                Some(rest) => trim_chars(&rest),
                None => Vec::new(),
            };
            assert(path@ =~= status_line_path(t@));
            let p = string_from(&path);
            if !is_checkpoint_index_path(p.as_str()) {
                let ghost before = views(kept@);
                let ghost tv = t@;
                kept.push(t);
                assert(views(kept@) =~= before.push(tv));
            }
        }
        i += 1;
    }
    assert(lv.take(i as int) =~= lv);
    string_from(&join_chars(&kept, "\n"))
}

/// The changes of a `git status --porcelain` listing that a checkpoint commit would take:
/// every line but the empty ones and those that name `.cunzhi-knowledge` or
/// `.cunzhi-memory` (or what lies below them).
pub fn filter_checkpoint_relevant_status(raw: &str) -> (res: String)
    ensures
        res@ == relevant_status(raw@),
{
    relevant_status_chars(raw)
}

/// The changes that the background monitor watches: the same lines as a checkpoint
/// commit would take.
pub fn filter_monitor_relevant_status(raw: &str) -> (res: String)
    ensures
        res@ == relevant_status(raw@),
{
    relevant_status_chars(raw)
}

// ---------------------------------------------------------------------------
// What git answered
// ---------------------------------------------------------------------------

/// What an external command gave (its output decoded lossily), or why it could not start.
#[derive(Clone, Debug)]
pub enum CommandOutcome {
    /// The command could not be started: the error's text.
    SpawnFailed(String),
    /// The command ran to its end.
    Exited { success: bool, stdout: String, stderr: String },
}

/// What the file system says of a project path.
#[derive(Clone, Copy, Debug, PartialEq, Eq, Structural)]
pub enum RepoProbe {
    /// The path does not exist.
    PathMissing,
    /// The path exists but holds no `.git`.
    NotARepo,
    /// The path holds a git repository.
    Repo,
}

/// The error for a project that is not a git repository, if it is not one.
pub open spec fn repo_error(project_path: Seq<char>, probe: RepoProbe) -> Option<Seq<char>> {
    match probe {
        RepoProbe::PathMissing => Some("项目路径不存在: "@ + project_path),
        RepoProbe::NotARepo => Some("不是 Git 仓库"@),
        RepoProbe::Repo => None,
    }
}

/// Fails unless the project path holds a git repository.
pub fn ensure_git_repo(project_path: &str, probe: RepoProbe) -> (res: Result<(), String>)
    ensures
        match repo_error(project_path@, probe) {
            Some(m) => (res matches Err(e) && e@ == m),
            None => res is Ok,
        },
{
    match probe {
        RepoProbe::PathMissing => {
            let mut m = chars_of("项目路径不存在: ");
            append_str(&mut m, project_path);
            Err(string_from(&m))
        },
        RepoProbe::NotARepo => Err(string_from(&chars_of("不是 Git 仓库"))),
        RepoProbe::Repo => Ok(()),
    }
}

/// The non-empty lines of git's output, each trimmed, in order.
pub open spec fn output_lines(ls: Seq<Seq<char>>) -> Seq<Seq<char>>
    decreases ls.len(),
{
    if ls.len() == 0 {
        seq![]
    } else if trim(ls.last()).len() > 0 {
        output_lines(ls.drop_last()).push(trim(ls.last()))
    } else {
        output_lines(ls.drop_last())
    }
}

/// The non-empty trimmed lines of `out`.
pub fn trimmed_output_lines(out: &str) -> (res: Vec<String>)
    ensures
        crate::ordered::string_views(res@) == output_lines(lines(out@)),
{
    let text = chars_of(out);
    let ls = lines_of(&text);
    let ghost lv = views(ls@);
    let mut kept: Vec<Vec<char>> = Vec::new();
    let mut i: usize = 0;
    assert(lv.take(0) =~= seq![]);
    while i < ls.len()
        invariant
            lv == views(ls@),
            lv == lines(out@),
            i <= ls.len(),
            views(kept@) == output_lines(lv.take(i as int)),
        decreases ls.len() - i,
    {
        assert(lv.take(i + 1).drop_last() =~= lv.take(i as int));
        assert(lv.take(i + 1).last() == ls[i as int]@);
        let t = trim_chars(&ls[i]);
        if t.len() > 0 {
            let ghost before = views(kept@);
            let ghost tv = t@;
            kept.push(t);
            assert(views(kept@) =~= before.push(tv));
        }
        i += 1;
    }
    assert(lv.take(i as int) =~= lv);
    crate::ordered::to_strings(&kept)
}

/// The files that `git show --pretty=format: --name-only <commit>` listed, or why it failed.
pub fn checkpoint_files_from_show(show: &CommandOutcome) -> (res: Result<Vec<String>, String>)
    ensures
        match show {
            CommandOutcome::SpawnFailed(e) => (res matches Err(m) && m@ == "获取 commit 文件列表失败: "@
                + e@),
            CommandOutcome::Exited { success, stdout, stderr } => if *success {
                res matches Ok(files) && crate::ordered::string_views(files@) == output_lines(
                    lines(stdout@),
                )
            } else {
                res matches Err(m) && m@ == "获取 commit 文件列表失败: "@ + trim(stderr@)
            },
        },
{
    match show {
        CommandOutcome::SpawnFailed(e) => {
            let mut m = chars_of("获取 commit 文件列表失败: ");
            append_str(&mut m, e.as_str());
            Err(string_from(&m))
        },
        CommandOutcome::Exited { success, stdout, stderr } => {
            if *success {
                Ok(trimmed_output_lines(stdout.as_str()))
            } else {
                let mut m = chars_of("获取 commit 文件列表失败: ");
                let t = trim_chars(&chars_of(stderr.as_str()));
                append_chars(&mut m, &t);
                Err(string_from(&m))
            }
        },
    }
}

/// The files that a checkpoint commit changed: the project must be a git repository,
/// and `show` is what `git show --pretty=format: --name-only <commit>` gave there.
pub fn get_checkpoint_files(project_path: &str, probe: RepoProbe, show: &CommandOutcome) -> (res:
    Result<Vec<String>, String>)
    ensures
        match repo_error(project_path@, probe) {
            Some(m) => (res matches Err(e) && e@ == m),
            None => match show {
                CommandOutcome::SpawnFailed(e) => (res matches Err(m) && m@
                    == "获取 commit 文件列表失败: "@ + e@),
                CommandOutcome::Exited { success, stdout, stderr } => if *success {
                    res matches Ok(files) && crate::ordered::string_views(files@) == output_lines(
                        lines(stdout@),
                    )
                } else {
                    res matches Err(m) && m@ == "获取 commit 文件列表失败: "@ + trim(stderr@)
                },
            },
        },
{
    match ensure_git_repo(project_path, probe) {
        Err(e) => Err(e),
        Ok(()) => checkpoint_files_from_show(show),
    }
}

/// The message that refuses a restore without a confirmed preview.
pub open spec fn restore_refusal() -> Seq<char> {
    "请先执行恢复预览，并通过 restore_checkpoint_safe 携带 expected_plan_hash 确认恢复"@
}

/// Refuses to restore directly: a restore goes through a preview and its plan hash.
pub fn restore_checkpoint(project_path: &str, commit_hash: &str) -> (res: Result<(), String>)
    ensures
        res matches Err(m) && m@ == restore_refusal(),
{
    Err(string_from(
        &chars_of(
            "请先执行恢复预览，并通过 restore_checkpoint_safe 携带 expected_plan_hash 确认恢复",
        ),
    ))
}

/// The message that refuses to delete a checkpoint.
pub open spec fn delete_refusal() -> Seq<char> {
    "Git 型 checkpoint 不支持直接删除"@
}

/// Refuses to delete: a checkpoint is a git commit.
pub fn delete_checkpoint(project_path: &str, commit_hash: &str) -> (res: Result<(), String>)
    ensures
        res matches Err(m) && m@ == delete_refusal(),
{
    Err(string_from(&chars_of("Git 型 checkpoint 不支持直接删除")))
}

/// Whether a project has changes that are not committed: it must be a git repository,
/// and `status` is what `git status --porcelain` gave there (only its output counts).
pub fn has_uncommitted_changes(probe: RepoProbe, status: &CommandOutcome) -> (res: bool)
    ensures
        res == (probe == RepoProbe::Repo && match status {
            CommandOutcome::SpawnFailed(_) => false,
            CommandOutcome::Exited { stdout, .. } => trim(stdout@).len() > 0,
        }),
{
    if probe != RepoProbe::Repo {
        return false;
    }
    match status {
        CommandOutcome::SpawnFailed(_) => false,
        CommandOutcome::Exited { stdout, .. } => trim_chars(&chars_of(stdout.as_str())).len() > 0,
    }
}

// ---------------------------------------------------------------------------
// Reading checkpoint commits
// ---------------------------------------------------------------------------

/// The value of a line `checkpoint_id: <value>`, trimmed, when it is not empty.
pub open spec fn id_of_line(line: Seq<char>) -> Option<Seq<char>> {
    let t = trim(line);
    if starts_with(t, "checkpoint_id:"@) && trim(t.skip(14)).len() > 0 {
        Some(trim(t.skip(14)))
    } else {
        None
    }
}

/// The first line of `ls` that carries a checkpoint id, read.
pub open spec fn first_id(ls: Seq<Seq<char>>) -> Option<Seq<char>>
    decreases ls.len(),
{
    if ls.len() == 0 {
        None
    } else if id_of_line(ls[0]) is Some {
        id_of_line(ls[0])
    } else {
        first_id(ls.drop_first())
    }
}

/// The checkpoint id that a commit message carries in a `checkpoint_id:` line.
pub fn parse_checkpoint_id(message: &str) -> (res: Option<String>)
    ensures
        match res {
            Some(id) => first_id(lines(message@)) == Some(id@),
            None => first_id(lines(message@)) is None,
        },
{
    proof {
        reveal_strlit("checkpoint_id:");
    }
    let text = chars_of(message);
    let ls = lines_of(&text);
    let ghost lv = views(ls@);
    let mut i: usize = 0;
    assert(lv.skip(0) =~= lv);
    while i < ls.len()
        invariant
            lv == views(ls@),
            lv == lines(message@),
            "checkpoint_id:"@.len() == 14,
            i <= ls.len(),
            first_id(lv) == first_id(lv.skip(i as int)),
        decreases ls.len() - i,
    {
        assert(lv.skip(i as int)[0] == ls[i as int]@);
        assert(lv.skip(i as int).drop_first() =~= lv.skip(i + 1));
        let t = trim_chars(&ls[i]);
        match strip_prefix_str(&t, "checkpoint_id:") {
            Some(rest) => {
                let v = trim_chars(&rest);
                if v.len() > 0 {
                    return Some(string_from(&v));
                }
            },
            None => {},
        }
        i += 1;
    }
    assert(lv.skip(i as int) =~= seq![]);
    None
}

/// A trimmed, non-empty text starts and ends with something other than whitespace.
proof fn lemma_trimmed_ends(s: Seq<char>)
    requires
        s.len() > 0,
        trim(s) == s,
    ensures
        !crate::text::is_ws(s[0]),
        !crate::text::is_ws(s.last()),
        crate::text::trim_start(s) == s,
{
    let t = crate::text::trim_start(s);
    crate::text::lemma_trim_start_suffix(s);
    crate::text::lemma_trim_end_prefix(t);
    assert(trim(s).len() <= t.len());
    assert(t.len() == s.len());
    assert(s.skip(0) =~= s);
    assert(t == s);
    assert(trim_end(t) == t.take(trim_end(t).len() as int));
}

/// The checkpoint id that a checkpoint commit's message records is the one that reading
/// the message finds, when the subject is one line that records no id itself and the id is
/// a single trimmed, non-empty line.
pub proof fn law_checkpoint_id_round_trip(
    subject: Seq<char>,
    checkpoint_id: Seq<char>,
    request_id: Option<Seq<char>>,
)
    requires
        forall|i: int| 0 <= i < subject.len() ==> subject[i] != '\n',
        id_of_line(crate::text::strip_cr(subject)) is None,
        forall|i: int| 0 <= i < checkpoint_id.len() ==> checkpoint_id[i] != '\n',
        checkpoint_id.len() > 0,
        trim(checkpoint_id) == checkpoint_id,
    ensures
        first_id(lines(checkpoint_message(subject, checkpoint_id, request_id))) == Some(checkpoint_id),
{
    reveal_strlit("\n\n");
    reveal_strlit("\n");
    reveal_strlit("checkpoint_id: ");
    reveal_strlit("checkpoint_id:");
    reveal_strlit("\nturn_id: ");
    let p = "checkpoint_id: "@;
    let tail = match given_label(request_id) {
        Some(r) => "\nturn_id: "@ + r,
        None => seq![],
    };
    let line = p + checkpoint_id;
    let rest = "\n\n"@ + line + tail;
    let msg = checkpoint_message(subject, checkpoint_id, request_id);
    assert(msg =~= subject + rest);
    assert forall|i: int| 0 <= i < line.len() implies line[i] != '\n' by {
        if i >= p.len() {
            assert(line[i] == checkpoint_id[i - p.len()]);
        }
    }
    crate::text::lemma_lines_from_no_break(subject, rest, seq![]);
    assert(Seq::<char>::empty() + subject =~= subject);
    assert(rest[0] == '\n');
    assert(rest.drop_first() =~= "\n"@ + (line + tail));
    let rest2 = "\n"@ + (line + tail);
    assert(rest2[0] == '\n');
    assert(rest2.drop_first() =~= line + tail);
    crate::text::lemma_lines_from_no_break(line, tail, seq![]);
    assert(Seq::<char>::empty() + line =~= line);
    lemma_trimmed_ends(checkpoint_id);
    assert(line.last() == checkpoint_id.last());
    assert(crate::text::strip_cr(line) == line);
    let after = crate::text::lines_from(tail, line);
    match given_label(request_id) {
        Some(r) => {
            assert(tail[0] == '\n');
            assert(after == seq![crate::text::strip_cr(line)] + crate::text::lines_from(tail.drop_first(), seq![]));
        },
        None => {
            assert(tail.len() == 0);
            assert(after == seq![line]);
        },
    }
    assert(after[0] == line);
    let ls = lines(msg);
    assert(ls == crate::text::lines_from(rest, subject));
    assert(crate::text::lines_from(rest, subject) == seq![crate::text::strip_cr(subject)]
        + crate::text::lines_from(rest2, seq![]));
    assert(crate::text::lines_from(rest2, seq![]) == seq![crate::text::strip_cr(seq![])]
        + crate::text::lines_from(line + tail, seq![]));
    assert(crate::text::lines_from(line + tail, seq![]) == after);
    assert(ls == seq![crate::text::strip_cr(subject)] + (seq![crate::text::strip_cr(seq![])] + after));
    assert(ls[0] == crate::text::strip_cr(subject));
    assert(ls.drop_first() =~= seq![crate::text::strip_cr(seq![])] + after);
    assert(crate::text::strip_cr(seq![]) =~= Seq::<char>::empty());
    assert(trim(Seq::<char>::empty()) =~= Seq::<char>::empty());
    assert(id_of_line(Seq::<char>::empty()) is None);
    assert(ls.drop_first().drop_first() =~= after);
    // The id line reads back as the id.
    assert(line[0] == 'c');
    assert(crate::text::trim_start(line) == line);
    assert(trim_end(line) == line);
    assert(trim(line) == line);
    assert(line.take(14) =~= "checkpoint_id:"@);
    let after_key = line.skip(14);
    assert(after_key =~= seq![' '] + checkpoint_id);
    assert(crate::text::is_ws(' '));
    assert(after_key.drop_first() =~= checkpoint_id);
    assert(crate::text::trim_start(after_key) == crate::text::trim_start(checkpoint_id));
    assert(trim(after_key) == checkpoint_id);
    assert(id_of_line(line) == Some(checkpoint_id));
    assert(first_id(after) == Some(checkpoint_id));
    assert(ls.drop_first()[0] == Seq::<char>::empty());
    assert(first_id(ls.drop_first()) == first_id(ls.drop_first().drop_first()));
    assert(first_id(ls) == first_id(ls.drop_first()));
}

/// A path that names something inside the project, by the Unix path grammar: not blank,
/// not absolute, and without a `..` component.
pub open spec fn valid_relative_path(path: Seq<char>) -> bool {
    &&& trim(path).len() > 0
    &&& !starts_with(path, "/"@)
    &&& !split_on(path, '/').contains(".."@)
}

/// Whether a selected path may be restored: it stays inside the project.
pub fn is_valid_relative_checkpoint_path(path: &str) -> (res: bool)
    ensures
        res == valid_relative_path(path@),
{
    let p = chars_of(path);
    if trim_chars(&p).len() == 0 || starts_with_str(&p, "/") {
        return false;
    }
    let parts = split_chars(&p, '/');
    let ghost pv = views(parts@);
    let mut i: usize = 0;
    while i < parts.len()
        invariant
            pv == views(parts@),
            pv == split_on(path@, '/'),
            i <= parts.len(),
            forall|j: int| 0 <= j < i ==> pv[j] != ".."@,
        decreases parts.len() - i,
    {
        if chars_eq_str(&parts[i], "..") {
            assert(pv[i as int] == ".."@);
            return false;
        }
        i += 1;
    }
    assert(!pv.contains(".."@)) by {
        if pv.contains(".."@) {
            let j = choose|j: int| 0 <= j < pv.len() && pv[j] == ".."@;
            assert(pv[j] != ".."@);
        }
    }
    true
}

/// The first `n` bytes of `s` (`&s[..n]`, all of `s` when it is shorter); nothing when
/// byte `n` falls inside a character.
pub open spec fn byte_take(s: Seq<char>, n: nat) -> Option<Seq<char>>
    decreases s.len(),
{
    if s.len() == 0 || n == 0 {
        Some(seq![])
    } else if utf8_len(s[0]) <= n {
        match byte_take(s.drop_first(), (n - utf8_len(s[0])) as nat) {
            Some(r) => Some(seq![s[0]] + r),
            None => None,
        }
    } else {
        None
    }
}

/// The first `n` bytes of a string (`&s[..n]`, all of it when it is shorter), which needs
/// a character boundary at byte `n`.
pub fn byte_prefix(s: &str, n: usize) -> (res: String)
    requires
        byte_take(s@, n as nat) is Some,
    ensures
        res@ == byte_take(s@, n as nat)->0,
{
    let c = chars_of(s);
    let mut out: Vec<char> = Vec::new();
    let mut i: usize = 0;
    let mut left: usize = n;
    assert(c@.skip(0) =~= c@);
    assert(out@ + byte_take(s@, n as nat)->0 =~= byte_take(s@, n as nat)->0);
    while i < c.len() && left > 0
        invariant
            i <= c.len(),
            left <= n,
            c@ == s@,
            byte_take(c@.skip(i as int), left as nat) is Some,
            byte_take(s@, n as nat)->0 == out@ + byte_take(c@.skip(i as int), left as nat)->0,
        decreases c.len() - i,
    {
        let ch = c[i];
        let w = char_utf8_len(ch);
        assert(c@.skip(i as int)[0] == ch);
        assert(c@.skip(i as int).drop_first() =~= c@.skip(i + 1));
        let ghost before = out@;
        let ghost tail = byte_take(c@.skip(i + 1), (left - w) as nat)->0;
        out.push(ch);
        assert(before + (seq![ch] + tail) =~= out@ + tail);
        left = left - w;
        i += 1;
    }
    assert(out@ + byte_take(c@.skip(i as int), left as nat)->0 =~= out@);
    string_from(&out)
}

/// The id of a restore plan: `rp_` and the first sixteen bytes of its hash.
pub fn restore_plan_id(plan_hash: &str) -> (res: String)
    requires
        byte_take(plan_hash@, 16) is Some,
    ensures
        res@ == "rp_"@ + byte_take(plan_hash@, 16)->0,
{
    let mut out = chars_of("rp_");
    let p = byte_prefix(plan_hash, 16);
    append_str(&mut out, p.as_str());
    string_from(&out)
}

// ---------------------------------------------------------------------------
// Naming a checkpoint
// ---------------------------------------------------------------------------

/// The id of a checkpoint made at compact UTC time `ts` (`%Y%m%d%H%M%S`) with a fresh
/// UUID's simple form: `cp_<ts>_<first eight characters of the UUID>`.
pub open spec fn checkpoint_id_of(ts: Seq<char>, uuid: Seq<char>) -> Seq<char> {
    "cp_"@ + ts + "_"@ + (if uuid.len() <= 8 {
        uuid
    } else {
        uuid.take(8)
    })
}

/// Builds a checkpoint id from its time and UUID.
pub fn checkpoint_id_from(ts: &str, uuid: &str) -> (res: String)
    ensures
        res@ == checkpoint_id_of(ts@, uuid@),
{
    let mut m = chars_of("cp_");
    append_str(&mut m, ts);
    append_str(&mut m, "_");
    let u = chars_of(uuid);
    let head = if u.len() <= 8 {
        slice_chars(&u, 0, u.len())
    } else {
        slice_chars(&u, 0, 8)
    };
    assert(u@.subrange(0, u.len() as int) =~= u@);
    append_chars(&mut m, &head);
    string_from(&m)
}

/// The id of a rollback event recorded at compact UTC time `ts` with a fresh UUID's simple
/// form: `rb_<ts>_<first eight characters of the UUID>`.
pub open spec fn rollback_event_id_of(ts: Seq<char>, uuid: Seq<char>) -> Seq<char> {
    "rb_"@ + ts + "_"@ + (if uuid.len() <= 8 {
        uuid
    } else {
        uuid.take(8)
    })
}

/// Builds a rollback event id from its time and UUID.
pub fn rollback_event_id_from(ts: &str, uuid: &str) -> (res: String)
    ensures
        res@ == rollback_event_id_of(ts@, uuid@),
{
    let mut m = chars_of("rb_");
    append_str(&mut m, ts);
    append_str(&mut m, "_");
    let u = chars_of(uuid);
    let head = if u.len() <= 8 {
        slice_chars(&u, 0, u.len())
    } else {
        slice_chars(&u, 0, 8)
    };
    assert(u@.subrange(0, u.len() as int) =~= u@);
    append_chars(&mut m, &head);
    string_from(&m)
}

/// A label that was given and is not blank, trimmed.
pub open spec fn given_label(label: Option<Seq<char>>) -> Option<Seq<char>> {
    match label {
        Some(l) => if trim(l).len() > 0 {
            Some(trim(l))
        } else {
            None
        },
        None => None,
    }
}

/// The subject of a checkpoint commit made at UTC time `timestamp`
/// (`%Y-%m-%dT%H:%M:%SZ`): the label when one was given, else "自动检查点" and the local
/// time (`%H:%M:%S`).
pub open spec fn checkpoint_subject(
    timestamp: Seq<char>,
    label: Option<Seq<char>>,
    local_time: Seq<char>,
) -> Seq<char> {
    "iterate-checkpoint:"@ + timestamp + " | "@ + match given_label(label) {
        Some(l) => l,
        None => "自动检查点 "@ + local_time,
    }
}

/// The full message of a checkpoint commit: its subject, a blank line, the checkpoint id
/// and, when a request id was given, the turn it belongs to.
pub open spec fn checkpoint_message(
    subject: Seq<char>,
    checkpoint_id: Seq<char>,
    request_id: Option<Seq<char>>,
) -> Seq<char> {
    subject + "\n\n"@ + "checkpoint_id: "@ + checkpoint_id + match given_label(request_id) {
        Some(r) => "\nturn_id: "@ + r,
        None => seq![],
    }
}

/// The view of an optional string slice.
pub open spec fn opt_view(o: Option<&str>) -> Option<Seq<char>> {
    match o {
        Some(s) => Some(s@),
        None => None,
    }
}

fn given_label_of(label: Option<&str>) -> (res: Option<Vec<char>>)
    ensures
        match res {
            Some(r) => given_label(opt_view(label)) == Some(r@),
            None => given_label(opt_view(label)) is None,
        },
{
    match label {
        Some(l) => {
            let t = trim_chars(&chars_of(l));
            if t.len() > 0 {
                Some(t)
            } else {
                None
            }
        },
        None => None,
    }
}

/// A copy of the label when one was given and it is not blank, trimmed.
pub fn given_label_copy(label: Option<&str>) -> (res: Option<String>)
    ensures
        match res {
            Some(r) => given_label(opt_view(label)) == Some(r@),
            None => given_label(opt_view(label)) is None,
        },
{
    match given_label_of(label) {
        Some(v) => Some(string_from(&v)),
        None => None,
    }
}

/// The subject of a checkpoint commit.
pub fn build_checkpoint_subject(timestamp: &str, label: Option<&str>, local_time: &str) -> (res:
    String)
    ensures
        res@ == checkpoint_subject(timestamp@, opt_view(label), local_time@),
{
    let mut m = chars_of("iterate-checkpoint:");
    append_str(&mut m, timestamp);
    append_str(&mut m, " | ");
    match given_label_of(label) {
        Some(l) => append_chars(&mut m, &l),
        None => {
            append_str(&mut m, "自动检查点 ");
            append_str(&mut m, local_time);
        },
    }
    string_from(&m)
}

/// The full message of a checkpoint commit.
pub fn build_checkpoint_message(subject: &str, checkpoint_id: &str, request_id: Option<&str>) -> (res:
    String)
    ensures
        res@ == checkpoint_message(subject@, checkpoint_id@, opt_view(request_id)),
{
    let mut m = chars_of(subject);
    append_str(&mut m, "\n\n");
    append_str(&mut m, "checkpoint_id: ");
    append_str(&mut m, checkpoint_id);
    match given_label_of(request_id) {
        Some(r) => {
            append_str(&mut m, "\nturn_id: ");
            append_chars(&mut m, &r);
        },
        None => {},
    }
    proof {
        assert(m@ + seq![] =~= m@);
    }
    string_from(&m)
}

// ---------------------------------------------------------------------------
// What a checkpoint commit takes
// ---------------------------------------------------------------------------

/// The pathspecs that keep `rel` out of a commit: the path itself and, unless it is a
/// submodule (a gitlink, which has nothing below it to match), everything below it.
pub open spec fn exclude_specs(rel: Seq<char>, gitlink: bool) -> Seq<Seq<char>> {
    if gitlink {
        seq![":(exclude)"@ + rel]
    } else {
        seq![":(exclude)"@ + rel, ":(exclude)"@ + rel + "/**"@]
    }
}

/// The pathspecs of a checkpoint commit: the whole workspace but the directories that
/// the checkpoint machinery writes.
pub open spec fn commit_paths(knowledge_gitlink: bool, memory_gitlink: bool) -> Seq<Seq<char>> {
    seq!["."@] + exclude_specs(".cunzhi-knowledge"@, knowledge_gitlink) + exclude_specs(
        ".cunzhi-memory"@,
        memory_gitlink,
    )
}

/// Appends the pathspecs that keep `rel` out of a commit.
pub fn push_exclude_pathspec(paths: &mut Vec<String>, rel: &str, gitlink: bool)
    ensures
        crate::ordered::string_views(final(paths)@) == crate::ordered::string_views(old(paths)@)
            + exclude_specs(rel@, gitlink),
{
    let ghost before = crate::ordered::string_views(paths@);
    let mut a = chars_of(":(exclude)");
    append_str(&mut a, rel);
    let ghost av = a@;
    paths.push(string_from(&a));
    assert(crate::ordered::string_views(paths@) =~= before.push(av));
    if !gitlink {
        let mut b = chars_of(":(exclude)");
        append_str(&mut b, rel);
        append_str(&mut b, "/**");
        let ghost bv = b@;
        paths.push(string_from(&b));
        assert(crate::ordered::string_views(paths@) =~= before.push(av).push(bv));
    }
    assert(crate::ordered::string_views(paths@) =~= before + exclude_specs(rel@, gitlink));
}

/// The pathspecs of a checkpoint commit, given whether each generated directory is a
/// submodule.
pub fn checkpoint_commit_paths(knowledge_gitlink: bool, memory_gitlink: bool) -> (res: Vec<String>)
    ensures
        crate::ordered::string_views(res@) == commit_paths(knowledge_gitlink, memory_gitlink),
{
    let mut paths: Vec<String> = Vec::new();
    let dot = string_from(&chars_of("."));
    let ghost dv = dot@;
    paths.push(dot);
    assert(crate::ordered::string_views(paths@) =~= seq![dv]);
    push_exclude_pathspec(&mut paths, ".cunzhi-knowledge", knowledge_gitlink);
    push_exclude_pathspec(&mut paths, ".cunzhi-memory", memory_gitlink);
    paths
}

/// Whether `git ls-files --stage` lists a submodule entry (mode `160000`).
pub open spec fn lists_gitlink(stdout: Seq<char>) -> bool {
    exists|i: int| 0 <= i < lines(stdout).len() && starts_with(#[trigger] lines(stdout)[i], "160000 "@)
}

/// Whether the answer of `git ls-files --stage -- <path>` shows a submodule.
pub open spec fn gitlink_outcome(o: CommandOutcome) -> bool {
    match o {
        CommandOutcome::Exited { success, stdout, .. } => success && lists_gitlink(stdout@),
        CommandOutcome::SpawnFailed(_) => false,
    }
}

/// Reads the answer of `git ls-files --stage -- <path>`: a successful listing with a
/// `160000` entry means the path is a submodule.
pub fn is_gitlink_path(outcome: &CommandOutcome) -> (res: bool)
    ensures
        res == gitlink_outcome(*outcome),
{
    match outcome {
        CommandOutcome::SpawnFailed(_) => false,
        CommandOutcome::Exited { success, stdout, .. } => *success && lists_gitlink_in(stdout.as_str()),
    }
}

fn lists_gitlink_in(stdout: &str) -> (res: bool)
    ensures
        res == lists_gitlink(stdout@),
{
    let text = chars_of(stdout);
    let ls = lines_of(&text);
    let ghost lv = views(ls@);
    let mut i: usize = 0;
    while i < ls.len()
        invariant
            lv == views(ls@),
            lv == lines(stdout@),
            i <= ls.len(),
            forall|j: int| 0 <= j < i ==> !starts_with(#[trigger] lv[j], "160000 "@),
        decreases ls.len() - i,
    {
        if starts_with_str(&ls[i], "160000 ") {
            assert(starts_with(lines(stdout@)[i as int], "160000 "@));
            return true;
        }
        i += 1;
    }
    false
}

// ---------------------------------------------------------------------------
// A locked index
// ---------------------------------------------------------------------------

/// Whether git failed because another process holds the index lock.
pub open spec fn lock_error(stderr: Seq<char>) -> bool {
    contains(stderr, "index.lock"@) || contains(stderr, "Another git process seems to be running"@)
}

/// The error for an index that stayed locked through every retry.
pub open spec fn lock_failure_message(action: Seq<char>, stderr: Seq<char>) -> Seq<char> {
    action
        + " 失败: Git index 被锁定（.git/index.lock）。请先确认没有活跃 git 进程；如果确认无占用且锁文件陈旧，再删除锁文件后重试。原始错误: "@
        + trim(stderr)
}

/// How long to wait before the retry that follows attempt `attempt`, when there is one.
pub open spec fn retry_delay(attempt: nat) -> Option<u64> {
    if attempt == 0 {
        Some(150)
    } else if attempt == 1 {
        Some(500)
    } else if attempt == 2 {
        Some(1000)
    } else {
        None
    }
}

/// What to do with the answer of a git command that may meet a locked index.
#[derive(Clone, Debug)]
pub enum LockRetry {
    /// Take the answer as it is.
    Accept,
    /// Wait this many milliseconds and run the command again.
    RetryAfter(u64),
    /// Give up with this error.
    Fail(String),
}

/// The decision on attempt `attempt` of `action`: a command that could not start fails;
/// one that succeeded, or failed for another reason, is taken; a locked index is retried
/// after 150, 500 and 1000 ms and then reported.
pub open spec fn lock_retry_decision(r: LockRetry, action: Seq<char>, attempt: nat, o: CommandOutcome) -> bool {
    match o {
        CommandOutcome::SpawnFailed(e) => (r matches LockRetry::Fail(m) && m@ == "执行 "@ + action
            + " 失败: "@ + e@),
        CommandOutcome::Exited { success, stderr, .. } => if success || !lock_error(stderr@) {
            r is Accept
        } else {
            match retry_delay(attempt) {
                Some(d) => r == LockRetry::RetryAfter(d),
                None => (r matches LockRetry::Fail(m) && m@ == lock_failure_message(
                    action,
                    stderr@,
                )),
            }
        },
    }
}

/// Decides what to do with the answer of attempt `attempt` of `action`.
pub fn index_lock_retry(action: &str, attempt: usize, outcome: &CommandOutcome) -> (res: LockRetry)
    ensures
        lock_retry_decision(res, action@, attempt as nat, *outcome),
{
    match outcome {
        CommandOutcome::SpawnFailed(e) => {
            let mut m = chars_of("执行 ");
            append_str(&mut m, action);
            append_str(&mut m, " 失败: ");
            append_str(&mut m, e.as_str());
            LockRetry::Fail(string_from(&m))
        },
        CommandOutcome::Exited { success, stderr, .. } => {
            let err = chars_of(stderr.as_str());
            if *success || !(contains_str(&err, "index.lock") || contains_str(
                &err,
                "Another git process seems to be running",
            )) {
                return LockRetry::Accept;
            }
            if attempt == 0 {
                LockRetry::RetryAfter(150)
            } else if attempt == 1 {
                LockRetry::RetryAfter(500)
            } else if attempt == 2 {
                LockRetry::RetryAfter(1000)
            } else {
                LockRetry::Fail(index_lock_failure(action, stderr.as_str()))
            }
        },
    }
}

/// The error for an index that stayed locked.
pub fn index_lock_failure(action: &str, stderr: &str) -> (res: String)
    ensures
        res@ == lock_failure_message(action@, stderr@),
{
    let mut m = chars_of(action);
    append_str(
        &mut m,
        " 失败: Git index 被锁定（.git/index.lock）。请先确认没有活跃 git 进程；如果确认无占用且锁文件陈旧，再删除锁文件后重试。原始错误: ",
    );
    let t = trim_chars(&chars_of(stderr));
    append_chars(&mut m, &t);
    string_from(&m)
}

} // verus!
