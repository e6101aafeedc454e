//! The conversation log: how one exchange with the assistant is written as a block of
//! Markdown, how injected prompts are cut from the user's text, and the records that tie
//! a checkpoint to its turn.
use vstd::prelude::*;

use crate::checkpoint::opt_view;
use crate::ordered::string_views;
use crate::text::{
    append_chars, append_str, chars_eq_str, chars_of, contains, contains_chars, decimal,
    decimal_chars, find, find_char, find_char_from, find_str, join, join_chars, slice_chars,
    split_chars, split_on, starts_with, starts_with_str, string_from, trim, trim_chars, trim_end,
    trim_end_chars, trim_start, trim_start_chars, views,
};

verus! {

broadcast use vstd::string::group_string_axioms;

// ---------------------------------------------------------------------------
// Cutting injected prompts
// ---------------------------------------------------------------------------

/// A line that starts (after leading whitespace) with one of the reminders that the
/// assistant's tooling appends to a reply.
pub open spec fn marker_line(line: Seq<char>) -> bool {
    let t = trim_start(line);
    ||| starts_with(t, "✔️不明白的地方反问我"@)
    ||| starts_with(t, "✔️继续调用 zhi"@)
    ||| starts_with(t, "✔️请记住"@)
    ||| starts_with(t, "✔继续调用 zhi"@)
    ||| starts_with(t, "快捷触发词"@)
}

/// The first line of `s` with its `\n` (`split_inclusive('\n')`), or all of `s`.
pub open spec fn first_line(s: Seq<char>) -> Seq<char> {
    match find_char(s, '\n') {
        Some(k) => s.take(k + 1),
        None => s,
    }
}

/// Where the first reminder line of `s` starts.
pub open spec fn marker_offset(s: Seq<char>) -> Option<int>
    decreases s.len(),
{
    if s.len() == 0 {
        None
    } else {
        let l = first_line(s);
        if marker_line(l) {
            Some(0)
        } else {
            proof {
                crate::frontend_assets::lemma_find_char_bound(s, '\n');
            }
            match marker_offset(s.skip(l.len() as int)) {
                Some(k) => Some(k + l.len()),
                None => None,
            }
        }
    }
}

/// The smaller of two optional positions.
pub open spec fn min_pos(a: Option<int>, b: Option<int>) -> Option<int> {
    match (a, b) {
        (Some(x), Some(y)) => Some(if x <= y {
            x
        } else {
            y
        }),
        (Some(x), None) => Some(x),
        (None, y) => y,
    }
}

/// Where injected text starts: the first injection sentinel or the first reminder line.
pub open spec fn injection_start(s: Seq<char>) -> Option<int> {
    min_pos(
        min_pos(find(s, "<!-- CONTEXT_INJECTION_START -->"@), find(s, "<!-- AUTO_PROMPT_START -->"@)),
        marker_offset(s),
    )
}

/// The user's text without what was injected into it: everything from the first injection
/// sentinel or reminder line on is cut, and trailing whitespace with it.
pub open spec fn stripped_prompt(s: Seq<char>) -> Seq<char> {
    match injection_start(s) {
        Some(p) => trim_end(s.take(p)),
        None => s,
    }
}

/// The reminders that the assistant's tooling appends to a reply, each at the start of a
/// line of its own.
pub open spec fn appended_reminders() -> Seq<Seq<char>> {
    seq!["✔️不明白的地方反问我"@, "✔️继续调用 zhi"@, "✔️请记住"@, "✔继续调用 zhi"@, "快捷触发词"@]
}

/// A line whose text, after leading whitespace, starts with one of those reminders.
pub open spec fn starts_with_reminder(line: Seq<char>) -> bool {
    exists|i: int| 0 <= i < appended_reminders().len() && starts_with(trim_start(line), #[trigger] appended_reminders()[i])
}

/// Once the first `c` is in `p`, what follows `p` does not move it.
proof fn lemma_find_char_in_prefix(p: Seq<char>, y: Seq<char>, c: char)
    requires
        find_char(p, c) is Some,
    ensures
        find_char(p + y, c) == find_char(p, c),
    decreases p.len(),
{
    assert((p + y)[0] == p[0]);
    if p[0] != c {
        assert((p + y).drop_first() =~= p.drop_first() + y);
        lemma_find_char_in_prefix(p.drop_first(), y, c);
    }
}

/// Leading whitespace of a text that has more than whitespace is cut from its start only.
proof fn lemma_trim_start_append(a: Seq<char>, b: Seq<char>)
    requires
        trim_start(a).len() > 0,
    ensures
        trim_start(a + b) == trim_start(a) + b,
    decreases a.len(),
{
    assert((a + b)[0] == a[0]);
    if crate::text::is_ws(a[0]) {
        assert((a + b).drop_first() =~= a.drop_first() + b);
        lemma_trim_start_append(a.drop_first(), b);
    }
}

/// A reminder line holds more than whitespace.
proof fn lemma_reminder_visible(line: Seq<char>)
    requires
        starts_with_reminder(line),
    ensures
        trim_start(line).len() > 0,
        line.len() > 0,
{
    reveal_strlit("✔️不明白的地方反问我");
    reveal_strlit("✔️继续调用 zhi");
    reveal_strlit("✔️请记住");
    reveal_strlit("✔继续调用 zhi");
    reveal_strlit("快捷触发词");
    let i = choose|i: int| 0 <= i < appended_reminders().len() && starts_with(trim_start(line), #[trigger] appended_reminders()[i]);
    assert(appended_reminders()[i].len() > 0);
    crate::text::lemma_trim_start_suffix(line);
}

/// A reminder line followed by anything is a reminder line.
proof fn lemma_reminder_prefix(line: Seq<char>, z: Seq<char>)
    requires
        starts_with_reminder(line),
    ensures
        marker_line(line + z),
{
    lemma_reminder_visible(line);
    let t = trim_start(line);
    lemma_trim_start_append(line, z);
    assert(trim_start(line + z) == t + z);
    let u = t + z;
    let i = choose|i: int| 0 <= i < appended_reminders().len() && starts_with(t, #[trigger] appended_reminders()[i]);
    let m = appended_reminders()[i];
    assert(u.take(m.len() as int) =~= t.take(m.len() as int));
    assert(starts_with(u, m));
    if i == 0 {
        assert(m == "✔️不明白的地方反问我"@);
    } else if i == 1 {
        assert(m == "✔️继续调用 zhi"@);
    } else if i == 2 {
        assert(m == "✔️请记住"@);
    } else if i == 3 {
        assert(m == "✔继续调用 zhi"@);
    } else {
        assert(m == "快捷触发词"@);
    }
}

/// The first reminder line is found at or before a reminder line that follows whole lines.
proof fn lemma_marker_found_by(p: Seq<char>, line: Seq<char>, rest: Seq<char>)
    requires
        p.len() == 0 || p.last() == '\n',
        forall|i: int| 0 <= i < line.len() ==> line[i] != '\n',
        starts_with_reminder(line),
    ensures
        marker_offset(p + line + rest) matches Some(k) && 0 <= k <= p.len(),
    decreases p.len(),
{
    let s = p + line + rest;
    if p.len() == 0 {
        assert(s =~= line + rest);
        lemma_reminder_visible(line);
        crate::frontend_assets::lemma_find_char_bound(s, '\n');
        let l = first_line(s);
        match find_char(s, '\n') {
            Some(k) => {
                assert(k >= line.len()) by {
                    if k < line.len() {
                        assert(s[k] == line[k]);
                    }
                }
                assert(l =~= line + rest.take(k + 1 - line.len()));
                lemma_reminder_prefix(line, rest.take(k + 1 - line.len()));
            },
            None => {
                assert(l =~= line + rest);
                lemma_reminder_prefix(line, rest);
            },
        }
    } else {
        crate::frontend_assets::lemma_find_char_bound(p, '\n');
        if find_char(p, '\n') is None {
            assert(false) by {
                lemma_find_char_none(p, '\n');
            }
        }
        let j = find_char(p, '\n').unwrap();
        lemma_find_char_in_prefix(p, line + rest, '\n');
        assert(s =~= p + (line + rest));
        let l = first_line(s);
        assert(l =~= p.take(j + 1));
        if !marker_line(l) {
            let p2 = p.skip(j + 1);
            assert(s.skip(l.len() as int) =~= p2 + line + rest);
            if p2.len() > 0 {
                assert(p2.last() == p.last());
            }
            lemma_marker_found_by(p2, line, rest);
        }
    }
}

/// A text that ends with `c` holds it.
proof fn lemma_find_char_none(p: Seq<char>, c: char)
    requires
        p.len() > 0,
        p.last() == c,
    ensures
        find_char(p, c) is Some,
    decreases p.len(),
{
    if p[0] != c {
        assert(p.drop_first().last() == c);
        lemma_find_char_none(p.drop_first(), c);
    }
}

/// A reminder line cuts the user's text: when whole lines `p` are followed by a line that
/// starts (after leading whitespace) with one of the reminders, what is logged of
/// `p + line + rest` is a beginning of `p`; nothing from the reminder line on is kept.
pub proof fn law_reminder_line_cuts_prompt(p: Seq<char>, line: Seq<char>, rest: Seq<char>)
    requires
        p.len() == 0 || p.last() == '\n',
        forall|i: int| 0 <= i < line.len() ==> line[i] != '\n',
        starts_with_reminder(line),
    ensures
        stripped_prompt(p + line + rest).len() <= p.len(),
        stripped_prompt(p + line + rest) == p.take(stripped_prompt(p + line + rest).len() as int),
{
    let s = p + line + rest;
    lemma_marker_found_by(p, line, rest);
    crate::text::lemma_find_first(s, "<!-- CONTEXT_INJECTION_START -->"@);
    crate::text::lemma_find_first(s, "<!-- AUTO_PROMPT_START -->"@);
    let c = injection_start(s).unwrap();
    assert(0 <= c <= p.len());
    assert(s.take(c) =~= p.take(c));
    crate::text::lemma_trim_end_prefix(p.take(c));
    assert(p.take(c).take(stripped_prompt(s).len() as int) =~= p.take(stripped_prompt(s).len() as int));
}

fn marker_line_at(s: &Vec<char>, from: usize, to: usize) -> (res: bool)
    requires
        from <= to <= s.len(),
    ensures
        res == marker_line(s@.subrange(from as int, to as int)),
{
    let line = slice_chars(s, from, to);
    let t = trim_start_chars(&line);
    starts_with_str(&t, "✔️不明白的地方反问我") || starts_with_str(&t, "✔️继续调用 zhi")
        || starts_with_str(&t, "✔️请记住") || starts_with_str(&t, "✔继续调用 zhi")
        || starts_with_str(&t, "快捷触发词")
}

fn marker_offset_of(s: &Vec<char>) -> (res: Option<usize>)
    ensures
        match res {
            Some(k) => marker_offset(s@) == Some(k as int) && k <= s.len(),
            None => marker_offset(s@) is None,
        },
{
    let mut pos: usize = 0;
    assert(s@.skip(0) =~= s@);
    while pos < s.len()
        invariant
            pos <= s.len(),
            marker_offset(s@) == match marker_offset(s@.skip(pos as int)) {
                Some(k) => Some(k + pos),
                None => None::<int>,
            },
        decreases s.len() - pos,
    {
        let ghost rest = s@.skip(pos as int);
        let end = match find_char_from(s, '\n', pos) {
            Some(k) => k + 1,
            None => s.len(),
        };
        assert(first_line(rest) =~= s@.subrange(pos as int, end as int));
        if marker_line_at(s, pos, end) {
            return Some(pos);
        }
        assert(rest.skip(end - pos) =~= s@.skip(end as int));
        pos = end;
    }
    assert(s@.skip(pos as int) =~= seq![]);
    None
}

fn min_of(a: Option<usize>, b: Option<usize>) -> (res: Option<usize>)
    ensures
        match res {
            Some(x) => min_pos(
                match a {
                    Some(v) => Some(v as int),
                    None => None,
                },
                match b {
                    Some(v) => Some(v as int),
                    None => None,
                },
            ) == Some(x as int),
            None => a is None && b is None,
        },
        res matches Some(x) ==> a == Some(x) || b == Some(x),
{
    match (a, b) {
        (Some(x), Some(y)) => Some(if x <= y {
            x
        } else {
            y
        }),
        (Some(x), None) => Some(x),
        (None, y) => y,
    }
}

/// The user's text without the prompts that tooling injected into it.
pub fn strip_auto_prompt(input: &str) -> (res: String)
    ensures
        res@ == stripped_prompt(input@),
{
    let s = chars_of(input);
    let a = find_str(&s, "<!-- CONTEXT_INJECTION_START -->");
    let b = find_str(&s, "<!-- AUTO_PROMPT_START -->");
    let m = marker_offset_of(&s);
    let cut = min_of(min_of(a, b), m);
    match cut {
        Some(p) => {
            assert(s@.subrange(0, p as int) =~= s@.take(p as int));
            string_from(&trim_end_chars(&slice_chars(&s, 0, p)))
        },
        None => string_from(&s),
    }
}

// ---------------------------------------------------------------------------
// One exchange
// ---------------------------------------------------------------------------

/// One exchange to be logged.
#[derive(Debug)]
pub struct ConversationEntry {
    pub conversation_id: Option<String>,
    pub current_node_id: Option<String>,
    pub timeline_route_id: Option<String>,
    pub run_id: Option<String>,
    pub generation: Option<u64>,
    pub stale_of: Option<String>,
    pub superseded_by: Option<String>,
    pub ai_message: String,
    pub user_response: String,
    pub project_path: Option<String>,
    pub image_count: usize,
    pub file_paths: Vec<String>,
    pub image_paths: Vec<String>,
    pub selected_options: Vec<String>,
    pub request_id: Option<String>,
    pub checkpoint_id: Option<String>,
    pub checkpoint_commit: Option<String>,
    pub push_status: Option<String>,
    pub response_source: Option<String>,
    /// The subject of the workspace checkpoint made before this turn, if one was.
    pub workspace_checkpoint_message: Option<String>,
}

/// The view of an optional `String`.
pub open spec fn sopt(o: Option<String>) -> Option<Seq<char>> {
    match o {
        Some(s) => Some(s@),
        None => None,
    }
}

/// What the user said, as logged: the reply without injected prompts, trimmed; else the
/// options the user chose; else nothing.
pub open spec fn user_section(user_response: Seq<char>, options: Seq<Seq<char>>) -> Option<Seq<char>> {
    let cleaned = trim(stripped_prompt(user_response));
    if cleaned.len() > 0 {
        Some(cleaned)
    } else if options.len() > 0 {
        Some("选中的选项: "@ + join(options, ", "@))
    } else {
        None
    }
}

/// What the user said in an exchange, as logged.
pub fn build_user_section(entry: &ConversationEntry) -> (res: Option<String>)
    ensures
        sopt(res) == user_section(entry.user_response@, string_views(entry.selected_options@)),
{
    let stripped = strip_auto_prompt(entry.user_response.as_str());
    let cleaned = trim_chars(&chars_of(stripped.as_str()));
    if cleaned.len() > 0 {
        return Some(string_from(&cleaned));
    }
    if entry.selected_options.len() > 0 {
        let opts = crate::ordered::chars_vecs(&entry.selected_options);
        let mut m = chars_of("选中的选项: ");
        let list = join_chars(&opts, ", ");
        append_chars(&mut m, &list);
        return Some(string_from(&m));
    }
    None
}

/// The paths, trimmed, that are not blank and that `text` does not already mention.
pub open spec fn missing_paths(paths: Seq<Seq<char>>, text: Seq<char>) -> Seq<Seq<char>>
    decreases paths.len(),
{
    if paths.len() == 0 {
        seq![]
    } else {
        let p = trim(paths.last());
        if p.len() > 0 && !contains(text, p) {
            missing_paths(paths.drop_last(), text).push(p)
        } else {
            missing_paths(paths.drop_last(), text)
        }
    }
}

/// The attached paths that the logged text does not mention yet.
pub fn paths_missing_from_text(paths: &Vec<String>, existing_text: Option<&str>) -> (res: Vec<String>)
    ensures
        string_views(res@) == missing_paths(
            string_views(paths@),
            match existing_text {
                Some(t) => t@,
                None => seq![],
            },
        ),
{
    let text = match existing_text {
        Some(t) => chars_of(t),
        None => Vec::new(),
    };
    let ghost pv = string_views(paths@);
    let mut out: Vec<Vec<char>> = Vec::new();
    let mut i: usize = 0;
    assert(pv.take(0) =~= seq![]);
    while i < paths.len()
        invariant
            pv == string_views(paths@),
            i <= paths.len(),
            views(out@) == missing_paths(pv.take(i as int), text@),
        decreases paths.len() - i,
    {
        assert(pv.take(i + 1).drop_last() =~= pv.take(i as int));
        assert(pv.take(i + 1).last() == paths@[i as int]@);
        let p = trim_chars(&chars_of(paths[i].as_str()));
        if p.len() > 0 && !contains_chars(&text, &p) {
            let ghost before = views(out@);
            let ghost v = p@;
            out.push(p);
            assert(views(out@) =~= before.push(v));
        }
        i += 1;
    }
    assert(pv.take(i as int) =~= pv);
    crate::ordered::to_strings(&out)
}

/// The lines `- <path>` of the paths that are not blank, trimmed.
pub open spec fn path_lines(paths: Seq<Seq<char>>) -> Seq<Seq<char>>
    decreases paths.len(),
{
    if paths.len() == 0 {
        seq![]
    } else if trim(paths.last()).len() > 0 {
        path_lines(paths.drop_last()).push("- "@ + trim(paths.last()))
    } else {
        path_lines(paths.drop_last())
    }
}

/// A labelled list of paths, or nothing when no path is left.
pub open spec fn path_block(label: Seq<char>, paths: Seq<Seq<char>>) -> Option<Seq<char>> {
    if path_lines(paths).len() == 0 {
        None
    } else {
        Some(label + "：\n"@ + join(path_lines(paths), "\n"@))
    }
}

/// A labelled list of paths: `<label>：` and a line `- <path>` for each path that is not
/// blank; nothing when none is left.
pub fn format_path_block(label: &str, paths: &Vec<String>) -> (res: Option<String>)
    ensures
        sopt(res) == path_block(label@, string_views(paths@)),
{
    let ghost pv = string_views(paths@);
    let mut lines: Vec<Vec<char>> = Vec::new();
    let mut i: usize = 0;
    assert(pv.take(0) =~= seq![]);
    while i < paths.len()
        invariant
            pv == string_views(paths@),
            i <= paths.len(),
            views(lines@) == path_lines(pv.take(i as int)),
        decreases paths.len() - i,
    {
        assert(pv.take(i + 1).drop_last() =~= pv.take(i as int));
        assert(pv.take(i + 1).last() == paths@[i as int]@);
        let p = trim_chars(&chars_of(paths[i].as_str()));
        if p.len() > 0 {
            let mut line = chars_of("- ");
            append_chars(&mut line, &p);
            let ghost before = views(lines@);
            let ghost v = line@;
            lines.push(line);
            assert(views(lines@) =~= before.push(v));
        }
        i += 1;
    }
    assert(pv.take(i as int) =~= pv);
    if lines.len() == 0 {
        return None;
    }
    let mut m = chars_of(label);
    append_str(&mut m, "：\n");
    let body = join_chars(&lines, "\n");
    append_chars(&mut m, &body);
    Some(string_from(&m))
}

// ---------------------------------------------------------------------------
// Where the log goes
// ---------------------------------------------------------------------------

/// The components of a Unix path that name something: not empty and not `.`.
pub open spec fn named_parts(parts: Seq<Seq<char>>) -> Seq<Seq<char>>
    decreases parts.len(),
{
    if parts.len() == 0 {
        seq![]
    } else if parts.last().len() > 0 && parts.last() != "."@ {
        named_parts(parts.drop_last()).push(parts.last())
    } else {
        named_parts(parts.drop_last())
    }
}

/// The last component of a Unix path (`Path::file_name`): nothing for a path that ends in
/// `..` or has no named component.
pub open spec fn file_name(path: Seq<char>) -> Option<Seq<char>> {
    let ps = named_parts(split_on(path, '/'));
    if ps.len() == 0 || ps.last() == ".."@ {
        None
    } else {
        Some(ps.last())
    }
}

/// The name of a project in the log: the last component of its path, or `unknown`.
pub open spec fn project_name(project_path: Option<Seq<char>>) -> Seq<char> {
    match project_path {
        Some(p) => if trim(p).len() > 0 {
            match file_name(p) {
                Some(n) => n,
                None => "unknown"@,
            }
        } else {
            "unknown"@
        },
        None => "unknown"@,
    }
}

/// The name of a project in the log: the last component of its path, or `unknown`.
pub fn resolve_project_name(project_path: Option<&str>) -> (res: String)
    ensures
        res@ == project_name(opt_view(project_path)),
{
    let p = match project_path {
        Some(p) => chars_of(p),
        None => {
            return string_from(&chars_of("unknown"));
        },
    };
    if trim_chars(&p).len() == 0 {
        return string_from(&chars_of("unknown"));
    }
    let parts = split_chars(&p, '/');
    let ghost pv = views(parts@);
    let mut named: Vec<Vec<char>> = Vec::new();
    let mut i: usize = 0;
    assert(pv.take(0) =~= seq![]);
    while i < parts.len()
        invariant
            pv == views(parts@),
            i <= parts.len(),
            views(named@) == named_parts(pv.take(i as int)),
        decreases parts.len() - i,
    {
        assert(pv.take(i + 1).drop_last() =~= pv.take(i as int));
        assert(pv.take(i + 1).last() == parts@[i as int]@);
        if parts[i].len() > 0 && !chars_eq_str(&parts[i], ".") {
            let c = slice_chars(&parts[i], 0, parts[i].len());
            assert(c@ =~= parts@[i as int]@);
            let ghost before = views(named@);
            named.push(c);
            assert(views(named@) =~= before.push(parts@[i as int]@));
        }
        i += 1;
    }
    assert(pv.take(i as int) =~= pv);
    if named.len() == 0 {
        return string_from(&chars_of("unknown"));
    }
    let last = &named[named.len() - 1];
    assert(views(named@).last() == last@);
    if chars_eq_str(last, "..") {
        return string_from(&chars_of("unknown"));
    }
    string_from(last)
}

/// The device in the log: the host name up to its first `.` (`unknown` when `hostname`
/// could not run).
pub open spec fn device_id(hostname_output: Option<Seq<char>>) -> Seq<char> {
    match hostname_output {
        Some(out) => split_on(trim(trim(out)), '.')[0],
        None => "unknown"@,
    }
}

/// The device in the log, from what `hostname` printed (nothing when it could not run).
pub fn resolve_device_id(hostname_output: Option<&str>) -> (res: String)
    ensures
        res@ == device_id(opt_view(hostname_output)),
{
    match hostname_output {
        Some(out) => {
            let t = trim_chars(&trim_chars(&chars_of(out)));
            let parts = split_chars(&t, '.');
            proof {
                crate::text::lemma_split_nonempty(t@, '.');
            }
            string_from(&parts[0])
        },
        None => string_from(&chars_of("unknown")),
    }
}

/// The file of the day's log of a project on a device: `<project>__<device>.md`.
pub fn conversation_file_name(project_name: &str, device_id: &str) -> (res: String)
    ensures
        res@ == project_name@ + "__"@ + device_id@ + ".md"@,
{
    let mut m = chars_of(project_name);
    append_str(&mut m, "__");
    append_str(&mut m, device_id);
    append_str(&mut m, ".md");
    string_from(&m)
}

/// The message of the commit that saves the day's log: `auto: conversation <date>_<time>`.
pub fn conversation_commit_message(date_str: &str, time_str: &str) -> (res: String)
    ensures
        res@ == "auto: conversation "@ + date_str@ + "_"@ + time_str@,
{
    let mut m = chars_of("auto: conversation ");
    append_str(&mut m, date_str);
    append_str(&mut m, "_");
    append_str(&mut m, time_str);
    string_from(&m)
}

/// Kept for callers that flush the log: every block is on disk when it is appended, so
/// there is nothing to do.
pub fn force_sync_conversations() {
}

// ---------------------------------------------------------------------------
// Records in JSON
// ---------------------------------------------------------------------------

/// A lowercase hexadecimal digit of a value below 16.
pub open spec fn lower_hex_digit(d: u32) -> char {
    if d < 10 {
        (('0' as u32) + d) as char
    } else {
        (('a' as u32) + d - 10) as char
    }
}

/// How JSON writes one character of a string: the quote and the backslash behind a
/// backslash, backspace, tab, line feed, form feed and carriage return by their letter
/// behind a backslash, the other characters below U+0020 as `\u00` and two lowercase
/// hexadecimal digits, and every other character as it is.
pub open spec fn json_char(c: char) -> Seq<char> {
    if c == '"' {
        seq!['\\', '"']
    } else if c == '\\' {
        seq!['\\', '\\']
    } else if c == '\u{8}' {
        seq!['\\', 'b']
    } else if c == '\t' {
        seq!['\\', 't']
    } else if c == '\n' {
        seq!['\\', 'n']
    } else if c == '\u{c}' {
        seq!['\\', 'f']
    } else if c == '\r' {
        seq!['\\', 'r']
    } else if (c as u32) < 0x20 {
        seq!['\\', 'u', '0', '0', lower_hex_digit((c as u32) / 16), lower_hex_digit((c as u32) % 16)]
    } else {
        seq![c]
    }
}

/// The characters of `s` as JSON writes them inside a string.
pub open spec fn json_escaped(s: Seq<char>) -> Seq<char>
    decreases s.len(),
{
    if s.len() == 0 {
        seq![]
    } else {
        json_escaped(s.drop_last()) + json_char(s.last())
    }
}

/// The JSON text of a string: its escaped characters between double quotes.
pub open spec fn json_quoted(s: Seq<char>) -> Seq<char> {
    seq!['"'] + json_escaped(s) + seq!['"']
}

/// `serde_json::to_string` of a string slice: its JSON text, the characters escaped as the
/// crate's escape table and `write_char_escape` do it (`json_quoted`). Serializing a
/// string into memory cannot fail in the crate, so the error arm is never taken.
#[verifier::external_body]
pub(crate) fn json_string(s: &str) -> (res: String)
    ensures
        res@ == json_quoted(s@),
{
    match serde_json::to_string(s) {
        Ok(t) => t,
        Err(_) => String::new(),
    }
}

/// A member `"key":value` of a JSON object, when the value is there.
pub open spec fn member(key: Seq<char>, value: Option<Seq<char>>) -> Seq<Seq<char>> {
    match value {
        Some(v) => seq!["\""@ + key + "\":"@ + json_quoted(v)],
        None => seq![],
    }
}

/// The members of the metadata of a logged block, in order, those without a value left out.
pub open spec fn meta_members(e: ConversationEntry) -> Seq<Seq<char>> {
    seq!["\"schema\":"@ + json_quoted("cunzhi.conversation.v1"@)] + member(
        "conversation_id"@,
        sopt(e.conversation_id),
    ) + member("current_node_id"@, sopt(e.current_node_id)) + member(
        "request_id"@,
        sopt(e.request_id),
    ) + member("timeline_route_id"@, sopt(e.timeline_route_id)) + member(
        "run_id"@,
        sopt(e.run_id),
    ) + match e.generation {
        Some(g) => seq!["\"generation\":"@ + decimal(g as nat)],
        None => seq![],
    } + member("stale_of"@, sopt(e.stale_of)) + member("superseded_by"@, sopt(e.superseded_by))
        + member("checkpoint_id"@, sopt(e.checkpoint_id)) + member(
        "checkpoint_commit"@,
        sopt(e.checkpoint_commit),
    ) + member("response_source"@, sopt(e.response_source)) + member(
        "project_path"@,
        sopt(e.project_path),
    )
}

/// `s` with every `--` (left to right, not overlapping) written as `\u002d\u002d`, so that
/// it cannot end an HTML comment.
pub open spec fn escape_dashes(s: Seq<char>) -> Seq<char>
    decreases s.len(),
{
    if s.len() >= 2 && s[0] == '-' && s[1] == '-' {
        "\\u002d\\u002d"@ + escape_dashes(s.skip(2))
    } else if s.len() == 0 {
        seq![]
    } else {
        seq![s[0]] + escape_dashes(s.drop_first())
    }
}

/// The comment that carries a block's metadata as JSON.
pub open spec fn meta_comment(e: ConversationEntry) -> Seq<char> {
    "<!-- cunzhi-meta: "@ + escape_dashes("{"@ + join(meta_members(e), ","@) + "}"@) + " -->"@
}

fn push_member(members: &mut Vec<Vec<char>>, key: &str, value: &Option<String>)
    ensures
        views(final(members)@) == views(old(members)@) + member(key@, sopt(*value)),
{
    match value {
        Some(v) => {
            let mut m = chars_of("\"");
            append_str(&mut m, key);
            append_str(&mut m, "\":");
            let q = json_string(v.as_str());
            append_str(&mut m, q.as_str());
            let ghost before = views(members@);
            let ghost mv = m@;
            members.push(m);
            assert(views(members@) =~= before + seq![mv]);
        },
        None => {
            assert(views(members@) + seq![] =~= views(members@));
        },
    }
}

fn escape_dashes_of(s: &Vec<char>) -> (res: Vec<char>)
    ensures
        res@ == escape_dashes(s@),
{
    let mut out: Vec<char> = Vec::new();
    let mut i: usize = 0;
    assert(s@.skip(0) =~= s@);
    assert(out@ + escape_dashes(s@.skip(0)) =~= escape_dashes(s@));
    while i < s.len()
        invariant
            i <= s.len(),
            out@ + escape_dashes(s@.skip(i as int)) == escape_dashes(s@),
        decreases s.len() - i,
    {
        let ghost rest = s@.skip(i as int);
        if i + 1 < s.len() && s[i] == '-' && s[i + 1] == '-' {
            let ghost before = out@;
            append_str(&mut out, "\\u002d\\u002d");
            assert(rest.skip(2) =~= s@.skip(i + 2));
            assert(before + ("\\u002d\\u002d"@ + escape_dashes(rest.skip(2))) =~= out@ + escape_dashes(
                s@.skip(i + 2),
            ));
            i += 2;
        } else {
            let ghost before = out@;
            out.push(s[i]);
            assert(rest.drop_first() =~= s@.skip(i + 1));
            assert(before + (seq![s@[i as int]] + escape_dashes(rest.drop_first())) =~= out@
                + escape_dashes(s@.skip(i + 1)));
            i += 1;
        }
    }
    assert(s@.skip(i as int) =~= seq![]);
    assert(out@ + seq![] =~= out@);
    out
}

/// The comment that carries a block's metadata: the JSON object of the schema and every
/// id the entry has, with `--` escaped.
pub fn build_conversation_meta_comment(entry: &ConversationEntry) -> (res: String)
    ensures
        res@ == meta_comment(*entry),
{
    let mut members: Vec<Vec<char>> = Vec::new();
    let mut first = chars_of("\"schema\":");
    let q = json_string("cunzhi.conversation.v1");
    append_str(&mut first, q.as_str());
    let ghost fv = first@;
    members.push(first);
    assert(views(members@) =~= seq![fv]);
    push_member(&mut members, "conversation_id", &entry.conversation_id);
    push_member(&mut members, "current_node_id", &entry.current_node_id);
    push_member(&mut members, "request_id", &entry.request_id);
    push_member(&mut members, "timeline_route_id", &entry.timeline_route_id);
    push_member(&mut members, "run_id", &entry.run_id);
    match entry.generation {
        Some(g) => {
            let mut m = chars_of("\"generation\":");
            let d = decimal_chars(g);
            append_chars(&mut m, &d);
            let ghost before = views(members@);
            let ghost mv = m@;
            members.push(m);
            assert(views(members@) =~= before + seq![mv]);
        },
        None => {
            assert(views(members@) + seq![] =~= views(members@));
        },
    }
    push_member(&mut members, "stale_of", &entry.stale_of);
    push_member(&mut members, "superseded_by", &entry.superseded_by);
    push_member(&mut members, "checkpoint_id", &entry.checkpoint_id);
    push_member(&mut members, "checkpoint_commit", &entry.checkpoint_commit);
    push_member(&mut members, "response_source", &entry.response_source);
    push_member(&mut members, "project_path", &entry.project_path);
    let mut obj = chars_of("{");
    let body = join_chars(&members, ",");
    append_chars(&mut obj, &body);
    append_str(&mut obj, "}");
    let escaped = escape_dashes_of(&obj);
    let mut c = chars_of("<!-- cunzhi-meta: ");
    append_chars(&mut c, &escaped);
    append_str(&mut c, " -->");
    proof {
        assert(views(members@) =~= meta_members(*entry));
    }
    string_from(&c)
}

/// A member whose value is a string or `null`.
pub open spec fn nullable(key: Seq<char>, value: Option<Seq<char>>) -> Seq<char> {
    "\""@ + key + "\":"@ + match value {
        Some(v) => json_quoted(v),
        None => "null"@,
    }
}

/// The line of the checkpoint registry for an exchange, when the exchange carries a
/// project, a request, a checkpoint id, its commit and its subject.
pub open spec fn registry_line(e: ConversationEntry, logged_at: Seq<char>) -> Option<Seq<char>> {
    match (e.project_path, e.request_id, e.checkpoint_id, e.checkpoint_commit, e.workspace_checkpoint_message) {
        (Some(p), Some(r), Some(id), Some(commit), Some(msg)) => Some(
            "{"@ + join(
                seq![
                    nullable("conversation_id"@, sopt(e.conversation_id)),
                    nullable("request_id"@, Some(r@)),
                    nullable("checkpoint_id"@, Some(id@)),
                    nullable("checkpoint_commit"@, Some(commit@)),
                    nullable("checkpoint_message"@, Some(msg@)),
                    nullable("push_status"@, sopt(e.push_status)),
                    nullable("project_path"@, Some(p@)),
                    nullable("logged_at"@, Some(logged_at)),
                ],
                ","@,
            ) + "}"@,
        ),
        _ => None,
    }
}

fn nullable_member(key: &str, value: Option<&String>) -> (res: Vec<char>)
    ensures
        res@ == nullable(
            key@,
            match value {
                Some(v) => Some(v@),
                None => None,
            },
        ),
{
    let mut m = chars_of("\"");
    append_str(&mut m, key);
    append_str(&mut m, "\":");
    match value {
        Some(v) => {
            let q = json_string(v.as_str());
            append_str(&mut m, q.as_str());
        },
        None => append_str(&mut m, "null"),
    }
    m
}

/// The JSON line that ties a checkpoint to its turn in `.cunzhi-memory/checkpoints.jsonl`,
/// logged at `logged_at`; nothing when the exchange lacks one of the ids.
pub fn checkpoint_registry_line(entry: &ConversationEntry, logged_at: &str) -> (res: Option<String>)
    ensures
        sopt(res) == registry_line(*entry, logged_at@),
{
    let p = match &entry.project_path {
        Some(v) => v,
        None => {
            return None;
        },
    };
    let r = match &entry.request_id {
        Some(v) => v,
        None => {
            return None;
        },
    };
    let id = match &entry.checkpoint_id {
        Some(v) => v,
        None => {
            return None;
        },
    };
    let commit = match &entry.checkpoint_commit {
        Some(v) => v,
        None => {
            return None;
        },
    };
    let msg = match &entry.workspace_checkpoint_message {
        Some(v) => v,
        None => {
            return None;
        },
    };
    let logged = string_from(&chars_of(logged_at));
    let mut members: Vec<Vec<char>> = Vec::new();
    members.push(nullable_member("conversation_id", entry.conversation_id.as_ref()));
    members.push(nullable_member("request_id", Some(r)));
    members.push(nullable_member("checkpoint_id", Some(id)));
    members.push(nullable_member("checkpoint_commit", Some(commit)));
    members.push(nullable_member("checkpoint_message", Some(msg)));
    members.push(nullable_member("push_status", entry.push_status.as_ref()));
    members.push(nullable_member("project_path", Some(p)));
    members.push(nullable_member("logged_at", Some(&logged)));
    let mut line = chars_of("{");
    let body = join_chars(&members, ",");
    append_chars(&mut line, &body);
    append_str(&mut line, "}");
    proof {
        assert(views(members@) =~= seq![
            nullable("conversation_id"@, sopt(entry.conversation_id)),
            nullable("request_id"@, Some(r@)),
            nullable("checkpoint_id"@, Some(id@)),
            nullable("checkpoint_commit"@, Some(commit@)),
            nullable("checkpoint_message"@, Some(msg@)),
            nullable("push_status"@, sopt(entry.push_status)),
            nullable("project_path"@, Some(p@)),
            nullable("logged_at"@, Some(logged_at@)),
        ]);
    }
    Some(string_from(&line))
}

// ---------------------------------------------------------------------------
// The block of one exchange
// ---------------------------------------------------------------------------

/// Text that is there unless a condition fails.
pub open spec fn when(c: bool, s: Seq<char>) -> Seq<char> {
    if c {
        s
    } else {
        seq![]
    }
}

/// A labelled path block set off by blank lines, when there is one.
pub open spec fn block_part(b: Option<Seq<char>>) -> Seq<char> {
    match b {
        Some(x) => "\n"@ + x + "\n"@,
        None => seq![],
    }
}

/// The heading of a block, its metadata comment and the assistant's message.
pub open spec fn block_head(e: ConversationEntry, time_str: Seq<char>, project: Seq<char>) -> Seq<char> {
    "## "@ + time_str + "  @ "@ + project + "\n"@ + meta_comment(e) + "\n\n### 🤖 AI\n"@ + e.ai_message@
        + "\n"@
}

/// The checkpoint subject of the turn, on a line of its own, when there is one.
pub open spec fn block_checkpoint(e: ConversationEntry) -> Seq<char> {
    match sopt(e.workspace_checkpoint_message) {
        Some(m) => when(trim(m).len() > 0, trim(m) + "\n"@),
        None => seq![],
    }
}

/// What the user said, under its heading, when there is something.
pub open spec fn block_user(user: Option<Seq<char>>) -> Seq<char> {
    match user {
        Some(u) => "\n### 👤 用户\n"@ + u + "\n"@,
        None => seq![],
    }
}

/// The number of images, when images came without paths.
pub open spec fn block_image_count(e: ConversationEntry) -> Seq<char> {
    when(
        e.image_count > 0 && e.image_paths@.len() == 0,
        "\n📷 *附图 "@ + decimal(e.image_count as nat) + " 张*\n"@,
    )
}

/// The Markdown block of an exchange logged at local time `time_str`: a heading with the
/// time and project, the metadata comment, the assistant's message, the checkpoint subject
/// of the turn, what the user said, the attached files and images that the user's text
/// does not mention, the number of images when their paths are unknown, and a rule.
pub open spec fn conversation_block(e: ConversationEntry, time_str: Seq<char>, project: Seq<char>) -> Seq<char> {
    let user = user_section(e.user_response@, string_views(e.selected_options@));
    let user_text = match user {
        Some(u) => u,
        None => seq![],
    };
    block_head(e, time_str, project) + block_checkpoint(e) + block_user(user) + block_part(
        path_block("附加文件路径"@, missing_paths(string_views(e.file_paths@), user_text)),
    ) + block_part(
        path_block("附加图片路径"@, missing_paths(string_views(e.image_paths@), user_text)),
    ) + block_image_count(e) + "\n---\n"@
}

fn append_block(content: &mut Vec<char>, block: Option<String>)
    ensures
        final(content)@ == old(content)@ + block_part(sopt(block)),
{
    match block {
        Some(b) => {
            append_str(content, "\n");
            append_str(content, b.as_str());
            append_str(content, "\n");
        },
        None => {
            assert(content@ + seq![] =~= content@);
        },
    }
}

fn head_of(entry: &ConversationEntry, time_str: &str, project_name: &str) -> (res: Vec<char>)
    ensures
        res@ == block_head(*entry, time_str@, project_name@),
{
    let mut c = chars_of("## ");
    append_str(&mut c, time_str);
    append_str(&mut c, "  @ ");
    append_str(&mut c, project_name);
    append_str(&mut c, "\n");
    let meta = build_conversation_meta_comment(entry);
    append_str(&mut c, meta.as_str());
    append_str(&mut c, "\n\n### 🤖 AI\n");
    append_str(&mut c, entry.ai_message.as_str());
    append_str(&mut c, "\n");
    c
}

fn append_checkpoint(c: &mut Vec<char>, entry: &ConversationEntry)
    ensures
        final(c)@ == old(c)@ + block_checkpoint(*entry),
{
    match &entry.workspace_checkpoint_message {
        Some(m) => {
            let t = trim_chars(&chars_of(m.as_str()));
            if t.len() > 0 {
                append_chars(c, &t);
                append_str(c, "\n");
            } else {
                assert(c@ + seq![] =~= c@);
            }
        },
        None => {
            assert(c@ + seq![] =~= c@);
        },
    }
}

fn append_user(c: &mut Vec<char>, user: &Option<String>)
    ensures
        final(c)@ == old(c)@ + block_user(sopt(*user)),
{
    match user {
        Some(u) => {
            append_str(c, "\n### 👤 用户\n");
            append_str(c, u.as_str());
            append_str(c, "\n");
        },
        None => {
            assert(c@ + seq![] =~= c@);
        },
    }
}

fn append_image_count(c: &mut Vec<char>, entry: &ConversationEntry)
    ensures
        final(c)@ == old(c)@ + block_image_count(*entry),
{
    if entry.image_count > 0 && entry.image_paths.len() == 0 {
        append_str(c, "\n📷 *附图 ");
        let d = decimal_chars(entry.image_count as u64);
        append_chars(c, &d);
        append_str(c, " 张*\n");
    } else {
        assert(c@ + seq![] =~= c@);
    }
}

/// The Markdown block of an exchange logged at `time_str` for `project_name`; nothing when
/// the assistant's message is blank, which is not logged.
pub fn build_conversation_block(entry: &ConversationEntry, time_str: &str, project_name: &str) -> (res:
    Option<String>)
    ensures
        trim(entry.ai_message@).len() == 0 ==> res is None,
        trim(entry.ai_message@).len() > 0 ==> (res matches Some(b) && b@ == conversation_block(
            *entry,
            time_str@,
            project_name@,
        )),
{
    if trim_chars(&chars_of(entry.ai_message.as_str())).len() == 0 {
        return None;
    }
    let mut c = head_of(entry, time_str, project_name);
    append_checkpoint(&mut c, entry);
    let user = build_user_section(entry);
    append_user(&mut c, &user);
    let existing: Option<&str> = match &user {
        Some(u) => Some(u.as_str()),
        None => None,
    };
    proof {
        reveal_strlit("");
        assert(""@ =~= Seq::<char>::empty());
    }
    let missing_files = paths_missing_from_text(&entry.file_paths, existing);
    let missing_images = paths_missing_from_text(&entry.image_paths, existing);
    append_block(&mut c, format_path_block("附加文件路径", &missing_files));
    append_block(&mut c, format_path_block("附加图片路径", &missing_images));
    append_image_count(&mut c, entry);
    append_str(&mut c, "\n---\n");
    assert(c@ =~= conversation_block(*entry, time_str@, project_name@));
    Some(string_from(&c))
}

} // verus!
