//! What the MCP server does with a reply from the dialog before it hands it to the
//! assistant: a reply to a goal gets the options, files and images that the user attached
//! and that its text does not mention yet, placed inside the goal's closing `》`, after the
//! legacy image placeholders are taken out.
use vstd::prelude::*;

use crate::conversation_log::{
    format_path_block, missing_paths, path_block, path_lines, paths_missing_from_text, sopt,
};
use crate::checkpoint_run::CheckpointMetadata;
use crate::conversation_log::{stripped_prompt, strip_auto_prompt, ConversationEntry};
use crate::ordered::{chars_vecs, string_views, to_strings};
use crate::text::{
    append_chars, append_str, chars_eq_str, chars_of, contains, contains_str, ends_with,
    ends_with_str, join, join_chars, lines, lines_of, starts_with, starts_with_str, string_from,
    trim, trim_chars, trim_end, trim_end_chars, views,
};

verus! {

broadcast use vstd::string::group_string_axioms;

// ---------------------------------------------------------------------------
// Goal replies
// ---------------------------------------------------------------------------

/// `char::to_ascii_lowercase`.
pub open spec fn ascii_lower_char(c: char) -> char {
    if 'A' <= c && c <= 'Z' {
        ((c as u32) + 32) as char
    } else {
        c
    }
}

/// `str::to_ascii_lowercase`.
pub open spec fn ascii_lower(s: Seq<char>) -> Seq<char> {
    s.map_values(|c: char| ascii_lower_char(c))
}

fn ascii_lower_chars(s: &Vec<char>) -> (res: Vec<char>)
    ensures
        res@ == ascii_lower(s@),
{
    let mut res: Vec<char> = Vec::new();
    let mut i: usize = 0;
    while i < s.len()
        invariant
            i <= s.len(),
            res@ == ascii_lower(s@.take(i as int)),
        decreases s.len() - i,
    {
        let c = s[i];
        let l = if 'A' <= c && c <= 'Z' {
            char_from_u32_lower(c)
        } else {
            c
        };
        res.push(l);
        assert(ascii_lower(s@.take(i + 1)) =~= ascii_lower(s@.take(i as int)).push(
            ascii_lower_char(s@[i as int]),
        ));
        i += 1;
    }
    assert(s@.take(i as int) =~= s@);
    res
}

fn char_from_u32_lower(c: char) -> (res: char)
    requires
        'A' <= c && c <= 'Z',
    ensures
        res == ascii_lower_char(c),
{
    ((c as u8) + 32) as char
}

/// A reply source of a goal: trimmed and lower-cased, it contains `goal_submit`, is `goal`
/// or `goal_start`, or ends with `_goal`.
pub open spec fn goal_source(source: Seq<char>) -> bool {
    let n = ascii_lower(trim(source));
    ||| contains(n, "goal_submit"@)
    ||| n == "goal"@
    ||| n == "goal_start"@
    ||| ends_with(n, "_goal"@)
}

/// Whether a reply comes from a goal form.
pub fn is_goal_response_source(source: &str) -> (res: bool)
    ensures
        res == goal_source(source@),
{
    let n = ascii_lower_chars(&trim_chars(&chars_of(source)));
    contains_str(&n, "goal_submit") || chars_eq_str(&n, "goal") || chars_eq_str(&n, "goal_start")
        || ends_with_str(&n, "_goal")
}

/// A labelled list of paths: nothing for no path, else `<label>：` and a line `- <path>`
/// for each path that is not blank.
pub open spec fn path_list(label: Seq<char>, paths: Seq<Seq<char>>) -> Option<Seq<char>> {
    if paths.len() == 0 {
        None
    } else {
        Some(label + "：\n"@ + join(path_lines(paths), "\n"@))
    }
}

/// A labelled list of paths, or nothing when there is no path at all.
pub fn format_path_list(label: &str, paths: &Vec<String>) -> (res: Option<String>)
    ensures
        sopt(res) == path_list(label@, string_views(paths@)),
{
    if paths.len() == 0 {
        return None;
    }
    match format_path_block(label, paths) {
        Some(b) => Some(b),
        None => {
            let mut m = chars_of(label);
            append_str(&mut m, "：\n");
            proof {
                assert(join(path_lines(string_views(paths@)), "\n"@) =~= Seq::<char>::empty());
            }
            assert(m@ =~= label@ + "：\n"@ + join(path_lines(string_views(paths@)), "\n"@));
            Some(string_from(&m))
        },
    }
}

/// The paths, trimmed, that are not blank and that the reply does not mention yet.
pub fn paths_missing_from_input(user_input: &str, paths: &Vec<String>) -> (res: Vec<String>)
    ensures
        string_views(res@) == missing_paths(string_views(paths@), user_input@),
{
    paths_missing_from_text(paths, Some(user_input))
}

/// The lines kept when runs of blank lines are cut to two, with the length of the blank
/// run that ends the lines read so far.
pub open spec fn collapsed_lines(ls: Seq<Seq<char>>) -> (Seq<Seq<char>>, nat)
    decreases ls.len(),
{
    if ls.len() == 0 {
        (seq![], 0)
    } else {
        let (out, blanks) = collapsed_lines(ls.drop_last());
        if trim(ls.last()).len() == 0 {
            if blanks + 1 <= 2 {
                (out.push(seq![]), blanks + 1)
            } else {
                (out, blanks + 1)
            }
        } else {
            (out.push(ls.last()), 0)
        }
    }
}

/// A text with its blank lines emptied, no more than two of them in a row, trimmed.
pub open spec fn collapsed_text(text: Seq<char>) -> Seq<char> {
    trim(join(collapsed_lines(lines(text)).0, "\n"@))
}

/// Empties blank lines, keeps no more than two of them in a row, and trims the text.
pub fn collapse_extra_blank_lines(text: &str) -> (res: String)
    ensures
        res@ == collapsed_text(text@),
{
    let ls = lines_of(&chars_of(text));
    let ghost lv = views(ls@);
    let mut out: Vec<Vec<char>> = Vec::new();
    let mut blanks: usize = 0;
    let mut i: usize = 0;
    assert(lv.take(0) =~= seq![]);
    while i < ls.len()
        invariant
            lv == views(ls@),
            lv == lines(text@),
            i <= ls.len(),
            blanks <= i,
            (views(out@), blanks as nat) == collapsed_lines(lv.take(i as int)),
        decreases ls.len() - i,
    {
        assert(lv.take(i + 1).drop_last() =~= lv.take(i as int));
        assert(lv.take(i + 1).last() == ls[i as int]@);
        let ghost before = views(out@);
        if trim_chars(&ls[i]).len() == 0 {
            blanks = blanks + 1;
            if blanks <= 2 {
                out.push(Vec::new());
                assert(views(out@) =~= before.push(seq![]));
            }
        } else {
            blanks = 0;
            let l = copy_chars(&ls[i]);
            out.push(l);
            assert(views(out@) =~= before.push(ls[i as int]@));
        }
        i += 1;
    }
    assert(lv.take(i as int) =~= lv);
    let joined = join_chars(&out, "\n");
    string_from(&trim_chars(&joined))
}

fn copy_chars(s: &Vec<char>) -> (res: Vec<char>)
    ensures
        res@ == s@,
{
    let mut res: Vec<char> = Vec::new();
    let mut i: usize = 0;
    while i < s.len()
        invariant
            i <= s.len(),
            res@ == s@.take(i as int),
        decreases s.len() - i,
    {
        res.push(s[i]);
        i += 1;
    }
    assert(s@.take(i as int) =~= s@);
    res
}

/// A text without the line breaks that stand right before a closing `》` (read from the
/// end; `closing` tells whether what follows `s` starts with `》`).
pub open spec fn without_gaps(s: Seq<char>, closing: bool) -> Seq<char>
    decreases s.len(),
{
    if s.len() == 0 {
        seq![]
    } else if s.last() == '\n' && closing {
        without_gaps(s.drop_last(), true)
    } else {
        without_gaps(s.drop_last(), s.last() == '》').push(s.last())
    }
}

/// Takes out every line break that stands right before a closing `》`, however many of
/// them there are in a row.
pub fn normalize_goal_closing_spacing(text: &str) -> (res: String)
    ensures
        res@ == without_gaps(text@, false),
{
    let s = chars_of(text);
    let mut acc: Vec<char> = Vec::new();
    let mut closing = false;
    let mut i: usize = s.len();
    assert(s@.take(i as int) =~= s@);
    assert(s@ + seq![] =~= s@);
    while i > 0
        invariant
            i <= s.len(),
            without_gaps(s@, false) == without_gaps(s@.take(i as int), closing) + acc@,
        decreases i,
    {
        let c = s[i - 1];
        let ghost pre = s@.take(i as int);
        assert(pre.drop_last() =~= s@.take(i - 1));
        assert(pre.last() == c);
        if c == '\n' && closing {
        } else {
            closing = c == '》';
            let ghost old_acc = acc@;
            acc.insert(0, c);
            assert(acc@ =~= seq![c] + old_acc);
            assert(without_gaps(s@.take(i - 1), closing).push(c) + old_acc =~= without_gaps(
                s@.take(i - 1),
                closing,
            ) + acc@);
        }
        i -= 1;
    }
    assert(s@.take(0) =~= seq![]);
    assert(seq![] + acc@ =~= acc@);
    string_from(&acc)
}

/// A line that opens a legacy image block: trimmed, it starts with `附加图片：` and either
/// mentions `images 附件` or is followed by the line `附件地址：`.
pub open spec fn opens_image_block(ls: Seq<Seq<char>>, i: int) -> bool {
    let t = trim(ls[i]);
    starts_with(t, "附加图片："@) && (contains(t, "images 附件"@) || (i + 1 < ls.len() && trim(
        ls[i + 1],
    ) == "附件地址："@))
}

/// A line inside a legacy image block: an `images[..]` item or the placeholder.
pub open spec fn image_block_item(line: Seq<char>) -> bool {
    let t = trim(line);
    ||| starts_with(t, "- images["@)
    ||| t == "（见 images 附件）"@
    ||| t == "（见 images 附件）》"@
}

/// Where the items of an image block that start at `j` end, and whether the goal's
/// closing `》` stood in the block.
pub open spec fn skip_items(ls: Seq<Seq<char>>, j: int, close: bool) -> (int, bool)
    decreases ls.len() - j,
{
    if 0 <= j < ls.len() && image_block_item(ls[j]) {
        skip_items(ls, j + 1, close || ends_with(trim(ls[j]), "》"@))
    } else {
        (j, close)
    }
}

/// The items of an image block end at or after where they start, and within the lines.
pub proof fn lemma_skip_items_after(ls: Seq<Seq<char>>, j: int, close: bool)
    ensures
        skip_items(ls, j, close).0 >= j,
        j <= ls.len() ==> skip_items(ls, j, close).0 <= ls.len(),
    decreases ls.len() - j,
{
    if 0 <= j < ls.len() && image_block_item(ls[j]) {
        lemma_skip_items_after(ls, j + 1, close || ends_with(trim(ls[j]), "》"@));
    }
}

/// Where the items of the image block opened at line `i` start: after its `附件地址：`
/// line when it has one.
pub open spec fn block_items_start(ls: Seq<Seq<char>>, i: int) -> int {
    if i + 1 < ls.len() && trim(ls[i + 1]) == "附件地址："@ {
        i + 2
    } else {
        i + 1
    }
}

/// The lines from line `i` on, without the legacy image blocks; a block in which the
/// goal's closing `》` stood leaves a line `》`.
pub open spec fn kept_goal_lines(ls: Seq<Seq<char>>, i: int) -> Seq<Seq<char>>
    decreases ls.len() - i,
{
    if i < 0 || i >= ls.len() {
        seq![]
    } else if opens_image_block(ls, i) {
        proof {
            lemma_skip_items_after(ls, block_items_start(ls, i), ends_with(trim(ls[i]), "》"@));
            assert(block_items_start(ls, i) > i);
        }
        let r = skip_items(ls, block_items_start(ls, i), ends_with(trim(ls[i]), "》"@));
        (if r.1 {
            seq!["》"@]
        } else {
            seq![]
        }) + kept_goal_lines(ls, r.0)
    } else {
        seq![ls[i]] + kept_goal_lines(ls, i + 1)
    }
}

/// A goal reply without its legacy image placeholders, with blank runs cut and no line
/// break before the closing `》`.
pub open spec fn stripped_goal(user_input: Seq<char>) -> Seq<char> {
    without_gaps(collapsed_text(join(kept_goal_lines(lines(user_input), 0), "\n"@)), false)
}

fn opens_image_block_at(ls: &Vec<Vec<char>>, i: usize) -> (res: bool)
    requires
        i < ls.len(),
    ensures
        res == opens_image_block(views(ls@), i as int),
{
    let t = trim_chars(&ls[i]);
    if !starts_with_str(&t, "附加图片：") {
        return false;
    }
    if contains_str(&t, "images 附件") {
        return true;
    }
    i + 1 < ls.len() && chars_eq_str(&trim_chars(&ls[i + 1]), "附件地址：")
}

fn image_block_item_at(line: &Vec<char>) -> (res: bool)
    ensures
        res == image_block_item(line@),
{
    let t = trim_chars(line);
    starts_with_str(&t, "- images[") || chars_eq_str(&t, "（见 images 附件）") || chars_eq_str(
        &t,
        "（见 images 附件）》",
    )
}

/// Takes the legacy image placeholders out of a goal reply (a line `附加图片：…` with its
/// `附件地址：` line and its `images[..]` items), keeps the goal's closing `》` when it stood
/// in them, cuts runs of blank lines and the line breaks before the closing `》`.
pub fn strip_goal_image_reference_context(user_input: &str) -> (res: String)
    ensures
        res@ == stripped_goal(user_input@),
{
    let ls = lines_of(&chars_of(user_input));
    let ghost lv = views(ls@);
    let mut kept: Vec<Vec<char>> = Vec::new();
    let mut index: usize = 0;
    assert(views(kept@) + kept_goal_lines(lv, 0) =~= kept_goal_lines(lv, 0));
    while index < ls.len()
        invariant
            lv == views(ls@),
            index <= ls.len(),
            kept_goal_lines(lv, 0) == views(kept@) + kept_goal_lines(lv, index as int),
        decreases ls.len() - index,
    {
        let ghost before = views(kept@);
        assert(lv[index as int] == ls[index as int]@);
        if opens_image_block_at(&ls, index) {
            let t = trim_chars(&ls[index]);
            let mut preserve = ends_with_str(&t, "》");
            let ghost start = block_items_start(lv, index as int);
            let ghost r = skip_items(lv, start, preserve);
            let ghost i0 = index as int;
            index += 1;
            if index < ls.len() && chars_eq_str(&trim_chars(&ls[index]), "附件地址：") {
                index += 1;
            }
            assert(index as int == start);
            while index < ls.len() && image_block_item_at(&ls[index])
                invariant
                    lv == views(ls@),
                    i0 < index <= ls.len(),
                    skip_items(lv, index as int, preserve) == r,
                decreases ls.len() - index,
            {
                let nt = trim_chars(&ls[index]);
                assert(lv[index as int] == ls[index as int]@);
                preserve = preserve || ends_with_str(&nt, "》");
                index += 1;
            }
            assert(lv[index as int] == ls[index as int]@ || index == ls.len());
            assert(r == (index as int, preserve));
            if preserve {
                kept.push(chars_of("》"));
                assert(views(kept@) =~= before + seq!["》"@]);
            } else {
                assert(views(kept@) =~= before + Seq::<Seq<char>>::empty());
            }
            assert(kept_goal_lines(lv, i0) == (if preserve {
                seq!["》"@]
            } else {
                Seq::<Seq<char>>::empty()
            }) + kept_goal_lines(lv, index as int));
        } else {
            let l = copy_chars(&ls[index]);
            kept.push(l);
            assert(views(kept@) =~= before + seq![lv[index as int]]);
            index += 1;
        }
    }
    let joined = string_from(&join_chars(&kept, "\n"));
    assert(kept_goal_lines(lv, index as int) =~= Seq::<Seq<char>>::empty());
    assert(views(kept@) + Seq::<Seq<char>>::empty() =~= views(kept@));
    let collapsed = collapse_extra_blank_lines(joined.as_str());
    normalize_goal_closing_spacing(collapsed.as_str())
}

/// The options that the reply does not mention yet, as a block `选中的选项：`.
pub fn format_missing_selected_options(user_input: &str, selected_options: &Vec<String>) -> (res:
    Option<String>)
    ensures
        sopt(res) == path_block(
            "选中的选项"@,
            missing_paths(string_views(selected_options@), user_input@),
        ),
{
    let missing = paths_missing_from_text(selected_options, Some(user_input));
    format_path_block("选中的选项", &missing)
}

/// The index of the last `c` in `s`.
pub open spec fn rfind_char(s: Seq<char>, c: char) -> Option<int>
    decreases s.len(),
{
    if s.len() == 0 {
        None
    } else if s.last() == c {
        Some(s.len() - 1)
    } else {
        rfind_char(s.drop_last(), c)
    }
}

fn rfind_char_in(s: &Vec<char>, c: char) -> (res: Option<usize>)
    ensures
        match res {
            Some(i) => rfind_char(s@, c) == Some(i as int) && i < s.len(),
            None => rfind_char(s@, c) is None,
        },
{
    let mut i: usize = s.len();
    assert(s@.take(i as int) =~= s@);
    while i > 0
        invariant
            i <= s.len(),
            rfind_char(s@, c) == rfind_char(s@.take(i as int), c),
        decreases i,
    {
        assert(s@.take(i as int).last() == s@[i - 1]);
        if s[i - 1] == c {
            return Some(i - 1);
        }
        assert(s@.take(i as int).drop_last() =~= s@.take(i - 1));
        i -= 1;
    }
    None
}

/// The block that a value contributes: its text when there is one.
pub open spec fn opt_block(block: Option<Seq<char>>) -> Seq<Seq<char>> {
    match block {
        Some(b) => seq![b],
        None => seq![],
    }
}

/// A goal reply with the options, files and images that it does not mention yet placed
/// before its last closing `》` (or at its end), after a blank line.
pub open spec fn goal_with_context(
    user_input: Seq<char>,
    options: Seq<Seq<char>>,
    files: Seq<Seq<char>>,
    images: Seq<Seq<char>>,
) -> Seq<char> {
    let cleaned = stripped_goal(user_input);
    let blocks = opt_block(path_block("选中的选项"@, missing_paths(options, cleaned))) + opt_block(
        path_list("附加文件路径"@, missing_paths(files, cleaned)),
    ) + opt_block(path_list("附加图片路径"@, missing_paths(images, cleaned)));
    if blocks.len() == 0 {
        cleaned
    } else {
        let context = join(blocks, "\n\n"@);
        match rfind_char(cleaned, '》') {
            Some(k) => trim_end(cleaned.take(k)) + "\n\n"@ + context + cleaned.skip(k),
            None => trim_end(cleaned) + "\n\n"@ + context,
        }
    }
}

fn push_block(blocks: &mut Vec<Vec<char>>, block: Option<String>)
    ensures
        views(final(blocks)@) == views(old(blocks)@) + opt_block(sopt(block)),
{
    let ghost before = views(blocks@);
    match block {
        Some(b) => {
            blocks.push(chars_of(b.as_str()));
            assert(views(blocks@) =~= before + seq![b@]);
        },
        None => {
            assert(views(blocks@) =~= before + Seq::<Seq<char>>::empty());
        },
    }
}

/// Places the options, files and images that a goal reply does not mention yet inside its
/// closing `》`.
pub fn inject_goal_response_context(
    user_input: &str,
    selected_options: &Vec<String>,
    file_paths: &Vec<String>,
    image_paths: &Vec<String>,
) -> (res: String)
    ensures
        res@ == goal_with_context(
            user_input@,
            string_views(selected_options@),
            string_views(file_paths@),
            string_views(image_paths@),
        ),
{
    let cleaned = strip_goal_image_reference_context(user_input);
    let mut blocks: Vec<Vec<char>> = Vec::new();
    let ob = format_missing_selected_options(cleaned.as_str(), selected_options);
    let ghost obv = sopt(ob);
    push_block(&mut blocks, ob);
    let missing_files = paths_missing_from_input(cleaned.as_str(), file_paths);
    let fb = format_path_list("附加文件路径", &missing_files);
    let ghost fbv = sopt(fb);
    push_block(&mut blocks, fb);
    let missing_images = paths_missing_from_input(cleaned.as_str(), image_paths);
    let ib = format_path_list("附加图片路径", &missing_images);
    let ghost ibv = sopt(ib);
    push_block(&mut blocks, ib);
    assert(views(blocks@) =~= opt_block(obv) + opt_block(fbv) + opt_block(ibv));
    if blocks.len() == 0 {
        return cleaned;
    }
    let context = join_chars(&blocks, "\n\n");
    let c = chars_of(cleaned.as_str());
    let mut out: Vec<char>;
    match rfind_char_in(&c, '》') {
        Some(k) => {
            let before = crate::text::slice_chars(&c, 0, k);
            let after = crate::text::slice_chars(&c, k, c.len());
            assert(before@ =~= c@.take(k as int));
            assert(after@ =~= c@.skip(k as int));
            out = trim_end_chars(&before);
            append_str(&mut out, "\n\n");
            append_chars(&mut out, &context);
            append_chars(&mut out, &after);
        },
        None => {
            out = trim_end_chars(&c);
            append_str(&mut out, "\n\n");
            append_chars(&mut out, &context);
        },
    }
    string_from(&out)
}

/// A reply shown with the options that it does not mention yet before it: `选中的选项: `
/// and the options joined by ` / `, then a blank line and the reply unless it is blank.
pub open spec fn with_selected_options(user_input: Seq<char>, options: Seq<Seq<char>>) -> Seq<char> {
    let missing = missing_paths(options, user_input);
    if missing.len() == 0 {
        user_input
    } else {
        let prefix = "选中的选项: "@ + join(missing, " / "@);
        if trim(user_input).len() == 0 {
            prefix
        } else {
            prefix + "\n\n"@ + user_input
        }
    }
}

/// Puts the options that the reply does not mention yet in front of it.
pub fn prepend_selected_options_to_user_input(user_input: &str, selected_options: &Vec<String>) -> (res:
    String)
    ensures
        res@ == with_selected_options(user_input@, string_views(selected_options@)),
{
    let missing = paths_missing_from_text(selected_options, Some(user_input));
    if missing.len() == 0 {
        return string_from(&chars_of(user_input));
    }
    let mv = chars_vecs(&missing);
    let mut prefix = chars_of("选中的选项: ");
    append_chars(&mut prefix, &join_chars(&mv, " / "));
    if trim_chars(&chars_of(user_input)).len() == 0 {
        string_from(&prefix)
    } else {
        append_str(&mut prefix, "\n\n");
        append_str(&mut prefix, user_input);
        string_from(&prefix)
    }
}

/// A reply of the dialog as the MCP server reads it.
#[derive(Debug)]
pub struct DialogResponse {
    pub keep_going: bool,
    pub user_input: String,
    pub response_source: String,
    pub selected_options: Vec<String>,
    pub file_paths: Vec<String>,
    pub image_paths: Vec<String>,
    pub error: Option<String>,
}

/// Whether a reply gets its attachments placed in its text: it is not blank, it answers a
/// goal, and something is attached.
pub open spec fn enriches(r: DialogResponse) -> bool {
    &&& trim(r.user_input@).len() > 0
    &&& goal_source(r.response_source@)
    &&& !(r.selected_options@.len() == 0 && r.file_paths@.len() == 0 && r.image_paths@.len() == 0)
}

/// Places what the user attached to a goal reply in its text; other replies stay as they
/// are.
pub fn enrich_goal_response_with_attachment_paths(response: &mut DialogResponse)
    ensures
        final(response).keep_going == old(response).keep_going,
        final(response).response_source == old(response).response_source,
        final(response).selected_options == old(response).selected_options,
        final(response).file_paths == old(response).file_paths,
        final(response).image_paths == old(response).image_paths,
        final(response).error == old(response).error,
        !enriches(*old(response)) ==> final(response).user_input == old(response).user_input,
        enriches(*old(response)) ==> final(response).user_input@ == goal_with_context(
            old(response).user_input@,
            string_views(old(response).selected_options@),
            string_views(old(response).file_paths@),
            string_views(old(response).image_paths@),
        ),
{
    if trim_chars(&chars_of(response.user_input.as_str())).len() == 0
        || !is_goal_response_source(response.response_source.as_str()) || (
    response.selected_options.len() == 0 && response.file_paths.len() == 0
        && response.image_paths.len() == 0) {
        return ;
    }
    let injected = inject_goal_response_context(
        response.user_input.as_str(),
        &response.selected_options,
        &response.file_paths,
        &response.image_paths,
    );
    response.user_input = injected;
}

/// Closes a reply that ended the conversation (the user said so, or closed the popup):
/// it does not go on, names `end_source` as its source, and carries no attachment.
pub fn end_dialog_response(response: &mut DialogResponse, end_source: &str)
    ensures
        !final(response).keep_going,
        final(response).response_source@ == end_source@,
        final(response).selected_options@.len() == 0,
        final(response).file_paths@.len() == 0,
        final(response).image_paths@.len() == 0,
        final(response).user_input == old(response).user_input,
        final(response).error == old(response).error,
{
    response.keep_going = false;
    response.response_source = string_from(&chars_of(end_source));
    response.selected_options = Vec::new();
    response.file_paths = Vec::new();
    response.image_paths = Vec::new();
}

/// `bool`'s `Display`.
pub open spec fn bool_text(b: bool) -> Seq<char> {
    if b {
        "true"@
    } else {
        "false"@
    }
}

/// The line of a list that is not empty: `<label>` and its items joined by `, `.
pub open spec fn list_part(label: Seq<char>, items: Seq<Seq<char>>) -> Seq<Seq<char>> {
    if items.len() == 0 {
        seq![]
    } else {
        seq![label + join(items, ", "@)]
    }
}

/// What the assistant is told of a reply: what the user wrote (with the options that it
/// does not mention, unless it answers a goal), the attached files and images, whether to
/// go on, where the reply came from, and the runtime diagnostics when they are shown.
pub open spec fn zhi_content(r: DialogResponse, diagnostics: Option<Seq<char>>) -> Seq<char> {
    let display = if goal_source(r.response_source@) {
        r.user_input@
    } else {
        with_selected_options(r.user_input@, string_views(r.selected_options@))
    };
    let parts = (if display.len() > 0 {
        seq!["用户输入: "@ + display]
    } else {
        seq![]
    }) + list_part("附加文件: "@, string_views(r.file_paths@)) + list_part(
        "附加图片: "@,
        string_views(r.image_paths@),
    ) + seq!["继续对话: "@ + bool_text(r.keep_going)] + (if r.response_source@.len() > 0 {
        seq!["响应来源: "@ + r.response_source@]
    } else {
        seq![]
    }) + (match diagnostics {
        Some(d) => seq!["运行时诊断: "@ + d],
        None => seq![],
    });
    join(parts, "\n"@)
}

fn push_line(parts: &mut Vec<Vec<char>>, label: &str, text: &Vec<char>)
    ensures
        views(final(parts)@) == views(old(parts)@).push(label@ + text@),
{
    let mut line = chars_of(label);
    append_chars(&mut line, text);
    let ghost before = views(parts@);
    let ghost v = line@;
    parts.push(line);
    assert(views(parts@) =~= before.push(v));
}

fn push_list(parts: &mut Vec<Vec<char>>, label: &str, items: &Vec<String>)
    ensures
        views(final(parts)@) == views(old(parts)@) + list_part(label@, string_views(items@)),
{
    if items.len() == 0 {
        assert(views(parts@) + Seq::<Seq<char>>::empty() =~= views(parts@));
        return ;
    }
    let iv = chars_vecs(items);
    let joined = join_chars(&iv, ", ");
    let ghost before = views(parts@);
    push_line(parts, label, &joined);
    assert(views(parts@) =~= before + seq![label@ + join(string_views(items@), ", "@)]);
}

/// What the assistant is told of a reply; an error that the dialog reported is returned
/// as `iterate 错误: <error>` instead.
pub fn zhi_reply_content(response: &DialogResponse, runtime_diagnostics: Option<&str>) -> (res: Result<
    String,
    String,
>)
    ensures
        match response.error {
            Some(e) => (res matches Err(m) && m@ == "iterate 错误: "@ + e@),
            None => (res matches Ok(c) && c@ == zhi_content(
                *response,
                match runtime_diagnostics {
                    Some(d) => Some(d@),
                    None => None,
                },
            )),
        },
{
    match &response.error {
        Some(e) => {
            let mut m = chars_of("iterate 错误: ");
            append_str(&mut m, e.as_str());
            return Err(string_from(&m));
        },
        None => {},
    }
    let display = if is_goal_response_source(response.response_source.as_str()) {
        chars_of(response.user_input.as_str())
    } else {
        chars_of(
            prepend_selected_options_to_user_input(
                response.user_input.as_str(),
                &response.selected_options,
            ).as_str(),
        )
    };
    let mut parts: Vec<Vec<char>> = Vec::new();
    let ghost p0 = views(parts@);
    if display.len() > 0 {
        push_line(&mut parts, "用户输入: ", &display);
    }
    let ghost p1 = views(parts@);
    assert(p1 == p0 + (if display@.len() > 0 {
        seq!["用户输入: "@ + display@]
    } else {
        Seq::<Seq<char>>::empty()
    }));
    push_list(&mut parts, "附加文件: ", &response.file_paths);
    push_list(&mut parts, "附加图片: ", &response.image_paths);
    let keep = if response.keep_going {
        chars_of("true")
    } else {
        chars_of("false")
    };
    push_line(&mut parts, "继续对话: ", &keep);
    let ghost p4 = views(parts@);
    let source = chars_of(response.response_source.as_str());
    if source.len() > 0 {
        push_line(&mut parts, "响应来源: ", &source);
    } else {
        assert(views(parts@) =~= p4 + Seq::<Seq<char>>::empty());
    }
    let ghost p5 = views(parts@);
    match runtime_diagnostics {
        Some(d) => push_line(&mut parts, "运行时诊断: ", &chars_of(d)),
        None => {
            assert(views(parts@) =~= p5 + Seq::<Seq<char>>::empty());
        },
    }
    proof {
        assert(Seq::<Seq<char>>::empty() + Seq::<Seq<char>>::empty() =~= Seq::<Seq<char>>::empty());
    }
    assert(views(parts@) =~= (if display@.len() > 0 {
        seq!["用户输入: "@ + display@]
    } else {
        Seq::<Seq<char>>::empty()
    }) + list_part("附加文件: "@, string_views(response.file_paths@)) + list_part(
        "附加图片: "@,
        string_views(response.image_paths@),
    ) + seq!["继续对话: "@ + bool_text(response.keep_going)] + (if response.response_source@.len()
        > 0 {
        seq!["响应来源: "@ + response.response_source@]
    } else {
        Seq::<Seq<char>>::empty()
    }) + (match runtime_diagnostics {
        Some(d) => seq!["运行时诊断: "@ + d@],
        None => Seq::<Seq<char>>::empty(),
    }));
    Ok(string_from(&join_chars(&parts, "\n")))
}


// ---------------------------------------------------------------------------
// What is logged of a reply
// ---------------------------------------------------------------------------

/// The identifiers that a reply of the dialog carries in its metadata, and the source it
/// names there.
#[derive(Debug)]
pub struct ReplyIds {
    pub source: Option<String>,
    pub conversation_id: Option<String>,
    pub tree_id: Option<String>,
    pub current_node_id: Option<String>,
    pub node_id: Option<String>,
    pub timeline_route_id: Option<String>,
    pub conversation_route_id: Option<String>,
    pub run_id: Option<String>,
    pub generation: Option<u64>,
    pub stale_of: Option<String>,
    pub superseded_by: Option<String>,
}

/// The first of two optional values that is there.
pub open spec fn either(a: Option<Seq<char>>, b: Option<Seq<char>>) -> Option<Seq<char>> {
    match a {
        Some(x) => Some(x),
        None => b,
    }
}

fn copy_text(s: &String) -> (res: String)
    ensures
        res@ == s@,
{
    string_from(&chars_of(s.as_str()))
}

fn copy_opt_text(o: &Option<String>) -> (res: Option<String>)
    ensures
        sopt(res) == sopt(*o),
{
    match o {
        Some(s) => Some(copy_text(s)),
        None => None,
    }
}

fn first_of(a: &Option<String>, b: Option<String>) -> (res: Option<String>)
    ensures
        sopt(res) == either(sopt(*a), sopt(b)),
{
    match a {
        Some(x) => Some(copy_text(x)),
        None => b,
    }
}

/// The entry that the conversation log gets for one exchange in `workspace`: the ids of the
/// reply's conversation, node and route (each from the first of its names that is there;
/// the route lastly from the request), the reply's text without injected prompts, its
/// attachments, the request, the checkpoint made before the turn, and where the reply came
/// from (the reply's source unless blank, else the metadata's).
pub fn conversation_entry_for(
    workspace: &str,
    ai_message: &str,
    reply: &DialogResponse,
    ids: &ReplyIds,
    request_id: Option<String>,
    timeline_route_id: Option<String>,
    checkpoint: Option<&CheckpointMetadata>,
) -> (res: ConversationEntry)
    ensures
        sopt(res.conversation_id) == either(sopt(ids.conversation_id), sopt(ids.tree_id)),
        sopt(res.current_node_id) == either(sopt(ids.current_node_id), sopt(ids.node_id)),
        sopt(res.timeline_route_id) == either(
            either(sopt(ids.timeline_route_id), sopt(ids.conversation_route_id)),
            sopt(timeline_route_id),
        ),
        sopt(res.run_id) == sopt(ids.run_id),
        res.generation == ids.generation,
        sopt(res.stale_of) == sopt(ids.stale_of),
        sopt(res.superseded_by) == sopt(ids.superseded_by),
        res.ai_message@ == ai_message@,
        res.user_response@ == stripped_prompt(reply.user_input@),
        sopt(res.project_path) == (if trim(workspace@).len() > 0 {
            Some(workspace@)
        } else {
            None
        }),
        res.image_count == reply.image_paths.len(),
        string_views(res.file_paths@) == string_views(reply.file_paths@),
        string_views(res.image_paths@) == string_views(reply.image_paths@),
        string_views(res.selected_options@) == string_views(reply.selected_options@),
        sopt(res.request_id) == sopt(request_id),
        match checkpoint {
            Some(c) => sopt(res.checkpoint_id) == Some(c.checkpoint_id@) && sopt(
                res.checkpoint_commit,
            ) == Some(c.commit_hash@) && sopt(res.push_status) == Some(c.push_status@) && sopt(
                res.workspace_checkpoint_message,
            ) == Some(c.commit_subject@),
            None => res.checkpoint_id is None && res.checkpoint_commit is None
                && res.push_status is None && res.workspace_checkpoint_message is None,
        },
        sopt(res.response_source) == (if trim(reply.response_source@).len() > 0 {
            Some(reply.response_source@)
        } else {
            sopt(ids.source)
        }),
{
    let project_path = if trim_chars(&chars_of(workspace)).len() > 0 {
        Some(string_from(&chars_of(workspace)))
    } else {
        None
    };
    let response_source = if trim_chars(&chars_of(reply.response_source.as_str())).len() > 0 {
        Some(copy_text(&reply.response_source))
    } else {
        copy_opt_text(&ids.source)
    };
    let (checkpoint_id, checkpoint_commit, push_status, subject) = match checkpoint {
        Some(c) => (
            Some(copy_text(&c.checkpoint_id)),
            Some(copy_text(&c.commit_hash)),
            Some(copy_text(&c.push_status)),
            Some(copy_text(&c.commit_subject)),
        ),
        None => (None, None, None, None),
    };
    let route = first_of(&ids.conversation_route_id, timeline_route_id);
    ConversationEntry {
        conversation_id: first_of(&ids.conversation_id, copy_opt_text(&ids.tree_id)),
        current_node_id: first_of(&ids.current_node_id, copy_opt_text(&ids.node_id)),
        timeline_route_id: first_of(&ids.timeline_route_id, route),
        run_id: copy_opt_text(&ids.run_id),
        generation: ids.generation,
        stale_of: copy_opt_text(&ids.stale_of),
        superseded_by: copy_opt_text(&ids.superseded_by),
        ai_message: string_from(&chars_of(ai_message)),
        user_response: strip_auto_prompt(reply.user_input.as_str()),
        project_path,
        image_count: reply.image_paths.len(),
        file_paths: to_strings(&chars_vecs(&reply.file_paths)),
        image_paths: to_strings(&chars_vecs(&reply.image_paths)),
        selected_options: to_strings(&chars_vecs(&reply.selected_options)),
        request_id,
        checkpoint_id,
        checkpoint_commit,
        push_status,
        response_source,
        workspace_checkpoint_message: subject,
    }
}

} // verus!
