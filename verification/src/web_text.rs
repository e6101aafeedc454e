//! Text that the MCP server gets from the web and from its dialog service: HTML turned
//! into plain text, Markdown sections found by keywords, chunked HTTP bodies decoded, the
//! dialog service's HTTP answer read, and long values cut for error messages.
use vstd::prelude::*;

use crate::ordered::to_strings;
use crate::text::{
    append_chars, append_str, chars_of, contains, contains_chars, find, find_from,
    join, join_chars, lemma_find_first, lines, lines_of, lowercase, slice_chars, starts_with,
    starts_with_str, string_from, to_lowercase, trim, trim_chars, views, words, words_of,
};

verus! {

broadcast use vstd::string::group_string_axioms;

// ---------------------------------------------------------------------------
// HTML to text
// ---------------------------------------------------------------------------

/// Where a scan of HTML stands: inside a tag (and the tag's text so far), inside a
/// script or a style, and the text kept so far.
pub struct HtmlScan {
    pub in_tag: bool,
    pub in_script: bool,
    pub in_style: bool,
    pub tag: Seq<char>,
    pub out: Seq<char>,
}

/// A tag after which the text breaks a line: `br`, `p`, or the end of a `p`, `div`,
/// heading, list item or table row (matched at the start of the tag's lowercase text).
pub open spec fn breaks_line(t: Seq<char>) -> bool {
    ||| starts_with(t, "br"@)
    ||| starts_with(t, "p"@)
    ||| starts_with(t, "/p"@)
    ||| starts_with(t, "/div"@)
    ||| starts_with(t, "/h"@)
    ||| starts_with(t, "/li"@)
    ||| starts_with(t, "/tr"@)
}

/// The scan after a tag closes: a script or style opens or ends, and some tags break
/// the line.
pub open spec fn close_tag(st: HtmlScan) -> HtmlScan {
    let t = lowercase(st.tag);
    let (script, style) = if starts_with(t, "script"@) {
        (true, st.in_style)
    } else if starts_with(t, "/script"@) {
        (false, st.in_style)
    } else if starts_with(t, "style"@) {
        (st.in_script, true)
    } else if starts_with(t, "/style"@) {
        (st.in_script, false)
    } else {
        (st.in_script, st.in_style)
    };
    HtmlScan {
        in_tag: false,
        in_script: script,
        in_style: style,
        tag: st.tag,
        out: if breaks_line(t) {
            st.out.push('\n')
        } else {
            st.out
        },
    }
}

/// The scan after one more character.
pub open spec fn html_step(st: HtmlScan, c: char) -> HtmlScan {
    if c == '<' {
        HtmlScan { in_tag: true, tag: seq![], ..st }
    } else if c == '>' && st.in_tag {
        close_tag(st)
    } else if st.in_tag {
        HtmlScan { tag: st.tag.push(c), ..st }
    } else if st.in_script || st.in_style {
        st
    } else {
        HtmlScan { out: st.out.push(c), ..st }
    }
}

/// The scan of a whole text.
pub open spec fn html_scan(s: Seq<char>) -> HtmlScan
    decreases s.len(),
{
    if s.len() == 0 {
        HtmlScan { in_tag: false, in_script: false, in_style: false, tag: seq![], out: seq![] }
    } else {
        html_step(html_scan(s.drop_last()), s.last())
    }
}

/// The lines of a text trimmed, a run of blank lines kept as one empty line, each line
/// ended by `\n`; and whether the last line read was blank.
pub open spec fn squeezed(ls: Seq<Seq<char>>) -> (Seq<char>, bool)
    decreases ls.len(),
{
    if ls.len() == 0 {
        (seq![], false)
    } else {
        let (acc, prev_blank) = squeezed(ls.drop_last());
        let t = trim(ls.last());
        if t.len() == 0 {
            if prev_blank {
                (acc, true)
            } else {
                (acc.push('\n'), true)
            }
        } else {
            (acc + t + "\n"@, false)
        }
    }
}

/// The plain text of HTML: the text outside tags, scripts and styles, with line breaks
/// for the tags that break lines, each line trimmed, runs of blank lines squeezed, all
/// trimmed.
pub open spec fn html_text(html: Seq<char>) -> Seq<char> {
    trim(squeezed(lines(html_scan(html).out)).0)
}

/// Scanning characters other than `<` and `>` inside a tag only adds them to the tag.
proof fn lemma_scan_tag_text(s: Seq<char>, t: Seq<char>)
    requires
        html_scan(s).in_tag,
        forall|i: int| 0 <= i < t.len() ==> t[i] != '<' && t[i] != '>',
    ensures
        html_scan(s + t) == (HtmlScan { tag: html_scan(s).tag + t, ..html_scan(s) }),
    decreases t.len(),
{
    if t.len() == 0 {
        assert(s + t =~= s);
        assert(html_scan(s).tag + t =~= html_scan(s).tag);
    } else {
        let u = t.drop_last();
        assert forall|i: int| 0 <= i < u.len() implies u[i] != '<' && u[i] != '>' by {
            assert(u[i] == t[i]);
        }
        lemma_scan_tag_text(s, u);
        assert((s + t).drop_last() =~= s + u);
        assert((s + t).last() == t.last());
        assert(html_scan(s).tag + u.push(t.last()) =~= html_scan(s).tag + t);
        assert(u.push(t.last()) =~= t);
    }
}

/// A closing list item or table row ends a line: whatever came before, a tag whose
/// lowercase text starts with `/li` or `/tr` adds exactly one line break to the text kept,
/// and keeps the script and style state.
pub proof fn law_closing_item_or_row_breaks_line(before: Seq<char>, tag: Seq<char>)
    requires
        forall|i: int| 0 <= i < tag.len() ==> tag[i] != '<' && tag[i] != '>',
        starts_with(lowercase(tag), "/li"@) || starts_with(lowercase(tag), "/tr"@),
    ensures
        html_scan(before + seq!['<'] + tag + seq!['>']).out == html_scan(before).out.push('\n'),
        !html_scan(before + seq!['<'] + tag + seq!['>']).in_tag,
        html_scan(before + seq!['<'] + tag + seq!['>']).in_script == html_scan(before).in_script,
        html_scan(before + seq!['<'] + tag + seq!['>']).in_style == html_scan(before).in_style,
{
    let opened = before + seq!['<'];
    assert(opened.drop_last() =~= before);
    assert(opened.last() == '<');
    lemma_scan_tag_text(opened, tag);
    let closed = opened + tag + seq!['>'];
    assert(closed.drop_last() =~= opened + tag);
    assert(closed.last() == '>');
    assert(html_scan(opened).tag =~= seq![]);
    assert(seq![] + tag =~= tag);
    let t = lowercase(tag);
    reveal_strlit("/li");
    reveal_strlit("/tr");
    reveal_strlit("/h");
    reveal_strlit("/p");
    reveal_strlit("p");
    reveal_strlit("br");
    reveal_strlit("/div");
    reveal_strlit("script");
    reveal_strlit("/script");
    reveal_strlit("style");
    reveal_strlit("/style");
    assert(breaks_line(t)) by {
        if starts_with(t, "/li"@) {
            assert(t.take(3) =~= "/li"@);
        } else {
            assert(t.take(3) =~= "/tr"@);
        }
    }
    assert(t[1] == 'l' || t[1] == 't') by {
        if starts_with(t, "/li"@) {
            assert(t.take(3)[1] == t[1]);
        } else {
            assert(t.take(3)[1] == t[1]);
        }
    }
    assert(!starts_with(t, "script"@) && !starts_with(t, "style"@)) by {
        assert(t[0] == '/') by {
            assert(t.take(3)[0] == t[0]);
        }
        if t.len() >= 6 {
            assert(t.take(6)[0] == t[0]);
        }
        if t.len() >= 5 {
            assert(t.take(5)[0] == t[0]);
        }
    }
    assert(!starts_with(t, "/script"@) && !starts_with(t, "/style"@)) by {
        if t.len() >= 7 {
            assert(t.take(7)[1] == t[1]);
        }
        if t.len() >= 6 {
            assert(t.take(6)[1] == t[1]);
        }
    }
}

fn starts_with_lower(t: &Vec<char>, p: &str) -> (res: bool)
    ensures
        res == starts_with(t@, p@),
{
    crate::text::starts_with_str(t, p)
}

/// The plain text of HTML: a simple stripping of tags.
pub fn strip_html_tags(html: &str) -> (res: String)
    ensures
        res@ == html_text(html@),
{
    let s = chars_of(html);
    let mut in_tag = false;
    let mut in_script = false;
    let mut in_style = false;
    let mut tag: Vec<char> = Vec::new();
    let mut out: Vec<char> = Vec::new();
    let mut i: usize = 0;
    assert(s@.take(0) =~= Seq::<char>::empty());
    while i < s.len()
        invariant
            i <= s.len(),
            s@ == html@,
            html_scan(s@.take(i as int)) == (HtmlScan {
                in_tag,
                in_script,
                in_style,
                tag: tag@,
                out: out@,
            }),
        decreases s.len() - i,
    {
        assert(s@.take(i + 1).drop_last() =~= s@.take(i as int));
        assert(s@.take(i + 1).last() == s@[i as int]);
        let c = s[i];
        if c == '<' {
            in_tag = true;
            tag = Vec::new();
        } else if c == '>' && in_tag {
            in_tag = false;
            let t = chars_of(to_lowercase(string_from(&tag).as_str()).as_str());
            if starts_with_lower(&t, "script") {
                in_script = true;
            } else if starts_with_lower(&t, "/script") {
                in_script = false;
            } else if starts_with_lower(&t, "style") {
                in_style = true;
            } else if starts_with_lower(&t, "/style") {
                in_style = false;
            }
            if starts_with_lower(&t, "br") || starts_with_lower(&t, "p") || starts_with_lower(
                &t,
                "/p",
            ) || starts_with_lower(&t, "/div") || starts_with_lower(&t, "/h") || starts_with_lower(
                &t,
                "/li",
            ) || starts_with_lower(&t, "/tr") {
                out.push('\n');
            }
        } else if in_tag {
            tag.push(c);
        } else if in_script || in_style {
        } else {
            out.push(c);
        }
        i += 1;
    }
    assert(s@.take(i as int) =~= s@);
    let ls = lines_of(&out);
    let ghost lv = views(ls@);
    let mut cleaned: Vec<char> = Vec::new();
    let mut prev_blank = false;
    let mut k: usize = 0;
    assert(lv.take(0) =~= Seq::<Seq<char>>::empty());
    while k < ls.len()
        invariant
            lv == views(ls@),
            k <= ls.len(),
            squeezed(lv.take(k as int)) == (cleaned@, prev_blank),
        decreases ls.len() - k,
    {
        assert(lv.take(k + 1).drop_last() =~= lv.take(k as int));
        assert(lv.take(k + 1).last() == ls[k as int]@);
        let t = trim_chars(&ls[k]);
        if t.len() == 0 {
            if !prev_blank {
                cleaned.push('\n');
                prev_blank = true;
            }
        } else {
            let ghost before = cleaned@;
            append_chars(&mut cleaned, &t);
            cleaned.push('\n');
            prev_blank = false;
            proof {
                reveal_strlit("\n");
                assert(cleaned@ =~= before + t@ + "\n"@);
            }
        }
        k += 1;
    }
    assert(lv.take(k as int) =~= lv);
    string_from(&trim_chars(&cleaned))
}

// ---------------------------------------------------------------------------
// Markdown sections
// ---------------------------------------------------------------------------

/// `str::split` on a pattern of one or more characters: the pieces between its
/// occurrences, found from the left without overlap.
pub open spec fn split_at_pattern(s: Seq<char>, sep: Seq<char>) -> Seq<Seq<char>>
    decreases s.len(),
{
    if sep.len() == 0 {
        seq![s]
    } else {
        match find(s, sep) {
            None => seq![s],
            Some(i) => {
                proof {
                    lemma_find_first(s, sep);
                }
                seq![s.take(i)] + split_at_pattern(s.skip(i + sep.len()), sep)
            },
        }
    }
}

fn split_pattern_chars(s: &Vec<char>, sep: &str) -> (res: Vec<Vec<char>>)
    requires
        sep@.len() > 0,
    ensures
        views(res@) == split_at_pattern(s@, sep@),
{
    let p = chars_of(sep);
    let mut res: Vec<Vec<char>> = Vec::new();
    let mut from: usize = 0;
    assert(s@.skip(0) =~= s@);
    assert(views(res@) + split_at_pattern(s@.skip(0), sep@) =~= split_at_pattern(s@, sep@));
    loop
        invariant
            p@ == sep@,
            sep@.len() > 0,
            from <= s.len(),
            views(res@) + split_at_pattern(s@.skip(from as int), sep@) == split_at_pattern(s@, sep@),
        decreases s.len() - from,
    {
        let ghost t = s@.skip(from as int);
        match find_from(s, &p, from) {
            None => {
                let last = slice_chars(s, from, s.len());
                assert(last@ =~= t);
                let ghost before = views(res@);
                res.push(last);
                assert(views(res@) =~= before + seq![t]);
                return res;
            },
            Some(k) => {
                proof {
                    lemma_find_first(t, sep@);
                }
                let piece = slice_chars(s, from, k);
                assert(piece@ =~= t.take(k - from));
                assert(t.skip(k - from + sep@.len()) =~= s@.skip(k + p.len()));
                let ghost before = views(res@);
                res.push(piece);
                assert(views(res@) =~= before + seq![t.take(k - from)]);
                from = k + p.len();
            },
        }
    }
}

/// `str::trim_start_matches("# ")`: the text without any number of leading `# `.
pub open spec fn without_heading_marks(s: Seq<char>) -> Seq<char>
    decreases s.len(),
{
    if starts_with(s, "# "@) {
        proof {
            reveal_strlit("# ");
        }
        without_heading_marks(s.skip(2))
    } else {
        s
    }
}

fn strip_heading_marks(s: &Vec<char>) -> (res: Vec<char>)
    ensures
        res@ == without_heading_marks(s@),
{
    let mut i: usize = 0;
    assert(s@.skip(0) =~= s@);
    proof {
        reveal_strlit("# ");
    }
    while s.len() - i >= 2 && s[i] == '#' && s[i + 1] == ' '
        invariant
            i <= s.len(),
            without_heading_marks(s@) == without_heading_marks(s@.skip(i as int)),
        decreases s.len() - i,
    {
        proof {
            reveal_strlit("# ");
        }
        assert(s@.skip(i as int).take(2) =~= "# "@);
        assert(s@.skip(i as int).skip(2) =~= s@.skip(i + 2));
        i += 2;
    }
    proof {
        reveal_strlit("# ");
        let t = s@.skip(i as int);
        if starts_with(t, "# "@) {
            assert(t.take(2)[0] == t[0] && t.take(2)[1] == t[1]);
            assert("# "@[0] == '#' && "# "@[1] == ' ');
            assert(t[0] == '#' && t[1] == ' ');
            assert(s@[i as int] == t[0] && s@[i + 1] == t[1]);
        }
    }
    slice_chars(s, i, s.len())
}

/// The text shown for a section that matches: its title (the first line without leading
/// `# ` for the part before the first `## `, else `## ` and the first line), then its
/// first fifteen lines, and `...` on a line of its own when it has more.
pub open spec fn section_text(section: Seq<char>, first: bool) -> Seq<char> {
    let ls = lines(section);
    let title = if first {
        without_heading_marks(ls[0])
    } else {
        "## "@ + ls[0]
    };
    title + "\n"@ + join(ls.take(if ls.len() <= 15 {
        ls.len() as int
    } else {
        15
    }), "\n"@) + (if ls.len() > 15 {
        "\n..."@
    } else {
        seq![]
    })
}

/// Whether a section matches: its lowercase text contains one of the terms.
pub open spec fn section_matches(section: Seq<char>, terms: Seq<Seq<char>>) -> bool {
    exists|k: int| 0 <= k < terms.len() && contains(lowercase(section), #[trigger] terms[k])
}

/// The texts of the matching sections among `sections[from..]`, in order.
pub open spec fn matching_sections(sections: Seq<Seq<char>>, terms: Seq<Seq<char>>, upto: int) -> Seq<
    Seq<char>,
>
    decreases upto,
{
    if upto <= 0 {
        seq![]
    } else {
        let i = upto - 1;
        let rest = matching_sections(sections, terms, i);
        if section_matches(sections[i], terms) && lines(sections[i]).len() > 0 {
            rest.push(section_text(sections[i], i == 0))
        } else {
            rest
        }
    }
}

/// The lowercase terms of a query: its words, lowercased, without empty ones.
pub open spec fn query_terms(query: Seq<char>) -> Seq<Seq<char>> {
    words(query).map_values(|w: Seq<char>| lowercase(w)).filter(|t: Seq<char>| t.len() > 0)
}

/// The sections of a Markdown text (split at `\n## `) in which any word of the query
/// occurs, case-insensitively, as titled excerpts; at most eight.
pub open spec fn sections_found(content: Seq<char>, query: Seq<char>) -> Seq<Seq<char>> {
    let terms = query_terms(query);
    if terms.len() == 0 {
        seq![]
    } else {
        let sections = split_at_pattern(content, "\n## "@);
        let found = matching_sections(sections, terms, sections.len() as int);
        found.take(if found.len() <= 8 {
            found.len() as int
        } else {
            8
        })
    }
}

fn any_term_in(lower: &Vec<char>, terms: &Vec<Vec<char>>) -> (res: bool)
    ensures
        res == exists|k: int| 0 <= k < terms.len() && contains(lower@, #[trigger] views(terms@)[k]),
{
    let mut k: usize = 0;
    while k < terms.len()
        invariant
            k <= terms.len(),
            forall|j: int| 0 <= j < k ==> !contains(lower@, #[trigger] views(terms@)[j]),
        decreases terms.len() - k,
    {
        if contains_chars(lower, &terms[k]) {
            assert(views(terms@)[k as int] == terms[k as int]@);
            return true;
        }
        assert(views(terms@)[k as int] == terms[k as int]@);
        k += 1;
    }
    false
}

/// Finds the sections of a Markdown text that mention any word of the query.
pub fn search_in_sections(content: &str, query: &str) -> (res: Vec<String>)
    ensures
        crate::ordered::string_views(res@) == sections_found(content@, query@),
{
    let ws = words_of(&chars_of(query));
    let ghost wv = views(ws@);
    let ghost lw = wv.map_values(|w: Seq<char>| lowercase(w));
    let ghost f = |t: Seq<char>| t.len() > 0;
    let mut terms: Vec<Vec<char>> = Vec::new();
    let mut i: usize = 0;
    assert(lw.take(0).filter(f) =~= Seq::<Seq<char>>::empty()) by {
        reveal(Seq::filter);
    }
    while i < ws.len()
        invariant
            wv == views(ws@),
            lw == wv.map_values(|w: Seq<char>| lowercase(w)),
            f == (|t: Seq<char>| t.len() > 0),
            i <= ws.len(),
            views(terms@) == lw.take(i as int).filter(f),
        decreases ws.len() - i,
    {
        let t = chars_of(to_lowercase(string_from(&ws[i]).as_str()).as_str());
        let ghost tv = t@;
        assert(tv == lw[i as int]);
        assert(lw.take(i + 1) =~= lw.take(i as int).push(tv));
        proof {
            lw.take(i as int).lemma_filter_push(tv, f);
        }
        if t.len() > 0 {
            let ghost before = views(terms@);
            terms.push(t);
            assert(views(terms@) =~= before.push(tv));
        }
        i += 1;
    }
    assert(lw.take(i as int) =~= lw);
    if terms.len() == 0 {
        return Vec::new();
    }
    proof {
        reveal_strlit("\n## ");
    }
    let sections = split_pattern_chars(&chars_of(content), "\n## ");
    let ghost sv = views(sections@);
    let mut found: Vec<Vec<char>> = Vec::new();
    let mut k: usize = 0;
    while k < sections.len()
        invariant
            sv == views(sections@),
            k <= sections.len(),
            views(found@) == matching_sections(sv, views(terms@), k as int),
        decreases sections.len() - k,
    {
        let lower = chars_of(to_lowercase(string_from(&sections[k]).as_str()).as_str());
        assert(sv[k as int] == sections[k as int]@);
        if any_term_in(&lower, &terms) {
            let ls = lines_of(&sections[k]);
            let ghost lv = views(ls@);
            if ls.len() > 0 {
                let mut text = if k == 0 {
                    strip_heading_marks(&ls[0])
                } else {
                    let mut t = chars_of("## ");
                    append_chars(&mut t, &ls[0]);
                    t
                };
                append_str(&mut text, "\n");
                let n = if ls.len() <= 15 {
                    ls.len()
                } else {
                    15
                };
                let mut first: Vec<Vec<char>> = Vec::new();
                let mut j: usize = 0;
                while j < n
                    invariant
                        lv == views(ls@),
                        n <= ls.len(),
                        j <= n,
                        views(first@) == lv.take(j as int),
                    decreases n - j,
                {
                    let c = slice_chars(&ls[j], 0, ls[j].len());
                    let ghost before = views(first@);
                    assert(c@ =~= lv[j as int]);
                    first.push(c);
                    assert(views(first@) =~= before.push(lv[j as int]));
                    assert(lv.take(j + 1) =~= lv.take(j as int).push(lv[j as int]));
                    j += 1;
                }
                append_chars(&mut text, &join_chars(&first, "\n"));
                if ls.len() > 15 {
                    append_str(&mut text, "\n...");
                } else {
                    assert(text@ + Seq::<char>::empty() =~= text@);
                }
                assert(lv[0] == ls[0]@);
                let ghost before = views(found@);
                let ghost tv = text@;
                found.push(text);
                assert(views(found@) =~= before.push(tv));
            }
        }
        k += 1;
    }
    let n = if found.len() <= 8 {
        found.len()
    } else {
        8
    };
    found.truncate(n);
    to_strings(&found)
}

// ---------------------------------------------------------------------------
// Values in error messages
// ---------------------------------------------------------------------------

/// The text of a fetched page: HTML (by its content type) turned into plain text, any
/// other body as it is.
pub open spec fn page_text(body: Seq<char>, content_type: Seq<char>) -> Seq<char> {
    if contains(content_type, "html"@) {
        html_text(body)
    } else {
        body
    }
}

/// A page text can be cut after `max` bytes: it is no longer, or byte `max` starts a
/// character.
pub open spec fn page_text_can_be_cut(text: Seq<char>, max: nat) -> bool {
    let bytes = vstd::utf8::encode_utf8(text);
    bytes.len() > max ==> vstd::utf8::is_char_boundary(bytes, max as int)
}

/// A page text of more than `max` UTF-8 bytes cut after its first `max` bytes, with a note
/// of its length and of what is shown; a shorter one as it is.
pub open spec fn cut_page_text(text: Seq<char>, max: nat) -> Seq<char> {
    let bytes = vstd::utf8::encode_utf8(text);
    if bytes.len() > max {
        vstd::utf8::decode_utf8(bytes.subrange(0, max as int)) + "\n\n--- 内容已截断（共 "@
            + crate::text::decimal(bytes.len()) + " 字符，显示前 "@ + crate::text::decimal(max)
            + " 字符）---"@
    } else {
        text
    }
}

/// A page text cut after `max_chars` bytes with a note, when it is longer.
pub fn truncate_page_text(text: String, max_chars: usize) -> (res: String)
    requires
        page_text_can_be_cut(text@, max_chars as nat),
    ensures
        res@ == cut_page_text(text@, max_chars as nat),
{
    let total = text.as_str().as_bytes().len();
    if total <= max_chars {
        return text;
    }
    let (head, _) = text.as_str().split_at(max_chars);
    proof {
        vstd::utf8::encode_utf8_decode_utf8(head@);
    }
    let mut out = chars_of(head);
    append_str(&mut out, "\n\n--- 内容已截断（共 ");
    append_chars(&mut out, &crate::text::decimal_chars(total as u64));
    append_str(&mut out, " 字符，显示前 ");
    append_chars(&mut out, &crate::text::decimal_chars(max_chars as u64));
    append_str(&mut out, " 字符）---");
    string_from(&out)
}

/// What a fetched page shows: its text (see `page_text`) cut after `max_chars` bytes with a
/// note; nothing when that cut would fall inside a character.
pub fn fetched_page_content(body: &str, content_type: &str, max_chars: usize) -> (res: Option<String>)
    ensures
        match res {
            Some(c) => page_text_can_be_cut(page_text(body@, content_type@), max_chars as nat)
                && c@ == cut_page_text(page_text(body@, content_type@), max_chars as nat),
            None => !page_text_can_be_cut(page_text(body@, content_type@), max_chars as nat),
        },
{
    let text = if contains_chars(&chars_of(content_type), &chars_of("html")) {
        strip_html_tags(body)
    } else {
        string_from(&chars_of(body))
    };
    if text.as_str().as_bytes().len() > max_chars && !text.as_str().is_char_boundary(max_chars) {
        return None;
    }
    Some(truncate_page_text(text, max_chars))
}

/// A value cut to `max_chars` characters, with `...` when anything was cut.
pub open spec fn truncated(value: Seq<char>, max_chars: nat) -> Seq<char> {
    if value.len() <= max_chars {
        value
    } else {
        value.take(max_chars as int) + "..."@
    }
}

/// A value cut for an error message.
pub fn truncate_for_error(value: &str, max_chars: usize) -> (res: String)
    ensures
        res@ == truncated(value@, max_chars as nat),
{
    let v = chars_of(value);
    if v.len() <= max_chars {
        return string_from(&v);
    }
    let mut out = slice_chars(&v, 0, max_chars);
    append_str(&mut out, "...");
    string_from(&out)
}

// ---------------------------------------------------------------------------
// HTTP bodies
// ---------------------------------------------------------------------------

/// A hexadecimal digit (either case).
pub open spec fn is_hex_digit(c: char) -> bool {
    ('0' <= c && c <= '9') || ('a' <= c && c <= 'f') || ('A' <= c && c <= 'F')
}

/// The value of a hexadecimal digit.
pub open spec fn hex_value(c: char) -> nat {
    if '0' <= c && c <= '9' {
        (c as nat - '0' as nat) as nat
    } else if 'a' <= c && c <= 'f' {
        (c as nat - 'a' as nat + 10) as nat
    } else {
        (c as nat - 'A' as nat + 10) as nat
    }
}

/// The value of a sequence of hexadecimal digits.
pub open spec fn hex_digits_value(s: Seq<char>) -> nat
    decreases s.len(),
{
    if s.len() == 0 {
        0
    } else {
        hex_digits_value(s.drop_last()) * 16 + hex_value(s.last())
    }
}

/// Every character is a hexadecimal digit.
pub open spec fn all_hex(d: Seq<char>) -> bool {
    forall|i: int| 0 <= i < d.len() ==> is_hex_digit(#[trigger] d[i])
}

/// The digits of a number: what follows an optional leading `+`.
pub open spec fn hex_digits_of(s: Seq<char>) -> Seq<char> {
    if s.len() > 0 && s[0] == '+' {
        s.drop_first()
    } else {
        s
    }
}

/// `usize::from_str_radix(s, 16)` where `max` is `usize::MAX`: an optional `+`, then one
/// or more hexadecimal digits whose value fits.
pub open spec fn parse_hex(s: Seq<char>, max: nat) -> Option<nat> {
    let d = hex_digits_of(s);
    if d.len() > 0 && all_hex(d) && hex_digits_value(d) <= max {
        Some(hex_digits_value(d))
    } else {
        None
    }
}

proof fn lemma_hex_value_monotone(d: Seq<char>, k: int)
    requires
        0 <= k <= d.len(),
        forall|i: int| 0 <= i < d.len() ==> is_hex_digit(#[trigger] d[i]),
    ensures
        hex_digits_value(d.take(k)) <= hex_digits_value(d),
    decreases d.len() - k,
{
    if k < d.len() {
        lemma_hex_value_monotone(d, k + 1);
        let t = d.take(k + 1);
        assert(t.drop_last() =~= d.take(k));
        assert(t.last() == d[k]);
    } else {
        assert(d.take(k) =~= d);
    }
}

fn hex_digit_value(c: char) -> (res: u64)
    requires
        is_hex_digit(c),
    ensures
        res == hex_value(c),
        res < 16,
{
    if '0' <= c && c <= '9' {
        (c as u32 - '0' as u32) as u64
    } else if 'a' <= c && c <= 'f' {
        (c as u32 - 'a' as u32 + 10) as u64
    } else {
        (c as u32 - 'A' as u32 + 10) as u64
    }
}

fn parse_hex_chars(s: &Vec<char>, max: u64) -> (res: Option<u64>)
    ensures
        match res {
            Some(v) => parse_hex(s@, max as nat) == Some(v as nat),
            None => parse_hex(s@, max as nat) is None,
        },
{
    let start: usize = if s.len() > 0 && s[0] == '+' {
        1
    } else {
        0
    };
    let ghost d = hex_digits_of(s@);
    assert(d =~= s@.skip(start as int));
    if start == s.len() {
        return None;
    }
    let mut value: u64 = 0;
    let mut i: usize = start;
    assert(s@.subrange(start as int, start as int) =~= seq![]);
    while i < s.len()
        invariant
            start <= i <= s.len(),
            d == s@.skip(start as int),
            d == hex_digits_of(s@),
            forall|j: int| 0 <= j < i - start ==> is_hex_digit(#[trigger] d[j]),
            value as nat == hex_digits_value(s@.subrange(start as int, i as int)),
            value <= max,
        decreases s.len() - i,
    {
        let c = s[i];
        let ghost prefix = s@.subrange(start as int, i + 1);
        assert(prefix.drop_last() =~= s@.subrange(start as int, i as int));
        assert(prefix.last() == c);
        assert(d[i - start] == c);
        if !(('0' <= c && c <= '9') || ('a' <= c && c <= 'f') || ('A' <= c && c <= 'F')) {
            assert(!is_hex_digit(d[i - start]));
            assert(!all_hex(d));
            return None;
        }
        let digit = hex_digit_value(c);
        if digit > max || value > (max - digit) / 16 {
            proof {
                if digit <= max {
                    assert(value * 16 + digit > max) by (nonlinear_arith)
                        requires
                            value > (max - digit) / 16,
                            digit <= max,
                    ;
                }
                let k = (i - start) as int + 1;
                assert(d.take(k) =~= prefix);
                assert(hex_digits_value(prefix) == value * 16 + digit);
                if all_hex(d) {
                    lemma_hex_value_monotone(d, k);
                    assert(hex_digits_value(d) > max);
                }
            }
            return None;
        }
        proof {
            assert(value * 16 + digit <= max) by (nonlinear_arith)
                requires
                    value <= (max - digit) / 16,
                    digit <= max,
            ;
        }
        value = value * 16 + digit;
        i += 1;
    }
    assert(s@.subrange(start as int, s.len() as int) =~= d);
    Some(value)
}

/// Where a count of bytes falls in a text: after the characters that fill it (and what
/// follows them), beyond the text's end, or inside a character.
pub enum ByteCut {
    Cut(Seq<char>, Seq<char>),
    Short,
    Inside,
}

/// Cuts `s` after its first `n` bytes.
pub open spec fn byte_cut(s: Seq<char>, n: nat) -> ByteCut
    decreases s.len(),
{
    if n == 0 {
        ByteCut::Cut(seq![], s)
    } else if s.len() == 0 {
        ByteCut::Short
    } else if crate::checkpoint::utf8_len(s[0]) <= n {
        match byte_cut(s.drop_first(), (n - crate::checkpoint::utf8_len(s[0])) as nat) {
            ByteCut::Cut(a, b) => ByteCut::Cut(seq![s[0]] + a, b),
            other => other,
        }
    } else {
        ByteCut::Inside
    }
}

/// A cut splits the text, and a cut after some bytes takes at least one character.
pub proof fn lemma_byte_cut_parts(s: Seq<char>, n: nat)
    ensures
        byte_cut(s, n) matches ByteCut::Cut(a, b) ==> s == a + b && b.len() < s.len() + 1 && (n
            > 0 ==> a.len() > 0),
    decreases s.len(),
{
    if n > 0 && s.len() > 0 && crate::checkpoint::utf8_len(s[0]) <= n {
        lemma_byte_cut_parts(s.drop_first(), (n - crate::checkpoint::utf8_len(s[0])) as nat);
        if let ByteCut::Cut(a, b) = byte_cut(s.drop_first(), (n - crate::checkpoint::utf8_len(s[0])) as nat) {
            assert(s.drop_first() == a + b);
            assert(s =~= seq![s[0]] + s.drop_first());
            assert(seq![s[0]] + (a + b) =~= seq![s[0]] + a + b);
        }
    }
    if n == 0 {
        assert(s =~= Seq::<char>::empty() + s);
    }
}

/// A chunked HTTP body decoded (`None` where a chunk's size line has no `\r\n` after it,
/// or a chunk ends inside a character: the reading stops there with a panic). Each
/// chunk is a hexadecimal size (a size that does not parse counts as zero) on a line of
/// its own, then that many bytes; size zero ends the body; a chunk longer than what is
/// left takes what is left.
pub open spec fn decode_chunks(raw: Seq<char>) -> Option<Seq<char>>
    decreases raw.len(),
{
    let r = crate::text::trim_start(raw);
    if r.len() == 0 {
        Some(seq![])
    } else {
        let k = match find(r, "\r\n"@) {
            Some(k) => k,
            None => r.len() as int,
        };
        let size = match parse_hex(trim(r.take(k)), usize::MAX as nat) {
            Some(v) => v,
            None => 0,
        };
        if size == 0 {
            Some(seq![])
        } else if find(r, "\r\n"@) is None {
            None
        } else {
            proof {
                crate::text::lemma_trim_start_suffix(raw);
                lemma_find_first(r, "\r\n"@);
                reveal_strlit("\r\n");
            }
            let rest = r.skip(k + 2);
            match byte_cut(rest, size) {
                ByteCut::Inside => None,
                ByteCut::Short => Some(rest),
                ByteCut::Cut(chunk, after) => {
                    proof {
                        lemma_byte_cut_parts(rest, size);
                    }
                    let after2 = if starts_with(after, "\r\n"@) {
                        after.skip(2)
                    } else {
                        after
                    };
                    match decode_chunks(after2) {
                        Some(t) => Some(chunk + t),
                        None => None,
                    }
                },
            }
        }
    }
}

/// What a cut of `s` after `n` bytes gives, as the spec names it.
fn byte_cut_chars(s: &Vec<char>, n: usize) -> (res: (u8, Vec<char>, Vec<char>))
    ensures
        res.0 == 0 ==> byte_cut(s@, n as nat) == ByteCut::Cut(res.1@, res.2@),
        res.0 == 1 ==> byte_cut(s@, n as nat) == ByteCut::Short,
        res.0 == 2 ==> byte_cut(s@, n as nat) == ByteCut::Inside,
        res.0 <= 2,
{
    let mut i: usize = 0;
    let mut left: usize = n;
    assert(s@.skip(0) =~= s@);
    while left > 0
        invariant
            i <= s.len(),
            left <= n,
            match byte_cut(s@, n as nat) {
                ByteCut::Cut(a, b) => byte_cut(s@.skip(i as int), left as nat) matches ByteCut::Cut(
                    a2,
                    b2,
                ) && a == s@.take(i as int) + a2 && b == b2,
                other => byte_cut(s@.skip(i as int), left as nat) == other,
            },
        decreases left,
    {
        if i == s.len() {
            return (1, Vec::new(), Vec::new());
        }
        let w = crate::checkpoint::char_utf8_len(s[i]);
        assert(s@.skip(i as int)[0] == s@[i as int]);
        if w > left {
            return (2, Vec::new(), Vec::new());
        }
        assert(s@.skip(i as int).drop_first() =~= s@.skip(i + 1));
        assert(s@.take(i + 1) =~= s@.take(i as int) + seq![s@[i as int]]);
        proof {
            match byte_cut(s@.skip(i + 1), (left - w) as nat) {
                ByteCut::Cut(a2, b2) => {
                    assert(s@.take(i as int) + (seq![s@[i as int]] + a2) =~= s@.take(i + 1) + a2);
                },
                _ => {},
            }
        }
        left = left - w;
        i += 1;
    }
    let a = slice_chars(s, 0, i);
    let b = slice_chars(s, i, s.len());
    assert(a@ =~= s@.take(i as int));
    assert(b@ =~= s@.skip(i as int));
    assert(s@.take(i as int) + Seq::<char>::empty() =~= s@.take(i as int));
    (0, a, b)
}

/// Decodes a chunked HTTP body, or nothing when a chunk is cut inside a character or its
/// size line has no end.
pub fn try_decode_chunked_body(raw: &str) -> (res: Option<String>)
    ensures
        match decode_chunks(raw@) {
            Some(t) => res matches Some(b) && b@ == t,
            None => res is None,
        },
{
    let mut rem = chars_of(raw);
    let mut result: Vec<char> = Vec::new();
    proof {
        reveal_strlit("\r\n");
    }
    loop
        invariant_except_break
            decode_chunks(raw@) == match decode_chunks(rem@) {
                Some(t) => Some(result@ + t),
                None => None,
            },
        ensures
            match decode_chunks(raw@) {
                Some(t) => result@ == t,
                None => false,
            },
        decreases rem.len(),
    {
        proof {
            reveal_strlit("\r\n");
            crate::text::lemma_trim_start_suffix(rem@);
        }
        let r = crate::text::trim_start_chars(&rem);
        if r.len() == 0 {
            assert(result@ + Seq::<char>::empty() =~= result@);
            break;
        }
        let found = crate::text::find_str(&r, "\r\n");
        let k = match found {
            Some(k) => k,
            None => r.len(),
        };
        let head = slice_chars(&r, 0, k);
        assert(head@ =~= r@.take(k as int));
        let size_line = trim_chars(&head);
        let size: u64 = match parse_hex_chars(&size_line, usize::MAX as u64) {
            Some(v) => v,
            None => 0,
        };
        if size == 0 {
            assert(result@ + Seq::<char>::empty() =~= result@);
            break;
        }
        let k = match found {
            Some(k) => k,
            None => {
                return None;
            },
        };
        proof {
            lemma_find_first(r@, "\r\n"@);
        }
        let rest = slice_chars(&r, k + 2, r.len());
        assert(rest@ =~= r@.skip(k + 2));
        let (kind, chunk, after) = byte_cut_chars(&rest, size as usize);
        if kind == 1 {
            append_chars(&mut result, &rest);
            break;
        }
        if kind == 2 {
            return None;
        }
        proof {
            lemma_byte_cut_parts(rest@, size as nat);
        }
        let ghost before = result@;
        append_chars(&mut result, &chunk);
        let next = if crate::text::starts_with_str(&after, "\r\n") {
            slice_chars(&after, 2, after.len())
        } else {
            slice_chars(&after, 0, after.len())
        };
        assert(after@.skip(0) =~= after@);
        proof {
            match decode_chunks(next@) {
                Some(t) => {
                    assert(before + (chunk@ + t) =~= result@ + t);
                },
                None => {},
            }
        }
        rem = next;
    }
    Some(string_from(&result))
}

/// Decodes a chunked HTTP body. Reading one stops with a panic where a size line lacks its
/// `\r\n` or a chunk ends inside a character, so such bodies are left out here;
/// `try_decode_chunked_body` tells them apart.
pub fn decode_chunked_body(raw: &str) -> (res: String)
    requires
        decode_chunks(raw@) is Some,
    ensures
        res@ == decode_chunks(raw@)->0,
{
    match try_decode_chunked_body(raw) {
        Some(b) => b,
        None => String::new(),
    }
}

/// What the dialog service answered over HTTP: its body (decoded when it is chunked), or
/// why the answer is refused: it has no header end, or its status line is not `200`.
pub open spec fn dialog_http_body(response: Seq<char>) -> Result<Seq<char>, Seq<char>> {
    match find(response, "\r\n\r\n"@) {
        None => Err("解析 HTTP 响应失败"@),
        Some(i) => {
            let header = response.take(i);
            let raw = response.skip(i + 4);
            let ls = lines(header);
            if ls.len() > 0 && !contains(ls[0], " 200 "@) {
                Err("iterate 服务器返回错误: "@ + ls[0])
            } else if contains(lowercase(header), "transfer-encoding: chunked"@) {
                Ok(decode_chunks(raw)->0)
            } else {
                Ok(raw)
            }
        },
    }
}

/// Whether an answer whose body is chunked can be decoded.
pub open spec fn dialog_http_readable(response: Seq<char>) -> bool {
    match find(response, "\r\n\r\n"@) {
        None => true,
        Some(i) => {
            let header = response.take(i);
            let ls = lines(header);
            (ls.len() > 0 && !contains(ls[0], " 200 "@)) || !contains(
                lowercase(header),
                "transfer-encoding: chunked"@,
            ) || decode_chunks(response.skip(i + 4)) is Some
        },
    }
}

/// Reads the dialog service's HTTP answer, or nothing when its chunked body cannot be
/// decoded (see `try_decode_chunked_body`).
pub fn read_dialog_http_answer(response: &str) -> (res: Option<Result<String, String>>)
    ensures
        !dialog_http_readable(response@) <==> res is None,
        res matches Some(Ok(b)) ==> dialog_http_body(response@) == Ok::<Seq<char>, Seq<char>>(b@),
        res matches Some(Err(e)) ==> dialog_http_body(response@) == Err::<Seq<char>, Seq<char>>(e@),
{
    let r = chars_of(response);
    proof {
        reveal_strlit("\r\n\r\n");
    }
    let i = match crate::text::find_str(&r, "\r\n\r\n") {
        None => {
            return Some(Err(string_from(&chars_of("解析 HTTP 响应失败"))));
        },
        Some(i) => i,
    };
    let header = slice_chars(&r, 0, i);
    let raw = slice_chars(&r, i + 4, r.len());
    assert(header@ =~= r@.take(i as int));
    assert(raw@ =~= r@.skip(i + 4));
    let ls = lines_of(&header);
    if ls.len() > 0 && !crate::text::contains_str(&ls[0], " 200 ") {
        assert(views(ls@)[0] == ls[0]@);
        let mut m = chars_of("iterate 服务器返回错误: ");
        append_chars(&mut m, &ls[0]);
        return Some(Err(string_from(&m)));
    }
    proof {
        if ls.len() > 0 {
            assert(views(ls@)[0] == ls[0]@);
        }
    }
    let lower = chars_of(to_lowercase(string_from(&header).as_str()).as_str());
    if crate::text::contains_str(&lower, "transfer-encoding: chunked") {
        let raw_text = string_from(&raw);
        match try_decode_chunked_body(raw_text.as_str()) {
            Some(b) => Some(Ok(b)),
            None => None,
        }
    } else {
        Some(Ok(string_from(&raw)))
    }
}

/// Reads the dialog service's HTTP answer.
pub fn dialog_response_body(response: &str) -> (res: Result<String, String>)
    requires
        dialog_http_readable(response@),
    ensures
        match res {
            Ok(b) => dialog_http_body(response@) == Ok::<Seq<char>, Seq<char>>(b@),
            Err(e) => dialog_http_body(response@) == Err::<Seq<char>, Seq<char>>(e@),
        },
{
    match read_dialog_http_answer(response) {
        Some(r) => r,
        None => Err(String::new()),
    }
}

/// The HTTP request that carries a dialog request's JSON body (of `byte_len` bytes) to the
/// dialog service.
pub open spec fn dialog_http_request_text(body: Seq<char>, byte_len: nat) -> Seq<char> {
    "POST /api/dialog HTTP/1.1\r\nHost: 127.0.0.1\r\nContent-Type: application/json\r\nContent-Length: "@
        + crate::text::decimal(byte_len) + "\r\nConnection: close\r\n\r\n"@ + body
}

/// Frames a dialog request's JSON body as an HTTP request, its length counted in bytes.
pub fn dialog_http_request(body: &str) -> (res: String)
    ensures
        res@ == dialog_http_request_text(body@, body.len() as nat),
{
    let mut out = chars_of(
        "POST /api/dialog HTTP/1.1\r\nHost: 127.0.0.1\r\nContent-Type: application/json\r\nContent-Length: ",
    );
    append_chars(&mut out, &crate::text::decimal_chars(body.len() as u64));
    append_str(&mut out, "\r\nConnection: close\r\n\r\n");
    append_str(&mut out, body);
    string_from(&out)
}

} // verus!
