//! The frontend asset gate: which files under `assets/` a built `index.html` and the
//! assets it loads refer to, so that a build can be checked for missing files.
use vstd::prelude::*;

use crate::ordered::{
    chars_vecs, holds_chars, insert_sorted, strictly_sorted, string_views, to_strings,
};
use crate::text::{
    append_chars, append_str, chars_eq_str, chars_of, decimal, decimal_chars, ends_with, ends_with_str, find, find_char,
    find_char_from, find_char_in, find_from, join, join_chars, lemma_find_first,
    lemma_trim_end_prefix, lemma_trim_start_suffix, skip_ws_from, slice_chars, split_chars,
    split_on, starts_with, starts_with_str, string_from, trim, trim_chars, trim_start, views,
};

verus! {

broadcast use vstd::string::group_string_axioms;

// ---------------------------------------------------------------------------
// Normalizing one reference
// ---------------------------------------------------------------------------

/// The extensions of files that the frontend build emits.
pub open spec fn has_asset_ext(a: Seq<char>) -> bool {
    ||| ends_with(a, ".avif"@)
    ||| ends_with(a, ".css"@)
    ||| ends_with(a, ".gif"@)
    ||| ends_with(a, ".html"@)
    ||| ends_with(a, ".ico"@)
    ||| ends_with(a, ".jpeg"@)
    ||| ends_with(a, ".jpg"@)
    ||| ends_with(a, ".js"@)
    ||| ends_with(a, ".json"@)
    ||| ends_with(a, ".mjs"@)
    ||| ends_with(a, ".mp3"@)
    ||| ends_with(a, ".mp4"@)
    ||| ends_with(a, ".otf"@)
    ||| ends_with(a, ".png"@)
    ||| ends_with(a, ".svg"@)
    ||| ends_with(a, ".ttf"@)
    ||| ends_with(a, ".txt"@)
    ||| ends_with(a, ".wasm"@)
    ||| ends_with(a, ".webp"@)
    ||| ends_with(a, ".woff"@)
    ||| ends_with(a, ".woff2"@)
}

/// Whether a path ends with one of the extensions of files that the frontend build emits.
pub fn has_frontend_asset_extension(asset: &Vec<char>) -> (res: bool)
    ensures
        res == has_asset_ext(asset@),
{
    ends_with_str(asset, ".avif") || ends_with_str(asset, ".css") || ends_with_str(asset, ".gif")
        || ends_with_str(asset, ".html") || ends_with_str(asset, ".ico") || ends_with_str(
        asset,
        ".jpeg",
    ) || ends_with_str(asset, ".jpg") || ends_with_str(asset, ".js") || ends_with_str(
        asset,
        ".json",
    ) || ends_with_str(asset, ".mjs") || ends_with_str(asset, ".mp3") || ends_with_str(
        asset,
        ".mp4",
    ) || ends_with_str(asset, ".otf") || ends_with_str(asset, ".png") || ends_with_str(
        asset,
        ".svg",
    ) || ends_with_str(asset, ".ttf") || ends_with_str(asset, ".txt") || ends_with_str(
        asset,
        ".wasm",
    ) || ends_with_str(asset, ".webp") || ends_with_str(asset, ".woff") || ends_with_str(
        asset,
        ".woff2",
    )
}

/// Assets whose text can refer to further assets.
pub open spec fn scans_contents(a: Seq<char>) -> bool {
    ||| ends_with(a, ".css"@)
    ||| ends_with(a, ".html"@)
    ||| ends_with(a, ".js"@)
    ||| ends_with(a, ".mjs"@)
    ||| ends_with(a, ".svg"@)
}

/// Whether the text of an asset is scanned for further references.
pub fn should_scan_asset_contents(asset: &str) -> (res: bool)
    ensures
        res == scans_contents(asset@),
{
    let a = chars_of(asset);
    ends_with_str(&a, ".css") || ends_with_str(&a, ".html") || ends_with_str(&a, ".js")
        || ends_with_str(&a, ".mjs") || ends_with_str(&a, ".svg")
}

/// What comes before the first `c` (all of `s` when there is none): `s.split(c).next()`.
pub open spec fn before_char(s: Seq<char>, c: char) -> Seq<char> {
    match find_char(s, c) {
        Some(k) => s.take(k),
        None => s,
    }
}

fn before_char_of(s: &Vec<char>, c: char) -> (res: Vec<char>)
    ensures
        res@ == before_char(s@, c),
{
    match find_char_in(s, c) {
        Some(k) => slice_chars(s, 0, k),
        None => slice_chars(s, 0, s.len()),
    }
}

/// The non-empty pieces of a sequence of pieces, in order.
pub open spec fn keep_nonempty(ps: Seq<Seq<char>>) -> Seq<Seq<char>>
    decreases ps.len(),
{
    if ps.len() == 0 {
        seq![]
    } else if ps.last().len() > 0 {
        keep_nonempty(ps.drop_last()).push(ps.last())
    } else {
        keep_nonempty(ps.drop_last())
    }
}

/// Applies the path parts of a relative reference to a directory stack: `.` and empty
/// parts change nothing, `..` leaves a directory (none when there is none to leave),
/// any other part enters it.
pub open spec fn relative_parts(stack: Seq<Seq<char>>, parts: Seq<Seq<char>>) -> Option<
    Seq<Seq<char>>,
>
    decreases parts.len(),
{
    if parts.len() == 0 {
        Some(stack)
    } else {
        let p = parts[0];
        let rest = parts.drop_first();
        if p.len() == 0 || p == "."@ {
            relative_parts(stack, rest)
        } else if p == ".."@ {
            if stack.len() == 0 {
                None
            } else {
                relative_parts(stack.drop_last(), rest)
            }
        } else {
            relative_parts(stack.push(p), rest)
        }
    }
}

/// A relative reference resolved against a base directory.
pub open spec fn normalize_relative(base_dir: Seq<char>, value: Seq<char>) -> Option<Seq<char>> {
    match relative_parts(keep_nonempty(split_on(base_dir, '/')), split_on(value, '/')) {
        Some(ps) => Some(join(ps, "/"@)),
        None => None,
    }
}

/// A reference that points outside the bundle.
pub open spec fn is_external_ref(v: Seq<char>) -> bool {
    ||| starts_with(v, "http://"@)
    ||| starts_with(v, "https://"@)
    ||| starts_with(v, "//"@)
    ||| starts_with(v, "data:"@)
    ||| starts_with(v, "blob:"@)
    ||| starts_with(v, "javascript:"@)
}

/// The bundle path that a reference found in an asset under `base_dir` names, when it
/// names a file under `assets/` with a known extension.
pub open spec fn normalize_ref(base_dir: Seq<char>, value: Seq<char>) -> Option<Seq<char>> {
    let v = trim(before_char(before_char(value, '#'), '?'));
    if v.len() == 0 || is_external_ref(v) {
        None
    } else {
        let n = if starts_with(v, "/assets/"@) {
            Some("assets/"@ + v.skip(8))
        } else if starts_with(v, "assets/"@) {
            Some(v)
        } else if starts_with(v, "./"@) || starts_with(v, "../"@) {
            normalize_relative(base_dir, v)
        } else {
            None
        };
        match n {
            Some(x) => if starts_with(x, "assets/"@) && has_asset_ext(x) {
                Some(x)
            } else {
                None
            },
            None => None,
        }
    }
}

/// A bundle path `assets/<name><ext>` counts as an asset with extension `ext`, and a
/// reference `/assets/<name><ext>` to it, under any base directory, names exactly it.
pub open spec fn emitted_asset_kept(base_dir: Seq<char>, name: Seq<char>, ext: Seq<char>) -> bool {
    &&& has_asset_ext(name + ext)
    &&& normalize_ref(base_dir, "/assets/"@ + name + ext) == Some("assets/"@ + name + ext)
}

proof fn lemma_ends_with_suffix(a: Seq<char>, e: Seq<char>)
    ensures
        ends_with(a + e, e),
{
    assert((a + e).skip((a + e).len() - e.len()) =~= e);
}

/// A path that ends with an extension of the frontend build, reached as `/assets/...`, is
/// kept as itself under `assets/`.
proof fn lemma_emitted_asset_kept(base_dir: Seq<char>, name: Seq<char>, ext: Seq<char>)
    requires
        forall|i: int| 0 <= i < name.len() ==> name[i] != '#' && name[i] != '?',
        forall|i: int| 0 <= i < ext.len() ==> ext[i] != '#' && ext[i] != '?',
        ext.len() > 0,
        !crate::text::is_ws(ext.last()),
        forall|a: Seq<char>| #[trigger] ends_with(a, ext) ==> has_asset_ext(a),
    ensures
        emitted_asset_kept(base_dir, name, ext),
{
    reveal_strlit("/assets/");
    reveal_strlit("assets/");
    reveal_strlit("http://");
    reveal_strlit("https://");
    reveal_strlit("//");
    reveal_strlit("data:");
    reveal_strlit("blob:");
    reveal_strlit("javascript:");
    lemma_ends_with_suffix(name, ext);
    let v = "/assets/"@ + name + ext;
    let x = "assets/"@ + name + ext;
    assert(x =~= ("assets/"@ + name) + ext);
    lemma_ends_with_suffix("assets/"@ + name, ext);
    assert forall|i: int| 0 <= i < v.len() implies v[i] != '#' && v[i] != '?' by {
        if i >= 8 + name.len() {
            assert(v[i] == ext[i - 8 - name.len()]);
        } else if i >= 8 {
            assert(v[i] == name[i - 8]);
        }
    }
    lemma_find_char_bound(v, '#');
    lemma_find_char_bound(v, '?');
    assert(before_char(before_char(v, '#'), '?') == v);
    assert(v[0] == '/');
    assert(v.last() == ext.last());
    assert(trim_start(v) == v);
    assert(crate::text::trim_end(v) == v);
    assert(trim(v) == v);
    assert(v[1] == 'a');
    assert(!is_external_ref(v)) by {
        if v.len() >= 7 {
            assert(v.take(7)[0] == v[0]);
        }
        if v.len() >= 8 {
            assert(v.take(8)[0] == v[0]);
        }
        assert(v.take(2)[1] == v[1]);
        assert(v.take(5)[0] == v[0]);
        if v.len() >= 11 {
            assert(v.take(11)[0] == v[0]);
        }
    }
    assert(v.take(8) =~= "/assets/"@);
    assert("assets/"@ + v.skip(8) =~= x);
    assert(x.take(7) =~= "assets/"@);
}

/// Every extension that the frontend build emits is one the bundle check knows: for any
/// file name without `#` or `?`, `name` with that extension is an asset, and a reference
/// `/assets/<name><ext>` names the bundle path `assets/<name><ext>`, so it is checked.
pub proof fn law_emitted_extensions_are_checked(base_dir: Seq<char>, name: Seq<char>)
    requires
        forall|i: int| 0 <= i < name.len() ==> name[i] != '#' && name[i] != '?',
    ensures
        emitted_asset_kept(base_dir, name, ".avif"@),
        emitted_asset_kept(base_dir, name, ".css"@),
        emitted_asset_kept(base_dir, name, ".gif"@),
        emitted_asset_kept(base_dir, name, ".html"@),
        emitted_asset_kept(base_dir, name, ".ico"@),
        emitted_asset_kept(base_dir, name, ".jpeg"@),
        emitted_asset_kept(base_dir, name, ".jpg"@),
        emitted_asset_kept(base_dir, name, ".js"@),
        emitted_asset_kept(base_dir, name, ".json"@),
        emitted_asset_kept(base_dir, name, ".mjs"@),
        emitted_asset_kept(base_dir, name, ".mp3"@),
        emitted_asset_kept(base_dir, name, ".mp4"@),
        emitted_asset_kept(base_dir, name, ".otf"@),
        emitted_asset_kept(base_dir, name, ".png"@),
        emitted_asset_kept(base_dir, name, ".svg"@),
        emitted_asset_kept(base_dir, name, ".ttf"@),
        emitted_asset_kept(base_dir, name, ".txt"@),
        emitted_asset_kept(base_dir, name, ".wasm"@),
        emitted_asset_kept(base_dir, name, ".webp"@),
        emitted_asset_kept(base_dir, name, ".woff"@),
        emitted_asset_kept(base_dir, name, ".woff2"@),
{
    reveal_strlit(".avif");
    reveal_strlit(".css");
    reveal_strlit(".gif");
    reveal_strlit(".html");
    reveal_strlit(".ico");
    reveal_strlit(".jpeg");
    reveal_strlit(".jpg");
    reveal_strlit(".js");
    reveal_strlit(".json");
    reveal_strlit(".mjs");
    reveal_strlit(".mp3");
    reveal_strlit(".mp4");
    reveal_strlit(".otf");
    reveal_strlit(".png");
    reveal_strlit(".svg");
    reveal_strlit(".ttf");
    reveal_strlit(".txt");
    reveal_strlit(".wasm");
    reveal_strlit(".webp");
    reveal_strlit(".woff");
    reveal_strlit(".woff2");
    lemma_emitted_asset_kept(base_dir, name, ".avif"@);
    lemma_emitted_asset_kept(base_dir, name, ".css"@);
    lemma_emitted_asset_kept(base_dir, name, ".gif"@);
    lemma_emitted_asset_kept(base_dir, name, ".html"@);
    lemma_emitted_asset_kept(base_dir, name, ".ico"@);
    lemma_emitted_asset_kept(base_dir, name, ".jpeg"@);
    lemma_emitted_asset_kept(base_dir, name, ".jpg"@);
    lemma_emitted_asset_kept(base_dir, name, ".js"@);
    lemma_emitted_asset_kept(base_dir, name, ".json"@);
    lemma_emitted_asset_kept(base_dir, name, ".mjs"@);
    lemma_emitted_asset_kept(base_dir, name, ".mp3"@);
    lemma_emitted_asset_kept(base_dir, name, ".mp4"@);
    lemma_emitted_asset_kept(base_dir, name, ".otf"@);
    lemma_emitted_asset_kept(base_dir, name, ".png"@);
    lemma_emitted_asset_kept(base_dir, name, ".svg"@);
    lemma_emitted_asset_kept(base_dir, name, ".ttf"@);
    lemma_emitted_asset_kept(base_dir, name, ".txt"@);
    lemma_emitted_asset_kept(base_dir, name, ".wasm"@);
    lemma_emitted_asset_kept(base_dir, name, ".webp"@);
    lemma_emitted_asset_kept(base_dir, name, ".woff"@);
    lemma_emitted_asset_kept(base_dir, name, ".woff2"@);
}

/// Resolves a relative reference (`./x`, `../x`) against the directory of the asset
/// that holds it.
pub fn normalize_relative_asset_ref(base_dir: &Vec<char>, value: &Vec<char>) -> (res: Option<
    Vec<char>,
>)
    ensures
        match res {
            Some(r) => normalize_relative(base_dir@, value@) == Some(r@),
            None => normalize_relative(base_dir@, value@) is None,
        },
{
    let base_parts = split_chars(base_dir, '/');
    let ghost bp = views(base_parts@);
    let mut stack: Vec<Vec<char>> = Vec::new();
    let mut i: usize = 0;
    assert(bp.take(0) =~= seq![]);
    assert(views(stack@) =~= seq![]);
    while i < base_parts.len()
        invariant
            bp == views(base_parts@),
            i <= base_parts.len(),
            views(stack@) == keep_nonempty(bp.take(i as int)),
        decreases base_parts.len() - i,
    {
        assert(bp.take(i + 1).drop_last() =~= bp.take(i as int));
        assert(bp.take(i + 1).last() == base_parts[i as int]@);
        if base_parts[i].len() > 0 {
            let ghost before = views(stack@);
            let p = slice_chars(&base_parts[i], 0, base_parts[i].len());
            assert(p@ =~= base_parts[i as int]@);
            stack.push(p);
            assert(views(stack@) =~= before.push(base_parts[i as int]@));
        }
        i += 1;
    }
    assert(bp.take(i as int) =~= bp);
    let parts = split_chars(value, '/');
    let ghost vp = views(parts@);
    let mut j: usize = 0;
    assert(vp.skip(0) =~= vp);
    while j < parts.len()
        invariant
            vp == views(parts@),
            j <= parts.len(),
            normalize_relative(base_dir@, value@) == (match relative_parts(
                views(stack@),
                vp.skip(j as int),
            ) {
                Some(ps) => Some(join(ps, "/"@)),
                None => None,
            }),
        decreases parts.len() - j,
    {
        assert(vp.skip(j as int)[0] == parts[j as int]@);
        assert(vp.skip(j as int).drop_first() =~= vp.skip(j + 1));
        let part = &parts[j];
        if part.len() == 0 || chars_eq_str(part, ".") {
        } else if chars_eq_str(part, "..") {
            if stack.len() == 0 {
                return None;
            }
            let ghost before = views(stack@);
            stack.pop();
            assert(views(stack@) =~= before.drop_last());
        } else {
            let ghost before = views(stack@);
            let p = slice_chars(part, 0, part.len());
            assert(p@ =~= part@);
            stack.push(p);
            assert(views(stack@) =~= before.push(part@));
        }
        j += 1;
    }
    assert(vp.skip(j as int) =~= seq![]);
    Some(join_chars(&stack, "/"))
}

/// Normalizes a reference found in an asset under `base_dir` to the bundle path it
/// names: fragment and query are cut, references outside the bundle are refused, and
/// only files under `assets/` with a known extension are kept.
pub fn normalize_frontend_asset_ref(base_dir: &Vec<char>, value: &Vec<char>) -> (res: Option<
    Vec<char>,
>)
    ensures
        match res {
            Some(r) => normalize_ref(base_dir@, value@) == Some(r@),
            None => normalize_ref(base_dir@, value@) is None,
        },
{
    let without_fragment = before_char_of(value, '#');
    let without_query = before_char_of(&without_fragment, '?');
    let v = trim_chars(&without_query);
    if v.len() == 0 || starts_with_str(&v, "http://") || starts_with_str(&v, "https://")
        || starts_with_str(&v, "//") || starts_with_str(&v, "data:") || starts_with_str(
        &v,
        "blob:",
    ) || starts_with_str(&v, "javascript:") {
        return None;
    }
    let normalized = if starts_with_str(&v, "/assets/") {
        proof {
            reveal_strlit("/assets/");
        }
        let mut n = chars_of("assets/");
        let rest = slice_chars(&v, 8, v.len());
        assert(rest@ =~= v@.skip(8));
        append_chars(&mut n, &rest);
        n
    } else if starts_with_str(&v, "assets/") {
        v
    } else if starts_with_str(&v, "./") || starts_with_str(&v, "../") {
        match normalize_relative_asset_ref(base_dir, &v) {
            Some(n) => n,
            None => {
                return None;
            },
        }
    } else {
        return None;
    };
    if starts_with_str(&normalized, "assets/") && has_frontend_asset_extension(&normalized) {
        Some(normalized)
    } else {
        None
    }
}

// ---------------------------------------------------------------------------
// The set of references
// ---------------------------------------------------------------------------

/// The bundle paths that a sequence of raw references names.
pub open spec fn refs_of(base_dir: Seq<char>, values: Seq<Seq<char>>) -> Set<Seq<char>>
    decreases values.len(),
{
    if values.len() == 0 {
        Set::empty()
    } else {
        let r = refs_of(base_dir, values.drop_last());
        match normalize_ref(base_dir, values.last()) {
            Some(x) => r.insert(x),
            None => r,
        }
    }
}

/// Adds the bundle paths that `values` name to a sorted set of references.
fn insert_refs(refs: &mut Vec<Vec<char>>, base_dir: &Vec<char>, values: &Vec<Vec<char>>)
    requires
        strictly_sorted(views(old(refs)@)),
    ensures
        strictly_sorted(views(final(refs)@)),
        views(final(refs)@).to_set() == views(old(refs)@).to_set().union(
            refs_of(base_dir@, views(values@)),
        ),
{
    let ghost start = views(refs@).to_set();
    let ghost vs = views(values@);
    let mut i: usize = 0;
    assert(vs.take(0) =~= seq![]);
    assert(start.union(Set::empty()) =~= start);
    while i < values.len()
        invariant
            vs == views(values@),
            i <= values.len(),
            strictly_sorted(views(refs@)),
            views(refs@).to_set() == start.union(refs_of(base_dir@, vs.take(i as int))),
        decreases values.len() - i,
    {
        assert(vs.take(i + 1).drop_last() =~= vs.take(i as int));
        assert(vs.take(i + 1).last() == values[i as int]@);
        match normalize_frontend_asset_ref(base_dir, &values[i]) {
            Some(r) => {
                let ghost rv = r@;
                let ghost before = views(refs@).to_set();
                insert_sorted(refs, r);
                assert(start.union(refs_of(base_dir@, vs.take(i as int))).insert(rv) =~= start.union(
                    refs_of(base_dir@, vs.take(i as int)).insert(rv),
                ));
            },
            None => {},
        }
        i += 1;
    }
    assert(vs.take(i as int) =~= vs);
}

// ---------------------------------------------------------------------------
// Attribute values in HTML
// ---------------------------------------------------------------------------

/// The quoted values that follow `needle` (such as `src=`) in `rest`, in order. An
/// unquoted value is skipped one character at a time; an unclosed quote ends the scan.
pub open spec fn attr_values(rest: Seq<char>, needle: Seq<char>) -> Seq<Seq<char>>
    decreases rest.len(),
{
    if needle.len() == 0 {
        seq![]
    } else {
        match find(rest, needle) {
            None => seq![],
            Some(index) => {
                proof {
                    lemma_find_first(rest, needle);
                    lemma_trim_start_suffix(rest.skip(index + needle.len()));
                }
                let trimmed = trim_start(rest.skip(index + needle.len()));
                if trimmed.len() == 0 {
                    seq![]
                } else {
                    let q = trimmed[0];
                    if q != '"' && q != '\'' {
                        attr_values(trimmed.skip(1), needle)
                    } else {
                        let value = trimmed.skip(1);
                        match find_char(value, q) {
                            None => seq![],
                            Some(e) => {
                                proof {
                                    lemma_find_char_bound(value, q);
                                }
                                seq![value.take(e)] + attr_values(value.skip(e + 1), needle)
                            },
                        }
                    }
                }
            },
        }
    }
}

/// `find_char` gives a position inside the sequence.
pub proof fn lemma_find_char_bound(s: Seq<char>, c: char)
    ensures
        find_char(s, c) matches Some(k) ==> 0 <= k < s.len() && s[k] == c,
    decreases s.len(),
{
    if s.len() > 0 && s[0] != c {
        lemma_find_char_bound(s.drop_first(), c);
    }
}

/// The raw quoted values of an attribute in the suffix of `html` starting at `pos`.
fn attr_values_from(html: &Vec<char>, needle: &Vec<char>) -> (res: Vec<Vec<char>>)
    requires
        needle.len() > 0,
    ensures
        views(res@) == attr_values(html@, needle@),
{
    let mut res: Vec<Vec<char>> = Vec::new();
    let mut pos: usize = 0;
    assert(html@.skip(0) =~= html@);
    assert(views(res@) =~= seq![]);
    loop
        invariant
            needle.len() > 0,
            pos <= html.len(),
            attr_values(html@, needle@) == views(res@) + attr_values(html@.skip(pos as int), needle@),
        decreases html.len() - pos,
    {
        let ghost rest = html@.skip(pos as int);
        let index = match find_from(html, needle, pos) {
            None => {
                assert(views(res@) + seq![] =~= views(res@));
                return res;
            },
            Some(k) => k,
        };
        proof {
            lemma_find_first(rest, needle@);
            assert(rest.skip(index - pos + needle.len()) =~= html@.skip(index + needle.len()));
        }
        let t = skip_ws_from(html, index + needle.len());
        if t == html.len() {
            assert(html@.skip(t as int) =~= seq![]);
            assert(views(res@) + seq![] =~= views(res@));
            return res;
        }
        let q = html[t];
        assert(html@.skip(t as int)[0] == q);
        assert(html@.skip(t as int).skip(1) =~= html@.skip(t + 1));
        if q != '"' && q != '\'' {
            pos = t + 1;
            continue;
        }
        let e = match find_char_from(html, q, t + 1) {
            None => {
                assert(views(res@) + seq![] =~= views(res@));
                return res;
            },
            Some(e) => e,
        };
        let value = slice_chars(html, t + 1, e);
        let ghost vs = html@.skip(t + 1);
        assert(value@ =~= vs.take(e - (t + 1)));
        assert(vs.skip(e - (t + 1) + 1) =~= html@.skip(e + 1));
        let ghost before = views(res@);
        let ghost vv = value@;
        res.push(value);
        assert(views(res@) =~= before.push(vv));
        assert(before + (seq![vv] + attr_values(html@.skip(e + 1), needle@)) =~= before.push(vv)
            + attr_values(html@.skip(e + 1), needle@));
        pos = e + 1;
    }
}

/// Adds the assets that the quoted values of `attr` name in `index_html` to `refs`.
pub fn collect_asset_refs_for_attr(index_html: &Vec<char>, attr: &str, refs: &mut Vec<Vec<char>>)
    requires
        strictly_sorted(views(old(refs)@)),
    ensures
        strictly_sorted(views(final(refs)@)),
        views(final(refs)@).to_set() == views(old(refs)@).to_set().union(
            refs_of(seq![], attr_values(index_html@, attr@ + "="@)),
        ),
{
    let mut needle = chars_of(attr);
    append_str(&mut needle, "=");
    proof {
        reveal_strlit("=");
    }
    let values = attr_values_from(index_html, &needle);
    let base: Vec<char> = Vec::new();
    assert(base@ =~= seq![]);
    insert_refs(refs, &base, &values);
}

/// The assets that the `src` and `href` attributes of an `index.html` name, sorted and
/// without duplicates.
pub open spec fn html_refs(index_html: Seq<char>) -> Set<Seq<char>> {
    refs_of(seq![], attr_values(index_html, "src="@)).union(
        refs_of(seq![], attr_values(index_html, "href="@)),
    )
}

/// The assets that an `index.html` names in `src` and `href` attributes, sorted and
/// without duplicates.
pub fn extract_html_asset_refs(index_html: &str) -> (res: Vec<String>)
    ensures
        strictly_sorted(string_views(res@)),
        string_views(res@).to_set() == html_refs(index_html@),
{
    let html = chars_of(index_html);
    let mut refs: Vec<Vec<char>> = Vec::new();
    assert(views(refs@).to_set() =~= Set::empty());
    collect_asset_refs_for_attr(&html, "src", &mut refs);
    collect_asset_refs_for_attr(&html, "href", &mut refs);
    proof {
        reveal_strlit("src");
        reveal_strlit("href");
        reveal_strlit("src=");
        reveal_strlit("href=");
        reveal_strlit("=");
        assert("src"@ + "="@ =~= "src="@);
        assert("href"@ + "="@ =~= "href="@);
        assert(Set::<Seq<char>>::empty().union(refs_of(seq![], attr_values(html@, "src="@))) =~= refs_of(
            seq![],
            attr_values(html@, "src="@),
        ));
    }
    to_strings(&refs)
}

// ---------------------------------------------------------------------------
// Quoted strings and CSS urls in scripts and stylesheets
// ---------------------------------------------------------------------------

/// A quote character of JavaScript or CSS.
pub open spec fn is_quote(c: char) -> bool {
    c == '"' || c == '\''
}

/// The first quote character in `s`.
pub open spec fn first_quote(s: Seq<char>) -> Option<int>
    decreases s.len(),
{
    if s.len() == 0 {
        None
    } else if is_quote(s[0]) {
        Some(0)
    } else {
        match first_quote(s.drop_first()) {
            Some(k) => Some(k + 1),
            None => None,
        }
    }
}

/// The position of the quote `q` that closes a string, a backslash escaping the next
/// character; `escaped` tells whether the first character is escaped.
pub open spec fn close_quote(v: Seq<char>, q: char, escaped: bool) -> Option<int>
    decreases v.len(),
{
    if v.len() == 0 {
        None
    } else {
        let rest = if escaped {
            close_quote(v.drop_first(), q, false)
        } else if v[0] == '\\' {
            close_quote(v.drop_first(), q, true)
        } else if v[0] == q {
            Some(-1)
        } else {
            close_quote(v.drop_first(), q, false)
        };
        match rest {
            Some(k) => Some(k + 1),
            None => None,
        }
    }
}

/// The quoted strings of a script or stylesheet, in order; an unclosed string ends the scan.
pub open spec fn quoted_values(s: Seq<char>) -> Seq<Seq<char>>
    decreases s.len(),
{
    match first_quote(s) {
        None => seq![],
        Some(k) => {
            proof {
                lemma_first_quote_bound(s);
            }
            let q = s[k];
            let v = s.skip(k + 1);
            match close_quote(v, q, false) {
                None => seq![],
                Some(e) => {
                    proof {
                        lemma_close_quote_bound(v, q, false);
                    }
                    seq![v.take(e)] + quoted_values(v.skip(e + 1))
                },
            }
        },
    }
}

/// `first_quote` gives the position of a quote.
pub proof fn lemma_first_quote_bound(s: Seq<char>)
    ensures
        first_quote(s) matches Some(k) ==> 0 <= k < s.len() && is_quote(s[k]),
    decreases s.len(),
{
    if s.len() > 0 && !is_quote(s[0]) {
        lemma_first_quote_bound(s.drop_first());
    }
}

/// `close_quote` gives the position of the closing quote.
pub proof fn lemma_close_quote_bound(v: Seq<char>, q: char, escaped: bool)
    ensures
        close_quote(v, q, escaped) matches Some(k) ==> 0 <= k < v.len() && v[k] == q,
    decreases v.len(),
{
    if v.len() > 0 {
        if escaped {
            lemma_close_quote_bound(v.drop_first(), q, false);
        } else if v[0] == '\\' {
            lemma_close_quote_bound(v.drop_first(), q, true);
        } else if v[0] != q {
            lemma_close_quote_bound(v.drop_first(), q, false);
        }
    }
}

/// The raw quoted strings of a script or stylesheet.
fn quoted_values_of(s: &Vec<char>) -> (res: Vec<Vec<char>>)
    ensures
        views(res@) == quoted_values(s@),
{
    let mut res: Vec<Vec<char>> = Vec::new();
    let mut pos: usize = 0;
    assert(s@.skip(0) =~= s@);
    assert(views(res@) =~= seq![]);
    while pos < s.len()
        invariant
            pos <= s.len(),
            quoted_values(s@) == views(res@) + quoted_values(s@.skip(pos as int)),
        decreases s.len() - pos,
    {
        // the first quote at or after pos
        let mut k: usize = pos;
        while k < s.len() && !(s[k] == '"' || s[k] == '\'')
            invariant
                pos <= k <= s.len(),
                first_quote(s@.skip(pos as int)) == (match first_quote(s@.skip(k as int)) {
                    Some(j) => Some(j + k - pos),
                    None => None::<int>,
                }),
            decreases s.len() - k,
        {
            assert(s@.skip(k as int)[0] == s@[k as int]);
            assert(s@.skip(k as int).drop_first() =~= s@.skip(k + 1));
            k += 1;
        }
        if k == s.len() {
            assert(s@.skip(k as int) =~= seq![]);
            assert(views(res@) + seq![] =~= views(res@));
            return res;
        }
        assert(s@.skip(k as int)[0] == s@[k as int]);
        let q = s[k];
        // the closing quote
        let mut e: usize = k + 1;
        let mut escaped = false;
        let ghost v = s@.skip(k + 1);
        assert(s@.skip(pos as int).skip(k - pos + 1) =~= v);
        assert(v.skip(0) =~= v);
        let mut found = false;
        loop
            invariant_except_break
                k + 1 <= e <= s.len(),
                v == s@.skip(k + 1),
                !found,
                close_quote(v, q, false) == (match close_quote(s@.skip(e as int), q, escaped) {
                    Some(j) => Some(j + e - (k + 1)),
                    None => None::<int>,
                }),
            ensures
                k + 1 <= e <= s.len(),
                found ==> e < s.len() && close_quote(v, q, false) == Some(e - (k + 1)),
                !found ==> close_quote(v, q, false) is None,
            decreases s.len() - e,
        {
            if e == s.len() {
                assert(s@.skip(e as int) =~= seq![]);
                break;
            }
            assert(s@.skip(e as int)[0] == s@[e as int]);
            assert(s@.skip(e as int).drop_first() =~= s@.skip(e + 1));
            if escaped {
                escaped = false;
            } else if s[e] == '\\' {
                escaped = true;
            } else if s[e] == q {
                found = true;
                break;
            }
            e += 1;
        }
        if !found {
            assert(views(res@) + seq![] =~= views(res@));
            return res;
        }
        let value = slice_chars(s, k + 1, e);
        assert(value@ =~= v.take(e - (k + 1)));
        assert(v.skip(e - (k + 1) + 1) =~= s@.skip(e + 1));
        let ghost before = views(res@);
        let ghost vv = value@;
        res.push(value);
        assert(views(res@) =~= before.push(vv));
        assert(before + (seq![vv] + quoted_values(s@.skip(e + 1))) =~= before.push(vv)
            + quoted_values(s@.skip(e + 1)));
        pos = e + 1;
    }
    assert(s@.skip(pos as int) =~= seq![]);
    assert(views(res@) + seq![] =~= views(res@));
    res
}

/// `s` without the leading and trailing characters `c`: `str::trim_matches(c)`.
pub open spec fn trim_matches(s: Seq<char>, c: char) -> Seq<char>
    decreases s.len(),
{
    if s.len() > 0 && s[0] == c {
        trim_matches(s.drop_first(), c)
    } else if s.len() > 0 && s.last() == c {
        trim_matches(s.drop_last(), c)
    } else {
        s
    }
}

fn trim_matches_of(s: &Vec<char>, c: char) -> (res: Vec<char>)
    ensures
        res@ == trim_matches(s@, c),
{
    let mut a: usize = 0;
    let mut b: usize = s.len();
    assert(s@.subrange(0, s.len() as int) =~= s@);
    while a < b && (s[a] == c || s[b - 1] == c)
        invariant
            a <= b <= s.len(),
            trim_matches(s@, c) == trim_matches(s@.subrange(a as int, b as int), c),
        decreases b - a,
    {
        let ghost t = s@.subrange(a as int, b as int);
        assert(t[0] == s@[a as int]);
        assert(t.last() == s@[b - 1]);
        if s[a] == c {
            assert(t.drop_first() =~= s@.subrange(a + 1, b as int));
            a += 1;
        } else {
            assert(t.drop_last() =~= s@.subrange(a as int, b - 1));
            b -= 1;
        }
    }
    slice_chars(s, a, b)
}

/// The value of a CSS `url(...)`: trimmed, then stripped of double and single quotes.
pub open spec fn css_url_value(raw: Seq<char>) -> Seq<char> {
    trim_matches(trim_matches(trim(raw), '"'), '\'')
}

/// The values of the `url(...)` of a stylesheet or script, in order; an unclosed `url(`
/// ends the scan.
pub open spec fn css_url_values(s: Seq<char>) -> Seq<Seq<char>>
    decreases s.len(),
{
    match find(s, "url("@) {
        None => seq![],
        Some(i) => {
            proof {
                lemma_find_first(s, "url("@);
                reveal_strlit("url(");
            }
            let after = s.skip(i + 4);
            match find_char(after, ')') {
                None => seq![],
                Some(e) => {
                    proof {
                        lemma_find_char_bound(after, ')');
                    }
                    seq![css_url_value(after.take(e))] + css_url_values(after.skip(e + 1))
                },
            }
        },
    }
}

/// The values of the `url(...)` of a stylesheet or script.
fn css_url_values_of(s: &Vec<char>) -> (res: Vec<Vec<char>>)
    ensures
        views(res@) == css_url_values(s@),
{
    let needle = chars_of("url(");
    proof {
        reveal_strlit("url(");
    }
    let mut res: Vec<Vec<char>> = Vec::new();
    let mut pos: usize = 0;
    assert(s@.skip(0) =~= s@);
    assert(views(res@) =~= seq![]);
    loop
        invariant
            needle@ == "url("@,
            needle.len() == 4,
            pos <= s.len(),
            css_url_values(s@) == views(res@) + css_url_values(s@.skip(pos as int)),
        decreases s.len() - pos,
    {
        let ghost rest = s@.skip(pos as int);
        let index = match find_from(s, &needle, pos) {
            None => {
                assert(views(res@) + seq![] =~= views(res@));
                return res;
            },
            Some(k) => k,
        };
        assert(rest.skip(index - pos + 4) =~= s@.skip(index + 4));
        let e = match find_char_from(s, ')', index + 4) {
            None => {
                assert(views(res@) + seq![] =~= views(res@));
                return res;
            },
            Some(e) => e,
        };
        let ghost after = s@.skip(index + 4);
        let raw = slice_chars(s, index + 4, e);
        assert(raw@ =~= after.take(e - (index + 4)));
        assert(after.skip(e - (index + 4) + 1) =~= s@.skip(e + 1));
        let t = trim_chars(&raw);
        let t = trim_matches_of(&t, '"');
        let value = trim_matches_of(&t, '\'');
        let ghost before = views(res@);
        let ghost vv = value@;
        res.push(value);
        assert(views(res@) =~= before.push(vv));
        assert(before + (seq![vv] + css_url_values(s@.skip(e + 1))) =~= before.push(vv)
            + css_url_values(s@.skip(e + 1)));
        pos = e + 1;
    }
}

/// Adds the assets that the quoted strings of a script or stylesheet name to `refs`.
pub fn collect_asset_refs_for_quoted_values(
    contents: &Vec<char>,
    base_dir: &Vec<char>,
    refs: &mut Vec<Vec<char>>,
)
    requires
        strictly_sorted(views(old(refs)@)),
    ensures
        strictly_sorted(views(final(refs)@)),
        views(final(refs)@).to_set() == views(old(refs)@).to_set().union(
            refs_of(base_dir@, quoted_values(contents@)),
        ),
{
    let values = quoted_values_of(contents);
    insert_refs(refs, base_dir, &values);
}

/// Adds the assets that the CSS `url(...)` of a stylesheet or script name to `refs`.
pub fn collect_asset_refs_for_css_urls(
    contents: &Vec<char>,
    base_dir: &Vec<char>,
    refs: &mut Vec<Vec<char>>,
)
    requires
        strictly_sorted(views(old(refs)@)),
    ensures
        strictly_sorted(views(final(refs)@)),
        views(final(refs)@).to_set() == views(old(refs)@).to_set().union(
            refs_of(base_dir@, css_url_values(contents@)),
        ),
{
    let values = css_url_values_of(contents);
    insert_refs(refs, base_dir, &values);
}

/// The position of the last `/` in `s`.
pub open spec fn last_slash(s: Seq<char>) -> Option<int>
    decreases s.len(),
{
    if s.len() == 0 {
        None
    } else if s.last() == '/' {
        Some(s.len() - 1)
    } else {
        last_slash(s.drop_last())
    }
}

/// The directory of an asset: what comes before its last `/` (`rsplit_once('/')`), or
/// nothing.
pub open spec fn base_dir_of(asset: Seq<char>) -> Seq<char> {
    match last_slash(asset) {
        Some(k) => asset.take(k),
        None => seq![],
    }
}

fn base_dir_chars(asset: &Vec<char>) -> (res: Vec<char>)
    ensures
        res@ == base_dir_of(asset@),
{
    let mut j: usize = asset.len();
    assert(asset@.take(j as int) =~= asset@);
    while j > 0 && asset[j - 1] != '/'
        invariant
            j <= asset.len(),
            last_slash(asset@) == last_slash(asset@.take(j as int)),
        decreases j,
    {
        assert(asset@.take(j as int).drop_last() =~= asset@.take(j - 1));
        j -= 1;
    }
    if j == 0 {
        assert(asset@.take(0) =~= seq![]);
        Vec::new()
    } else {
        assert(asset@.take(j as int).last() == asset@[j - 1]);
        assert(asset@.take(j as int).len() - 1 == j - 1);
        slice_chars(asset, 0, j - 1)
    }
}

/// The assets that a script or stylesheet names, relative to its own directory.
pub open spec fn nested_refs(contents: Seq<char>, current_asset: Seq<char>) -> Set<Seq<char>> {
    refs_of(base_dir_of(current_asset), quoted_values(contents)).union(
        refs_of(base_dir_of(current_asset), css_url_values(contents)),
    )
}

/// The assets that the text of `current_asset` names in quoted strings and CSS urls,
/// resolved against its directory, sorted and without duplicates.
pub fn extract_nested_asset_refs(contents: &str, current_asset: &str) -> (res: Vec<String>)
    ensures
        strictly_sorted(string_views(res@)),
        string_views(res@).to_set() == nested_refs(contents@, current_asset@),
{
    let text = chars_of(contents);
    let asset = chars_of(current_asset);
    let base_dir = base_dir_chars(&asset);
    let mut refs: Vec<Vec<char>> = Vec::new();
    assert(views(refs@).to_set() =~= Set::empty());
    collect_asset_refs_for_quoted_values(&text, &base_dir, &mut refs);
    collect_asset_refs_for_css_urls(&text, &base_dir, &mut refs);
    proof {
        assert(Set::<Seq<char>>::empty().union(refs_of(base_dir@, quoted_values(text@))) =~= refs_of(
            base_dir@,
            quoted_values(text@),
        ));
    }
    to_strings(&refs)
}

// ---------------------------------------------------------------------------
// Walking the built assets
// ---------------------------------------------------------------------------

/// What the file system says of an asset that the walk reached.
#[derive(Clone, Copy, Debug, PartialEq, Eq)]
pub enum AssetCheck {
    /// Nothing can be read at the asset's path.
    Missing,
    /// The path names something that is not a file.
    NotAFile,
    /// The file is empty.
    Empty,
    /// A non-empty file.
    File,
}

/// Why a built frontend does not pass the asset gate.
#[derive(Clone, Debug)]
pub enum FrontendAssetError {
    /// `index.html` refers to no asset.
    NoAssetRefs,
    /// A referenced asset is missing from the build.
    AssetMissing(String),
    /// A referenced asset is not a file.
    AssetNotAFile(String),
    /// A referenced asset is an empty file.
    AssetEmpty(String),
}

/// The walk over the assets of a built frontend: those already reached, sorted and
/// without duplicates, and a stack of those still to visit (the last first).
pub struct AssetWalk {
    pub seen: Vec<Vec<char>>,
    pub pending: Vec<Vec<char>>,
}

/// The references of `xs` that `seen` does not hold, in order.
pub open spec fn unseen(xs: Seq<Seq<char>>, seen: Set<Seq<char>>) -> Seq<Seq<char>>
    decreases xs.len(),
{
    if xs.len() == 0 {
        seq![]
    } else if seen.contains(xs.last()) {
        unseen(xs.drop_last(), seen)
    } else {
        unseen(xs.drop_last(), seen).push(xs.last())
    }
}

impl AssetWalk {
    /// The assets reached so far form a set, listed in order.
    pub open spec fn wf(&self) -> bool {
        strictly_sorted(views(self.seen@))
    }

    /// The assets reached so far.
    pub open spec fn seen_set(&self) -> Set<Seq<char>> {
        views(self.seen@).to_set()
    }

    /// Starts the walk at the assets that `index.html` names; fails when it names none.
    pub fn start(index_html: &str) -> (res: Result<AssetWalk, FrontendAssetError>)
        ensures
            match res {
                Ok(w) => {
                    &&& w.wf()
                    &&& w.seen@.len() == 0
                    &&& strictly_sorted(views(w.pending@))
                    &&& views(w.pending@).to_set() == html_refs(index_html@)
                    &&& html_refs(index_html@).len() > 0
                },
                Err(e) => e is NoAssetRefs && html_refs(index_html@) == Set::<Seq<char>>::empty(),
            },
    {
        let entry = extract_html_asset_refs(index_html);
        if entry.len() == 0 {
            assert(string_views(entry@) =~= seq![]);
            assert(html_refs(index_html@) =~= Set::<Seq<char>>::empty());
            return Err(FrontendAssetError::NoAssetRefs);
        }
        let pending = chars_vecs(&entry);
        proof {
            let x = string_views(entry@)[0];
            assert(string_views(entry@).to_set().contains(x));
            vstd::set_lib::lemma_set_empty_equivalency_len(html_refs(index_html@));
            assert(html_refs(index_html@).finite()) by {
                vstd::seq_lib::seq_to_set_is_finite(string_views(entry@));
            }
        }
        Ok(AssetWalk { seen: Vec::new(), pending })
    }

    /// Takes the next asset to visit from the stack, skipping those already reached, and
    /// marks it reached; `None` when nothing is left to visit.
    pub fn next_asset(&mut self) -> (res: Option<String>)
        requires
            old(self).wf(),
        ensures
            final(self).wf(),
            match res {
                None => {
                    &&& final(self).pending@.len() == 0
                    &&& final(self).seen_set() == old(self).seen_set()
                    &&& forall|i: int|
                        0 <= i < old(self).pending@.len() ==> old(self).seen_set().contains(
                            #[trigger] old(self).pending@[i]@,
                        )
                },
                Some(a) => {
                    let k = final(self).pending@.len();
                    &&& k < old(self).pending@.len()
                    &&& final(self).pending@ == old(self).pending@.take(k as int)
                    &&& a@ == old(self).pending@[k as int]@
                    &&& !old(self).seen_set().contains(a@)
                    &&& final(self).seen_set() == old(self).seen_set().insert(a@)
                    &&& forall|i: int|
                        k < i < old(self).pending@.len() ==> old(self).seen_set().contains(
                            #[trigger] old(self).pending@[i]@,
                        )
                },
            },
    {
        let ghost old_pending = self.pending@;
        let ghost old_seen = views(self.seen@).to_set();
        while self.pending.len() > 0
            invariant
                old_pending == old(self).pending@,
                old_seen == old(self).seen_set(),
                strictly_sorted(views(self.seen@)),
                views(self.seen@).to_set() == old_seen,
                self.pending@.len() <= old_pending.len(),
                self.pending@ == old_pending.take(self.pending@.len() as int),
                forall|i: int|
                    self.pending@.len() <= i < old_pending.len() ==> old_seen.contains(
                        #[trigger] old_pending[i]@,
                    ),
            decreases self.pending@.len(),
        {
            let ghost k = self.pending@.len() - 1;
            let a = self.pending.pop().unwrap();
            assert(a == old_pending[k]);
            assert(self.pending@ =~= old_pending.take(k));
            if !holds_chars(&self.seen, &a) {
                let ghost av = a@;
                let s = string_from(&a);
                insert_sorted(&mut self.seen, a);
                return Some(s);
            }
        }
        None
    }

    /// Pushes the assets that the text of `asset` names and that the walk has not reached
    /// yet, in order, onto the stack.
    pub fn push_nested(&mut self, contents: &str, asset: &str)
        requires
            old(self).wf(),
        ensures
            final(self).wf(),
            final(self).seen@ == old(self).seen@,
            exists|found: Seq<Seq<char>>|
                {
                    &&& strictly_sorted(found)
                    &&& found.to_set() == nested_refs(contents@, asset@)
                    &&& views(final(self).pending@) == views(old(self).pending@) + unseen(
                        found,
                        old(self).seen_set(),
                    )
                },
    {
        let nested = extract_nested_asset_refs(contents, asset);
        let found = chars_vecs(&nested);
        let ghost fv = views(found@);
        let ghost seen = views(self.seen@).to_set();
        let ghost seen_vec = self.seen@;
        let ghost start = views(self.pending@);
        let mut i: usize = 0;
        assert(fv.take(0) =~= seq![]);
        assert(start + seq![] =~= start);
        while i < found.len()
            invariant
                fv == views(found@),
                seen == views(self.seen@).to_set(),
                seen == old(self).seen_set(),
                start == views(old(self).pending@),
                seen_vec == self.seen@,
                seen_vec == old(self).seen@,
                strictly_sorted(views(self.seen@)),
                i <= found.len(),
                views(self.pending@) == start + unseen(fv.take(i as int), seen),
            decreases found.len() - i,
        {
            assert(fv.take(i + 1).drop_last() =~= fv.take(i as int));
            assert(fv.take(i + 1).last() == found[i as int]@);
            if !holds_chars(&self.seen, &found[i]) {
                let c = slice_chars(&found[i], 0, found[i].len());
                assert(c@ =~= found[i as int]@);
                let ghost before = views(self.pending@);
                self.pending.push(c);
                assert(views(self.pending@) =~= before.push(found[i as int]@));
            }
            i += 1;
        }
        assert(fv.take(i as int) =~= fv);
    }

    /// The assets reached, in order.
    pub fn reached(&self) -> (res: Vec<String>)
        ensures
            string_views(res@) == views(self.seen@),
    {
        to_strings(&self.seen)
    }
}

/// What the walk does with an asset that the file system described: an error for one
/// that is missing, not a file or empty; otherwise whether its text is to be scanned.
pub fn asset_check_outcome(asset: &str, check: AssetCheck) -> (res: Result<
    bool,
    FrontendAssetError,
>)
    ensures
        match check {
            AssetCheck::Missing => (res matches Err(FrontendAssetError::AssetMissing(a)) && a@
                == asset@),
            AssetCheck::NotAFile => (res matches Err(FrontendAssetError::AssetNotAFile(a)) && a@
                == asset@),
            AssetCheck::Empty => (res matches Err(FrontendAssetError::AssetEmpty(a)) && a@
                == asset@),
            AssetCheck::File => res == Ok::<bool, FrontendAssetError>(scans_contents(asset@)),
        },
{
    let name = string_from(&chars_of(asset));
    match check {
        AssetCheck::Missing => Err(FrontendAssetError::AssetMissing(name)),
        AssetCheck::NotAFile => Err(FrontendAssetError::AssetNotAFile(name)),
        AssetCheck::Empty => Err(FrontendAssetError::AssetEmpty(name)),
        AssetCheck::File => Ok(should_scan_asset_contents(asset)),
    }
}

// ---------------------------------------------------------------------------
// The embedded bundle
// ---------------------------------------------------------------------------

/// An asset embedded in the application bundle: its key (without a leading `/`) and
/// its size in bytes.
#[derive(Clone, Debug)]
pub struct EmbeddedAsset {
    pub key: String,
    pub len: usize,
}

/// Whether the bundle holds `name` with some content.
pub open spec fn embedded(bundle: Seq<EmbeddedAsset>, name: Seq<char>) -> bool {
    exists|i: int| 0 <= i < bundle.len() && #[trigger] bundle[i].key@ == name && bundle[i].len > 0
}

fn embedded_in(bundle: &Vec<EmbeddedAsset>, name: &Vec<char>) -> (res: bool)
    ensures
        res == embedded(bundle@, name@),
{
    let mut i: usize = 0;
    while i < bundle.len()
        invariant
            i <= bundle.len(),
            forall|j: int| 0 <= j < i ==> !(#[trigger] bundle@[j].key@ == name@ && bundle@[j].len > 0),
        decreases bundle.len() - i,
    {
        if bundle[i].len > 0 && chars_eq_str(name, bundle[i].key.as_str()) {
            assert(bundle@[i as int].key@ == name@);
            return true;
        }
        i += 1;
    }
    false
}

/// The expected assets that the bundle lacks, in order.
pub open spec fn missing_from(bundle: Seq<EmbeddedAsset>, expected: Seq<Seq<char>>) -> Seq<
    Seq<char>,
>
    decreases expected.len(),
{
    if expected.len() == 0 {
        seq![]
    } else if embedded(bundle, expected.last()) {
        missing_from(bundle, expected.drop_last())
    } else {
        missing_from(bundle, expected.drop_last()).push(expected.last())
    }
}

/// The message for a bundle without `index.html`.
pub open spec fn index_missing_message(count: nat) -> Seq<char> {
    "frontend asset missing: index.html (embedded_assets="@ + decimal(count)
        + "). Run `pnpm build` before compiling the Tauri app, then rebuild the app bundle."@
}

/// The message for a bundle that lacks expected assets.
pub open spec fn stale_bundle_message(missing: Seq<Seq<char>>) -> Seq<char> {
    "frontend embedded assets are stale or incomplete; missing from bundle: "@ + join(
        missing,
        ", "@,
    )
}

/// Checks a bundle against the assets that the walk over the built frontend reached:
/// `index.html` must be embedded with content, and so must every expected asset.
/// Gives the number of expected assets.
pub fn check_frontend_assets_for_dist(expected: &Vec<String>, bundle: &Vec<EmbeddedAsset>) -> (res:
    Result<usize, String>)
    ensures
        !embedded(bundle@, "index.html"@) ==> (res matches Err(m) && m@ == index_missing_message(
            bundle@.len(),
        )),
        embedded(bundle@, "index.html"@) && missing_from(bundle@, string_views(expected@)).len()
            > 0 ==> (res matches Err(m) && m@ == stale_bundle_message(
            missing_from(bundle@, string_views(expected@)),
        )),
        embedded(bundle@, "index.html"@) && missing_from(bundle@, string_views(expected@)).len()
            == 0 ==> res == Ok::<usize, String>(expected.len()),
{
    let index = chars_of("index.html");
    if !embedded_in(bundle, &index) {
        let mut m = chars_of("frontend asset missing: index.html (embedded_assets=");
        let count = decimal_chars(bundle.len() as u64);
        append_chars(&mut m, &count);
        append_str(
            &mut m,
            "). Run `pnpm build` before compiling the Tauri app, then rebuild the app bundle.",
        );
        return Err(string_from(&m));
    }
    let names = chars_vecs(expected);
    let ghost ev = views(names@);
    let mut missing: Vec<Vec<char>> = Vec::new();
    let mut i: usize = 0;
    assert(ev.take(0) =~= seq![]);
    while i < names.len()
        invariant
            ev == views(names@),
            i <= names.len(),
            views(missing@) == missing_from(bundle@, ev.take(i as int)),
        decreases names.len() - i,
    {
        assert(ev.take(i + 1).drop_last() =~= ev.take(i as int));
        assert(ev.take(i + 1).last() == names[i as int]@);
        if !embedded_in(bundle, &names[i]) {
            let c = slice_chars(&names[i], 0, names[i].len());
            assert(c@ =~= names[i as int]@);
            let ghost before = views(missing@);
            missing.push(c);
            assert(views(missing@) =~= before.push(names[i as int]@));
        }
        i += 1;
    }
    assert(ev.take(i as int) =~= ev);
    if missing.len() > 0 {
        let mut m = chars_of("frontend embedded assets are stale or incomplete; missing from bundle: ");
        let list = join_chars(&missing, ", ");
        append_chars(&mut m, &list);
        return Err(string_from(&m));
    }
    Ok(expected.len())
}

} // verus!
