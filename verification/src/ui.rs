//! Text shaping for the terminal: compact sources and commits, row counts, and wrapping of
//! long messages to a width.

use vstd::prelude::*;
use crate::text::{chars_of, concat, decimal, has_prefix, has_suffix, is_ascii_hex, is_ascii_hex_char, owned,
    push_char, split_by, split_seq, starts_with, str_eq, strip_prefix, strip_suffix, u64_to_decimal};

verus! {

/// `s` without every trailing copy of `p` (`str::trim_end_matches`).
pub open spec fn trim_end_str(s: Seq<char>, p: Seq<char>) -> Seq<char>
    decreases s.len(),
{
    if p.len() > 0 && has_suffix(s, p) {
        trim_end_str(s.subrange(0, s.len() - p.len()), p)
    } else {
        s
    }
}

/// `s` without every leading copy of `p` (`str::trim_start_matches`).
pub open spec fn trim_start_str(s: Seq<char>, p: Seq<char>) -> Seq<char>
    decreases s.len(),
{
    if p.len() > 0 && has_prefix(s, p) {
        trim_start_str(s.subrange(p.len() as int, s.len() as int), p)
    } else {
        s
    }
}

/// Pieces joined with a separator (`[String]::join`).
pub open spec fn join_with(parts: Seq<Seq<char>>, sep: Seq<char>) -> Seq<char>
    decreases parts.len(),
{
    if parts.len() == 0 {
        Seq::empty()
    } else if parts.len() == 1 {
        parts[0]
    } else {
        join_with(parts.drop_last(), sep) + sep + parts.last()
    }
}

pub fn trim_end_matches(s: &str, p: &str) -> (r: String)
    ensures r@ == trim_end_str(s@, p@),
{
    let mut cur = owned(s);
    if p.is_empty() {
        return cur;
    }
    loop
        invariant
            p@.len() > 0,
            trim_end_str(cur@, p@) == trim_end_str(s@, p@),
        decreases cur@.len(),
    {
        match strip_suffix(cur.as_str(), p) {
            Some(t) => {
                cur = t;
            },
            None => {
                return cur;
            },
        }
    }
}

pub fn trim_start_matches(s: &str, p: &str) -> (r: String)
    ensures r@ == trim_start_str(s@, p@),
{
    let mut cur = owned(s);
    if p.is_empty() {
        return cur;
    }
    loop
        invariant
            p@.len() > 0,
            trim_start_str(cur@, p@) == trim_start_str(s@, p@),
        decreases cur@.len(),
    {
        match strip_prefix(cur.as_str(), p) {
            Some(t) => {
                cur = t;
            },
            None => {
                return cur;
            },
        }
    }
}

pub fn join_strings(parts: &Vec<String>, from: usize, sep: &str) -> (r: String)
    requires from <= parts@.len(),
    ensures r@ == join_with(parts@.subrange(from as int, parts@.len() as int).map_values(|p: String| p@), sep@),
{
    let ghost all = parts@.map_values(|p: String| p@);
    let mut out = String::new();
    let mut i: usize = from;
    assert(parts@.subrange(from as int, from as int).map_values(|p: String| p@) =~= Seq::<Seq<char>>::empty());
    while i < parts.len()
        invariant
            from <= i <= parts@.len(),
            out@ == join_with(parts@.subrange(from as int, i as int).map_values(|p: String| p@), sep@),
        decreases parts.len() - i,
    {
        let ghost before = parts@.subrange(from as int, i as int).map_values(|p: String| p@);
        let ghost after = parts@.subrange(from as int, i + 1).map_values(|p: String| p@);
        assert(after.drop_last() == before);
        assert(after.last() == parts@[i as int]@);
        if i == from {
            out = parts[i].clone();
        } else {
            out = concat(&concat(out.as_str(), sep), parts[i].as_str());
        }
        i += 1;
    }
    out
}

/// The named parts of a path-like text: its `/`-separated parts that are not empty.
pub open spec fn nonempty_parts(s: Seq<char>) -> Seq<Seq<char>> {
    split_seq(s, Some('/')).filter(|p: Seq<char>| p.len() > 0)
}

/// A repository source shortened for a table: GitHub URLs become `owner/repo`, an absolute
/// or home path keeps its last four parts behind `…/`, anything else stays, always without
/// trailing `.git`.
pub open spec fn compact_source_spec(source: Seq<char>) -> Seq<char> {
    let s = trim_end_str(source, ".git"@);
    if has_prefix(s, "https://github.com/"@) {
        s.subrange(19, s.len() as int)
    } else if has_prefix(s, "git@github.com:"@) {
        s.subrange(15, s.len() as int)
    } else if has_prefix(s, "/"@) || has_prefix(s, "~/"@) {
        let prefix = if has_prefix(s, "/"@) { "/"@ } else { "~/"@ };
        let parts = nonempty_parts(trim_start_str(trim_start_str(s, "/"@), "~/"@));
        if parts.len() > 4 {
            "…/"@ + join_with(parts.subrange(parts.len() - 4, parts.len() as int), "/"@)
        } else {
            prefix + join_with(parts, "/"@)
        }
    } else {
        s
    }
}

fn nonempty_parts_of(s: &str) -> (r: Vec<String>)
    ensures r@.map_values(|p: String| p@) == nonempty_parts(s@),
{
    let parts = split_by(s, Some('/'));
    let ghost views = parts@.map_values(|p: String| p@);
    let ghost pred = |p: Seq<char>| p.len() > 0;
    assert(views == split_seq(s@, Some('/')));
    let mut out: Vec<String> = Vec::new();
    let mut i: usize = 0;
    proof {
        reveal(Seq::filter);
        assert(views.subrange(0, 0).filter(pred) =~= Seq::<Seq<char>>::empty());
    }
    while i < parts.len()
        invariant
            i <= parts@.len(),
            views == parts@.map_values(|p: String| p@),
            pred == (|p: Seq<char>| p.len() > 0),
            out@.map_values(|p: String| p@) == views.subrange(0, i as int).filter(pred),
        decreases parts.len() - i,
    {
        proof {
            reveal(Seq::filter);
            assert(views.subrange(0, i + 1).drop_last() == views.subrange(0, i as int));
            assert(views[i as int] == parts@[i as int]@);
        }
        let ghost before = out@;
        if !parts[i].as_str().is_empty() {
            out.push(parts[i].clone());
            assert(out@.map_values(|p: String| p@) =~= before.map_values(|p: String| p@).push(parts@[i as int]@));
        }
        i += 1;
    }
    assert(views.subrange(0, parts@.len() as int) == views);
    out
}

pub fn compact_source(source: &str) -> (r: String)
    ensures r@ == compact_source_spec(source@),
{
    proof {
        reveal_strlit(".git");
        reveal_strlit("https://github.com/");
        reveal_strlit("git@github.com:");
        reveal_strlit("/");
        reveal_strlit("~/");
    }
    let s = trim_end_matches(source, ".git");
    if let Some(rest) = strip_prefix(s.as_str(), "https://github.com/") {
        return rest;
    }
    if let Some(rest) = strip_prefix(s.as_str(), "git@github.com:") {
        return rest;
    }
    if starts_with(s.as_str(), "/") || starts_with(s.as_str(), "~/") {
        let prefix = if starts_with(s.as_str(), "/") { "/" } else { "~/" };
        let a = trim_start_matches(s.as_str(), "/");
        let b = trim_start_matches(a.as_str(), "~/");
        let parts = nonempty_parts_of(b.as_str());
        let ghost views = parts@.map_values(|p: String| p@);
        if parts.len() > 4 {
            let tail = join_strings(&parts, parts.len() - 4, "/");
            assert(parts@.subrange(parts@.len() - 4, parts@.len() as int).map_values(|p: String| p@)
                == views.subrange(views.len() - 4, views.len() as int));
            return concat("…/", tail.as_str());
        }
        let all = join_strings(&parts, 0, "/");
        assert(parts@.subrange(0, parts@.len() as int) == parts@);
        return concat(prefix, all.as_str());
    }
    s
}

/// The row count shown beside a table's title.
pub open spec fn row_count_spec(count: usize) -> Seq<char> {
    "("@ + decimal(count as nat) + (if count == 1 { " row)"@ } else { " rows)"@ })
}

pub fn row_count(count: usize) -> (r: String)
    ensures r@ == row_count_spec(count),
{
    let n = u64_to_decimal(count as u64);
    concat(&concat("(", n.as_str()), if count == 1 { " row)" } else { " rows)" })
}

/// `console::truncate_str(s, width, tail)`: `s` cut to a display width with `tail` at the
/// end; what it gives depends on its arguments alone.
pub uninterp spec fn truncated(s: Seq<char>, width: usize, tail: Seq<char>) -> Seq<char>;

/// `console::truncate_str`. It takes the tail's display width from `width` (measured
/// without removing escape codes), so the width must hold the tail and the tail must hold
/// no escape character.
#[verifier::external_body]
fn truncate_for_display(s: &str, width: usize, tail: &str) -> (r: String)
    requires
        width >= text_width(tail@),
        forall|i: int| 0 <= i < tail@.len() ==> tail@[i] != '\u{1b}',
    ensures r@ == truncated(s@, width, tail@),
{
    console::truncate_str(s, width, tail).into_owned()
}

/// A commit shown in a table: a dash for none, the first eight characters of a hex id of at
/// least eight, anything else cut to ten columns with `…` at the cut (left whole should `…`
/// not fit in ten columns).
pub open spec fn short_commit_spec(commit: Seq<char>) -> Seq<char> {
    if commit == "—"@ || commit == "-"@ {
        "—"@
    } else if commit.len() >= 8 && forall|i: int| 0 <= i < commit.len() ==> is_ascii_hex(#[trigger] commit[i]) {
        commit.subrange(0, 8)
    } else if text_width("…"@) <= 10 {
        truncated(commit, 10, "…"@)
    } else {
        commit
    }
}

pub fn short_commit(commit: &str) -> (r: String)
    ensures r@ == short_commit_spec(commit@),
{
    if str_eq(commit, "—") || str_eq(commit, "-") {
        return owned("—");
    }
    let v = chars_of(commit);
    if v.len() >= 8 {
        let mut i: usize = 0;
        let mut all_hex = true;
        while i < v.len()
            invariant
                i <= v@.len(),
                all_hex == forall|k: int| 0 <= k < i ==> is_ascii_hex(#[trigger] v@[k]),
            decreases v.len() - i,
        {
            if !is_ascii_hex_char(v[i]) {
                all_hex = false;
            }
            i += 1;
        }
        if all_hex {
            return crate::text::string_of_range(&v, 0, 8);
        }
    }
    proof { reveal_strlit("…"); }
    if measure_width("…") <= 10 {
        truncate_for_display(commit, 10, "…")
    } else {
        owned(commit)
    }
}

/// `console::measure_text_width`: the columns a text takes on a terminal, which depends on
/// the text alone.
pub uninterp spec fn text_width(s: Seq<char>) -> usize;

/// `console::measure_text_width`.
#[verifier::external_body]
fn measure_width(s: &str) -> (r: usize)
    ensures r == text_width(s@),
{
    console::measure_text_width(s)
}

/// Splits a word into pieces that fit `width` columns, one character at a time.
pub open spec fn split_long_step(state: (Seq<Seq<char>>, Seq<char>), c: char, width: usize) -> (Seq<Seq<char>>, Seq<char>) {
    let (lines, cur) = state;
    let next = text_width(cur) + text_width(seq![c]);
    if next > width && cur.len() > 0 {
        (lines.push(cur), seq![c])
    } else {
        (lines, cur.push(c))
    }
}

pub open spec fn split_long_fold(word: Seq<char>, width: usize) -> (Seq<Seq<char>>, Seq<char>)
    decreases word.len(),
{
    if word.len() == 0 {
        (Seq::empty(), Seq::empty())
    } else {
        split_long_step(split_long_fold(word.drop_last(), width), word.last(), width)
    }
}

pub open spec fn close_lines(state: (Seq<Seq<char>>, Seq<char>)) -> Seq<Seq<char>> {
    if state.1.len() > 0 { state.0.push(state.1) } else { state.0 }
}

/// The pieces of a long word.
pub open spec fn split_long_spec(word: Seq<char>, width: usize) -> Seq<Seq<char>> {
    close_lines(split_long_fold(word, if width < 1 { 1 } else { width }))
}

pub fn split_long_word(word: &str, width: usize) -> (r: Vec<String>)
    ensures r@.map_values(|s: String| s@) == split_long_spec(word@, width),
{
    let w: usize = if width < 1 { 1 } else { width };
    let v = chars_of(word);
    let mut lines: Vec<String> = Vec::new();
    let mut current = String::new();
    let mut i: usize = 0;
    while i < v.len()
        invariant
            i <= v@.len(),
            v@ == word@,
            (lines@.map_values(|s: String| s@), current@) == split_long_fold(v@.subrange(0, i as int), w),
        decreases v.len() - i,
    {
        let c = v[i];
        let mut one = String::new();
        push_char(&mut one, c);
        let cw = measure_width(current.as_str());
        let ow = measure_width(one.as_str());
        proof {
            assert(v@.subrange(0, i + 1).drop_last() == v@.subrange(0, i as int));
            assert(v@.subrange(0, i + 1).last() == c);
            assert(one@ == seq![c]);
        }
        let ghost before = lines@;
        if cw as u128 + ow as u128 > w as u128 && !current.as_str().is_empty() {
            lines.push(current);
            current = one;
            assert(lines@.map_values(|s: String| s@) =~= before.map_values(|s: String| s@).push(lines@.last()@));
        } else {
            push_char(&mut current, c);
        }
        i += 1;
    }
    assert(v@.subrange(0, v@.len() as int) == v@);
    if !current.as_str().is_empty() {
        let ghost before = lines@;
        lines.push(current);
        assert(lines@.map_values(|s: String| s@) =~= before.map_values(|s: String| s@).push(lines@.last()@));
    }
    lines
}

/// The white-space separated words of a text.
pub open spec fn words_of(s: Seq<char>) -> Seq<Seq<char>> {
    split_seq(s, None).filter(|w: Seq<char>| w.len() > 0)
}

/// One word of wrapping: a word wider than the line goes on lines of its own; otherwise it
/// joins the current line, which is closed first when the word would not fit.
pub open spec fn wrap_step(state: (Seq<Seq<char>>, Seq<char>), word: Seq<char>, width: usize) -> (Seq<Seq<char>>, Seq<char>) {
    let (lines, cur) = state;
    if text_width(word) > width {
        (close_lines(state) + split_long_spec(word, width), Seq::empty())
    } else {
        let next = if cur.len() == 0 { text_width(word) as int } else { text_width(cur) + 1 + text_width(word) };
        if next > width && cur.len() > 0 {
            (lines.push(cur), word)
        } else if cur.len() > 0 {
            (lines, cur + " "@ + word)
        } else {
            (lines, word)
        }
    }
}

pub open spec fn wrap_fold(words: Seq<Seq<char>>, width: usize) -> (Seq<Seq<char>>, Seq<char>)
    decreases words.len(),
{
    if words.len() == 0 {
        (Seq::empty(), Seq::empty())
    } else {
        wrap_step(wrap_fold(words.drop_last(), width), words.last(), width)
    }
}

/// A message wrapped to `width` columns; an empty message is one empty line.
pub open spec fn wrap_text_spec(text: Seq<char>, width: usize) -> Seq<Seq<char>> {
    if text.len() == 0 {
        seq![Seq::empty()]
    } else {
        close_lines(wrap_fold(words_of(text), width))
    }
}

fn words_in(text: &str) -> (r: Vec<String>)
    ensures r@.map_values(|s: String| s@) == words_of(text@),
{
    let parts = split_by(text, None);
    let ghost views = parts@.map_values(|p: String| p@);
    let ghost pred = |w: Seq<char>| w.len() > 0;
    assert(views == split_seq(text@, None));
    let mut out: Vec<String> = Vec::new();
    let mut i: usize = 0;
    proof {
        reveal(Seq::filter);
        assert(views.subrange(0, 0).filter(pred) =~= Seq::<Seq<char>>::empty());
    }
    while i < parts.len()
        invariant
            i <= parts@.len(),
            views == parts@.map_values(|p: String| p@),
            pred == (|w: Seq<char>| w.len() > 0),
            out@.map_values(|p: String| p@) == views.subrange(0, i as int).filter(pred),
        decreases parts.len() - i,
    {
        proof {
            reveal(Seq::filter);
            assert(views.subrange(0, i + 1).drop_last() == views.subrange(0, i as int));
            assert(views[i as int] == parts@[i as int]@);
        }
        let ghost before = out@;
        if !parts[i].as_str().is_empty() {
            out.push(parts[i].clone());
            assert(out@.map_values(|p: String| p@) =~= before.map_values(|p: String| p@).push(parts@[i as int]@));
        }
        i += 1;
    }
    assert(views.subrange(0, parts@.len() as int) == views);
    out
}

pub fn wrap_text(text: &str, width: usize) -> (r: Vec<String>)
    ensures r@.map_values(|s: String| s@) == wrap_text_spec(text@, width),
{
    if text.is_empty() {
        let mut v: Vec<String> = Vec::new();
        v.push(String::new());
        assert(v@.map_values(|s: String| s@) =~= seq![Seq::<char>::empty()]);
        return v;
    }
    let words = words_in(text);
    let ghost wv = words@.map_values(|s: String| s@);
    let mut lines: Vec<String> = Vec::new();
    let mut current = String::new();
    let mut i: usize = 0;
    while i < words.len()
        invariant
            i <= words@.len(),
            wv == words@.map_values(|s: String| s@),
            (lines@.map_values(|s: String| s@), current@) == wrap_fold(wv.subrange(0, i as int), width),
        decreases words.len() - i,
    {
        let word = &words[i];
        proof {
            assert(wv.subrange(0, i + 1).drop_last() == wv.subrange(0, i as int));
            assert(wv.subrange(0, i + 1).last() == word@);
        }
        let ww = measure_width(word.as_str());
        let ghost before = lines@;
        let ghost state = (lines@.map_values(|s: String| s@), current@);
        if ww > width {
            if !current.as_str().is_empty() {
                lines.push(current);
                assert(lines@.map_values(|s: String| s@) =~= before.map_values(|s: String| s@).push(lines@.last()@));
            }
            let ghost mid = lines@;
            let pieces = split_long_word(word.as_str(), width);
            let mut k: usize = 0;
            while k < pieces.len()
                invariant
                    k <= pieces@.len(),
                    lines@.map_values(|s: String| s@)
                        == mid.map_values(|s: String| s@) + pieces@.subrange(0, k as int).map_values(|s: String| s@),
                decreases pieces.len() - k,
            {
                let ghost b = lines@;
                lines.push(pieces[k].clone());
                assert(lines@.map_values(|s: String| s@) =~= b.map_values(|s: String| s@).push(pieces@[k as int]@));
                assert(pieces@.subrange(0, k + 1).map_values(|s: String| s@)
                    =~= pieces@.subrange(0, k as int).map_values(|s: String| s@).push(pieces@[k as int]@));
                k += 1;
            }
            assert(pieces@.subrange(0, pieces@.len() as int) == pieces@);
            current = String::new();
            assert(lines@.map_values(|s: String| s@) == wrap_step(state, word@, width).0);
        } else {
            let cur_empty = current.as_str().is_empty();
            let next: u128 = if cur_empty {
                ww as u128
            } else {
                measure_width(current.as_str()) as u128 + 1 + ww as u128
            };
            if next > width as u128 && !cur_empty {
                lines.push(current);
                assert(lines@.map_values(|s: String| s@) =~= before.map_values(|s: String| s@).push(lines@.last()@));
                current = word.clone();
            } else if !cur_empty {
                current = concat(&concat(current.as_str(), " "), word.as_str());
            } else {
                current = word.clone();
            }
        }
        i += 1;
    }
    assert(wv.subrange(0, wv.len() as int) == wv);
    if !current.as_str().is_empty() {
        let ghost before = lines@;
        lines.push(current);
        assert(lines@.map_values(|s: String| s@) =~= before.map_values(|s: String| s@).push(lines@.last()@));
    }
    lines
}

} // verus!
