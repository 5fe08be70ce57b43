//! Turning fetched HTML into plain text or simple Markdown, and finding a
//! page's title. Tag names are matched without regard to ASCII case.

use vstd::prelude::*;
use crate::fetch::{decode_html_entities, entities_decoded};
use crate::output::{is_white, is_white_char};
use crate::text::{chars_of, lower_of, lowercase, push_char, string_of};

verus! {

/// The ASCII lower case of a character; other characters are unchanged.
pub open spec fn ascii_lower(c: char) -> char {
    if 'A' <= c && c <= 'Z' {
        (((c as u32) + 32) as u8) as char
    } else {
        c
    }
}

fn ascii_lower_char(c: char) -> (r: char)
    ensures
        r == ascii_lower(c),
{
    if 'A' <= c && c <= 'Z' {
        (((c as u32) + 32) as u8) as char
    } else {
        c
    }
}

/// Whether `pat` (lower case) occurs at `i` in `cs`, ignoring ASCII case.
pub open spec fn ci_at(cs: Seq<char>, i: int, pat: Seq<char>) -> bool {
    &&& 0 <= i
    &&& i + pat.len() <= cs.len()
    &&& forall|j: int| 0 <= j < pat.len() ==> ascii_lower(#[trigger] cs[i + j]) == pat[j]
}

fn ci_matches(cs: &Vec<char>, i: usize, pat: &Vec<char>) -> (r: bool)
    ensures
        r == ci_at(cs@, i as int, pat@),
{
    let n = cs.len();
    if i > n || pat.len() > n - i {
        return false;
    }
    let mut k: usize = 0;
    while k < pat.len()
        invariant
            n == cs@.len(),
            i + pat@.len() <= n,
            k <= pat@.len(),
            forall|j: int| 0 <= j < k ==> ascii_lower(#[trigger] cs@[i + j]) == pat@[j],
        decreases pat@.len() - k,
    {
        if ascii_lower_char(cs[i + k]) != pat[k] {
            return false;
        }
        k = k + 1;
    }
    true
}

/// `s` without leading white space.
pub open spec fn trim_start(s: Seq<char>) -> Seq<char>
    decreases s.len(),
{
    if s.len() > 0 && is_white(s[0]) {
        trim_start(s.drop_first())
    } else {
        s
    }
}

/// `s` without trailing white space.
pub open spec fn trim_end(s: Seq<char>) -> Seq<char>
    decreases s.len(),
{
    if s.len() > 0 && is_white(s.last()) {
        trim_end(s.drop_last())
    } else {
        s
    }
}

/// `s` without leading or trailing white space.
pub open spec fn trimmed(s: Seq<char>) -> Seq<char> {
    trim_end(trim_start(s))
}

/// The bounds of `v[from..to]` with white space trimmed off both ends.
fn trim_bounds(v: &Vec<char>, from: usize, to: usize) -> (r: (usize, usize))
    requires
        from <= to <= v@.len(),
    ensures
        from <= r.0 <= r.1 <= to,
        v@.subrange(r.0 as int, r.1 as int) == trimmed(v@.subrange(from as int, to as int)),
{
    let ghost s = v@.subrange(from as int, to as int);
    let mut a: usize = from;
    while a < to && is_white_char(v[a])
        invariant
            from <= a <= to <= v@.len(),
            trim_start(s) == trim_start(v@.subrange(a as int, to as int)),
        decreases to - a,
    {
        assert(v@.subrange(a as int, to as int).drop_first() =~= v@.subrange(a + 1, to as int));
        a = a + 1;
    }
    assert(trim_start(v@.subrange(a as int, to as int)) == v@.subrange(a as int, to as int));
    let mut b: usize = to;
    while b > a && is_white_char(v[b - 1])
        invariant
            from <= a <= b <= to <= v@.len(),
            trimmed(s) == trim_end(v@.subrange(a as int, b as int)),
        decreases b,
    {
        assert(v@.subrange(a as int, b as int).drop_last() =~= v@.subrange(a as int, b - 1));
        b = b - 1;
    }
    (a, b)
}

/// Appends `v[from..to]`.
fn push_range(s: &mut String, v: &Vec<char>, from: usize, to: usize)
    requires
        from <= to <= v@.len(),
    ensures
        final(s)@ == old(s)@ + v@.subrange(from as int, to as int),
{
    let ghost start = s@;
    let mut i: usize = from;
    while i < to
        invariant
            from <= i <= to <= v@.len(),
            s@ == start + v@.subrange(from as int, i as int),
        decreases to - i,
    {
        push_char(s, v[i]);
        assert(s@ =~= start + v@.subrange(from as int, i + 1));
        i = i + 1;
    }
}

/// The state of the tag-stripping scan.
#[derive(Clone, Copy)]
pub struct TextScan {
    pub in_tag: bool,
    pub in_script: bool,
    pub in_style: bool,
    pub last_space: bool,
}

/// Whether a tag starting with these two (lower-case) characters begins a
/// new line in plain text: paragraphs, breaks, divisions, list items,
/// headings, table rows and cells, and their closing tags.
pub open spec fn is_block_start(a: char, b: char) -> bool {
    (a == 'p' && b == '>') || (a == 'b' && b == 'r') || (a == 'd' && b == 'i') || (a == 'l' && b == 'i')
        || (a == 'h' && '1' <= b && b <= '6') || (a == 't' && (b == 'r' || b == 'd' || b == 'h'))
        || (a == '/' && (b == 'p' || b == 'd' || b == 'l' || b == 'h' || b == 't'))
}

/// The scan state after looking for an opening script or style tag at `i`.
pub open spec fn text_opened(cs: Seq<char>, i: int, st: TextScan) -> TextScan {
    if i + 7 < cs.len() && ci_at(cs, i, "<script"@) {
        TextScan { in_script: true, ..st }
    } else if i + 7 < cs.len() && ci_at(cs, i, "<style"@) {
        TextScan { in_style: true, ..st }
    } else {
        st
    }
}

/// The text that the scan from position `i` in state `st` appends to `out`:
/// script and style elements are skipped, tags are dropped (a block tag
/// starts a new line), and runs of white space become one space.
pub open spec fn text_scan(cs: Seq<char>, i: int, st: TextScan, out: Seq<char>) -> Seq<char>
    decreases (if i < cs.len() { cs.len() - i } else { 0 }),
{
    if i < 0 || i >= cs.len() {
        out
    } else {
        let s1 = text_opened(cs, i, st);
        let c = cs[i];
        if ci_at(cs, i, "</script>"@) {
            text_scan(cs, i + 9, TextScan { in_script: false, ..s1 }, out)
        } else if ci_at(cs, i, "</style>"@) {
            text_scan(cs, i + 8, TextScan { in_style: false, ..s1 }, out)
        } else if s1.in_script || s1.in_style {
            text_scan(cs, i + 1, s1, out)
        } else if c == '<' {
            if i + 2 < cs.len() && is_block_start(ascii_lower(cs[i + 1]), ascii_lower(cs[i + 2])) && !s1.last_space {
                text_scan(cs, i + 1, TextScan { in_tag: true, last_space: true, ..s1 }, out.push('\n'))
            } else {
                text_scan(cs, i + 1, TextScan { in_tag: true, ..s1 }, out)
            }
        } else if c == '>' {
            text_scan(cs, i + 1, TextScan { in_tag: false, ..s1 }, out)
        } else if !s1.in_tag {
            if is_white(c) {
                if !s1.last_space {
                    text_scan(cs, i + 1, TextScan { last_space: true, ..s1 }, out.push(' '))
                } else {
                    text_scan(cs, i + 1, s1, out)
                }
            } else {
                text_scan(cs, i + 1, TextScan { last_space: false, ..s1 }, out.push(c))
            }
        } else {
            text_scan(cs, i + 1, s1, out)
        }
    }
}

/// `out` followed by `line` trimmed, on a line of its own, unless it is empty.
pub open spec fn emit_line(out: Seq<char>, line: Seq<char>) -> Seq<char> {
    let t = trimmed(line);
    if t.len() == 0 {
        out
    } else if out.len() == 0 {
        t
    } else {
        out + seq!['\n'] + t
    }
}

/// The lines of `s` (continuing the line `cur`), trimmed, with empty lines
/// left out, joined by newlines after `out`.
pub open spec fn kept_lines(s: Seq<char>, cur: Seq<char>, out: Seq<char>) -> Seq<char>
    decreases s.len(),
{
    if s.len() == 0 {
        emit_line(out, cur)
    } else if s[0] == '\n' {
        kept_lines(s.drop_first(), Seq::empty(), emit_line(out, cur))
    } else {
        kept_lines(s.drop_first(), cur.push(s[0]), out)
    }
}

/// The plain text of an HTML document.
pub open spec fn html_text(html: Seq<char>) -> Seq<char> {
    let scanned = text_scan(
        html,
        0,
        TextScan { in_tag: false, in_script: false, in_style: false, last_space: true },
        Seq::empty(),
    );
    kept_lines(entities_decoded(scanned), Seq::empty(), Seq::empty())
}

fn lit(s: &str) -> (r: Vec<char>)
    ensures
        r@ == s@,
{
    chars_of(s)
}

/// The trimmed, non-empty lines of `s`, joined by newlines.
fn keep_lines(s: &str) -> (r: String)
    ensures
        r@ == kept_lines(s@, Seq::empty(), Seq::empty()),
{
    let cs = chars_of(s);
    let n = cs.len();
    let mut out = String::new();
    let mut start: usize = 0;
    let mut i: usize = 0;
    assert(cs@.subrange(0, 0) =~= Seq::<char>::empty());
    assert(cs@.subrange(0, n as int) =~= cs@);
    while i < n
        invariant
            n == cs@.len(),
            cs@ == s@,
            start <= i <= n,
            kept_lines(s@, Seq::empty(), Seq::empty())
                == kept_lines(cs@.subrange(i as int, n as int), cs@.subrange(start as int, i as int), out@),
        decreases n - i,
    {
        let ghost rest = cs@.subrange(i as int, n as int);
        assert(rest.drop_first() =~= cs@.subrange(i + 1, n as int));
        assert(rest[0] == cs@[i as int]);
        if cs[i] == '\n' {
            let ghost o0 = out@;
            let ghost cur = cs@.subrange(start as int, i as int);
            let (a, b) = trim_bounds(&cs, start, i);
            if a < b {
                if out.as_str().unicode_len() > 0 {
                    push_char(&mut out, '\n');
                }
                push_range(&mut out, &cs, a, b);
            }
            assert(out@ =~= emit_line(o0, cur));
            start = i + 1;
            assert(cs@.subrange(start as int, i + 1) =~= Seq::<char>::empty());
        } else {
            assert(cs@.subrange(start as int, i + 1) =~= cs@.subrange(start as int, i as int).push(cs@[i as int]));
        }
        i = i + 1;
    }
    let ghost o0 = out@;
    let (a, b) = trim_bounds(&cs, start, n);
    if a < b {
        if out.as_str().unicode_len() > 0 {
            push_char(&mut out, '\n');
        }
        push_range(&mut out, &cs, a, b);
    }
    assert(out@ =~= emit_line(o0, cs@.subrange(start as int, n as int)));
    out
}

/// Converts HTML to plain text: script and style elements are dropped,
/// tags are stripped (block tags start new lines), white space is
/// collapsed, entities are decoded, and lines are trimmed with empty ones
/// left out.
pub fn html_to_text(html: &str) -> (r: String)
    ensures
        r@ == html_text(html@),
{
    let cs = chars_of(html);
    let n = cs.len();
    let p_script = lit("<script");
    let p_style = lit("<style");
    let p_end_script = lit("</script>");
    let p_end_style = lit("</style>");
    proof {
        reveal_strlit("<script");
        reveal_strlit("<style");
        reveal_strlit("</script>");
        reveal_strlit("</style>");
    }
    let mut st = TextScan { in_tag: false, in_script: false, in_style: false, last_space: true };
    let mut out = String::new();
    let mut i: usize = 0;
    while i < n
        invariant
            n == cs@.len(),
            cs@ == html@,
            p_script@ == "<script"@,
            p_style@ == "<style"@,
            p_end_script@ == "</script>"@,
            p_end_style@ == "</style>"@,
            i <= n,
            html_text(html@) == kept_lines(entities_decoded(text_scan(cs@, i as int, st, out@)), Seq::empty(), Seq::empty()),
        decreases n - i,
    {
        proof {
            reveal_strlit("<script");
            reveal_strlit("<style");
            reveal_strlit("</script>");
            reveal_strlit("</style>");
        }
        let ghost s0 = st;
        let ghost o0 = out@;
        let c = cs[i];
        if n - i > 7 && ci_matches(&cs, i, &p_script) {
            st.in_script = true;
        } else if n - i > 7 && ci_matches(&cs, i, &p_style) {
            st.in_style = true;
        }
        assert(st == text_opened(cs@, i as int, s0));
        if ci_matches(&cs, i, &p_end_script) {
            st.in_script = false;
            i = i + 9;
        } else if ci_matches(&cs, i, &p_end_style) {
            st.in_style = false;
            i = i + 8;
        } else if st.in_script || st.in_style {
            i = i + 1;
        } else if c == '<' {
            let block = n - i > 2 && is_block_start_char(ascii_lower_char(cs[i + 1]), ascii_lower_char(cs[i + 2]));
            if block && !st.last_space {
                push_char(&mut out, '\n');
                st.last_space = true;
            }
            st.in_tag = true;
            i = i + 1;
        } else if c == '>' {
            st.in_tag = false;
            i = i + 1;
        } else if !st.in_tag {
            if is_white_char(c) {
                if !st.last_space {
                    push_char(&mut out, ' ');
                    st.last_space = true;
                }
            } else {
                push_char(&mut out, c);
                st.last_space = false;
            }
            i = i + 1;
        } else {
            i = i + 1;
        }
    }
    let decoded = decode_html_entities(out.as_str());
    keep_lines(decoded.as_str())
}

fn is_block_start_char(a: char, b: char) -> (r: bool)
    ensures
        r == is_block_start(a, b),
{
    (a == 'p' && b == '>') || (a == 'b' && b == 'r') || (a == 'd' && b == 'i') || (a == 'l' && b == 'i')
        || (a == 'h' && '1' <= b && b <= '6') || (a == 't' && (b == 'r' || b == 'd' || b == 'h'))
        || (a == '/' && (b == 'p' || b == 'd' || b == 'l' || b == 'h' || b == 't'))
}

/// The first position from `from` on where `pat` occurs, ignoring ASCII case.
pub open spec fn find_ci(cs: Seq<char>, from: int, pat: Seq<char>) -> Option<int>
    decreases (if from < cs.len() { cs.len() - from } else { 0 }),
{
    if from < 0 || from >= cs.len() {
        None
    } else if ci_at(cs, from, pat) {
        Some(from)
    } else {
        find_ci(cs, from + 1, pat)
    }
}

/// The first position from `from` on that holds `c`.
pub open spec fn find_char(cs: Seq<char>, from: int, c: char) -> Option<int>
    decreases (if from < cs.len() { cs.len() - from } else { 0 }),
{
    if from < 0 || from >= cs.len() {
        None
    } else if cs[from] == c {
        Some(from)
    } else {
        find_char(cs, from + 1, c)
    }
}

fn find_ci_from(cs: &Vec<char>, from: usize, pat: &Vec<char>) -> (r: Option<usize>)
    ensures
        match r {
            Some(k) => find_ci(cs@, from as int, pat@) == Some(k as int),
            None => find_ci(cs@, from as int, pat@) is None,
        },
{
    let n = cs.len();
    let mut k: usize = from;
    while k < n
        invariant
            n == cs@.len(),
            from <= k,
            find_ci(cs@, from as int, pat@) == find_ci(cs@, k as int, pat@),
        decreases n - k,
    {
        if ci_matches(cs, k, pat) {
            return Some(k);
        }
        k = k + 1;
    }
    None
}

fn find_char_from(cs: &Vec<char>, from: usize, c: char) -> (r: Option<usize>)
    ensures
        match r {
            Some(k) => find_char(cs@, from as int, c) == Some(k as int),
            None => find_char(cs@, from as int, c) is None,
        },
{
    let n = cs.len();
    let mut k: usize = from;
    while k < n
        invariant
            n == cs@.len(),
            from <= k,
            find_char(cs@, from as int, c) == find_char(cs@, k as int, c),
        decreases n - k,
    {
        if cs[k] == c {
            return Some(k);
        }
        k = k + 1;
    }
    None
}

proof fn lemma_find_ci_bounds(cs: Seq<char>, from: int, pat: Seq<char>)
    ensures
        match find_ci(cs, from, pat) {
            Some(k) => from <= k < cs.len(),
            None => true,
        },
    decreases (if from < cs.len() { cs.len() - from } else { 0 }),
{
    if 0 <= from < cs.len() && !ci_at(cs, from, pat) {
        lemma_find_ci_bounds(cs, from + 1, pat);
    }
}

proof fn lemma_find_char_bounds(cs: Seq<char>, from: int, c: char)
    ensures
        match find_char(cs, from, c) {
            Some(k) => from <= k < cs.len(),
            None => true,
        },
    decreases (if from < cs.len() { cs.len() - from } else { 0 }),
{
    if 0 <= from < cs.len() && cs[from] != c {
        lemma_find_char_bounds(cs, from + 1, c);
    }
}

/// A page's title: the text between the first `<title` tag's `>` and the
/// next `</title`, trimmed and with entities decoded; none when a part is
/// missing or the text is empty.
pub open spec fn page_title(cs: Seq<char>) -> Option<Seq<char>> {
    match find_ci(cs, 0, "<title"@) {
        None => None,
        Some(start) => match find_char(cs, start, '>') {
            None => None,
            Some(gt) => match find_ci(cs, gt + 1, "</title"@) {
                None => None,
                Some(end) => {
                    let t = trimmed(cs.subrange(gt + 1, end));
                    if t.len() == 0 { None } else { Some(entities_decoded(t)) }
                },
            },
        },
    }
}

/// Extracts the title of an HTML page.
pub fn extract_title(html: &str) -> (r: Option<String>)
    ensures
        match r {
            Some(t) => page_title(html@) == Some(t@),
            None => page_title(html@) is None,
        },
{
    let cs = chars_of(html);
    let n = cs.len();
    let open = lit("<title");
    let close = lit("</title");
    let start = match find_ci_from(&cs, 0, &open) {
        Some(k) => k,
        None => return None,
    };
    let gt = match find_char_from(&cs, start, '>') {
        Some(k) => k,
        None => return None,
    };
    proof { lemma_find_char_bounds(cs@, start as int, '>'); }
    assert(gt < n);
    let end = match find_ci_from(&cs, gt + 1, &close) {
        Some(k) => k,
        None => return None,
    };
    proof { lemma_find_ci_bounds(cs@, gt + 1, close@); }
    let (a, b) = trim_bounds(&cs, gt + 1, end);
    if a == b {
        return None;
    }
    let t = string_of(&cs, a, b);
    Some(decode_html_entities(t.as_str()))
}

/// Whether `s` begins with `p`.
pub open spec fn starts(s: Seq<char>, p: Seq<char>) -> bool {
    p.len() <= s.len() && s.subrange(0, p.len() as int) == p
}

fn has_prefix(s: &Vec<char>, p: &str) -> (r: bool)
    ensures
        r == starts(s@, p@),
{
    let pv = lit(p);
    let n = pv.len();
    if n > s.len() {
        return false;
    }
    let mut k: usize = 0;
    while k < n
        invariant
            n == pv@.len(),
            n <= s@.len(),
            pv@ == p@,
            k <= n,
            forall|j: int| 0 <= j < k ==> s@[j] == pv@[j],
        decreases n - k,
    {
        if s[k] != pv[k] {
            assert(s@.subrange(0, n as int)[k as int] != p@[k as int]);
            return false;
        }
        k = k + 1;
    }
    assert(s@.subrange(0, n as int) =~= p@);
    true
}

fn is_text(s: &Vec<char>, p: &str) -> (r: bool)
    ensures
        r == (s@ == p@),
{
    let pv = lit(p);
    if pv.len() != s.len() {
        return false;
    }
    let b = has_prefix(s, p);
    assert(s@.subrange(0, s@.len() as int) =~= s@);
    b
}

/// One less, but not below zero.
pub open spec fn sat_dec(d: nat) -> nat {
    if d == 0 { 0 } else { (d - 1) as nat }
}

/// `2 * k` spaces.
pub open spec fn indent(k: nat) -> Seq<char> {
    Seq::new(2 * k, |i: int| ' ')
}

/// What a (lower-case) tag adds to the Markdown text, and the list depth
/// after it: headings, paragraphs, breaks, lists and their items, bold,
/// italics, code, preformatted blocks, quotes and rules.
pub open spec fn md_for_tag(t: Seq<char>, depth: nat) -> (Seq<char>, nat) {
    if starts(t, "h1"@) {
        ("\n# "@, depth)
    } else if starts(t, "h2"@) {
        ("\n## "@, depth)
    } else if starts(t, "h3"@) {
        ("\n### "@, depth)
    } else if starts(t, "h4"@) {
        ("\n#### "@, depth)
    } else if starts(t, "h5"@) {
        ("\n##### "@, depth)
    } else if starts(t, "h6"@) {
        ("\n###### "@, depth)
    } else if t == "p"@ || starts(t, "p "@) {
        ("\n\n"@, depth)
    } else if t == "/p"@ {
        ("\n"@, depth)
    } else if t == "br"@ || t == "br/"@ || t == "br /"@ {
        ("  \n"@, depth)
    } else if t == "ul"@ || starts(t, "ul "@) {
        ("\n"@, depth + 1)
    } else if t == "/ul"@ {
        ("\n"@, sat_dec(depth))
    } else if t == "ol"@ || starts(t, "ol "@) {
        ("\n"@, depth + 1)
    } else if t == "/ol"@ {
        ("\n"@, sat_dec(depth))
    } else if t == "li"@ || starts(t, "li "@) {
        (indent(sat_dec(depth)) + "- "@, depth)
    } else if t == "/li"@ {
        ("\n"@, depth)
    } else if t == "strong"@ || t == "b"@ || starts(t, "strong "@) || starts(t, "b "@) {
        ("**"@, depth)
    } else if t == "/strong"@ || t == "/b"@ {
        ("**"@, depth)
    } else if t == "em"@ || t == "i"@ || starts(t, "em "@) || starts(t, "i "@) {
        ("*"@, depth)
    } else if t == "/em"@ || t == "/i"@ {
        ("*"@, depth)
    } else if t == "code"@ || starts(t, "code "@) {
        ("`"@, depth)
    } else if t == "/code"@ {
        ("`"@, depth)
    } else if t == "pre"@ || starts(t, "pre "@) {
        ("\n```\n"@, depth)
    } else if t == "/pre"@ {
        ("\n```\n"@, depth)
    } else if t == "blockquote"@ || starts(t, "blockquote "@) {
        ("\n> "@, depth)
    } else if t == "hr"@ || t == "hr/"@ || t == "hr /"@ {
        ("\n---\n"@, depth)
    } else if starts(t, "/h"@) {
        ("\n"@, depth)
    } else {
        (Seq::empty(), depth)
    }
}

fn push_indent(s: &mut String, k: usize)
    ensures
        final(s)@ == old(s)@ + indent(k as nat),
{
    let ghost start = s@;
    let mut i: usize = 0;
    while i < k
        invariant
            i <= k,
            s@ == start + indent(i as nat),
        decreases k - i,
    {
        push_char(s, ' ');
        push_char(s, ' ');
        assert(s@ =~= start + indent((i + 1) as nat));
        i = i + 1;
    }
}

/// Appends what a tag adds to the Markdown text; returns the new list depth.
fn md_tag(out: &mut String, t: &Vec<char>, depth: usize) -> (r: usize)
    requires
        depth < usize::MAX,
    ensures
        final(out)@ == old(out)@ + md_for_tag(t@, depth as nat).0,
        r as nat == md_for_tag(t@, depth as nat).1,
{
    proof {
        reveal_strlit("h1");
        reveal_strlit("h2");
    }
    if has_prefix(t, "h1") {
        out.append("\n# ");
    } else if has_prefix(t, "h2") {
        out.append("\n## ");
    } else if has_prefix(t, "h3") {
        out.append("\n### ");
    } else if has_prefix(t, "h4") {
        out.append("\n#### ");
    } else if has_prefix(t, "h5") {
        out.append("\n##### ");
    } else if has_prefix(t, "h6") {
        out.append("\n###### ");
    } else if is_text(t, "p") || has_prefix(t, "p ") {
        out.append("\n\n");
    } else if is_text(t, "/p") {
        out.append("\n");
    } else if is_text(t, "br") || is_text(t, "br/") || is_text(t, "br /") {
        out.append("  \n");
    } else if is_text(t, "ul") || has_prefix(t, "ul ") {
        out.append("\n");
        return depth + 1;
    } else if is_text(t, "/ul") {
        out.append("\n");
        return if depth > 0 { depth - 1 } else { 0 };
    } else if is_text(t, "ol") || has_prefix(t, "ol ") {
        out.append("\n");
        return depth + 1;
    } else if is_text(t, "/ol") {
        out.append("\n");
        return if depth > 0 { depth - 1 } else { 0 };
    } else if is_text(t, "li") || has_prefix(t, "li ") {
        push_indent(out, if depth > 0 { depth - 1 } else { 0 });
        out.append("- ");
    } else if is_text(t, "/li") {
        out.append("\n");
    } else if is_text(t, "strong") || is_text(t, "b") || has_prefix(t, "strong ") || has_prefix(t, "b ") {
        out.append("**");
    } else if is_text(t, "/strong") || is_text(t, "/b") {
        out.append("**");
    } else if is_text(t, "em") || is_text(t, "i") || has_prefix(t, "em ") || has_prefix(t, "i ") {
        out.append("*");
    } else if is_text(t, "/em") || is_text(t, "/i") {
        out.append("*");
    } else if is_text(t, "code") || has_prefix(t, "code ") {
        out.append("`");
    } else if is_text(t, "/code") {
        out.append("`");
    } else if is_text(t, "pre") || has_prefix(t, "pre ") {
        out.append("\n```\n");
    } else if is_text(t, "/pre") {
        out.append("\n```\n");
    } else if is_text(t, "blockquote") || has_prefix(t, "blockquote ") {
        out.append("\n> ");
    } else if is_text(t, "hr") || is_text(t, "hr/") || is_text(t, "hr /") {
        out.append("\n---\n");
    } else if has_prefix(t, "/h") {
        out.append("\n");
    }
    depth
}

/// The state of the Markdown scan.
pub struct MdScan {
    pub in_tag: bool,
    pub in_script: bool,
    pub in_style: bool,
    pub depth: nat,
}

/// The scan state after looking for opening script and style tags at `i`.
pub open spec fn md_opened(cs: Seq<char>, i: int, st: MdScan) -> MdScan {
    let s1 = if i + 7 < cs.len() && ci_at(cs, i, "<script"@) { MdScan { in_script: true, ..st } } else { st };
    if i + 6 < cs.len() && ci_at(cs, i, "<style"@) { MdScan { in_style: true, ..s1 } } else { s1 }
}

/// The Markdown text that the scan from position `i` appends to `out`, with
/// the tag read so far in `tag`: script and style elements are skipped,
/// text outside tags is kept, and each tag adds its Markdown.
pub open spec fn md_scan(cs: Seq<char>, i: int, st: MdScan, tag: Seq<char>, out: Seq<char>) -> Seq<char>
    decreases (if i < cs.len() { cs.len() - i } else { 0 }),
{
    if i < 0 || i >= cs.len() {
        out
    } else {
        let s1 = md_opened(cs, i, st);
        let c = cs[i];
        if ci_at(cs, i, "</script>"@) {
            md_scan(cs, i + 9, MdScan { in_script: false, ..s1 }, tag, out)
        } else if ci_at(cs, i, "</style>"@) {
            md_scan(cs, i + 8, MdScan { in_style: false, ..s1 }, tag, out)
        } else if s1.in_script || s1.in_style {
            md_scan(cs, i + 1, s1, tag, out)
        } else if c == '<' {
            md_scan(cs, i + 1, MdScan { in_tag: true, ..s1 }, Seq::empty(), out)
        } else if c == '>' {
            let (text, depth) = md_for_tag(lower_of(tag), s1.depth);
            md_scan(cs, i + 1, MdScan { in_tag: false, depth: depth, ..s1 }, Seq::empty(), out + text)
        } else if s1.in_tag {
            md_scan(cs, i + 1, s1, tag.push(c), out)
        } else {
            md_scan(cs, i + 1, s1, tag, out.push(c))
        }
    }
}

/// Adds one line to the Markdown text being cleaned up: trimmed, and an
/// empty line only when the line before was not empty.
pub open spec fn md_emit(out: Seq<char>, any: bool, prev_empty: bool, line: Seq<char>) -> (Seq<char>, bool, bool) {
    let t = trimmed(line);
    if t.len() == 0 {
        if !prev_empty {
            (if any { out + seq!['\n'] } else { out }, true, true)
        } else {
            (out, any, prev_empty)
        }
    } else {
        ((if any { out + seq!['\n'] } else { out }) + t, true, false)
    }
}

/// The lines of `s` (continuing the line `cur`), trimmed, with runs of
/// empty lines reduced to one, joined by newlines after `out`.
pub open spec fn md_lines(s: Seq<char>, cur: Seq<char>, out: Seq<char>, any: bool, prev_empty: bool) -> Seq<char>
    decreases s.len(),
{
    if s.len() == 0 {
        md_emit(out, any, prev_empty, cur).0
    } else if s[0] == '\n' {
        let e = md_emit(out, any, prev_empty, cur);
        md_lines(s.drop_first(), Seq::empty(), e.0, e.1, e.2)
    } else {
        md_lines(s.drop_first(), cur.push(s[0]), out, any, prev_empty)
    }
}

/// The Markdown text of an HTML document.
pub open spec fn html_markdown(html: Seq<char>) -> Seq<char> {
    let scanned = md_scan(
        html,
        0,
        MdScan { in_tag: false, in_script: false, in_style: false, depth: 0 },
        Seq::empty(),
        Seq::empty(),
    );
    trimmed(md_lines(entities_decoded(scanned), Seq::empty(), Seq::empty(), false, false))
}

/// Adds one line to the Markdown text being cleaned up.
fn md_emit_exec(out: &mut String, any: bool, prev_empty: bool, cs: &Vec<char>, from: usize, to: usize) -> (r: (bool, bool))
    requires
        from <= to <= cs@.len(),
    ensures
        (final(out)@, r.0, r.1) == md_emit(old(out)@, any, prev_empty, cs@.subrange(from as int, to as int)),
{
    let ghost o0 = out@;
    let (a, b) = trim_bounds(cs, from, to);
    if a == b {
        if !prev_empty {
            if any {
                push_char(out, '\n');
            }
            assert(out@ =~= (if any { o0 + seq!['\n'] } else { o0 }));
            return (true, true);
        }
        return (any, prev_empty);
    }
    if any {
        push_char(out, '\n');
    }
    push_range(out, cs, a, b);
    assert(out@ =~= (if any { o0 + seq!['\n'] } else { o0 }) + cs@.subrange(a as int, b as int));
    (true, false)
}

/// The cleaned-up lines of Markdown text, trimmed as a whole.
fn md_clean(s: &str) -> (r: String)
    ensures
        r@ == trimmed(md_lines(s@, Seq::empty(), Seq::empty(), false, false)),
{
    let cs = chars_of(s);
    let n = cs.len();
    let mut out = String::new();
    let mut any = false;
    let mut prev_empty = false;
    let mut start: usize = 0;
    let mut i: usize = 0;
    assert(cs@.subrange(0, 0) =~= Seq::<char>::empty());
    assert(cs@.subrange(0, n as int) =~= cs@);
    while i < n
        invariant
            n == cs@.len(),
            cs@ == s@,
            start <= i <= n,
            md_lines(s@, Seq::empty(), Seq::empty(), false, false)
                == md_lines(cs@.subrange(i as int, n as int), cs@.subrange(start as int, i as int), out@, any, prev_empty),
        decreases n - i,
    {
        let ghost rest = cs@.subrange(i as int, n as int);
        assert(rest.drop_first() =~= cs@.subrange(i + 1, n as int));
        assert(rest[0] == cs@[i as int]);
        if cs[i] == '\n' {
            let (now_any, now_empty) = md_emit_exec(&mut out, any, prev_empty, &cs, start, i);
            any = now_any;
            prev_empty = now_empty;
            start = i + 1;
            assert(cs@.subrange(start as int, i + 1) =~= Seq::<char>::empty());
        } else {
            assert(cs@.subrange(start as int, i + 1) =~= cs@.subrange(start as int, i as int).push(cs@[i as int]));
        }
        i = i + 1;
    }
    let _ = md_emit_exec(&mut out, any, prev_empty, &cs, start, n);
    let oc = chars_of(out.as_str());
    let (a, b) = trim_bounds(&oc, 0, oc.len());
    assert(oc@.subrange(0, oc@.len() as int) =~= oc@);
    string_of(&oc, a, b)
}

/// Converts HTML to simple Markdown: script and style elements are dropped,
/// tags become their Markdown marks, entities are decoded, lines are
/// trimmed with runs of empty lines reduced to one, and the whole is trimmed.
pub fn html_to_markdown(html: &str) -> (r: String)
    ensures
        r@ == html_markdown(html@),
{
    let cs = chars_of(html);
    let n = cs.len();
    let p_script = lit("<script");
    let p_style = lit("<style");
    let p_end_script = lit("</script>");
    let p_end_style = lit("</style>");
    let mut in_tag = false;
    let mut in_script = false;
    let mut in_style = false;
    let mut depth: usize = 0;
    let mut tag = String::new();
    let mut out = String::new();
    let mut i: usize = 0;
    while i < n
        invariant
            n == cs@.len(),
            cs@ == html@,
            p_script@ == "<script"@,
            p_style@ == "<style"@,
            p_end_script@ == "</script>"@,
            p_end_style@ == "</style>"@,
            i <= n,
            depth <= i,
            html_markdown(html@) == trimmed(md_lines(entities_decoded(md_scan(
                cs@,
                i as int,
                MdScan { in_tag, in_script, in_style, depth: depth as nat },
                tag@,
                out@,
            )), Seq::empty(), Seq::empty(), false, false)),
        decreases n - i,
    {
        proof {
            reveal_strlit("<script");
            reveal_strlit("<style");
            reveal_strlit("</script>");
            reveal_strlit("</style>");
        }
        let c = cs[i];
        if n - i > 7 && ci_matches(&cs, i, &p_script) {
            in_script = true;
        }
        if n - i > 6 && ci_matches(&cs, i, &p_style) {
            in_style = true;
        }
        if ci_matches(&cs, i, &p_end_script) {
            in_script = false;
            i = i + 9;
        } else if ci_matches(&cs, i, &p_end_style) {
            in_style = false;
            i = i + 8;
        } else if in_script || in_style {
            i = i + 1;
        } else if c == '<' {
            in_tag = true;
            tag = String::new();
            i = i + 1;
        } else if c == '>' {
            in_tag = false;
            let lowered = lowercase(tag.as_str());
            let t = chars_of(lowered.as_str());
            depth = md_tag(&mut out, &t, depth);
            tag = String::new();
            i = i + 1;
        } else if in_tag {
            push_char(&mut tag, c);
            i = i + 1;
        } else {
            push_char(&mut out, c);
            i = i + 1;
        }
    }
    let decoded = decode_html_entities(out.as_str());
    md_clean(decoded.as_str())
}

} // verus!
