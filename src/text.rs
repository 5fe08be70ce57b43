//! Small string helpers shared by the library.

use vstd::prelude::*;
use vstd::std_specs::iter::IteratorSpec;

verus! {

/// What `str::to_lowercase` gives for a sequence of characters.
pub uninterp spec fn lower_of(s: Seq<char>) -> Seq<char>;

/// Relies on `str::to_lowercase`: the result depends on the characters alone,
/// and an empty string stays empty.
#[verifier::external_body]
pub(crate) fn lowercase(s: &str) -> (r: String)
    ensures
        r@ == lower_of(s@),
        s@.len() == 0 ==> r@.len() == 0,
{
    s.to_lowercase()
}

/// Relies on `String::push`: appends one character at the end.
#[verifier::external_body]
pub(crate) fn push_char(s: &mut String, c: char)
    ensures
        final(s)@ == old(s)@.push(c),
{
    s.push(c)
}

/// Whether two strings hold the same characters.
pub fn str_eq(a: &str, b: &str) -> (r: bool)
    ensures
        r == (a@ == b@),
{
    owned(a) == owned(b)
}

/// A fresh `String` holding the characters of `s`.
pub(crate) fn owned(s: &str) -> (r: String)
    ensures
        r@ == s@,
{
    s.to_string()
}


/// The decimal digit character for `d` (below ten).
pub open spec fn digit_char(d: nat) -> char {
    ((48 + d) as u8) as char
}

/// The decimal representation of `n`, without sign or leading zeros.
pub open spec fn decimal_of(n: nat) -> Seq<char>
    decreases n,
{
    if n < 10 {
        seq![digit_char(n)]
    } else {
        decimal_of(n / 10).push(digit_char(n % 10))
    }
}

/// Writes `n` in decimal.
pub fn decimal(n: u64) -> (r: String)
    ensures
        r@ == decimal_of(n as nat),
    decreases n,
{
    let d: u64 = n % 10;
    let c = ((48 + d) as u8) as char;
    if n < 10 {
        let mut s = String::new();
        push_char(&mut s, c);
        assert(s@ =~= seq![digit_char(n as nat)]);
        s
    } else {
        let mut s = decimal(n / 10);
        push_char(&mut s, c);
        s
    }
}

/// `"true"` or `"false"`, as `bool`'s `to_string` writes it.
pub open spec fn bool_text(b: bool) -> Seq<char> {
    if b { "true"@ } else { "false"@ }
}

/// Writes a `bool` as `"true"` or `"false"`.
pub fn bool_string(b: bool) -> (r: String)
    ensures
        r@ == bool_text(b),
{
    if b { owned("true") } else { owned("false") }
}


/// Whether every character is an ASCII digit.
pub open spec fn all_digits(s: Seq<char>) -> bool {
    forall|i: int| 0 <= i < s.len() ==> '0' <= #[trigger] s[i] <= '9'
}

/// The number that a string of decimal digits writes.
pub open spec fn digits_value(s: Seq<char>) -> nat
    decreases s.len(),
{
    if s.len() == 0 {
        0
    } else {
        digits_value(s.drop_last()) * 10 + ((s.last() as nat) - 48) as nat
    }
}

/// The number that an unsigned decimal literal writes, as integer parsing
/// reads it: an optional `+`, then one or more digits.
pub open spec fn parsed_number(s: Seq<char>) -> Option<nat> {
    let t = if s.len() > 0 && s[0] == '+' { s.drop_first() } else { s };
    if t.len() > 0 && all_digits(t) { Some(digits_value(t)) } else { None }
}

/// A string read as a `bool`: `"true"`, `"false"`, or otherwise `default`.
pub open spec fn parsed_bool_or(s: Seq<char>, default: bool) -> bool {
    if s == "true"@ {
        true
    } else if s == "false"@ {
        false
    } else {
        default
    }
}

proof fn lemma_digits_grow(t: Seq<char>, i: int)
    requires
        0 <= i <= t.len(),
        all_digits(t),
    ensures
        digits_value(t.subrange(0, i)) <= digits_value(t),
    decreases t.len() - i,
{
    if i < t.len() {
        lemma_digits_grow(t, i + 1);
        let a = t.subrange(0, i + 1);
        assert(a.drop_last() =~= t.subrange(0, i));
        assert('0' <= a.last() <= '9');
    } else {
        assert(t.subrange(0, i) =~= t);
    }
}

/// Reads a decimal number no larger than `max`; `default` when the text is
/// not a number or the number is larger.
pub fn parse_number_or(s: &str, max: u64, default: u64) -> (r: u64)
    ensures
        r == (match parsed_number(s@) {
            Some(n) => if n <= max { n as u64 } else { default },
            None => default,
        }),
{
    let n = s.unicode_len();
    let start: usize = if n > 0 && s.get_char(0) == '+' { 1 } else { 0 };
    let ghost t = if s@.len() > 0 && s@[0] == '+' { s@.drop_first() } else { s@ };
    assert(t =~= s@.subrange(start as int, n as int));
    if start >= n {
        return default;
    }
    let mut acc: u64 = 0;
    let mut i: usize = start;
    while i < n
        invariant
            start <= i <= n,
            n == s@.len(),
            t == s@.subrange(start as int, n as int),
            t == (if s@.len() > 0 && s@[0] == '+' { s@.drop_first() } else { s@ }),
            acc <= max,
            all_digits(t.subrange(0, i - start)),
            acc == digits_value(t.subrange(0, i - start)),
        decreases n - i,
    {
        let c = s.get_char(i);
        if !('0' <= c && c <= '9') {
            assert(t[i - start] == c);
            assert(!all_digits(t));
            return default;
        }
        let d = (c as u32 - 48) as u64;
        assert(t.subrange(0, i + 1 - start).drop_last() =~= t.subrange(0, i - start));
        assert(t.subrange(0, i + 1 - start).last() == c);
        if d > max || acc > (max - d) / 10 {
            proof {
                let u = t.subrange(0, i + 1 - start);
                assert(digits_value(u) == acc * 10 + d);
                if d <= max {
                    assert(acc * 10 + d > max) by (nonlinear_arith)
                        requires acc > (max - d) / 10, d <= max, acc >= 0;
                }
                if all_digits(t) {
                    lemma_digits_grow(t, i + 1 - start);
                }
            }
            return default;
        }
        assert(acc * 10 + d <= max) by (nonlinear_arith)
            requires acc <= (max - d) / 10, d <= max;
        acc = acc * 10 + d;
        i = i + 1;
    }
    assert(t.subrange(0, n - start) =~= t);
    acc
}

/// Reads `"true"` or `"false"`; `default` for any other text.
pub fn parse_bool_or(s: &str, default: bool) -> (r: bool)
    ensures
        r == parsed_bool_or(s@, default),
{
    let o = owned(s);
    if o == owned("true") {
        true
    } else if o == owned("false") {
        false
    } else {
        default
    }
}


/// The characters of `s`, in order.
pub fn chars_of(s: &str) -> (r: Vec<char>)
    ensures
        r@ == s@,
{
    broadcast use vstd::string::group_string_axioms;
    let mut it = s.chars();
    let mut v: Vec<char> = Vec::new();
    loop
        invariant
            v@ + IteratorSpec::remaining(&it) == s@,
        ensures
            v@ == s@,
        decreases s@.len() - v@.len(),
    {
        match it.next() {
            Some(c) => {
                v.push(c);
                assert(v@ + IteratorSpec::remaining(&it) =~= s@);
            },
            None => {
                assert(v@ =~= s@);
                break;
            },
        }
    }
    v
}

/// The characters `cs[from..to]` as a string.
pub fn string_of(cs: &Vec<char>, from: usize, to: usize) -> (r: String)
    requires
        from <= to <= cs@.len(),
    ensures
        r@ == cs@.subrange(from as int, to as int),
{
    let mut r = String::new();
    let mut i: usize = from;
    while i < to
        invariant
            from <= i <= to <= cs@.len(),
            r@ == cs@.subrange(from as int, i as int),
        decreases to - i,
    {
        push_char(&mut r, cs[i]);
        assert(r@ =~= cs@.subrange(from as int, i + 1));
        i = i + 1;
    }
    r
}

/// Whether `pat` occurs in `s` at position `i`.
pub open spec fn occurs_at(s: Seq<char>, i: int, pat: Seq<char>) -> bool {
    0 <= i && i + pat.len() <= s.len() && s.subrange(i, i + pat.len()) == pat
}

/// Whether `pat` occurs in `cs` at position `i`.
pub fn matches_at(cs: &Vec<char>, i: usize, pat: &Vec<char>) -> (r: bool)
    ensures
        r == occurs_at(cs@, i as int, pat@),
{
    if i > cs.len() || pat.len() > cs.len() - i {
        return false;
    }
    let n = cs.len();
    let mut k: usize = 0;
    while k < pat.len()
        invariant
            n == cs@.len(),
            i + pat@.len() <= cs@.len(),
            k <= pat@.len(),
            forall|j: int| 0 <= j < k ==> cs@[i + j] == pat@[j],
        decreases pat@.len() - k,
    {
        if cs[i + k] != pat[k] {
            assert(cs@.subrange(i as int, i + pat@.len())[k as int] != pat@[k as int]);
            return false;
        }
        k = k + 1;
    }
    assert(cs@.subrange(i as int, i + pat@.len()) =~= pat@);
    true
}

/// `s` with every occurrence of `pat`, found left to right without overlap,
/// replaced by `rep`.
pub open spec fn replaced(s: Seq<char>, pat: Seq<char>, rep: Seq<char>) -> Seq<char>
    decreases s.len(),
{
    if pat.len() == 0 || s.len() == 0 {
        s
    } else if occurs_at(s, 0, pat) {
        rep + replaced(s.subrange(pat.len() as int, s.len() as int), pat, rep)
    } else {
        seq![s[0]] + replaced(s.subrange(1, s.len() as int), pat, rep)
    }
}

/// Replaces every occurrence of `pat` (not empty), left to right without
/// overlap, by `rep`.
pub fn replace_all(s: &str, pat: &str, rep: &str) -> (r: String)
    requires
        pat@.len() > 0,
    ensures
        r@ == replaced(s@, pat@, rep@),
{
    let cs = chars_of(s);
    let ps = chars_of(pat);
    let n = cs.len();
    let mut r = String::new();
    let mut i: usize = 0;
    assert(cs@.subrange(0, n as int) =~= cs@);
    while i < n
        invariant
            n == cs@.len(),
            ps@ == pat@,
            cs@ == s@,
            pat@.len() > 0,
            i <= n,
            r@ + replaced(cs@.subrange(i as int, n as int), pat@, rep@) == replaced(s@, pat@, rep@),
        decreases n - i,
    {
        let ghost rest = cs@.subrange(i as int, n as int);
        if matches_at(&cs, i, &ps) {
            assert(occurs_at(rest, 0, pat@)) by {
                assert(rest.subrange(0, pat@.len() as int) =~= cs@.subrange(i as int, i + pat@.len()));
            }
            assert(rest.subrange(pat@.len() as int, rest.len() as int) =~= cs@.subrange(i + pat@.len(), n as int));
            r.append(rep);
            assert(r@ + replaced(cs@.subrange(i + pat@.len(), n as int), pat@, rep@) =~= replaced(s@, pat@, rep@));
            i = i + ps.len();
        } else {
            assert(!occurs_at(rest, 0, pat@)) by {
                if occurs_at(rest, 0, pat@) {
                    assert(rest.subrange(0, pat@.len() as int) =~= cs@.subrange(i as int, i + pat@.len()));
                }
            }
            assert(rest.subrange(1, rest.len() as int) =~= cs@.subrange(i + 1, n as int));
            push_char(&mut r, cs[i]);
            assert(r@ + replaced(cs@.subrange(i + 1, n as int), pat@, rep@) =~= replaced(s@, pat@, rep@));
            i = i + 1;
        }
    }
    assert(r@ =~= replaced(s@, pat@, rep@));
    r
}

/// The text of `s` before the first occurrence of `pat`, or all of `s`.
pub open spec fn before_first(s: Seq<char>, pat: Seq<char>) -> Seq<char>
    decreases s.len(),
{
    if s.len() == 0 {
        s
    } else if occurs_at(s, 0, pat) {
        Seq::empty()
    } else {
        seq![s[0]] + before_first(s.subrange(1, s.len() as int), pat)
    }
}

/// The text of `s` before the first occurrence of `pat`, as the first item
/// that splitting `s` at `pat` yields.
pub fn text_before(s: &str, pat: &str) -> (r: String)
    requires
        pat@.len() > 0,
    ensures
        r@ == before_first(s@, pat@),
{
    let cs = chars_of(s);
    let ps = chars_of(pat);
    let n = cs.len();
    let mut i: usize = 0;
    assert(cs@.subrange(0, n as int) =~= cs@);
    assert(cs@.subrange(0, 0) + before_first(cs@, pat@) =~= before_first(cs@, pat@));
    while i < n
        invariant
            n == cs@.len(),
            ps@ == pat@,
            cs@ == s@,
            i <= n,
            cs@.subrange(0, i as int) + before_first(cs@.subrange(i as int, n as int), pat@) == before_first(s@, pat@),
        decreases n - i,
    {
        let ghost rest = cs@.subrange(i as int, n as int);
        if matches_at(&cs, i, &ps) {
            assert(rest.subrange(0, pat@.len() as int) =~= cs@.subrange(i as int, i + pat@.len()));
            assert(cs@.subrange(0, i as int) + Seq::<char>::empty() =~= cs@.subrange(0, i as int));
            return string_of(&cs, 0, i);
        }
        assert(!occurs_at(rest, 0, pat@)) by {
            if occurs_at(rest, 0, pat@) {
                assert(rest.subrange(0, pat@.len() as int) =~= cs@.subrange(i as int, i + pat@.len()));
            }
        }
        assert(rest.subrange(1, rest.len() as int) =~= cs@.subrange(i + 1, n as int));
        assert(cs@.subrange(0, i + 1) =~= cs@.subrange(0, i as int) + seq![cs@[i as int]]);
        assert(cs@.subrange(0, i + 1) + before_first(cs@.subrange(i + 1, n as int), pat@)
            =~= cs@.subrange(0, i as int) + before_first(rest, pat@));
        i = i + 1;
    }
    assert(cs@.subrange(0, n as int) + before_first(cs@.subrange(n as int, n as int), pat@) =~= cs@);
    owned(s)
}

/// The number of bytes that UTF-8 takes for a character.
pub open spec fn utf8_width(c: char) -> nat {
    if (c as u32) < 0x80 {
        1
    } else if (c as u32) < 0x800 {
        2
    } else if (c as u32) < 0x10000 {
        3
    } else {
        4
    }
}

/// The number of bytes that UTF-8 takes for a character.
pub fn utf8_width_of(c: char) -> (r: usize)
    ensures
        r == utf8_width(c),
{
    if (c as u32) < 0x80 {
        1
    } else if (c as u32) < 0x800 {
        2
    } else if (c as u32) < 0x10000 {
        3
    } else {
        4
    }
}

/// The length in bytes of the UTF-8 encoding of `s`.
pub open spec fn utf8_bytes(s: Seq<char>) -> nat
    decreases s.len(),
{
    if s.len() == 0 { 0 } else { utf8_bytes(s.drop_last()) + utf8_width(s.last()) }
}

/// How many leading characters of `s` fit in `max` bytes of UTF-8.
pub open spec fn fit_count(s: Seq<char>, max: nat) -> nat
    decreases s.len(),
{
    if s.len() == 0 {
        0
    } else if utf8_width(s[0]) <= max {
        1 + fit_count(s.drop_first(), (max - utf8_width(s[0])) as nat)
    } else {
        0
    }
}

/// How many trailing characters of `s` fit in `max` bytes of UTF-8.
pub open spec fn tail_fit_count(s: Seq<char>, max: nat) -> nat
    decreases s.len(),
{
    if s.len() == 0 {
        0
    } else if utf8_width(s.last()) <= max {
        1 + tail_fit_count(s.drop_last(), (max - utf8_width(s.last())) as nat)
    } else {
        0
    }
}

proof fn lemma_bytes_front(s: Seq<char>)
    requires
        s.len() > 0,
    ensures
        utf8_bytes(s) == utf8_width(s[0]) + utf8_bytes(s.drop_first()),
    decreases s.len(),
{
    if s.len() > 1 {
        lemma_bytes_front(s.drop_last());
        assert(s.drop_last().drop_first() =~= s.drop_first().drop_last());
        assert(s.drop_first().last() == s.last());
        assert(s.drop_last()[0] == s[0]);
        assert(utf8_bytes(s.drop_first()) == utf8_bytes(s.drop_first().drop_last()) + utf8_width(s.drop_first().last()));
    } else {
        assert(s.drop_first().len() == 0);
        assert(s.drop_last().len() == 0);
        assert(utf8_bytes(s.drop_first()) == 0);
        assert(utf8_bytes(s.drop_last()) == 0);
        assert(s.last() == s[0]);
    }
}

/// All of `s` fits in `max` bytes exactly when its UTF-8 length is at most `max`.
pub proof fn lemma_fit_all(s: Seq<char>, max: nat)
    ensures
        fit_count(s, max) <= s.len(),
        (utf8_bytes(s) <= max) == (fit_count(s, max) == s.len()),
    decreases s.len(),
{
    if s.len() > 0 {
        lemma_bytes_front(s);
        let w = utf8_width(s[0]);
        if w <= max {
            lemma_fit_all(s.drop_first(), (max - w) as nat);
        }
    }
}

/// The number of leading characters of `cs` that fit in `max` bytes, and
/// their UTF-8 length.
pub fn fit_prefix(cs: &Vec<char>, max: usize) -> (r: (usize, usize))
    ensures
        r.0 == fit_count(cs@, max as nat),
        r.1 == utf8_bytes(cs@.subrange(0, r.0 as int)),
        r.1 <= max,
{
    let n = cs.len();
    let mut i: usize = 0;
    let mut used: usize = 0;
    assert(cs@.subrange(0, n as int) =~= cs@);
    assert(cs@.subrange(0, 0).len() == 0);
    while i < n
        invariant_except_break
            fit_count(cs@, max as nat) == i + fit_count(cs@.subrange(i as int, n as int), (max - used) as nat),
        invariant
            n == cs@.len(),
            i <= n,
            used <= max,
            used == utf8_bytes(cs@.subrange(0, i as int)),
        ensures
            fit_count(cs@, max as nat) == i,
        decreases n - i,
    {
        let ghost rest = cs@.subrange(i as int, n as int);
        assert(rest.drop_first() =~= cs@.subrange(i + 1, n as int));
        assert(rest[0] == cs@[i as int]);
        assert(cs@.subrange(0, i + 1).drop_last() =~= cs@.subrange(0, i as int));
        let w = utf8_width_of(cs[i]);
        if w > max - used {
            break;
        }
        used = used + w;
        i = i + 1;
    }
    (i, used)
}

/// The number of trailing characters of `cs` that fit in `max` bytes.
pub fn fit_suffix(cs: &Vec<char>, max: usize) -> (r: usize)
    ensures
        r == tail_fit_count(cs@, max as nat),
        r <= cs@.len(),
{
    let n = cs.len();
    let mut j: usize = n;
    let mut used: usize = 0;
    assert(cs@.subrange(0, n as int) =~= cs@);
    while j > 0
        invariant_except_break
            tail_fit_count(cs@, max as nat) == (n - j) + tail_fit_count(cs@.subrange(0, j as int), (max - used) as nat),
        invariant
            n == cs@.len(),
            j <= n,
            used <= max,
        ensures
            tail_fit_count(cs@, max as nat) == n - j,
        decreases j,
    {
        let ghost pre = cs@.subrange(0, j as int);
        assert(pre.drop_last() =~= cs@.subrange(0, j - 1));
        assert(pre.last() == cs@[j - 1]);
        let w = utf8_width_of(cs[j - 1]);
        if w > max - used {
            break;
        }
        used = used + w;
        j = j - 1;
    }
    n - j
}

} // verus!
