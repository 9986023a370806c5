//! Character-level helpers: conversion between `str` and character vectors,
//! HTML escaping, Unicode trimming, decimal parsing and rendering.

use vstd::prelude::*;
use vstd::string::*;

verus! {

/// Appends one character to a string (std's `String::push`).
/// Claimed: the string afterwards is the old string followed by `c`.
#[verifier::external_body]
pub(crate) fn push_char(s: &mut String, c: char)
    ensures
        final(s)@ == old(s)@.push(c),
{
    s.push(c)
}

/// The characters of `s`, in order.
pub fn chars_of(s: &str) -> (v: Vec<char>)
    ensures
        v@ == s@,
{
    broadcast use vstd::string::group_string_axioms;
    let mut v: Vec<char> = Vec::new();
    for c in it: s.chars()
        invariant
            v@ == it.seq().take(it.index() as int),
            it.seq() == s@,
    {
        v.push(c);
    }
    v
}


// ---------------------------------------------------------------------------
// HTML escaping
// ---------------------------------------------------------------------------

/// What one character becomes in escaped HTML text: the four characters
/// `&`, `<`, `>` and `"` become entities, every other character stays.
pub open spec fn escape_char(c: char) -> Seq<char> {
    if c == '&' {
        seq!['&', 'a', 'm', 'p', ';']
    } else if c == '<' {
        seq!['&', 'l', 't', ';']
    } else if c == '>' {
        seq!['&', 'g', 't', ';']
    } else if c == '"' {
        seq!['&', 'q', 'u', 'o', 't', ';']
    } else {
        seq![c]
    }
}

/// `s` with every character replaced by `escape_char` of it.
pub open spec fn escape_html(s: Seq<char>) -> Seq<char>
    decreases s.len(),
{
    if s.len() == 0 {
        Seq::empty()
    } else {
        escape_html(s.drop_last()) + escape_char(s.last())
    }
}

/// Appends the escaped form of `s` to `out`.
pub fn push_escaped(out: &mut String, s: &str)
    ensures
        final(out)@ == old(out)@ + escape_html(s@),
{
    broadcast use vstd::string::group_string_axioms;
    let v = chars_of(s);
    let ghost start = out@;
    for i in 0..v.len()
        invariant
            v@ == s@,
            out@ == start + escape_html(v@.take(i as int)),
    {
        let c = v[i];
        let ghost before = out@;
        proof {
            let t = v@.take(i + 1);
            assert(t.drop_last() =~= v@.take(i as int));
            assert(t.last() == c);
            reveal_strlit("&amp;");
            reveal_strlit("&lt;");
            reveal_strlit("&gt;");
            reveal_strlit("&quot;");
        }
        if c == '&' {
            out.append("&amp;");
        } else if c == '<' {
            out.append("&lt;");
        } else if c == '>' {
            out.append("&gt;");
        } else if c == '"' {
            out.append("&quot;");
        } else {
            push_char(out, c);
        }
        proof {
            assert(out@ =~= before + escape_char(c));
            assert(start + escape_html(v@.take(i as int)) + escape_char(c) =~= start + (
            escape_html(v@.take(i as int)) + escape_char(c)));
        }
    }
    proof {
        assert(v@.take(v@.len() as int) =~= v@);
    }
}

/// Escaping a concatenation escapes each part.
pub proof fn lemma_escape_html_concat(a: Seq<char>, b: Seq<char>)
    ensures
        escape_html(a + b) == escape_html(a) + escape_html(b),
    decreases b.len(),
{
    if b.len() == 0 {
        assert(a + b =~= a);
        assert(escape_html(a) + escape_html(b) =~= escape_html(a));
    } else {
        lemma_escape_html_concat(a, b.drop_last());
        assert((a + b).drop_last() =~= a + b.drop_last());
        assert((a + b).last() == b.last());
        assert(escape_html(a) + escape_html(b.drop_last()) + escape_char(b.last())
            =~= escape_html(a) + (escape_html(b.drop_last()) + escape_char(b.last())));
    }
}

/// Escaped text holds no `<`, `>` or `"`: it cannot open a tag or close an
/// attribute value.
pub proof fn lemma_escape_html_is_inert(s: Seq<char>)
    ensures
        forall|i: int|
            0 <= i < escape_html(s).len() ==> {
                let c = #[trigger] escape_html(s)[i];
                c != '<' && c != '>' && c != '"'
            },
    decreases s.len(),
{
    if s.len() > 0 {
        lemma_escape_html_is_inert(s.drop_last());
        let p = escape_html(s.drop_last());
        let e = escape_char(s.last());
        assert forall|i: int| 0 <= i < escape_html(s).len() implies {
            let c = #[trigger] escape_html(s)[i];
            c != '<' && c != '>' && c != '"'
        } by {
            if i < p.len() {
                assert(escape_html(s)[i] == p[i]);
            } else {
                assert(escape_html(s)[i] == e[i - p.len()]);
            }
        }
    }
}

/// Text without `&`, `<`, `>` and `"` is left as it is.
pub proof fn lemma_escape_html_plain(s: Seq<char>)
    requires
        forall|i: int|
            0 <= i < s.len() ==> {
                let c = #[trigger] s[i];
                c != '&' && c != '<' && c != '>' && c != '"'
            },
    ensures
        escape_html(s) == s,
    decreases s.len(),
{
    if s.len() > 0 {
        let p = s.drop_last();
        assert forall|i: int| 0 <= i < p.len() implies {
            let c = #[trigger] p[i];
            c != '&' && c != '<' && c != '>' && c != '"'
        } by {
            assert(p[i] == s[i]);
        }
        lemma_escape_html_plain(p);
        assert(s.last() == s[s.len() - 1]);
        assert(p.push(s.last()) =~= s);
        assert(p + seq![s.last()] =~= p.push(s.last()));
    }
}

/// Whether `s` ends with `e`.
pub open spec fn ends_with(s: Seq<char>, e: Seq<char>) -> bool {
    s.len() >= e.len() && s.subrange(s.len() - e.len(), s.len() as int) == e
}

/// Escaped text read back: each entity that `escape_char` writes becomes the
/// character it stands for.
pub open spec fn unescape_html(s: Seq<char>) -> Seq<char>
    decreases s.len(),
{
    if s.len() == 0 {
        Seq::empty()
    } else if ends_with(s, escape_char('&')) {
        unescape_html(s.subrange(0, s.len() - 5)).push('&')
    } else if ends_with(s, escape_char('<')) {
        unescape_html(s.subrange(0, s.len() - 4)).push('<')
    } else if ends_with(s, escape_char('>')) {
        unescape_html(s.subrange(0, s.len() - 4)).push('>')
    } else if ends_with(s, escape_char('"')) {
        unescape_html(s.subrange(0, s.len() - 6)).push('"')
    } else {
        unescape_html(s.drop_last()).push(s.last())
    }
}

/// Whether `s` ends with the beginning of an entity that is not finished.
spec fn ends_in_open_entity(s: Seq<char>) -> bool {
    ||| ends_with(s, seq!['&'])
    ||| ends_with(s, seq!['&', 'a'])
    ||| ends_with(s, seq!['&', 'a', 'm'])
    ||| ends_with(s, seq!['&', 'a', 'm', 'p'])
    ||| ends_with(s, seq!['&', 'l'])
    ||| ends_with(s, seq!['&', 'l', 't'])
    ||| ends_with(s, seq!['&', 'g'])
    ||| ends_with(s, seq!['&', 'g', 't'])
    ||| ends_with(s, seq!['&', 'q'])
    ||| ends_with(s, seq!['&', 'q', 'u'])
    ||| ends_with(s, seq!['&', 'q', 'u', 'o'])
    ||| ends_with(s, seq!['&', 'q', 'u', 'o', 't'])
}

proof fn lemma_ends_with_push(x: Seq<char>, c: char, d: Seq<char>)
    requires
        d.len() > 0,
        ends_with(x.push(c), d),
    ensures
        d.last() == c,
        ends_with(x, d.drop_last()),
{
    let y = x.push(c);
    let k = y.len() - d.len();
    assert(y.subrange(k, y.len() as int)[d.len() - 1] == y[y.len() - 1]);
    assert(x.subrange(k, x.len() as int) =~= d.drop_last()) by {
        assert forall|j: int| 0 <= j < d.len() - 1 implies x.subrange(k, x.len() as int)[j]
            == d.drop_last()[j] by {
            assert(y.subrange(k, y.len() as int)[j] == d[j]);
        }
    }
}

proof fn lemma_ends_with_last(x: Seq<char>, d: Seq<char>)
    requires
        d.len() > 0,
        ends_with(x, d),
    ensures
        x.last() == d.last(),
{
    assert(x.subrange(x.len() - d.len(), x.len() as int)[d.len() - 1] == x[x.len() - 1]);
}

proof fn lemma_escape_html_closes_entities(p: Seq<char>)
    ensures
        !ends_in_open_entity(escape_html(p)),
    decreases p.len(),
{
    if p.len() > 0 {
        let c = p.last();
        let e = escape_html(p.drop_last());
        lemma_escape_html_closes_entities(p.drop_last());
        let full = escape_html(p);
        if c == '&' || c == '<' || c == '>' || c == '"' {
            assert(full.last() == escape_char(c).last());
            if ends_with(full, seq!['&']) {
                lemma_ends_with_last(full, seq!['&']);
            }
            if ends_with(full, seq!['&', 'a']) {
                lemma_ends_with_last(full, seq!['&', 'a']);
            }
            if ends_with(full, seq!['&', 'a', 'm']) {
                lemma_ends_with_last(full, seq!['&', 'a', 'm']);
            }
            if ends_with(full, seq!['&', 'a', 'm', 'p']) {
                lemma_ends_with_last(full, seq!['&', 'a', 'm', 'p']);
            }
            if ends_with(full, seq!['&', 'l']) {
                lemma_ends_with_last(full, seq!['&', 'l']);
            }
            if ends_with(full, seq!['&', 'l', 't']) {
                lemma_ends_with_last(full, seq!['&', 'l', 't']);
            }
            if ends_with(full, seq!['&', 'g']) {
                lemma_ends_with_last(full, seq!['&', 'g']);
            }
            if ends_with(full, seq!['&', 'g', 't']) {
                lemma_ends_with_last(full, seq!['&', 'g', 't']);
            }
            if ends_with(full, seq!['&', 'q']) {
                lemma_ends_with_last(full, seq!['&', 'q']);
            }
            if ends_with(full, seq!['&', 'q', 'u']) {
                lemma_ends_with_last(full, seq!['&', 'q', 'u']);
            }
            if ends_with(full, seq!['&', 'q', 'u', 'o']) {
                lemma_ends_with_last(full, seq!['&', 'q', 'u', 'o']);
            }
            if ends_with(full, seq!['&', 'q', 'u', 'o', 't']) {
                lemma_ends_with_last(full, seq!['&', 'q', 'u', 'o', 't']);
            }
        } else {
            assert(full == e.push(c));
            if ends_with(full, seq!['&']) {
                lemma_ends_with_push(e, c, seq!['&']);
            }
            if ends_with(full, seq!['&', 'a']) {
                lemma_ends_with_push(e, c, seq!['&', 'a']);
                assert(seq!['&', 'a'].drop_last() =~= seq!['&']);
            }
            if ends_with(full, seq!['&', 'a', 'm']) {
                lemma_ends_with_push(e, c, seq!['&', 'a', 'm']);
                assert(seq!['&', 'a', 'm'].drop_last() =~= seq!['&', 'a']);
            }
            if ends_with(full, seq!['&', 'a', 'm', 'p']) {
                lemma_ends_with_push(e, c, seq!['&', 'a', 'm', 'p']);
                assert(seq!['&', 'a', 'm', 'p'].drop_last() =~= seq!['&', 'a', 'm']);
            }
            if ends_with(full, seq!['&', 'l']) {
                lemma_ends_with_push(e, c, seq!['&', 'l']);
                assert(seq!['&', 'l'].drop_last() =~= seq!['&']);
            }
            if ends_with(full, seq!['&', 'l', 't']) {
                lemma_ends_with_push(e, c, seq!['&', 'l', 't']);
                assert(seq!['&', 'l', 't'].drop_last() =~= seq!['&', 'l']);
            }
            if ends_with(full, seq!['&', 'g']) {
                lemma_ends_with_push(e, c, seq!['&', 'g']);
                assert(seq!['&', 'g'].drop_last() =~= seq!['&']);
            }
            if ends_with(full, seq!['&', 'g', 't']) {
                lemma_ends_with_push(e, c, seq!['&', 'g', 't']);
                assert(seq!['&', 'g', 't'].drop_last() =~= seq!['&', 'g']);
            }
            if ends_with(full, seq!['&', 'q']) {
                lemma_ends_with_push(e, c, seq!['&', 'q']);
                assert(seq!['&', 'q'].drop_last() =~= seq!['&']);
            }
            if ends_with(full, seq!['&', 'q', 'u']) {
                lemma_ends_with_push(e, c, seq!['&', 'q', 'u']);
                assert(seq!['&', 'q', 'u'].drop_last() =~= seq!['&', 'q']);
            }
            if ends_with(full, seq!['&', 'q', 'u', 'o']) {
                lemma_ends_with_push(e, c, seq!['&', 'q', 'u', 'o']);
                assert(seq!['&', 'q', 'u', 'o'].drop_last() =~= seq!['&', 'q', 'u']);
            }
            if ends_with(full, seq!['&', 'q', 'u', 'o', 't']) {
                lemma_ends_with_push(e, c, seq!['&', 'q', 'u', 'o', 't']);
                assert(seq!['&', 'q', 'u', 'o', 't'].drop_last() =~= seq!['&', 'q', 'u', 'o']);
            }
        }
    }
}

/// Reading escaped text back gives the text: escaping loses nothing.
#[verifier::spinoff_prover]
#[verifier::rlimit(60)]
pub proof fn lemma_unescape_escape(s: Seq<char>)
    ensures
        unescape_html(escape_html(s)) == s,
    decreases s.len(),
{
    if s.len() > 0 {
        let p = s.drop_last();
        let c = s.last();
        let e = escape_html(p);
        let full = escape_html(s);
        lemma_unescape_escape(p);
        assert(p.push(c) =~= s);
        let amp = escape_char('&');
        let lt = escape_char('<');
        let gt = escape_char('>');
        let quot = escape_char('"');
        if c == '&' {
            assert(full.subrange(full.len() - 5, full.len() as int) =~= amp);
            assert(full.subrange(0, full.len() - 5) =~= e);
        } else if c == '<' {
            if full.len() >= 5 {
                assert(full.subrange(full.len() - 5, full.len() as int)[1] == '&');
            }
            assert(!ends_with(full, amp));
            assert(full.subrange(full.len() - 4, full.len() as int) =~= lt);
            assert(full.subrange(0, full.len() - 4) =~= e);
        } else if c == '>' {
            if full.len() >= 5 {
                assert(full.subrange(full.len() - 5, full.len() as int)[1] == '&');
            }
            assert(!ends_with(full, amp));
            assert(full.subrange(full.len() - 4, full.len() as int)[1] == 'g');
            assert(!ends_with(full, lt));
            assert(full.subrange(full.len() - 4, full.len() as int) =~= gt);
            assert(full.subrange(0, full.len() - 4) =~= e);
        } else if c == '"' {
            assert(full.subrange(full.len() - 5, full.len() as int)[0] == 'q');
            assert(!ends_with(full, amp));
            assert(full.subrange(full.len() - 4, full.len() as int)[0] == 'u');
            assert(!ends_with(full, lt));
            assert(!ends_with(full, gt));
            assert(full.subrange(full.len() - 6, full.len() as int) =~= quot);
            assert(full.subrange(0, full.len() - 6) =~= e);
        } else {
            assert(full == e.push(c));
            assert(full.drop_last() =~= e);
            if c == ';' {
                lemma_escape_html_closes_entities(p);
                if ends_with(full, amp) {
                    lemma_ends_with_push(e, c, amp);
                    assert(amp.drop_last() =~= seq!['&', 'a', 'm', 'p']);
                }
                if ends_with(full, lt) {
                    lemma_ends_with_push(e, c, lt);
                    assert(lt.drop_last() =~= seq!['&', 'l', 't']);
                }
                if ends_with(full, gt) {
                    lemma_ends_with_push(e, c, gt);
                    assert(gt.drop_last() =~= seq!['&', 'g', 't']);
                }
                if ends_with(full, quot) {
                    lemma_ends_with_push(e, c, quot);
                    assert(quot.drop_last() =~= seq!['&', 'q', 'u', 'o', 't']);
                }
            } else {
                assert forall|d: Seq<char>| d.len() > 0 && d.last() == ';' implies !ends_with(full, d) by {
                    if ends_with(full, d) {
                        lemma_ends_with_push(e, c, d);
                    }
                }
            }
        }
    }
}

/// Distinct texts escape to distinct HTML: what the admin pages show is
/// exactly what is stored.
pub proof fn lemma_escape_html_injective(a: Seq<char>, b: Seq<char>)
    requires
        escape_html(a) == escape_html(b),
    ensures
        a == b,
{
    lemma_unescape_escape(a);
    lemma_unescape_escape(b);
}

// ---------------------------------------------------------------------------
// Unicode white space and trimming
// ---------------------------------------------------------------------------

/// The Unicode `White_Space` property, which std's `char::is_whitespace`
/// tests.
pub open spec fn is_white_space(c: char) -> bool {
    let u = c as u32;
    ||| 0x9 <= u <= 0xD
    ||| u == 0x20
    ||| u == 0x85
    ||| u == 0xA0
    ||| u == 0x1680
    ||| 0x2000 <= u <= 0x200A
    ||| u == 0x2028
    ||| u == 0x2029
    ||| u == 0x202F
    ||| u == 0x205F
    ||| u == 0x3000
}

/// Whether `c` is Unicode white space.
pub fn white_space(c: char) -> (b: bool)
    ensures
        b == is_white_space(c),
{
    let u = c as u32;
    (0x9 <= u && u <= 0xD) || u == 0x20 || u == 0x85 || u == 0xA0 || u == 0x1680 || (0x2000 <= u
        && u <= 0x200A) || u == 0x2028 || u == 0x2029 || u == 0x202F || u == 0x205F || u == 0x3000
}

/// `s` without its leading white space.
pub open spec fn trim_start_spec(s: Seq<char>) -> Seq<char>
    decreases s.len(),
{
    if s.len() > 0 && is_white_space(s[0]) {
        trim_start_spec(s.drop_first())
    } else {
        s
    }
}

/// `s` without its trailing white space.
pub open spec fn trim_end_spec(s: Seq<char>) -> Seq<char>
    decreases s.len(),
{
    if s.len() > 0 && is_white_space(s.last()) {
        trim_end_spec(s.drop_last())
    } else {
        s
    }
}

/// `s` without leading and trailing white space, as std's `str::trim` gives it.
pub open spec fn trim_spec(s: Seq<char>) -> Seq<char> {
    trim_end_spec(trim_start_spec(s))
}

/// The bounds, within `lo..hi`, of `v[lo..hi]` without its leading and
/// trailing white space.
pub fn trim_range(v: &Vec<char>, lo: usize, hi: usize) -> (r: (usize, usize))
    requires
        lo <= hi <= v@.len(),
    ensures
        lo <= r.0 <= r.1 <= hi,
        v@.subrange(r.0 as int, r.1 as int) == trim_spec(v@.subrange(lo as int, hi as int)),
{
    let mut i: usize = lo;
    while i < hi && white_space(v[i])
        invariant
            lo <= i <= hi <= v@.len(),
            trim_start_spec(v@.subrange(lo as int, hi as int)) == trim_start_spec(
                v@.subrange(i as int, hi as int),
            ),
        decreases hi - i,
    {
        assert(v@.subrange(i as int, hi as int).drop_first() =~= v@.subrange(i + 1, hi as int));
        i = i + 1;
    }
    let mut j: usize = hi;
    while j > i && white_space(v[j - 1])
        invariant
            lo <= i <= j <= hi <= v@.len(),
            trim_start_spec(v@.subrange(lo as int, hi as int)) == v@.subrange(i as int, hi as int),
            trim_spec(v@.subrange(lo as int, hi as int)) == trim_end_spec(
                v@.subrange(i as int, j as int),
            ),
        decreases j,
    {
        assert(v@.subrange(i as int, j as int).drop_last() =~= v@.subrange(i as int, j - 1));
        j = j - 1;
    }
    (i, j)
}

/// `s` without leading and trailing white space.
pub fn trim(s: &str) -> (r: &str)
    ensures
        r@ == trim_spec(s@),
{
    let v = chars_of(s);
    let (i, j) = trim_range(&v, 0, v.len());
    proof {
        assert(v@.subrange(0, v@.len() as int) =~= v@);
    }
    s.substring_char(i, j)
}


// ---------------------------------------------------------------------------
// Decimal numbers
// ---------------------------------------------------------------------------

/// Whether `c` is one of the ASCII digits `0` to `9`.
pub open spec fn is_digit(c: char) -> bool {
    48 <= (c as u32) <= 57
}

/// The value of a digit character.
pub open spec fn digit_value(c: char) -> nat {
    ((c as u32) - 48) as nat
}

/// The digit character for a value below ten.
pub open spec fn digit_char(d: nat) -> char {
    ((d + 48) as u32) as char
}

/// Whether every character of `s` is a digit.
pub open spec fn all_digits(s: Seq<char>) -> bool {
    forall|i: int| 0 <= i < s.len() ==> is_digit(#[trigger] s[i])
}

/// The value of a string of digits, read in base ten.
pub open spec fn digits_value(s: Seq<char>) -> nat
    decreases s.len(),
{
    if s.len() == 0 {
        0
    } else {
        digits_value(s.drop_last()) * 10 + digit_value(s.last())
    }
}

/// What std's `i64::from_str` gives for the text `s`: an optional `+` or `-`,
/// then one or more digits, with the value in the range of `i64`.
pub open spec fn parse_i64_spec(s: Seq<char>) -> Option<i64> {
    if s.len() > 0 && s[0] == '-' {
        let d = s.drop_first();
        if d.len() > 0 && all_digits(d) && digits_value(d) <= 0x8000_0000_0000_0000 {
            Some((0 - digits_value(d)) as i64)
        } else {
            None
        }
    } else {
        let d = if s.len() > 0 && s[0] == '+' {
            s.drop_first()
        } else {
            s
        };
        if d.len() > 0 && all_digits(d) && digits_value(d) <= 0x7FFF_FFFF_FFFF_FFFF {
            Some(digits_value(d) as i64)
        } else {
            None
        }
    }
}

/// Reads a decimal `i64` from `s` as std's `i64::from_str` does: `None` is
/// that function's error.
pub fn parse_i64(s: &str) -> (r: Option<i64>)
    ensures
        r == parse_i64_spec(s@),
{
    let v = chars_of(s);
    let n = v.len();
    if n == 0 {
        return None;
    }
    let negative = v[0] == '-';
    let start: usize = if v[0] == '-' || v[0] == '+' {
        1
    } else {
        0
    };
    if start == n {
        proof {
            assert(v@.drop_first().len() == 0);
        }
        return None;
    }
    let ghost d = v@.subrange(start as int, n as int);
    proof {
        if start == 1 {
            assert(d =~= v@.drop_first());
        } else {
            assert(d =~= v@);
        }
    }
    let mut acc: u64 = 0;
    let mut over = false;
    let mut i: usize = start;
    while i < n
        invariant
            start <= i <= n,
            0 < n == v@.len(),
            v@ == s@,
            negative == (v@[0] == '-'),
            start == (if v@[0] == '-' || v@[0] == '+' {
                1usize
            } else {
                0usize
            }),
            d == v@.subrange(start as int, n as int),
            all_digits(v@.subrange(start as int, i as int)),
            !over ==> acc == digits_value(v@.subrange(start as int, i as int)),
            !over ==> acc <= 0x8000_0000_0000_0000,
            over ==> digits_value(v@.subrange(start as int, i as int)) > 0x8000_0000_0000_0000,
        decreases n - i,
    {
        let c = v[i];
        let code = c as u32;
        if code < 48 || code > 57 {
            proof {
                assert(d[i - start] == c);
                assert(!all_digits(d));
            }
            return None;
        }
        let ghost p = v@.subrange(start as int, i as int);
        let ghost q = v@.subrange(start as int, i + 1);
        proof {
            assert(q.drop_last() =~= p);
            assert(q.last() == c);
            assert(digits_value(q) == digits_value(p) * 10 + digit_value(c));
            assert forall|k: int| 0 <= k < q.len() implies is_digit(#[trigger] q[k]) by {
                if k < p.len() {
                    assert(q[k] == p[k]);
                }
            }
        }
        if !over {
            let next: u128 = (acc as u128) * 10 + ((code - 48) as u128);
            if next > 0x8000_0000_0000_0000 {
                over = true;
            } else {
                acc = next as u64;
            }
        }
        i = i + 1;
    }
    proof {
        assert(v@.subrange(start as int, n as int) == d);
    }
    if negative {
        if over {
            None
        } else if acc == 0x8000_0000_0000_0000 {
            Some(i64::MIN)
        } else {
            Some(0 - (acc as i64))
        }
    } else {
        if over || acc > 0x7FFF_FFFF_FFFF_FFFF {
            None
        } else {
            Some(acc as i64)
        }
    }
}

/// The decimal digits of `n`, without leading zeros.
pub open spec fn decimal_digits(n: nat) -> Seq<char>
    decreases n,
{
    if n < 10 {
        seq![digit_char(n)]
    } else {
        decimal_digits(n / 10).push(digit_char(n % 10))
    }
}

/// The decimal text of `n`, as std's `Display` writes an integer.
pub open spec fn decimal(n: int) -> Seq<char> {
    if n < 0 {
        seq!['-'] + decimal_digits((0 - n) as nat)
    } else {
        decimal_digits(n as nat)
    }
}

/// Appends the decimal digits of `n` to `out`.
pub fn push_decimal_u64(out: &mut String, n: u64)
    ensures
        final(out)@ == old(out)@ + decimal_digits(n as nat),
    decreases n,
{
    if n >= 10 {
        push_decimal_u64(out, n / 10);
    }
    let d = (n % 10) as u8;
    let c = (d + 48) as char;
    push_char(out, c);
    proof {
        if n >= 10 {
            assert(decimal_digits(n as nat) == decimal_digits((n / 10) as nat).push(
                digit_char((n % 10) as nat),
            ));
        }
    }
}

/// Appends the decimal text of `n` to `out`.
pub fn push_decimal_i64(out: &mut String, n: i64)
    ensures
        final(out)@ == old(out)@ + decimal(n as int),
{
    if n < 0 {
        push_char(out, '-');
        let m: u64 = if n == i64::MIN {
            0x8000_0000_0000_0000
        } else {
            (0 - n) as u64
        };
        push_decimal_u64(out, m);
        proof {
            assert(out@ =~= old(out)@ + (seq!['-'] + decimal_digits(m as nat)));
        }
    } else {
        push_decimal_u64(out, n as u64);
    }
}

/// The decimal text of `n`.
pub fn i64_to_decimal(n: i64) -> (s: String)
    ensures
        s@ == decimal(n as int),
{
    let mut s = String::new();
    push_decimal_i64(&mut s, n);
    proof {
        assert(s@ =~= decimal(n as int));
    }
    s
}

proof fn lemma_decimal_digits_read_back(n: nat)
    ensures
        decimal_digits(n).len() > 0,
        all_digits(decimal_digits(n)),
        digits_value(decimal_digits(n)) == n,
    decreases n,
{
    if n >= 10 {
        lemma_decimal_digits_read_back(n / 10);
        let p = decimal_digits(n / 10);
        let q = decimal_digits(n);
        assert(q == p.push(digit_char(n % 10)));
        assert(q.drop_last() =~= p);
        assert(q.last() == digit_char(n % 10));
        assert(digit_value(digit_char(n % 10)) == n % 10);
        assert(digits_value(q) == digits_value(p) * 10 + digit_value(q.last()));
        assert((n / 10) * 10 + n % 10 == n);
        assert forall|k: int| 0 <= k < q.len() implies is_digit(#[trigger] q[k]) by {
            if k < p.len() {
                assert(q[k] == p[k]);
            }
        }
    } else {
        assert(digit_value(digit_char(n)) == n);
        let q = decimal_digits(n);
        assert(q.drop_last() =~= Seq::<char>::empty());
        assert(digits_value(q.drop_last()) == 0);
        assert(digits_value(q) == digits_value(q.drop_last()) * 10 + digit_value(q.last()));
    }
}

/// A number's decimal text holds only digits, after a minus sign for a
/// negative number.
pub proof fn lemma_decimal_is_inert(n: int)
    ensures
        forall|i: int|
            0 <= i < decimal(n).len() ==> is_digit(#[trigger] decimal(n)[i]) || (i == 0 && n < 0
                && decimal(n)[i] == '-'),
{
    if n < 0 {
        let m = (0 - n) as nat;
        lemma_decimal_digits_read_back(m);
        assert forall|i: int| 0 <= i < decimal(n).len() implies is_digit(#[trigger] decimal(n)[i])
            || (i == 0 && n < 0 && decimal(n)[i] == '-') by {
            if i > 0 {
                assert(decimal(n)[i] == decimal_digits(m)[i - 1]);
            }
        }
    } else {
        lemma_decimal_digits_read_back(n as nat);
    }
}

/// Reading back the decimal text of a number gives that number: what the admin
/// pages print in a form field, the form handler reads as the same value.
pub proof fn lemma_decimal_parses_back(x: i64)
    ensures
        parse_i64_spec(decimal(x as int)) == Some(x),
        parse_i64_spec(trim_spec(decimal(x as int))) == Some(x),
{
    let s = decimal(x as int);
    if x < 0 {
        let m = (0 - x) as nat;
        lemma_decimal_digits_read_back(m);
        assert(s.drop_first() =~= decimal_digits(m));
    } else {
        lemma_decimal_digits_read_back(x as nat);
        assert(is_digit(s[0]));
    }
    assert(!is_white_space(s[0])) by {
        if x >= 0 {
            assert(is_digit(s[0]));
        }
    }
    assert(!is_white_space(s.last())) by {
        if x < 0 {
            let m = (0 - x) as nat;
            assert(s.last() == decimal_digits(m).last());
            assert(is_digit(decimal_digits(m)[decimal_digits(m).len() - 1]));
        } else {
            assert(is_digit(s[s.len() - 1]));
        }
    }
    assert(trim_start_spec(s) == s);
    assert(trim_end_spec(s) == s);
}


// ---------------------------------------------------------------------------
// Searching
// ---------------------------------------------------------------------------

/// The index of the first `c` in `s`, or the length of `s` when there is none.
pub open spec fn first_index_of(s: Seq<char>, c: char) -> nat
    decreases s.len(),
{
    if s.len() == 0 {
        0
    } else if s[0] == c {
        0
    } else {
        1 + first_index_of(s.drop_first(), c)
    }
}

/// An index before which `s` holds no `c`, and at which it holds `c` or ends,
/// is the first index of `c`.
pub proof fn lemma_first_index_of(s: Seq<char>, c: char, k: int)
    requires
        0 <= k <= s.len(),
        forall|j: int| 0 <= j < k ==> s[j] != c,
        k < s.len() ==> s[k] == c,
    ensures
        first_index_of(s, c) == k,
    decreases k,
{
    if k > 0 {
        assert(s[0] != c);
        let t = s.drop_first();
        assert forall|j: int| 0 <= j < k - 1 implies t[j] != c by {
            assert(t[j] == s[j + 1]);
        }
        if k < s.len() {
            assert(t[k - 1] == s[k]);
        }
        lemma_first_index_of(t, c, k - 1);
    }
}

/// The first index of `c` in `v[lo..hi]`, counted from `lo`: the result is
/// `hi` when that range holds no `c`.
pub fn scan_for(v: &Vec<char>, lo: usize, hi: usize, c: char) -> (k: usize)
    requires
        lo <= hi <= v@.len(),
    ensures
        lo <= k <= hi,
        k - lo == first_index_of(v@.subrange(lo as int, hi as int), c),
        forall|j: int| lo <= j < k ==> v@[j] != c,
        k < hi ==> v@[k as int] == c,
{
    let mut k = lo;
    while k < hi && v[k] != c
        invariant
            lo <= k <= hi <= v@.len(),
            forall|j: int| lo <= j < k ==> v@[j] != c,
        decreases hi - k,
    {
        k = k + 1;
    }
    proof {
        let s = v@.subrange(lo as int, hi as int);
        assert forall|j: int| 0 <= j < k - lo implies s[j] != c by {
            assert(s[j] == v@[lo + j]);
        }
        lemma_first_index_of(s, c, k - lo);
    }
    k
}

/// Whether `v[lo..hi]` holds exactly the characters of `w`.
pub fn range_equals(v: &Vec<char>, lo: usize, hi: usize, w: &Vec<char>) -> (r: bool)
    requires
        lo <= hi <= v@.len(),
    ensures
        r == (v@.subrange(lo as int, hi as int) == w@),
{
    if hi - lo != w.len() {
        return false;
    }
    let mut i: usize = 0;
    while i < w.len()
        invariant
            lo <= hi <= v@.len(),
            hi - lo == w@.len(),
            0 <= i <= w@.len(),
            forall|j: int| 0 <= j < i ==> v@[lo + j] == w@[j],
        decreases w@.len() - i,
    {
        if v[lo + i] != w[i] {
            proof {
                assert(v@.subrange(lo as int, hi as int)[i as int] != w@[i as int]);
            }
            return false;
        }
        i = i + 1;
    }
    proof {
        assert(v@.subrange(lo as int, hi as int) =~= w@);
    }
    true
}


/// Whether `p` occurs in `s` as a run of consecutive characters.
pub open spec fn contains_text(s: Seq<char>, p: Seq<char>) -> bool {
    exists|i: int| 0 <= i && i + p.len() <= s.len() && #[trigger] s.subrange(i, i + p.len()) == p
}

/// Whether `pattern` occurs in `s`, as std's `str::contains` with a `&str`
/// pattern answers.
pub fn text_contains(s: &str, pattern: &str) -> (r: bool)
    ensures
        r == contains_text(s@, pattern@),
{
    let v = chars_of(s);
    let p = chars_of(pattern);
    if p.len() > v.len() {
        return false;
    }
    let last = v.len() - p.len();
    let mut i: usize = 0;
    loop
        invariant
            v@ == s@,
            p@ == pattern@,
            last + p@.len() == v@.len(),
            v@.len() <= usize::MAX,
            i <= last,
            forall|j: int| 0 <= j < i ==> #[trigger] v@.subrange(j, j + p@.len()) != p@,
        decreases last - i,
    {
        if range_equals(&v, i, i + p.len(), &p) {
            return true;
        }
        if i == last {
            proof {
                assert forall|j: int| 0 <= j && j + p@.len() <= v@.len() implies #[trigger] v@.subrange(
                    j,
                    j + p@.len(),
                ) != p@ by {
                    assert(j <= i);
                }
            }
            return false;
        }
        i = i + 1;
    }
}

} // verus!
