//! Reading the plain text that the kernel writes under `/proc`: lines,
//! whitespace-separated fields, prefixes and unsigned decimal numbers.
//!
//! Text is handled as a sequence of `char`s; positions are `char` indices.
//! Each scanner is stated against a spec function that says, in the most
//! direct recursive form, what the corresponding `str` method of the standard
//! library documents (`lines`, `split_whitespace`, `starts_with`, `contains`,
//! `cmp` and `u64::from_str`).
use vstd::prelude::*;

verus! {

/// `char::is_whitespace`: the characters with the Unicode `White_Space` property.
pub open spec fn is_ws(c: char) -> bool {
    let u = c as u32;
    ||| 9 <= u <= 13
    ||| u == 32
    ||| u == 0x85
    ||| u == 0xa0
    ||| u == 0x1680
    ||| 0x2000 <= u <= 0x200a
    ||| u == 0x2028
    ||| u == 0x2029
    ||| u == 0x202f
    ||| u == 0x205f
    ||| u == 0x3000
}

/// Number of leading characters of `s` before the first whitespace.
pub open spec fn token_len(s: Seq<char>) -> nat
    decreases s.len(),
{
    if s.len() == 0 || is_ws(s[0]) {
        0
    } else {
        1 + token_len(s.drop_first())
    }
}

/// `str::split_whitespace`: the maximal runs of non-whitespace characters, in order.
pub open spec fn tokens(s: Seq<char>) -> Seq<Seq<char>>
    decreases s.len(),
{
    if s.len() == 0 {
        seq![]
    } else if is_ws(s[0]) {
        tokens(s.drop_first())
    } else {
        proof {
            lemma_token_len_bounds(s);
        }
        seq![s.take(token_len(s) as int)] + tokens(s.skip(token_len(s) as int))
    }
}

pub proof fn lemma_token_len_bounds(s: Seq<char>)
    ensures
        token_len(s) <= s.len(),
        s.len() > 0 && !is_ws(s[0]) ==> token_len(s) >= 1,
    decreases s.len(),
{
    if s.len() > 0 && !is_ws(s[0]) {
        lemma_token_len_bounds(s.drop_first());
    }
}

/// Number of leading characters of `s` before the first `'\n'`.
pub open spec fn line_len(s: Seq<char>) -> nat
    decreases s.len(),
{
    if s.len() == 0 || s[0] == '\n' {
        0
    } else {
        1 + line_len(s.drop_first())
    }
}

pub proof fn lemma_line_len_bounds(s: Seq<char>)
    ensures
        line_len(s) <= s.len(),
        line_len(s) < s.len() ==> s[line_len(s) as int] == '\n',
    decreases s.len(),
{
    if s.len() > 0 && s[0] != '\n' {
        lemma_line_len_bounds(s.drop_first());
    }
}

/// A line that ended in `"\r\n"` loses its `'\r'`.
pub open spec fn strip_cr(l: Seq<char>) -> Seq<char> {
    if l.len() > 0 && l.last() == '\r' {
        l.drop_last()
    } else {
        l
    }
}

/// `str::lines`: the pieces between `'\n'`s, each without its line ending
/// (`"\n"` or `"\r\n"`); a final line ending is optional and gives no empty line.
pub open spec fn lines(s: Seq<char>) -> Seq<Seq<char>>
    decreases s.len(),
{
    if s.len() == 0 {
        seq![]
    } else if line_len(s) >= s.len() {
        seq![s]
    } else {
        seq![strip_cr(s.take(line_len(s) as int))] + lines(s.skip(line_len(s) as int + 1))
    }
}

/// The text that each span `(start, end)` covers.
pub open spec fn span_texts(text: Seq<char>, spans: Seq<(usize, usize)>) -> Seq<Seq<char>> {
    spans.map_values(|sp: (usize, usize)| text.subrange(sp.0 as int, sp.1 as int))
}

/// Every span lies inside `[lo, hi)` of the text.
pub open spec fn spans_within(spans: Seq<(usize, usize)>, lo: int, hi: int) -> bool {
    forall|k: int| 0 <= k < spans.len() ==> lo <= #[trigger] spans[k].0 <= spans[k].1 <= hi
}

/// `str::starts_with`.
pub open spec fn has_prefix(s: Seq<char>, p: Seq<char>) -> bool {
    p.len() <= s.len() && s.take(p.len() as int) == p
}

/// `str::contains` with a string pattern: `p` occurs in `s` at some position.
pub open spec fn contains(s: Seq<char>, p: Seq<char>) -> bool {
    exists|i: int| 0 <= i && i + p.len() <= s.len() && #[trigger] s.subrange(i, i + p.len()) == p
}

/// `str::cmp(a, b) != Greater`: lexicographic order of the characters
/// (the same as the order of their UTF-8 bytes).
pub open spec fn chars_le(a: Seq<char>, b: Seq<char>) -> bool
    decreases a.len(),
{
    if a.len() == 0 {
        true
    } else if b.len() == 0 {
        false
    } else if a[0] != b[0] {
        (a[0] as u32) < (b[0] as u32)
    } else {
        chars_le(a.drop_first(), b.drop_first())
    }
}

/// Why `u64::from_str` refused a text.
#[derive(Debug, Clone, Copy, PartialEq, Eq)]
pub enum IntParseError {
    Empty,
    InvalidDigit,
    PosOverflow,
}

pub open spec fn is_digit(c: char) -> bool {
    48 <= (c as u32) <= 57
}

pub open spec fn digit_value(c: char) -> nat {
    ((c as u32) - 48) as nat
}

/// Reads decimal digits from left to right onto `acc`, stopping at the first
/// character that is no digit, or at the first digit after which the value
/// no longer fits in a `u64`.
pub open spec fn parse_digits(d: Seq<char>, acc: nat) -> Result<u64, IntParseError>
    decreases d.len(),
{
    if d.len() == 0 {
        Ok(acc as u64)
    } else if !is_digit(d[0]) {
        Err(IntParseError::InvalidDigit)
    } else if acc * 10 + digit_value(d[0]) > u64::MAX {
        Err(IntParseError::PosOverflow)
    } else {
        parse_digits(d.drop_first(), acc * 10 + digit_value(d[0]))
    }
}

/// `u64::from_str`: an optional `'+'`, then at least one decimal digit, the
/// value fitting in a `u64`.
pub open spec fn parse_u64(t: Seq<char>) -> Result<u64, IntParseError> {
    if t.len() == 0 {
        Err(IntParseError::Empty)
    } else if t.len() == 1 && (t[0] == '+' || t[0] == '-') {
        Err(IntParseError::InvalidDigit)
    } else if t[0] == '+' {
        parse_digits(t.drop_first(), 0)
    } else {
        parse_digits(t, 0)
    }
}

/// The characters of `s`, in order.
pub fn to_chars(s: &str) -> (r: Vec<char>)
    ensures
        r@ == s@,
{
    let mut r: Vec<char> = Vec::new();
    for c in it: s.chars()
        invariant
            r@ == it.seq().take(it.index() as int),
            it.seq() == s@,
    {
        r.push(c);
    }
    r
}

/// `char::is_whitespace`.
pub fn is_whitespace(c: char) -> (r: bool)
    ensures
        r == is_ws(c),
{
    let u = c as u32;
    (9 <= u && u <= 13) || u == 32 || u == 0x85 || u == 0xa0 || u == 0x1680 || (0x2000 <= u && u
        <= 0x200a) || u == 0x2028 || u == 0x2029 || u == 0x202f || u == 0x205f || u == 0x3000
}

/// The spans of the whitespace-separated fields of `text[start..end]`.
pub fn token_spans(text: &Vec<char>, start: usize, end: usize) -> (r: Vec<(usize, usize)>)
    requires
        start <= end <= text@.len(),
    ensures
        span_texts(text@, r@) == tokens(text@.subrange(start as int, end as int)),
        spans_within(r@, start as int, end as int),
{
    let mut r: Vec<(usize, usize)> = Vec::new();
    let mut i = start;
    while i < end
        invariant
            start <= i <= end <= text@.len(),
            tokens(text@.subrange(start as int, end as int)) == span_texts(text@, r@) + tokens(
                text@.subrange(i as int, end as int),
            ),
            spans_within(r@, start as int, end as int),
        decreases end - i,
    {
        let ghost rest = text@.subrange(i as int, end as int);
        assert(rest.drop_first() =~= text@.subrange(i + 1, end as int));
        if is_whitespace(text[i]) {
            i = i + 1;
        } else {
            let mut j = i + 1;
            assert(token_len(rest) == 1 + token_len(text@.subrange(j as int, end as int)));
            while j < end && !is_whitespace(text[j])
                invariant
                    i < j <= end <= text@.len(),
                    rest == text@.subrange(i as int, end as int),
                    token_len(rest) == (j - i) + token_len(text@.subrange(j as int, end as int)),
                decreases end - j,
            {
                let ghost here = text@.subrange(j as int, end as int);
                assert(here.drop_first() =~= text@.subrange(j + 1, end as int));
                j = j + 1;
            }
            let ghost tail = text@.subrange(j as int, end as int);
            assert(token_len(tail) == 0);
            assert(rest.take(token_len(rest) as int) =~= text@.subrange(i as int, j as int));
            assert(rest.skip(token_len(rest) as int) =~= tail);
            let ghost old_r = r@;
            r.push((i, j));
            assert(span_texts(text@, r@) =~= span_texts(text@, old_r).push(
                text@.subrange(i as int, j as int),
            ));
            i = j;
        }
    }
    assert(tokens(text@.subrange(end as int, end as int)) == Seq::<Seq<char>>::empty());
    assert(span_texts(text@, r@) + Seq::<Seq<char>>::empty() =~= span_texts(text@, r@));
    r
}

/// The spans of the lines of `text`, each without its line ending.
pub fn line_spans(text: &Vec<char>) -> (r: Vec<(usize, usize)>)
    ensures
        span_texts(text@, r@) == lines(text@),
        spans_within(r@, 0, text@.len() as int),
{
    let mut r: Vec<(usize, usize)> = Vec::new();
    let n = text.len();
    let mut i: usize = 0;
    assert(text@.subrange(0, n as int) =~= text@);
    while i < n
        invariant
            i <= n == text@.len(),
            lines(text@) == span_texts(text@, r@) + lines(text@.subrange(i as int, n as int)),
            spans_within(r@, 0, n as int),
        decreases n - i,
    {
        let ghost rest = text@.subrange(i as int, n as int);
        let mut j = i;
        while j < n && text[j] != '\n'
            invariant
                i <= j <= n == text@.len(),
                rest == text@.subrange(i as int, n as int),
                line_len(rest) == (j - i) + line_len(text@.subrange(j as int, n as int)),
            decreases n - j,
        {
            let ghost here = text@.subrange(j as int, n as int);
            assert(here.drop_first() =~= text@.subrange(j + 1, n as int));
            j = j + 1;
        }
        assert(line_len(text@.subrange(j as int, n as int)) == 0);
        let ghost old_r = r@;
        if j == n {
            assert(rest =~= text@.subrange(i as int, n as int));
            r.push((i, n));
            assert(span_texts(text@, r@) =~= span_texts(text@, old_r).push(rest));
            assert(lines(text@.subrange(n as int, n as int)) == Seq::<Seq<char>>::empty());
            i = n;
        } else {
            let end = if j > i && text[j - 1] == '\r' {
                j - 1
            } else {
                j
            };
            assert(strip_cr(rest.take(line_len(rest) as int)) =~= text@.subrange(
                i as int,
                end as int,
            ));
            assert(rest.skip(line_len(rest) as int + 1) =~= text@.subrange(j + 1, n as int));
            r.push((i, end));
            assert(span_texts(text@, r@) =~= span_texts(text@, old_r).push(
                text@.subrange(i as int, end as int),
            ));
            i = j + 1;
        }
    }
    assert(lines(text@.subrange(n as int, n as int)) == Seq::<Seq<char>>::empty());
    assert(span_texts(text@, r@) + Seq::<Seq<char>>::empty() =~= span_texts(text@, r@));
    r
}

/// Whether `text[start..end]` begins with `p`.
pub fn span_has_prefix(text: &Vec<char>, start: usize, end: usize, p: &[char]) -> (r: bool)
    requires
        start <= end <= text@.len(),
    ensures
        r == has_prefix(text@.subrange(start as int, end as int), p@),
{
    let ghost s = text@.subrange(start as int, end as int);
    if p.len() > end - start {
        return false;
    }
    let mut k: usize = 0;
    while k < p.len()
        invariant
            k <= p@.len() <= end - start,
            start <= end <= text@.len(),
            s == text@.subrange(start as int, end as int),
            forall|m: int| 0 <= m < k ==> s[m] == p@[m],
        decreases p.len() - k,
    {
        if text[start + k] != p[k] {
            assert(s.take(p@.len() as int)[k as int] != p@[k as int]);
            return false;
        }
        k = k + 1;
    }
    assert(s.take(p@.len() as int) =~= p@);
    true
}

/// `u64::from_str` on `text[start..end]`.
pub fn parse_u64_span(text: &Vec<char>, start: usize, end: usize) -> (r: Result<u64, IntParseError>)
    requires
        start <= end <= text@.len(),
    ensures
        r == parse_u64(text@.subrange(start as int, end as int)),
{
    let ghost t = text@.subrange(start as int, end as int);
    if start == end {
        return Err(IntParseError::Empty);
    }
    let c0 = text[start];
    if end - start == 1 && (c0 == '+' || c0 == '-') {
        return Err(IntParseError::InvalidDigit);
    }
    let mut k = if c0 == '+' {
        start + 1
    } else {
        start
    };
    assert(t.drop_first() =~= text@.subrange(start + 1, end as int));
    assert(t =~= text@.subrange(start as int, end as int));
    let mut acc: u64 = 0;
    while k < end
        invariant
            start <= k <= end <= text@.len(),
            t == text@.subrange(start as int, end as int),
            parse_u64(t) == parse_digits(text@.subrange(k as int, end as int), acc as nat),
        decreases end - k,
    {
        let ghost d = text@.subrange(k as int, end as int);
        assert(d.drop_first() =~= text@.subrange(k + 1, end as int));
        let c = text[k];
        let u = c as u32;
        if u < 48 || u > 57 {
            return Err(IntParseError::InvalidDigit);
        }
        let dv = (u - 48) as u64;
        if acc > (u64::MAX - dv) / 10 {
            assert(acc * 10 + dv > u64::MAX) by (nonlinear_arith)
                requires
                    acc > (u64::MAX - dv) / 10,
                    dv <= 9,
            ;
            return Err(IntParseError::PosOverflow);
        }
        assert(acc * 10 + dv <= u64::MAX) by (nonlinear_arith)
            requires
                acc <= (u64::MAX - dv) / 10,
                dv <= 9,
        ;
        acc = acc * 10 + dv;
        k = k + 1;
    }
    assert(text@.subrange(end as int, end as int).len() == 0);
    Ok(acc)
}

/// `str::contains`: whether `p` occurs somewhere in `s`.
pub fn chars_contain(s: &Vec<char>, p: &Vec<char>) -> (r: bool)
    ensures
        r == contains(s@, p@),
{
    if p.len() > s.len() {
        return false;
    }
    let last = s.len() - p.len();
    let mut i: usize = 0;
    loop
        invariant
            last == s@.len() - p@.len(),
            i <= last,
            forall|m: int| 0 <= m < i ==> #[trigger] s@.subrange(m, m + p@.len()) != p@,
        decreases last - i,
    {
        let mut k: usize = 0;
        let mut same = true;
        while k < p.len()
            invariant
                i <= last,
                last == s@.len() - p@.len(),
                k <= p@.len(),
                same ==> forall|m: int| 0 <= m < k ==> s@[i + m] == p@[m],
                !same ==> s@.subrange(i as int, i + p@.len()) != p@,
            decreases p.len() - k,
        {
            assert(i + k < s.len());
            let pos = i + k;
            if s[pos] != p[k] {
                assert(s@.subrange(i as int, i + p@.len())[k as int] != p@[k as int]);
                same = false;
            }
            k = k + 1;
        }
        if same {
            assert(s@.subrange(i as int, i + p@.len()) =~= p@);
            return true;
        }
        if i == last {
            assert forall|m: int| 0 <= m && m + p@.len() <= s@.len() implies #[trigger] s@.subrange(
                m,
                m + p@.len(),
            ) != p@ by {
                assert(m <= i);
            }
            return false;
        }
        i = i + 1;
    }
}

/// `a <= b` for strings: lexicographic order of the characters.
pub fn chars_le_exec(a: &Vec<char>, b: &Vec<char>) -> (r: bool)
    ensures
        r == chars_le(a@, b@),
{
    let mut k: usize = 0;
    assert(a@.skip(0) =~= a@);
    assert(b@.skip(0) =~= b@);
    loop
        invariant
            k <= a@.len(),
            k <= b@.len(),
            chars_le(a@, b@) == chars_le(a@.skip(k as int), b@.skip(k as int)),
        decreases a@.len() - k,
    {
        if k == a.len() {
            return true;
        }
        if k == b.len() {
            return false;
        }
        let x = a[k];
        let y = b[k];
        if x != y {
            assert(a@.skip(k as int)[0] == x && b@.skip(k as int)[0] == y);
            return (x as u32) < (y as u32);
        }
        assert(a@.skip(k as int).drop_first() =~= a@.skip(k + 1));
        assert(b@.skip(k as int).drop_first() =~= b@.skip(k + 1));
        k = k + 1;
    }
}

} // verus!
