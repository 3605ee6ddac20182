//! Character-level text utilities shared by the parsers and formatters of the
//! library, each stated over `Seq<char>`.

use vstd::prelude::*;

verus! {

/// The characters of `s`, in order.
pub fn chars_of(s: &str) -> (res: Vec<char>)
    ensures
        res@ == s@,
{
    broadcast use vstd::string::axiom_spec_iter;

    let mut v: Vec<char> = Vec::new();
    for c in it: s.chars()
        invariant
            v@ == it.seq().take(it.index() as int),
    {
        v.push(c);
    }
    v
}

/// A `String` holding exactly the characters `cs`.
pub fn string_of(cs: &[char]) -> (res: String)
    ensures
        res@ == cs@,
{
    let mut out = String::new();
    let mut i: usize = 0;
    while i < cs.len()
        invariant
            i <= cs.len(),
            out@ == cs@.take(i as int),
        decreases cs.len() - i,
    {
        push_char(&mut out, cs[i]);
        proof {
            assert(out@ =~= cs@.take(i + 1));
        }
        i += 1;
    }
    proof {
        assert(cs@.take(cs.len() as int) =~= cs@);
    }
    out
}

/// Appends one character (`String::push`).
#[verifier::external_body]
pub(crate) fn push_char(s: &mut String, c: char)
    ensures
        final(s)@ == old(s)@.push(c),
{
    s.push(c)
}

/// Removes the last character, if any (`String::pop`, result dropped).
pub fn drop_last_char(s: &mut String)
    ensures
        final(s)@ == (if old(s)@.len() > 0 {
            old(s)@.drop_last()
        } else {
            old(s)@
        }),
{
    let cs = chars_of(s.as_str());
    if cs.len() > 0 {
        *s = string_of(slice_range(&cs, 0, cs.len() - 1).as_slice());
        proof {
            assert(cs@.subrange(0, cs@.len() - 1) =~= old(s)@.drop_last());
        }
    }
}

/// Unicode `White_Space` property, as listed in PropList.txt.
pub open spec fn is_ws(c: char) -> bool {
    ||| ('\u{9}' <= c && c <= '\u{d}')
    ||| c == ' '
    ||| c == '\u{85}'
    ||| c == '\u{a0}'
    ||| c == '\u{1680}'
    ||| ('\u{2000}' <= c && c <= '\u{200a}')
    ||| c == '\u{2028}'
    ||| c == '\u{2029}'
    ||| c == '\u{202f}'
    ||| c == '\u{205f}'
    ||| c == '\u{3000}'
}

/// `char::is_whitespace`.
pub fn is_whitespace(c: char) -> (res: bool)
    ensures
        res == is_ws(c),
{
    ('\u{9}' <= c && c <= '\u{d}') || c == ' ' || c == '\u{85}' || c == '\u{a0}' || c
        == '\u{1680}' || ('\u{2000}' <= c && c <= '\u{200a}') || c == '\u{2028}' || c
        == '\u{2029}' || c == '\u{202f}' || c == '\u{205f}' || c == '\u{3000}'
}

} // verus!

verus! {

/// `s` without its leading white space.
pub open spec fn trim_start_ws(s: Seq<char>) -> Seq<char>
    decreases s.len(),
{
    if s.len() > 0 && is_ws(s[0]) {
        trim_start_ws(s.drop_first())
    } else {
        s
    }
}

/// `s` without its trailing white space.
pub open spec fn trim_end_ws(s: Seq<char>) -> Seq<char>
    decreases s.len(),
{
    if s.len() > 0 && is_ws(s.last()) {
        trim_end_ws(s.drop_last())
    } else {
        s
    }
}

/// `str::trim`: `s` without leading and trailing white space.
pub open spec fn trim_ws(s: Seq<char>) -> Seq<char> {
    trim_end_ws(trim_start_ws(s))
}

/// `s` without all leading and trailing occurrences of `c` (`str::trim_matches` with a char).
pub open spec fn trim_char(s: Seq<char>, c: char) -> Seq<char>
    decreases s.len(),
{
    if s.len() > 0 && s[0] == c {
        trim_char(s.drop_first(), c)
    } else if s.len() > 0 && s.last() == c {
        trim_char(s.drop_last(), c)
    } else {
        s
    }
}

/// Index of the first `c` in `s`, or `s.len()` when there is none.
pub open spec fn index_of(s: Seq<char>, c: char) -> int
    decreases s.len(),
{
    if s.len() == 0 {
        0
    } else if s[0] == c {
        0
    } else {
        1 + index_of(s.drop_first(), c)
    }
}

/// `str::split_once` with a char pattern.
pub open spec fn split_once(s: Seq<char>, c: char) -> Option<(Seq<char>, Seq<char>)> {
    let i = index_of(s, c);
    if i < s.len() {
        Some((s.take(i), s.skip(i + 1)))
    } else {
        None
    }
}

/// `p` is a prefix of `s`.
pub open spec fn has_prefix(s: Seq<char>, p: Seq<char>) -> bool {
    p.len() <= s.len() && s.take(p.len() as int) == p
}

/// `p` is a suffix of `s`.
pub open spec fn has_suffix(s: Seq<char>, p: Seq<char>) -> bool {
    p.len() <= s.len() && s.skip(s.len() - p.len()) == p
}

/// `p` occurs in `s` as a contiguous piece (`str::contains`).
pub open spec fn has_infix(s: Seq<char>, p: Seq<char>) -> bool {
    exists|i: int| 0 <= i <= s.len() - p.len() && #[trigger] s.subrange(i, i + p.len()) == p
}

/// A line as `str::lines` yields it: a `'\r'` before the `'\n'` is dropped.
pub open spec fn strip_cr(s: Seq<char>) -> Seq<char> {
    if s.len() > 0 && s.last() == '\r' {
        s.drop_last()
    } else {
        s
    }
}

/// `str::lines`: pieces between `'\n'`s, the last one only if not empty.
pub open spec fn lines(s: Seq<char>) -> Seq<Seq<char>>
    decreases s.len(),
{
    if s.len() == 0 {
        seq![]
    } else {
        let i = index_of(s, '\n');
        proof {
            lemma_index_of_bounds(s, '\n');
        }
        if i < s.len() {
            seq![strip_cr(s.take(i))] + lines(s.skip(i + 1))
        } else {
            seq![s]
        }
    }
}

/// `index_of` is a position of the text or its length.
pub proof fn lemma_index_of_bounds(s: Seq<char>, c: char)
    ensures
        0 <= index_of(s, c) <= s.len(),
        index_of(s, c) < s.len() ==> s[index_of(s, c)] == c,
        forall|j: int| 0 <= j < index_of(s, c) ==> s[j] != c,
    decreases s.len(),
{
    if s.len() > 0 && s[0] != c {
        lemma_index_of_bounds(s.drop_first(), c);
        assert forall|j: int| 0 <= j < index_of(s, c) implies s[j] != c by {
            if j > 0 {
                assert(s[j] == s.drop_first()[j - 1]);
            }
        }
    }
}

/// Characterises `index_of` by the position of the first match.
pub proof fn lemma_index_of_is(s: Seq<char>, c: char, i: int)
    requires
        0 <= i <= s.len(),
        i < s.len() ==> s[i] == c,
        forall|j: int| 0 <= j < i ==> s[j] != c,
    ensures
        index_of(s, c) == i,
    decreases s.len(),
{
    if s.len() > 0 && s[0] != c {
        assert forall|j: int| 0 <= j < i - 1 implies s.drop_first()[j] != c by {
            assert(s.drop_first()[j] == s[j + 1]);
        }
        lemma_index_of_is(s.drop_first(), c, i - 1);
    }
}

/// Position of the first `c` in `cs[lo..hi]`, or `hi`.
pub fn find_char(cs: &Vec<char>, lo: usize, hi: usize, c: char) -> (r: usize)
    requires
        lo <= hi <= cs.len(),
    ensures
        lo <= r <= hi,
        r - lo == index_of(cs@.subrange(lo as int, hi as int), c),
{
    let mut i = lo;
    while i < hi && cs[i] != c
        invariant
            lo <= i <= hi <= cs.len(),
            forall|j: int| lo <= j < i ==> cs@[j] != c,
        decreases hi - i,
    {
        i += 1;
    }
    proof {
        let sub = cs@.subrange(lo as int, hi as int);
        lemma_index_of_is(sub, c, i - lo);
    }
    i
}

proof fn lemma_trim_start_step(s: Seq<char>, i: int)
    requires
        0 <= i < s.len(),
        is_ws(s[i]),
    ensures
        trim_start_ws(s.subrange(i, s.len() as int)) == trim_start_ws(s.subrange(i + 1, s.len() as int)),
{
    assert(s.subrange(i, s.len() as int).drop_first() == s.subrange(i + 1, s.len() as int));
}

pub(crate) proof fn lemma_trim_end_step(s: Seq<char>, j: int)
    requires
        0 < j <= s.len(),
        is_ws(s[j - 1]),
    ensures
        trim_end_ws(s.subrange(0, j)) == trim_end_ws(s.subrange(0, j - 1)),
{
    assert(s.subrange(0, j).drop_last() == s.subrange(0, j - 1));
}

/// Bounds of `str::trim` applied to `cs[lo..hi]`.
pub fn trim_range(cs: &Vec<char>, lo: usize, hi: usize) -> (r: (usize, usize))
    requires
        lo <= hi <= cs.len(),
    ensures
        lo <= r.0 <= r.1 <= hi,
        cs@.subrange(r.0 as int, r.1 as int) == trim_ws(cs@.subrange(lo as int, hi as int)),
{
    let ghost s = cs@.subrange(lo as int, hi as int);
    proof {
        assert(s.subrange(0, s.len() as int) == s);
    }
    let mut a = lo;
    while a < hi && is_whitespace(cs[a])
        invariant
            lo <= a <= hi <= cs.len(),
            s == cs@.subrange(lo as int, hi as int),
            trim_start_ws(s) == trim_start_ws(s.subrange(a - lo, s.len() as int)),
        decreases hi - a,
    {
        proof {
            lemma_trim_start_step(s, a - lo);
        }
        a += 1;
    }
    let ghost t = s.subrange(a - lo, s.len() as int);
    proof {
        assert(t.len() == 0 || !is_ws(t[0]));
        assert(trim_start_ws(t) == t);
        assert(t.subrange(0, t.len() as int) == t);
    }
    let mut b = hi;
    while b > a && is_whitespace(cs[b - 1])
        invariant
            lo <= a <= b <= hi <= cs.len(),
            s == cs@.subrange(lo as int, hi as int),
            t == s.subrange(a - lo, s.len() as int),
            trim_end_ws(t) == trim_end_ws(t.subrange(0, b - a)),
        decreases b - a,
    {
        proof {
            lemma_trim_end_step(t, b - a);
        }
        b -= 1;
    }
    proof {
        let u = t.subrange(0, b - a);
        assert(u.len() == 0 || !is_ws(u.last()));
        assert(trim_end_ws(u) == u);
        assert(u == cs@.subrange(a as int, b as int));
    }
    (a, b)
}

/// `str::trim` as a new `String`.
pub fn trim(s: &str) -> (res: String)
    ensures
        res@ == trim_ws(s@),
{
    let cs = chars_of(s);
    let (a, b) = trim_range(&cs, 0, cs.len());
    proof {
        assert(cs@.subrange(0, cs@.len() as int) == cs@);
    }
    string_of(slice_range(&cs, a, b).as_slice())
}

/// The characters `cs[lo..hi]`.
pub fn slice_range(cs: &Vec<char>, lo: usize, hi: usize) -> (res: Vec<char>)
    requires
        lo <= hi <= cs.len(),
    ensures
        res@ == cs@.subrange(lo as int, hi as int),
{
    let mut out: Vec<char> = Vec::new();
    let mut i = lo;
    while i < hi
        invariant
            lo <= i <= hi <= cs.len(),
            out@ == cs@.subrange(lo as int, i as int),
        decreases hi - i,
    {
        out.push(cs[i]);
        proof {
            assert(cs@.subrange(lo as int, i + 1) == cs@.subrange(lo as int, i as int).push(cs@[i as int]));
        }
        i += 1;
    }
    out
}

/// Whether `cs[lo..hi]` equals `p`.
pub fn range_eq(cs: &Vec<char>, lo: usize, hi: usize, p: &str) -> (res: bool)
    requires
        lo <= hi <= cs.len(),
    ensures
        res == (cs@.subrange(lo as int, hi as int) == p@),
{
    let pc = chars_of(p);
    if hi - lo != pc.len() {
        return false;
    }
    let mut i: usize = 0;
    while i < pc.len()
        invariant
            lo <= hi <= cs.len(),
            hi - lo == pc@.len(),
            pc@ == p@,
            i <= pc.len(),
            forall|j: int| 0 <= j < i ==> cs@[lo + j] == pc@[j],
        decreases pc.len() - i,
    {
        if cs[lo + i] != pc[i] {
            proof {
                assert(cs@.subrange(lo as int, hi as int)[i as int] != p@[i as int]);
            }
            return false;
        }
        i += 1;
    }
    proof {
        assert(cs@.subrange(lo as int, hi as int) =~= p@);
    }
    true
}

/// Whether `cs[lo..hi]` begins with `p`.
pub fn range_starts_with(cs: &Vec<char>, lo: usize, hi: usize, p: &str) -> (res: bool)
    requires
        lo <= hi <= cs.len(),
    ensures
        res == has_prefix(cs@.subrange(lo as int, hi as int), p@),
{
    let n = chars_of(p).len();
    if n > hi - lo {
        return false;
    }
    let r = range_eq(cs, lo, lo + n, p);
    proof {
        assert(cs@.subrange(lo as int, hi as int).take(n as int) == cs@.subrange(lo as int, lo + n));
    }
    r
}

/// Whether `cs[lo..hi]` ends with `p`.
pub fn range_ends_with(cs: &Vec<char>, lo: usize, hi: usize, p: &str) -> (res: bool)
    requires
        lo <= hi <= cs.len(),
    ensures
        res == has_suffix(cs@.subrange(lo as int, hi as int), p@),
{
    let n = chars_of(p).len();
    if n > hi - lo {
        return false;
    }
    let r = range_eq(cs, hi - n, hi, p);
    proof {
        let s = cs@.subrange(lo as int, hi as int);
        assert(s.skip(s.len() - n) == cs@.subrange(hi - n, hi as int));
    }
    r
}

/// Whether `s` equals the text `p`.
pub fn str_eq(s: &str, p: &str) -> (res: bool)
    ensures
        res == (s@ == p@),
{
    let cs = chars_of(s);
    let r = range_eq(&cs, 0, cs.len(), p);
    proof {
        assert(cs@.subrange(0, cs@.len() as int) == cs@);
    }
    r
}

/// Whether `s` ends with `p` (`str::ends_with`).
pub fn ends_with(s: &str, p: &str) -> (res: bool)
    ensures
        res == has_suffix(s@, p@),
{
    let cs = chars_of(s);
    let r = range_ends_with(&cs, 0, cs.len(), p);
    proof {
        assert(cs@.subrange(0, cs@.len() as int) == cs@);
    }
    r
}

/// Whether `s` begins with `p` (`str::starts_with`).
pub fn starts_with(s: &str, p: &str) -> (res: bool)
    ensures
        res == has_prefix(s@, p@),
{
    let cs = chars_of(s);
    let r = range_starts_with(&cs, 0, cs.len(), p);
    proof {
        assert(cs@.subrange(0, cs@.len() as int) == cs@);
    }
    r
}

/// Whether `p` occurs in `cs[lo..hi]`.
pub fn range_contains(cs: &Vec<char>, lo: usize, hi: usize, p: &str) -> (res: bool)
    requires
        lo <= hi <= cs.len(),
    ensures
        res == has_infix(cs@.subrange(lo as int, hi as int), p@),
{
    let n = chars_of(p).len();
    let ghost s = cs@.subrange(lo as int, hi as int);
    if n > hi - lo {
        return false;
    }
    if n == 0 {
        proof {
            assert(s.subrange(0, 0 + p@.len() as int) =~= p@);
        }
        return true;
    }
    let mut i = lo;
    while i <= hi - n
        invariant
            lo <= i <= hi - n + 1,
            hi <= cs.len(),
            n > 0,
            n == p@.len(),
            n <= hi - lo,
            s == cs@.subrange(lo as int, hi as int),
            forall|k: int| 0 <= k < i - lo ==> #[trigger] s.subrange(k, k + n) != p@,
        decreases hi - i,
    {
        if range_eq(cs, i, i + n, p) {
            proof {
                assert(s.subrange(i - lo, i - lo + n) == cs@.subrange(i as int, i + n));
            }
            return true;
        }
        proof {
            assert(s.subrange(i - lo, i - lo + n) == cs@.subrange(i as int, i + n));
        }
        i += 1;
    }
    false
}

/// Whether `p` occurs in `s` (`str::contains`).
pub fn contains(s: &str, p: &str) -> (res: bool)
    ensures
        res == has_infix(s@, p@),
{
    let cs = chars_of(s);
    let r = range_contains(&cs, 0, cs.len(), p);
    proof {
        assert(cs@.subrange(0, cs@.len() as int) == cs@);
    }
    r
}

} // verus!

verus! {

/// Lower-case digit character for `d < 16`.
pub open spec fn digit_char(d: nat) -> char {
    if d < 10 {
        (48 + d) as char
    } else {
        (87 + d) as char
    }
}

/// Digits of `v` in base `radix` (2..=16), most significant first, without leading zeros.
pub open spec fn digits(v: nat, radix: nat) -> Seq<char>
    decreases v,
{
    if v < radix || radix < 2 {
        seq![digit_char(v)]
    } else {
        proof {
            assert(v / radix < v) by (nonlinear_arith)
                requires
                    v >= radix,
                    radix >= 2,
            ;
        }
        digits(v / radix, radix).push(digit_char(v % radix))
    }
}

/// `s` left-padded with `'0'` up to `width` characters.
pub open spec fn pad_zeros(s: Seq<char>, width: nat) -> Seq<char> {
    if s.len() >= width {
        s
    } else {
        Seq::new((width - s.len()) as nat, |i: int| '0') + s
    }
}

/// `format!("{}", v)` for an unsigned integer.
pub open spec fn dec(v: nat) -> Seq<char> {
    digits(v, 10)
}

/// `format!("{:0w$x}", v)`: lower-case hexadecimal, zero-padded to `w` digits.
pub open spec fn hex(v: nat, w: nat) -> Seq<char> {
    pad_zeros(digits(v, 16), w)
}

fn digit_of(d: u64) -> (c: char)
    requires
        d < 16,
    ensures
        c == digit_char(d as nat),
{
    if d < 10 {
        ((48 + d) as u8) as char
    } else {
        ((87 + d) as u8) as char
    }
}

/// Appends the digits of `v` in base `radix`.
pub fn push_digits(out: &mut String, v: u64, radix: u64)
    requires
        2 <= radix <= 16,
    ensures
        final(out)@ == old(out)@ + digits(v as nat, radix as nat),
    decreases v,
{
    let ghost start = out@;
    if v >= radix {
        assert(v / radix < v) by (nonlinear_arith)
            requires
                v >= radix,
                radix >= 2,
        ;
        push_digits(out, v / radix, radix);
    }
    push_char(out, digit_of(v % radix));
    proof {
        if v >= radix {
            let d = digits((v / radix) as nat, radix as nat);
            assert(digits(v as nat, radix as nat) == d.push(digit_char((v % radix) as nat)));
            assert(start + d.push(digit_char((v % radix) as nat)) =~= (start + d).push(
                digit_char((v % radix) as nat),
            ));
        } else {
            assert(v % radix == v) by (nonlinear_arith)
                requires
                    v < radix,
                    radix >= 2,
            ;
            assert(digits(v as nat, radix as nat) == seq![digit_char(v as nat)]);
            assert(start + digits(v as nat, radix as nat) =~= start.push(digit_char((v % radix) as nat)));
        }
    }
}

/// Appends `format!("{}", v)`.
pub fn push_dec(out: &mut String, v: u64)
    ensures
        final(out)@ == old(out)@ + dec(v as nat),
{
    push_digits(out, v, 10);
}

/// Appends the digits of `v` in base `radix`, zero-padded to `w` digits.
pub fn push_padded_digits(out: &mut String, v: u64, radix: u64, w: usize)
    requires
        2 <= radix <= 16,
    ensures
        final(out)@ == old(out)@ + pad_zeros(digits(v as nat, radix as nat), w as nat),
{
    let mut t = String::new();
    push_digits(&mut t, v, radix);
    proof {
        assert(t@ == digits(v as nat, radix as nat));
    }
    let n = t.as_str().unicode_len();
    let ghost start = out@;
    let mut i = n;
    while i < w
        invariant
            n <= i,
            i <= w || i == n,
            n == t@.len(),
            out@ == start + Seq::new((i - n) as nat, |k: int| '0'),
        decreases w - i,
    {
        push_char(out, '0');
        proof {
            assert(Seq::new((i + 1 - n) as nat, |k: int| '0') == Seq::new((i - n) as nat, |k: int| '0').push('0'));
        }
        i += 1;
    }
    out.append(t.as_str());
    proof {
        let d = digits(v as nat, radix as nat);
        if d.len() >= w {
            assert(Seq::new((i - n) as nat, |k: int| '0') =~= Seq::<char>::empty());
            assert(start + Seq::<char>::empty() + d =~= start + d);
        } else {
            assert(start + Seq::new((i - n) as nat, |k: int| '0') + d =~= start + (Seq::new((i - n) as nat, |k: int| '0') + d));
        }
    }
}

/// Appends `format!("{:0w$x}", v)`.
pub fn push_hex(out: &mut String, v: u64, w: usize)
    ensures
        final(out)@ == old(out)@ + hex(v as nat, w as nat),
{
    push_padded_digits(out, v, 16, w);
}

/// `format!("{}", v)`.
pub fn dec_string(v: u64) -> (res: String)
    ensures
        res@ == dec(v as nat),
{
    let mut s = String::new();
    push_dec(&mut s, v);
    proof {
        assert(Seq::<char>::empty() + dec(v as nat) =~= dec(v as nat));
    }
    s
}

/// Value of the digit `c` in base `radix` (`char::to_digit`), or -1.
pub open spec fn digit_value(c: char, radix: int) -> int {
    let v: int = if '0' <= c && c <= '9' {
        c as int - 48
    } else if 'a' <= c && c <= 'z' {
        c as int - 87
    } else if 'A' <= c && c <= 'Z' {
        c as int - 55
    } else {
        -1
    };
    if 0 <= v < radix {
        v
    } else {
        -1
    }
}

/// Every character of `s` is a digit in base `radix`.
pub open spec fn all_digits(s: Seq<char>, radix: int) -> bool {
    forall|i: int| 0 <= i < s.len() ==> digit_value(#[trigger] s[i], radix) >= 0
}

/// Numeric value of the digit string `s` in base `radix`.
pub open spec fn digits_value(s: Seq<char>, radix: int) -> int
    decreases s.len(),
{
    if s.len() == 0 {
        0
    } else {
        digits_value(s.drop_last(), radix) * radix + digit_value(s.last(), radix)
    }
}

/// `from_str_radix` for an unsigned type whose largest value is `max`: an
/// optional `'+'`, then at least one digit, and a value that fits.
pub open spec fn parse_unsigned(s: Seq<char>, radix: int, max: int) -> Option<int> {
    let body = if s.len() > 0 && s[0] == '+' {
        s.drop_first()
    } else {
        s
    };
    if body.len() == 0 || !all_digits(body, radix) || digits_value(body, radix) > max {
        None
    } else {
        Some(digits_value(body, radix))
    }
}

proof fn lemma_digits_value_nonneg(s: Seq<char>, radix: int)
    requires
        all_digits(s, radix),
        radix >= 1,
    ensures
        digits_value(s, radix) >= 0,
    decreases s.len(),
{
    if s.len() > 0 {
        assert(all_digits(s.drop_last(), radix)) by {
            assert forall|i: int| 0 <= i < s.drop_last().len() implies digit_value(
                #[trigger] s.drop_last()[i],
                radix,
            ) >= 0 by {
                assert(s.drop_last()[i] == s[i]);
            }
        }
        lemma_digits_value_nonneg(s.drop_last(), radix);
        let a = digits_value(s.drop_last(), radix);
        assert(a * radix >= 0) by (nonlinear_arith)
            requires
                a >= 0,
                radix >= 1,
        ;
        assert(digit_value(s[s.len() - 1], radix) >= 0);
    }
}

/// A prefix of a digit string never has a larger value.
proof fn lemma_digits_value_prefix(s: Seq<char>, radix: int, i: int)
    requires
        all_digits(s, radix),
        radix >= 1,
        0 <= i <= s.len(),
    ensures
        digits_value(s.take(i), radix) <= digits_value(s, radix),
    decreases s.len(),
{
    if i < s.len() {
        let t = s.drop_last();
        assert(all_digits(t, radix)) by {
            assert forall|k: int| 0 <= k < t.len() implies digit_value(#[trigger] t[k], radix) >= 0 by {
                assert(t[k] == s[k]);
            }
        }
        lemma_digits_value_prefix(t, radix, i);
        assert(t.take(i) == s.take(i));
        lemma_digits_value_nonneg(t, radix);
        let a = digits_value(t, radix);
        assert(a * radix >= a) by (nonlinear_arith)
            requires
                a >= 0,
                radix >= 1,
        ;
        assert(digit_value(s[s.len() - 1], radix) >= 0);
    } else {
        assert(s.take(i) == s);
    }
}

/// `from_str_radix` on `cs[lo..hi]` for an unsigned type with largest value `max`.
pub fn parse_unsigned_range(cs: &Vec<char>, lo: usize, hi: usize, radix: u64, max: u64) -> (res:
    Option<u64>)
    requires
        lo <= hi <= cs.len(),
        2 <= radix <= 16,
        max <= u32::MAX,
    ensures
        match parse_unsigned(cs@.subrange(lo as int, hi as int), radix as int, max as int) {
            Some(v) => res matches Some(r) && r as int == v,
            None => res is None,
        },
        res matches Some(v) ==> v <= max,
{
    let ghost s = cs@.subrange(lo as int, hi as int);
    let mut start = lo;
    if lo < hi && cs[lo] == '+' {
        start = lo + 1;
    }
    let ghost body = if s.len() > 0 && s[0] == '+' {
        s.drop_first()
    } else {
        s
    };
    proof {
        if lo < hi {
            assert(s[0] == cs@[lo as int]);
        }
        assert(body =~= cs@.subrange(start as int, hi as int));
    }
    if start == hi {
        return None;
    }
    let mut acc: u64 = 0;
    let mut i = start;
    while i < hi
        invariant
            lo <= start <= i <= hi <= cs.len(),
            2 <= radix <= 16,
            max <= u32::MAX,
            body == cs@.subrange(start as int, hi as int),
            s == cs@.subrange(lo as int, hi as int),
            body == (if s.len() > 0 && s[0] == '+' {
                s.drop_first()
            } else {
                s
            }),
            all_digits(body.take(i - start), radix as int),
            acc == digits_value(body.take(i - start), radix as int),
            acc <= max,
        decreases hi - i,
    {
        let c = cs[i];
        let d: u64 = if '0' <= c && c <= '9' {
            (c as u64) - 48
        } else if 'a' <= c && c <= 'z' {
            (c as u64) - 87
        } else if 'A' <= c && c <= 'Z' {
            (c as u64) - 55
        } else {
            radix
        };
        proof {
            assert(body[i - start] == c);
        }
        if d >= radix {
            proof {
                assert(digit_value(body[i - start], radix as int) < 0);
                assert(!all_digits(body, radix as int));
                assert(parse_unsigned(s, radix as int, max as int) is None);
            }
            return None;
        }
        assert(acc * radix <= 0xffff_ffff * 16) by (nonlinear_arith)
            requires
                acc <= 0xffff_ffff,
                radix <= 16,
        ;
        let next = acc * radix + d;
        proof {
            let p = body.take(i - start + 1);
            assert(p.drop_last() == body.take(i - start));
            assert(p.last() == c);
            assert(d == digit_value(c, radix as int));
            assert(digits_value(p, radix as int) == acc * radix + d);
            assert(all_digits(p, radix as int)) by {
                assert forall|k: int| 0 <= k < p.len() implies digit_value(#[trigger] p[k], radix as int) >= 0 by {
                    if k < p.len() - 1 {
                        assert(p[k] == body.take(i - start)[k]);
                    }
                }
            }
        }
        if next > max {
            proof {
                let p = body.take(i - start + 1);
                if all_digits(body, radix as int) {
                    lemma_digits_value_prefix(body, radix as int, i - start + 1);
                }
                assert(parse_unsigned(s, radix as int, max as int) is None);
            }
            return None;
        }
        acc = next;
        i += 1;
    }
    proof {
        assert(body.take(i - start) == body);
    }
    Some(acc)
}

/// `str::parse::<u32>()`.
pub open spec fn parse_u32_spec(s: Seq<char>) -> Option<int> {
    parse_unsigned(s, 10, 0xffff_ffff)
}

} // verus!

verus! {

/// The views of a sequence of strings.
pub open spec fn views(v: Seq<String>) -> Seq<Seq<char>> {
    v.map_values(|s: String| s@)
}

/// `parts` joined with `sep` between neighbours (`[T]::join`).
pub open spec fn join(parts: Seq<Seq<char>>, sep: Seq<char>) -> Seq<char>
    decreases parts.len(),
{
    if parts.len() == 0 {
        seq![]
    } else if parts.len() == 1 {
        parts[0]
    } else {
        join(parts.drop_last(), sep) + sep + parts.last()
    }
}

/// `parts.join(sep)`.
pub fn join_strings(parts: &Vec<String>, sep: &str) -> (res: String)
    ensures
        res@ == join(views(parts@), sep@),
{
    let mut res = String::new();
    let ghost vs = views(parts@);
    let mut i: usize = 0;
    while i < parts.len()
        invariant
            i <= parts.len(),
            vs == views(parts@),
            res@ == join(vs.take(i as int), sep@),
        decreases parts.len() - i,
    {
        proof {
            assert(vs.take(i + 1).drop_last() == vs.take(i as int));
            assert(vs[i as int] == parts@[i as int]@);
        }
        if i != 0 {
            res.append(sep);
        }
        res.append(parts[i].as_str());
        proof {
            if i == 0 {
                assert(vs.take(1) == seq![vs[0]]);
                assert(res@ =~= join(vs.take(1), sep@));
            } else {
                assert(res@ =~= join(vs.take(i + 1), sep@));
            }
        }
        i += 1;
    }
    proof {
        assert(vs.take(parts.len() as int) == vs);
    }
    res
}

/// `s` with every leading copy of the non-empty `p` removed (`str::trim_start_matches`).
pub open spec fn trim_start_all(s: Seq<char>, p: Seq<char>) -> Seq<char>
    decreases s.len(),
{
    if p.len() > 0 && has_prefix(s, p) {
        trim_start_all(s.skip(p.len() as int), p)
    } else {
        s
    }
}

/// Start of `trim_start_matches(p)` applied to `cs[lo..hi]`, for a non-empty `p`.
pub fn trim_start_all_range(cs: &Vec<char>, lo: usize, hi: usize, p: &str) -> (r: usize)
    requires
        lo <= hi <= cs.len(),
        p@.len() > 0,
    ensures
        lo <= r <= hi,
        cs@.subrange(r as int, hi as int) == trim_start_all(cs@.subrange(lo as int, hi as int), p@),
{
    let n = chars_of(p).len();
    let mut a = lo;
    while range_starts_with(cs, a, hi, p)
        invariant
            lo <= a <= hi <= cs.len(),
            n == p@.len(),
            n > 0,
            trim_start_all(cs@.subrange(lo as int, hi as int), p@) == trim_start_all(
                cs@.subrange(a as int, hi as int),
                p@,
            ),
        decreases hi - a,
    {
        proof {
            assert(cs@.subrange(a as int, hi as int).skip(n as int) == cs@.subrange(a + n, hi as int));
        }
        a = a + n;
    }
    a
}

/// `s` with each `from` replaced by `to` (`str::replace` with char patterns).
pub open spec fn replace_char(s: Seq<char>, from: char, to: Seq<char>) -> Seq<char>
    decreases s.len(),
{
    if s.len() == 0 {
        seq![]
    } else {
        replace_char(s.drop_last(), from, to) + (if s.last() == from {
            to
        } else {
            seq![s.last()]
        })
    }
}

/// Appends `s` with each `from` replaced by `to`.
pub fn push_replaced(out: &mut String, s: &str, from: char, to: &str)
    ensures
        final(out)@ == old(out)@ + replace_char(s@, from, to@),
{
    let cs = chars_of(s);
    let ghost start = out@;
    let mut i: usize = 0;
    while i < cs.len()
        invariant
            i <= cs.len(),
            cs@ == s@,
            out@ == start + replace_char(cs@.take(i as int), from, to@),
        decreases cs.len() - i,
    {
        proof {
            assert(cs@.take(i + 1).drop_last() == cs@.take(i as int));
        }
        if cs[i] == from {
            out.append(to);
        } else {
            push_char(out, cs[i]);
        }
        proof {
            let t = cs@.take(i + 1);
            assert(t.last() == cs@[i as int]);
            assert(out@ =~= start + replace_char(t, from, to@));
        }
        i += 1;
    }
    proof {
        assert(cs@.take(cs.len() as int) == cs@);
    }
}

} // verus!

verus! {

/// Number of occurrences of `c` in `s`.
pub open spec fn count_char(s: Seq<char>, c: char) -> nat
    decreases s.len(),
{
    if s.len() == 0 {
        0
    } else {
        count_char(s.drop_last(), c) + (if s.last() == c {
            1nat
        } else {
            0nat
        })
    }
}

/// How many times `c` occurs in `cs`.
pub fn count_char_in(cs: &Vec<char>, c: char) -> (n: usize)
    ensures
        n == count_char(cs@, c),
{
    let mut n: usize = 0;
    let mut i: usize = 0;
    while i < cs.len()
        invariant
            i <= cs.len(),
            n == count_char(cs@.take(i as int), c),
            n <= i,
        decreases cs.len() - i,
    {
        proof {
            assert(cs@.take(i + 1).drop_last() == cs@.take(i as int));
        }
        if cs[i] == c {
            n += 1;
        }
        i += 1;
    }
    proof {
        assert(cs@.take(cs.len() as int) == cs@);
    }
    n
}

} // verus!

verus! {

proof fn lemma_skip_take_sub(s: Seq<char>, i: int, j: int)
    requires
        0 <= i <= j <= s.len(),
    ensures
        s.skip(i).take(j - i) == s.subrange(i, j),
        j < s.len() ==> s.skip(i).skip(j - i + 1) == s.skip(j + 1),
{
    assert(s.skip(i).take(j - i) =~= s.subrange(i, j));
    if j < s.len() {
        assert(s.skip(i).skip(j - i + 1) =~= s.skip(j + 1));
    }
}

/// `str::lines`, each line as a new `String`.
pub fn lines_of(s: &str) -> (res: Vec<String>)
    ensures
        views(res@) == lines(s@),
{
    let cs = chars_of(s);
    let mut out: Vec<String> = Vec::new();
    let mut i: usize = 0;
    proof {
        assert(cs@.skip(0) == cs@);
    }
    while i < cs.len()
        invariant
            i <= cs.len(),
            cs@ == s@,
            lines(s@) == views(out@) + lines(cs@.skip(i as int)),
        decreases cs.len() - i,
    {
        let j = find_char(&cs, i, cs.len(), '\n');
        let ghost rest = cs@.skip(i as int);
        proof {
            assert(cs@.subrange(i as int, cs@.len() as int) == rest);
            lemma_skip_take_sub(cs@, i as int, j as int);
            lemma_index_of_bounds(rest, '\n');
        }
        let ghost prev = views(out@);
        if j < cs.len() {
            let mut e = j;
            if e > i && cs[e - 1] == '\r' {
                e = e - 1;
            }
            let line = string_of(slice_range(&cs, i, e).as_slice());
            proof {
                let t = cs@.subrange(i as int, j as int);
                assert(strip_cr(t) == cs@.subrange(i as int, e as int));
            }
            out.push(line);
            proof {
                assert(views(out@) =~= prev.push(strip_cr(rest.take(j - i))));
                assert(lines(rest) == seq![strip_cr(rest.take(j - i))] + lines(rest.skip(j - i + 1)));
                assert(views(out@) + lines(cs@.skip(j + 1)) =~= prev + lines(rest));
            }
            i = j + 1;
        } else {
            let line = string_of(slice_range(&cs, i, cs.len()).as_slice());
            out.push(line);
            proof {
                assert(lines(rest) == seq![rest]);
                assert(cs@.skip(cs.len() as int).len() == 0);
                assert(lines(cs@.skip(cs.len() as int)) == Seq::<Seq<char>>::empty());
                assert(views(out@) + lines(cs@.skip(cs.len() as int)) =~= prev + lines(rest));
            }
            i = cs.len();
        }
    }
    proof {
        assert(cs@.skip(i as int).len() == 0);
        assert(lines(cs@.skip(i as int)) == Seq::<Seq<char>>::empty());
        assert(views(out@) + Seq::<Seq<char>>::empty() =~= views(out@));
    }
    out
}

/// Each line followed by `'\n'`.
pub open spec fn join_lines(ls: Seq<Seq<char>>) -> Seq<char>
    decreases ls.len(),
{
    if ls.len() == 0 {
        seq![]
    } else {
        join_lines(ls.drop_last()) + ls.last() + seq!['\n']
    }
}

/// The lines, each followed by `'\n'`.
pub fn join_lines_of(ls: &Vec<String>) -> (res: String)
    ensures
        res@ == join_lines(views(ls@)),
{
    let mut out = String::new();
    let ghost vs = views(ls@);
    let mut i: usize = 0;
    while i < ls.len()
        invariant
            i <= ls.len(),
            vs == views(ls@),
            out@ == join_lines(vs.take(i as int)),
        decreases ls.len() - i,
    {
        proof {
            assert(vs.take(i + 1).drop_last() == vs.take(i as int));
            assert(vs.take(i + 1).last() == ls@[i as int]@);
        }
        out.append(ls[i].as_str());
        push_char(&mut out, '\n');
        proof {
            assert(out@ =~= join_lines(vs.take(i + 1)));
        }
        i += 1;
    }
    proof {
        assert(vs.take(ls.len() as int) == vs);
    }
    out
}

} // verus!

verus! {

/// Bounds of `trim_matches(c)` applied to `cs[lo..hi]`.
pub fn trim_char_range(cs: &Vec<char>, lo: usize, hi: usize, c: char) -> (r: (usize, usize))
    requires
        lo <= hi <= cs.len(),
    ensures
        lo <= r.0 <= r.1 <= hi,
        cs@.subrange(r.0 as int, r.1 as int) == trim_char(cs@.subrange(lo as int, hi as int), c),
{
    let mut a = lo;
    while a < hi && cs[a] == c
        invariant
            lo <= a <= hi <= cs.len(),
            trim_char(cs@.subrange(lo as int, hi as int), c) == trim_char(
                cs@.subrange(a as int, hi as int),
                c,
            ),
        decreases hi - a,
    {
        proof {
            let t = cs@.subrange(a as int, hi as int);
            assert(t[0] == c);
            assert(t.drop_first() == cs@.subrange(a + 1, hi as int));
        }
        a += 1;
    }
    let mut b = hi;
    while b > a && cs[b - 1] == c
        invariant
            lo <= a <= b <= hi <= cs.len(),
            a < b ==> cs@[a as int] != c,
            trim_char(cs@.subrange(lo as int, hi as int), c) == trim_char(
                cs@.subrange(a as int, b as int),
                c,
            ),
        decreases b - a,
    {
        proof {
            let t = cs@.subrange(a as int, b as int);
            assert(t[0] == cs@[a as int]);
            assert(t.last() == c);
            assert(t.drop_last() == cs@.subrange(a as int, b - 1));
        }
        b -= 1;
    }
    proof {
        let t = cs@.subrange(a as int, b as int);
        if a < b {
            assert(t[0] == cs@[a as int]);
            assert(t.last() == cs@[b - 1]);
        }
        assert(trim_char(t, c) == t);
    }
    (a, b)
}

} // verus!

verus! {

/// A character that `digit_char` can produce.
pub open spec fn is_digit_char(c: char) -> bool {
    ('0' <= c && c <= '9') || ('a' <= c && c <= 'f')
}

proof fn lemma_digit_char(d: nat, radix: int)
    requires
        d < radix <= 16,
    ensures
        digit_value(digit_char(d), radix) == d,
        is_digit_char(digit_char(d)),
{
    if d < 10 {
        assert(digit_char(d) as int == 48 + d);
    } else {
        assert(digit_char(d) as int == 87 + d);
    }
}

/// `digits` yields a non-empty string of digit characters with value `v`.
pub proof fn lemma_digits(v: nat, radix: nat)
    requires
        2 <= radix <= 16,
    ensures
        digits(v, radix).len() > 0,
        all_digits(digits(v, radix), radix as int),
        forall|i: int| 0 <= i < digits(v, radix).len() ==> is_digit_char(#[trigger] digits(v, radix)[i]),
        digits_value(digits(v, radix), radix as int) == v,
    decreases v,
{
    if v < radix {
        lemma_digit_char(v, radix as int);
        assert(digits(v, radix).drop_last() =~= Seq::<char>::empty());
        assert(0 * (radix as int) == 0);
        assert(digits_value(digits(v, radix), radix as int) == digits_value(
            Seq::<char>::empty(),
            radix as int,
        ) * radix + digit_value(digit_char(v), radix as int));
    } else {
        assert(v / radix < v) by (nonlinear_arith)
            requires
                v >= radix,
                radix >= 2,
        ;
        lemma_digits(v / radix, radix);
        let d = digits(v / radix, radix);
        let s = digits(v, radix);
        assert(v % radix < radix) by (nonlinear_arith)
            requires
                radix >= 2,
        ;
        lemma_digit_char(v % radix, radix as int);
        assert(s == d.push(digit_char(v % radix)));
        assert(s.drop_last() == d);
        assert forall|i: int| 0 <= i < s.len() implies digit_value(#[trigger] s[i], radix as int)
            >= 0 && is_digit_char(s[i]) by {
            if i < d.len() {
                assert(s[i] == d[i]);
            }
        }
        assert((v / radix) * radix + v % radix == v) by (nonlinear_arith)
            requires
                radix >= 2,
        ;
        assert(digits_value(s, radix as int) == digits_value(d, radix as int) * radix
            + digit_value(digit_char(v % radix), radix as int));
    }
}

proof fn lemma_zeros_value(n: nat, radix: int)
    requires
        radix > 0,
    ensures
        digits_value(Seq::new(n, |i: int| '0'), radix) == 0,
    decreases n,
{
    if n > 0 {
        assert(Seq::new(n, |i: int| '0').drop_last() =~= Seq::new((n - 1) as nat, |i: int| '0'));
        lemma_zeros_value((n - 1) as nat, radix);
        assert(digit_value('0', radix) == 0);
        assert(0 * radix == 0);
    }
}

proof fn lemma_zeros_prefix_value(z: Seq<char>, s: Seq<char>, radix: int)
    requires
        digits_value(z, radix) == 0,
    ensures
        digits_value(z + s, radix) == digits_value(s, radix),
    decreases s.len(),
{
    if s.len() == 0 {
        assert(z + s =~= z);
    } else {
        assert((z + s).drop_last() =~= z + s.drop_last());
        assert((z + s).last() == s.last());
        lemma_zeros_prefix_value(z, s.drop_last(), radix);
    }
}

/// `hex(v, w)` reads back as `v` in base 16.
pub proof fn lemma_hex_parse(v: nat, w: nat, max: int)
    requires
        v <= max,
    ensures
        parse_unsigned(hex(v, w), 16, max) == Some(v as int),
        forall|i: int| 0 <= i < hex(v, w).len() ==> is_digit_char(#[trigger] hex(v, w)[i]),
{
    lemma_digits(v, 16);
    let d = digits(v, 16);
    let h = hex(v, w);
    if d.len() < w {
        let z = Seq::new((w - d.len()) as nat, |i: int| '0');
        lemma_zeros_value((w - d.len()) as nat, 16);
        lemma_zeros_prefix_value(z, d, 16);
        assert(h == z + d);
        assert forall|i: int| 0 <= i < h.len() implies digit_value(#[trigger] h[i], 16) >= 0
            && is_digit_char(h[i]) by {
            if i >= z.len() {
                assert(h[i] == d[i - z.len()]);
            }
        }
    }
    assert(h[0] != '+');
}

/// `dec(v)` reads back as `v` in base 10.
pub proof fn lemma_dec_parse(v: nat, max: int)
    requires
        v <= max,
    ensures
        parse_unsigned(dec(v), 10, max) == Some(v as int),
        forall|i: int| 0 <= i < dec(v).len() ==> is_digit_char(#[trigger] dec(v)[i]),
        dec(v).len() > 0,
{
    lemma_digits(v, 10);
    assert(dec(v)[0] != '+');
}

/// Text made of digit characters has no leading "0x".
pub proof fn lemma_digit_text_no_0x(h: Seq<char>)
    requires
        forall|i: int| 0 <= i < h.len() ==> is_digit_char(#[trigger] h[i]),
    ensures
        trim_start_all("0x"@ + h, "0x"@) == h,
{
    reveal_strlit("0x");
    let p = "0x"@;
    let s = p + h;
    assert(has_prefix(s, p)) by {
        assert(s.take(2) =~= p);
    }
    assert(s.skip(2) =~= h);
    assert(p[1] == 'x');
    if h.len() >= 2 {
        assert(is_digit_char(h[1]));
        assert(h.take(2)[1] == h[1]);
    }
    assert(!has_prefix(h, p));
    assert(trim_start_all(h, p) == h);
    assert(trim_start_all(s, p) == trim_start_all(s.skip(p.len() as int), p));
}

/// Joined lines split back into the same lines.
pub proof fn lemma_lines_join(ls: Seq<Seq<char>>)
    requires
        forall|i: int| 0 <= i < ls.len() ==> !(#[trigger] ls[i]).contains('\n') && strip_cr(ls[i])
            == ls[i],
    ensures
        lines(join_lines(ls)) == ls,
    decreases ls.len(),
{
    if ls.len() > 0 {
        lemma_join_lines_front(ls);
        let a = ls[0];
        let rest = ls.drop_first();
        let s = join_lines(ls);
        assert(s == a + seq!['\n'] + join_lines(rest));
        assert(forall|j: int| 0 <= j < a.len() ==> a[j] != '\n') by {
            assert forall|j: int| 0 <= j < a.len() implies a[j] != '\n' by {
                if a[j] == '\n' {
                    assert(a.contains('\n'));
                }
            }
        }
        assert forall|j: int| 0 <= j < a.len() implies s[j] != '\n' by {
            assert(s[j] == a[j]);
        }
        assert(s[a.len() as int] == '\n');
        lemma_index_of_is(s, '\n', a.len() as int);
        assert(s.take(a.len() as int) =~= a);
        assert(s.skip(a.len() as int + 1) =~= join_lines(rest));
        assert forall|i: int| 0 <= i < rest.len() implies !(#[trigger] rest[i]).contains('\n')
            && strip_cr(rest[i]) == rest[i] by {
            assert(rest[i] == ls[i + 1]);
        }
        lemma_lines_join(rest);
        assert(lines(s) =~= seq![a] + rest);
    }
}

proof fn lemma_join_lines_front(ls: Seq<Seq<char>>)
    requires
        ls.len() > 0,
    ensures
        join_lines(ls) == ls[0] + seq!['\n'] + join_lines(ls.drop_first()),
    decreases ls.len(),
{
    if ls.len() == 1 {
        assert(ls.drop_last() =~= Seq::<Seq<char>>::empty());
        assert(ls.drop_first() =~= Seq::<Seq<char>>::empty());
        assert(join_lines(ls) =~= ls[0] + seq!['\n'] + join_lines(ls.drop_first()));
    } else {
        lemma_join_lines_front(ls.drop_last());
        assert(ls.drop_last()[0] == ls[0]);
        assert(ls.drop_last().drop_first() =~= ls.drop_first().drop_last());
        assert(ls.drop_first().last() == ls.last());
        assert(join_lines(ls) =~= ls[0] + seq!['\n'] + join_lines(ls.drop_first()));
    }
}

} // verus!

verus! {

/// `str::to_lowercase`: full Unicode lower-casing (a function of the text alone).
pub uninterp spec fn lowercase(s: Seq<char>) -> Seq<char>;

/// Lower-cases `s` (`str::to_lowercase`).
#[verifier::external_body]
pub(crate) fn to_lowercase(s: &str) -> (res: String)
    ensures
        res@ == lowercase(s@),
{
    s.to_lowercase()
}

/// Lexicographic order on characters, as `str` and `String` compare.
pub open spec fn lex_le(a: Seq<char>, b: Seq<char>) -> bool
    decreases a.len(),
{
    if a.len() == 0 {
        true
    } else if b.len() == 0 {
        false
    } else if a[0] != b[0] {
        a[0] < b[0]
    } else {
        lex_le(a.drop_first(), b.drop_first())
    }
}

/// Lexicographic order is total.
pub proof fn lemma_lex_total(a: Seq<char>, b: Seq<char>)
    ensures
        lex_le(a, b) || lex_le(b, a),
    decreases a.len(),
{
    if a.len() > 0 && b.len() > 0 && a[0] == b[0] {
        lemma_lex_total(a.drop_first(), b.drop_first());
    }
}

/// Lexicographic order is transitive.
pub proof fn lemma_lex_trans(a: Seq<char>, b: Seq<char>, c: Seq<char>)
    requires
        lex_le(a, b),
        lex_le(b, c),
    ensures
        lex_le(a, c),
    decreases a.len(),
{
    if a.len() > 0 && b.len() > 0 && c.len() > 0 && a[0] == b[0] && b[0] == c[0] {
        lemma_lex_trans(a.drop_first(), b.drop_first(), c.drop_first());
    }
}

/// Lexicographic order is reflexive.
pub proof fn lemma_lex_refl(a: Seq<char>)
    ensures
        lex_le(a, a),
    decreases a.len(),
{
    if a.len() > 0 {
        lemma_lex_refl(a.drop_first());
    }
}

/// Lexicographic order is antisymmetric.
pub proof fn lemma_lex_antisym(a: Seq<char>, b: Seq<char>)
    requires
        lex_le(a, b),
        lex_le(b, a),
    ensures
        a == b,
    decreases a.len(),
{
    if a.len() > 0 && b.len() > 0 {
        lemma_lex_antisym(a.drop_first(), b.drop_first());
        assert(a =~= seq![a[0]] + a.drop_first());
        assert(b =~= seq![b[0]] + b.drop_first());
    } else {
        assert(a =~= b);
    }
}

/// Whether `a <= b` in lexicographic order (`Ord` for `str`).
pub fn str_le(a: &str, b: &str) -> (res: bool)
    ensures
        res == lex_le(a@, b@),
{
    let x = chars_of(a);
    let y = chars_of(b);
    let mut i: usize = 0;
    proof {
        assert(x@.skip(0) == x@);
        assert(y@.skip(0) == y@);
    }
    while i < x.len() && i < y.len() && x[i] == y[i]
        invariant
            i <= x.len(),
            i <= y.len(),
            lex_le(x@, y@) == lex_le(x@.skip(i as int), y@.skip(i as int)),
        decreases x.len() - i,
    {
        proof {
            assert(x@.skip(i as int).drop_first() == x@.skip(i + 1));
            assert(y@.skip(i as int).drop_first() == y@.skip(i + 1));
            assert(x@.skip(i as int)[0] == x@[i as int]);
            assert(y@.skip(i as int)[0] == y@[i as int]);
        }
        i += 1;
    }
    proof {
        if i < x.len() {
            assert(x@.skip(i as int)[0] == x@[i as int]);
        }
        if i < y.len() {
            assert(y@.skip(i as int)[0] == y@[i as int]);
        }
    }
    if i == x.len() {
        true
    } else if i == y.len() {
        false
    } else {
        x[i] < y[i]
    }
}

} // verus!

verus! {

/// Words of `s` (maximal runs without white space) already closed, and the
/// word still open at its end.
pub open spec fn split_ws(s: Seq<char>) -> (Seq<Seq<char>>, Seq<char>)
    decreases s.len(),
{
    if s.len() == 0 {
        (seq![], seq![])
    } else {
        let (done, cur) = split_ws(s.drop_last());
        if is_ws(s.last()) {
            if cur.len() > 0 {
                (done.push(cur), seq![])
            } else {
                (done, seq![])
            }
        } else {
            (done, cur.push(s.last()))
        }
    }
}

/// The white-space separated words of `s` (`str::split_whitespace`).
pub open spec fn ws_words(s: Seq<char>) -> Seq<Seq<char>> {
    let (done, cur) = split_ws(s);
    if cur.len() > 0 {
        done.push(cur)
    } else {
        done
    }
}

/// `str::split_whitespace`, each word as a new `String`.
pub fn split_whitespace(s: &str) -> (res: Vec<String>)
    ensures
        views(res@) == ws_words(s@),
{
    let cs = chars_of(s);
    let mut res: Vec<String> = Vec::new();
    let mut cur = String::new();
    let mut cur_len: usize = 0;
    let mut i: usize = 0;
    proof {
        assert(cs@.take(0) =~= Seq::<char>::empty());
    }
    while i < cs.len()
        invariant
            cs@ == s@,
            i <= cs.len(),
            views(res@) == split_ws(cs@.take(i as int)).0,
            cur@ == split_ws(cs@.take(i as int)).1,
            cur_len == cur@.len(),
            cur_len <= i,
        decreases cs.len() - i,
    {
        let c = cs[i];
        proof {
            assert(cs@.take(i + 1).drop_last() =~= cs@.take(i as int));
            assert(cs@.take(i + 1).last() == c);
        }
        let ghost prev = split_ws(cs@.take(i as int));
        if is_whitespace(c) {
            if cur_len > 0 {
                let ghost before = views(res@);
                let word = cur;
                res.push(word);
                cur = String::new();
                cur_len = 0;
                proof {
                    assert(views(res@) =~= before.push(prev.1));
                }
            }
        } else {
            push_char(&mut cur, c);
            cur_len += 1;
        }
        i += 1;
    }
    proof {
        assert(cs@.take(cs.len() as int) =~= cs@);
    }
    if cur_len > 0 {
        let ghost before = views(res@);
        res.push(cur);
        proof {
            assert(views(res@) =~= before.push(split_ws(cs@).1));
        }
    }
    res
}

/// The first white-space separated word of `s`, if any.
pub open spec fn first_word(s: Seq<char>) -> Option<Seq<char>> {
    if ws_words(s).len() > 0 {
        Some(ws_words(s)[0])
    } else {
        None
    }
}

/// `s.split_whitespace().next()`.
pub fn first_word_of(s: &str) -> (res: Option<String>)
    ensures
        match res {
            Some(w) => first_word(s@) == Some(w@),
            None => first_word(s@).is_none(),
        },
{
    let mut words = split_whitespace(s);
    if words.len() > 0 {
        let w = words.swap_remove(0);
        Some(w)
    } else {
        None
    }
}

} // verus!

verus! {

/// Runs of `s` between occurrences of `sep` already closed (only non-empty
/// ones), and the run still open at its end.
pub open spec fn split_sep(s: Seq<char>, sep: char) -> (Seq<Seq<char>>, Seq<char>)
    decreases s.len(),
{
    if s.len() == 0 {
        (seq![], seq![])
    } else {
        let (done, cur) = split_sep(s.drop_last(), sep);
        if s.last() == sep {
            if cur.len() > 0 {
                (done.push(cur), seq![])
            } else {
                (done, seq![])
            }
        } else {
            (done, cur.push(s.last()))
        }
    }
}

/// The non-empty pieces of `s` split at `sep`
/// (`s.split(sep).filter(|p| !p.is_empty())`).
pub open spec fn nonempty_parts(s: Seq<char>, sep: char) -> Seq<Seq<char>> {
    let (done, cur) = split_sep(s, sep);
    if cur.len() > 0 {
        done.push(cur)
    } else {
        done
    }
}

/// The non-empty pieces of `s` split at `sep`, each as a new `String`.
pub fn split_nonempty(s: &str, sep: char) -> (res: Vec<String>)
    ensures
        views(res@) == nonempty_parts(s@, sep),
{
    let cs = chars_of(s);
    let mut res: Vec<String> = Vec::new();
    let mut cur = String::new();
    let mut cur_len: usize = 0;
    let mut i: usize = 0;
    proof {
        assert(cs@.take(0) =~= Seq::<char>::empty());
    }
    while i < cs.len()
        invariant
            cs@ == s@,
            i <= cs.len(),
            views(res@) == split_sep(cs@.take(i as int), sep).0,
            cur@ == split_sep(cs@.take(i as int), sep).1,
            cur_len == cur@.len(),
            cur_len <= i,
        decreases cs.len() - i,
    {
        let c = cs[i];
        proof {
            assert(cs@.take(i + 1).drop_last() =~= cs@.take(i as int));
            assert(cs@.take(i + 1).last() == c);
        }
        let ghost prev = split_sep(cs@.take(i as int), sep);
        if c == sep {
            if cur_len > 0 {
                let ghost before = views(res@);
                let word = cur;
                res.push(word);
                cur = String::new();
                cur_len = 0;
                proof {
                    assert(views(res@) =~= before.push(prev.1));
                }
            }
        } else {
            push_char(&mut cur, c);
            cur_len += 1;
        }
        i += 1;
    }
    proof {
        assert(cs@.take(cs.len() as int) =~= cs@);
    }
    if cur_len > 0 {
        let ghost before = views(res@);
        res.push(cur);
        proof {
            assert(views(res@) =~= before.push(split_sep(cs@, sep).1));
        }
    }
    res
}

} // verus!

verus! {

/// `char::is_alphanumeric`: the Unicode Alphabetic or Numeric property.
pub uninterp spec fn alnum(c: char) -> bool;

/// Whether `c` is alphabetic or numeric (`char::is_alphanumeric`).
#[verifier::external_body]
pub(crate) fn is_alphanumeric(c: char) -> (res: bool)
    ensures
        res == alnum(c),
{
    c.is_alphanumeric()
}

} // verus!

verus! {

/// `s` with every occurrence of the non-empty `pat`, scanning left to right
/// without overlap, replaced by `rep` (`str::replace`).
pub open spec fn replace_all(s: Seq<char>, pat: Seq<char>, rep: Seq<char>) -> Seq<char>
    decreases s.len(),
{
    if pat.len() == 0 || s.len() == 0 {
        s
    } else if s.len() >= pat.len() && s.take(pat.len() as int) == pat {
        rep + replace_all(s.skip(pat.len() as int), pat, rep)
    } else {
        seq![s[0]] + replace_all(s.drop_first(), pat, rep)
    }
}

/// `s` with every occurrence of the non-empty `pat` replaced by `rep`.
pub fn replace_str(s: &str, pat: &str, rep: &str) -> (res: String)
    requires
        pat@.len() > 0,
    ensures
        res@ == replace_all(s@, pat@, rep@),
{
    let cs = chars_of(s);
    let n = chars_of(pat).len();
    let mut out = String::new();
    let mut i: usize = 0;
    proof {
        assert(cs@.skip(0) =~= cs@);
    }
    while i < cs.len()
        invariant
            cs@ == s@,
            n == pat@.len(),
            n > 0,
            i <= cs.len(),
            out@ + replace_all(cs@.skip(i as int), pat@, rep@) == replace_all(s@, pat@, rep@),
        decreases cs.len() - i,
    {
        let ghost rest = cs@.skip(i as int);
        if n <= cs.len() - i && range_eq(&cs, i, i + n, pat) {
            proof {
                assert(rest.take(n as int) =~= cs@.subrange(i as int, i + n));
                assert(rest.skip(n as int) =~= cs@.skip(i + n));
                assert(out@ + rep@ + replace_all(cs@.skip(i + n), pat@, rep@) =~= out@
                    + replace_all(rest, pat@, rep@));
            }
            out.append(rep);
            i = i + n;
        } else {
            proof {
                if n <= cs.len() - i {
                    assert(rest.take(n as int) =~= cs@.subrange(i as int, i + n));
                }
                assert(rest.drop_first() =~= cs@.skip(i + 1));
                assert(rest[0] == cs@[i as int]);
                assert(out@.push(cs@[i as int]) + replace_all(cs@.skip(i + 1), pat@, rep@) =~= out@
                    + replace_all(rest, pat@, rep@));
            }
            push_char(&mut out, cs[i]);
            i = i + 1;
        }
    }
    proof {
        assert(cs@.skip(i as int).len() == 0);
        assert(out@ + cs@.skip(i as int) =~= out@);
    }
    out
}

} // verus!
