//! Character-level helpers shared by the parser, the classifier and the renderer.
use vstd::prelude::*;
use vstd::string::*;

verus! {

/// The characters that `char::is_whitespace` accepts (Unicode `White_Space`).
pub open spec fn is_space(c: char) -> bool {
    let u = c as u32;
    u == 0x20 || (0x09 <= u && u <= 0x0d) || u == 0x85 || u == 0xa0 || u == 0x1680 || (0x2000
        <= u && u <= 0x200a) || u == 0x2028 || u == 0x2029 || u == 0x202f || u == 0x205f || u
        == 0x3000
}

pub open spec fn is_digit(c: char) -> bool {
    '0' <= c && c <= '9'
}

pub open spec fn is_hex_digit(c: char) -> bool {
    ('0' <= c && c <= '9') || ('a' <= c && c <= 'f') || ('A' <= c && c <= 'F')
}

pub open spec fn digit_value(c: char) -> nat {
    (c as u32 - '0' as u32) as nat
}

/// `s` without its leading whitespace.
pub open spec fn trim_start(s: Seq<char>) -> Seq<char>
    decreases s.len(),
{
    if s.len() > 0 && is_space(s[0]) {
        trim_start(s.drop_first())
    } else {
        s
    }
}

/// `s` without its trailing whitespace.
pub open spec fn trim_end(s: Seq<char>) -> Seq<char>
    decreases s.len(),
{
    if s.len() > 0 && is_space(s.last()) {
        trim_end(s.drop_last())
    } else {
        s
    }
}

/// A non-empty run of ASCII decimal digits.
pub open spec fn all_digits(s: Seq<char>) -> bool {
    s.len() > 0 && forall|i: int| 0 <= i < s.len() ==> is_digit(#[trigger] s[i])
}

/// The number that a run of decimal digits denotes.
pub open spec fn digits_value(s: Seq<char>) -> nat
    decreases s.len(),
{
    if s.len() == 0 {
        0
    } else {
        digits_value(s.drop_last()) * 10 + digit_value(s.last())
    }
}

/// Position of the first `": "` in `s` at or after `i`, or -1.
pub open spec fn sep_from(s: Seq<char>, i: int) -> int
    decreases s.len() - i,
{
    if i < 0 || i + 1 >= s.len() {
        -1
    } else if s[i] == ':' && s[i + 1] == ' ' {
        i
    } else {
        sep_from(s, i + 1)
    }
}

/// Position of the last `':'` in `s`, or -1.
pub open spec fn last_colon(s: Seq<char>) -> int
    decreases s.len(),
{
    if s.len() == 0 {
        -1
    } else if s.last() == ':' {
        s.len() - 1
    } else {
        last_colon(s.drop_last())
    }
}

/// Whether `p` occurs in `s` as a contiguous run.
pub open spec fn contains_run(s: Seq<char>, p: Seq<char>) -> bool {
    exists|i: int| 0 <= i && i + p.len() <= s.len() && #[trigger] s.subrange(i, i + p.len()) == p
}

/// `n` copies of `s`.
pub open spec fn repeat(s: Seq<char>, n: nat) -> Seq<char>
    decreases n,
{
    if n == 0 {
        Seq::empty()
    } else {
        repeat(s, (n - 1) as nat) + s
    }
}

/// The decimal digits of one digit's value.
pub open spec fn digit_text(d: nat) -> Seq<char> {
    if d == 0 {
        "0"@
    } else if d == 1 {
        "1"@
    } else if d == 2 {
        "2"@
    } else if d == 3 {
        "3"@
    } else if d == 4 {
        "4"@
    } else if d == 5 {
        "5"@
    } else if d == 6 {
        "6"@
    } else if d == 7 {
        "7"@
    } else if d == 8 {
        "8"@
    } else {
        "9"@
    }
}

/// The decimal representation of `n`, without leading zeros.
pub open spec fn decimal_text(n: nat) -> Seq<char>
    decreases n,
{
    if n < 10 {
        digit_text(n)
    } else {
        decimal_text(n / 10) + digit_text(n % 10)
    }
}

/// `s` padded on the left with `fill` to `width` characters (`{:>width}`).
pub open spec fn pad_left(s: Seq<char>, width: nat, fill: Seq<char>) -> Seq<char> {
    if s.len() >= width {
        s
    } else {
        repeat(fill, (width - s.len()) as nat) + s
    }
}

/// `s` centred in `width` characters with `fill` (`{:^width}`): the odd
/// character of padding goes to the right.
pub open spec fn center(s: Seq<char>, width: nat, fill: Seq<char>) -> Seq<char> {
    if s.len() >= width {
        s
    } else {
        let pad = (width - s.len()) as nat;
        repeat(fill, pad / 2) + s + repeat(fill, (pad + 1) / 2)
    }
}

pub fn is_space_char(c: char) -> (r: bool)
    ensures
        r == is_space(c),
{
    let u = c as u32;
    u == 0x20 || (0x09 <= u && u <= 0x0d) || u == 0x85 || u == 0xa0 || u == 0x1680 || (0x2000
        <= u && u <= 0x200a) || u == 0x2028 || u == 0x2029 || u == 0x202f || u == 0x205f || u
        == 0x3000
}

pub fn is_digit_char(c: char) -> (r: bool)
    ensures
        r == is_digit(c),
{
    '0' <= c && c <= '9'
}

pub fn is_hex_digit_char(c: char) -> (r: bool)
    ensures
        r == is_hex_digit(c),
{
    ('0' <= c && c <= '9') || ('a' <= c && c <= 'f') || ('A' <= c && c <= 'F')
}

/// The characters of `s`, in order.
pub fn to_chars(s: &str) -> (r: Vec<char>)
    ensures
        r@ == s@,
{
    let mut v: Vec<char> = Vec::new();
    for c in it: s.chars()
        invariant
            v@ == it.seq().subrange(0, it.index() as int),
            it.seq() == s@,
    {
        v.push(c);
    }
    v
}

/// The characters `lo..hi` of `s`, as an owned string.
pub fn substring(s: &str, lo: usize, hi: usize) -> (r: String)
    requires
        lo <= hi <= s@.len(),
    ensures
        r@ == s@.subrange(lo as int, hi as int),
{
    s.substring_char(lo, hi).to_owned()
}

/// First position `p` in `lo..hi` at which whitespace stops.
pub fn skip_space(t: &Vec<char>, lo: usize, hi: usize) -> (r: usize)
    requires
        lo <= hi <= t@.len(),
    ensures
        lo <= r <= hi,
        t@.subrange(r as int, hi as int) == trim_start(t@.subrange(lo as int, hi as int)),
{
    let mut i = lo;
    while i < hi && is_space_char(t[i])
        invariant
            lo <= i <= hi <= t@.len(),
            trim_start(t@.subrange(i as int, hi as int)) == trim_start(
                t@.subrange(lo as int, hi as int),
            ),
        decreases hi - i,
    {
        assert(t@.subrange(i as int, hi as int).drop_first() =~= t@.subrange(
            i + 1,
            hi as int,
        ));
        i = i + 1;
    }
    i
}

/// End `p` of `lo..hi` once the trailing whitespace is dropped.
pub fn drop_trailing_space(t: &Vec<char>, lo: usize, hi: usize) -> (r: usize)
    requires
        lo <= hi <= t@.len(),
    ensures
        lo <= r <= hi,
        t@.subrange(lo as int, r as int) == trim_end(t@.subrange(lo as int, hi as int)),
{
    let mut j = hi;
    while j > lo && is_space_char(t[j - 1])
        invariant
            lo <= j <= hi <= t@.len(),
            trim_end(t@.subrange(lo as int, j as int)) == trim_end(
                t@.subrange(lo as int, hi as int),
            ),
        decreases j - lo,
    {
        assert(t@.subrange(lo as int, j as int).drop_last() =~= t@.subrange(
            lo as int,
            j - 1,
        ));
        j = j - 1;
    }
    j
}

proof fn lemma_digits_value_grows(s: Seq<char>, k: int)
    requires
        0 <= k <= s.len(),
    ensures
        digits_value(s.subrange(0, k)) <= digits_value(s),
    decreases s.len() - k,
{
    if k < s.len() {
        lemma_digits_value_grows(s, k + 1);
        assert(s.subrange(0, k + 1).drop_last() =~= s.subrange(0, k));
    } else {
        assert(s.subrange(0, k) =~= s);
    }
}

/// The value of the digits `lo..hi`, when they are a non-empty run of
/// decimal digits whose value is at most `max`.
pub fn parse_decimal(t: &Vec<char>, lo: usize, hi: usize, max: u64) -> (r: Option<u64>)
    requires
        lo <= hi <= t@.len(),
    ensures
        r == (if all_digits(t@.subrange(lo as int, hi as int)) && digits_value(
            t@.subrange(lo as int, hi as int),
        ) <= max {
            Some(digits_value(t@.subrange(lo as int, hi as int)) as u64)
        } else {
            None::<u64>
        }),
{
    let ghost s = t@.subrange(lo as int, hi as int);
    if lo == hi {
        return None;
    }
    let mut v: u64 = 0;
    let mut i = lo;
    while i < hi
        invariant
            lo <= i <= hi <= t@.len(),
            s == t@.subrange(lo as int, hi as int),
            forall|k: int| 0 <= k < i - lo ==> is_digit(#[trigger] s[k]),
            v as nat == digits_value(s.subrange(0, i - lo)),
            v <= max,
        decreases hi - i,
    {
        let c = t[i];
        if !is_digit_char(c) {
            assert(s[i - lo] == c);
            return None;
        }
        let d = (c as u32 - '0' as u32) as u64;
        assert(s.subrange(0, i + 1 - lo).drop_last() =~= s.subrange(0, i - lo));
        assert(s.subrange(0, i + 1 - lo).last() == c);
        if d > max || v > (max - d) / 10 {
            proof {
                assert(v * 10 + d > max) by (nonlinear_arith)
                    requires
                        d > max || v > (max - d) / 10,
                        d <= 9,
                ;
                lemma_digits_value_grows(s, i + 1 - lo);
                assert(s.subrange(0, s.len() as int) =~= s);
            }
            return None;
        }
        proof {
            assert(v * 10 + d <= max) by (nonlinear_arith)
                requires
                    d <= max,
                    v <= (max - d) / 10,
            ;
        }
        v = v * 10 + d;
        i = i + 1;
    }
    assert(s.subrange(0, i - lo) =~= s);
    Some(v)
}

pub proof fn lemma_sep_from(s: Seq<char>, i: int)
    ensures
        sep_from(s, i) >= -1,
        sep_from(s, i) >= 0 ==> i <= sep_from(s, i) && sep_from(s, i) + 2 <= s.len() && s[sep_from(s, i)] == ':' && s[sep_from(s, i) + 1] == ' ',
    decreases s.len() - i,
{
    if !(i < 0 || i + 1 >= s.len()) && !(s[i] == ':' && s[i + 1] == ' ') {
        lemma_sep_from(s, i + 1);
    }
}

pub proof fn lemma_last_colon(s: Seq<char>)
    ensures
        -1 <= last_colon(s) < s.len(),
        last_colon(s) >= 0 ==> s[last_colon(s)] == ':',
    decreases s.len(),
{
    if s.len() > 0 && s.last() != ':' {
        lemma_last_colon(s.drop_last());
    }
}

/// Position of the first `": "` in `lo..hi`, or `None`.
pub fn find_separator(t: &Vec<char>, lo: usize, hi: usize) -> (r: Option<usize>)
    requires
        lo <= hi <= t@.len(),
    ensures
        r is None <==> sep_from(t@.subrange(lo as int, hi as int), 0) < 0,
        r matches Some(p) ==> p == sep_from(t@.subrange(lo as int, hi as int), 0) + lo && lo <= p
            && p + 2 <= hi,
{
    proof {
        lemma_sep_from(t@.subrange(lo as int, hi as int), 0);
    }
    let ghost s = t@.subrange(lo as int, hi as int);
    let mut i = lo;
    while hi - i >= 2
        invariant
            lo <= i <= hi <= t@.len(),
            s == t@.subrange(lo as int, hi as int),
            sep_from(s, 0) == sep_from(s, i - lo),
        decreases hi - i,
    {
        if t[i] == ':' && t[i + 1] == ' ' {
            return Some(i);
        }
        i = i + 1;
    }
    None
}

/// Position of the last `':'` in `lo..hi`, when there is one.
pub fn find_last_colon(t: &Vec<char>, lo: usize, hi: usize) -> (r: Option<usize>)
    requires
        lo <= hi <= t@.len(),
    ensures
        r is None <==> last_colon(t@.subrange(lo as int, hi as int)) < 0,
        r matches Some(p) ==> p == last_colon(t@.subrange(lo as int, hi as int)) + lo && lo <= p
            < hi,
{
    proof {
        lemma_last_colon(t@.subrange(lo as int, hi as int));
    }
    let mut j = hi;
    while j > lo
        invariant
            lo <= j <= hi <= t@.len(),
            last_colon(t@.subrange(lo as int, j as int)) == last_colon(
                t@.subrange(lo as int, hi as int),
            ),
        decreases j - lo,
    {
        assert(t@.subrange(lo as int, j as int).drop_last() =~= t@.subrange(lo as int, j - 1));
        if t[j - 1] == ':' {
            return Some(j - 1);
        }
        j = j - 1;
    }
    None
}

/// Whether the characters `lo..hi` of `t` are exactly `p`.
pub fn range_equals(t: &Vec<char>, lo: usize, hi: usize, p: &Vec<char>) -> (r: bool)
    requires
        lo <= hi <= t@.len(),
    ensures
        r == (t@.subrange(lo as int, hi as int) == p@),
{
    if hi - lo != p.len() {
        return false;
    }
    let mut k: usize = 0;
    while k < p.len()
        invariant
            lo <= hi <= t@.len(),
            hi - lo == p@.len(),
            k <= p@.len(),
            forall|m: int| 0 <= m < k ==> t@[lo + m] == p@[m],
        decreases p@.len() - k,
    {
        if t[lo + k] != p[k] {
            assert(t@.subrange(lo as int, hi as int)[k as int] != p@[k as int]);
            return false;
        }
        k = k + 1;
    }
    assert(t@.subrange(lo as int, hi as int) =~= p@);
    true
}

/// Whether `s` starts with `p`.
pub fn starts_with(s: &Vec<char>, p: &Vec<char>) -> (r: bool)
    ensures
        r == p@.is_prefix_of(s@),
{
    if p.len() > s.len() {
        return false;
    }
    let r = range_equals(s, 0, p.len(), p);
    assert(r == (s@.subrange(0, p@.len() as int) == p@));
    r
}

/// Whether `p` occurs in `s`.
pub fn contains(s: &Vec<char>, p: &Vec<char>) -> (r: bool)
    ensures
        r == contains_run(s@, p@),
{
    if p.len() > s.len() {
        return false;
    }
    if p.len() == 0 {
        assert(s@.subrange(0, 0 + p@.len() as int) =~= p@);
        return true;
    }
    let mut i: usize = 0;
    while i <= s.len() - p.len()
        invariant
            0 < p@.len() <= s@.len(),
            i <= s@.len() - p@.len() + 1,
            forall|k: int| 0 <= k < i ==> #[trigger] s@.subrange(k, k + p@.len()) != p@,
        decreases s@.len() - p@.len() + 1 - i,
    {
        if range_equals(s, i, i + p.len(), p) {
            return true;
        }
        i = i + 1;
    }
    false
}

/// The decimal representation of `n`.
pub fn decimal(n: u128) -> (r: String)
    ensures
        r@ == decimal_text(n as nat),
    decreases n,
{
    if n < 10 {
        String::from_str(digit(n as u8))
    } else {
        let mut s = decimal(n / 10);
        s.append(digit((n % 10) as u8));
        s
    }
}

fn digit(d: u8) -> (r: &'static str)
    requires
        d < 10,
    ensures
        r@ == digit_text(d as nat),
{
    match d {
        0 => "0",
        1 => "1",
        2 => "2",
        3 => "3",
        4 => "4",
        5 => "5",
        6 => "6",
        7 => "7",
        8 => "8",
        _ => "9",
    }
}

/// Appends `n` copies of `fill` to `out`.
pub fn push_repeat(out: &mut String, fill: &str, n: usize)
    ensures
        final(out)@ == old(out)@ + repeat(fill@, n as nat),
{
    let mut k: usize = 0;
    while k < n
        invariant
            k <= n,
            out@ == old(out)@ + repeat(fill@, k as nat),
        decreases n - k,
    {
        out.append(fill);
        k = k + 1;
        assert(out@ =~= old(out)@ + repeat(fill@, k as nat));
    }
}

/// `s` padded on the left with `fill` to `width` characters.
pub fn padded_left(s: &str, width: usize, fill: &str) -> (r: String)
    ensures
        r@ == pad_left(s@, width as nat, fill@),
{
    let len = s.unicode_len();
    let mut out = String::new();
    if len < width {
        push_repeat(&mut out, fill, width - len);
    }
    out.append(s);
    assert(out@ =~= pad_left(s@, width as nat, fill@));
    out
}

/// `s` centred in `width` characters with `fill`.
pub fn centered(s: &str, width: usize, fill: &str) -> (r: String)
    ensures
        r@ == center(s@, width as nat, fill@),
{
    let len = s.unicode_len();
    let mut out = String::new();
    if len >= width {
        out.append(s);
        assert(out@ =~= s@);
        return out;
    }
    let pad = width - len;
    push_repeat(&mut out, fill, pad / 2);
    out.append(s);
    push_repeat(&mut out, fill, pad - pad / 2);
    assert(pad - pad / 2 == (pad + 1) / 2);
    assert(out@ =~= center(s@, width as nat, fill@));
    out
}

} // verus!

verus! {

/// Relies on `String::push`: appends the character at the end.
#[verifier::external_body]
pub(crate) fn push_char(s: &mut String, c: char)
    ensures
        final(s)@ == old(s)@.push(c),
{
    s.push(c)
}

} // verus!
