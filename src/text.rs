//! Text helpers: characters of a string, appending, decimal numerals, and
//! the UTF-8 width of text.
use vstd::prelude::*;
use vstd::std_specs::iter::IteratorSpec;

verus! {

broadcast use vstd::string::group_string_axioms;

/// The characters of `s`, in order.
pub fn chars_of(s: &str) -> (r: Vec<char>)
    ensures
        r@ == s@,
{
    let mut out: Vec<char> = Vec::new();
    let mut it = s.chars();
    loop
        invariant
            out@ + it.remaining() == s@,
            it.decrease() is Some,
        ensures
            out@ == s@,
        decreases it.decrease()->0,
    {
        match it.next() {
            Some(c) => {
                out.push(c);
            },
            None => {
                assert(out@ =~= s@);
                break;
            },
        }
    }
    out
}

/// Relies on `String::push`: appends one character.
#[verifier::external_body]
fn push_char(s: &mut String, c: char)
    ensures
        final(s)@ == old(s)@.push(c),
{
    s.push(c);
}

/// The text decoded from `bytes`, each invalid sequence replaced by U+FFFD;
/// it depends on the bytes alone.
pub uninterp spec fn lossy_utf8(bytes: Seq<u8>) -> Seq<char>;

/// Relies on `String::from_utf8_lossy`: decodes UTF-8, replacing each
/// invalid sequence with U+FFFD.
#[verifier::external_body]
fn decode_lossy(bytes: &[u8]) -> (r: String)
    ensures
        r@ == lossy_utf8(bytes@),
{
    String::from_utf8_lossy(bytes).into_owned()
}

/// The characters that `bytes` decode to, invalid sequences replaced.
pub fn decode_chars(bytes: &[u8]) -> (r: Vec<char>)
    ensures
        r@ == lossy_utf8(bytes@),
{
    let s = decode_lossy(bytes);
    chars_of(s.as_str())
}

/// A string holding exactly `chars`.
pub fn string_from_chars(chars: &[char]) -> (r: String)
    ensures
        r@ == chars@,
{
    let mut s = String::new();
    let mut i: usize = 0;
    while i < chars.len()
        invariant
            i <= chars@.len(),
            s@ == chars@.subrange(0, i as int),
        decreases chars@.len() - i,
    {
        push_char(&mut s, chars[i]);
        assert(s@ =~= chars@.subrange(0, i + 1));
        i = i + 1;
    }
    assert(s@ =~= chars@);
    s
}

/// The decimal digit for `d`.
pub open spec fn digit(d: nat) -> char {
    if d == 0 { '0' }
    else if d == 1 { '1' }
    else if d == 2 { '2' }
    else if d == 3 { '3' }
    else if d == 4 { '4' }
    else if d == 5 { '5' }
    else if d == 6 { '6' }
    else if d == 7 { '7' }
    else if d == 8 { '8' }
    else { '9' }
}

/// The decimal numeral of `n`, without leading zeros.
pub open spec fn decimal(n: nat) -> Seq<char>
    decreases n,
{
    if n < 10 {
        seq![digit(n)]
    } else {
        decimal(n / 10).push(digit(n % 10))
    }
}

fn digit_char(d: usize) -> (c: char)
    requires
        d < 10,
    ensures
        c == digit(d as nat),
{
    if d == 0 { '0' }
    else if d == 1 { '1' }
    else if d == 2 { '2' }
    else if d == 3 { '3' }
    else if d == 4 { '4' }
    else if d == 5 { '5' }
    else if d == 6 { '6' }
    else if d == 7 { '7' }
    else if d == 8 { '8' }
    else { '9' }
}

/// Appends the decimal numeral of `n`.
pub fn push_decimal(out: &mut Vec<char>, n: usize)
    ensures
        final(out)@ == old(out)@ + decimal(n as nat),
    decreases n,
{
    if n >= 10 {
        push_decimal(out, n / 10);
    }
    out.push(digit_char(n % 10));
    assert(final(out)@ =~= old(out)@ + decimal(n as nat));
}

/// Appends every character of `tail`.
pub fn push_all(out: &mut Vec<char>, tail: &[char])
    ensures
        final(out)@ == old(out)@ + tail@,
{
    let mut i: usize = 0;
    while i < tail.len()
        invariant
            i <= tail@.len(),
            out@ == old(out)@ + tail@.subrange(0, i as int),
        decreases tail@.len() - i,
    {
        out.push(tail[i]);
        assert(out@ =~= old(out)@ + tail@.subrange(0, i + 1));
        i = i + 1;
    }
    assert(tail@.subrange(0, tail@.len() as int) =~= tail@);
}

/// The number of bytes that UTF-8 takes for `c`.
pub open spec fn utf8_width(c: char) -> nat {
    if (c as u32) < 0x80 {
        1
    } else if (c as u32) < 0x800 {
        2
    } else if (c as u32) < 0x10000 {
        3
    } else {
        4
    }
}

/// The number of bytes that UTF-8 takes for `s`.
pub open spec fn utf8_len(s: Seq<char>) -> nat
    decreases s.len(),
{
    if s.len() == 0 {
        0
    } else {
        utf8_len(s.drop_last()) + utf8_width(s.last())
    }
}

/// The longest prefix of `s` that fits in `max_bytes` bytes of UTF-8.
pub open spec fn truncate_utf8(s: Seq<char>, max_bytes: nat) -> Seq<char> {
    s.subrange(0, fitting_prefix_len(s, max_bytes) as int)
}

/// The number of characters of that longest prefix.
pub open spec fn fitting_prefix_len(s: Seq<char>, max_bytes: nat) -> nat
    decreases s.len(),
{
    if utf8_len(s) <= max_bytes {
        s.len()
    } else {
        fitting_prefix_len(s.drop_last(), max_bytes)
    }
}

fn char_width(c: char) -> (r: usize)
    ensures
        r == utf8_width(c),
{
    let v = c as u32;
    if v < 0x80 {
        1
    } else if v < 0x800 {
        2
    } else if v < 0x10000 {
        3
    } else {
        4
    }
}

proof fn lemma_utf8_len_grows(s: Seq<char>, i: int, j: int)
    requires
        0 <= i <= j <= s.len(),
    ensures
        utf8_len(s.subrange(0, i)) <= utf8_len(s.subrange(0, j)),
    decreases j - i,
{
    if i < j {
        assert(s.subrange(0, j).drop_last() =~= s.subrange(0, j - 1));
        lemma_utf8_len_grows(s, i, j - 1);
    }
}

proof fn lemma_fitting_prefix(s: Seq<char>, max_bytes: nat, n: int)
    requires
        0 <= n <= s.len(),
        utf8_len(s.subrange(0, n)) <= max_bytes,
        n == s.len() || utf8_len(s.subrange(0, n + 1)) > max_bytes,
    ensures
        fitting_prefix_len(s, max_bytes) == n,
    decreases s.len(),
{
    if n < s.len() {
        assert(s.subrange(0, s.len() as int) =~= s);
        lemma_utf8_len_grows(s, n + 1, s.len() as int);
        let t = s.drop_last();
        assert(t.subrange(0, n) =~= s.subrange(0, n));
        if n + 1 <= t.len() {
            assert(t.subrange(0, n + 1) =~= s.subrange(0, n + 1));
        }
        lemma_fitting_prefix(t, max_bytes, n);
    } else {
        assert(s.subrange(0, n) =~= s);
    }
}

/// The longest prefix of `s` that fits in `max_bytes` bytes of UTF-8, cut at
/// a character boundary.
pub fn take_bytes_at_char_boundary(s: &[char], max_bytes: usize) -> (r: Vec<char>)
    ensures
        r@ == truncate_utf8(s@, max_bytes as nat),
{
    let mut used: usize = 0;
    let mut n: usize = 0;
    while n < s.len()
        invariant
            n <= s@.len(),
            used == utf8_len(s@.subrange(0, n as int)),
            used <= max_bytes,
        ensures
            n <= s@.len(),
            used == utf8_len(s@.subrange(0, n as int)),
            used <= max_bytes,
            n == s@.len() || utf8_len(s@.subrange(0, n + 1)) > max_bytes,
        decreases s@.len() - n,
    {
        let w = char_width(s[n]);
        assert(s@.subrange(0, n + 1).drop_last() =~= s@.subrange(0, n as int));
        if w > max_bytes - used {
            break;
        }
        used = used + w;
        n = n + 1;
    }
    proof {
        lemma_fitting_prefix(s@, max_bytes as nat, n as int);
    }
    let mut out: Vec<char> = Vec::new();
    let mut i: usize = 0;
    while i < n
        invariant
            n <= s@.len(),
            i <= n,
            out@ == s@.subrange(0, i as int),
        decreases n - i,
    {
        out.push(s[i]);
        assert(out@ =~= s@.subrange(0, i + 1));
        i = i + 1;
    }
    out
}

} // verus!
