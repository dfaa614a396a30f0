//! Small verified string utilities shared by the index generators: decimal
//! and hexadecimal rendering, right-trimming, and substring search.

use vstd::prelude::*;

verus! {

/// Relies on std's `String::push`: appends one character at the end.
pub assume_specification[ String::push ](s: &mut String, c: char)
    ensures
        final(s)@ == old(s)@ + seq![c],
;

/// The characters that `trim_end` removes: the Unicode `White_Space` set.
pub open spec fn is_wspace(c: char) -> bool {
    c == '\u{0009}' || c == '\u{000A}' || c == '\u{000B}' || c == '\u{000C}' || c == '\u{000D}'
        || c == '\u{0020}' || c == '\u{0085}' || c == '\u{00A0}' || c == '\u{1680}' || (
    '\u{2000}' <= c && c <= '\u{200A}') || c == '\u{2028}' || c == '\u{2029}' || c == '\u{202F}'
        || c == '\u{205F}' || c == '\u{3000}'
}

pub fn is_wspace_char(c: char) -> (r: bool)
    ensures
        r == is_wspace(c),
{
    c == '\u{0009}' || c == '\u{000A}' || c == '\u{000B}' || c == '\u{000C}' || c == '\u{000D}'
        || c == '\u{0020}' || c == '\u{0085}' || c == '\u{00A0}' || c == '\u{1680}' || (
    '\u{2000}' <= c && c <= '\u{200A}') || c == '\u{2028}' || c == '\u{2029}' || c == '\u{202F}'
        || c == '\u{205F}' || c == '\u{3000}'
}

/// `s` with every trailing white-space character removed.
pub open spec fn trim_end_spec(s: Seq<char>) -> Seq<char>
    decreases s.len(),
{
    if s.len() == 0 {
        s
    } else if is_wspace(s.last()) {
        trim_end_spec(s.drop_last())
    } else {
        s
    }
}

/// Right-trims `s`, as the generated documents require.
pub fn trim_end_str(s: &str) -> (r: String)
    ensures
        r@ == trim_end_spec(s@),
{
    let n: usize = s.unicode_len();
    let mut k: usize = n;
    proof {
        assert(s@.take(n as int) =~= s@);
    }
    while k > 0 && is_wspace_char(s.get_char(k - 1))
        invariant
            0 <= k <= n,
            n == s@.len(),
            trim_end_spec(s@) == trim_end_spec(s@.take(k as int)),
        decreases k,
    {
        proof {
            assert(s@.take(k as int).drop_last() =~= s@.take(k - 1));
        }
        k = k - 1;
    }
    proof {
        assert(trim_end_spec(s@.take(k as int)) == s@.take(k as int));
    }
    let t: &str = s.substring_char(0, k);
    proof {
        assert(t@ =~= s@.take(k as int));
    }
    t.to_owned()
}

/// The decimal digit character for `d`.
pub open spec fn dec_digit(d: int) -> char {
    if d == 0 {
        '0'
    } else if d == 1 {
        '1'
    } else if d == 2 {
        '2'
    } else if d == 3 {
        '3'
    } else if d == 4 {
        '4'
    } else if d == 5 {
        '5'
    } else if d == 6 {
        '6'
    } else if d == 7 {
        '7'
    } else if d == 8 {
        '8'
    } else {
        '9'
    }
}

/// The decimal rendering of `n`, without leading zeroes (except for `0`).
pub open spec fn dec_str(n: nat) -> Seq<char>
    decreases n,
{
    if n < 10 {
        seq![dec_digit(n as int)]
    } else {
        dec_str(n / 10) + seq![dec_digit((n % 10) as int)]
    }
}

fn dec_digit_char(d: u64) -> (r: char)
    requires
        d < 10,
    ensures
        r == dec_digit(d as int),
{
    if d == 0 {
        '0'
    } else if d == 1 {
        '1'
    } else if d == 2 {
        '2'
    } else if d == 3 {
        '3'
    } else if d == 4 {
        '4'
    } else if d == 5 {
        '5'
    } else if d == 6 {
        '6'
    } else if d == 7 {
        '7'
    } else if d == 8 {
        '8'
    } else {
        '9'
    }
}

/// Renders `n` in decimal.
pub fn u64_to_dec(n: u64) -> (r: String)
    ensures
        r@ == dec_str(n as nat),
    decreases n,
{
    if n < 10 {
        let mut s = String::new();
        s.push(dec_digit_char(n));
        s
    } else {
        let mut s = u64_to_dec(n / 10);
        s.push(dec_digit_char(n % 10));
        s
    }
}

/// Renders a byte count in decimal.
pub fn usize_to_dec(n: usize) -> (r: String)
    ensures
        r@ == dec_str(n as nat),
{
    u64_to_dec(n as u64)
}

/// The lower-case hexadecimal digit character for `d`.
pub open spec fn hex_digit(d: int) -> char {
    if d < 10 {
        dec_digit(d)
    } else if d == 10 {
        'a'
    } else if d == 11 {
        'b'
    } else if d == 12 {
        'c'
    } else if d == 13 {
        'd'
    } else if d == 14 {
        'e'
    } else {
        'f'
    }
}

/// The lower-case hexadecimal rendering of `b`, two digits per byte.
pub open spec fn hex_str(b: Seq<u8>) -> Seq<char>
    decreases b.len(),
{
    if b.len() == 0 {
        Seq::empty()
    } else {
        hex_str(b.drop_last()) + seq![
            hex_digit(b.last() as int / 16),
            hex_digit(b.last() as int % 16),
        ]
    }
}

fn hex_digit_char(d: u8) -> (r: char)
    requires
        d < 16,
    ensures
        r == hex_digit(d as int),
{
    if d < 10 {
        dec_digit_char(d as u64)
    } else if d == 10 {
        'a'
    } else if d == 11 {
        'b'
    } else if d == 12 {
        'c'
    } else if d == 13 {
        'd'
    } else if d == 14 {
        'e'
    } else {
        'f'
    }
}

/// Renders `data` as a lower-case hexadecimal string.
pub fn bytes_to_hex(data: &[u8]) -> (r: String)
    ensures
        r@ == hex_str(data@),
{
    let n: usize = data.len();
    let mut s = String::new();
    let mut i: usize = 0;
    while i < n
        invariant
            0 <= i <= n,
            n == data@.len(),
            s@ == hex_str(data@.take(i as int)),
        decreases n - i,
    {
        let b: u8 = data[i];
        s.push(hex_digit_char(b / 16));
        s.push(hex_digit_char(b % 16));
        proof {
            assert(data@.take(i + 1).drop_last() =~= data@.take(i as int));
            assert(data@.take(i + 1).last() == b);
        }
        i = i + 1;
    }
    proof {
        assert(data@.take(n as int) =~= data@);
    }
    s
}

/// `nee` occurs contiguously somewhere in `hay`.
pub open spec fn contains_seq(hay: Seq<char>, nee: Seq<char>) -> bool {
    exists|i: int|
        0 <= i && i + nee.len() <= hay.len() && #[trigger] hay.subrange(i, i + nee.len() as int)
            == nee
}

pub(crate) fn matches_at(hay: &str, nee: &str, at: usize) -> (r: bool)
    requires
        at + nee@.len() <= hay@.len(),
        hay@.len() <= usize::MAX,
    ensures
        r == (hay@.subrange(at as int, at + nee@.len() as int) == nee@),
{
    let m: usize = nee.unicode_len();
    let mut j: usize = 0;
    while j < m
        invariant
            0 <= j <= m,
            m == nee@.len(),
            at + m <= hay@.len(),
            hay@.len() <= usize::MAX,
            forall|k: int| 0 <= k < j ==> hay@[at + k] == nee@[k],
        decreases m - j,
    {
        if hay.get_char(at + j) != nee.get_char(j) {
            proof {
                assert(hay@.subrange(at as int, at + nee@.len() as int)[j as int] != nee@[j as int]);
            }
            return false;
        }
        j = j + 1;
    }
    proof {
        assert(hay@.subrange(at as int, at + nee@.len() as int) =~= nee@);
    }
    true
}

/// Substring search, the classifier's keyword test.
pub fn contains_str(hay: &str, nee: &str) -> (r: bool)
    ensures
        r == contains_seq(hay@, nee@),
{
    let n: usize = hay.unicode_len();
    let m: usize = nee.unicode_len();
    if m > n {
        proof {
            assert(!contains_seq(hay@, nee@));
        }
        return false;
    }
    if m == 0 {
        proof {
            assert(hay@.subrange(0, 0 + nee@.len() as int) =~= nee@);
        }
        return true;
    }
    let mut i: usize = 0;
    while i <= n - m
        invariant
            0 <= i <= n - m + 1,
            0 < m <= n,
            n == hay@.len(),
            m == nee@.len(),
            forall|k: int|
                0 <= k < i ==> #[trigger] hay@.subrange(k, k + nee@.len() as int) != nee@,
        decreases n - i,
    {
        if matches_at(hay, nee, i) {
            proof {
                assert(contains_seq(hay@, nee@));
            }
            return true;
        }
        i = i + 1;
    }
    proof {
        assert forall|k: int| 0 <= k && k + nee@.len() <= hay@.len() implies #[trigger] hay@.subrange(
            k,
            k + nee@.len() as int,
        ) != nee@ by {
            assert(k < i);
        }
    }
    false
}

} // verus!
