//! Verified string helpers: decimal formatting, equality and ordering of
//! character sequences, and small parsers used by the configuration logic.

use vstd::prelude::*;

verus! {

/// The character for one decimal digit.
pub open spec fn spec_digit(d: int) -> char {
    if d == 0 {
        '0'
    } else if d == 1 {
        '1'
    } else if d == 2 {
        '2'
    } else if d == 3 {
        '3'
    } else if d == 4 {
        '4'
    } else if d == 5 {
        '5'
    } else if d == 6 {
        '6'
    } else if d == 7 {
        '7'
    } else if d == 8 {
        '8'
    } else {
        '9'
    }
}

/// Decimal rendering of a non-negative integer, most significant digit first.
pub open spec fn spec_dec(n: int) -> Seq<char>
    decreases n,
{
    if n < 10 {
        seq![spec_digit(n)]
    } else {
        spec_dec(n / 10).push(spec_digit(n % 10))
    }
}

/// Decimal rendering padded with leading zeros to at least `w` characters.
pub open spec fn spec_dec_pad(n: int, w: int) -> Seq<char>
    decreases w,
{
    if spec_dec(n).len() >= w {
        spec_dec(n)
    } else {
        seq!['0'] + spec_dec_pad(n, w - 1)
    }
}

fn digit_str(d: u64) -> (r: &'static str)
    requires
        d < 10,
    ensures
        r@ == seq![spec_digit(d as int)],
{
    let s: &'static str = match d {
        0 => "0",
        1 => "1",
        2 => "2",
        3 => "3",
        4 => "4",
        5 => "5",
        6 => "6",
        7 => "7",
        8 => "8",
        _ => "9",
    };
    proof {
        reveal_strlit("0");
        reveal_strlit("1");
        reveal_strlit("2");
        reveal_strlit("3");
        reveal_strlit("4");
        reveal_strlit("5");
        reveal_strlit("6");
        reveal_strlit("7");
        reveal_strlit("8");
        reveal_strlit("9");
        assert(s@ =~= seq![spec_digit(d as int)]);
    }
    s
}

/// Render `n` in decimal.
pub fn fmt_u64(n: u64) -> (r: String)
    ensures
        r@ == spec_dec(n as int),
        r@.len() >= 1,
    decreases n,
{
    if n < 10 {
        let s = digit_str(n);
        let mut out = String::new();
        out.append(s);
        proof {
            assert(out@ =~= spec_dec(n as int));
        }
        out
    } else {
        let mut out = fmt_u64(n / 10);
        out.append(digit_str(n % 10));
        proof {
            assert(out@ =~= spec_dec(n as int));
        }
        out
    }
}

proof fn lemma_dec_len1(n: int)
    requires
        0 <= n < 10,
    ensures
        spec_dec(n).len() == 1,
{
}

proof fn lemma_dec_len2(n: int)
    requires
        0 <= n < 100,
    ensures
        1 <= spec_dec(n).len() <= 2,
{
    if n >= 10 {
        lemma_dec_len1(n / 10);
    }
}

proof fn lemma_dec_len3(n: int)
    requires
        0 <= n < 1000,
    ensures
        1 <= spec_dec(n).len() <= 3,
{
    if n >= 10 {
        lemma_dec_len2(n / 10);
    }
}

proof fn lemma_dec_len4(n: int)
    requires
        0 <= n < 10000,
    ensures
        1 <= spec_dec(n).len() <= 4,
{
    if n >= 10 {
        lemma_dec_len3(n / 10);
    }
}

/// Render `n` in decimal, left-padded with zeros to two characters.
pub fn fmt_u64_pad2(n: u64) -> (r: String)
    ensures
        r@ == spec_dec_pad(n as int, 2),
        r@.len() >= 2,
{
    let mut out = String::new();
    if n < 10 {
        out.append("0");
        proof {
            reveal_strlit("0");
        }
    }
    let d = fmt_u64(n);
    out.append(d.as_str());
    proof {
        let nn = n as int;
        if n >= 10 {
            assert(spec_dec(nn).len() >= 2) by {
                assert(spec_dec(nn / 10).len() >= 1);
            }
            assert(spec_dec_pad(nn, 2) == spec_dec(nn));
            assert(out@ =~= spec_dec_pad(nn, 2));
        } else {
            lemma_dec_len1(nn);
            assert(spec_dec_pad(nn, 1) == spec_dec(nn));
            assert(spec_dec_pad(nn, 2) == seq!['0'] + spec_dec(nn));
            assert(out@ =~= spec_dec_pad(nn, 2));
        }
    }
    out
}

/// Render `n` in decimal, left-padded with zeros to four characters.
pub fn fmt_u64_pad4(n: u64) -> (r: String)
    requires
        n <= 99_999,
    ensures
        r@ == spec_dec_pad(n as int, 4),
        r@.len() >= 4,
{
    let mut out = String::new();
    if n < 10 {
        out.append("000");
        proof {
            reveal_strlit("000");
            reveal_strlit("0");
        }
    } else if n < 100 {
        out.append("00");
        proof {
            reveal_strlit("00");
            reveal_strlit("0");
        }
    } else if n < 1000 {
        out.append("0");
        proof {
            reveal_strlit("0");
        }
    }
    let d = fmt_u64(n);
    out.append(d.as_str());
    proof {
        let nn = n as int;
        if nn < 10 {
            lemma_dec_len1(nn);
            assert(spec_dec_pad(nn, 1) == spec_dec(nn));
            assert(spec_dec_pad(nn, 2) == seq!['0'] + spec_dec(nn));
            assert(spec_dec_pad(nn, 3) == seq!['0'] + spec_dec_pad(nn, 2));
            assert(spec_dec_pad(nn, 4) == seq!['0'] + spec_dec_pad(nn, 3));
            assert(out@ =~= spec_dec_pad(nn, 4));
        } else if nn < 100 {
            lemma_dec_len2(nn);
            assert(spec_dec(nn).len() >= 2) by {
                assert(spec_dec(nn / 10).len() >= 1);
            }
            assert(spec_dec_pad(nn, 2) == spec_dec(nn));
            assert(spec_dec_pad(nn, 3) == seq!['0'] + spec_dec(nn));
            assert(spec_dec_pad(nn, 4) == seq!['0'] + spec_dec_pad(nn, 3));
            assert(out@ =~= spec_dec_pad(nn, 4));
        } else if nn < 1000 {
            lemma_dec_len3(nn);
            assert(spec_dec(nn).len() >= 3) by {
                assert(spec_dec(nn / 10 / 10).len() >= 1);
                assert(spec_dec(nn / 10).len() >= 2);
            }
            assert(spec_dec_pad(nn, 3) == spec_dec(nn));
            assert(spec_dec_pad(nn, 4) == seq!['0'] + spec_dec(nn));
            assert(out@ =~= spec_dec_pad(nn, 4));
        } else {
            assert(spec_dec(nn).len() >= 4) by {
                assert(spec_dec(nn / 10 / 10 / 10).len() >= 1);
                assert(spec_dec(nn / 10 / 10).len() >= 2);
                assert(spec_dec(nn / 10).len() >= 3);
            }
            assert(spec_dec_pad(nn, 4) == spec_dec(nn));
            assert(out@ =~= spec_dec_pad(nn, 4));
        }
    }
    out
}

/// Character-for-character equality of two string slices.
pub fn str_eq(a: &str, b: &str) -> (r: bool)
    ensures
        r == (a@ == b@),
{
    let la = a.unicode_len();
    let lb = b.unicode_len();
    if la != lb {
        proof {
            assert(a@ != b@) by {
                if a@ == b@ {
                    assert(a@.len() == b@.len());
                }
            }
        }
        return false;
    }
    let mut i: usize = 0;
    while i < la
        invariant
            i <= la,
            la == a@.len(),
            la == b@.len(),
            forall|j: int| 0 <= j < i ==> a@[j] == b@[j],
        decreases la - i,
    {
        if a.get_char(i) != b.get_char(i) {
            return false;
        }
        i += 1;
    }
    proof {
        assert(a@ =~= b@);
    }
    true
}

/// String equality against a `String`.
pub fn string_eq_str(a: &String, b: &str) -> (r: bool)
    ensures
        r == (a@ == b@),
{
    str_eq(a.as_str(), b)
}

/// A Latin letter mapped to lower case; anything else unchanged.
pub open spec fn spec_lower_char(c: char) -> char {
    if 'A' <= c <= 'Z' {
        ((c as u8) + 32) as char
    } else {
        c
    }
}

/// A Latin letter mapped to upper case; anything else unchanged.
pub open spec fn spec_upper_char(c: char) -> char {
    if 'a' <= c <= 'z' {
        ((c as u8) - 32) as char
    } else {
        c
    }
}

/// The string with every Latin letter mapped to lower case.
pub open spec fn spec_lower(s: Seq<char>) -> Seq<char> {
    s.map_values(|c: char| spec_lower_char(c))
}

/// The lower-case letter for an upper-case Latin letter.
fn lower_letter_str(c: char) -> (r: &'static str)
    requires
        'A' <= c <= 'Z',
    ensures
        r@ == seq![spec_lower_char(c)],
{
    let s: &'static str = match c {
        'A' => "a",
        'B' => "b",
        'C' => "c",
        'D' => "d",
        'E' => "e",
        'F' => "f",
        'G' => "g",
        'H' => "h",
        'I' => "i",
        'J' => "j",
        'K' => "k",
        'L' => "l",
        'M' => "m",
        'N' => "n",
        'O' => "o",
        'P' => "p",
        'Q' => "q",
        'R' => "r",
        'S' => "s",
        'T' => "t",
        'U' => "u",
        'V' => "v",
        'W' => "w",
        'X' => "x",
        'Y' => "y",
        'Z' => "z",
        _ => "a",
    };
    proof {
        reveal_strlit("a");
        reveal_strlit("b");
        reveal_strlit("c");
        reveal_strlit("d");
        reveal_strlit("e");
        reveal_strlit("f");
        reveal_strlit("g");
        reveal_strlit("h");
        reveal_strlit("i");
        reveal_strlit("j");
        reveal_strlit("k");
        reveal_strlit("l");
        reveal_strlit("m");
        reveal_strlit("n");
        reveal_strlit("o");
        reveal_strlit("p");
        reveal_strlit("q");
        reveal_strlit("r");
        reveal_strlit("s");
        reveal_strlit("t");
        reveal_strlit("u");
        reveal_strlit("v");
        reveal_strlit("w");
        reveal_strlit("x");
        reveal_strlit("y");
        reveal_strlit("z");
        assert(s@ =~= seq![spec_lower_char(c)]);
    }
    s
}

/// The upper-case letter for a lower-case Latin letter.
fn upper_letter_str(c: char) -> (r: &'static str)
    requires
        'a' <= c <= 'z',
    ensures
        r@ == seq![spec_upper_char(c)],
{
    let s: &'static str = match c {
        'a' => "A",
        'b' => "B",
        'c' => "C",
        'd' => "D",
        'e' => "E",
        'f' => "F",
        'g' => "G",
        'h' => "H",
        'i' => "I",
        'j' => "J",
        'k' => "K",
        'l' => "L",
        'm' => "M",
        'n' => "N",
        'o' => "O",
        'p' => "P",
        'q' => "Q",
        'r' => "R",
        's' => "S",
        't' => "T",
        'u' => "U",
        'v' => "V",
        'w' => "W",
        'x' => "X",
        'y' => "Y",
        'z' => "Z",
        _ => "A",
    };
    proof {
        reveal_strlit("A");
        reveal_strlit("B");
        reveal_strlit("C");
        reveal_strlit("D");
        reveal_strlit("E");
        reveal_strlit("F");
        reveal_strlit("G");
        reveal_strlit("H");
        reveal_strlit("I");
        reveal_strlit("J");
        reveal_strlit("K");
        reveal_strlit("L");
        reveal_strlit("M");
        reveal_strlit("N");
        reveal_strlit("O");
        reveal_strlit("P");
        reveal_strlit("Q");
        reveal_strlit("R");
        reveal_strlit("S");
        reveal_strlit("T");
        reveal_strlit("U");
        reveal_strlit("V");
        reveal_strlit("W");
        reveal_strlit("X");
        reveal_strlit("Y");
        reveal_strlit("Z");
        assert(s@ =~= seq![spec_upper_char(c)]);
    }
    s
}

/// Map every Latin letter of a string to lower case.
pub fn to_lower(s: &str) -> (r: String)
    ensures
        r@ == spec_lower(s@),
{
    let len = s.unicode_len();
    let mut out = String::new();
    let mut i: usize = 0;
    proof {
        assert(out@ =~= spec_lower(s@.take(0)));
    }
    while i < len
        invariant
            i <= len,
            len == s@.len(),
            out@ == spec_lower(s@.take(i as int)),
        decreases len - i,
    {
        let c = s.get_char(i);
        if 'A' <= c && c <= 'Z' {
            out.append(lower_letter_str(c));
        } else {
            let piece = s.substring_char(i, i + 1);
            proof {
                assert(piece@ =~= seq![s@[i as int]]);
            }
            out.append(piece);
        }
        proof {
            assert(out@ =~= spec_lower(s@.take(i + 1)));
        }
        i += 1;
    }
    proof {
        assert(s@.take(len as int) =~= s@);
    }
    out
}

/// Map a single character to upper case, appended to a string.
pub fn append_upper_char(out: &mut String, s: &str, i: usize)
    requires
        i < s@.len(),
        i < usize::MAX,
    ensures
        final(out)@ == old(out)@ + seq![spec_upper_char(s@[i as int])],
{
    let c = s.get_char(i);
    if 'a' <= c && c <= 'z' {
        out.append(upper_letter_str(c));
    } else {
        let piece = s.substring_char(i, i + 1);
        proof {
            assert(piece@ =~= seq![s@[i as int]]);
        }
        out.append(piece);
    }
}

/// Whether a character counts as blank space when trimming.
pub open spec fn spec_is_space(c: char) -> bool {
    c == ' ' || c == '\t' || c == '\n' || c == '\r'
}

/// The string with leading and trailing blank space removed: the subrange
/// from the first non-space character to the last.
pub open spec fn spec_trim(s: Seq<char>) -> Seq<char>
    decreases s.len(),
{
    if s.len() == 0 {
        s
    } else if spec_is_space(s[0]) {
        spec_trim(s.skip(1))
    } else if spec_is_space(s.last()) {
        spec_trim(s.drop_last())
    } else {
        s
    }
}

fn is_space(c: char) -> (r: bool)
    ensures
        r == spec_is_space(c),
{
    c == ' ' || c == '\t' || c == '\n' || c == '\r'
}

/// Remove leading and trailing blank space.
pub fn trim(s: &str) -> (r: String)
    ensures
        r@ == spec_trim(s@),
{
    let len = s.unicode_len();
    let mut lo: usize = 0;
    proof {
        assert(s@.skip(0) =~= s@);
    }
    while lo < len && is_space(s.get_char(lo))
        invariant
            lo <= len,
            len == s@.len(),
            spec_trim(s@) == spec_trim(s@.skip(lo as int)),
        decreases len - lo,
    {
        proof {
            assert(s@.skip(lo as int)[0] == s@[lo as int]);
            assert(s@.skip(lo as int).skip(1) =~= s@.skip(lo as int + 1));
        }
        lo += 1;
    }
    let mut hi: usize = len;
    proof {
        assert(s@.skip(lo as int).take(len - lo) =~= s@.skip(lo as int));
    }
    while hi > lo && is_space(s.get_char(hi - 1))
        invariant
            lo <= hi <= len,
            len == s@.len(),
            lo < len ==> !spec_is_space(s@[lo as int]),
            spec_trim(s@) == spec_trim(s@.skip(lo as int).take(hi - lo)),
        decreases hi,
    {
        proof {
            let cur = s@.skip(lo as int).take(hi - lo);
            assert(cur.len() == hi - lo);
            if lo < hi {
                assert(cur[0] == s@[lo as int]);
                assert(cur.last() == s@[hi - 1]);
                assert(cur.drop_last() =~= s@.skip(lo as int).take(hi - 1 - lo));
            }
        }
        hi -= 1;
    }
    let out = s.substring_char(lo, hi);
    proof {
        let cur = s@.skip(lo as int).take(hi - lo);
        assert(cur =~= s@.subrange(lo as int, hi as int));
        if lo < hi {
            assert(cur[0] == s@[lo as int]);
            assert(cur.last() == s@[hi - 1]);
            assert(spec_trim(cur) == cur);
        } else {
            assert(cur.len() == 0);
            assert(spec_trim(cur) == cur);
        }
    }
    out.to_owned()
}

} // verus!
