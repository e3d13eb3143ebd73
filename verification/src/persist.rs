//! The text form of the review ledger: the application's sole persisted
//! artifact. Every value is written in a fixed, self-describing layout —
//! numbers as sixteen hex digits, strings length-prefixed, identity bytes as
//! hex pairs — so that decoding is total and the round trip is exact.

use vstd::prelude::*;
use vstd::string::StrSliceExecFns;
use vstd::string::StringExecFns;

use crate::types::rank::sitcon_gdsc;
use crate::types::rank::sitcon_gdsc::{content, expressive, subject};
use crate::types::rank::{GroupMetaDatabase, StandardChoice};
use crate::types::ManuscriptId;

verus! {

/// The hex digit character of `d` (0 through 15).
pub open spec fn hex_char(d: int) -> char {
    if d == 0 {
        '0'
    } else if d == 1 {
        '1'
    } else if d == 2 {
        '2'
    } else if d == 3 {
        '3'
    } else if d == 4 {
        '4'
    } else if d == 5 {
        '5'
    } else if d == 6 {
        '6'
    } else if d == 7 {
        '7'
    } else if d == 8 {
        '8'
    } else if d == 9 {
        '9'
    } else if d == 10 {
        'a'
    } else if d == 11 {
        'b'
    } else if d == 12 {
        'c'
    } else if d == 13 {
        'd'
    } else if d == 14 {
        'e'
    } else {
        'f'
    }
}

/// The value of a hex digit character; 16 marks an invalid digit.
pub open spec fn hex_val(c: char) -> int {
    if c == '0' {
        0
    } else if c == '1' {
        1
    } else if c == '2' {
        2
    } else if c == '3' {
        3
    } else if c == '4' {
        4
    } else if c == '5' {
        5
    } else if c == '6' {
        6
    } else if c == '7' {
        7
    } else if c == '8' {
        8
    } else if c == '9' {
        9
    } else if c == 'a' {
        10
    } else if c == 'b' {
        11
    } else if c == 'c' {
        12
    } else if c == 'd' {
        13
    } else if c == 'e' {
        14
    } else if c == 'f' {
        15
    } else {
        16
    }
}

/// Reading a digit back gives the value it was written from.
proof fn lemma_hex_round(d: int)
    requires
        0 <= d < 16,
    ensures
        hex_val(hex_char(d)) == d,
{
}

/// The `i`-th hex digit (most significant first) of `n` written as sixteen
/// digits.
pub open spec fn nib16(n: u64, i: int) -> int {
    ((n >> (((15 - i) as u64) * 4)) & 0xf) as int
}

/// A number as exactly sixteen hex digits, most significant first.
pub open spec fn enc_num(n: u64) -> Seq<char> {
    Seq::new(16, |i: int| hex_char(nib16(n, i)))
}

/// Read sixteen hex digits at `pos` back into a number.
pub open spec fn parse_num(t: Seq<char>, pos: int) -> Option<(u64, int)> {
    if pos < 0 || pos + 16 > t.len() {
        None
    } else if hex_val(t[pos]) < 16 && hex_val(t[pos + 1]) < 16 && hex_val(t[pos + 2]) < 16
        && hex_val(t[pos + 3]) < 16 && hex_val(t[pos + 4]) < 16 && hex_val(t[pos + 5]) < 16
        && hex_val(t[pos + 6]) < 16 && hex_val(t[pos + 7]) < 16 && hex_val(t[pos + 8]) < 16
        && hex_val(t[pos + 9]) < 16 && hex_val(t[pos + 10]) < 16 && hex_val(t[pos + 11]) < 16
        && hex_val(t[pos + 12]) < 16 && hex_val(t[pos + 13]) < 16 && hex_val(t[pos + 14]) < 16
        && hex_val(t[pos + 15]) < 16 {
        Some(
            (
                ((hex_val(t[pos]) as u64) << 60u64) | ((hex_val(t[pos + 1]) as u64) << 56u64) | (
                (hex_val(t[pos + 2]) as u64) << 52u64) | ((hex_val(t[pos + 3]) as u64) << 48u64)
                    | ((hex_val(t[pos + 4]) as u64) << 44u64) | ((hex_val(
                    t[pos + 5],
                ) as u64) << 40u64) | ((hex_val(t[pos + 6]) as u64) << 36u64) | ((hex_val(
                    t[pos + 7],
                ) as u64) << 32u64) | ((hex_val(t[pos + 8]) as u64) << 28u64) | ((hex_val(
                    t[pos + 9],
                ) as u64) << 24u64) | ((hex_val(t[pos + 10]) as u64) << 20u64) | ((hex_val(
                    t[pos + 11],
                ) as u64) << 16u64) | ((hex_val(t[pos + 12]) as u64) << 12u64) | ((hex_val(
                    t[pos + 13],
                ) as u64) << 8u64) | ((hex_val(t[pos + 14]) as u64) << 4u64) | (hex_val(
                    t[pos + 15],
                ) as u64),
                pos + 16,
            ),
        )
    } else {
        None
    }
}

/// A four-bit slice of a number is below sixteen.
proof fn lemma_nib_bound(n: u64, k: u64)
    ensures
        ((n >> k) & 0xf) < 16,
{
    assert(((n >> k) & 0xf) < 16) by (bit_vector);
}

/// Writing a number and reading it back at the same position is exact, and
/// consumes exactly the sixteen digits, whatever follows them.
pub proof fn lemma_num_round(t: Seq<char>, pos: int, n: u64)
    requires
        0 <= pos,
        pos + 16 <= t.len(),
        t.subrange(pos, pos + 16) == enc_num(n),
    ensures
        parse_num(t, pos) == Some((n, pos + 16)),
{
    let e = t.subrange(pos, pos + 16);
    assert(e == enc_num(n));
    assert(hex_val(t[pos]) == nib16(n, 0)) by {
        assert(e[0] == t[pos]);
        assert(e[0] == hex_char(nib16(n, 0)));
        lemma_nib_bound(n, 60);
        lemma_hex_round(nib16(n, 0));
    }
    assert(hex_val(t[pos + 1]) == nib16(n, 1)) by {
        assert(e[1] == t[pos + 1]);
        assert(e[1] == hex_char(nib16(n, 1)));
        lemma_nib_bound(n, 56);
        lemma_hex_round(nib16(n, 1));
    }
    assert(hex_val(t[pos + 2]) == nib16(n, 2)) by {
        assert(e[2] == t[pos + 2]);
        assert(e[2] == hex_char(nib16(n, 2)));
        lemma_nib_bound(n, 52);
        lemma_hex_round(nib16(n, 2));
    }
    assert(hex_val(t[pos + 3]) == nib16(n, 3)) by {
        assert(e[3] == t[pos + 3]);
        assert(e[3] == hex_char(nib16(n, 3)));
        lemma_nib_bound(n, 48);
        lemma_hex_round(nib16(n, 3));
    }
    assert(hex_val(t[pos + 4]) == nib16(n, 4)) by {
        assert(e[4] == t[pos + 4]);
        assert(e[4] == hex_char(nib16(n, 4)));
        lemma_nib_bound(n, 44);
        lemma_hex_round(nib16(n, 4));
    }
    assert(hex_val(t[pos + 5]) == nib16(n, 5)) by {
        assert(e[5] == t[pos + 5]);
        assert(e[5] == hex_char(nib16(n, 5)));
        lemma_nib_bound(n, 40);
        lemma_hex_round(nib16(n, 5));
    }
    assert(hex_val(t[pos + 6]) == nib16(n, 6)) by {
        assert(e[6] == t[pos + 6]);
        assert(e[6] == hex_char(nib16(n, 6)));
        lemma_nib_bound(n, 36);
        lemma_hex_round(nib16(n, 6));
    }
    assert(hex_val(t[pos + 7]) == nib16(n, 7)) by {
        assert(e[7] == t[pos + 7]);
        assert(e[7] == hex_char(nib16(n, 7)));
        lemma_nib_bound(n, 32);
        lemma_hex_round(nib16(n, 7));
    }
    assert(hex_val(t[pos + 8]) == nib16(n, 8)) by {
        assert(e[8] == t[pos + 8]);
        assert(e[8] == hex_char(nib16(n, 8)));
        lemma_nib_bound(n, 28);
        lemma_hex_round(nib16(n, 8));
    }
    assert(hex_val(t[pos + 9]) == nib16(n, 9)) by {
        assert(e[9] == t[pos + 9]);
        assert(e[9] == hex_char(nib16(n, 9)));
        lemma_nib_bound(n, 24);
        lemma_hex_round(nib16(n, 9));
    }
    assert(hex_val(t[pos + 10]) == nib16(n, 10)) by {
        assert(e[10] == t[pos + 10]);
        assert(e[10] == hex_char(nib16(n, 10)));
        lemma_nib_bound(n, 20);
        lemma_hex_round(nib16(n, 10));
    }
    assert(hex_val(t[pos + 11]) == nib16(n, 11)) by {
        assert(e[11] == t[pos + 11]);
        assert(e[11] == hex_char(nib16(n, 11)));
        lemma_nib_bound(n, 16);
        lemma_hex_round(nib16(n, 11));
    }
    assert(hex_val(t[pos + 12]) == nib16(n, 12)) by {
        assert(e[12] == t[pos + 12]);
        assert(e[12] == hex_char(nib16(n, 12)));
        lemma_nib_bound(n, 12);
        lemma_hex_round(nib16(n, 12));
    }
    assert(hex_val(t[pos + 13]) == nib16(n, 13)) by {
        assert(e[13] == t[pos + 13]);
        assert(e[13] == hex_char(nib16(n, 13)));
        lemma_nib_bound(n, 8);
        lemma_hex_round(nib16(n, 13));
    }
    assert(hex_val(t[pos + 14]) == nib16(n, 14)) by {
        assert(e[14] == t[pos + 14]);
        assert(e[14] == hex_char(nib16(n, 14)));
        lemma_nib_bound(n, 4);
        lemma_hex_round(nib16(n, 14));
    }
    assert(hex_val(t[pos + 15]) == nib16(n, 15)) by {
        assert(e[15] == t[pos + 15]);
        assert(e[15] == hex_char(nib16(n, 15)));
        lemma_nib_bound(n, 0);
        lemma_hex_round(nib16(n, 15));
    }
    lemma_nib_bound(n, 60);
    lemma_nib_bound(n, 56);
    lemma_nib_bound(n, 52);
    lemma_nib_bound(n, 48);
    lemma_nib_bound(n, 44);
    lemma_nib_bound(n, 40);
    lemma_nib_bound(n, 36);
    lemma_nib_bound(n, 32);
    lemma_nib_bound(n, 28);
    lemma_nib_bound(n, 24);
    lemma_nib_bound(n, 20);
    lemma_nib_bound(n, 16);
    lemma_nib_bound(n, 12);
    lemma_nib_bound(n, 8);
    lemma_nib_bound(n, 4);
    lemma_nib_bound(n, 0);
    assert((nib16(n, 0) as u64) == ((n >> 60u64) & 0xf));
    assert((nib16(n, 1) as u64) == ((n >> 56u64) & 0xf));
    assert((nib16(n, 2) as u64) == ((n >> 52u64) & 0xf));
    assert((nib16(n, 3) as u64) == ((n >> 48u64) & 0xf));
    assert((nib16(n, 4) as u64) == ((n >> 44u64) & 0xf));
    assert((nib16(n, 5) as u64) == ((n >> 40u64) & 0xf));
    assert((nib16(n, 6) as u64) == ((n >> 36u64) & 0xf));
    assert((nib16(n, 7) as u64) == ((n >> 32u64) & 0xf));
    assert((nib16(n, 8) as u64) == ((n >> 28u64) & 0xf));
    assert((nib16(n, 9) as u64) == ((n >> 24u64) & 0xf));
    assert((nib16(n, 10) as u64) == ((n >> 20u64) & 0xf));
    assert((nib16(n, 11) as u64) == ((n >> 16u64) & 0xf));
    assert((nib16(n, 12) as u64) == ((n >> 12u64) & 0xf));
    assert((nib16(n, 13) as u64) == ((n >> 8u64) & 0xf));
    assert((nib16(n, 14) as u64) == ((n >> 4u64) & 0xf));
    assert((nib16(n, 15) as u64) == ((n >> 0u64) & 0xf));
    assert(n == ((((n >> 60u64) & 0xf) << 60u64) | (((n >> 56u64) & 0xf) << 56u64) | (((n
        >> 52u64) & 0xf) << 52u64) | (((n >> 48u64) & 0xf) << 48u64) | (((n >> 44u64) & 0xf)
        << 44u64) | (((n >> 40u64) & 0xf) << 40u64) | (((n >> 36u64) & 0xf) << 36u64) | (((n
        >> 32u64) & 0xf) << 32u64) | (((n >> 28u64) & 0xf) << 28u64) | (((n >> 24u64) & 0xf)
        << 24u64) | (((n >> 20u64) & 0xf) << 20u64) | (((n >> 16u64) & 0xf) << 16u64) | (((n
        >> 12u64) & 0xf) << 12u64) | (((n >> 8u64) & 0xf) << 8u64) | (((n >> 4u64) & 0xf)
        << 4u64) | ((n >> 0u64) & 0xf))) by (bit_vector);
    assert((((nib16(n, 0) as u64) << 60u64) | ((nib16(n, 1) as u64) << 56u64) | ((nib16(n, 2) as u64) << 52u64) | ((nib16(n, 3) as u64) << 48u64) | ((nib16(n, 4) as u64) << 44u64) | ((nib16(n, 5) as u64) << 40u64) | ((nib16(n, 6) as u64) << 36u64) | ((nib16(n, 7) as u64) << 32u64) | ((nib16(n, 8) as u64) << 28u64) | ((nib16(n, 9) as u64) << 24u64) | ((nib16(n, 10) as u64) << 20u64) | ((nib16(n, 11) as u64) << 16u64) | ((nib16(n, 12) as u64) << 12u64) | ((nib16(n, 13) as u64) << 8u64) | ((nib16(n, 14) as u64) << 4u64) | (nib16(n, 15) as u64)) == n);
}

/// The hex digit `d` as a string slice.
fn hex_str(d: u64) -> (r: &'static str)
    requires
        d < 16,
    ensures
        r@.len() == 1,
        r@[0] == hex_char(d as int),
{
    let r: &'static str = match d {
        0 => "0",
        1 => "1",
        2 => "2",
        3 => "3",
        4 => "4",
        5 => "5",
        6 => "6",
        7 => "7",
        8 => "8",
        9 => "9",
        10 => "a",
        11 => "b",
        12 => "c",
        13 => "d",
        14 => "e",
        _ => "f",
    };
    proof {
        reveal_strlit("0");
        reveal_strlit("1");
        reveal_strlit("2");
        reveal_strlit("3");
        reveal_strlit("4");
        reveal_strlit("5");
        reveal_strlit("6");
        reveal_strlit("7");
        reveal_strlit("8");
        reveal_strlit("9");
        reveal_strlit("a");
        reveal_strlit("b");
        reveal_strlit("c");
        reveal_strlit("d");
        reveal_strlit("e");
        reveal_strlit("f");
    }
    r
}

/// Append a number as sixteen hex digits.
fn push_num(out: &mut String, n: u64)
    ensures
        final(out)@ == old(out)@ + enc_num(n),
{
    let mut i: usize = 0;
    while i < 16
        invariant
            i <= 16,
            out@ =~= old(out)@ + enc_num(n).subrange(0, i as int),
        decreases 16 - i,
    {
        let k: u64 = 60 - 4 * (i as u64);
        proof {
            lemma_nib_bound(n, k);
            assert(hex_char(((n >> k) & 0xf) as int) == enc_num(n)[i as int]);
        }
        out.append(hex_str((n >> k) & 0xf));
        proof {
            assert(out@ =~= old(out)@ + enc_num(n).subrange(0, i as int + 1));
        }
        i += 1;
    }
    proof {
        assert(enc_num(n).subrange(0, 16) =~= enc_num(n));
    }
}

/// Read sixteen hex digits at `pos` back into a number.
fn read_num(s: &str, pos: usize) -> (r: Option<(u64, usize)>)
    requires
        pos <= s@.len(),
    ensures
        match r {
            Some((v, p)) => parse_num(s@, pos as int) == Some((v, p as int)),
            None => parse_num(s@, pos as int) is None,
        },
{
    let n = s.unicode_len();
    if n - pos < 16 {
        return None;
    }
    let h0 = hex_of(s.get_char(pos));
    let h1 = hex_of(s.get_char(pos + 1));
    let h2 = hex_of(s.get_char(pos + 2));
    let h3 = hex_of(s.get_char(pos + 3));
    let h4 = hex_of(s.get_char(pos + 4));
    let h5 = hex_of(s.get_char(pos + 5));
    let h6 = hex_of(s.get_char(pos + 6));
    let h7 = hex_of(s.get_char(pos + 7));
    let h8 = hex_of(s.get_char(pos + 8));
    let h9 = hex_of(s.get_char(pos + 9));
    let h10 = hex_of(s.get_char(pos + 10));
    let h11 = hex_of(s.get_char(pos + 11));
    let h12 = hex_of(s.get_char(pos + 12));
    let h13 = hex_of(s.get_char(pos + 13));
    let h14 = hex_of(s.get_char(pos + 14));
    let h15 = hex_of(s.get_char(pos + 15));
    if h0 >= 16 || h1 >= 16 || h2 >= 16 || h3 >= 16 || h4 >= 16 || h5 >= 16 || h6 >= 16 || h7
        >= 16 || h8 >= 16 || h9 >= 16 || h10 >= 16 || h11 >= 16 || h12 >= 16 || h13 >= 16 || h14
        >= 16 || h15 >= 16 {
        return None;
    }
    let v = (h0 << 60u64) | (h1 << 56u64) | (h2 << 52u64) | (h3 << 48u64) | (h4 << 44u64) | (h5
        << 40u64) | (h6 << 36u64) | (h7 << 32u64) | (h8 << 28u64) | (h9 << 24u64) | (h10
        << 20u64) | (h11 << 16u64) | (h12 << 12u64) | (h13 << 8u64) | (h14 << 4u64) | h15;
    Some((v, pos + 16))
}

/// The value of a hex digit character; 16 marks an invalid digit.
fn hex_of(c: char) -> (r: u64)
    ensures
        r as int == hex_val(c),
{
    match c {
        '0' => 0,
        '1' => 1,
        '2' => 2,
        '3' => 3,
        '4' => 4,
        '5' => 5,
        '6' => 6,
        '7' => 7,
        '8' => 8,
        '9' => 9,
        'a' => 10,
        'b' => 11,
        'c' => 12,
        'd' => 13,
        'e' => 14,
        'f' => 15,
        _ => 16,
    }
}


/// The tag character of a grade.
pub open spec fn choice_char(c: StandardChoice) -> char {
    match c {
        StandardChoice::Full => 'F',
        StandardChoice::Partial => 'P',
        StandardChoice::Maybe => 'M',
        StandardChoice::No => 'N',
    }
}

/// Read a grade tag at `pos` back.
pub open spec fn parse_choice(t: Seq<char>, pos: int) -> Option<(StandardChoice, int)> {
    if pos < 0 || pos >= t.len() {
        None
    } else if t[pos] == 'F' {
        Some((StandardChoice::Full, pos + 1))
    } else if t[pos] == 'P' {
        Some((StandardChoice::Partial, pos + 1))
    } else if t[pos] == 'M' {
        Some((StandardChoice::Maybe, pos + 1))
    } else if t[pos] == 'N' {
        Some((StandardChoice::No, pos + 1))
    } else {
        None
    }
}

proof fn lemma_choice_round(t: Seq<char>, pos: int, c: StandardChoice)
    requires
        0 <= pos,
        pos + 1 <= t.len(),
        t.subrange(pos, pos + 1) == seq![choice_char(c)],
    ensures
        parse_choice(t, pos) == Some((c, pos + 1)),
{
    assert(t[pos] == t.subrange(pos, pos + 1)[0]);
}

/// A string as its character count then its characters.
pub open spec fn enc_str(s: Seq<char>) -> Seq<char> {
    enc_num(s.len() as u64) + s
}

/// Read `n` characters at `pos` back.
pub open spec fn parse_chunk(t: Seq<char>, pos: int, n: int) -> Option<(Seq<char>, int)> {
    if 0 <= pos && 0 <= n && pos + n <= t.len() {
        Some((t.subrange(pos, pos + n), pos + n))
    } else {
        None
    }
}

/// Read a length-prefixed string at `pos` back.
pub open spec fn parse_str(t: Seq<char>, pos: int) -> Option<(Seq<char>, int)> {
    match parse_num(t, pos) {
        Some((n, p)) => parse_chunk(t, p, n as int),
        None => None,
    }
}

/// The text fits the length prefix.
pub open spec fn wf_text(s: Seq<char>) -> bool {
    s.len() < 0x10000000000000000
}

/// Splitting a known concatenation at its seam.
proof fn lemma_split(t: Seq<char>, pos: int, x: Seq<char>, y: Seq<char>)
    requires
        0 <= pos,
        pos + x.len() + y.len() <= t.len(),
        t.subrange(pos, pos + x.len() + y.len()) == x + y,
    ensures
        t.subrange(pos, pos + x.len()) == x,
        t.subrange(pos + x.len(), pos + x.len() + y.len()) == y,
{
    let whole = t.subrange(pos, pos + x.len() + y.len());
    assert forall|i: int| 0 <= i < x.len() implies t.subrange(pos, pos + x.len())[i] == x[i] by {
        assert(whole[i] == (x + y)[i]);
    }
    assert(t.subrange(pos, pos + x.len()) =~= x);
    assert forall|i: int|
        0 <= i < y.len() implies t.subrange(
        pos + x.len(),
        pos + x.len() + y.len(),
    )[i] == y[i] by {
        assert(whole[x.len() + i] == (x + y)[x.len() + i]);
    }
    assert(t.subrange(pos + x.len(), pos + x.len() + y.len()) =~= y);
}

proof fn lemma_str_round(t: Seq<char>, pos: int, s: Seq<char>)
    requires
        0 <= pos,
        wf_text(s),
        pos + 16 + s.len() <= t.len(),
        t.subrange(pos, pos + 16 + s.len()) == enc_str(s),
    ensures
        parse_str(t, pos) == Some((s, pos + 16 + s.len())),
{
    lemma_split(t, pos, enc_num(s.len() as u64), s);
    lemma_num_round(t, pos, s.len() as u64);
}

/// An optional comment: a presence tag, then the text when present.
pub open spec fn enc_opt(o: Option<Seq<char>>) -> Seq<char> {
    match o {
        None => seq!['0'],
        Some(s) => seq!['1'] + enc_str(s),
    }
}

/// Read an optional comment at `pos` back.
pub open spec fn parse_opt(t: Seq<char>, pos: int) -> Option<(Option<Seq<char>>, int)> {
    if pos < 0 || pos >= t.len() {
        None
    } else if t[pos] == '0' {
        Some((None, pos + 1))
    } else if t[pos] == '1' {
        match parse_str(t, pos + 1) {
            Some((s, p)) => Some((Some(s), p)),
            None => None,
        }
    } else {
        None
    }
}

/// The comment, when present, fits its length prefix.
pub open spec fn wf_opt(o: Option<Seq<char>>) -> bool {
    match o {
        Some(s) => wf_text(s),
        None => true,
    }
}

proof fn lemma_opt_round(t: Seq<char>, pos: int, o: Option<Seq<char>>)
    requires
        0 <= pos,
        wf_opt(o),
        pos + enc_opt(o).len() <= t.len(),
        t.subrange(pos, pos + enc_opt(o).len()) == enc_opt(o),
    ensures
        parse_opt(t, pos) == Some((o, pos + enc_opt(o).len())),
{
    match o {
        None => {
            assert(t[pos] == t.subrange(pos, pos + 1)[0]);
        }
        Some(s) => {
            lemma_split(t, pos, seq!['1'], enc_str(s));
            assert(t[pos] == t.subrange(pos, pos + 1)[0]);
            lemma_str_round(t, pos + 1, s);
        }
    }
}

/// A byte sequence as hex digit pairs, high digit first.
pub open spec fn enc_bytes(bs: Seq<u8>) -> Seq<char> {
    Seq::new(
        2 * bs.len(),
        |i: int|
            if i % 2 == 0 {
                hex_char((bs[i / 2] >> 4u8) as int)
            } else {
                hex_char((bs[i / 2] & 0xf) as int)
            },
    )
}

/// Whether the pair of hex digits for byte `i` of a block at `pos` is valid.
pub open spec fn pair_ok(t: Seq<char>, pos: int, i: int) -> bool {
    hex_val(t[pos + 2 * i]) < 16 && hex_val(t[pos + 2 * i + 1]) < 16
}

/// The byte encoded by hex digit pair `i` of a block at `pos`.
pub open spec fn byte_at(t: Seq<char>, pos: int, i: int) -> u8 {
    ((hex_val(t[pos + 2 * i]) as u8) << 4u8) | (hex_val(t[pos + 2 * i + 1]) as u8)
}

/// Read `k` bytes of hex digit pairs at `pos` back.
pub open spec fn parse_hexblock(t: Seq<char>, pos: int, k: int) -> Option<(Seq<u8>, int)> {
    if 0 <= pos && 0 <= k && pos + 2 * k <= t.len() {
        if forall|i: int| 0 <= i < k ==> #[trigger] pair_ok(t, pos, i) {
            Some((Seq::new(k as nat, |i: int| byte_at(t, pos, i)), pos + 2 * k))
        } else {
            None
        }
    } else {
        None
    }
}

/// An identity's bytes: their count, then the hex digit pairs.
pub open spec fn enc_id(bs: Seq<u8>) -> Seq<char> {
    enc_num(bs.len() as u64) + enc_bytes(bs)
}

/// Read a length-prefixed identity at `pos` back.
pub open spec fn parse_id(t: Seq<char>, pos: int) -> Option<(Seq<u8>, int)> {
    match parse_num(t, pos) {
        Some((n, p)) => parse_hexblock(t, p, n as int),
        None => None,
    }
}

/// The identity fits its length prefix.
pub open spec fn wf_id(bs: Seq<u8>) -> bool {
    bs.len() < 0x10000000000000000
}

proof fn lemma_byte_split(b: u8)
    ensures
        (b >> 4u8) < 16,
        (b & 0xf) < 16,
        ((b >> 4u8) << 4u8) | (b & 0xf) == b,
{
    assert((b >> 4u8) < 16 && (b & 0xf) < 16 && (((b >> 4u8) << 4u8) | (b & 0xf)) == b)
        by (bit_vector);
}

proof fn lemma_bytes_round(t: Seq<char>, pos: int, bs: Seq<u8>)
    requires
        0 <= pos,
        pos + 2 * bs.len() <= t.len(),
        t.subrange(pos, pos + 2 * bs.len()) == enc_bytes(bs),
    ensures
        parse_hexblock(t, pos, bs.len() as int) == Some((bs, pos + 2 * bs.len())),
{
    let e = t.subrange(pos, pos + 2 * bs.len());
    assert forall|i: int| 0 <= i < bs.len() implies #[trigger] pair_ok(t, pos, i) by {
        lemma_byte_split(bs[i]);
        assert(t[pos + 2 * i] == e[2 * i]);
        assert(t[pos + 2 * i + 1] == e[2 * i + 1]);
        assert(e[2 * i] == hex_char((bs[i] >> 4u8) as int));
        assert(e[2 * i + 1] == hex_char((bs[i] & 0xf) as int));
        lemma_hex_round((bs[i] >> 4u8) as int);
        lemma_hex_round((bs[i] & 0xf) as int);
    }
    assert forall|i: int| 0 <= i < bs.len() implies #[trigger] byte_at(t, pos, i) == bs[i] by {
        lemma_byte_split(bs[i]);
        assert(t[pos + 2 * i] == e[2 * i]);
        assert(t[pos + 2 * i + 1] == e[2 * i + 1]);
        assert(e[2 * i] == hex_char((bs[i] >> 4u8) as int));
        assert(e[2 * i + 1] == hex_char((bs[i] & 0xf) as int));
        lemma_hex_round((bs[i] >> 4u8) as int);
        lemma_hex_round((bs[i] & 0xf) as int);
    }
    assert(Seq::new(bs.len(), |i: int| byte_at(t, pos, i)) =~= bs);
}

proof fn lemma_id_round(t: Seq<char>, pos: int, bs: Seq<u8>)
    requires
        0 <= pos,
        wf_id(bs),
        pos + 16 + 2 * bs.len() <= t.len(),
        t.subrange(pos, pos + 16 + 2 * bs.len()) == enc_id(bs),
    ensures
        parse_id(t, pos) == Some((bs, pos + 16 + 2 * bs.len())),
{
    lemma_split(t, pos, enc_num(bs.len() as u64), enc_bytes(bs));
    lemma_num_round(t, pos, bs.len() as u64);
    lemma_bytes_round(t, pos + 16, bs);
}

/// Append a grade tag.
fn push_choice(out: &mut String, c: StandardChoice)
    ensures
        final(out)@ == old(out)@ + seq![choice_char(c)],
{
    proof {
        reveal_strlit("F");
        reveal_strlit("P");
        reveal_strlit("M");
        reveal_strlit("N");
    }
    match c {
        StandardChoice::Full => out.append("F"),
        StandardChoice::Partial => out.append("P"),
        StandardChoice::Maybe => out.append("M"),
        StandardChoice::No => out.append("N"),
    }
    proof {
        assert(final(out)@ =~= old(out)@ + seq![choice_char(c)]);
    }
}

/// Read a grade tag at `pos` back.
fn read_choice(s: &str, pos: usize) -> (r: Option<(StandardChoice, usize)>)
    requires
        pos <= s@.len(),
    ensures
        match r {
            Some((c, p)) => parse_choice(s@, pos as int) == Some((c, p as int)) && p <= s@.len(),
            None => parse_choice(s@, pos as int) is None,
        },
{
    if pos == s.unicode_len() {
        return None;
    }
    match s.get_char(pos) {
        'F' => Some((StandardChoice::Full, pos + 1)),
        'P' => Some((StandardChoice::Partial, pos + 1)),
        'M' => Some((StandardChoice::Maybe, pos + 1)),
        'N' => Some((StandardChoice::No, pos + 1)),
        _ => None,
    }
}

/// Append a length-prefixed string.
fn push_str_enc(out: &mut String, s: &str)
    ensures
        final(out)@ == old(out)@ + enc_str(s@),
        wf_text(s@),
{
    let l = s.unicode_len();
    push_num(out, l as u64);
    out.append(s);
    proof {
        assert(final(out)@ =~= old(out)@ + enc_str(s@));
    }
}

/// Read a length-prefixed string at `pos` back.
fn read_str(s: &str, pos: usize) -> (r: Option<(String, usize)>)
    requires
        pos <= s@.len(),
    ensures
        match r {
            Some((v, p)) => parse_str(s@, pos as int) == Some((v@, p as int)) && p <= s@.len(),
            None => parse_str(s@, pos as int) is None,
        },
{
    let (n, p) = match read_num(s, pos) {
        Some(x) => x,
        None => {
            return None;
        }
    };
    let remaining = s.unicode_len() - p;
    if n > remaining as u64 {
        return None;
    }
    let n = n as usize;
    let chunk = s.substring_char(p, p + n);
    Some((chunk.to_owned(), p + n))
}

/// Append an optional comment.
fn push_opt(out: &mut String, o: &Option<String>)
    ensures
        final(out)@ == old(out)@ + enc_opt(o.deep_view()),
        wf_opt(o.deep_view()),
{
    proof {
        reveal_strlit("0");
        reveal_strlit("1");
    }
    match o {
        None => {
            out.append("0");
            proof {
                assert(final(out)@ =~= old(out)@ + enc_opt(o.deep_view()));
            }
        }
        Some(c) => {
            out.append("1");
            push_str_enc(out, c.as_str());
            proof {
                assert(final(out)@ =~= old(out)@ + enc_opt(o.deep_view()));
            }
        }
    }
}

/// Read an optional comment at `pos` back.
fn read_opt(s: &str, pos: usize) -> (r: Option<(Option<String>, usize)>)
    requires
        pos <= s@.len(),
    ensures
        match r {
            Some((o, p)) => parse_opt(s@, pos as int) == Some((o.deep_view(), p as int)) && p
                <= s@.len(),
            None => parse_opt(s@, pos as int) is None,
        },
{
    if pos == s.unicode_len() {
        return None;
    }
    match s.get_char(pos) {
        '0' => Some((None, pos + 1)),
        '1' => {
            match read_str(s, pos + 1) {
                Some((v, p)) => Some((Some(v), p)),
                None => None,
            }
        }
        _ => None,
    }
}

/// Append a byte sequence as hex digit pairs.
fn push_bytes(out: &mut String, bs: &Vec<u8>)
    ensures
        final(out)@ == old(out)@ + enc_bytes(bs@),
{
    let mut i: usize = 0;
    while i < bs.len()
        invariant
            i <= bs@.len(),
            out@ =~= old(out)@ + enc_bytes(bs@).subrange(0, 2 * i as int),
        decreases bs@.len() - i,
    {
        let b = bs[i];
        proof {
            lemma_byte_split(b);
            assert(enc_bytes(bs@)[2 * i as int] == hex_char((b >> 4u8) as int));
            assert(enc_bytes(bs@)[2 * i as int + 1] == hex_char((b & 0xf) as int));
        }
        out.append(hex_str((b >> 4) as u64));
        out.append(hex_str((b & 0xf) as u64));
        proof {
            assert(out@ =~= old(out)@ + enc_bytes(bs@).subrange(0, 2 * (i + 1) as int));
        }
        i += 1;
    }
    proof {
        assert(enc_bytes(bs@).subrange(0, 2 * bs@.len() as int) =~= enc_bytes(bs@));
    }
}

/// Read `k` bytes of hex digit pairs at `pos` back.
fn read_bytes(s: &str, pos: usize, k: usize) -> (r: Option<(Vec<u8>, usize)>)
    requires
        pos <= s@.len(),
    ensures
        match r {
            Some((v, p)) => parse_hexblock(s@, pos as int, k as int) == Some((v@, p as int)) && p
                <= s@.len(),
            None => parse_hexblock(s@, pos as int, k as int) is None,
        },
{
    let n = s.unicode_len();
    if k > (n - pos) / 2 {
        proof {
            assert(parse_hexblock(s@, pos as int, k as int) is None);
        }
        return None;
    }
    let mut v: Vec<u8> = Vec::new();
    let mut i: usize = 0;
    while i < k
        invariant
            i <= k,
            n == s@.len(),
            pos + 2 * k <= n,
            v@.len() == i,
            forall|j: int| 0 <= j < i ==> #[trigger] pair_ok(s@, pos as int, j),
            forall|j: int| 0 <= j < i ==> v@[j] == byte_at(s@, pos as int, j),
        decreases k - i,
    {
        let hi = hex_of(s.get_char(pos + 2 * i));
        let lo = hex_of(s.get_char(pos + 2 * i + 1));
        if hi >= 16 || lo >= 16 {
            proof {
                assert(!pair_ok(s@, pos as int, i as int));
            }
            return None;
        }
        let b: u8 = ((hi as u8) << 4) | (lo as u8);
        proof {
            assert(b == byte_at(s@, pos as int, i as int));
        }
        v.push(b);
        i += 1;
    }
    proof {
        assert(v@ =~= Seq::new(k as nat, |i: int| byte_at(s@, pos as int, i)));
    }
    Some((v, pos + 2 * k))
}


/// The observable content of one rubric item: its grade and its comment.
pub type ItemV = (StandardChoice, Option<Seq<char>>);

/// The observable content of the subject group.
pub type SubjectV = (ItemV, ItemV, ItemV, ItemV, Seq<char>);

/// The observable content of the expressive group.
pub type ExpressiveV = (ItemV, ItemV, ItemV, Seq<char>);

/// The observable content of the content group.
pub type ContentV = (ItemV, ItemV, ItemV, ItemV, ItemV, Seq<char>);

/// The observable content of one rubric instance.
pub type GroupV = (SubjectV, ExpressiveV, ContentV);

/// One ledger entry: the identity bytes and the rubric content under them.
pub type EntryV = (Seq<u8>, GroupV);

/// The observable content of a subject group value.
pub open spec fn subject_view(g: subject::Group) -> SubjectV {
    (
        (g.student_related.choice, g.student_related.comment.deep_view()),
        (g.community_related.choice, g.community_related.comment.deep_view()),
        (g.coding_related.choice, g.coding_related.comment.deep_view()),
        (g.floss_related.choice, g.floss_related.comment.deep_view()),
        g.comment@,
    )
}

/// The observable content of an expressive group value.
pub open spec fn expressive_view(g: expressive::Group) -> ExpressiveV {
    (
        (g.organized.choice, g.organized.comment.deep_view()),
        (g.fluent.choice, g.fluent.comment.deep_view()),
        (g.completeness.choice, g.completeness.comment.deep_view()),
        g.comment@,
    )
}

/// The observable content of a content group value.
pub open spec fn content_view(g: content::Group) -> ContentV {
    (
        (g.knowledges.choice, g.knowledges.comment.deep_view()),
        (g.experiences.choice, g.experiences.comment.deep_view()),
        (g.uniqueness.choice, g.uniqueness.comment.deep_view()),
        (g.structure.choice, g.structure.comment.deep_view()),
        (g.completeness.choice, g.completeness.comment.deep_view()),
        g.comment@,
    )
}

/// The observable content of a rubric instance.
pub open spec fn group_view(g: sitcon_gdsc::Group) -> GroupV {
    (subject_view(g.subject), expressive_view(g.expressive), content_view(g.content))
}

/// The observable content of a ledger entry list, in insertion order.
pub open spec fn ledger_view(s: Seq<(ManuscriptId, sitcon_gdsc::Group)>) -> Seq<EntryV> {
    Seq::new(s.len(), |i: int| (s[i].0@, group_view(s[i].1)))
}

/// One item: its grade tag, then its optional comment.
#[verifier::opaque]
pub open spec fn enc_item(iv: ItemV) -> Seq<char> {
    seq![choice_char(iv.0)] + enc_opt(iv.1)
}

/// Read one item at `pos` back.
#[verifier::opaque]
pub open spec fn parse_item(t: Seq<char>, pos: int) -> Option<(ItemV, int)> {
    match parse_choice(t, pos) {
        Some((c, p)) => match parse_opt(t, p) {
            Some((o, p2)) => Some(((c, o), p2)),
            None => None,
        },
        None => None,
    }
}

pub open spec fn wf_item(iv: ItemV) -> bool {
    wf_opt(iv.1)
}

proof fn lemma_item_round(t: Seq<char>, pos: int, iv: ItemV)
    requires
        0 <= pos,
        wf_item(iv),
        pos + enc_item(iv).len() <= t.len(),
        t.subrange(pos, pos + enc_item(iv).len()) == enc_item(iv),
    ensures
        parse_item(t, pos) == Some((iv, pos + enc_item(iv).len())),
{
    reveal(enc_item);
    reveal(parse_item);
    lemma_split(t, pos, seq![choice_char(iv.0)], enc_opt(iv.1));
    lemma_choice_round(t, pos, iv.0);
    lemma_opt_round(t, pos + 1, iv.1);
}

/// The subject group: its four items in declaration order, then its comment.
#[verifier::opaque]
pub open spec fn enc_subject(sv: SubjectV) -> Seq<char> {
    enc_item(sv.0) + enc_item(sv.1) + enc_item(sv.2) + enc_item(sv.3) + enc_str(sv.4)
}

/// Read a subject group at `pos` back.
#[verifier::opaque]
pub open spec fn parse_subject(t: Seq<char>, pos: int) -> Option<(SubjectV, int)> {
    match parse_item(t, pos) {
        Some((a, p)) => match parse_item(t, p) {
            Some((b, p)) => match parse_item(t, p) {
                Some((c, p)) => match parse_item(t, p) {
                    Some((d, p)) => match parse_str(t, p) {
                        Some((s, p)) => Some(((a, b, c, d, s), p)),
                        None => None,
                    },
                    None => None,
                },
                None => None,
            },
            None => None,
        },
        None => None,
    }
}

pub open spec fn wf_subject(sv: SubjectV) -> bool {
    wf_item(sv.0) && wf_item(sv.1) && wf_item(sv.2) && wf_item(sv.3) && wf_text(sv.4)
}

proof fn lemma_subject_round(t: Seq<char>, pos: int, sv: SubjectV)
    requires
        0 <= pos,
        wf_subject(sv),
        pos + enc_subject(sv).len() <= t.len(),
        t.subrange(pos, pos + enc_subject(sv).len()) == enc_subject(sv),
    ensures
        parse_subject(t, pos) == Some((sv, pos + enc_subject(sv).len())),
{
    reveal(enc_subject);
    reveal(parse_subject);
    let a = enc_item(sv.0);
    let b = enc_item(sv.1);
    let c = enc_item(sv.2);
    let d = enc_item(sv.3);
    let e = enc_str(sv.4);
    lemma_split(t, pos, a + b + c + d, e);
    lemma_split(t, pos, a + b + c, d);
    lemma_split(t, pos, a + b, c);
    lemma_split(t, pos, a, b);
    lemma_item_round(t, pos, sv.0);
    lemma_item_round(t, pos + a.len(), sv.1);
    lemma_item_round(t, pos + a.len() + b.len(), sv.2);
    lemma_item_round(t, pos + a.len() + b.len() + c.len(), sv.3);
    lemma_str_round(t, pos + a.len() + b.len() + c.len() + d.len(), sv.4);
}

/// The expressive group: its three items in declaration order, then its
/// comment.
#[verifier::opaque]
pub open spec fn enc_expressive(ev: ExpressiveV) -> Seq<char> {
    enc_item(ev.0) + enc_item(ev.1) + enc_item(ev.2) + enc_str(ev.3)
}

/// Read an expressive group at `pos` back.
#[verifier::opaque]
pub open spec fn parse_expressive(t: Seq<char>, pos: int) -> Option<(ExpressiveV, int)> {
    match parse_item(t, pos) {
        Some((a, p)) => match parse_item(t, p) {
            Some((b, p)) => match parse_item(t, p) {
                Some((c, p)) => match parse_str(t, p) {
                    Some((s, p)) => Some(((a, b, c, s), p)),
                    None => None,
                },
                None => None,
            },
            None => None,
        },
        None => None,
    }
}

pub open spec fn wf_expressive(ev: ExpressiveV) -> bool {
    wf_item(ev.0) && wf_item(ev.1) && wf_item(ev.2) && wf_text(ev.3)
}

proof fn lemma_expressive_round(t: Seq<char>, pos: int, ev: ExpressiveV)
    requires
        0 <= pos,
        wf_expressive(ev),
        pos + enc_expressive(ev).len() <= t.len(),
        t.subrange(pos, pos + enc_expressive(ev).len()) == enc_expressive(ev),
    ensures
        parse_expressive(t, pos) == Some((ev, pos + enc_expressive(ev).len())),
{
    reveal(enc_expressive);
    reveal(parse_expressive);
    let a = enc_item(ev.0);
    let b = enc_item(ev.1);
    let c = enc_item(ev.2);
    let e = enc_str(ev.3);
    lemma_split(t, pos, a + b + c, e);
    lemma_split(t, pos, a + b, c);
    lemma_split(t, pos, a, b);
    lemma_item_round(t, pos, ev.0);
    lemma_item_round(t, pos + a.len(), ev.1);
    lemma_item_round(t, pos + a.len() + b.len(), ev.2);
    lemma_str_round(t, pos + a.len() + b.len() + c.len(), ev.3);
}

/// The content group: its five items in declaration order, then its comment.
#[verifier::opaque]
pub open spec fn enc_content(cv: ContentV) -> Seq<char> {
    enc_item(cv.0) + enc_item(cv.1) + enc_item(cv.2) + enc_item(cv.3) + enc_item(cv.4) + enc_str(
        cv.5,
    )
}

/// Read a content group at `pos` back.
#[verifier::opaque]
pub open spec fn parse_content(t: Seq<char>, pos: int) -> Option<(ContentV, int)> {
    match parse_item(t, pos) {
        Some((a, p)) => match parse_item(t, p) {
            Some((b, p)) => match parse_item(t, p) {
                Some((c, p)) => match parse_item(t, p) {
                    Some((d, p)) => match parse_item(t, p) {
                        Some((e, p)) => match parse_str(t, p) {
                            Some((s, p)) => Some(((a, b, c, d, e, s), p)),
                            None => None,
                        },
                        None => None,
                    },
                    None => None,
                },
                None => None,
            },
            None => None,
        },
        None => None,
    }
}

pub open spec fn wf_content(cv: ContentV) -> bool {
    wf_item(cv.0) && wf_item(cv.1) && wf_item(cv.2) && wf_item(cv.3) && wf_item(cv.4) && wf_text(
        cv.5,
    )
}

proof fn lemma_content_round(t: Seq<char>, pos: int, cv: ContentV)
    requires
        0 <= pos,
        wf_content(cv),
        pos + enc_content(cv).len() <= t.len(),
        t.subrange(pos, pos + enc_content(cv).len()) == enc_content(cv),
    ensures
        parse_content(t, pos) == Some((cv, pos + enc_content(cv).len())),
{
    reveal(enc_content);
    reveal(parse_content);
    let a = enc_item(cv.0);
    let b = enc_item(cv.1);
    let c = enc_item(cv.2);
    let d = enc_item(cv.3);
    let e = enc_item(cv.4);
    let f = enc_str(cv.5);
    lemma_split(t, pos, a + b + c + d + e, f);
    lemma_split(t, pos, a + b + c + d, e);
    lemma_split(t, pos, a + b + c, d);
    lemma_split(t, pos, a + b, c);
    lemma_split(t, pos, a, b);
    lemma_item_round(t, pos, cv.0);
    lemma_item_round(t, pos + a.len(), cv.1);
    lemma_item_round(t, pos + a.len() + b.len(), cv.2);
    lemma_item_round(t, pos + a.len() + b.len() + c.len(), cv.3);
    lemma_item_round(t, pos + a.len() + b.len() + c.len() + d.len(), cv.4);
    lemma_str_round(t, pos + a.len() + b.len() + c.len() + d.len() + e.len(), cv.5);
}

/// A rubric instance: its three groups in declaration order.
#[verifier::opaque]
pub open spec fn enc_group(gv: GroupV) -> Seq<char> {
    enc_subject(gv.0) + enc_expressive(gv.1) + enc_content(gv.2)
}

/// Read a rubric instance at `pos` back.
#[verifier::opaque]
pub open spec fn parse_group(t: Seq<char>, pos: int) -> Option<(GroupV, int)> {
    match parse_subject(t, pos) {
        Some((s, p)) => match parse_expressive(t, p) {
            Some((e, p)) => match parse_content(t, p) {
                Some((c, p)) => Some(((s, e, c), p)),
                None => None,
            },
            None => None,
        },
        None => None,
    }
}

pub open spec fn wf_group(gv: GroupV) -> bool {
    wf_subject(gv.0) && wf_expressive(gv.1) && wf_content(gv.2)
}

#[verifier::rlimit(80)]
#[verifier::spinoff_prover]
proof fn lemma_group_round(t: Seq<char>, pos: int, gv: GroupV)
    requires
        0 <= pos,
        wf_group(gv),
        pos + enc_group(gv).len() <= t.len(),
        t.subrange(pos, pos + enc_group(gv).len()) == enc_group(gv),
    ensures
        parse_group(t, pos) == Some((gv, pos + enc_group(gv).len())),
{
    reveal(enc_group);
    reveal(parse_group);
    let a = enc_subject(gv.0);
    let b = enc_expressive(gv.1);
    let c = enc_content(gv.2);
    lemma_split(t, pos, a + b, c);
    lemma_split(t, pos, a, b);
    lemma_subject_round(t, pos, gv.0);
    lemma_expressive_round(t, pos + a.len(), gv.1);
    lemma_content_round(t, pos + a.len() + b.len(), gv.2);
}

/// One ledger entry: the identity, then the rubric content.
#[verifier::opaque]
pub open spec fn enc_entry(ev: EntryV) -> Seq<char> {
    enc_id(ev.0) + enc_group(ev.1)
}

/// Read one ledger entry at `pos` back.
#[verifier::opaque]
pub open spec fn parse_entry(t: Seq<char>, pos: int) -> Option<(EntryV, int)> {
    match parse_id(t, pos) {
        Some((bs, p)) => match parse_group(t, p) {
            Some((gv, p2)) => Some(((bs, gv), p2)),
            None => None,
        },
        None => None,
    }
}

pub open spec fn wf_entry(ev: EntryV) -> bool {
    wf_id(ev.0) && wf_group(ev.1)
}

#[verifier::rlimit(80)]
#[verifier::spinoff_prover]
proof fn lemma_entry_round(t: Seq<char>, pos: int, ev: EntryV)
    requires
        0 <= pos,
        wf_entry(ev),
        pos + enc_entry(ev).len() <= t.len(),
        t.subrange(pos, pos + enc_entry(ev).len()) == enc_entry(ev),
    ensures
        parse_entry(t, pos) == Some((ev, pos + enc_entry(ev).len())),
{
    reveal(enc_entry);
    reveal(parse_entry);
    let a = enc_id(ev.0);
    let b = enc_group(ev.1);
    lemma_split(t, pos, a, b);
    lemma_id_round(t, pos, ev.0);
    lemma_group_round(t, pos + a.len(), ev.1);
}

/// The entries, one after another in insertion order.
pub open spec fn enc_entries(es: Seq<EntryV>) -> Seq<char>
    decreases es.len(),
{
    if es.len() == 0 {
        Seq::empty()
    } else {
        enc_entry(es[0]) + enc_entries(es.drop_first())
    }
}

/// Read `k` entries at `pos` back.
pub open spec fn parse_entries(t: Seq<char>, pos: int, k: nat) -> Option<(Seq<EntryV>, int)>
    decreases k,
{
    if k == 0 {
        Some((Seq::empty(), pos))
    } else {
        match parse_entry(t, pos) {
            Some((ev, p)) => match parse_entries(t, p, (k - 1) as nat) {
                Some((rest, p2)) => Some((seq![ev] + rest, p2)),
                None => None,
            },
            None => None,
        }
    }
}

/// Every entry fits its length prefixes, and there are few enough to count.
pub open spec fn wf_entries(es: Seq<EntryV>) -> bool {
    es.len() < 0x10000000000000000 && forall|i: int|
        0 <= i < es.len() ==> wf_entry(#[trigger] es[i])
}

/// No two entries share an identity.
pub open spec fn unique_ids(es: Seq<EntryV>) -> bool {
    forall|i: int, j: int| 0 <= i < j < es.len() ==> es[i].0 != es[j].0
}

#[verifier::rlimit(100)]
#[verifier::spinoff_prover]
proof fn lemma_entries_round(t: Seq<char>, pos: int, es: Seq<EntryV>)
    requires
        0 <= pos,
        forall|i: int| 0 <= i < es.len() ==> wf_entry(#[trigger] es[i]),
        pos + enc_entries(es).len() <= t.len(),
        t.subrange(pos, pos + enc_entries(es).len()) == enc_entries(es),
    ensures
        parse_entries(t, pos, es.len()) == Some((es, pos + enc_entries(es).len())),
    decreases es.len(),
{
    if es.len() == 0 {
        assert(parse_entries(t, pos, 0) == Some((Seq::<EntryV>::empty(), pos)));
        assert(es =~= Seq::<EntryV>::empty());
    } else {
        let a = enc_entry(es[0]);
        let rest = es.drop_first();
        lemma_split(t, pos, a, enc_entries(rest));
        lemma_entry_round(t, pos, es[0]);
        assert(forall|i: int| 0 <= i < rest.len() ==> wf_entry(#[trigger] rest[i]));
        lemma_entries_round(t, pos + a.len(), rest);
        assert(seq![es[0]] + rest =~= es);
    }
}

/// The whole ledger: the entry count, then the entries; nothing may follow.
pub open spec fn enc_ledger(es: Seq<EntryV>) -> Seq<char> {
    enc_num(es.len() as u64) + enc_entries(es)
}

/// Read a whole ledger text back; the text must hold exactly one ledger.
pub open spec fn parse_ledger(t: Seq<char>) -> Option<Seq<EntryV>> {
    match parse_num(t, 0) {
        Some((k, p)) => match parse_entries(t, p, k as nat) {
            Some((es, p2)) => if p2 == t.len() {
                Some(es)
            } else {
                None
            },
            None => None,
        },
        None => None,
    }
}

/// Writing a ledger and reading the text back reproduces the entries
/// exactly: every identity, every grade and every comment.
pub proof fn lemma_ledger_round(es: Seq<EntryV>)
    requires
        wf_entries(es),
    ensures
        parse_ledger(enc_ledger(es)) == Some(es),
{
    let t = enc_ledger(es);
    assert(t.subrange(0, t.len() as int) =~= t);
    lemma_split(t, 0, enc_num(es.len() as u64), enc_entries(es));
    lemma_num_round(t, 0, es.len() as u64);
    lemma_entries_round(t, 16, es);
}


/// Append the subject group.
#[verifier::rlimit(100)]
#[verifier::spinoff_prover]
fn push_subject(out: &mut String, g: &subject::Group)
    ensures
        final(out)@ == old(out)@ + enc_subject(subject_view(*g)),
        wf_subject(subject_view(*g)),
{
    proof {
        reveal(enc_item);
        reveal(enc_subject);
    }
    let ghost v = subject_view(*g);
    push_choice(out, g.student_related.choice);
    push_opt(out, &g.student_related.comment);
    proof {
        assert(out@ =~= old(out)@ + enc_item(v.0));
    }
    push_choice(out, g.community_related.choice);
    push_opt(out, &g.community_related.comment);
    proof {
        assert(out@ =~= old(out)@ + enc_item(v.0) + enc_item(v.1));
    }
    push_choice(out, g.coding_related.choice);
    push_opt(out, &g.coding_related.comment);
    proof {
        assert(out@ =~= old(out)@ + enc_item(v.0) + enc_item(v.1) + enc_item(v.2));
    }
    push_choice(out, g.floss_related.choice);
    push_opt(out, &g.floss_related.comment);
    proof {
        assert(out@ =~= old(out)@ + enc_item(v.0) + enc_item(v.1) + enc_item(v.2) + enc_item(
            v.3,
        ));
    }
    push_str_enc(out, g.comment.as_str());
    proof {
        assert(final(out)@ =~= old(out)@ + enc_subject(v));
    }
}

/// Append the expressive group.
#[verifier::rlimit(100)]
#[verifier::spinoff_prover]
fn push_expressive(out: &mut String, g: &expressive::Group)
    ensures
        final(out)@ == old(out)@ + enc_expressive(expressive_view(*g)),
        wf_expressive(expressive_view(*g)),
{
    proof {
        reveal(enc_item);
        reveal(enc_expressive);
    }
    let ghost v = expressive_view(*g);
    push_choice(out, g.organized.choice);
    push_opt(out, &g.organized.comment);
    proof {
        assert(out@ =~= old(out)@ + enc_item(v.0));
    }
    push_choice(out, g.fluent.choice);
    push_opt(out, &g.fluent.comment);
    proof {
        assert(out@ =~= old(out)@ + enc_item(v.0) + enc_item(v.1));
    }
    push_choice(out, g.completeness.choice);
    push_opt(out, &g.completeness.comment);
    proof {
        assert(out@ =~= old(out)@ + enc_item(v.0) + enc_item(v.1) + enc_item(v.2));
    }
    push_str_enc(out, g.comment.as_str());
    proof {
        assert(final(out)@ =~= old(out)@ + enc_expressive(v));
    }
}

/// Append the content group.
#[verifier::rlimit(100)]
#[verifier::spinoff_prover]
fn push_content(out: &mut String, g: &content::Group)
    ensures
        final(out)@ == old(out)@ + enc_content(content_view(*g)),
        wf_content(content_view(*g)),
{
    proof {
        reveal(enc_item);
        reveal(enc_content);
    }
    let ghost v = content_view(*g);
    push_choice(out, g.knowledges.choice);
    push_opt(out, &g.knowledges.comment);
    proof {
        assert(out@ =~= old(out)@ + enc_item(v.0));
    }
    push_choice(out, g.experiences.choice);
    push_opt(out, &g.experiences.comment);
    proof {
        assert(out@ =~= old(out)@ + enc_item(v.0) + enc_item(v.1));
    }
    push_choice(out, g.uniqueness.choice);
    push_opt(out, &g.uniqueness.comment);
    proof {
        assert(out@ =~= old(out)@ + enc_item(v.0) + enc_item(v.1) + enc_item(v.2));
    }
    push_choice(out, g.structure.choice);
    push_opt(out, &g.structure.comment);
    proof {
        assert(out@ =~= old(out)@ + enc_item(v.0) + enc_item(v.1) + enc_item(v.2) + enc_item(
            v.3,
        ));
    }
    push_choice(out, g.completeness.choice);
    push_opt(out, &g.completeness.comment);
    proof {
        assert(out@ =~= old(out)@ + enc_item(v.0) + enc_item(v.1) + enc_item(v.2) + enc_item(v.3)
            + enc_item(v.4));
    }
    push_str_enc(out, g.comment.as_str());
    proof {
        assert(final(out)@ =~= old(out)@ + enc_content(v));
    }
}

/// Append one rubric instance.
fn push_group(out: &mut String, g: &sitcon_gdsc::Group)
    ensures
        final(out)@ == old(out)@ + enc_group(group_view(*g)),
        wf_group(group_view(*g)),
{
    proof {
        reveal(enc_group);
    }
    let ghost v = group_view(*g);
    push_subject(out, &g.subject);
    proof {
        assert(out@ =~= old(out)@ + enc_subject(v.0));
    }
    push_expressive(out, &g.expressive);
    proof {
        assert(out@ =~= old(out)@ + enc_subject(v.0) + enc_expressive(v.1));
    }
    push_content(out, &g.content);
    proof {
        assert(final(out)@ =~= old(out)@ + enc_group(v));
    }
}

/// Append one identity.
fn push_id(out: &mut String, id: &ManuscriptId)
    ensures
        final(out)@ == old(out)@ + enc_id(id@),
        wf_id(id@),
{
    let l = id.0.len();
    push_num(out, l as u64);
    push_bytes(out, &id.0);
    proof {
        assert(final(out)@ =~= old(out)@ + enc_id(id@));
    }
}

/// Append one ledger entry.
fn push_entry(out: &mut String, id: &ManuscriptId, g: &sitcon_gdsc::Group)
    ensures
        final(out)@ == old(out)@ + enc_entry((id@, group_view(*g))),
        wf_entry((id@, group_view(*g))),
{
    proof {
        reveal(enc_entry);
    }
    push_id(out, id);
    proof {
        assert(out@ =~= old(out)@ + enc_id(id@));
    }
    push_group(out, g);
    proof {
        assert(final(out)@ =~= old(out)@ + enc_entry((id@, group_view(*g))));
    }
}

/// Append the ledger's entries from position `i` on.
fn push_entries(out: &mut String, db: &GroupMetaDatabase<sitcon_gdsc::Group>, i: usize)
    requires
        i <= db.seq_spec().len(),
    ensures
        final(out)@ == old(out)@ + enc_entries(ledger_view(db.seq_spec()).skip(i as int)),
        forall|j: int|
            i <= j < db.seq_spec().len() ==> wf_entry(
                #[trigger] ledger_view(db.seq_spec())[j],
            ),
    decreases db.seq_spec().len() - i,
{
    let n = db.entry_count();
    let ghost v = ledger_view(db.seq_spec());
    if i < n {
        let (id, g) = db.entry_at(i);
        push_entry(out, id, g);
        proof {
            assert(v[i as int] == (id@, group_view(*g)));
        }
        push_entries(out, db, i + 1);
        proof {
            assert(v.skip(i as int).drop_first() =~= v.skip(i as int + 1));
            assert(v.skip(i as int)[0] == v[i as int]);
            assert(final(out)@ =~= old(out)@ + enc_entries(v.skip(i as int)));
            assert forall|j: int|
                i <= j < db.seq_spec().len() implies wf_entry(#[trigger] v[j]) by {
                if j == i {
                    assert(wf_entry(v[i as int]));
                }
            }
        }
    } else {
        proof {
            assert(v.skip(i as int) =~= Seq::<EntryV>::empty());
            assert(final(out)@ =~= old(out)@ + enc_entries(v.skip(i as int)));
        }
    }
}

/// The persisted text of a whole review ledger.
pub fn encode_ledger(db: &GroupMetaDatabase<sitcon_gdsc::Group>) -> (out: String)
    ensures
        out@ == enc_ledger(ledger_view(db.seq_spec())),
        wf_entries(ledger_view(db.seq_spec())),
{
    let mut out = String::new();
    let n = db.entry_count();
    push_num(&mut out, n as u64);
    push_entries(&mut out, db, 0);
    proof {
        let v = ledger_view(db.seq_spec());
        assert(v.skip(0) =~= v);
        assert(out@ =~= enc_ledger(v));
    }
    out
}

/// Read one item at `pos` back.
fn read_item(s: &str, pos: usize) -> (r: Option<((StandardChoice, Option<String>), usize)>)
    requires
        pos <= s@.len(),
    ensures
        match r {
            Some((iv, p)) => parse_item(s@, pos as int) == Some(((iv.0, iv.1.deep_view()), p as int))
                && p <= s@.len(),
            None => parse_item(s@, pos as int) is None,
        },
{
    proof {
        reveal(parse_item);
    }
    let (c, p) = match read_choice(s, pos) {
        Some(x) => x,
        None => {
            return None;
        }
    };
    let (o, p2) = match read_opt(s, p) {
        Some(x) => x,
        None => {
            return None;
        }
    };
    Some(((c, o), p2))
}

/// Read a subject group at `pos` back.
fn read_subject(s: &str, pos: usize) -> (r: Option<(subject::Group, usize)>)
    requires
        pos <= s@.len(),
    ensures
        match r {
            Some((g, p)) => parse_subject(s@, pos as int) == Some((subject_view(g), p as int)) && p
                <= s@.len(),
            None => parse_subject(s@, pos as int) is None,
        },
{
    proof {
        reveal(parse_subject);
    }
    let (i0, p) = match read_item(s, pos) {
        Some(x) => x,
        None => {
            return None;
        }
    };
    let (i1, p) = match read_item(s, p) {
        Some(x) => x,
        None => {
            return None;
        }
    };
    let (i2, p) = match read_item(s, p) {
        Some(x) => x,
        None => {
            return None;
        }
    };
    let (i3, p) = match read_item(s, p) {
        Some(x) => x,
        None => {
            return None;
        }
    };
    let (cm, p) = match read_str(s, p) {
        Some(x) => x,
        None => {
            return None;
        }
    };
    let g = subject::Group {
        student_related: subject::StudentRelated { comment: i0.1, choice: i0.0 },
        community_related: subject::CommunityRelated { comment: i1.1, choice: i1.0 },
        coding_related: subject::CodingRelated { comment: i2.1, choice: i2.0 },
        floss_related: subject::FlossRelated { comment: i3.1, choice: i3.0 },
        comment: cm,
    };
    Some((g, p))
}

/// Read an expressive group at `pos` back.
fn read_expressive(s: &str, pos: usize) -> (r: Option<(expressive::Group, usize)>)
    requires
        pos <= s@.len(),
    ensures
        match r {
            Some((g, p)) => parse_expressive(s@, pos as int) == Some(
                (expressive_view(g), p as int),
            ) && p <= s@.len(),
            None => parse_expressive(s@, pos as int) is None,
        },
{
    proof {
        reveal(parse_expressive);
    }
    let (i0, p) = match read_item(s, pos) {
        Some(x) => x,
        None => {
            return None;
        }
    };
    let (i1, p) = match read_item(s, p) {
        Some(x) => x,
        None => {
            return None;
        }
    };
    let (i2, p) = match read_item(s, p) {
        Some(x) => x,
        None => {
            return None;
        }
    };
    let (cm, p) = match read_str(s, p) {
        Some(x) => x,
        None => {
            return None;
        }
    };
    let g = expressive::Group {
        organized: expressive::Organized { comment: i0.1, choice: i0.0 },
        fluent: expressive::Fluent { comment: i1.1, choice: i1.0 },
        completeness: expressive::Completeness { comment: i2.1, choice: i2.0 },
        comment: cm,
    };
    Some((g, p))
}

/// Read a content group at `pos` back.
fn read_content(s: &str, pos: usize) -> (r: Option<(content::Group, usize)>)
    requires
        pos <= s@.len(),
    ensures
        match r {
            Some((g, p)) => parse_content(s@, pos as int) == Some((content_view(g), p as int)) && p
                <= s@.len(),
            None => parse_content(s@, pos as int) is None,
        },
{
    proof {
        reveal(parse_content);
    }
    let (i0, p) = match read_item(s, pos) {
        Some(x) => x,
        None => {
            return None;
        }
    };
    let (i1, p) = match read_item(s, p) {
        Some(x) => x,
        None => {
            return None;
        }
    };
    let (i2, p) = match read_item(s, p) {
        Some(x) => x,
        None => {
            return None;
        }
    };
    let (i3, p) = match read_item(s, p) {
        Some(x) => x,
        None => {
            return None;
        }
    };
    let (i4, p) = match read_item(s, p) {
        Some(x) => x,
        None => {
            return None;
        }
    };
    let (cm, p) = match read_str(s, p) {
        Some(x) => x,
        None => {
            return None;
        }
    };
    let g = content::Group {
        knowledges: content::Knowledges { comment: i0.1, choice: i0.0 },
        experiences: content::Experiences { comment: i1.1, choice: i1.0 },
        uniqueness: content::Uniqueness { comment: i2.1, choice: i2.0 },
        structure: content::Structure { comment: i3.1, choice: i3.0 },
        completeness: content::Completeness { comment: i4.1, choice: i4.0 },
        comment: cm,
    };
    Some((g, p))
}

/// Read one rubric instance at `pos` back.
fn read_group(s: &str, pos: usize) -> (r: Option<(sitcon_gdsc::Group, usize)>)
    requires
        pos <= s@.len(),
    ensures
        match r {
            Some((g, p)) => parse_group(s@, pos as int) == Some((group_view(g), p as int)) && p
                <= s@.len(),
            None => parse_group(s@, pos as int) is None,
        },
{
    proof {
        reveal(parse_group);
    }
    let (sg, p) = match read_subject(s, pos) {
        Some(x) => x,
        None => {
            return None;
        }
    };
    let (eg, p) = match read_expressive(s, p) {
        Some(x) => x,
        None => {
            return None;
        }
    };
    let (cg, p) = match read_content(s, p) {
        Some(x) => x,
        None => {
            return None;
        }
    };
    Some((sitcon_gdsc::Group { subject: sg, expressive: eg, content: cg }, p))
}

/// Read one identity at `pos` back.
fn read_id(s: &str, pos: usize) -> (r: Option<(ManuscriptId, usize)>)
    requires
        pos <= s@.len(),
    ensures
        match r {
            Some((id, p)) => parse_id(s@, pos as int) == Some((id@, p as int)) && p <= s@.len(),
            None => parse_id(s@, pos as int) is None,
        },
{
    let (n, p) = match read_num(s, pos) {
        Some(x) => x,
        None => {
            return None;
        }
    };
    let len = s.unicode_len();
    let remaining = len - p;
    if n > (remaining / 2) as u64 {
        proof {
            assert(parse_hexblock(s@, p as int, n as int) is None);
        }
        return None;
    }
    let k = n as usize;
    let (bytes, p2) = match read_bytes(s, p, k) {
        Some(x) => x,
        None => {
            return None;
        }
    };
    Some((ManuscriptId(bytes), p2))
}

/// Read one ledger entry at `pos` back.
fn read_entry(s: &str, pos: usize) -> (r: Option<((ManuscriptId, sitcon_gdsc::Group), usize)>)
    requires
        pos <= s@.len(),
    ensures
        match r {
            Some((e, p)) => parse_entry(s@, pos as int) == Some(((e.0@, group_view(e.1)), p as int))
                && p <= s@.len(),
            None => parse_entry(s@, pos as int) is None,
        },
{
    proof {
        reveal(parse_entry);
    }
    let (id, p) = match read_id(s, pos) {
        Some(x) => x,
        None => {
            return None;
        }
    };
    let (g, p2) = match read_group(s, p) {
        Some(x) => x,
        None => {
            return None;
        }
    };
    Some(((id, g), p2))
}

/// Read `k` ledger entries at `pos` back, in order.
fn read_entries(s: &str, pos: usize, k: u64) -> (r: Option<
    (Vec<(ManuscriptId, sitcon_gdsc::Group)>, usize),
>)
    requires
        pos <= s@.len(),
    ensures
        match r {
            Some((v, p)) => parse_entries(s@, pos as int, k as nat) == Some(
                (ledger_view(v@), p as int),
            ) && p <= s@.len(),
            None => parse_entries(s@, pos as int, k as nat) is None,
        },
    decreases k,
{
    if k == 0 {
        let v: Vec<(ManuscriptId, sitcon_gdsc::Group)> = Vec::new();
        proof {
            assert(ledger_view(v@) =~= Seq::<EntryV>::empty());
        }
        return Some((v, pos));
    }
    let (e, p) = match read_entry(s, pos) {
        Some(x) => x,
        None => {
            return None;
        }
    };
    let (mut v, p2) = match read_entries(s, p, k - 1) {
        Some(x) => x,
        None => {
            return None;
        }
    };
    let ghost ev = (e.0@, group_view(e.1));
    let ghost prev = v@;
    v.insert(0, e);
    proof {
        assert(ledger_view(v@) =~= seq![ev] + ledger_view(prev));
    }
    Some((v, p2))
}

/// Rebuild a review ledger from its persisted text. Nothing when the text is
/// not a whole, well-formed ledger, or when two entries name one identity.
pub fn decode_ledger(s: &str) -> (r: Option<GroupMetaDatabase<sitcon_gdsc::Group>>)
    ensures
        match r {
            Some(db) => {
                &&& db.wf()
                &&& parse_ledger(s@) == Some(ledger_view(db.seq_spec()))
            },
            None => match parse_ledger(s@) {
                Some(es) => !unique_ids(es),
                None => true,
            },
        },
{
    let (k, p) = match read_num(s, 0) {
        Some(x) => x,
        None => {
            return None;
        }
    };
    let (entries, p2) = match read_entries(s, p, k) {
        Some(x) => x,
        None => {
            return None;
        }
    };
    if p2 != s.unicode_len() {
        return None;
    }
    let ghost full = entries@;
    let ghost es = ledger_view(full);
    proof {
        assert(parse_ledger(s@) == Some(es));
    }
    let mut db = GroupMetaDatabase::<sitcon_gdsc::Group>::new();
    let mut rest = entries;
    while rest.len() > 0
        invariant
            db.wf(),
            db.seq_spec().len() + rest@.len() == full.len(),
            db.seq_spec() == full.take(full.len() - rest@.len()),
            rest@ == full.subrange(full.len() - rest@.len(), full.len() as int),
            es == ledger_view(full),
            parse_ledger(s@) == Some(es),
        decreases rest.len(),
    {
        let ghost i = full.len() - rest@.len();
        let e = rest.remove(0);
        proof {
            assert(e == full[i]);
            assert(rest@ =~= full.subrange(i + 1, full.len() as int));
        }
        match db.get(&e.0) {
            Some(_) => {
                proof {
                    db.lemma_view_relation();
                    crate::types::rank::lemma_ledger_contains(db.seq_spec(), e.0@);
                    let j = choose|j: int|
                        0 <= j < db.seq_spec().len() && db.seq_spec()[j].0@ == e.0@;
                    assert(full.take(i)[j] == full[j]);
                    assert(es[j].0 == full[j].0@);
                    assert(es[i].0 == full[i].0@);
                    assert(!unique_ids(es)) by {
                        if unique_ids(es) {
                            assert(es[j].0 != es[i].0);
                        }
                    }
                }
                return None;
            }
            None => {},
        }
        db.insert_new(e.0, e.1);
        proof {
            assert(db.seq_spec() =~= full.take(i + 1));
        }
    }
    proof {
        assert(full.take(full.len() as int) =~= full);
    }
    Some(db)
}

} // verus!
