//! Character-level text machinery shared by the identifier and address
//! codecs: digit values, digit texts of small numbers, and splitting on a
//! separator, with the lemmas that read a formatted text back apart.

use vstd::prelude::*;
use vstd::string::*;

verus! {

/// Numeric value of a decimal digit character; -1 when `c` is not one.
pub open spec fn dec_val(c: char) -> int {
    if c == '0' {
        0
    } else if c == '1' {
        1
    } else if c == '2' {
        2
    } else if c == '3' {
        3
    } else if c == '4' {
        4
    } else if c == '5' {
        5
    } else if c == '6' {
        6
    } else if c == '7' {
        7
    } else if c == '8' {
        8
    } else if c == '9' {
        9
    } else {
        -1
    }
}

/// Numeric value of a hexadecimal digit character (either case); -1 when
/// `c` is not one.
pub open spec fn hex_val(c: char) -> int {
    if dec_val(c) >= 0 {
        dec_val(c)
    } else if c == 'a' || c == 'A' {
        10
    } else if c == 'b' || c == 'B' {
        11
    } else if c == 'c' || c == 'C' {
        12
    } else if c == 'd' || c == 'D' {
        13
    } else if c == 'e' || c == 'E' {
        14
    } else if c == 'f' || c == 'F' {
        15
    } else {
        -1
    }
}

/// The lowercase hexadecimal digit character for a value in [0, 16).
pub open spec fn hex_char(d: int) -> char {
    if d == 0 {
        '0'
    } else if d == 1 {
        '1'
    } else if d == 2 {
        '2'
    } else if d == 3 {
        '3'
    } else if d == 4 {
        '4'
    } else if d == 5 {
        '5'
    } else if d == 6 {
        '6'
    } else if d == 7 {
        '7'
    } else if d == 8 {
        '8'
    } else if d == 9 {
        '9'
    } else if d == 10 {
        'a'
    } else if d == 11 {
        'b'
    } else if d == 12 {
        'c'
    } else if d == 13 {
        'd'
    } else if d == 14 {
        'e'
    } else if d == 15 {
        'f'
    } else {
        'x'
    }
}

/// Reading back the digit character of a value yields that value, and the
/// digit characters are distinct from every separator this crate uses.
pub proof fn lemma_hex_char(d: int)
    requires
        0 <= d < 16,
    ensures
        hex_val(hex_char(d)) == d,
        d < 10 ==> dec_val(hex_char(d)) == d,
        d >= 10 ==> dec_val(hex_char(d)) == -1,
        hex_char(d) != '.' && hex_char(d) != ':' && hex_char(d) != '-',
        (hex_char(d) == '0') <==> (d == 0),
{
}

/// `c` occurs nowhere in `s`.
pub open spec fn no_char(s: Seq<char>, c: char) -> bool {
    forall|i: int| 0 <= i < s.len() ==> s[i] != c
}

/// Every character of `s` is a decimal digit.
pub open spec fn all_dec(s: Seq<char>) -> bool {
    forall|i: int| 0 <= i < s.len() ==> dec_val(s[i]) >= 0
}

/// Every character of `s` is a hexadecimal digit.
pub open spec fn all_hex(s: Seq<char>) -> bool {
    forall|i: int| 0 <= i < s.len() ==> hex_val(s[i]) >= 0
}

/// The number denoted by a sequence of decimal digits, most significant
/// first.
pub open spec fn dec_num_val(s: Seq<char>) -> int
    decreases s.len(),
{
    if s.len() == 0 {
        0
    } else {
        dec_num_val(s.drop_last()) * 10 + dec_val(s.last())
    }
}

/// The number denoted by a sequence of hexadecimal digits, most significant
/// first.
pub open spec fn hex_num_val(s: Seq<char>) -> int
    decreases s.len(),
{
    if s.len() == 0 {
        0
    } else {
        hex_num_val(s.drop_last()) * 16 + hex_val(s.last())
    }
}

/// The decimal text of an octet: one to three digits, most significant
/// first, no leading zero.
#[verifier::opaque]
pub open spec fn spec_dec_octet(n: int) -> Seq<char> {
    let q = n / 10;
    if n < 10 {
        seq![hex_char(n)]
    } else if n < 100 {
        seq![hex_char(q), hex_char(n % 10)]
    } else {
        seq![hex_char(q / 10), hex_char(q % 10), hex_char(n % 10)]
    }
}

/// The minimal lowercase hexadecimal text of a 16-bit group: one to four
/// digits, most significant first.
#[verifier::opaque]
pub open spec fn spec_hex_group(g: int) -> Seq<char> {
    let g1 = g / 16;
    let g2 = g1 / 16;
    let g3 = g2 / 16;
    if g1 == 0 {
        seq![hex_char(g)]
    } else if g2 == 0 {
        seq![hex_char(g1), hex_char(g % 16)]
    } else if g3 == 0 {
        seq![hex_char(g2), hex_char(g1 % 16), hex_char(g % 16)]
    } else {
        seq![hex_char(g3), hex_char(g2 % 16), hex_char(g1 % 16), hex_char(g % 16)]
    }
}

/// Split `s` on the separator `sep`. Always yields at least one part; `n`
/// separators yield `n + 1` parts, each free of the separator.
pub open spec fn split_on(s: Seq<char>, sep: char) -> Seq<Seq<char>>
    decreases s.len(),
{
    if s.len() == 0 {
        seq![Seq::<char>::empty()]
    } else if s[0] == sep {
        seq![Seq::<char>::empty()] + split_on(s.subrange(1, s.len() as int), sep)
    } else {
        let rest = split_on(s.subrange(1, s.len() as int), sep);
        seq![seq![s[0]] + rest[0]] + rest.subrange(1, rest.len() as int)
    }
}


pub proof fn lemma_split_len(s: Seq<char>, sep: char)
    ensures
        split_on(s, sep).len() >= 1,
    decreases s.len(),
{
    if s.len() == 0 {
    } else {
        lemma_split_len(s.subrange(1, s.len() as int), sep);
    }
}

/// Splitting a sequence that contains no separator yields that sequence as
/// the single part.
pub proof fn lemma_split_no_sep(s: Seq<char>, sep: char)
    requires
        no_char(s, sep),
    ensures
        split_on(s, sep) == seq![s],
    decreases s.len(),
{
    if s.len() == 0 {
        assert(s =~= Seq::<char>::empty());
        assert(split_on(s, sep) =~= seq![s]);
    } else {
        let t = s.subrange(1, s.len() as int);
        assert(no_char(t, sep));
        lemma_split_no_sep(t, sep);
        lemma_split_len(t, sep);
        assert(seq![s[0]] + t =~= s);
        assert(split_on(s, sep) =~= seq![s]);
    }
}

/// Splitting `a + [sep] + rest` where `a` is separator-free peels off `a` as
/// the first part.
pub proof fn lemma_split_prefix(a: Seq<char>, rest: Seq<char>, sep: char)
    requires
        no_char(a, sep),
    ensures
        split_on(a + seq![sep] + rest, sep) == seq![a] + split_on(rest, sep),
    decreases a.len(),
{
    let s = a + seq![sep] + rest;
    if a.len() == 0 {
        assert(a =~= Seq::<char>::empty());
        assert(s[0] == sep);
        assert(s.subrange(1, s.len() as int) =~= rest);
        assert(split_on(s, sep) =~= seq![a] + split_on(rest, sep));
    } else {
        let a1 = a.subrange(1, a.len() as int);
        assert(no_char(a1, sep));
        assert(s[0] == a[0]);
        assert(s[0] != sep);
        assert(s.subrange(1, s.len() as int) =~= a1 + seq![sep] + rest);
        lemma_split_prefix(a1, rest, sep);
        let inner = split_on(a1 + seq![sep] + rest, sep);
        assert(inner == seq![a1] + split_on(rest, sep));
        assert(inner[0] == a1);
        assert(seq![s[0]] + inner[0] =~= a);
        assert(inner.subrange(1, inner.len() as int) =~= split_on(rest, sep));
        assert(split_on(s, sep) =~= seq![a] + split_on(rest, sep));
    }
}



/// Concatenation preserves the absence of a character.
pub proof fn lemma_no_char_concat(a: Seq<char>, b: Seq<char>, c: char)
    requires
        no_char(a, c),
        no_char(b, c),
    ensures
        no_char(a + b, c),
{
    assert forall|i: int| 0 <= i < (a + b).len() implies (a + b)[i] != c by {
        if i < a.len() {
            assert((a + b)[i] == a[i]);
        } else {
            assert((a + b)[i] == b[i - a.len()]);
        }
    }
}

/// Views of a vector of owned strings.
pub open spec fn views_of(parts: Seq<String>) -> Seq<Seq<char>> {
    parts.map_values(|p: String| p@)
}

/// The lowercase digit character for `d`, as a one-character string slice.
pub fn hex_char_str(d: u8) -> (r: &'static str)
    requires
        d < 16,
    ensures
        r@.len() == 1,
        r@[0] == hex_char(d as int),
{
    proof {
        reveal_strlit("0");
        reveal_strlit("1");
        reveal_strlit("2");
        reveal_strlit("3");
        reveal_strlit("4");
        reveal_strlit("5");
        reveal_strlit("6");
        reveal_strlit("7");
        reveal_strlit("8");
        reveal_strlit("9");
        reveal_strlit("a");
        reveal_strlit("b");
        reveal_strlit("c");
        reveal_strlit("d");
        reveal_strlit("e");
        reveal_strlit("f");
    }
    if d == 0 {
        "0"
    } else if d == 1 {
        "1"
    } else if d == 2 {
        "2"
    } else if d == 3 {
        "3"
    } else if d == 4 {
        "4"
    } else if d == 5 {
        "5"
    } else if d == 6 {
        "6"
    } else if d == 7 {
        "7"
    } else if d == 8 {
        "8"
    } else if d == 9 {
        "9"
    } else if d == 10 {
        "a"
    } else if d == 11 {
        "b"
    } else if d == 12 {
        "c"
    } else if d == 13 {
        "d"
    } else if d == 14 {
        "e"
    } else {
        "f"
    }
}

/// The decimal digit value of `c`, when it has one.
pub fn dec_val_exec(c: char) -> (r: Option<u8>)
    ensures
        r is Some <==> dec_val(c) >= 0,
        r matches Some(v) ==> v as int == dec_val(c),
{
    if c == '0' {
        Some(0)
    } else if c == '1' {
        Some(1)
    } else if c == '2' {
        Some(2)
    } else if c == '3' {
        Some(3)
    } else if c == '4' {
        Some(4)
    } else if c == '5' {
        Some(5)
    } else if c == '6' {
        Some(6)
    } else if c == '7' {
        Some(7)
    } else if c == '8' {
        Some(8)
    } else if c == '9' {
        Some(9)
    } else {
        None
    }
}

/// The hexadecimal digit value of `c`, when it has one.
pub fn hex_val_exec(c: char) -> (r: Option<u8>)
    ensures
        r is Some <==> hex_val(c) >= 0,
        r matches Some(v) ==> v as int == hex_val(c),
{
    let d = dec_val_exec(c);
    if let Some(v) = d {
        Some(v)
    } else if c == 'a' || c == 'A' {
        Some(10)
    } else if c == 'b' || c == 'B' {
        Some(11)
    } else if c == 'c' || c == 'C' {
        Some(12)
    } else if c == 'd' || c == 'D' {
        Some(13)
    } else if c == 'e' || c == 'E' {
        Some(14)
    } else if c == 'f' || c == 'F' {
        Some(15)
    } else {
        None
    }
}

/// Split `s` into the parts separated by `sep`, matching `split_on`.
pub fn split_exec(s: &str, sep: char) -> (parts: Vec<String>)
    ensures
        views_of(parts@) == split_on(s@, sep),
{
    let n = s.unicode_len();
    let mut parts: Vec<String> = Vec::new();
    let mut start: usize = 0;
    let mut i: usize = 0;
    proof {
        assert(s@.subrange(0, n as int) =~= s@);
        assert(views_of(parts@) + split_on(s@, sep) =~= split_on(s@, sep));
    }
    while i < n
        invariant
            n == s@.len(),
            start <= i <= n,
            no_char(s@.subrange(start as int, i as int), sep),
            views_of(parts@) + split_on(s@.subrange(start as int, n as int), sep) == split_on(
                s@,
                sep,
            ),
        decreases n - i,
    {
        let c = s.get_char(i);
        if c == sep {
            let part = s.substring_char(start, i).to_owned();
            proof {
                let pre = s@.subrange(start as int, i as int);
                let post = s@.subrange(i as int + 1, n as int);
                assert(s@.subrange(start as int, n as int) =~= pre + seq![sep] + post);
                lemma_split_prefix(pre, post, sep);
                assert(views_of(parts@.push(part)) =~= views_of(parts@) + seq![part@]);
                assert(views_of(parts@.push(part)) + split_on(post, sep) =~= split_on(s@, sep));
            }
            parts.push(part);
            start = i + 1;
        } else {
            proof {
                assert(s@.subrange(start as int, i as int + 1) =~= s@.subrange(
                    start as int,
                    i as int,
                ).push(s@[i as int]));
            }
        }
        i += 1;
    }
    let last = s.substring_char(start, n).to_owned();
    proof {
        let rem = s@.subrange(start as int, n as int);
        lemma_split_no_sep(rem, sep);
        assert(views_of(parts@.push(last)) =~= views_of(parts@) + seq![last@]);
        assert(views_of(parts@.push(last)) =~= split_on(s@, sep));
    }
    parts.push(last);
    parts
}

} // verus!
