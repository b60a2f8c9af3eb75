//! IP addresses as plain domain values, with their literal text codec.
//!
//! A v4 address is written as four dot-separated decimal octets without
//! leading zeros; a v6 address as eight colon-separated hexadecimal groups
//! in lowercase without leading zeros. The reader accepts these shapes with
//! hexadecimal groups of either case and with leading zeros, and a v6
//! literal may compress one run of zero groups with `::` and may end with
//! an embedded v4 literal standing for the last two groups (as in a mapped
//! address).

use vstd::prelude::*;
use vstd::string::*;

use crate::text::{
    all_dec, all_hex, dec_num_val, dec_val_exec, hex_char, hex_char_str, hex_num_val,
    hex_val_exec, lemma_hex_char, lemma_no_char_concat, lemma_split_no_sep, lemma_split_prefix,
    no_char, spec_dec_octet, spec_hex_group, split_exec, split_on, views_of,
};

verus! {

/// An IP address, held as the plain numeric values the codec reads:
/// four octets for v4, eight 16-bit groups for v6. Every value of this type
/// is a valid address.
#[derive(Clone, Copy, Debug, PartialEq, Eq, Structural)]
pub enum IpAddr {
    V4 { a: u8, b: u8, c: u8, d: u8 },
    V6 { g0: u16, g1: u16, g2: u16, g3: u16, g4: u16, g5: u16, g6: u16, g7: u16 },
}

/// The canonical literal text of a v4 address: dot-separated decimal
/// octets.
#[verifier::opaque]
pub open spec fn spec_format_v4(a: int, b: int, c: int, d: int) -> Seq<char> {
    spec_dec_octet(a) + seq!['.'] + spec_dec_octet(b) + seq!['.'] + spec_dec_octet(c)
        + seq!['.'] + spec_dec_octet(d)
}

/// The canonical literal text of a v6 address: colon-separated lowercase
/// hexadecimal groups.
#[verifier::opaque]
pub open spec fn spec_format_v6(
    g0: int,
    g1: int,
    g2: int,
    g3: int,
    g4: int,
    g5: int,
    g6: int,
    g7: int,
) -> Seq<char> {
    spec_hex_group(g0) + seq![':'] + spec_hex_group(g1) + seq![':'] + spec_hex_group(g2)
        + seq![':'] + spec_hex_group(g3) + seq![':'] + spec_hex_group(g4) + seq![':']
        + spec_hex_group(g5) + seq![':'] + spec_hex_group(g6) + seq![':'] + spec_hex_group(g7)
}

/// The canonical literal text of an address.
pub open spec fn spec_format_ip(ip: IpAddr) -> Seq<char> {
    match ip {
        IpAddr::V4 { a, b, c, d } => spec_format_v4(a as int, b as int, c as int, d as int),
        IpAddr::V6 { g0, g1, g2, g3, g4, g5, g6, g7 } => spec_format_v6(
            g0 as int,
            g1 as int,
            g2 as int,
            g3 as int,
            g4 as int,
            g5 as int,
            g6 as int,
            g7 as int,
        ),
    }
}

/// One decimal octet: one to three digits, no leading zero, value at most
/// 255.
pub open spec fn spec_parse_octet(s: Seq<char>) -> Option<u8> {
    if 1 <= s.len() <= 3 && all_dec(s) && (s.len() == 1 || s[0] != '0') && dec_num_val(s) <= 255 {
        Some(dec_num_val(s) as u8)
    } else {
        None
    }
}

/// One hexadecimal group: one to four digits of either case.
pub open spec fn spec_parse_group(s: Seq<char>) -> Option<u16> {
    if 1 <= s.len() <= 4 && all_hex(s) && hex_num_val(s) <= 65535 {
        Some(hex_num_val(s) as u16)
    } else {
        None
    }
}

/// A v4 literal: four valid octet texts separated by dots.
pub open spec fn spec_parse_v4(s: Seq<char>) -> Option<IpAddr> {
    let parts = split_on(s, '.');
    if parts.len() == 4 {
        match (
            spec_parse_octet(parts[0]),
            spec_parse_octet(parts[1]),
            spec_parse_octet(parts[2]),
            spec_parse_octet(parts[3]),
        ) {
            (Some(a), Some(b), Some(c), Some(d)) => Some(IpAddr::V4 { a, b, c, d }),
            _ => None,
        }
    } else {
        None
    }
}

/// No two adjacent colons occur in `s`.
pub open spec fn no_dcolon(s: Seq<char>) -> bool {
    forall|j: int| 0 <= j < s.len() - 1 ==> !((#[trigger] s[j]) == ':' && s[j + 1] == ':')
}

/// The position of the first `::` in `s`, if any.
pub open spec fn find_dcolon(s: Seq<char>) -> Option<int>
    decreases s.len(),
{
    if s.len() < 2 {
        None
    } else if s[0] == ':' && s[1] == ':' {
        Some(0)
    } else {
        match find_dcolon(s.subrange(1, s.len() as int)) {
            None => None,
            Some(i) => Some(i + 1),
        }
    }
}

/// A sequence without adjacent colons has no `::` to find.
pub proof fn lemma_find_dcolon_none(s: Seq<char>)
    requires
        no_dcolon(s),
    ensures
        find_dcolon(s) == None::<int>,
    decreases s.len(),
{
    if s.len() < 2 {
    } else {
        let t = s.subrange(1, s.len() as int);
        assert(no_dcolon(t));
        lemma_find_dcolon_none(t);
    }
}

/// The first position with two adjacent colons is what `find_dcolon`
/// yields.
pub proof fn lemma_find_dcolon_at(s: Seq<char>, i: int)
    requires
        0 <= i,
        i + 1 < s.len(),
        s[i] == ':' && s[i + 1] == ':',
        forall|j: int| 0 <= j < i ==> !((#[trigger] s[j]) == ':' && s[j + 1] == ':'),
    ensures
        find_dcolon(s) == Some(i),
    decreases i,
{
    if i == 0 {
    } else {
        let t = s.subrange(1, s.len() as int);
        assert(t[i - 1] == ':' && t[i] == ':');
        assert(forall|j: int| 0 <= j < i - 1 ==> !((#[trigger] t[j]) == ':' && t[j + 1] == ':'));
        lemma_find_dcolon_at(t, i - 1);
        assert(!(s[0] == ':' && s[1] == ':'));
    }
}

/// `n` zero groups.
pub open spec fn zero_groups(n: int) -> Seq<u16> {
    Seq::<u16>::new(n as nat, |i: int| 0u16)
}

/// The address made of eight groups.
pub open spec fn v6_of(gs: Seq<u16>) -> IpAddr {
    IpAddr::V6 {
        g0: gs[0],
        g1: gs[1],
        g2: gs[2],
        g3: gs[3],
        g4: gs[4],
        g5: gs[5],
        g6: gs[6],
        g7: gs[7],
    }
}

/// A list of group texts parses when every text is a valid group; the
/// result keeps the order.
pub open spec fn spec_parse_group_list(parts: Seq<Seq<char>>) -> Option<Seq<u16>>
    decreases parts.len(),
{
    if parts.len() == 0 {
        Some(Seq::<u16>::empty())
    } else {
        match spec_parse_group(parts.first()) {
            None => None,
            Some(g) => match spec_parse_group_list(parts.drop_first()) {
                None => None,
                Some(rest) => Some(seq![g] + rest),
            },
        }
    }
}

/// The group texts of one side of a `::`: none when the side is empty,
/// otherwise its colon-separated pieces.
pub open spec fn side_parts(side: Seq<char>) -> Seq<Seq<char>> {
    if side.len() == 0 {
        Seq::<Seq<char>>::empty()
    } else {
        split_on(side, ':')
    }
}

/// The groups of a full v6 literal or of the trailing side of a `::`:
/// every text a valid group, or every text but the last a valid group and
/// the last an embedded v4 literal standing for two groups.
pub open spec fn spec_parse_side(parts: Seq<Seq<char>>) -> Option<Seq<u16>> {
    match spec_parse_group_list(parts) {
        Some(gs) => Some(gs),
        None => if parts.len() >= 1 {
            match (spec_parse_group_list(parts.drop_last()), spec_parse_v4(parts.last())) {
                (Some(gs), Some(IpAddr::V4 { a, b, c, d })) => Some(
                    gs + seq![
                        (a as int * 256 + b as int) as u16,
                        (c as int * 256 + d as int) as u16,
                    ],
                ),
                _ => None,
            }
        } else {
            None
        },
    }
}

/// A v6 literal. Without `::` it is exactly eight groups' worth of valid
/// colon-separated texts. With one `::`, the sides of its first occurrence
/// together leave at least one group for the compressed zero run; any
/// further `::` makes a side invalid. Only the trailing side may end with
/// an embedded v4 literal.
pub open spec fn spec_parse_v6(s: Seq<char>) -> Option<IpAddr> {
    match find_dcolon(s) {
        None => match spec_parse_side(split_on(s, ':')) {
            None => None,
            Some(gs) => if gs.len() == 8 {
                Some(v6_of(gs))
            } else {
                None
            },
        },
        Some(i) => {
            let left = s.subrange(0, i);
            let right = s.subrange(i + 2, s.len() as int);
            match (spec_parse_group_list(side_parts(left)), spec_parse_side(
                side_parts(right),
            )) {
                (Some(hs), Some(ts)) => if hs.len() + ts.len() <= 7 {
                    Some(v6_of(hs + zero_groups(8 - hs.len() - ts.len()) + ts))
                } else {
                    None
                },
                _ => None,
            }
        },
    }
}

/// An IP literal: a v4 literal, or otherwise a v6 literal.
pub open spec fn spec_parse_ip(s: Seq<char>) -> Option<IpAddr> {
    if spec_parse_v4(s) is Some {
        spec_parse_v4(s)
    } else {
        spec_parse_v6(s)
    }
}

/// The decimal text of an octet reads back as that octet: one to three
/// digit characters, no leading zero, free of every separator.
pub proof fn lemma_dec_octet(n: int)
    requires
        0 <= n < 256,
    ensures
        all_dec(spec_dec_octet(n)),
        1 <= spec_dec_octet(n).len() <= 3,
        spec_dec_octet(n).len() > 1 ==> spec_dec_octet(n)[0] != '0',
        dec_num_val(spec_dec_octet(n)) == n,
        no_char(spec_dec_octet(n), '.'),
        no_char(spec_dec_octet(n), ':'),
        spec_parse_octet(spec_dec_octet(n)) == Some(n as u8),
{
    reveal(spec_dec_octet);
    reveal_with_fuel(dec_num_val, 5);
    let s = spec_dec_octet(n);
    let q = n / 10;
    assert(q * 10 + n % 10 == n);
    assert(q / 10 * 10 + q % 10 == q);
    if n < 10 {
        lemma_hex_char(n);
        assert(s.drop_last() =~= Seq::<char>::empty());
        assert(dec_num_val(s) == n);
    } else if n < 100 {
        lemma_hex_char(q);
        lemma_hex_char(n % 10);
        assert(1 <= q < 10);
        assert(s.drop_last() =~= seq![hex_char(q)]);
        assert(s.drop_last().drop_last() =~= Seq::<char>::empty());
        assert(dec_num_val(s) == n);
    } else {
        lemma_hex_char(q / 10);
        lemma_hex_char(q % 10);
        lemma_hex_char(n % 10);
        assert(10 <= q < 26);
        assert(1 <= q / 10 < 3);
        assert(s.drop_last() =~= seq![hex_char(q / 10), hex_char(q % 10)]);
        assert(s.drop_last().drop_last() =~= seq![hex_char(q / 10)]);
        assert(s.drop_last().drop_last().drop_last() =~= Seq::<char>::empty());
        assert(dec_num_val(s) == n);
    }
}

/// The hexadecimal text of a group reads back as that group: one to four
/// digit characters, free of every separator.
pub proof fn lemma_hex_group(g: int)
    requires
        0 <= g < 65536,
    ensures
        all_hex(spec_hex_group(g)),
        1 <= spec_hex_group(g).len() <= 4,
        hex_num_val(spec_hex_group(g)) == g,
        no_char(spec_hex_group(g), ':'),
        no_char(spec_hex_group(g), '.'),
        spec_parse_group(spec_hex_group(g)) == Some(g as u16),
{
    reveal(spec_hex_group);
    reveal_with_fuel(hex_num_val, 6);
    let s = spec_hex_group(g);
    let g1 = g / 16;
    let g2 = g1 / 16;
    let g3 = g2 / 16;
    assert(g1 * 16 + g % 16 == g);
    assert(g2 * 16 + g1 % 16 == g1);
    assert(g3 * 16 + g2 % 16 == g2);
    assert(0 <= g1 < 4096);
    assert(0 <= g2 < 256);
    assert(0 <= g3 < 16);
    if g1 == 0 {
        lemma_hex_char(g);
        assert(s.drop_last() =~= Seq::<char>::empty());
        assert(hex_num_val(s) == g);
    } else if g2 == 0 {
        lemma_hex_char(g1);
        lemma_hex_char(g % 16);
        assert(s.drop_last() =~= seq![hex_char(g1)]);
        assert(s.drop_last().drop_last() =~= Seq::<char>::empty());
        assert(hex_num_val(s) == g);
    } else if g3 == 0 {
        lemma_hex_char(g2);
        lemma_hex_char(g1 % 16);
        lemma_hex_char(g % 16);
        assert(s.drop_last() =~= seq![hex_char(g2), hex_char(g1 % 16)]);
        assert(s.drop_last().drop_last() =~= seq![hex_char(g2)]);
        assert(s.drop_last().drop_last().drop_last() =~= Seq::<char>::empty());
        assert(hex_num_val(s) == g);
    } else {
        lemma_hex_char(g3);
        lemma_hex_char(g2 % 16);
        lemma_hex_char(g1 % 16);
        lemma_hex_char(g % 16);
        assert(s.drop_last() =~= seq![hex_char(g3), hex_char(g2 % 16), hex_char(g1 % 16)]);
        assert(s.drop_last().drop_last() =~= seq![hex_char(g3), hex_char(g2 % 16)]);
        assert(s.drop_last().drop_last().drop_last() =~= seq![hex_char(g3)]);
        assert(s.drop_last().drop_last().drop_last().drop_last() =~= Seq::<char>::empty());
        assert(hex_num_val(s) == g);
    }
}

/// The dot-split of a v4 literal text recovers the four octet texts.
proof fn lemma_v4_split(a: int, b: int, c: int, d: int)
    requires
        0 <= a < 256,
        0 <= b < 256,
        0 <= c < 256,
        0 <= d < 256,
    ensures
        split_on(spec_format_v4(a, b, c, d), '.') == seq![
            spec_dec_octet(a),
            spec_dec_octet(b),
            spec_dec_octet(c),
            spec_dec_octet(d),
        ],
{
    reveal(spec_format_v4);
    let oa = spec_dec_octet(a);
    let ob = spec_dec_octet(b);
    let oc = spec_dec_octet(c);
    let od = spec_dec_octet(d);
    lemma_dec_octet(a);
    lemma_dec_octet(b);
    lemma_dec_octet(c);
    lemma_dec_octet(d);
    let r2 = oc + seq!['.'] + od;
    let r1 = ob + seq!['.'] + r2;
    assert(spec_format_v4(a, b, c, d) =~= oa + seq!['.'] + r1);
    lemma_split_prefix(oa, r1, '.');
    lemma_split_prefix(ob, r2, '.');
    lemma_split_prefix(oc, od, '.');
    lemma_split_no_sep(od, '.');
    assert(split_on(spec_format_v4(a, b, c, d), '.') =~= seq![oa, ob, oc, od]);
}

/// The colon-split of a v6 literal text recovers the eight group texts.
#[verifier::rlimit(60)]
#[verifier::spinoff_prover]
proof fn lemma_v6_split(g0: int, g1: int, g2: int, g3: int, g4: int, g5: int, g6: int, g7: int)
    requires
        0 <= g0 < 65536,
        0 <= g1 < 65536,
        0 <= g2 < 65536,
        0 <= g3 < 65536,
        0 <= g4 < 65536,
        0 <= g5 < 65536,
        0 <= g6 < 65536,
        0 <= g7 < 65536,
    ensures
        split_on(spec_format_v6(g0, g1, g2, g3, g4, g5, g6, g7), ':').len() == 8,
        split_on(spec_format_v6(g0, g1, g2, g3, g4, g5, g6, g7), ':')[0] == spec_hex_group(g0),
        split_on(spec_format_v6(g0, g1, g2, g3, g4, g5, g6, g7), ':')[1] == spec_hex_group(g1),
        split_on(spec_format_v6(g0, g1, g2, g3, g4, g5, g6, g7), ':')[2] == spec_hex_group(g2),
        split_on(spec_format_v6(g0, g1, g2, g3, g4, g5, g6, g7), ':')[3] == spec_hex_group(g3),
        split_on(spec_format_v6(g0, g1, g2, g3, g4, g5, g6, g7), ':')[4] == spec_hex_group(g4),
        split_on(spec_format_v6(g0, g1, g2, g3, g4, g5, g6, g7), ':')[5] == spec_hex_group(g5),
        split_on(spec_format_v6(g0, g1, g2, g3, g4, g5, g6, g7), ':')[6] == spec_hex_group(g6),
        split_on(spec_format_v6(g0, g1, g2, g3, g4, g5, g6, g7), ':')[7] == spec_hex_group(g7),
{
    reveal(spec_format_v6);
    let s0 = spec_hex_group(g0);
    let s1 = spec_hex_group(g1);
    let s2 = spec_hex_group(g2);
    let s3 = spec_hex_group(g3);
    let s4 = spec_hex_group(g4);
    let s5 = spec_hex_group(g5);
    let s6 = spec_hex_group(g6);
    let s7 = spec_hex_group(g7);
    lemma_hex_group(g0);
    lemma_hex_group(g1);
    lemma_hex_group(g2);
    lemma_hex_group(g3);
    lemma_hex_group(g4);
    lemma_hex_group(g5);
    lemma_hex_group(g6);
    lemma_hex_group(g7);
    let r6 = s6 + seq![':'] + s7;
    let r5 = s5 + seq![':'] + r6;
    let r4 = s4 + seq![':'] + r5;
    let r3 = s3 + seq![':'] + r4;
    let r2 = s2 + seq![':'] + r3;
    let r1 = s1 + seq![':'] + r2;
    assert(spec_format_v6(g0, g1, g2, g3, g4, g5, g6, g7) =~= s0 + seq![':'] + r1);
    lemma_split_prefix(s0, r1, ':');
    lemma_split_prefix(s1, r2, ':');
    lemma_split_prefix(s2, r3, ':');
    lemma_split_prefix(s3, r4, ':');
    lemma_split_prefix(s4, r5, ':');
    lemma_split_prefix(s5, r6, ':');
    lemma_split_prefix(s6, s7, ':');
    lemma_split_no_sep(s7, ':');
    let p1 = split_on(r1, ':');
    let p2 = split_on(r2, ':');
    let p3 = split_on(r3, ':');
    let p4 = split_on(r4, ':');
    let p5 = split_on(r5, ':');
    let p6 = split_on(r6, ':');
    assert(p6 == seq![s6] + seq![s7]);
    assert(p6.len() == 2 && p6[0] == s6 && p6[1] == s7);
    assert(p5.len() == 3 && p5[0] == s5 && p5[1] == s6 && p5[2] == s7);
    assert(p4.len() == 4 && p4[0] == s4 && p4[1] == s5 && p4[2] == s6 && p4[3] == s7);
    assert(p3.len() == 5 && p3[0] == s3 && p3[1] == s4 && p3[2] == s5 && p3[3] == s6 && p3[4]
        == s7);
    assert(p2.len() == 6 && p2[0] == s2 && p2[1] == s3 && p2[2] == s4 && p2[3] == s5 && p2[4] == s6
        && p2[5] == s7);
    assert(p1.len() == 7 && p1[0] == s1 && p1[1] == s2 && p1[2] == s3 && p1[3] == s4 && p1[4] == s5
        && p1[5] == s6 && p1[6] == s7);
}

/// A v6 literal text contains no dot.
proof fn lemma_v6_no_dot(g0: int, g1: int, g2: int, g3: int, g4: int, g5: int, g6: int, g7: int)
    requires
        0 <= g0 < 65536,
        0 <= g1 < 65536,
        0 <= g2 < 65536,
        0 <= g3 < 65536,
        0 <= g4 < 65536,
        0 <= g5 < 65536,
        0 <= g6 < 65536,
        0 <= g7 < 65536,
    ensures
        no_char(spec_format_v6(g0, g1, g2, g3, g4, g5, g6, g7), '.'),
{
    reveal(spec_format_v6);
    let s0 = spec_hex_group(g0);
    let s1 = spec_hex_group(g1);
    let s2 = spec_hex_group(g2);
    let s3 = spec_hex_group(g3);
    let s4 = spec_hex_group(g4);
    let s5 = spec_hex_group(g5);
    let s6 = spec_hex_group(g6);
    let s7 = spec_hex_group(g7);
    lemma_hex_group(g0);
    lemma_hex_group(g1);
    lemma_hex_group(g2);
    lemma_hex_group(g3);
    lemma_hex_group(g4);
    lemma_hex_group(g5);
    lemma_hex_group(g6);
    lemma_hex_group(g7);
    let col = seq![':'];
    assert(no_char(col, '.')) by {
        assert(col[0] == ':');
    }
    lemma_no_char_concat(s0, col, '.');
    lemma_no_char_concat(s0 + col, s1, '.');
    lemma_no_char_concat(s0 + col + s1, col, '.');
    lemma_no_char_concat(s0 + col + s1 + col, s2, '.');
    lemma_no_char_concat(s0 + col + s1 + col + s2, col, '.');
    lemma_no_char_concat(s0 + col + s1 + col + s2 + col, s3, '.');
    lemma_no_char_concat(s0 + col + s1 + col + s2 + col + s3, col, '.');
    lemma_no_char_concat(s0 + col + s1 + col + s2 + col + s3 + col, s4, '.');
    lemma_no_char_concat(s0 + col + s1 + col + s2 + col + s3 + col + s4, col, '.');
    lemma_no_char_concat(s0 + col + s1 + col + s2 + col + s3 + col + s4 + col, s5, '.');
    lemma_no_char_concat(s0 + col + s1 + col + s2 + col + s3 + col + s4 + col + s5, col, '.');
    lemma_no_char_concat(s0 + col + s1 + col + s2 + col + s3 + col + s4 + col + s5 + col, s6, '.');
    lemma_no_char_concat(
        s0 + col + s1 + col + s2 + col + s3 + col + s4 + col + s5 + col + s6,
        col,
        '.',
    );
    lemma_no_char_concat(
        s0 + col + s1 + col + s2 + col + s3 + col + s4 + col + s5 + col + s6 + col,
        s7,
        '.',
    );
}

/// A list whose texts are all valid groups parses to their values, in
/// order.
proof fn lemma_parse_group_list_of(parts: Seq<Seq<char>>)
    requires
        forall|i: int| 0 <= i < parts.len() ==> spec_parse_group(#[trigger] parts[i]) is Some,
    ensures
        spec_parse_group_list(parts) == Some(
            Seq::<u16>::new(parts.len(), |i: int| hex_num_val(parts[i]) as u16),
        ),
    decreases parts.len(),
{
    let want = Seq::<u16>::new(parts.len(), |i: int| hex_num_val(parts[i]) as u16);
    if parts.len() == 0 {
        assert(want =~= Seq::<u16>::empty());
    } else {
        let tail = parts.drop_first();
        assert(parts.first() == parts[0]);
        assert(spec_parse_group(parts[0]) is Some);
        assert(forall|i: int| 0 <= i < tail.len() ==> spec_parse_group(#[trigger] tail[i])
            is Some);
        lemma_parse_group_list_of(tail);
        let g = hex_num_val(parts[0]) as u16;
        assert(spec_parse_group(parts.first()) == Some(g));
        assert(seq![g] + Seq::<u16>::new(tail.len(), |i: int| hex_num_val(tail[i]) as u16)
            =~= want);
    }
}

/// Extending a text without adjacent colons by one colon and one nonempty
/// colon-free group keeps it without adjacent colons.
proof fn lemma_no_dcolon_step(t: Seq<char>, g: Seq<char>)
    requires
        no_dcolon(t),
        t.len() >= 1,
        t.last() != ':',
        g.len() >= 1,
        no_char(g, ':'),
    ensures
        no_dcolon(t + seq![':'] + g),
        (t + seq![':'] + g).last() != ':',
        (t + seq![':'] + g).len() >= 1,
{
    let u = t + seq![':'] + g;
    assert(u.last() == g.last());
    assert forall|j: int| 0 <= j < u.len() - 1 implies !((#[trigger] u[j]) == ':' && u[j + 1]
        == ':') by {
        if j < t.len() - 1 {
            assert(u[j] == t[j] && u[j + 1] == t[j + 1]);
        } else if j == t.len() - 1 {
            assert(u[j] == t.last());
        } else if j == t.len() {
            assert(u[j + 1] == g[0]);
        } else {
            assert(u[j] == g[j - t.len() - 1] && u[j + 1] == g[j - t.len()]);
        }
    }
}

/// A v6 literal text has no adjacent colons.
proof fn lemma_v6_no_dcolon(g0: int, g1: int, g2: int, g3: int, g4: int, g5: int, g6: int, g7: int)
    requires
        0 <= g0 < 65536,
        0 <= g1 < 65536,
        0 <= g2 < 65536,
        0 <= g3 < 65536,
        0 <= g4 < 65536,
        0 <= g5 < 65536,
        0 <= g6 < 65536,
        0 <= g7 < 65536,
    ensures
        no_dcolon(spec_format_v6(g0, g1, g2, g3, g4, g5, g6, g7)),
{
    reveal(spec_format_v6);
    let s0 = spec_hex_group(g0);
    let s1 = spec_hex_group(g1);
    let s2 = spec_hex_group(g2);
    let s3 = spec_hex_group(g3);
    let s4 = spec_hex_group(g4);
    let s5 = spec_hex_group(g5);
    let s6 = spec_hex_group(g6);
    let s7 = spec_hex_group(g7);
    lemma_hex_group(g0);
    lemma_hex_group(g1);
    lemma_hex_group(g2);
    lemma_hex_group(g3);
    lemma_hex_group(g4);
    lemma_hex_group(g5);
    lemma_hex_group(g6);
    lemma_hex_group(g7);
    let col = seq![':'];
    assert(no_dcolon(s0));
    assert(s0.last() != ':');
    lemma_no_dcolon_step(s0, s1);
    lemma_no_dcolon_step(s0 + col + s1, s2);
    lemma_no_dcolon_step(s0 + col + s1 + col + s2, s3);
    lemma_no_dcolon_step(s0 + col + s1 + col + s2 + col + s3, s4);
    lemma_no_dcolon_step(s0 + col + s1 + col + s2 + col + s3 + col + s4, s5);
    lemma_no_dcolon_step(s0 + col + s1 + col + s2 + col + s3 + col + s4 + col + s5, s6);
    lemma_no_dcolon_step(
        s0 + col + s1 + col + s2 + col + s3 + col + s4 + col + s5 + col + s6,
        s7,
    );
}

/// Parsing the canonical literal text of any address yields that address
/// back.
pub proof fn lemma_ip_round_trip(ip: IpAddr)
    ensures
        spec_parse_ip(spec_format_ip(ip)) == Some(ip),
{
    match ip {
        IpAddr::V4 { a, b, c, d } => {
            lemma_v4_split(a as int, b as int, c as int, d as int);
            lemma_dec_octet(a as int);
            lemma_dec_octet(b as int);
            lemma_dec_octet(c as int);
            lemma_dec_octet(d as int);
            assert(spec_parse_v4(spec_format_ip(ip)) == Some(ip));
        },
        IpAddr::V6 { g0, g1, g2, g3, g4, g5, g6, g7 } => {
            let text = spec_format_ip(ip);
            lemma_v6_split(
                g0 as int,
                g1 as int,
                g2 as int,
                g3 as int,
                g4 as int,
                g5 as int,
                g6 as int,
                g7 as int,
            );
            lemma_hex_group(g0 as int);
            lemma_hex_group(g1 as int);
            lemma_hex_group(g2 as int);
            lemma_hex_group(g3 as int);
            lemma_hex_group(g4 as int);
            lemma_hex_group(g5 as int);
            lemma_hex_group(g6 as int);
            lemma_hex_group(g7 as int);
            lemma_v6_no_dcolon(
                g0 as int,
                g1 as int,
                g2 as int,
                g3 as int,
                g4 as int,
                g5 as int,
                g6 as int,
                g7 as int,
            );
            lemma_find_dcolon_none(text);
            let parts = split_on(text, ':');
            assert(parts.len() == 8);
            assert forall|i: int| 0 <= i < parts.len() implies spec_parse_group(
                #[trigger] parts[i],
            ) is Some by {
                assert(i == 0 || i == 1 || i == 2 || i == 3 || i == 4 || i == 5 || i == 6 || i
                    == 7);
            }
            lemma_parse_group_list_of(parts);
            let gs = Seq::<u16>::new(parts.len(), |i: int| hex_num_val(parts[i]) as u16);
            assert(gs[0] == g0 && gs[1] == g1 && gs[2] == g2 && gs[3] == g3 && gs[4] == g4
                && gs[5] == g5 && gs[6] == g6 && gs[7] == g7);
            assert(v6_of(gs) == ip);
            assert(spec_parse_v6(text) == Some(ip));
            lemma_v6_no_dot(
                g0 as int,
                g1 as int,
                g2 as int,
                g3 as int,
                g4 as int,
                g5 as int,
                g6 as int,
                g7 as int,
            );
            lemma_split_no_sep(text, '.');
            assert(split_on(text, '.').len() == 1);
            assert(spec_parse_v4(text) is None);
        },
    }
}

/// Append the decimal text of one octet.
fn push_dec_octet(out: &mut String, n: u8)
    ensures
        final(out)@ == old(out)@ + spec_dec_octet(n as int),
{
    proof {
        reveal(spec_dec_octet);
    }
    let q = n / 10;
    if n < 10 {
        out.append(hex_char_str(n));
        assert(out@ =~= old(out)@ + spec_dec_octet(n as int));
    } else if n < 100 {
        out.append(hex_char_str(q));
        out.append(hex_char_str(n % 10));
        assert(out@ =~= old(out)@ + spec_dec_octet(n as int));
    } else {
        out.append(hex_char_str(q / 10));
        out.append(hex_char_str(q % 10));
        out.append(hex_char_str(n % 10));
        assert(out@ =~= old(out)@ + spec_dec_octet(n as int));
    }
}

/// Append the minimal lowercase hexadecimal text of one group.
fn push_hex_group(out: &mut String, g: u16)
    ensures
        final(out)@ == old(out)@ + spec_hex_group(g as int),
{
    proof {
        reveal(spec_hex_group);
    }
    let g1 = g / 16;
    let g2 = g1 / 16;
    let g3 = g2 / 16;
    if g1 == 0 {
        out.append(hex_char_str(g as u8));
        assert(out@ =~= old(out)@ + spec_hex_group(g as int));
    } else if g2 == 0 {
        out.append(hex_char_str(g1 as u8));
        out.append(hex_char_str((g % 16) as u8));
        assert(out@ =~= old(out)@ + spec_hex_group(g as int));
    } else if g3 == 0 {
        out.append(hex_char_str(g2 as u8));
        out.append(hex_char_str((g1 % 16) as u8));
        out.append(hex_char_str((g % 16) as u8));
        assert(out@ =~= old(out)@ + spec_hex_group(g as int));
    } else {
        out.append(hex_char_str(g3 as u8));
        out.append(hex_char_str((g2 % 16) as u8));
        out.append(hex_char_str((g1 % 16) as u8));
        out.append(hex_char_str((g % 16) as u8));
        assert(out@ =~= old(out)@ + spec_hex_group(g as int));
    }
}

/// Render an address as its canonical literal text.
pub fn format_ip(ip: &IpAddr) -> (r: String)
    ensures
        r@ == spec_format_ip(*ip),
{
    proof {
        reveal_strlit(".");
        reveal_strlit(":");
    }
    match *ip {
        IpAddr::V4 { a, b, c, d } => {
            let mut out = String::new();
            push_dec_octet(&mut out, a);
            out.append(".");
            push_dec_octet(&mut out, b);
            out.append(".");
            push_dec_octet(&mut out, c);
            out.append(".");
            push_dec_octet(&mut out, d);
            proof {
                reveal(spec_format_v4);
            }
            assert(out@ =~= spec_format_ip(*ip));
            out
        },
        IpAddr::V6 { g0, g1, g2, g3, g4, g5, g6, g7 } => {
            let mut out = String::new();
            push_hex_group(&mut out, g0);
            out.append(":");
            push_hex_group(&mut out, g1);
            out.append(":");
            push_hex_group(&mut out, g2);
            out.append(":");
            push_hex_group(&mut out, g3);
            out.append(":");
            push_hex_group(&mut out, g4);
            out.append(":");
            push_hex_group(&mut out, g5);
            out.append(":");
            push_hex_group(&mut out, g6);
            out.append(":");
            push_hex_group(&mut out, g7);
            proof {
                reveal(spec_format_v6);
            }
            assert(out@ =~= spec_format_ip(*ip));
            out
        },
    }
}

/// Read one decimal octet text.
fn parse_octet_exec(p: &str) -> (r: Option<u8>)
    ensures
        r == spec_parse_octet(p@),
{
    let n = p.unicode_len();
    if n == 0 || n > 3 {
        return None;
    }
    let mut val: u32 = 0;
    let mut i: usize = 0;
    proof {
        assert(p@.subrange(0, 0) =~= Seq::<char>::empty());
    }
    while i < n
        invariant
            n == p@.len(),
            1 <= n <= 3,
            i <= n,
            all_dec(p@.subrange(0, i as int)),
            val as int == dec_num_val(p@.subrange(0, i as int)),
            i == 0 ==> val == 0,
            i == 1 ==> val <= 9,
            i == 2 ==> val <= 99,
            i == 3 ==> val <= 999,
        decreases n - i,
    {
        let c = p.get_char(i);
        match dec_val_exec(c) {
            None => {
                assert(!all_dec(p@));
                return None;
            },
            Some(d) => {
                proof {
                    assert(p@.subrange(0, i as int + 1).drop_last() =~= p@.subrange(0, i as int));
                    assert(p@.subrange(0, i as int + 1).last() == p@[i as int]);
                    assert(all_dec(p@.subrange(0, i as int + 1)));
                }
                val = val * 10 + d as u32;
            },
        }
        i += 1;
    }
    proof {
        assert(p@.subrange(0, n as int) =~= p@);
    }
    if n > 1 {
        if p.get_char(0) == '0' {
            return None;
        }
    }
    if val > 255 {
        return None;
    }
    Some(val as u8)
}

/// Read one hexadecimal group text.
fn parse_group_exec(p: &str) -> (r: Option<u16>)
    ensures
        r == spec_parse_group(p@),
{
    let n = p.unicode_len();
    if n == 0 || n > 4 {
        return None;
    }
    let mut val: u32 = 0;
    let mut i: usize = 0;
    proof {
        assert(p@.subrange(0, 0) =~= Seq::<char>::empty());
    }
    while i < n
        invariant
            n == p@.len(),
            1 <= n <= 4,
            i <= n,
            all_hex(p@.subrange(0, i as int)),
            val as int == hex_num_val(p@.subrange(0, i as int)),
            i == 0 ==> val == 0,
            i == 1 ==> val <= 15,
            i == 2 ==> val <= 255,
            i == 3 ==> val <= 4095,
            i == 4 ==> val <= 65535,
        decreases n - i,
    {
        let c = p.get_char(i);
        match hex_val_exec(c) {
            None => {
                assert(!all_hex(p@));
                return None;
            },
            Some(d) => {
                proof {
                    assert(p@.subrange(0, i as int + 1).drop_last() =~= p@.subrange(0, i as int));
                    assert(p@.subrange(0, i as int + 1).last() == p@[i as int]);
                    assert(all_hex(p@.subrange(0, i as int + 1)));
                }
                val = val * 16 + d as u32;
            },
        }
        i += 1;
    }
    proof {
        assert(p@.subrange(0, n as int) =~= p@);
    }
    Some(val as u16)
}

/// Read a v4 literal.
fn parse_ipv4(s: &str) -> (r: Option<IpAddr>)
    ensures
        r == spec_parse_v4(s@),
{
    let parts = split_exec(s, '.');
    if parts.len() != 4 {
        return None;
    }
    let a = match parse_octet_exec(parts[0].as_str()) {
        Some(v) => v,
        None => {
            return None;
        },
    };
    let b = match parse_octet_exec(parts[1].as_str()) {
        Some(v) => v,
        None => {
            return None;
        },
    };
    let c = match parse_octet_exec(parts[2].as_str()) {
        Some(v) => v,
        None => {
            return None;
        },
    };
    let d = match parse_octet_exec(parts[3].as_str()) {
        Some(v) => v,
        None => {
            return None;
        },
    };
    Some(IpAddr::V4 { a, b, c, d })
}

/// Find the first `::` in `s`, if any.
fn find_dcolon_exec(s: &str) -> (r: Option<usize>)
    ensures
        r is Some <==> find_dcolon(s@) is Some,
        r matches Some(i) ==> find_dcolon(s@) == Some(i as int) && i + 1 < s@.len(),
{
    let n = s.unicode_len();
    if n < 2 {
        return None;
    }
    let mut i: usize = 0;
    while i < n - 1
        invariant
            n == s@.len(),
            2 <= n,
            i <= n - 1,
            forall|j: int| 0 <= j < i ==> !((#[trigger] s@[j]) == ':' && s@[j + 1] == ':'),
        decreases n - i,
    {
        let c1 = s.get_char(i);
        let c2 = s.get_char(i + 1);
        if c1 == ':' && c2 == ':' {
            proof {
                lemma_find_dcolon_at(s@, i as int);
            }
            return Some(i);
        }
        i += 1;
    }
    proof {
        assert(no_dcolon(s@));
        lemma_find_dcolon_none(s@);
    }
    None
}

/// Read the first `to` group texts, in order, stopping at the first
/// invalid one.
fn parse_group_prefix(parts: &Vec<String>, to: usize) -> (r: Option<Vec<u16>>)
    requires
        to <= parts@.len(),
    ensures
        r is Some <==> spec_parse_group_list(views_of(parts@).subrange(0, to as int)) is Some,
        r matches Some(v) ==> Some(v@) == spec_parse_group_list(
            views_of(parts@).subrange(0, to as int),
        ),
{
    let ghost full = views_of(parts@).subrange(0, to as int);
    let mut out: Vec<u16> = Vec::new();
    let mut i: usize = 0;
    proof {
        assert(full.subrange(0, full.len() as int) =~= full);
        assert forall|rest: Seq<u16>|
            spec_parse_group_list(full.subrange(0, full.len() as int)) == Some(rest)
                implies spec_parse_group_list(full) == Some(out@ + rest) by {
            assert(out@ + rest =~= rest);
        }
    }
    while i < to
        invariant
            i <= to <= parts@.len(),
            full == views_of(parts@).subrange(0, to as int),
            spec_parse_group_list(full.subrange(i as int, full.len() as int)) is None ==> (
            spec_parse_group_list(full) is None),
            forall|rest: Seq<u16>|
                spec_parse_group_list(full.subrange(i as int, full.len() as int)) == Some(rest)
                    ==> spec_parse_group_list(full) == Some(out@ + rest),
        decreases to - i,
    {
        let ghost tail = full.subrange(i as int, full.len() as int);
        proof {
            assert(tail.len() > 0);
            assert(tail.first() == full[i as int]);
            assert(full[i as int] == parts@[i as int]@);
            assert(tail.drop_first() =~= full.subrange(i as int + 1, full.len() as int));
        }
        match parse_group_exec(parts[i].as_str()) {
            None => {
                proof {
                    assert(spec_parse_group(tail.first()) is None);
                    assert(spec_parse_group_list(tail) is None);
                }
                return None;
            },
            Some(g) => {
                proof {
                    let next = full.subrange(i as int + 1, full.len() as int);
                    assert forall|rest: Seq<u16>|
                        spec_parse_group_list(next) == Some(rest)
                            implies spec_parse_group_list(full) == Some(out@.push(g) + rest) by {
                        assert(spec_parse_group_list(tail) == Some(seq![g] + rest));
                        assert(out@ + (seq![g] + rest) =~= out@.push(g) + rest);
                    }
                }
                out.push(g);
            },
        }
        i += 1;
    }
    proof {
        let empty_tail = full.subrange(full.len() as int, full.len() as int);
        assert(empty_tail =~= Seq::<Seq<char>>::empty());
        assert(spec_parse_group_list(empty_tail) == Some(Seq::<u16>::empty()));
        assert(out@ + Seq::<u16>::empty() =~= out@);
    }
    Some(out)
}

/// Read one side of a v6 literal: all groups, or groups ended by an
/// embedded v4 literal worth two groups.
fn parse_side_vec(parts: &Vec<String>) -> (r: Option<Vec<u16>>)
    ensures
        r is Some <==> spec_parse_side(views_of(parts@)) is Some,
        r matches Some(v) ==> Some(v@) == spec_parse_side(views_of(parts@)),
{
    let m = parts.len();
    proof {
        assert(views_of(parts@).subrange(0, m as int) =~= views_of(parts@));
    }
    match parse_group_prefix(parts, m) {
        Some(v) => Some(v),
        None => {
            proof {
                assert(views_of(parts@).len() >= 1);
                assert(views_of(parts@).subrange(0, m as int - 1) =~= views_of(
                    parts@,
                ).drop_last());
                assert(views_of(parts@).last() == parts@[m as int - 1]@);
            }
            match parse_ipv4(parts[m - 1].as_str()) {
                Some(IpAddr::V4 { a, b, c, d }) => match parse_group_prefix(parts, m - 1) {
                    Some(mut gs) => {
                        let ghost before = gs@;
                        gs.push(a as u16 * 256 + b as u16);
                        gs.push(c as u16 * 256 + d as u16);
                        proof {
                            assert(gs@ =~= before + seq![
                                (a as int * 256 + b as int) as u16,
                                (c as int * 256 + d as int) as u16,
                            ]);
                        }
                        Some(gs)
                    },
                    None => None,
                },
                _ => None,
            }
        },
    }
}

/// Read a v6 literal, in the full eight-group form or with one `::`.
fn parse_ipv6(s: &str) -> (r: Option<IpAddr>)
    ensures
        r == spec_parse_v6(s@),
{
    let n = s.unicode_len();
    match find_dcolon_exec(s) {
        None => {
            let parts = split_exec(s, ':');
            let gs = match parse_side_vec(&parts) {
                Some(v) => v,
                None => {
                    return None;
                },
            };
            if gs.len() != 8 {
                return None;
            }
            Some(
                IpAddr::V6 {
                    g0: gs[0],
                    g1: gs[1],
                    g2: gs[2],
                    g3: gs[3],
                    g4: gs[4],
                    g5: gs[5],
                    g6: gs[6],
                    g7: gs[7],
                },
            )
        },
        Some(i) => {
            let left = s.substring_char(0, i);
            let right = s.substring_char(i + 2, n);
            let headp: Vec<String> = if left.unicode_len() == 0 {
                Vec::new()
            } else {
                split_exec(left, ':')
            };
            let tailp: Vec<String> = if right.unicode_len() == 0 {
                Vec::new()
            } else {
                split_exec(right, ':')
            };
            proof {
                assert(views_of(Seq::<String>::empty()) =~= Seq::<Seq<char>>::empty());
                assert(views_of(headp@) == side_parts(s@.subrange(0, i as int)));
                assert(views_of(tailp@) == side_parts(s@.subrange(i as int + 2, s@.len() as int)));
            }
            let hp = headp.len();
            proof {
                assert(views_of(headp@).subrange(0, hp as int) =~= views_of(headp@));
            }
            let hs = match parse_group_prefix(&headp, hp) {
                Some(v) => v,
                None => {
                    return None;
                },
            };
            let ts = match parse_side_vec(&tailp) {
                Some(v) => v,
                None => {
                    return None;
                },
            };
            if hs.len() > 7 || ts.len() > 7 - hs.len() {
                return None;
            }
            let k = 8 - hs.len() - ts.len();
            let mut gs: Vec<u16> = Vec::new();
            let mut j: usize = 0;
            proof {
                assert(gs@ =~= hs@.subrange(0, 0));
            }
            while j < hs.len()
                invariant
                    j <= hs@.len(),
                    gs@ == hs@.subrange(0, j as int),
                decreases hs@.len() - j,
            {
                gs.push(hs[j]);
                proof {
                    assert(hs@.subrange(0, j as int + 1) =~= hs@.subrange(0, j as int).push(
                        hs@[j as int],
                    ));
                }
                j += 1;
            }
            proof {
                assert(hs@.subrange(0, hs@.len() as int) =~= hs@);
                assert(gs@ =~= hs@ + zero_groups(0));
            }
            let mut z: usize = 0;
            while z < k
                invariant
                    z <= k,
                    k == 8 - hs@.len() - ts@.len(),
                    hs@.len() + ts@.len() <= 7,
                    gs@ == hs@ + zero_groups(z as int),
                decreases k - z,
            {
                gs.push(0);
                proof {
                    assert(zero_groups(z as int + 1) =~= zero_groups(z as int).push(0u16));
                    assert(gs@ =~= hs@ + zero_groups(z as int + 1));
                }
                z += 1;
            }
            let mut t: usize = 0;
            proof {
                assert(gs@ =~= hs@ + zero_groups(k as int) + ts@.subrange(0, 0));
            }
            while t < ts.len()
                invariant
                    t <= ts@.len(),
                    k == 8 - hs@.len() - ts@.len(),
                    hs@.len() + ts@.len() <= 7,
                    gs@ == hs@ + zero_groups(k as int) + ts@.subrange(0, t as int),
                decreases ts@.len() - t,
            {
                gs.push(ts[t]);
                proof {
                    assert(ts@.subrange(0, t as int + 1) =~= ts@.subrange(0, t as int).push(
                        ts@[t as int],
                    ));
                    assert(hs@ + zero_groups(k as int) + ts@.subrange(0, t as int + 1) =~= (hs@
                        + zero_groups(k as int) + ts@.subrange(0, t as int)).push(ts@[t as int]));
                }
                t += 1;
            }
            proof {
                assert(ts@.subrange(0, ts@.len() as int) =~= ts@);
                assert(gs@ =~= hs@ + zero_groups(k as int) + ts@);
                assert(gs@.len() == 8);
            }
            Some(
                IpAddr::V6 {
                    g0: gs[0],
                    g1: gs[1],
                    g2: gs[2],
                    g3: gs[3],
                    g4: gs[4],
                    g5: gs[5],
                    g6: gs[6],
                    g7: gs[7],
                },
            )
        },
    }
}

/// Read an IP literal: a v4 literal, or otherwise a v6 literal.
pub fn parse_ip(s: &str) -> (r: Option<IpAddr>)
    ensures
        r == spec_parse_ip(s@),
{
    let r4 = parse_ipv4(s);
    if r4.is_some() {
        r4
    } else {
        parse_ipv6(s)
    }
}

} // verus!
