//! Opaque 128-bit access method identifiers and their canonical hyphenated
//! text form: five groups of lowercase hexadecimal digit pairs in the shape
//! 8-4-4-4-12. The reader accepts digits of either case and nothing else.

use vstd::prelude::*;
use vstd::string::*;

use crate::error::DecodeError;
use crate::text::{
    all_hex, hex_char, hex_char_str, hex_val, hex_val_exec, lemma_hex_char, lemma_split_no_sep,
    lemma_split_prefix, no_char, split_exec, split_on,
};

verus! {

/// The lowercase hexadecimal text of a byte sequence, two digits per byte.
pub open spec fn hex_pairs(bs: Seq<u8>) -> Seq<char>
    decreases bs.len(),
{
    if bs.len() == 0 {
        Seq::<char>::empty()
    } else {
        hex_pairs(bs.drop_last()) + seq![
            hex_char(bs.last() as int / 16),
            hex_char(bs.last() as int % 16),
        ]
    }
}

/// The bytes denoted by an even-length hexadecimal digit text, two digits
/// per byte.
pub open spec fn hex_pairs_val(s: Seq<char>) -> Seq<u8>
    decreases s.len(),
{
    if s.len() < 2 {
        Seq::<u8>::empty()
    } else {
        hex_pairs_val(s.subrange(0, s.len() - 2)) + seq![
            (hex_val(s[s.len() - 2]) * 16 + hex_val(s[s.len() - 1])) as u8,
        ]
    }
}

/// The canonical identifier text of sixteen bytes: hexadecimal pairs in
/// hyphen-separated groups of 8, 4, 4, 4 and 12 digits.
#[verifier::opaque]
pub open spec fn spec_format_uuid(bs: Seq<u8>) -> Seq<char> {
    hex_pairs(bs.subrange(0, 4)) + seq!['-'] + hex_pairs(bs.subrange(4, 6)) + seq!['-']
        + hex_pairs(bs.subrange(6, 8)) + seq!['-'] + hex_pairs(bs.subrange(8, 10)) + seq!['-']
        + hex_pairs(bs.subrange(10, 16))
}

/// An identifier text parses when it has five hyphen-separated groups of
/// lengths 8, 4, 4, 4 and 12 whose characters are all hexadecimal digits of
/// either case; the result is its sixteen bytes.
pub open spec fn spec_parse_uuid(s: Seq<char>) -> Option<Seq<u8>> {
    let parts = split_on(s, '-');
    if parts.len() == 5 && parts[0].len() == 8 && parts[1].len() == 4 && parts[2].len() == 4
        && parts[3].len() == 4 && parts[4].len() == 12 && all_hex(
        parts[0] + parts[1] + parts[2] + parts[3] + parts[4],
    ) {
        Some(hex_pairs_val(parts[0] + parts[1] + parts[2] + parts[3] + parts[4]))
    } else {
        None
    }
}

/// The hexadecimal text of a byte sequence has two digits per byte, holds
/// only digit characters, no separator, and reads back as those bytes.
pub proof fn lemma_hex_pairs(bs: Seq<u8>)
    ensures
        hex_pairs(bs).len() == 2 * bs.len(),
        all_hex(hex_pairs(bs)),
        no_char(hex_pairs(bs), '-'),
        hex_pairs_val(hex_pairs(bs)) == bs,
    decreases bs.len(),
{
    if bs.len() == 0 {
        assert(hex_pairs_val(hex_pairs(bs)) =~= bs);
    } else {
        let prev = bs.drop_last();
        let b = bs.last() as int;
        lemma_hex_pairs(prev);
        lemma_hex_char(b / 16);
        lemma_hex_char(b % 16);
        let pair = seq![hex_char(b / 16), hex_char(b % 16)];
        let h = hex_pairs(bs);
        assert(h == hex_pairs(prev) + pair);
        assert forall|i: int| 0 <= i < h.len() implies hex_val(h[i]) >= 0 && h[i] != '-' by {
            if i < hex_pairs(prev).len() {
                assert(h[i] == hex_pairs(prev)[i]);
            } else {
                assert(h[i] == pair[i - hex_pairs(prev).len()]);
            }
        }
        assert(h.subrange(0, h.len() - 2) =~= hex_pairs(prev));
        assert(h[h.len() - 2] == hex_char(b / 16));
        assert(h[h.len() - 1] == hex_char(b % 16));
        assert((b / 16) * 16 + b % 16 == b);
        assert(bs.last() as int == b);
        assert(hex_pairs_val(h) =~= bs);
    }
}

/// Hexadecimal pair text of a concatenation is the concatenation of the
/// pair texts.
pub proof fn lemma_hex_pairs_concat(x: Seq<u8>, y: Seq<u8>)
    ensures
        hex_pairs(x + y) == hex_pairs(x) + hex_pairs(y),
    decreases y.len(),
{
    if y.len() == 0 {
        assert(x + y =~= x);
        assert(hex_pairs(x) + hex_pairs(y) =~= hex_pairs(x));
    } else {
        lemma_hex_pairs_concat(x, y.drop_last());
        assert((x + y).drop_last() =~= x + y.drop_last());
        assert((x + y).last() == y.last());
        assert(hex_pairs(x + y) =~= hex_pairs(x) + hex_pairs(y));
    }
}

/// There are half as many bytes as digits.
pub proof fn lemma_hex_pairs_val_len(s: Seq<char>)
    ensures
        hex_pairs_val(s).len() == s.len() / 2,
    decreases s.len(),
{
    if s.len() < 2 {
    } else {
        lemma_hex_pairs_val_len(s.subrange(0, s.len() - 2));
    }
}

/// Parsing the canonical text of any sixteen bytes yields those bytes back.
pub proof fn lemma_uuid_round_trip(bs: Seq<u8>)
    requires
        bs.len() == 16,
    ensures
        spec_parse_uuid(spec_format_uuid(bs)) == Some(bs),
{
    reveal(spec_format_uuid);
    let b0 = bs.subrange(0, 4);
    let b1 = bs.subrange(4, 6);
    let b2 = bs.subrange(6, 8);
    let b3 = bs.subrange(8, 10);
    let b4 = bs.subrange(10, 16);
    let h0 = hex_pairs(b0);
    let h1 = hex_pairs(b1);
    let h2 = hex_pairs(b2);
    let h3 = hex_pairs(b3);
    let h4 = hex_pairs(b4);
    lemma_hex_pairs(b0);
    lemma_hex_pairs(b1);
    lemma_hex_pairs(b2);
    lemma_hex_pairs(b3);
    lemma_hex_pairs(b4);
    let r3 = h3 + seq!['-'] + h4;
    let r2 = h2 + seq!['-'] + r3;
    let r1 = h1 + seq!['-'] + r2;
    let text = spec_format_uuid(bs);
    assert(text =~= h0 + seq!['-'] + r1);
    lemma_split_prefix(h0, r1, '-');
    lemma_split_prefix(h1, r2, '-');
    lemma_split_prefix(h2, r3, '-');
    lemma_split_prefix(h3, h4, '-');
    lemma_split_no_sep(h4, '-');
    let parts = split_on(text, '-');
    assert(parts =~= seq![h0, h1, h2, h3, h4]);
    let cat = parts[0] + parts[1] + parts[2] + parts[3] + parts[4];
    assert(b0 + b1 =~= bs.subrange(0, 6));
    lemma_hex_pairs_concat(b0, b1);
    assert(bs.subrange(0, 6) + b2 =~= bs.subrange(0, 8));
    lemma_hex_pairs_concat(bs.subrange(0, 6), b2);
    assert(bs.subrange(0, 8) + b3 =~= bs.subrange(0, 10));
    lemma_hex_pairs_concat(bs.subrange(0, 8), b3);
    assert(bs.subrange(0, 10) + b4 =~= bs);
    lemma_hex_pairs_concat(bs.subrange(0, 10), b4);
    assert(cat =~= hex_pairs(bs));
    lemma_hex_pairs(bs);
    assert(spec_parse_uuid(text) == Some(bs));
}

/// An opaque 128-bit access method identifier, held as its sixteen bytes.
/// Identifiers are minted outside this layer; this layer only converts them
/// to and from their canonical text.
#[derive(Debug, PartialEq, Eq)]
pub struct AccessMethodId {
    bytes: Vec<u8>,
}

impl View for AccessMethodId {
    type V = Seq<u8>;

    closed spec fn view(&self) -> Seq<u8> {
        self.bytes@
    }
}

impl AccessMethodId {
    /// A well-formed identifier holds exactly sixteen bytes; every value of
    /// this type satisfies this.
    #[verifier::type_invariant]
    pub open spec fn wf(&self) -> bool {
        self@.len() == 16
    }

    /// Mint an identifier directly from its sixteen bytes.
    pub fn from_bytes(bytes: Vec<u8>) -> (r: Option<AccessMethodId>)
        ensures
            r is Some <==> bytes@.len() == 16,
            r matches Some(id) ==> id@ == bytes@ && id.wf(),
    {
        if bytes.len() == 16 {
            Some(AccessMethodId { bytes })
        } else {
            None
        }
    }

    /// Read an identifier from its hyphenated text form.
    pub fn from_string(s: &str) -> (r: Option<AccessMethodId>)
        ensures
            r is Some <==> spec_parse_uuid(s@) is Some,
            r matches Some(id) ==> Some(id@) == spec_parse_uuid(s@) && id.wf(),
    {
        let parts = split_exec(s, '-');
        if parts.len() != 5 {
            return None;
        }
        if parts[0].as_str().unicode_len() != 8 || parts[1].as_str().unicode_len() != 4
            || parts[2].as_str().unicode_len() != 4 || parts[3].as_str().unicode_len() != 4
            || parts[4].as_str().unicode_len() != 12 {
            return None;
        }
        let mut cat = String::new();
        cat.append(parts[0].as_str());
        cat.append(parts[1].as_str());
        cat.append(parts[2].as_str());
        cat.append(parts[3].as_str());
        cat.append(parts[4].as_str());
        proof {
            assert(cat@ =~= parts@[0]@ + parts@[1]@ + parts@[2]@ + parts@[3]@ + parts@[4]@);
            lemma_hex_pairs_val_len(cat@);
        }
        match hex_bytes_exec(cat.as_str()) {
            Some(bytes) => Some(AccessMethodId { bytes }),
            None => None,
        }
    }

    /// Render the canonical hyphenated text form.
    pub fn to_text(&self) -> (r: String)
        ensures
            r@ == spec_format_uuid(self@),
    {
        proof {
            use_type_invariant(&*self);
            reveal_strlit("-");
        }
        let mut out = String::new();
        push_hex_bytes(&mut out, &self.bytes, 0, 4);
        out.append("-");
        push_hex_bytes(&mut out, &self.bytes, 4, 6);
        out.append("-");
        push_hex_bytes(&mut out, &self.bytes, 6, 8);
        out.append("-");
        push_hex_bytes(&mut out, &self.bytes, 8, 10);
        out.append("-");
        let len = self.bytes.len();
        push_hex_bytes(&mut out, &self.bytes, 10, len);
        proof {
            reveal(spec_format_uuid);
            assert(out@ =~= spec_format_uuid(self@));
        }
        out
    }
}

/// Append the hexadecimal pair text of `v[from..to]`.
fn push_hex_bytes(out: &mut String, v: &Vec<u8>, from: usize, to: usize)
    requires
        from <= to <= v@.len(),
    ensures
        final(out)@ == old(out)@ + hex_pairs(v@.subrange(from as int, to as int)),
{
    let mut i = from;
    proof {
        assert(v@.subrange(from as int, from as int) =~= Seq::<u8>::empty());
        assert(out@ =~= old(out)@ + hex_pairs(v@.subrange(from as int, from as int)));
    }
    while i < to
        invariant
            from <= i <= to <= v@.len(),
            out@ == old(out)@ + hex_pairs(v@.subrange(from as int, i as int)),
        decreases to - i,
    {
        let b = v[i];
        out.append(hex_char_str(b / 16));
        out.append(hex_char_str(b % 16));
        proof {
            assert(v@.subrange(from as int, i as int + 1).drop_last() =~= v@.subrange(
                from as int,
                i as int,
            ));
            assert(v@.subrange(from as int, i as int + 1).last() == v@[i as int]);
            assert(out@ =~= old(out)@ + hex_pairs(v@.subrange(from as int, i as int + 1)));
        }
        i += 1;
    }
}

/// Read an even-length hexadecimal digit text as bytes, two digits per
/// byte.
fn hex_bytes_exec(s: &str) -> (r: Option<Vec<u8>>)
    requires
        s@.len() % 2 == 0,
    ensures
        r is Some <==> all_hex(s@),
        r matches Some(v) ==> v@ == hex_pairs_val(s@),
{
    let n = s.unicode_len();
    let mut out: Vec<u8> = Vec::new();
    let mut i: usize = 0;
    proof {
        assert(s@.subrange(0, 0) =~= Seq::<char>::empty());
        assert(out@ =~= hex_pairs_val(s@.subrange(0, 0)));
    }
    while i < n
        invariant
            n == s@.len(),
            n % 2 == 0,
            i <= n,
            i % 2 == 0,
            all_hex(s@.subrange(0, i as int)),
            out@ == hex_pairs_val(s@.subrange(0, i as int)),
        decreases n - i,
    {
        let c1 = s.get_char(i);
        let c2 = s.get_char(i + 1);
        let d1 = match hex_val_exec(c1) {
            Some(d) => d,
            None => {
                assert(!all_hex(s@));
                return None;
            },
        };
        let d2 = match hex_val_exec(c2) {
            Some(d) => d,
            None => {
                assert(!all_hex(s@));
                return None;
            },
        };
        out.push(d1 * 16 + d2);
        proof {
            let t = s@.subrange(0, i as int + 2);
            assert(t.subrange(0, t.len() - 2) =~= s@.subrange(0, i as int));
            assert(t[t.len() - 2] == s@[i as int]);
            assert(t[t.len() - 1] == s@[i as int + 1]);
            assert(all_hex(t));
            assert(out@ =~= hex_pairs_val(t));
        }
        i += 2;
    }
    proof {
        assert(s@.subrange(0, n as int) =~= s@);
    }
    Some(out)
}

/// The wire carrier of an identifier: its text form.
#[derive(Debug, PartialEq, Eq)]
pub struct WireUuid {
    pub value: String,
}

impl View for WireUuid {
    type V = Seq<char>;

    open spec fn view(&self) -> Seq<char> {
        self.value@
    }
}

/// Encode an identifier into its wire message. Total.
pub fn encode_uuid(id: &AccessMethodId) -> (r: WireUuid)
    ensures
        r@ == spec_format_uuid(id@),
{
    WireUuid { value: id.to_text() }
}

/// Decode an identifier from its wire message; malformed text is rejected
/// with `InvalidArgument`.
pub fn decode_uuid(w: &WireUuid) -> (r: Result<AccessMethodId, DecodeError>)
    ensures
        r is Ok <==> spec_parse_uuid(w@) is Some,
        r matches Ok(id) ==> Some(id@) == spec_parse_uuid(w@) && id.wf(),
{
    match AccessMethodId::from_string(w.value.as_str()) {
        Some(id) => Ok(id),
        None => Err(DecodeError::invalid("could not parse the identifier message")),
    }
}

} // verus!
