//! The bytes of each kind of element, stated byte by byte: the control byte
//! (the tag control in the high three bits, the element type in the low
//! five), the tag, then the value, every number least significant byte
//! first.

use vstd::prelude::*;
use vstd::utf8::*;
use crate::tlv::{ElementView, Tag, ValueView};
use crate::tlv::layout::{
    pow256,
    le_bytes,
    twos_complement,
    members_encoding,
    encoding,
    decoding,
    Refused,
};
use crate::tlv::proofs::{lemma_members_encoding_first, decoding_reads_back_the_encoding};

verus! {

/// Byte `k` of `n`, the least significant being byte 0; for a negative `n`,
/// byte `k` of its two's complement.
pub open spec fn byte_of(n: int, k: nat) -> u8 {
    ((n / vstd::arithmetic::power::pow(256, k)) % 256) as u8
}

/// Bytes 0 to `width - 1` of `n`, the least significant first.
pub open spec fn lsb_first(n: int, width: nat) -> Seq<u8> {
    Seq::new(width, |k: int| byte_of(n, k as nat))
}

/// An element with no tag.
pub open spec fn untagged(value: ValueView) -> ElementView {
    ElementView { tag: Tag::Anonymous, value }
}

proof fn lemma_pow_step(k: nat)
    ensures
        vstd::arithmetic::power::pow(256, k + 1) == 256 * vstd::arithmetic::power::pow(256, k),
        vstd::arithmetic::power::pow(256, k) > 0,
{
    reveal(vstd::arithmetic::power::pow);
    vstd::arithmetic::power::lemma_pow_positive(256, k);
}

proof fn lemma_pow256_is_pow(w: nat)
    ensures
        pow256(w) == vstd::arithmetic::power::pow(256, w),
    decreases w,
{
    reveal(vstd::arithmetic::power::pow);
    if w > 0 {
        lemma_pow256_is_pow((w - 1) as nat);
    }
}

/// `le_bytes` is byte `k` of the number at place `k`.
proof fn lemma_le_bytes_bytes(n: nat, width: nat)
    ensures
        le_bytes(n, width) == lsb_first(n as int, width),
    decreases width,
{
    if width > 0 {
        let w1 = (width - 1) as nat;
        lemma_le_bytes_bytes(n / 256, w1);
        assert forall|k: int| 0 <= k < width implies #[trigger] le_bytes(n, width)[k] == byte_of(
            n as int,
            k as nat,
        ) by {
            if k == 0 {
                vstd::arithmetic::power::lemma_pow0(256);
            } else {
                let k1 = (k - 1) as nat;
                lemma_pow_step(k1);
                let p = vstd::arithmetic::power::pow(256, k1);
                vstd::arithmetic::div_mod::lemma_div_denominator(n as int, 256, p);
                assert(le_bytes(n, width)[k] == le_bytes(n / 256, w1)[k - 1]);
                assert(byte_of((n / 256) as int, k1) == byte_of(n as int, k as nat));
            }
        }
        assert(le_bytes(n, width) =~= lsb_first(n as int, width));
    } else {
        assert(le_bytes(n, width) =~= lsb_first(n as int, width));
    }
}

/// Adding 256 to the power `width` leaves bytes 0 to `width - 1` alone.
proof fn lemma_wrap_keeps_bytes(n: int, width: nat)
    ensures
        lsb_first(n + vstd::arithmetic::power::pow(256, width), width) == lsb_first(n, width),
{
    assert forall|k: int| 0 <= k < width implies #[trigger] byte_of(
        n + vstd::arithmetic::power::pow(256, width),
        k as nat,
    ) == byte_of(n, k as nat) by {
        let d = vstd::arithmetic::power::pow(256, k as nat);
        let j = vstd::arithmetic::power::pow(256, (width - k) as nat);
        let j1 = vstd::arithmetic::power::pow(256, (width - k - 1) as nat);
        vstd::arithmetic::power::lemma_pow_positive(256, k as nat);
        vstd::arithmetic::power::lemma_pow_adds(256, (width - k) as nat, k as nat);
        assert(j * d == vstd::arithmetic::power::pow(256, width));
        vstd::arithmetic::div_mod::lemma_hoist_over_denominator(n, j, d as nat);
        lemma_pow_step((width - k - 1) as nat);
        assert(j == 256 * j1);
        vstd::arithmetic::div_mod::lemma_mod_multiples_vanish(j1, n / d, 256);
        assert((256 * j1 + n / d) % 256 == (n / d) % 256);
    }
    assert(lsb_first(n + vstd::arithmetic::power::pow(256, width), width) =~= lsb_first(n, width));
}

/// A signed integer's value bytes are its own bytes, in two's complement.
proof fn lemma_signed_bytes(n: i64, width: nat)
    requires
        width == 1 || width == 2 || width == 4 || width == 8,
        -pow256(width) / 2 <= n < pow256(width) / 2,
    ensures
        le_bytes(twos_complement(n, width), width) == lsb_first(n as int, width),
{
    lemma_le_bytes_bytes(twos_complement(n, width), width);
    if n < 0 {
        lemma_pow256_is_pow(width);
        lemma_wrap_keeps_bytes(n as int, width);
    }
}

/// A single-precision float is written as element type 0x0A, then its four
/// IEEE 754 bytes, the least significant first; those bytes read back as the
/// same float.
pub proof fn a_float_is_its_four_bytes(bits: u32)
    ensures
        encoding(untagged(ValueView::Float(bits))) == seq![0x0Au8] + lsb_first(bits as int, 4),
        decoding(seq![0x0Au8] + lsb_first(bits as int, 4)) == Ok::<ElementView, Refused>(
            untagged(ValueView::Float(bits)),
        ),
{
    lemma_le_bytes_bytes(bits as nat, 4);
    assert(encoding(untagged(ValueView::Float(bits))) =~= seq![0x0Au8] + lsb_first(bits as int, 4));
    decoding_reads_back_the_encoding(untagged(ValueView::Float(bits)));
}

/// A double-precision float is written as element type 0x0B, then its eight
/// IEEE 754 bytes, the least significant first; those bytes read back as the
/// same float.
pub proof fn a_double_is_its_eight_bytes(bits: u64)
    ensures
        encoding(untagged(ValueView::Double(bits))) == seq![0x0Bu8] + lsb_first(bits as int, 8),
        decoding(seq![0x0Bu8] + lsb_first(bits as int, 8)) == Ok::<ElementView, Refused>(
            untagged(ValueView::Double(bits)),
        ),
{
    lemma_le_bytes_bytes(bits as nat, 8);
    assert(encoding(untagged(ValueView::Double(bits))) =~= seq![0x0Bu8] + lsb_first(bits as int, 8));
    decoding_reads_back_the_encoding(untagged(ValueView::Double(bits)));
}

/// An unsigned integer is written in the fewest of one, two, four or eight
/// bytes that hold it, as element type 0x04, 0x05, 0x06 or 0x07, then those
/// bytes, the least significant first; they read back as the same integer.
pub proof fn an_unsigned_integer_is_its_fewest_bytes(n: u64)
    ensures
        encoding(untagged(ValueView::Unsigned(n))) == if n < 0x100 {
            seq![0x04u8] + lsb_first(n as int, 1)
        } else if n < 0x1_0000 {
            seq![0x05u8] + lsb_first(n as int, 2)
        } else if n < 0x1_0000_0000 {
            seq![0x06u8] + lsb_first(n as int, 4)
        } else {
            seq![0x07u8] + lsb_first(n as int, 8)
        },
        decoding(encoding(untagged(ValueView::Unsigned(n)))) == Ok::<ElementView, Refused>(
            untagged(ValueView::Unsigned(n)),
        ),
{
    let w: nat = if n < 0x100 {
        1
    } else if n < 0x1_0000 {
        2
    } else if n < 0x1_0000_0000 {
        4
    } else {
        8
    };
    lemma_le_bytes_bytes(n as nat, w);
    let t: u8 = if w == 1 {
        0x04
    } else if w == 2 {
        0x05
    } else if w == 4 {
        0x06
    } else {
        0x07
    };
    assert(encoding(untagged(ValueView::Unsigned(n))) =~= seq![t] + lsb_first(n as int, w));
    decoding_reads_back_the_encoding(untagged(ValueView::Unsigned(n)));
}

/// A signed integer is written in the fewest of one, two, four or eight bytes
/// that hold it in two's complement, as element type 0x00, 0x01, 0x02 or
/// 0x03, then those bytes, the least significant first; they read back as
/// the same integer.
pub proof fn a_signed_integer_is_its_fewest_bytes(n: i64)
    ensures
        encoding(untagged(ValueView::Signed(n))) == if -0x80 <= n < 0x80 {
            seq![0x00u8] + lsb_first(n as int, 1)
        } else if -0x8000 <= n < 0x8000 {
            seq![0x01u8] + lsb_first(n as int, 2)
        } else if -0x8000_0000 <= n < 0x8000_0000 {
            seq![0x02u8] + lsb_first(n as int, 4)
        } else {
            seq![0x03u8] + lsb_first(n as int, 8)
        },
        decoding(encoding(untagged(ValueView::Signed(n)))) == Ok::<ElementView, Refused>(
            untagged(ValueView::Signed(n)),
        ),
{
    crate::tlv::proofs::lemma_pow256_values();
    let w: nat = if -0x80 <= n < 0x80 {
        1
    } else if -0x8000 <= n < 0x8000 {
        2
    } else if -0x8000_0000 <= n < 0x8000_0000 {
        4
    } else {
        8
    };
    lemma_signed_bytes(n, w);
    let t: u8 = if w == 1 {
        0
    } else if w == 2 {
        1
    } else if w == 4 {
        2
    } else {
        3
    };
    assert(encoding(untagged(ValueView::Signed(n))) =~= seq![t] + lsb_first(n as int, w));
    decoding_reads_back_the_encoding(untagged(ValueView::Signed(n)));
}

/// A boolean is its element type alone, 0x08 for false and 0x09 for true; a
/// null is 0x14.
pub proof fn booleans_and_null_are_their_element_type(b: bool)
    ensures
        encoding(untagged(ValueView::Bool(b))) == seq![if b { 0x09u8 } else { 0x08u8 }],
        encoding(untagged(ValueView::Null)) == seq![0x14u8],
{
    assert(encoding(untagged(ValueView::Bool(b))) =~= seq![if b { 0x09u8 } else { 0x08u8 }]);
    assert(encoding(untagged(ValueView::Null)) =~= seq![0x14u8]);
}

/// A byte string shorter than 256 bytes is element type 0x10, its length in
/// one byte, then its bytes; a UTF-8 string shorter than 256 bytes is the
/// same under element type 0x0C.
pub proof fn a_short_string_is_its_length_and_bytes(bytes: Seq<u8>, text: Seq<char>)
    ensures
        bytes.len() < 0x100 ==> encoding(untagged(ValueView::Octets(bytes))) == seq![
            0x10u8,
            bytes.len() as u8,
        ] + bytes,
        encode_utf8(text).len() < 0x100 ==> encoding(untagged(ValueView::Utf8(text))) == seq![
            0x0Cu8,
            encode_utf8(text).len() as u8,
        ] + encode_utf8(text),
{
    if bytes.len() < 0x100 {
        lemma_le_bytes_bytes(bytes.len(), 1);
        assert(encoding(untagged(ValueView::Octets(bytes))) =~= seq![0x10u8, bytes.len() as u8] + bytes);
    }
    if encode_utf8(text).len() < 0x100 {
        let b = encode_utf8(text);
        lemma_le_bytes_bytes(b.len(), 1);
        assert(encoding(untagged(ValueView::Utf8(text))) =~= seq![0x0Cu8, b.len() as u8] + b);
    }
}

/// A container is its element type (0x15 a structure, 0x16 an array, 0x17 a
/// list), its members one after the other, first to last, and the
/// end-of-container 0x18.
pub proof fn a_container_is_its_members_then_its_end(members: Seq<ElementView>)
    ensures
        encoding(untagged(ValueView::Structure(members))) == seq![0x15u8] + members_encoding(members)
            + seq![0x18u8],
        encoding(untagged(ValueView::Array(members))) == seq![0x16u8] + members_encoding(members)
            + seq![0x18u8],
        encoding(untagged(ValueView::List(members))) == seq![0x17u8] + members_encoding(members)
            + seq![0x18u8],
        members_encoding(seq![]) == Seq::<u8>::empty(),
        members.len() > 0 ==> members_encoding(members) == encoding(members[0]) + members_encoding(
            members.drop_first(),
        ),
{
    assert(encoding(untagged(ValueView::Structure(members))) =~= seq![0x15u8] + members_encoding(members)
        + seq![0x18u8]);
    assert(encoding(untagged(ValueView::Array(members))) =~= seq![0x16u8] + members_encoding(members)
        + seq![0x18u8]);
    assert(encoding(untagged(ValueView::List(members))) =~= seq![0x17u8] + members_encoding(members)
        + seq![0x18u8]);
    if members.len() > 0 {
        lemma_members_encoding_first(members);
    }
}

/// A member under context tag `number` is the same element untagged, with
/// 0x20 added to its control byte and the tag's number after it.
pub proof fn a_context_tag_is_one_byte_after_the_control(number: u8, value: ValueView)
    ensures
        encoding(ElementView { tag: Tag::Context(number), value }) == seq![
            (encoding(untagged(value))[0] + 0x20) as u8,
            number,
        ] + encoding(untagged(value)).skip(1),
{
    let plain = encoding(untagged(value));
    crate::tlv::proofs::lemma_control_byte(untagged(value));
    crate::tlv::proofs::lemma_control_byte(ElementView { tag: Tag::Context(number), value });
    assert(encoding(ElementView { tag: Tag::Context(number), value }) =~= seq![
        (plain[0] + 0x20) as u8,
        number,
    ] + plain.skip(1));
}

/// A tag is written as its tag control added to the element's control byte
/// and the tag's bytes after it: none for no tag (0x00), the number for a
/// context tag (0x20), the number in two bytes, or four where it needs them,
/// for a common-profile tag (0x40, 0x60) and an implied-profile tag (0x80,
/// 0xA0), and the vendor and the profile in two bytes each before the number
/// for a fully qualified tag (0xC0, 0xE0); every number least significant
/// byte first.
pub proof fn a_tag_is_its_control_and_its_bytes(tag: Tag, value: ValueView)
    ensures
        encoding(ElementView { tag, value }) == seq![
            (encoding(untagged(value))[0] + match tag {
                Tag::Anonymous => 0int,
                Tag::Context(_) => 0x20int,
                Tag::Common(n) => if n <= 0xFFFF { 0x40int } else { 0x60int },
                Tag::Implicit(n) => if n <= 0xFFFF { 0x80int } else { 0xA0int },
                Tag::FullyQualified { number, .. } => if number <= 0xFFFF { 0xC0int } else { 0xE0int },
            }) as u8,
        ] + match tag {
            Tag::Anonymous => seq![],
            Tag::Context(n) => seq![n],
            Tag::Common(n) => lsb_first(n as int, if n <= 0xFFFF { 2nat } else { 4nat }),
            Tag::Implicit(n) => lsb_first(n as int, if n <= 0xFFFF { 2nat } else { 4nat }),
            Tag::FullyQualified { vendor, profile, number } => lsb_first(vendor as int, 2) + lsb_first(
                profile as int,
                2,
            ) + lsb_first(number as int, if number <= 0xFFFF { 2nat } else { 4nat }),
        } + encoding(untagged(value)).skip(1),
{
    let plain = encoding(untagged(value));
    crate::tlv::proofs::lemma_control_byte(untagged(value));
    crate::tlv::proofs::lemma_control_byte(ElementView { tag, value });
    match tag {
        Tag::Common(n) => {
            lemma_le_bytes_bytes(n as nat, 2);
            lemma_le_bytes_bytes(n as nat, 4);
        },
        Tag::Implicit(n) => {
            lemma_le_bytes_bytes(n as nat, 2);
            lemma_le_bytes_bytes(n as nat, 4);
        },
        Tag::FullyQualified { vendor, profile, number } => {
            lemma_le_bytes_bytes(vendor as nat, 2);
            lemma_le_bytes_bytes(profile as nat, 2);
            lemma_le_bytes_bytes(number as nat, 2);
            lemma_le_bytes_bytes(number as nat, 4);
        },
        _ => {},
    }
    assert(plain.skip(1) =~= crate::tlv::layout::value_field(value));
}

} // verus!
