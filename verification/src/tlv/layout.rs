//! What TLV bytes are: the bytes [`encoding`] gives an element, and what
//! [`decoding`] reads bytes back as, with the refusal and its offset.

use vstd::prelude::*;
use vstd::utf8::*;
use crate::text::{decimal, hex};
use crate::tlv::{Tag, ElementView, ValueView};

verus! {

/// The byte that closes a container.
pub const END_OF_CONTAINER: u8 = 0x18;

/// `256` to the power `width`.
pub open spec fn pow256(width: nat) -> nat
    decreases width,
{
    if width == 0 {
        1
    } else {
        256 * pow256((width - 1) as nat)
    }
}

/// The low `width` bytes of `n`, least significant first.
pub open spec fn le_bytes(n: nat, width: nat) -> Seq<u8>
    decreases width,
{
    if width == 0 {
        seq![]
    } else {
        seq![(n % 256) as u8] + le_bytes(n / 256, (width - 1) as nat)
    }
}

/// The number little-endian `bytes` hold.
pub open spec fn le_value(bytes: Seq<u8>) -> nat
    decreases bytes.len(),
{
    if bytes.len() == 0 {
        0
    } else {
        bytes[0] as nat + 256 * le_value(bytes.drop_first())
    }
}

/// Bytes from `width` little-endian bytes read as two's complement.
pub open spec fn sign_extended(n: nat, width: nat) -> int {
    if n < pow256(width) / 2 {
        n as int
    } else {
        n - pow256(width)
    }
}

/// The narrowest of one, two, four or eight bytes that holds `n` unsigned.
pub open spec fn unsigned_width(n: nat) -> nat {
    if n < 0x100 {
        1
    } else if n < 0x1_0000 {
        2
    } else if n < 0x1_0000_0000 {
        4
    } else {
        8
    }
}

/// The narrowest of one, two, four or eight bytes that holds `n` in two's
/// complement.
pub open spec fn signed_width(n: i64) -> nat {
    if -0x80 <= n < 0x80 {
        1
    } else if -0x8000 <= n < 0x8000 {
        2
    } else if -0x8000_0000 <= n < 0x8000_0000 {
        4
    } else {
        8
    }
}

/// The two bits of an element type that name a width of one, two, four or
/// eight bytes.
pub open spec fn width_code(width: nat) -> u8 {
    if width == 1 {
        0
    } else if width == 2 {
        1
    } else if width == 4 {
        2
    } else {
        3
    }
}

/// The width that two bits of an element type name.
pub open spec fn code_width(code: u8) -> nat {
    if code == 0 {
        1
    } else if code == 1 {
        2
    } else if code == 2 {
        4
    } else {
        8
    }
}

/// `n` as the unsigned number whose low `width` bytes are its two's complement.
pub open spec fn twos_complement(n: i64, width: nat) -> nat {
    if n >= 0 {
        n as nat
    } else {
        (n + pow256(width)) as nat
    }
}

/// The tag control a tag is written under, in the control byte's high three
/// bits.
pub open spec fn tag_control(tag: Tag) -> u8 {
    match tag {
        Tag::Anonymous => 0x00,
        Tag::Context(_) => 0x20,
        Tag::Common(n) => if n <= 0xFFFF { 0x40 } else { 0x60 },
        Tag::Implicit(n) => if n <= 0xFFFF { 0x80 } else { 0xA0 },
        Tag::FullyQualified { number, .. } => if number <= 0xFFFF { 0xC0 } else { 0xE0 },
    }
}

/// A profile tag's number: two bytes where it fits, else four.
pub open spec fn number_bytes(n: u32) -> Seq<u8> {
    if n <= 0xFFFF {
        le_bytes(n as nat, 2)
    } else {
        le_bytes(n as nat, 4)
    }
}

/// The bytes of a tag that follow the control byte.
pub open spec fn tag_field(tag: Tag) -> Seq<u8> {
    match tag {
        Tag::Anonymous => seq![],
        Tag::Context(n) => seq![n],
        Tag::Common(n) => number_bytes(n),
        Tag::Implicit(n) => number_bytes(n),
        Tag::FullyQualified { vendor, profile, number } => le_bytes(vendor as nat, 2) + le_bytes(
            profile as nat,
            2,
        ) + number_bytes(number),
    }
}

/// The element type a value is written under, in the control byte's low
/// five bits.
pub open spec fn element_type(value: ValueView) -> u8 {
    match value {
        ValueView::Signed(n) => width_code(signed_width(n)),
        ValueView::Unsigned(n) => (0x04 + width_code(unsigned_width(n as nat))) as u8,
        ValueView::Bool(b) => if b { 0x09 } else { 0x08 },
        ValueView::Float(_) => 0x0A,
        ValueView::Double(_) => 0x0B,
        ValueView::Utf8(text) => (0x0C + width_code(unsigned_width(encode_utf8(text).len()))) as u8,
        ValueView::Octets(bytes) => (0x10 + width_code(unsigned_width(bytes.len()))) as u8,
        ValueView::Null => 0x14,
        ValueView::Structure(_) => 0x15,
        ValueView::Array(_) => 0x16,
        ValueView::List(_) => 0x17,
    }
}

/// The control byte of an element.
pub open spec fn control_byte(element: ElementView) -> u8 {
    (tag_control(element.tag) + element_type(element.value)) as u8
}

/// A length, in the narrowest width that holds it, then the bytes.
pub open spec fn counted(bytes: Seq<u8>) -> Seq<u8> {
    le_bytes(bytes.len(), unsigned_width(bytes.len())) + bytes
}

/// The bytes of a value that follow the tag.
pub open spec fn value_field(value: ValueView) -> Seq<u8>
    decreases value,
{
    match value {
        ValueView::Signed(n) => le_bytes(twos_complement(n, signed_width(n)), signed_width(n)),
        ValueView::Unsigned(n) => le_bytes(n as nat, unsigned_width(n as nat)),
        ValueView::Bool(_) => seq![],
        ValueView::Float(bits) => le_bytes(bits as nat, 4),
        ValueView::Double(bits) => le_bytes(bits as nat, 8),
        ValueView::Utf8(text) => counted(encode_utf8(text)),
        ValueView::Octets(bytes) => counted(bytes),
        ValueView::Null => seq![],
        ValueView::Structure(members) => members_encoding(members) + seq![END_OF_CONTAINER],
        ValueView::Array(members) => members_encoding(members) + seq![END_OF_CONTAINER],
        ValueView::List(members) => members_encoding(members) + seq![END_OF_CONTAINER],
    }
}

/// The elements of a container, one after the other.
pub open spec fn members_encoding(members: Seq<ElementView>) -> Seq<u8>
    decreases members,
{
    if members.len() == 0 {
        seq![]
    } else {
        members_encoding(members.drop_last()) + encoding(members.last())
    }
}

/// The bytes of an element: control byte, tag, value.
pub open spec fn encoding(element: ElementView) -> Seq<u8>
    decreases element,
{
    seq![control_byte(element)] + tag_field(element.tag) + value_field(element.value)
}

/// Why bytes are not TLV.
pub enum Refusal {
    /// A field of `need` bytes starts where only `remain` are left.
    Short { need: nat, remain: nat },
    /// The bytes open with an end-of-container.
    EndFirst,
    /// Bytes follow the element.
    Trailing,
    /// An element type the specification does not define.
    Undefined(u8),
    /// A UTF-8 string whose bytes are not UTF-8.
    NotUtf8,
    /// A length this machine cannot hold.
    TooLong,
    /// A container that is never closed.
    Unclosed,
}

/// A refusal and the offset at which it became clear.
pub struct Refused {
    pub offset: int,
    pub refusal: Refusal,
}

/// The text a refusal is reported with.
pub open spec fn reason(refusal: Refusal) -> Seq<char> {
    match refusal {
        Refusal::Short { need, remain } => "a field of "@ + decimal(need) + " bytes runs past the end, "@
            + decimal(remain) + " remain"@,
        Refusal::EndFirst => "an end-of-container opens the bytes"@,
        Refusal::Trailing => "bytes continue past the element"@,
        Refusal::Undefined(t) => "element type 0x"@ + hex(t as nat, 2) + " is not defined"@,
        Refusal::NotUtf8 => "the string is not UTF-8"@,
        Refusal::TooLong => "the length does not fit this machine"@,
        Refusal::Unclosed => "the container opened here is never closed"@,
    }
}

/// The `need` bytes at `at`, or the refusal of a field that runs past the end.
pub open spec fn field(bytes: Seq<u8>, at: int, need: nat) -> Result<Seq<u8>, Refused> {
    if at + need <= bytes.len() {
        Ok(bytes.subrange(at, at + need))
    } else {
        Err(Refused { offset: at, refusal: Refusal::Short { need, remain: (bytes.len() - at) as nat } })
    }
}

/// The little-endian number of `width` bytes at `at`.
pub open spec fn number_at(bytes: Seq<u8>, at: int, width: nat) -> Result<nat, Refused> {
    match field(bytes, at, width) {
        Ok(b) => Ok(le_value(b)),
        Err(e) => Err(e),
    }
}

/// The tag under tag control `control` (the high three bits) whose bytes
/// start at `at`, and where it ends.
pub open spec fn tag_at(bytes: Seq<u8>, at: int, control: u8) -> Result<(Tag, int), Refused> {
    if control == 0 {
        Ok((Tag::Anonymous, at))
    } else if control == 1 {
        match number_at(bytes, at, 1) {
            Ok(n) => Ok((Tag::Context(n as u8), at + 1)),
            Err(e) => Err(e),
        }
    } else if control == 2 || control == 3 || control == 4 || control == 5 {
        let width: nat = if control == 2 || control == 4 { 2 } else { 4 };
        match number_at(bytes, at, width) {
            Ok(n) => if control <= 3 {
                Ok((Tag::Common(n as u32), at + width))
            } else {
                Ok((Tag::Implicit(n as u32), at + width))
            },
            Err(e) => Err(e),
        }
    } else {
        let width: nat = if control == 6 { 2 } else { 4 };
        match number_at(bytes, at, 2) {
            Err(e) => Err(e),
            Ok(vendor) => match number_at(bytes, at + 2, 2) {
                Err(e) => Err(e),
                Ok(profile) => match number_at(bytes, at + 4, width) {
                    Err(e) => Err(e),
                    Ok(number) => Ok(
                        (
                            Tag::FullyQualified {
                                vendor: vendor as u16,
                                profile: profile as u16,
                                number: number as u32,
                            },
                            at + 4 + width,
                        ),
                    ),
                },
            },
        }
    }
}

/// A length of `width` bytes at `at` and then that many bytes, and where
/// they end.
pub open spec fn counted_at(bytes: Seq<u8>, at: int, width: nat) -> Result<(Seq<u8>, int), Refused> {
    match number_at(bytes, at, width) {
        Err(e) => Err(e),
        Ok(length) => if length > usize::MAX {
            Err(Refused { offset: at, refusal: Refusal::TooLong })
        } else {
            match field(bytes, at + width, length) {
                Err(e) => Err(e),
                Ok(b) => Ok((b, at + width + length)),
            }
        },
    }
}

/// The element at `at`, and where it ends; `None` is an end-of-container.
pub open spec fn element_at(bytes: Seq<u8>, at: int) -> Result<(Option<ElementView>, int), Refused>
    decreases bytes.len() - at, 0int,
{
    if at < 0 || at >= bytes.len() {
        Err(Refused { offset: at, refusal: Refusal::Short { need: 1, remain: 0 } })
    } else if bytes[at] == END_OF_CONTAINER {
        Ok((None, at + 1))
    } else {
        let control = bytes[at];
        match tag_at(bytes, at + 1, control / 32) {
            Err(e) => Err(e),
            Ok((tag, after_tag)) => match value_at(bytes, after_tag, control % 32, at) {
                Err(e) => Err(e),
                Ok((value, end)) => Ok((Some(ElementView { tag, value }), end)),
            },
        }
    }
}

/// The value of element type `kind` whose bytes start at `at`, in the element
/// that starts at `start`, and where it ends.
pub open spec fn value_at(bytes: Seq<u8>, at: int, kind: u8, start: int) -> Result<
    (ValueView, int),
    Refused,
>
    decreases bytes.len() - at, 2int,
{
    if kind <= 0x03 {
        let width = code_width(kind);
        match number_at(bytes, at, width) {
            Err(e) => Err(e),
            Ok(n) => Ok((ValueView::Signed(sign_extended(n, width) as i64), at + width)),
        }
    } else if kind <= 0x07 {
        let width = code_width((kind - 4) as u8);
        match number_at(bytes, at, width) {
            Err(e) => Err(e),
            Ok(n) => Ok((ValueView::Unsigned(n as u64), at + width)),
        }
    } else if kind == 0x08 {
        Ok((ValueView::Bool(false), at))
    } else if kind == 0x09 {
        Ok((ValueView::Bool(true), at))
    } else if kind == 0x0A {
        match number_at(bytes, at, 4) {
            Err(e) => Err(e),
            Ok(n) => Ok((ValueView::Float(n as u32), at + 4)),
        }
    } else if kind == 0x0B {
        match number_at(bytes, at, 8) {
            Err(e) => Err(e),
            Ok(n) => Ok((ValueView::Double(n as u64), at + 8)),
        }
    } else if kind <= 0x0F {
        match counted_at(bytes, at, code_width((kind - 0x0C) as u8)) {
            Err(e) => Err(e),
            Ok((b, end)) => if valid_utf8(b) {
                Ok((ValueView::Utf8(decode_utf8(b)), end))
            } else {
                Err(Refused { offset: at, refusal: Refusal::NotUtf8 })
            },
        }
    } else if kind <= 0x13 {
        match counted_at(bytes, at, code_width((kind - 0x10) as u8)) {
            Err(e) => Err(e),
            Ok((b, end)) => Ok((ValueView::Octets(b), end)),
        }
    } else if kind == 0x14 {
        Ok((ValueView::Null, at))
    } else if kind <= 0x17 {
        match members_at(bytes, at, start) {
            Err(e) => Err(e),
            Ok((members, end)) => if kind == 0x15 {
                Ok((ValueView::Structure(members), end))
            } else if kind == 0x16 {
                Ok((ValueView::Array(members), end))
            } else {
                Ok((ValueView::List(members), end))
            },
        }
    } else {
        Err(Refused { offset: start, refusal: Refusal::Undefined(kind) })
    }
}

/// The members of the container opened at `opened` from `at` to its
/// end-of-container, and where the container ends.
pub open spec fn members_at(bytes: Seq<u8>, at: int, opened: int) -> Result<
    (Seq<ElementView>, int),
    Refused,
>
    decreases bytes.len() - at, 1int,
{
    if at < 0 || at >= bytes.len() {
        Err(Refused { offset: opened, refusal: Refusal::Unclosed })
    } else {
        match element_at(bytes, at) {
            Err(e) => Err(e),
            Ok((None, end)) => Ok((seq![], end)),
            Ok((Some(member), next)) => if next <= at || next > bytes.len() {
                Err(Refused { offset: opened, refusal: Refusal::Unclosed })
            } else {
                match members_at(bytes, next, opened) {
                    Err(e) => Err(e),
                    Ok((rest, end)) => Ok((seq![member] + rest, end)),
                }
            },
        }
    }
}

/// What bytes hold: one element, and nothing after it.
pub open spec fn decoding(bytes: Seq<u8>) -> Result<ElementView, Refused> {
    match element_at(bytes, 0) {
        Err(e) => Err(e),
        Ok((None, _)) => Err(Refused { offset: 0, refusal: Refusal::EndFirst }),
        Ok((Some(element), end)) => if end < bytes.len() {
            Err(Refused { offset: end, refusal: Refusal::Trailing })
        } else {
            Ok(element)
        },
    }
}

} // verus!
