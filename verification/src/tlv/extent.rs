//! Where reading stops: a refusal always points inside the bytes, an element
//! read is read from its own bytes alone, and bytes after a whole element are
//! refused where the element ends.

use vstd::prelude::*;
use crate::tlv::ElementView;
use crate::tlv::layout::{
    Refusal,
    Refused,
    field,
    number_at,
    tag_at,
    counted_at,
    element_at,
    value_at,
    members_at,
    decoding,
    END_OF_CONTAINER,
};

verus! {

/// A result of reading from `at`: a success that ends between `low` and the
/// end of the bytes, or a refusal whose offset lies within the bytes.
pub open spec fn within<T>(r: Result<(T, int), Refused>, low: int, len: int) -> bool {
    match r {
        Ok((_, end)) => low <= end <= len,
        Err(e) => 0 <= e.offset <= len,
    }
}

proof fn lemma_field_within(bytes: Seq<u8>, at: int, need: nat)
    requires
        0 <= at <= bytes.len(),
    ensures
        field(bytes, at, need) is Ok ==> at + need <= bytes.len(),
        field(bytes, at, need) matches Err(e) ==> 0 <= e.offset <= bytes.len(),
{
}

proof fn lemma_tag_within(bytes: Seq<u8>, at: int, control: u8)
    requires
        0 <= at <= bytes.len(),
    ensures
        within(tag_at(bytes, at, control), at, bytes.len() as int),
{
    lemma_field_within(bytes, at, 1);
    lemma_field_within(bytes, at, 2);
    lemma_field_within(bytes, at, 4);
    if at + 2 <= bytes.len() {
        lemma_field_within(bytes, at + 2, 2);
    }
    if at + 4 <= bytes.len() {
        lemma_field_within(bytes, at + 4, 2);
        lemma_field_within(bytes, at + 4, 4);
    }
}

proof fn lemma_counted_within(bytes: Seq<u8>, at: int, width: nat)
    requires
        0 <= at <= bytes.len(),
    ensures
        within(counted_at(bytes, at, width), at, bytes.len() as int),
{
    lemma_field_within(bytes, at, width);
    if at + width <= bytes.len() {
        match number_at(bytes, at, width) {
            Ok(length) => lemma_field_within(bytes, at + width, length),
            Err(_) => {},
        }
    }
}

/// An element read from `at` ends past `at` and within the bytes; a refusal
/// points inside the bytes.
pub proof fn lemma_element_within(bytes: Seq<u8>, at: int)
    requires
        0 <= at <= bytes.len(),
    ensures
        within(element_at(bytes, at), at + 1, bytes.len() as int),
    decreases bytes.len() - at, 0int,
{
    if at < bytes.len() && bytes[at] != END_OF_CONTAINER {
        let control = bytes[at];
        lemma_tag_within(bytes, at + 1, control / 32);
        match tag_at(bytes, at + 1, control / 32) {
            Ok((_, after_tag)) => lemma_value_within(bytes, after_tag, control % 32, at),
            Err(_) => {},
        }
    }
}

/// A value read from `at`, in an element that starts at `start`, ends within
/// the bytes; a refusal points inside the bytes.
pub proof fn lemma_value_within(bytes: Seq<u8>, at: int, kind: u8, start: int)
    requires
        0 <= start < at <= bytes.len(),
    ensures
        within(value_at(bytes, at, kind, start), at, bytes.len() as int),
    decreases bytes.len() - at, 2int,
{
    lemma_field_within(bytes, at, 1);
    lemma_field_within(bytes, at, 2);
    lemma_field_within(bytes, at, 4);
    lemma_field_within(bytes, at, 8);
    lemma_counted_within(bytes, at, 1);
    lemma_counted_within(bytes, at, 2);
    lemma_counted_within(bytes, at, 4);
    lemma_counted_within(bytes, at, 8);
    if 0x14 < kind && kind <= 0x17 {
        lemma_members_within(bytes, at, start);
    }
}

/// The members of a container opened at `opened`, read from `at`, end past
/// `at` and within the bytes; a refusal points inside the bytes.
pub proof fn lemma_members_within(bytes: Seq<u8>, at: int, opened: int)
    requires
        0 <= opened < at <= bytes.len(),
    ensures
        within(members_at(bytes, at, opened), at + 1, bytes.len() as int),
    decreases bytes.len() - at, 1int,
{
    if at < bytes.len() {
        lemma_element_within(bytes, at);
        match element_at(bytes, at) {
            Ok((Some(_), next)) => if at < next <= bytes.len() {
                lemma_members_within(bytes, next, opened);
            },
            _ => {},
        }
    }
}

/// Where bytes are refused, the refusal's offset lies within them.
pub proof fn refusal_lies_within_the_bytes(bytes: Seq<u8>)
    ensures
        decoding(bytes) matches Err(e) ==> 0 <= e.offset <= bytes.len(),
{
    lemma_element_within(bytes, 0);
}

proof fn lemma_field_prefix(bytes: Seq<u8>, rest: Seq<u8>, at: int, need: nat)
    requires
        0 <= at,
        field(bytes, at, need) is Ok,
    ensures
        field(bytes + rest, at, need) == field(bytes, at, need),
{
    assert((bytes + rest).subrange(at, at + need) =~= bytes.subrange(at, at + need));
}

proof fn lemma_number_prefix(bytes: Seq<u8>, rest: Seq<u8>, at: int, width: nat)
    requires
        0 <= at,
        number_at(bytes, at, width) is Ok,
    ensures
        number_at(bytes + rest, at, width) == number_at(bytes, at, width),
{
    lemma_field_prefix(bytes, rest, at, width);
}

proof fn lemma_tag_prefix(bytes: Seq<u8>, rest: Seq<u8>, at: int, control: u8)
    requires
        0 <= at,
        tag_at(bytes, at, control) is Ok,
    ensures
        tag_at(bytes + rest, at, control) == tag_at(bytes, at, control),
{
    if control == 1 {
        lemma_number_prefix(bytes, rest, at, 1);
    } else if control == 2 || control == 4 {
        lemma_number_prefix(bytes, rest, at, 2);
    } else if control == 3 || control == 5 {
        lemma_number_prefix(bytes, rest, at, 4);
    } else if control != 0 {
        let width: nat = if control == 6 { 2 } else { 4 };
        lemma_number_prefix(bytes, rest, at, 2);
        lemma_number_prefix(bytes, rest, at + 2, 2);
        lemma_number_prefix(bytes, rest, at + 4, width);
    }
}

proof fn lemma_counted_prefix(bytes: Seq<u8>, rest: Seq<u8>, at: int, width: nat)
    requires
        0 <= at,
        counted_at(bytes, at, width) is Ok,
    ensures
        counted_at(bytes + rest, at, width) == counted_at(bytes, at, width),
{
    lemma_number_prefix(bytes, rest, at, width);
    let length = number_at(bytes, at, width)->Ok_0;
    lemma_field_prefix(bytes, rest, at + width, length);
}

/// An element read from `at` reads the same with more bytes after them.
pub proof fn lemma_element_prefix(bytes: Seq<u8>, rest: Seq<u8>, at: int)
    requires
        0 <= at <= bytes.len(),
        element_at(bytes, at) is Ok,
    ensures
        element_at(bytes + rest, at) == element_at(bytes, at),
    decreases bytes.len() - at, 0int,
{
    let more = bytes + rest;
    assert(more[at] == bytes[at]);
    if bytes[at] != END_OF_CONTAINER {
        let control = bytes[at];
        lemma_tag_prefix(bytes, rest, at + 1, control / 32);
        lemma_tag_within(bytes, at + 1, control / 32);
        let after_tag = tag_at(bytes, at + 1, control / 32)->Ok_0.1;
        lemma_value_prefix(bytes, rest, after_tag, control % 32, at);
    }
}

/// A value read from `at` reads the same with more bytes after them.
pub proof fn lemma_value_prefix(bytes: Seq<u8>, rest: Seq<u8>, at: int, kind: u8, start: int)
    requires
        0 <= start < at <= bytes.len(),
        value_at(bytes, at, kind, start) is Ok,
    ensures
        value_at(bytes + rest, at, kind, start) == value_at(bytes, at, kind, start),
    decreases bytes.len() - at, 2int,
{
    if kind <= 0x03 {
        lemma_number_prefix(bytes, rest, at, crate::tlv::layout::code_width(kind));
    } else if kind <= 0x07 {
        lemma_number_prefix(bytes, rest, at, crate::tlv::layout::code_width((kind - 4) as u8));
    } else if kind == 0x0A {
        lemma_number_prefix(bytes, rest, at, 4);
    } else if kind == 0x0B {
        lemma_number_prefix(bytes, rest, at, 8);
    } else if 0x0C <= kind && kind <= 0x0F {
        lemma_counted_prefix(bytes, rest, at, crate::tlv::layout::code_width((kind - 0x0C) as u8));
    } else if 0x10 <= kind && kind <= 0x13 {
        lemma_counted_prefix(bytes, rest, at, crate::tlv::layout::code_width((kind - 0x10) as u8));
    } else if 0x14 < kind && kind <= 0x17 {
        lemma_members_prefix(bytes, rest, at, start);
    }
}

/// The members of a container read from `at` read the same with more bytes
/// after them.
pub proof fn lemma_members_prefix(bytes: Seq<u8>, rest: Seq<u8>, at: int, opened: int)
    requires
        0 <= opened < at <= bytes.len(),
        members_at(bytes, at, opened) is Ok,
    ensures
        members_at(bytes + rest, at, opened) == members_at(bytes, at, opened),
    decreases bytes.len() - at, 1int,
{
    lemma_element_prefix(bytes, rest, at);
    match element_at(bytes, at) {
        Ok((Some(_), next)) => {
            lemma_members_prefix(bytes, rest, next, opened);
        },
        _ => {},
    }
}

/// Bytes after a whole element are refused at the offset where the element
/// ends, which is the length of its bytes.
pub proof fn bytes_after_an_element_are_refused(bytes: Seq<u8>, rest: Seq<u8>)
    requires
        decoding(bytes) is Ok,
        rest.len() > 0,
    ensures
        decoding(bytes + rest) == Err::<ElementView, Refused>(
            Refused { offset: bytes.len() as int, refusal: Refusal::Trailing },
        ),
{
    lemma_element_prefix(bytes, rest, 0);
    lemma_element_within(bytes, 0);
}

} // verus!
