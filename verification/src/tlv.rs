//! Matter TLV: the encoding every Interaction Model message is written in.
//!
//! One control byte opens each element: the element type in its low five bits,
//! the tag control in its high three. The tag follows, then the value; a
//! container holds elements until an end-of-container byte. Every number is
//! little-endian. An [`Element`] here is a tag and a [`Value`]; [`encode`]
//! writes one and [`decode`] reads one back, refusing anything malformed with
//! the byte offset where it stopped.
//!
//! What the bytes mean is stated in [`layout`]: `layout::encoding` is the bytes
//! of an element, `layout::decoding` what bytes read back as; the functions
//! here are proved to compute exactly those.

pub mod layout;
pub mod proofs;
pub mod extent;
pub mod wire;
use vstd::prelude::*;
use vstd::slice::{slice_subrange, slice_to_vec};
use vstd::utf8::{decode_utf8, valid_utf8};
use crate::text::{push_decimal, push_hex};
use layout::{
    Refused,
    Refusal,
    reason,
    pow256,
    le_bytes,
    le_value,
    unsigned_width,
    signed_width,
    twos_complement,
    tag_control,
    tag_field,
    element_type,
    value_field,
    members_encoding,
    encoding,
    number_at,
    tag_at,
    counted_at,
    element_at,
    value_at,
    members_at,
    decoding,
    END_OF_CONTAINER,
    code_width,
    sign_extended,
    number_bytes,
    counted,
};
use proofs::lemma_pow256_values;

verus! {

/// Where an element's tag comes from.
#[derive(Clone, Copy, Debug, PartialEq, Eq, Structural)]
pub enum Tag {
    /// No tag: an array element, or a message's top-level structure.
    Anonymous,
    /// A tag whose meaning is given by the enclosing structure.
    Context(u8),
    /// A tag from the Matter common profile.
    Common(u32),
    /// A tag from the profile the message implies.
    Implicit(u32),
    /// A tag with its vendor and profile spelled out.
    FullyQualified { vendor: u16, profile: u16, number: u32 },
}

/// What an element holds.
///
/// A floating-point value is held as the bits of its IEEE 754 form
/// (`f32::to_bits`, `f64::to_bits`): that is what the bytes carry, and it
/// comes back bit for bit.
#[derive(Debug, PartialEq)]
pub enum Value {
    Signed(i64),
    Unsigned(u64),
    Bool(bool),
    Float(u32),
    Double(u64),
    Utf8(String),
    Octets(Vec<u8>),
    Null,
    Structure(Vec<Element>),
    Array(Vec<Element>),
    List(Vec<Element>),
}

/// A tag and its value.
#[derive(Debug, PartialEq)]
pub struct Element {
    pub tag: Tag,
    pub value: Value,
}

/// An element as a mathematical value: a tag and its content.
pub struct ElementView {
    pub tag: Tag,
    pub value: ValueView,
}

/// A value as a mathematical value: text as its characters, bytes and
/// members as sequences.
pub enum ValueView {
    Signed(i64),
    Unsigned(u64),
    Bool(bool),
    Float(u32),
    Double(u64),
    Utf8(Seq<char>),
    Octets(Seq<u8>),
    Null,
    Structure(Seq<ElementView>),
    Array(Seq<ElementView>),
    List(Seq<ElementView>),
}

/// The view of each element of `members`.
pub open spec fn members_view(members: Vec<Element>) -> Seq<ElementView>
    decreases members, 2int,
{
    Seq::new(
        members@.len(),
        |i: int|
            if 0 <= i < members@.len() {
                element_view(members@[i])
            } else {
                ElementView { tag: Tag::Anonymous, value: ValueView::Null }
            },
    )
}

pub open spec fn value_view(value: Value) -> ValueView
    decreases value, 1int,
{
    match value {
        Value::Signed(n) => ValueView::Signed(n),
        Value::Unsigned(n) => ValueView::Unsigned(n),
        Value::Bool(b) => ValueView::Bool(b),
        Value::Float(bits) => ValueView::Float(bits),
        Value::Double(bits) => ValueView::Double(bits),
        Value::Utf8(text) => ValueView::Utf8(text@),
        Value::Octets(bytes) => ValueView::Octets(bytes@),
        Value::Null => ValueView::Null,
        Value::Structure(members) => ValueView::Structure(members_view(members)),
        Value::Array(members) => ValueView::Array(members_view(members)),
        Value::List(members) => ValueView::List(members_view(members)),
    }
}

pub open spec fn element_view(element: Element) -> ElementView
    decreases element, 0int,
{
    ElementView { tag: element.tag, value: value_view(element.value) }
}

impl View for Element {
    type V = ElementView;

    open spec fn view(&self) -> ElementView {
        element_view(*self)
    }
}

impl View for Value {
    type V = ValueView;

    open spec fn view(&self) -> ValueView {
        value_view(*self)
    }
}

/// The members of a structure, array or list.
pub open spec fn members_of(value: ValueView) -> Option<Seq<ElementView>> {
    match value {
        ValueView::Structure(members) => Some(members),
        ValueView::Array(members) => Some(members),
        ValueView::List(members) => Some(members),
        _ => None,
    }
}

/// The first of `members` that carries context tag `number`.
pub open spec fn first_with_context(members: Seq<ElementView>, number: u8) -> Option<ElementView>
    decreases members.len(),
{
    if members.len() == 0 {
        None
    } else if members[0].tag == Tag::Context(number) {
        Some(members[0])
    } else {
        first_with_context(members.drop_first(), number)
    }
}

/// The member of a container carrying context tag `number`, if any.
pub open spec fn member_of(element: ElementView, number: u8) -> Option<ElementView> {
    match members_of(element.value) {
        Some(members) => first_with_context(members, number),
        None => None,
    }
}

/// An element's number as unsigned, where it is a non-negative integer.
pub open spec fn unsigned_of(element: ElementView) -> Option<u64> {
    match element.value {
        ValueView::Unsigned(n) => Some(n),
        ValueView::Signed(n) => if n >= 0 { Some(n as u64) } else { None },
        _ => None,
    }
}

/// An element's boolean, where it is one.
pub open spec fn bool_of(element: ElementView) -> Option<bool> {
    match element.value {
        ValueView::Bool(b) => Some(b),
        _ => None,
    }
}

/// The members an exec value holds, where it is a container.
pub open spec fn held_members(value: Value) -> Option<Seq<Element>> {
    match value {
        Value::Structure(members) => Some(members@),
        Value::Array(members) => Some(members@),
        Value::List(members) => Some(members@),
        _ => None,
    }
}

pub proof fn lemma_members_view_push(members: Vec<Element>, before: Vec<Element>, last: Element)
    requires
        members@ == before@.push(last),
    ensures
        members_view(members) == members_view(before).push(element_view(last)),
{
    assert(members_view(members) =~= members_view(before).push(element_view(last)));
}

pub proof fn lemma_members_view_index(members: Vec<Element>, i: int)
    requires
        0 <= i < members@.len(),
    ensures
        members_view(members)[i] == element_view(members@[i]),
        members_view(members).len() == members@.len(),
{
}

impl Element {
    pub fn new(tag: Tag, value: Value) -> (e: Element)
        ensures
            e.tag == tag,
            e.value == value,
    {
        Element { tag, value }
    }

    /// A member of a context-tagged structure.
    pub fn context(number: u8, value: Value) -> (e: Element)
        ensures
            e.tag == Tag::Context(number),
            e.value == value,
    {
        Element { tag: Tag::Context(number), value }
    }

    /// The elements of a structure, array or list.
    pub fn members(&self) -> (r: Option<&[Element]>)
        ensures
            match r {
                Some(s) => held_members(self.value) == Some(s@),
                None => held_members(self.value) is None,
            },
            r is Some <==> members_of(self@.value) is Some,
    {
        match &self.value {
            Value::Structure(members) => Some(members.as_slice()),
            Value::Array(members) => Some(members.as_slice()),
            Value::List(members) => Some(members.as_slice()),
            _ => None,
        }
    }

    /// The member of a container carrying context tag `number`, if any.
    pub fn member(&self, number: u8) -> (r: Option<&Element>)
        ensures
            match r {
                Some(m) => member_of(self@, number) == Some(m@),
                None => member_of(self@, number) is None,
            },
    {
        let members = match &self.value {
            Value::Structure(members) => members,
            Value::Array(members) => members,
            Value::List(members) => members,
            _ => {
                return None;
            },
        };
        let ghost all = members_view(*members);
        assert(members_of(self@.value) == Some(all));
        assert(all.skip(0) =~= all);
        let mut i: usize = 0;
        while i < members.len()
            invariant
                i <= members@.len(),
                all == members_view(*members),
                member_of(self@, number) == first_with_context(all, number),
                first_with_context(all, number) == first_with_context(all.skip(i as int), number),
            decreases members@.len() - i,
        {
            proof {
                lemma_members_view_index(*members, i as int);
                assert(all.skip(i as int).drop_first() =~= all.skip(i + 1));
            }
            let found = match members[i].tag {
                Tag::Context(n) => n == number,
                _ => false,
            };
            if found {
                assert(all.skip(i as int)[0] == members@[i as int]@);
                return Some(&members[i]);
            }
            i = i + 1;
        }
        proof {
            assert(all.skip(i as int) =~= Seq::<ElementView>::empty());
        }
        None
    }

    /// The number this element holds, where it is a non-negative integer.
    pub fn as_unsigned(&self) -> (r: Option<u64>)
        ensures
            r == unsigned_of(self@),
    {
        match self.value {
            Value::Unsigned(n) => Some(n),
            Value::Signed(n) => if n >= 0 {
                Some(n as u64)
            } else {
                None
            },
            _ => None,
        }
    }

    /// The boolean this element holds, where it is one.
    pub fn as_bool(&self) -> (r: Option<bool>)
        ensures
            r == bool_of(self@),
    {
        match self.value {
            Value::Bool(b) => Some(b),
            _ => None,
        }
    }
}

/// A copy of `element`, member by member.
pub fn copy_element(element: &Element) -> (r: Element)
    ensures
        r@ == element@,
    decreases element, 0int,
{
    Element { tag: element.tag, value: copy_value(&element.value) }
}

/// A copy of `value`, member by member.
pub fn copy_value(value: &Value) -> (r: Value)
    ensures
        r@ == value@,
    decreases value, 1int,
{
    match value {
        Value::Signed(n) => Value::Signed(*n),
        Value::Unsigned(n) => Value::Unsigned(*n),
        Value::Bool(b) => Value::Bool(*b),
        Value::Float(bits) => Value::Float(*bits),
        Value::Double(bits) => Value::Double(*bits),
        Value::Utf8(text) => Value::Utf8(text.clone()),
        Value::Octets(bytes) => Value::Octets(slice_to_vec(bytes.as_slice())),
        Value::Null => Value::Null,
        Value::Structure(members) => Value::Structure(copy_members(members)),
        Value::Array(members) => Value::Array(copy_members(members)),
        Value::List(members) => Value::List(copy_members(members)),
    }
}

/// A copy of each of `members`.
pub fn copy_members(members: &Vec<Element>) -> (r: Vec<Element>)
    ensures
        members_view(r) == members_view(*members),
    decreases members, 2int,
{
    let mut r: Vec<Element> = Vec::new();
    let mut i: usize = 0;
    while i < members.len()
        invariant
            i <= members@.len(),
            r@.len() == i,
            forall|k: int| 0 <= k < i ==> element_view(#[trigger] r@[k]) == element_view(members@[k]),
        decreases members@.len() - i,
    {
        let copy = copy_element(&members[i]);
        r.push(copy);
        i = i + 1;
    }
    assert(members_view(r) =~= members_view(*members));
    r
}

impl Clone for Element {
    fn clone(&self) -> (r: Self)
        ensures
            r@ == self@,
    {
        copy_element(self)
    }
}

impl Clone for Value {
    fn clone(&self) -> (r: Self)
        ensures
            r@ == self@,
    {
        copy_value(self)
    }
}

/// Appends the low `width` bytes of `n`, least significant first.
fn push_le(out: &mut Vec<u8>, n: u64, width: usize)
    requires
        width <= 8,
    ensures
        final(out)@ == old(out)@ + le_bytes(n as nat, width as nat),
{
    let mut x = n;
    let mut k: usize = 0;
    while k < width
        invariant
            k <= width,
            out@ + le_bytes(x as nat, (width - k) as nat) == old(out)@ + le_bytes(
                n as nat,
                width as nat,
            ),
        decreases width - k,
    {
        let ghost before = out@;
        out.push((x % 256) as u8);
        proof {
            assert(le_bytes(x as nat, (width - k) as nat) =~= seq![(x % 256) as u8] + le_bytes(
                (x / 256) as nat,
                (width - k - 1) as nat,
            ));
            assert(out@ + le_bytes((x / 256) as nat, (width - k - 1) as nat) =~= before
                + le_bytes(x as nat, (width - k) as nat));
        }
        x = x / 256;
        k = k + 1;
    }
    assert(le_bytes(x as nat, 0) =~= Seq::<u8>::empty());
    assert(out@ =~= old(out)@ + le_bytes(n as nat, width as nat));
}

/// Appends `bytes`.
fn push_all(out: &mut Vec<u8>, bytes: &[u8])
    ensures
        final(out)@ == old(out)@ + bytes@,
{
    let mut i: usize = 0;
    while i < bytes.len()
        invariant
            i <= bytes@.len(),
            out@ == old(out)@ + bytes@.subrange(0, i as int),
        decreases bytes@.len() - i,
    {
        out.push(bytes[i]);
        proof {
            assert(bytes@.subrange(0, i + 1) =~= bytes@.subrange(0, i as int).push(bytes@[i as int]));
        }
        i = i + 1;
    }
    assert(bytes@.subrange(0, bytes@.len() as int) =~= bytes@);
}

/// The narrowest of one, two, four or eight bytes that holds `n`.
fn narrowest_unsigned(n: u64) -> (w: usize)
    ensures
        w == unsigned_width(n as nat),
{
    if n < 0x100 {
        1
    } else if n < 0x1_0000 {
        2
    } else if n < 0x1_0000_0000 {
        4
    } else {
        8
    }
}

/// The two bits of an element type that name `width`.
fn code_of(width: usize) -> (c: u8)
    ensures
        c == layout::width_code(width as nat),
{
    if width == 1 {
        0
    } else if width == 2 {
        1
    } else if width == 4 {
        2
    } else {
        3
    }
}

/// The tag control a tag is written under.
fn control_of(tag: Tag) -> (c: u8)
    ensures
        c == tag_control(tag),
{
    match tag {
        Tag::Anonymous => 0x00,
        Tag::Context(_) => 0x20,
        Tag::Common(n) => if n <= 0xFFFF { 0x40 } else { 0x60 },
        Tag::Implicit(n) => if n <= 0xFFFF { 0x80 } else { 0xA0 },
        Tag::FullyQualified { number, .. } => if number <= 0xFFFF { 0xC0 } else { 0xE0 },
    }
}

/// Appends a profile tag's number, two bytes where it fits, else four.
fn push_number(out: &mut Vec<u8>, n: u32)
    ensures
        final(out)@ == old(out)@ + number_bytes(n),
{
    if n <= 0xFFFF {
        push_le(out, n as u64, 2);
    } else {
        push_le(out, n as u64, 4);
    }
}

/// Appends the bytes of a tag that follow the control byte.
fn push_tag(out: &mut Vec<u8>, tag: Tag)
    ensures
        final(out)@ == old(out)@ + tag_field(tag),
{
    match tag {
        Tag::Anonymous => {
            assert(out@ =~= old(out)@ + tag_field(tag));
        },
        Tag::Context(n) => {
            out.push(n);
            assert(out@ =~= old(out)@ + tag_field(tag));
        },
        Tag::Common(n) => push_number(out, n),
        Tag::Implicit(n) => push_number(out, n),
        Tag::FullyQualified { vendor, profile, number } => {
            push_le(out, vendor as u64, 2);
            push_le(out, profile as u64, 2);
            push_number(out, number);
            assert(out@ =~= old(out)@ + tag_field(tag));
        },
    }
}

/// The element type a value is written under.
fn type_of(value: &Value) -> (t: u8)
    ensures
        t == element_type(value@),
{
    match value {
        Value::Signed(n) => {
            let n = *n;
            if -0x80 <= n && n < 0x80 {
                0
            } else if -0x8000 <= n && n < 0x8000 {
                1
            } else if -0x8000_0000 <= n && n < 0x8000_0000 {
                2
            } else {
                3
            }
        },
        Value::Unsigned(n) => 0x04 + code_of(narrowest_unsigned(*n)),
        Value::Bool(b) => if *b {
            0x09
        } else {
            0x08
        },
        Value::Float(_) => 0x0A,
        Value::Double(_) => 0x0B,
        Value::Utf8(text) => 0x0C + code_of(narrowest_unsigned(text.as_str().as_bytes().len() as u64)),
        Value::Octets(bytes) => 0x10 + code_of(narrowest_unsigned(bytes.len() as u64)),
        Value::Null => 0x14,
        Value::Structure(_) => 0x15,
        Value::Array(_) => 0x16,
        Value::List(_) => 0x17,
    }
}

/// Appends a length in its narrowest width, then the bytes.
fn push_counted(out: &mut Vec<u8>, bytes: &[u8])
    ensures
        final(out)@ == old(out)@ + counted(bytes@),
{
    let length = bytes.len() as u64;
    push_le(out, length, narrowest_unsigned(length));
    push_all(out, bytes);
    assert(out@ =~= old(out)@ + counted(bytes@));
}

/// Appends a signed number in the narrowest width that holds it.
fn push_signed(out: &mut Vec<u8>, n: i64)
    ensures
        final(out)@ == old(out)@ + le_bytes(twos_complement(n, signed_width(n)), signed_width(n)),
{
    proof {
        lemma_pow256_values();
    }
    let (width, span): (usize, u128) = if -0x80 <= n && n < 0x80 {
        (1, 0x100)
    } else if -0x8000 <= n && n < 0x8000 {
        (2, 0x1_0000)
    } else if -0x8000_0000 <= n && n < 0x8000_0000 {
        (4, 0x1_0000_0000)
    } else {
        (8, 0x1_0000_0000_0000_0000)
    };
    let u: u64 = if n >= 0 {
        n as u64
    } else {
        (n as i128 + span as i128) as u64
    };
    assert(u == twos_complement(n, signed_width(n)));
    push_le(out, u, width);
}

/// Appends an element: control byte, tag, value. What was there stays.
pub fn write(element: &Element, out: &mut Vec<u8>)
    ensures
        final(out)@ == old(out)@ + encoding(element@),
    decreases element, 0int,
{
    let control = control_of(element.tag) + type_of(&element.value);
    proof {
        proofs::lemma_control_byte(element@);
    }
    out.push(control);
    push_tag(out, element.tag);
    write_value(&element.value, out);
    assert(out@ =~= old(out)@ + encoding(element@));
}

/// Appends the bytes of a value that follow the tag.
fn write_value(value: &Value, out: &mut Vec<u8>)
    ensures
        final(out)@ == old(out)@ + value_field(value@),
    decreases value, 1int,
{
    match value {
        Value::Signed(n) => push_signed(out, *n),
        Value::Unsigned(n) => push_le(out, *n, narrowest_unsigned(*n)),
        Value::Bool(_) => {
            assert(out@ =~= old(out)@ + value_field(value@));
        },
        Value::Float(bits) => push_le(out, *bits as u64, 4),
        Value::Double(bits) => push_le(out, *bits, 8),
        Value::Utf8(text) => push_counted(out, text.as_str().as_bytes()),
        Value::Octets(bytes) => push_counted(out, bytes.as_slice()),
        Value::Null => {
            assert(out@ =~= old(out)@ + value_field(value@));
        },
        Value::Structure(members) => {
            write_container(members, out, 0x15);
        },
        Value::Array(members) => {
            write_container(members, out, 0x16);
        },
        Value::List(members) => {
            write_container(members, out, 0x17);
        },
    }
}

/// Appends the members of a container, one element after another, and its
/// end-of-container; gives back the container's element type. What was there
/// stays.
pub fn write_container(members: &Vec<Element>, out: &mut Vec<u8>, element_type: u8) -> (t: u8)
    ensures
        t == element_type,
        final(out)@ == old(out)@ + members_encoding(members_view(*members)) + seq![END_OF_CONTAINER],
    decreases members, 2int,
{
    let ghost all = members_view(*members);
    let mut i: usize = 0;
    assert(all.take(0) =~= Seq::<ElementView>::empty());
    assert(out@ =~= old(out)@ + members_encoding(all.take(0)));
    while i < members.len()
        invariant
            i <= members@.len(),
            all == members_view(*members),
            out@ == old(out)@ + members_encoding(all.take(i as int)),
        decreases members@.len() - i,
    {
        let ghost before = out@;
        write(&members[i], out);
        proof {
            lemma_members_view_index(*members, i as int);
            assert(all.take(i + 1).drop_last() =~= all.take(i as int));
            assert(all.take(i + 1).last() == all[i as int]);
            assert(out@ =~= old(out)@ + members_encoding(all.take(i + 1)));
        }
        i = i + 1;
    }
    out.push(END_OF_CONTAINER);
    assert(all.take(i as int) =~= all);
    assert(out@ =~= old(out)@ + members_encoding(all) + seq![END_OF_CONTAINER]);
    element_type
}

/// An element as bytes.
pub fn encode(element: &Element) -> (bytes: Vec<u8>)
    ensures
        bytes@ == encoding(element@),
{
    let mut out: Vec<u8> = Vec::new();
    write(element, &mut out);
    assert(out@ =~= encoding(element@));
    out
}

/// Why bytes are not TLV, and at which offset that became clear.
#[derive(Clone, Debug, PartialEq, Eq)]
pub struct TlvError {
    pub offset: usize,
    pub reason: String,
}

impl TlvError {
    /// This error reports `refused`: its offset, and the reason's text.
    pub open spec fn reports(self, refused: Refused) -> bool {
        &&& self.offset == refused.offset
        &&& self.reason@ == reason(refused.refusal)
    }

    fn new(offset: usize, reason: String) -> (e: TlvError)
        ensures
            e.offset == offset,
            e.reason@ == reason@,
    {
        TlvError { offset, reason }
    }

    /// The error as text: the reason, then the offset.
    pub fn to_string(&self) -> (s: String)
        ensures
            s@ == self.reason@ + " at offset "@ + crate::text::decimal(self.offset as nat),
    {
        let mut s = String::from_str(self.reason.as_str());
        s.append(" at offset ");
        push_decimal(&mut s, self.offset as u64);
        s
    }
}

/// A refusal whose reason is the fixed text `reason`.
fn refusal(offset: usize, reason: &str) -> (e: TlvError)
    ensures
        e.offset == offset,
        e.reason@ == reason@,
{
    TlvError::new(offset, String::from_str(reason))
}

/// A field of `need` bytes at `at` runs past the end, `remain` bytes before it.
fn short(at: usize, need: u64, remain: u64) -> (e: TlvError)
    ensures
        e.reports(Refused { offset: at as int, refusal: Refusal::Short { need: need as nat, remain: remain as nat } }),
{
    let mut text = String::from_str("a field of ");
    push_decimal(&mut text, need);
    text.append(" bytes runs past the end, ");
    push_decimal(&mut text, remain);
    text.append(" remain");
    TlvError::new(at, text)
}

/// The element type `kind` at the element starting at `start` is not defined.
fn undefined(start: usize, kind: u8) -> (e: TlvError)
    ensures
        e.reports(Refused { offset: start as int, refusal: Refusal::Undefined(kind) }),
{
    let mut text = String::from_str("element type 0x");
    push_hex(&mut text, kind as u64, 2);
    text.append(" is not defined");
    TlvError::new(start, text)
}

/// The exec result `r` is the read `s`: the same value and end, or an error
/// that reports the same refusal.
pub open spec fn same_read<T, U>(r: Result<(T, usize), TlvError>, s: Result<(U, int), Refused>, view: spec_fn(T) -> U) -> bool {
    match (r, s) {
        (Ok((x, end)), Ok((y, s_end))) => view(x) == y && end == s_end,
        (Err(e), Err(f)) => e.reports(f),
        _ => false,
    }
}

pub open spec fn element_option_view(e: Option<Element>) -> Option<ElementView> {
    match e {
        Some(x) => Some(element_view(x)),
        None => None,
    }
}

/// `String::from_utf8`: the text whose UTF-8 the bytes are, where they are
/// UTF-8. The standard library documents that it refuses exactly the bytes
/// that are not valid UTF-8; the text then holds the characters the bytes
/// encode.
#[verifier::external_body]
fn text_from_utf8(bytes: Vec<u8>) -> (r: Option<String>)
    ensures
        r is Some <==> valid_utf8(bytes@),
        r matches Some(text) ==> text@ == decode_utf8(bytes@),
{
    String::from_utf8(bytes).ok()
}

pub proof fn lemma_pow256_monotone(a: nat, b: nat)
    requires
        a <= b,
    ensures
        pow256(a) <= pow256(b),
    decreases b,
{
    if a < b {
        lemma_pow256_monotone(a, (b - 1) as nat);
        proofs::lemma_pow256_positive((b - 1) as nat);
    }
}

/// The little-endian number of `width` bytes at `at`.
fn read_number(bytes: &[u8], at: usize, width: usize) -> (r: Result<u64, TlvError>)
    requires
        at <= bytes@.len(),
        1 <= width <= 8,
    ensures
        match number_at(bytes@, at as int, width as nat) {
            Ok(n) => r == Ok::<u64, TlvError>(n as u64) && n <= u64::MAX,
            Err(f) => r matches Err(e) && e.reports(f),
        },
        r matches Ok(n) ==> at + width <= bytes@.len() <= usize::MAX && (n as nat) < pow256(width as nat),
{
    if width > bytes.len() - at {
        return Err(short(at, width as u64, (bytes.len() - at) as u64));
    }
    proof {
        lemma_pow256_values();
        reveal_with_fuel(pow256, 9);
    }
    let mut v: u64 = 0;
    let mut k: usize = width;
    assert(bytes@.subrange(at + k, at + width) =~= Seq::<u8>::empty());
    while k > 0
        invariant
            k <= width <= 8,
            at + width <= bytes@.len() <= usize::MAX,
            v == le_value(bytes@.subrange(at + k, at + width as int)),
            v < pow256((width - k) as nat),
        decreases k,
    {
        proof {
            lemma_pow256_monotone((width - k) as nat, 7);
            assert(pow256(7) == 0x100_0000_0000_0000) by {
                reveal_with_fuel(pow256, 8);
            }
        }
        k = k - 1;
        let byte = bytes[at + k];
        proof {
            let part = bytes@.subrange(at + k, at + width as int);
            assert(part.drop_first() =~= bytes@.subrange(at + k + 1, at + width as int));
            assert(part[0] == byte);
            let p = pow256((width - k - 1) as nat);
            assert(v * 256 + byte < 256 * p) by (nonlinear_arith)
                requires
                    v < p,
                    byte < 256,
            ;
        }
        v = v * 256 + byte as u64;
    }
    assert(bytes@.subrange(at as int, at + width as int) =~= bytes@.subrange(at + k, at + width as int));
    Ok(v)
}

/// The tag under tag control `control` whose bytes start at `at`.
fn read_tag(bytes: &[u8], at: usize, control: u8) -> (r: Result<(Tag, usize), TlvError>)
    requires
        at <= bytes@.len(),
        control < 8,
    ensures
        same_read(r, tag_at(bytes@, at as int, control), |t: Tag| t),
        r matches Ok((_, end)) ==> at <= end <= bytes@.len(),
{
    proof {
        lemma_pow256_values();
    }
    if control == 0 {
        Ok((Tag::Anonymous, at))
    } else if control == 1 {
        let n = match read_number(bytes, at, 1) {
            Ok(n) => n,
            Err(e) => return Err(e),
        };
        Ok((Tag::Context(n as u8), at + 1))
    } else if control <= 5 {
        let width: usize = if control == 2 || control == 4 { 2 } else { 4 };
        let n = match read_number(bytes, at, width) {
            Ok(n) => n,
            Err(e) => return Err(e),
        };
        if control <= 3 {
            Ok((Tag::Common(n as u32), at + width))
        } else {
            Ok((Tag::Implicit(n as u32), at + width))
        }
    } else {
        let width: usize = if control == 6 { 2 } else { 4 };
        let vendor = match read_number(bytes, at, 2) {
            Ok(n) => n,
            Err(e) => return Err(e),
        };
        let profile = match read_number(bytes, at + 2, 2) {
            Ok(n) => n,
            Err(e) => return Err(e),
        };
        let number = match read_number(bytes, at + 4, width) {
            Ok(n) => n,
            Err(e) => return Err(e),
        };
        Ok((
            Tag::FullyQualified { vendor: vendor as u16, profile: profile as u16, number: number as u32 },
            at + 4 + width,
        ))
    }
}

/// A length of `width` bytes at `at`, then that many bytes.
fn read_counted<'a>(bytes: &'a [u8], at: usize, width: usize) -> (r: Result<(&'a [u8], usize), TlvError>)
    requires
        at <= bytes@.len(),
        1 <= width <= 8,
    ensures
        same_read(r, counted_at(bytes@, at as int, width as nat), |b: &[u8]| b@),
        r matches Ok((_, end)) ==> at <= end <= bytes@.len(),
{
    let length = match read_number(bytes, at, width) {
        Ok(n) => n,
        Err(e) => return Err(e),
    };
    if length > usize::MAX as u64 {
        return Err(refusal(at, "the length does not fit this machine"));
    }
    let length = length as usize;
    let start = at + width;
    if length > bytes.len() - start {
        return Err(short(start, length as u64, (bytes.len() - start) as u64));
    }
    Ok((slice_subrange(bytes, start, start + length), start + length))
}

/// The width that two bits of an element type name.
fn width_of(code: u8) -> (w: usize)
    requires
        code < 4,
    ensures
        w == code_width(code),
        1 <= w <= 8,
{
    if code == 0 {
        1
    } else if code == 1 {
        2
    } else if code == 2 {
        4
    } else {
        8
    }
}

/// The element at `at`, and where it ends; `None` is an end-of-container.
fn read_element(bytes: &[u8], at: usize) -> (r: Result<(Option<Element>, usize), TlvError>)
    requires
        at <= bytes@.len(),
    ensures
        same_read(r, element_at(bytes@, at as int), |e: Option<Element>| element_option_view(e)),
        r matches Ok((_, end)) ==> at < end <= bytes@.len(),
    decreases bytes@.len() - at, 0int,
{
    if at >= bytes.len() {
        return Err(short(at, 1, 0));
    }
    let control = bytes[at];
    if control == END_OF_CONTAINER {
        return Ok((None, at + 1));
    }
    let (tag, after_tag) = match read_tag(bytes, at + 1, control / 32) {
        Ok(t) => t,
        Err(e) => return Err(e),
    };
    let (value, end) = match read_value(bytes, after_tag, control % 32, at) {
        Ok(v) => v,
        Err(e) => return Err(e),
    };
    Ok((Some(Element { tag, value }), end))
}

/// The value of element type `kind` whose bytes start at `at`, in the
/// element that starts at `start`.
fn read_value(bytes: &[u8], at: usize, kind: u8, start: usize) -> (r: Result<(Value, usize), TlvError>)
    requires
        start < at <= bytes@.len(),
        kind < 32,
    ensures
        same_read(r, value_at(bytes@, at as int, kind, start as int), |v: Value| value_view(v)),
        r matches Ok((_, end)) ==> at <= end <= bytes@.len(),
    decreases bytes@.len() - at, 2int,
{
    proof {
        lemma_pow256_values();
    }
    if kind <= 0x03 {
        let width = width_of(kind);
        let n = match read_number(bytes, at, width) {
            Ok(n) => n,
            Err(e) => return Err(e),
        };
        let half: u64 = if width == 1 {
            0x80
        } else if width == 2 {
            0x8000
        } else if width == 4 {
            0x8000_0000
        } else {
            0x8000_0000_0000_0000
        };
        let signed: i64 = if n < half {
            n as i64
        } else {
            (n as i128 - 2 * (half as i128)) as i64
        };
        assert(signed == sign_extended(n as nat, width as nat));
        Ok((Value::Signed(signed), at + width))
    } else if kind <= 0x07 {
        let width = width_of(kind - 4);
        let n = match read_number(bytes, at, width) {
            Ok(n) => n,
            Err(e) => return Err(e),
        };
        Ok((Value::Unsigned(n), at + width))
    } else if kind == 0x08 {
        Ok((Value::Bool(false), at))
    } else if kind == 0x09 {
        Ok((Value::Bool(true), at))
    } else if kind == 0x0A {
        let n = match read_number(bytes, at, 4) {
            Ok(n) => n,
            Err(e) => return Err(e),
        };
        Ok((Value::Float(n as u32), at + 4))
    } else if kind == 0x0B {
        let n = match read_number(bytes, at, 8) {
            Ok(n) => n,
            Err(e) => return Err(e),
        };
        Ok((Value::Double(n), at + 8))
    } else if kind <= 0x0F {
        let (field, end) = match read_counted(bytes, at, width_of(kind - 0x0C)) {
            Ok(c) => c,
            Err(e) => return Err(e),
        };
        match text_from_utf8(slice_to_vec(field)) {
            Some(text) => Ok((Value::Utf8(text), end)),
            None => Err(refusal(at, "the string is not UTF-8")),
        }
    } else if kind <= 0x13 {
        let (field, end) = match read_counted(bytes, at, width_of(kind - 0x10)) {
            Ok(c) => c,
            Err(e) => return Err(e),
        };
        Ok((Value::Octets(slice_to_vec(field)), end))
    } else if kind == 0x14 {
        Ok((Value::Null, at))
    } else if kind <= 0x17 {
        let (members, end) = match read_members(bytes, at, start) {
            Ok(m) => m,
            Err(e) => return Err(e),
        };
        if kind == 0x15 {
            Ok((Value::Structure(members), end))
        } else if kind == 0x16 {
            Ok((Value::Array(members), end))
        } else {
            Ok((Value::List(members), end))
        }
    } else {
        Err(undefined(start, kind))
    }
}

/// Members read so far, ahead of what the rest of the container reads as.
pub open spec fn ahead(prefix: Seq<ElementView>, rest: Result<(Seq<ElementView>, int), Refused>) -> Result<
    (Seq<ElementView>, int),
    Refused,
> {
    match rest {
        Ok((members, end)) => Ok((prefix + members, end)),
        Err(e) => Err(e),
    }
}

/// The members of the container opened at `opened`, from `at` to its
/// end-of-container.
fn read_members(bytes: &[u8], at: usize, opened: usize) -> (r: Result<(Vec<Element>, usize), TlvError>)
    requires
        at <= bytes@.len(),
    ensures
        same_read(r, members_at(bytes@, at as int, opened as int), |m: Vec<Element>| members_view(m)),
        r matches Ok((_, end)) ==> at <= end <= bytes@.len(),
    decreases bytes@.len() - at, 1int,
{
    let mut members: Vec<Element> = Vec::new();
    let mut pos = at;
    proof {
        let whole = members_at(bytes@, at as int, opened as int);
        assert(members_view(members) =~= Seq::<ElementView>::empty());
        if let Ok((ms, end)) = whole {
            assert(members_view(members) + ms =~= ms);
        }
    }
    loop
        invariant
            at <= pos <= bytes@.len(),
            members_at(bytes@, at as int, opened as int) == ahead(
                members_view(members),
                members_at(bytes@, pos as int, opened as int),
            ),
        decreases bytes@.len() - pos,
    {
        if pos >= bytes.len() {
            return Err(refusal(opened, "the container opened here is never closed"));
        }
        match read_element(bytes, pos) {
            Err(e) => {
                return Err(e);
            },
            Ok((None, end)) => {
                proof {
                    assert(members_view(members) + seq![] =~= members_view(members));
                }
                return Ok((members, end));
            },
            Ok((Some(member), next)) => {
                let ghost before = members;
                members.push(member);
                proof {
                    lemma_members_view_push(members, before, member);
                    let rest = members_at(bytes@, next as int, opened as int);
                    if let Ok((ms, end)) = rest {
                        assert(members_view(before) + (seq![element_view(member)] + ms) =~= members_view(
                            members,
                        ) + ms);
                    }
                }
                pos = next;
            },
        }
    }
}

/// One element, and nothing after it.
///
/// Refused where the bytes end inside an element, open a container they
/// never close, use an element type the specification does not define, or
/// go on past the element; the error carries the offset where that became
/// clear, which lies within the bytes. Bytes after a whole element are
/// refused at the element's length.
pub fn decode(bytes: &[u8]) -> (r: Result<Element, TlvError>)
    ensures
        match decoding(bytes@) {
            Ok(element) => r matches Ok(e) && e@ == element,
            Err(f) => r matches Err(e) && e.reports(f),
        },
        r matches Err(e) ==> e.offset <= bytes@.len(),
{
    proof {
        extent::refusal_lies_within_the_bytes(bytes@);
    }
    match read_element(bytes, 0) {
        Err(e) => Err(e),
        Ok((None, _)) => Err(refusal(0, "an end-of-container opens the bytes")),
        Ok((Some(element), end)) => if end < bytes.len() {
            Err(refusal(end, "bytes continue past the element"))
        } else {
            Ok(element)
        },
    }
}

} // verus!
