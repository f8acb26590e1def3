//! Why reading back what was written gives the element again.

use vstd::prelude::*;
use vstd::utf8::*;
use crate::tlv::{Tag, ElementView, ValueView, first_with_context};
use crate::tlv::layout::{
    pow256,
    le_bytes,
    le_value,
    sign_extended,
    unsigned_width,
    signed_width,
    twos_complement,
    tag_control,
    number_bytes,
    tag_field,
    element_type,
    control_byte,
    counted,
    value_field,
    members_encoding,
    encoding,
    Refused,
    number_at,
    tag_at,
    counted_at,
    element_at,
    value_at,
    members_at,
    decoding,
    END_OF_CONTAINER,
};

verus! {

/// `x` stands in `bytes` at `at`.
pub open spec fn holds_at(bytes: Seq<u8>, at: int, x: Seq<u8>) -> bool {
    &&& 0 <= at
    &&& at + x.len() <= bytes.len()
    &&& bytes.subrange(at, at + x.len()) == x
}

pub proof fn lemma_holds_at_split(bytes: Seq<u8>, at: int, x: Seq<u8>, y: Seq<u8>)
    requires
        holds_at(bytes, at, x + y),
    ensures
        holds_at(bytes, at, x),
        holds_at(bytes, at + x.len(), y),
{
    assert(bytes.subrange(at, at + x.len()) =~= (x + y).subrange(0, x.len() as int));
    assert(bytes.subrange(at + x.len(), at + x.len() + y.len()) =~= (x + y).subrange(
        x.len() as int,
        (x.len() + y.len()) as int,
    ));
    assert((x + y).subrange(0, x.len() as int) =~= x);
    assert((x + y).subrange(x.len() as int, (x.len() + y.len()) as int) =~= y);
}

pub proof fn lemma_pow256_values()
    ensures
        pow256(0) == 1,
        pow256(1) == 0x100,
        pow256(2) == 0x1_0000,
        pow256(4) == 0x1_0000_0000,
        pow256(8) == 0x1_0000_0000_0000_0000,
{
    reveal_with_fuel(pow256, 9);
}

pub proof fn lemma_pow256_positive(width: nat)
    ensures
        pow256(width) >= 1,
    decreases width,
{
    if width > 0 {
        lemma_pow256_positive((width - 1) as nat);
    }
}

pub proof fn lemma_le_bytes_len(n: nat, width: nat)
    ensures
        le_bytes(n, width).len() == width,
    decreases width,
{
    if width > 0 {
        lemma_le_bytes_len(n / 256, (width - 1) as nat);
    }
}

pub proof fn lemma_le_value_bound(bytes: Seq<u8>)
    ensures
        le_value(bytes) < pow256(bytes.len()),
    decreases bytes.len(),
{
    if bytes.len() > 0 {
        let rest = bytes.drop_first();
        lemma_le_value_bound(rest);
        let p = pow256(rest.len());
        let v = le_value(rest);
        assert(bytes[0] as nat + 256 * v < 256 * p) by (nonlinear_arith)
            requires
                v < p,
                bytes[0] < 256,
        ;
    }
}

pub proof fn lemma_le_round_trip(n: nat, width: nat)
    requires
        n < pow256(width),
    ensures
        le_value(le_bytes(n, width)) == n,
    decreases width,
{
    if width > 0 {
        let p = pow256((width - 1) as nat);
        assert(n / 256 < p) by (nonlinear_arith)
            requires
                n < 256 * p,
        ;
        lemma_le_round_trip(n / 256, (width - 1) as nat);
        let b = le_bytes(n, width);
        assert(b.drop_first() =~= le_bytes(n / 256, (width - 1) as nat));
        assert(n == (n % 256) + 256 * (n / 256)) by (nonlinear_arith);
    }
}

pub proof fn lemma_members_encoding_first(members: Seq<ElementView>)
    requires
        members.len() > 0,
    ensures
        members_encoding(members) == encoding(members[0]) + members_encoding(members.drop_first()),
    decreases members.len(),
{
    if members.len() == 1 {
        assert(members.drop_last() =~= Seq::<ElementView>::empty());
        assert(members.drop_first() =~= Seq::<ElementView>::empty());
        assert(members_encoding(members.drop_first()) =~= Seq::<u8>::empty());
        assert(members_encoding(members) =~= encoding(members[0]));
    } else {
        let init = members.drop_last();
        lemma_members_encoding_first(init);
        assert(init.drop_first() =~= members.drop_first().drop_last());
        assert(members.drop_first().last() == members.last());
        assert(members_encoding(members) =~= encoding(members[0]) + members_encoding(
            members.drop_first(),
        ));
    }
}

pub proof fn lemma_encoding_len(element: ElementView)
    ensures
        encoding(element).len() >= 1,
{
}

/// The control byte is the tag control over the element type, and never an
/// end-of-container.
pub proof fn lemma_control_byte(element: ElementView)
    ensures
        control_byte(element) / 32 == tag_control(element.tag) / 32,
        control_byte(element) % 32 == element_type(element.value),
        element_type(element.value) <= 0x17,
        control_byte(element) != END_OF_CONTAINER,
{
    let t = tag_control(element.tag);
    let k = element_type(element.value);
    assert(t % 32 == 0 && t <= 0xE0);
    assert(k <= 0x17);
    assert(((t + k) as u8) / 32 == t / 32);
    assert(((t + k) as u8) % 32 == k);
}

pub proof fn lemma_number_at(bytes: Seq<u8>, at: int, n: nat, width: nat)
    requires
        n < pow256(width),
        holds_at(bytes, at, le_bytes(n, width)),
    ensures
        number_at(bytes, at, width) == Ok::<nat, Refused>(n),
{
    lemma_le_bytes_len(n, width);
    lemma_le_round_trip(n, width);
}

pub proof fn lemma_tag_round_trip(bytes: Seq<u8>, at: int, tag: Tag)
    requires
        holds_at(bytes, at, tag_field(tag)),
    ensures
        tag_at(bytes, at, tag_control(tag) / 32) == Ok::<(Tag, int), Refused>(
            (tag, at + tag_field(tag).len()),
        ),
{
    lemma_pow256_values();
    match tag {
        Tag::Anonymous => {},
        Tag::Context(n) => {
            assert(le_bytes(n as nat, 1) =~= seq![n]) by {
                reveal_with_fuel(le_bytes, 2);
            }
            lemma_number_at(bytes, at, n as nat, 1);
        },
        Tag::Common(n) => {
            let w: nat = if n <= 0xFFFF { 2 } else { 4 };
            lemma_number_at(bytes, at, n as nat, w);
            lemma_le_bytes_len(n as nat, w);
        },
        Tag::Implicit(n) => {
            let w: nat = if n <= 0xFFFF { 2 } else { 4 };
            lemma_number_at(bytes, at, n as nat, w);
            lemma_le_bytes_len(n as nat, w);
        },
        Tag::FullyQualified { vendor, profile, number } => {
            let w: nat = if number <= 0xFFFF { 2 } else { 4 };
            let vb = le_bytes(vendor as nat, 2);
            let pb = le_bytes(profile as nat, 2);
            let nb = number_bytes(number);
            lemma_le_bytes_len(vendor as nat, 2);
            lemma_le_bytes_len(profile as nat, 2);
            lemma_le_bytes_len(number as nat, w);
            lemma_holds_at_split(bytes, at, vb + pb, nb);
            lemma_holds_at_split(bytes, at, vb, pb);
            lemma_number_at(bytes, at, vendor as nat, 2);
            lemma_number_at(bytes, at + 2, profile as nat, 2);
            lemma_number_at(bytes, at + 4, number as nat, w);
        },
    }
}

pub proof fn lemma_signed_round_trip(bytes: Seq<u8>, at: int, n: i64, start: int)
    requires
        holds_at(bytes, at, le_bytes(twos_complement(n, signed_width(n)), signed_width(n))),
    ensures
        value_at(bytes, at, element_type(ValueView::Signed(n)), start) == Ok::<(ValueView, int), Refused>(
            (ValueView::Signed(n), at + signed_width(n)),
        ),
{
    lemma_pow256_values();
    let w = signed_width(n);
    let u = twos_complement(n, w);
    assert(u < pow256(w));
    lemma_number_at(bytes, at, u, w);
    assert(sign_extended(u, w) == n);
}

pub proof fn lemma_unsigned_round_trip(bytes: Seq<u8>, at: int, n: u64, start: int)
    requires
        holds_at(bytes, at, le_bytes(n as nat, unsigned_width(n as nat))),
    ensures
        value_at(bytes, at, element_type(ValueView::Unsigned(n)), start) == Ok::<
            (ValueView, int),
            Refused,
        >((ValueView::Unsigned(n), at + unsigned_width(n as nat))),
{
    lemma_pow256_values();
    let w = unsigned_width(n as nat);
    lemma_number_at(bytes, at, n as nat, w);
}

pub proof fn lemma_counted_round_trip(bytes: Seq<u8>, at: int, field: Seq<u8>)
    requires
        holds_at(bytes, at, counted(field)),
        bytes.len() <= usize::MAX,
    ensures
        counted_at(bytes, at, unsigned_width(field.len())) == Ok::<(Seq<u8>, int), Refused>(
            (field, at + counted(field).len()),
        ),
{
    lemma_pow256_values();
    let w = unsigned_width(field.len());
    let lb = le_bytes(field.len(), w);
    lemma_le_bytes_len(field.len(), w);
    lemma_holds_at_split(bytes, at, lb, field);
    assert(field.len() < 0x1_0000_0000_0000_0000);
    lemma_number_at(bytes, at, field.len(), w);
}

/// An encoded element reads back as itself, and ends where its bytes end.
pub proof fn lemma_element_round_trip(bytes: Seq<u8>, at: int, element: ElementView)
    requires
        holds_at(bytes, at, encoding(element)),
        bytes.len() <= usize::MAX,
    ensures
        element_at(bytes, at) == Ok::<(Option<ElementView>, int), Refused>(
            (Some(element), at + encoding(element).len()),
        ),
    decreases element, 0int,
{
    let c = control_byte(element);
    let tf = tag_field(element.tag);
    let vf = value_field(element.value);
    assert(encoding(element) == seq![c] + tf + vf);
    lemma_holds_at_split(bytes, at, seq![c] + tf, vf);
    lemma_holds_at_split(bytes, at, seq![c], tf);
    assert(bytes[at] == c) by {
        assert(bytes.subrange(at, at + 1)[0] == bytes[at]);
    }
    lemma_control_byte(element);
    lemma_tag_round_trip(bytes, at + 1, element.tag);
    lemma_value_round_trip(bytes, at + 1 + tf.len(), element.value, at);
}

/// An encoded value reads back as itself under its element type.
pub proof fn lemma_value_round_trip(bytes: Seq<u8>, at: int, value: ValueView, start: int)
    requires
        holds_at(bytes, at, value_field(value)),
        bytes.len() <= usize::MAX,
    ensures
        value_at(bytes, at, element_type(value), start) == Ok::<(ValueView, int), Refused>(
            (value, at + value_field(value).len()),
        ),
    decreases value, 1int,
{
    lemma_pow256_values();
    match value {
        ValueView::Signed(n) => {
            lemma_signed_round_trip(bytes, at, n, start);
            lemma_le_bytes_len(twos_complement(n, signed_width(n)), signed_width(n));
        },
        ValueView::Unsigned(n) => {
            lemma_unsigned_round_trip(bytes, at, n, start);
            lemma_le_bytes_len(n as nat, unsigned_width(n as nat));
        },
        ValueView::Bool(_) => {},
        ValueView::Float(bits) => {
            lemma_number_at(bytes, at, bits as nat, 4);
            lemma_le_bytes_len(bits as nat, 4);
        },
        ValueView::Double(bits) => {
            lemma_number_at(bytes, at, bits as nat, 8);
            lemma_le_bytes_len(bits as nat, 8);
        },
        ValueView::Utf8(text) => {
            let b = encode_utf8(text);
            lemma_counted_round_trip(bytes, at, b);
            encode_utf8_valid_utf8(text);
            encode_utf8_decode_utf8(text);
        },
        ValueView::Octets(b) => {
            lemma_counted_round_trip(bytes, at, b);
        },
        ValueView::Null => {},
        ValueView::Structure(members) => {
            lemma_members_round_trip(bytes, at, members, start);
        },
        ValueView::Array(members) => {
            lemma_members_round_trip(bytes, at, members, start);
        },
        ValueView::List(members) => {
            lemma_members_round_trip(bytes, at, members, start);
        },
    }
}

/// Encoded members and an end-of-container read back as the members.
pub proof fn lemma_members_round_trip(
    bytes: Seq<u8>,
    at: int,
    members: Seq<ElementView>,
    opened: int,
)
    requires
        holds_at(bytes, at, members_encoding(members) + seq![END_OF_CONTAINER]),
        bytes.len() <= usize::MAX,
    ensures
        members_at(bytes, at, opened) == Ok::<(Seq<ElementView>, int), Refused>(
            (members, at + members_encoding(members).len() + 1),
        ),
    decreases members, 2int,
{
    if members.len() == 0 {
        assert(members_encoding(members) =~= Seq::<u8>::empty());
        assert(bytes[at] == END_OF_CONTAINER) by {
            assert(bytes.subrange(at, at + 1)[0] == bytes[at]);
        }
        assert(members =~= Seq::<ElementView>::empty());
    } else {
        let first = members[0];
        let rest = members.drop_first();
        lemma_members_encoding_first(members);
        let fe = encoding(first);
        assert(members_encoding(members) + seq![END_OF_CONTAINER] =~= fe + (members_encoding(rest)
            + seq![END_OF_CONTAINER]));
        lemma_holds_at_split(bytes, at, fe, members_encoding(rest) + seq![END_OF_CONTAINER]);
        lemma_element_round_trip(bytes, at, first);
        lemma_encoding_len(first);
        lemma_members_round_trip(bytes, at + fe.len(), rest, opened);
        assert(seq![first] + rest =~= members);
    }
}

/// Whatever [`encoding`] writes, [`decoding`] reads back as the same element,
/// as long as the bytes fit in this machine's memory.
pub proof fn decoding_reads_back_the_encoding(element: ElementView)
    requires
        encoding(element).len() <= usize::MAX,
    ensures
        decoding(encoding(element)) == Ok::<ElementView, Refused>(element),
{
    let bytes = encoding(element);
    assert(bytes.subrange(0, bytes.len() as int) =~= bytes);
    lemma_element_round_trip(bytes, 0, element);
    lemma_control_byte(element);
}

/// The first member carrying context tag `number` is found.
pub proof fn lemma_first_found(members: Seq<ElementView>, number: u8, k: int)
    requires
        0 <= k < members.len(),
        members[k].tag == Tag::Context(number),
        forall|i: int| 0 <= i < k ==> members[i].tag != Tag::Context(number),
    ensures
        first_with_context(members, number) == Some(members[k]),
    decreases k,
{
    if k > 0 {
        lemma_first_found(members.drop_first(), number, k - 1);
    }
}

/// No member carries context tag `number`.
pub proof fn lemma_first_absent(members: Seq<ElementView>, number: u8)
    requires
        forall|i: int| 0 <= i < members.len() ==> members[i].tag != Tag::Context(number),
    ensures
        first_with_context(members, number) is None,
    decreases members.len(),
{
    if members.len() > 0 {
        lemma_first_absent(members.drop_first(), number);
    }
}

} // verus!
