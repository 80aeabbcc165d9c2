//! What holds between reading and writing the IP parameter payload.

use vstd::prelude::*;
use vstd::utf8::{encode_utf8, encode_utf8_decode_utf8, encode_utf8_valid_utf8};

use super::dns_name::{lemma_read_text, lemma_text_of_padded, lemma_until_nul_keeps, until_nul};
use super::ip_param::{
    field_at, field_bytes, layout, lemma_extents, lemma_slot_bytes_prefix, slot_bytes, slot_flags,
    IpParamView,
};
use crate::wire::{padded, zeros, WireError};

verus! {

/// The flags of a parameter set name the fields that are there, and no others.
pub(crate) proof fn lemma_flags_of_slots(v: IpParamView)
    ensures
        forall|n: int|
            0 <= n < 6 ==> (slot_flags(v.slots()) & (#[trigger] layout()[n]).0 != 0
                <==> v.slots()[n] is Some),
        slot_flags(v.slots()) < 64,
{
    reveal_with_fuel(slot_flags, 7);
    let s = v.slots();
    let f = slot_flags(s);
    let f0: u8 = if s[0] is Some { 0x01 } else { 0 };
    let f1: u8 = if s[1] is Some { 0x02 } else { 0 };
    let f2: u8 = if s[2] is Some { 0x04 } else { 0 };
    let f3: u8 = if s[3] is Some { 0x08 } else { 0 };
    let f4: u8 = if s[4] is Some { 0x10 } else { 0 };
    let f5: u8 = if s[5] is Some { 0x20 } else { 0 };
    assert(s.drop_last() =~= seq![s[0], s[1], s[2], s[3], s[4]]);
    assert(s.drop_last().drop_last() =~= seq![s[0], s[1], s[2], s[3]]);
    assert(s.drop_last().drop_last().drop_last() =~= seq![s[0], s[1], s[2]]);
    assert(s.drop_last().drop_last().drop_last().drop_last() =~= seq![s[0], s[1]]);
    assert(s.drop_last().drop_last().drop_last().drop_last().drop_last() =~= seq![s[0]]);
    assert(forall|x: u8| #[trigger] (x | 0u8) == x) by (bit_vector);
    assert(f == 0u8 | f0 | f1 | f2 | f3 | f4 | f5);
    assert({
        &&& f & 0x01 != 0 <==> f0 != 0
        &&& f & 0x02 != 0 <==> f1 != 0
        &&& f & 0x04 != 0 <==> f2 != 0
        &&& f & 0x08 != 0 <==> f3 != 0
        &&& f & 0x10 != 0 <==> f4 != 0
        &&& f & 0x20 != 0 <==> f5 != 0
        &&& f < 64
    }) by (bit_vector)
        requires
            f0 == 0 || f0 == 0x01,
            f1 == 0 || f1 == 0x02,
            f2 == 0 || f2 == 0x04,
            f3 == 0 || f3 == 0x08,
            f4 == 0 || f4 == 0x10,
            f5 == 0 || f5 == 0x20,
            f == 0u8 | f0 | f1 | f2 | f3 | f4 | f5,
    ;
    let l = layout();
    assert(l[0].0 == 0x01 && l[1].0 == 0x02 && l[2].0 == 0x04 && l[3].0 == 0x08 && l[4].0 == 0x10
        && l[5].0 == 0x20);
}

/// In what a parameter set is written as, each field starts behind those before it.
pub(crate) proof fn lemma_field_starts(v: IpParamView, n: int)
    requires
        0 <= n <= 6,
    ensures
        field_at(slot_flags(v.slots()), n) == 4 + slot_bytes(v.slots().take(n)).len(),
    decreases n,
{
    let slots = v.slots();
    if n > 0 {
        lemma_field_starts(v, n - 1);
        lemma_flags_of_slots(v);
        assert(slots.take(n).drop_last() =~= slots.take(n - 1));
        assert(slots.take(n).last() == slots[n - 1]);
        let l = layout();
        assert(slots[n - 1] matches Some((_, bytes)) ==> bytes.len() == l[n - 1].1);
    }
}

/// A payload that starts with the bytes of a parameter set holds, field by field, what the
/// parameter set holds.
pub(crate) proof fn lemma_fields_of_wire(v: IpParamView, behind: Seq<u8>, n: int)
    requires
        0 <= n < 6,
    ensures
        ({
            let payload = v.wire_bytes() + behind;
            &&& payload[0] == slot_flags(v.slots())
            &&& payload.len() >= field_at(payload[0], 6)
            &&& field_bytes(payload, n) == match v.slots()[n] {
                Some((_, bytes)) => Some(bytes),
                None => None,
            }
        }),
{
    let payload = v.wire_bytes() + behind;
    let slots = v.slots();
    assert(payload[0] == slot_flags(slots));
    lemma_field_starts(v, n);
    lemma_field_starts(v, n + 1);
    lemma_field_starts(v, 6);
    lemma_flags_of_slots(v);
    lemma_slot_bytes_prefix(slots, n);
    lemma_slot_bytes_prefix(slots, n + 1);
    assert(slots.take(6) =~= slots);
    assert(slots.take(n + 1).drop_last() =~= slots.take(n));
    let l = layout();
    assert(payload[0] & l[n].0 != 0 <==> slots[n] is Some);
    if let Some((_, bytes)) = slots[n] {
        let upto = slot_bytes(slots.take(n + 1));
        assert(upto == slot_bytes(slots.take(n)) + bytes);
        assert forall|i: int| 0 <= i < bytes.len() implies payload[field_at(payload[0], n) + i]
            == bytes[i] by {
            let k = slot_bytes(slots.take(n)).len() + i;
            assert(upto[k] == bytes[i]);
            assert(slot_bytes(slots)[k] == upto[k]);
            assert(v.wire_bytes()[4 + k] == slot_bytes(slots)[k]);
        }
        assert(payload.subrange(field_at(payload[0], n), field_at(payload[0], n + 1)) =~= bytes);
    }
}

/// **What was packed comes back out.** Reading the bytes that a parameter set is written as
/// gives the same parameter set again, whatever stands behind those bytes. The one thing that
/// does not survive is what follows a NUL character in the DNS name: the name ends there.
pub proof fn law_unpack_undoes_pack(v: IpParamView, behind: Seq<u8>)
    requires
        v.valid(),
    ensures
        IpParamView::unpacked(v.wire_bytes() + behind) == Ok::<IpParamView, WireError>(
            IpParamView {
                dns_name: match v.dns_name {
                    Some(text) => Some(until_nul(text)),
                    None => None,
                },
                ..v
            },
        ),
{
    let payload = v.wire_bytes() + behind;
    lemma_fields_of_wire(v, behind, 0);
    lemma_fields_of_wire(v, behind, 1);
    lemma_fields_of_wire(v, behind, 2);
    lemma_fields_of_wire(v, behind, 3);
    lemma_fields_of_wire(v, behind, 4);
    lemma_fields_of_wire(v, behind, 5);
    if let Some(mac) = v.mac {
        assert(padded(mac, 6) =~= mac);
    }
    lemma_address_survives(v.ip);
    lemma_address_survives(v.subnet);
    lemma_address_survives(v.gateway);
    lemma_address_survives(v.dns_ip);
    if let Some(text) = v.dns_name {
        let bytes = encode_utf8(text);
        assert(padded(bytes, 32) =~= bytes + zeros((32 - bytes.len()) as nat));
        lemma_text_of_padded(text, (32 - bytes.len()) as nat);
        encode_utf8_valid_utf8(until_nul(text));
        encode_utf8_decode_utf8(until_nul(text));
    }
}

/// An address fills its field, and reversing it twice gives it back.
pub(crate) proof fn lemma_address_survives(address: Option<Seq<u8>>)
    requires
        address matches Some(octets) ==> octets.len() == 4,
    ensures
        address matches Some(octets) ==> {
            &&& padded(octets.reverse(), 4) == octets.reverse()
            &&& octets.reverse().reverse() == octets
        },
{
    if let Some(octets) = address {
        assert(padded(octets.reverse(), 4) =~= octets.reverse());
        assert(octets.reverse().reverse() =~= octets);
    }
}

/// A parameter set whose DNS name holds no NUL character, or that has none, comes back whole.
pub proof fn law_round_trip(v: IpParamView, behind: Seq<u8>)
    requires
        v.valid(),
        v.dns_name matches Some(text) ==> !text.contains('\0'),
    ensures
        IpParamView::unpacked(v.wire_bytes() + behind) == Ok::<IpParamView, WireError>(v),
{
    law_unpack_undoes_pack(v, behind);
    if let Some(text) = v.dns_name {
        lemma_until_nul_keeps(text);
    }
}

/// A payload that stops before the last field that its own flags promise is refused as too
/// short: so is every proper front part of what a parameter set with a field is written as, and
/// so is a payload without flags.
pub proof fn law_cut_payload_is_refused(v: IpParamView, n: int)
    requires
        n == 0 || exists|i: int| 0 <= i < 6 && (#[trigger] v.slots()[i]) is Some,
        0 <= n < v.wire_bytes().len(),
    ensures
        IpParamView::unpacked(v.wire_bytes().take(n)) == Err::<IpParamView, WireError>(
            WireError::ReadBufferTooShort,
        ),
{
    let cut = v.wire_bytes().take(n);
    if n > 0 {
        let i = choose|i: int| 0 <= i < 6 && (#[trigger] v.slots()[i]) is Some;
        lemma_flags_of_slots(v);
        lemma_extents(cut[0]);
        lemma_field_starts(v, 6);
        let l = layout();
        assert(cut[0] & l[i].0 != 0);
        assert(v.slots().take(6) =~= v.slots());
    }
}

/// What a payload says rests on the six flags and on the bytes of the fields that they name:
/// the two upper bits of the flags, the three reserved bytes and whatever follows the last
/// field change nothing. Where the flags name no field, the flags alone count, and the payload
/// may end right behind them; where it ends too early for its flags, no byte behind them counts.
pub proof fn law_only_named_fields_count(one: Seq<u8>, other: Seq<u8>)
    requires
        one.len() > 0,
        other.len() > 0,
        one[0] & 0x3F == other[0] & 0x3F,
        one[0] & 0x3F != 0 ==> (one.len() < field_at(one[0], 6) <==> other.len() < field_at(
            one[0],
            6,
        )),
        one.len() >= field_at(one[0], 6) ==> forall|i: int|
            4 <= i < field_at(one[0], 6) ==> one[i] == other[i],
    ensures
        IpParamView::unpacked(one) == IpParamView::unpacked(other),
{
    lemma_same_flags(one[0], other[0], 6);
    lemma_extents(one[0]);
    let end = field_at(one[0], 6);
    if one[0] & 0x3F == 0 || one.len() >= end {
        assert forall|n: int| 0 <= n < 6 implies #[trigger] field_bytes(one, n) == field_bytes(
            other,
            n,
        ) by {
            lemma_same_flags(one[0], other[0], n);
            lemma_same_flags(one[0], other[0], n + 1);
            if one[0] & layout()[n].0 != 0 {
                assert(one.subrange(field_at(one[0], n), field_at(one[0], n + 1))
                    =~= other.subrange(field_at(one[0], n), field_at(one[0], n + 1)));
            }
        }
        assert(field_bytes(one, 0) == field_bytes(other, 0));
        assert(field_bytes(one, 1) == field_bytes(other, 1));
        assert(field_bytes(one, 2) == field_bytes(other, 2));
        assert(field_bytes(one, 3) == field_bytes(other, 3));
        assert(field_bytes(one, 4) == field_bytes(other, 4));
        assert(field_bytes(one, 5) == field_bytes(other, 5));
    }
}

/// Where the six flags are the same, so are the fields and where they start.
proof fn lemma_same_flags(one: u8, other: u8, n: int)
    requires
        one & 0x3F == other & 0x3F,
        0 <= n <= 6,
    ensures
        field_at(one, n) == field_at(other, n),
        n < 6 ==> (one & layout()[n].0 == other & layout()[n].0),
    decreases n,
{
    if n < 6 {
        let flag = layout()[n].0;
        assert(flag == 1 || flag == 2 || flag == 4 || flag == 8 || flag == 16 || flag == 32);
        assert(one & flag == other & flag) by (bit_vector)
            requires
                one & 0x3F == other & 0x3F,
                flag == 1 || flag == 2 || flag == 4 || flag == 8 || flag == 16 || flag == 32,
        ;
    }
    if n > 0 {
        lemma_same_flags(one, other, n - 1);
    }
}

/// Whatever payload is read, the fields of the result have their proper sizes, and a DNS name
/// holds no NUL character that would cut it short.
pub proof fn law_unpacked_is_valid(payload: Seq<u8>)
    ensures
        IpParamView::unpacked(payload) matches Ok(v) ==> {
            &&& v.valid()
            &&& v.dns_name matches Some(text) ==> until_nul(text) == text
        },
{
    if let Ok(v) = IpParamView::unpacked(payload) {
        let flags = payload[0];
        lemma_extents(flags);
        reveal_with_fuel(field_at, 7);
        let l = layout();
        assert forall|n: int| 0 <= n < 6 implies (#[trigger] field_bytes(payload, n) matches Some(b)
            ==> b.len() == l[n].1) by {
            assert(flags & l[n].0 != 0 ==> flags & 0x3F != 0);
        }
        assert(field_bytes(payload, 0) matches Some(b) ==> b.len() == 6);
        assert(field_bytes(payload, 1) matches Some(b) ==> b.len() == 4);
        assert(field_bytes(payload, 2) matches Some(b) ==> b.len() == 4);
        assert(field_bytes(payload, 3) matches Some(b) ==> b.len() == 4);
        assert(field_bytes(payload, 4) matches Some(b) ==> b.len() == 4);
        assert(field_bytes(payload, 5) matches Some(b) ==> b.len() == 32);
        if let Some(bytes) = field_bytes(payload, 5) {
            lemma_read_text(bytes);
        }
    }
}

/// Reading a payload, writing what it says and reading that gives the same again: what the
/// reader understands of a payload, the writer keeps.
pub proof fn law_rewritten_payload_says_the_same(payload: Seq<u8>, behind: Seq<u8>)
    ensures
        IpParamView::unpacked(payload) matches Ok(v) ==> IpParamView::unpacked(
            v.wire_bytes() + behind,
        ) == IpParamView::unpacked(payload),
{
    if let Ok(v) = IpParamView::unpacked(payload) {
        law_unpacked_is_valid(payload);
        law_unpack_undoes_pack(v, behind);
    }
}

} // verus!
