//! Where everything stands in the IP parameter payload, byte by byte.
//!
//! The laws here speak of the fields of an [`IpParam`] and of single bytes of the payload, and of
//! what the functions take and hand out.

use vstd::prelude::*;
use vstd::utf8::{decode_utf8_encode_utf8, encode_utf8, valid_utf8};

use super::address::{law_address_length, Ipv4Addr};
use super::dns_name::{dns_text, lemma_text_len, text_bytes};
use super::ip_param::{
    backwards, field_at, field_bytes, layout, lemma_extents, octets_of, slot_flags, IpParam,
    IpParamView,
};
use super::ip_param_laws::{
    lemma_address_survives, lemma_field_starts, lemma_fields_of_wire, lemma_flags_of_slots,
};
use crate::wire::{padded, WireError};

verus! {

/// `width` bytes for a field that is there, and none for one that is not.
pub open spec fn room(there: bool, width: int) -> int {
    if there {
        width
    } else {
        0
    }
}

/// Whether the text that starts `bytes` ends before the byte with index `n`: at the first zero, or
/// at the end where there is none.
pub open spec fn text_ends_at(bytes: Seq<u8>, n: int) -> bool {
    &&& 0 <= n <= bytes.len()
    &&& forall|i: int| 0 <= i < n ==> bytes[i] != 0
    &&& n < bytes.len() ==> bytes[n] == 0
}

/// Where the DNS name starts in the payload of a parameter set: behind the flags, the three
/// reserved bytes and the fields before it that are there.
pub open spec fn name_start(param: IpParam) -> int {
    4 + room(param.mac is Some, 6) + room(param.ip is Some, 4) + room(param.subnet is Some, 4)
        + room(param.gateway is Some, 4) + room(param.dns_ip is Some, 4)
}

/// Whether the four bytes of `payload` from `at` on are those of the address, if there is one, the
/// last octet first.
pub open spec fn address_stands_at(
    address: Option<Ipv4Addr>,
    payload: Seq<u8>,
    at: int,
) -> bool {
    address matches Some(present) ==> {
        &&& present@.len() == 4
        &&& payload[at] == present@[3]
        &&& payload[at + 1] == present@[2]
        &&& payload[at + 2] == present@[1]
        &&& payload[at + 3] == present@[0]
    }
}

/// Whether each of the six lower bits of the flags tells whether a value is there, and each MAC or
/// IPv4 address that is there stands behind those before it, from the fifth byte on.
pub open spec fn values_stand_in(param: IpParam, payload: Seq<u8>) -> bool {
    let ip = 4 + room(param.mac is Some, 6);
    let subnet = ip + room(param.ip is Some, 4);
    let gateway = subnet + room(param.subnet is Some, 4);
    let dns_ip = gateway + room(param.gateway is Some, 4);
    &&& payload[0] % 2 == 1 <==> param.mac is Some
    &&& payload[0] / 2 % 2 == 1 <==> param.ip is Some
    &&& payload[0] / 4 % 2 == 1 <==> param.subnet is Some
    &&& payload[0] / 8 % 2 == 1 <==> param.gateway is Some
    &&& payload[0] / 16 % 2 == 1 <==> param.dns_ip is Some
    &&& payload[0] / 32 % 2 == 1 <==> param.dns_name is Some
    &&& param.mac matches Some(mac) ==> forall|i: int|
        0 <= i < 6 ==> #[trigger] payload[4 + i] == mac[i]
    &&& address_stands_at(param.ip, payload, ip)
    &&& address_stands_at(param.subnet, payload, subnet)
    &&& address_stands_at(param.gateway, payload, gateway)
    &&& address_stands_at(param.dns_ip, payload, dns_ip)
}

/// **An address is its four octets, the most significant first.**
pub proof fn law_address_octets(a: u8, b: u8, c: u8, d: u8, address: Ipv4Addr, octets: [u8; 4])
    requires
        call_ensures(Ipv4Addr::new, (a, b, c, d), address),
        call_ensures(Ipv4Addr::octets, (&address,), octets),
    ensures
        octets[0] == a,
        octets[1] == b,
        octets[2] == c,
        octets[3] == d,
        address@ == octets@,
{
    assert(octets@ == seq![a, b, c, d]);
}

/// **The default is a parameter set without a value.**
pub proof fn law_default_is_empty(param: IpParam)
    requires
        call_ensures(<IpParam as Default>::default, (), param),
    ensures
        param.mac is None,
        param.ip is None,
        param.subnet is None,
        param.gateway is None,
        param.dns_ip is None,
        param.dns_name is None,
{
}

/// Where the six fields of a payload with the given flags start, and where the last one ends.
proof fn lemma_starts(flags: u8)
    ensures
        ({
            let mac = flags % 2 == 1;
            let ip = flags / 2 % 2 == 1;
            let subnet = flags / 4 % 2 == 1;
            let gateway = flags / 8 % 2 == 1;
            let dns_ip = flags / 16 % 2 == 1;
            let dns_name = flags / 32 % 2 == 1;
            let l = layout();
            &&& mac <==> flags & l[0].0 != 0
            &&& ip <==> flags & l[1].0 != 0
            &&& subnet <==> flags & l[2].0 != 0
            &&& gateway <==> flags & l[3].0 != 0
            &&& dns_ip <==> flags & l[4].0 != 0
            &&& dns_name <==> flags & l[5].0 != 0
            &&& flags & 0x3F != 0 <==> flags % 64 != 0
            &&& field_at(flags, 0) == 4
            &&& field_at(flags, 1) == 4 + room(mac, 6)
            &&& field_at(flags, 2) == 4 + room(mac, 6) + room(ip, 4)
            &&& field_at(flags, 3) == 4 + room(mac, 6) + room(ip, 4) + room(subnet, 4)
            &&& field_at(flags, 4) == 4 + room(mac, 6) + room(ip, 4) + room(subnet, 4) + room(
                gateway,
                4,
            )
            &&& field_at(flags, 5) == 4 + room(mac, 6) + room(ip, 4) + room(subnet, 4) + room(
                gateway,
                4,
            ) + room(dns_ip, 4)
            &&& field_at(flags, 6) == 4 + room(mac, 6) + room(ip, 4) + room(subnet, 4) + room(
                gateway,
                4,
            ) + room(dns_ip, 4) + room(dns_name, 32)
        }),
{
    let l = layout();
    assert(l[0] == (0x01u8, 6usize) && l[1] == (0x02u8, 4usize) && l[2] == (0x04u8, 4usize)
        && l[3] == (0x08u8, 4usize) && l[4] == (0x10u8, 4usize) && l[5] == (0x20u8, 32usize));
    assert({
        &&& flags % 2 == 1 <==> flags & 0x01 != 0
        &&& flags / 2 % 2 == 1 <==> flags & 0x02 != 0
        &&& flags / 4 % 2 == 1 <==> flags & 0x04 != 0
        &&& flags / 8 % 2 == 1 <==> flags & 0x08 != 0
        &&& flags / 16 % 2 == 1 <==> flags & 0x10 != 0
        &&& flags / 32 % 2 == 1 <==> flags & 0x20 != 0
        &&& flags & 0x3F != 0 <==> flags % 64 != 0
    }) by (bit_vector);
    assert(field_at(flags, 0) == 4);
    assert(field_at(flags, 1) == field_at(flags, 0) + room(flags & 0x01 != 0, 6));
    assert(field_at(flags, 2) == field_at(flags, 1) + room(flags & 0x02 != 0, 4));
    assert(field_at(flags, 3) == field_at(flags, 2) + room(flags & 0x04 != 0, 4));
    assert(field_at(flags, 4) == field_at(flags, 3) + room(flags & 0x08 != 0, 4));
    assert(field_at(flags, 5) == field_at(flags, 4) + room(flags & 0x10 != 0, 4));
    assert(field_at(flags, 6) == field_at(flags, 5) + room(flags & 0x20 != 0, 32));
}

/// The flags of a parameter set, and the length of its payload.
proof fn lemma_written_flags(v: IpParamView)
    ensures
        ({
            let flags = slot_flags(v.slots());
            &&& flags < 64
            &&& flags % 2 == 1 <==> v.mac is Some
            &&& flags / 2 % 2 == 1 <==> v.ip is Some
            &&& flags / 4 % 2 == 1 <==> v.subnet is Some
            &&& flags / 8 % 2 == 1 <==> v.gateway is Some
            &&& flags / 16 % 2 == 1 <==> v.dns_ip is Some
            &&& flags / 32 % 2 == 1 <==> v.dns_name is Some
            &&& v.wire_bytes()[0] == flags
            &&& v.wire_bytes().len() == field_at(flags, 6)
        }),
{
    let slots = v.slots();
    let flags = slot_flags(slots);
    let l = layout();
    lemma_flags_of_slots(v);
    lemma_starts(flags);
    lemma_field_starts(v, 6);
    assert(slots.take(6) =~= slots);
    assert(l[0].0 == 0x01 && l[1].0 == 0x02 && l[2].0 == 0x04 && l[3].0 == 0x08 && l[4].0 == 0x10
        && l[5].0 == 0x20);
    assert(flags & l[0].0 != 0 <==> slots[0] is Some);
    assert(flags & l[1].0 != 0 <==> slots[1] is Some);
    assert(flags & l[2].0 != 0 <==> slots[2] is Some);
    assert(flags & l[3].0 != 0 <==> slots[3] is Some);
    assert(flags & l[4].0 != 0 <==> slots[4] is Some);
    assert(flags & l[5].0 != 0 <==> slots[5] is Some);
}

/// The address in a field of the payload, byte by byte.
proof fn lemma_address_field(address: Option<Ipv4Addr>, payload: Seq<u8>, n: int)
    requires
        1 <= n < 5,
        payload[0] & layout()[n].0 != 0 ==> field_at(payload[0], n + 1) <= payload.len(),
        backwards(field_bytes(payload, n)) == octets_of(address),
    ensures
        address_stands_at(address, payload, field_at(payload[0], n)),
{
    lemma_starts(payload[0]);
    lemma_extents(payload[0]);
    if let Some(present) = address {
        law_address_length(present);
        let bytes = field_bytes(payload, n)->0;
        assert(bytes.reverse() == present@);
        assert(bytes.len() == 4);
        assert(present@[0] == bytes[3] && present@[1] == bytes[2] && present@[2] == bytes[1]
            && present@[3] == bytes[0]);
    }
}

/// What a payload says of the MAC and the four IPv4 addresses, byte by byte.
proof fn lemma_values_stand_in(param: IpParam, payload: Seq<u8>)
    requires
        payload.len() > 0,
        payload[0] & 0x3F != 0 ==> field_at(payload[0], 6) <= payload.len(),
        param@.mac == field_bytes(payload, 0),
        octets_of(param.ip) == backwards(field_bytes(payload, 1)),
        octets_of(param.subnet) == backwards(field_bytes(payload, 2)),
        octets_of(param.gateway) == backwards(field_bytes(payload, 3)),
        octets_of(param.dns_ip) == backwards(field_bytes(payload, 4)),
        param.dns_name is Some <==> field_bytes(payload, 5) is Some,
    ensures
        values_stand_in(param, payload),
        name_start(param) == field_at(payload[0], 5),
{
    let flags = payload[0];
    lemma_starts(flags);
    lemma_extents(flags);
    let l = layout();
    assert forall|n: int| 0 <= n < 6 && flags & (#[trigger] l[n]).0 != 0 implies field_at(
        flags,
        n + 1,
    ) <= payload.len() by {
        assert(field_at(flags, n + 1) <= field_at(flags, 6));
    }
    assert(flags & l[0].0 != 0 ==> field_at(flags, 1) <= payload.len());
    assert(flags & l[1].0 != 0 ==> field_at(flags, 2) <= payload.len());
    assert(flags & l[2].0 != 0 ==> field_at(flags, 3) <= payload.len());
    assert(flags & l[3].0 != 0 ==> field_at(flags, 4) <= payload.len());
    assert(flags & l[4].0 != 0 ==> field_at(flags, 5) <= payload.len());
    lemma_address_field(param.ip, payload, 1);
    lemma_address_field(param.subnet, payload, 2);
    lemma_address_field(param.gateway, payload, 3);
    lemma_address_field(param.dns_ip, payload, 4);
    if let Some(mac) = param.mac {
        let bytes = field_bytes(payload, 0)->0;
        assert(bytes == mac@);
        assert forall|i: int| 0 <= i < 6 implies #[trigger] payload[4 + i] == mac[i] by {
            assert(bytes[i] == payload[4 + i]);
        }
    }
}

/// The payload of a parameter set, byte by byte.
proof fn lemma_written(param: IpParam)
    requires
        param@.valid(),
    ensures
        ({
            let payload = param@.wire_bytes();
            &&& payload.len() == name_start(param) + room(param.dns_name is Some, 32)
            &&& payload[0] < 64
            &&& payload[1] == 0
            &&& payload[2] == 0
            &&& payload[3] == 0
            &&& values_stand_in(param, payload)
            &&& param.dns_name matches Some(name) ==> {
                &&& encode_utf8(dns_text(name)).len() <= 32
                &&& forall|i: int|
                    0 <= i < encode_utf8(dns_text(name)).len() ==> #[trigger] payload[name_start(
                        param,
                    ) + i] == encode_utf8(dns_text(name))[i]
                &&& forall|i: int|
                    encode_utf8(dns_text(name)).len() <= i < 32 ==> #[trigger] payload[name_start(
                        param,
                    ) + i] == 0
            }
        }),
{
    let v = param@;
    let payload = v.wire_bytes();
    assert(payload + seq![] =~= payload);
    lemma_written_flags(v);
    lemma_starts(payload[0]);
    lemma_fields_of_wire(v, seq![], 0);
    lemma_fields_of_wire(v, seq![], 1);
    lemma_fields_of_wire(v, seq![], 2);
    lemma_fields_of_wire(v, seq![], 3);
    lemma_fields_of_wire(v, seq![], 4);
    lemma_fields_of_wire(v, seq![], 5);
    if let Some(mac) = v.mac {
        assert(padded(mac, 6) =~= mac);
    }
    lemma_address_survives(v.ip);
    lemma_address_survives(v.subnet);
    lemma_address_survives(v.gateway);
    lemma_address_survives(v.dns_ip);
    lemma_values_stand_in(param, payload);
    if let Some(name) = param.dns_name {
        let text = encode_utf8(dns_text(name));
        let at = name_start(param);
        let field = field_bytes(payload, 5)->0;
        assert(field == padded(text, 32));
        assert forall|i: int| 0 <= i < 32 implies #[trigger] payload[at + i] == padded(
            text,
            32,
        )[i] by {
            assert(field[i] == payload[at + i]);
        }
    }
}

/// **Every value of a parameter set has its place in the payload.** The first byte has one bit for
/// each value that is there, the three bytes behind it are zero, and the values follow, each right
/// behind those before it: six bytes of MAC, four bytes for each address, the last octet first, and
/// 32 bytes for a name, its text and then zeros. All of it goes into the front of the buffer, if it
/// fits, and the rest of the buffer stays as it is. Where it does not fit, all of it stays.
pub proof fn law_payload_written<'a>(
    param: IpParam,
    buf: &'a mut [u8],
    written: Result<&'a [u8], WireError>,
)
    requires
        call_ensures(IpParam::pack_to_slice, (&param, buf), written),
    ensures
        final(buf)@.len() == old(buf)@.len(),
        ({
            let len = name_start(param) + room(param.dns_name is Some, 32);
            &&& old(buf)@.len() < len ==> {
                &&& written == Err::<&[u8], WireError>(WireError::WriteBufferTooShort)
                &&& final(buf)@ == old(buf)@
            }
            &&& old(buf)@.len() >= len ==> {
                &&& written matches Ok(payload) && payload@ == final(buf)@.take(len)
                &&& forall|i: int|
                    len <= i < old(buf)@.len() ==> #[trigger] final(buf)@[i] == old(buf)@[i]
                &&& final(buf)@[0] < 64
                &&& final(buf)@[1] == 0
                &&& final(buf)@[2] == 0
                &&& final(buf)@[3] == 0
                &&& values_stand_in(param, final(buf)@)
                &&& param.dns_name matches Some(name) ==> {
                    let text = encode_utf8(dns_text(name));
                    &&& text.len() <= 32
                    &&& forall|i: int|
                        0 <= i < text.len() ==> #[trigger] final(buf)@[name_start(param) + i]
                            == text[i]
                    &&& forall|i: int|
                        text.len() <= i < 32 ==> #[trigger] final(buf)@[name_start(param) + i] == 0
                }
            }
        }),
{
    lemma_written(param);
    let payload = param@.wire_bytes();
    let len = payload.len() as int;
    if old(buf)@.len() >= len {
        assert(final(buf)@.take(len) =~= payload);
        assert forall|i: int| 0 <= i < len implies #[trigger] final(buf)@[i] == payload[i] by {}
        lemma_same_values(param, payload, final(buf)@);
    }
}

/// The values that stand in a payload stand in every buffer that starts with it.
proof fn lemma_same_values(param: IpParam, payload: Seq<u8>, buf: Seq<u8>)
    requires
        values_stand_in(param, payload),
        name_start(param) <= payload.len(),
        payload.is_prefix_of(buf),
    ensures
        values_stand_in(param, buf),
{
    assert forall|i: int| 0 <= i < payload.len() implies #[trigger] buf[i] == payload[i] by {}
    if let Some(mac) = param.mac {
        assert forall|i: int| 0 <= i < 6 implies #[trigger] buf[4 + i] == mac[i] by {
            assert(payload[4 + i] == mac[i]);
        }
    }
}

/// **A parameter set has one payload**: the length that it is said to have and the bytes that are
/// written without a look at the buffer are those of the payload.
pub proof fn law_payload_written_unchecked<'a>(
    param: IpParam,
    buf: &'a mut [u8],
    written: Result<&'a [u8], WireError>,
    len: usize,
    other_buf: &'a mut [u8],
    other_written: &'a [u8],
)
    requires
        call_ensures(IpParam::pack_to_slice, (&param, buf), written),
        call_ensures(IpParam::packed_len, (&param,), len),
        call_ensures(IpParam::pack_to_slice_unchecked, (&param, other_buf), other_written),
        len <= old(buf)@.len(),
        len <= old(other_buf)@.len(),
    ensures
        len == name_start(param) + room(param.dns_name is Some, 32),
        written matches Ok(payload) && payload@ == other_written@,
        final(other_buf)@.len() == old(other_buf)@.len(),
        final(other_buf)@.take(len as int) == other_written@,
        forall|i: int|
            len <= i < old(other_buf)@.len() ==> #[trigger] final(other_buf)@[i] == old(
                other_buf,
            )@[i],
{
    lemma_written(param);
    assert(final(other_buf)@.take(len as int) =~= param@.wire_bytes());
}

/// **A name makes a payload 32 bytes longer, whatever it is**, and that is the length that names
/// are said to have at the most.
pub proof fn law_name_length(named: IpParam, named_len: usize, unnamed: IpParam, unnamed_len: usize)
    requires
        call_ensures(IpParam::packed_len, (&named,), named_len),
        call_ensures(IpParam::packed_len, (&unnamed,), unnamed_len),
        named.dns_name is Some,
        unnamed == (IpParam { dns_name: None, ..named }),
    ensures
        named_len - unnamed_len == 32,
        IpParam::DNS_NAME_LENGTH == 32,
{
    lemma_written(named);
    lemma_written(unnamed);
}

/// **Every value of a parameter set is read from its place in the payload**, which the flags tell:
/// each of their six lower bits stands for a value. A payload without flags, or one that ends
/// before a value that its flags name, is too short. A name ends before its first zero, and what
/// stands before that has to be UTF-8. Nothing else is refused.
pub proof fn law_payload_read(buf: &[u8], read: Result<IpParam, WireError>, name_end: int)
    requires
        call_ensures(IpParam::unpack_from_slice, (buf,), read),
    ensures
        buf@.len() == 0 ==> read == Err::<IpParam, WireError>(WireError::ReadBufferTooShort),
        buf@.len() > 0 ==> {
            let flags = buf@[0];
            let name_at = 4 + room(flags % 2 == 1, 6) + room(flags / 2 % 2 == 1, 4) + room(
                flags / 4 % 2 == 1,
                4,
            ) + room(flags / 8 % 2 == 1, 4) + room(flags / 16 % 2 == 1, 4);
            let len = name_at + room(flags / 32 % 2 == 1, 32);
            let short = flags % 64 != 0 && buf@.len() < len;
            &&& short ==> read == Err::<IpParam, WireError>(WireError::ReadBufferTooShort)
            &&& !short && flags / 32 % 2 == 0 ==> read is Ok
            &&& !short && flags / 32 % 2 == 1 && text_ends_at(
                buf@.subrange(name_at, name_at + 32),
                name_end,
            ) ==> {
                let text = buf@.subrange(name_at, name_at + name_end);
                &&& valid_utf8(text) ==> (read matches Ok(param) && param.dns_name is Some
                    && encode_utf8(dns_text(param.dns_name->0)) == text)
                &&& !valid_utf8(text) ==> read == Err::<IpParam, WireError>(WireError::InvalidUtf8)
            }
        },
        read matches Ok(param) ==> values_stand_in(param, buf@),
{
    if buf@.len() > 0 {
        let flags = buf@[0];
        lemma_starts(flags);
        lemma_extents(flags);
        let at = field_at(flags, 5);
        if flags / 32 % 2 == 1 && !(buf@.len() < field_at(flags, 6)) {
            let field = buf@.subrange(at, at + 32);
            assert(field_bytes(buf@, 5) == Some(field));
            if text_ends_at(field, name_end) {
                lemma_text_len(field, name_end);
                assert(text_bytes(field) =~= buf@.subrange(at, at + name_end));
                if valid_utf8(text_bytes(field)) {
                    decode_utf8_encode_utf8(text_bytes(field));
                }
            }
        }
        if let Ok(param) = read {
            assert(IpParamView::unpacked(buf@) == Ok::<IpParamView, WireError>(param@));
            lemma_values_stand_in(param, buf@);
        }
    }
}

} // verus!
