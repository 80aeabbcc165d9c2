//! IP parameters of a SubDevice.
//!
//! The payload of a Set-IP request or a Get-IP response is a byte of flags followed by exactly
//! the fields those flags name, in flag order:
//!
//! ```text
//! data[0]      flags
//! data[1..4]   reserved
//! data[4..]    MAC 6, IP 4, subnet 4, gateway 4, DNS IP 4, DNS name 32
//! ```

use vstd::prelude::*;
use vstd::utf8::{decode_utf8, encode_utf8, valid_utf8};

use super::address::{law_address_length, Ipv4Addr};
use super::dns_name::{dns_name_as_str, dns_text, read_dns_name, text_bytes, DNS_NAME_LENGTH};
use crate::wire::{overwritten, packs, padded, write_at, zero_front, zeros, WireError};

verus! {

/// IP parameters of a SubDevice, as carried by a Set-IP request or a Get-IP response.
///
/// Two things about the payload are easy to get wrong:
///
/// * **IPv4 addresses go on the wire backwards**: `192.168.1.10` is the bytes
///   `10, 1, 168, 192`.
/// * **The DNS name always occupies 32 bytes**, zero padded, however short it is. It ends at the
///   first zero byte, so of a name with a NUL character in it what follows does not survive.
#[derive(Clone, Debug, PartialEq, Eq)]
pub struct IpParam {
    /// MAC address.
    pub mac: Option<[u8; 6]>,
    /// IPv4 address.
    pub ip: Option<Ipv4Addr>,
    /// Subnet mask.
    pub subnet: Option<Ipv4Addr>,
    /// Default gateway.
    pub gateway: Option<Ipv4Addr>,
    /// DNS server address.
    pub dns_ip: Option<Ipv4Addr>,
    /// DNS name. At most [`IpParam::DNS_NAME_LENGTH`] bytes.
    pub dns_name: Option<heapless::String<DNS_NAME_LENGTH>>,
}

/// The model of an [`IpParam`]: bytes for the MAC address, octets in written order for the other
/// addresses, characters for the name.
pub struct IpParamView {
    pub mac: Option<Seq<u8>>,
    pub ip: Option<Seq<u8>>,
    pub subnet: Option<Seq<u8>>,
    pub gateway: Option<Seq<u8>>,
    pub dns_ip: Option<Seq<u8>>,
    pub dns_name: Option<Seq<char>>,
}

/// The octets of an address, if there is one.
pub open spec fn octets_of(address: Option<Ipv4Addr>) -> Option<Seq<u8>> {
    match address {
        Some(present) => Some(present@),
        None => None,
    }
}

impl View for IpParam {
    type V = IpParamView;

    open spec fn view(&self) -> IpParamView {
        IpParamView {
            mac: match self.mac {
                Some(mac) => Some(mac@),
                None => None,
            },
            ip: octets_of(self.ip),
            subnet: octets_of(self.subnet),
            gateway: octets_of(self.gateway),
            dns_ip: octets_of(self.dns_ip),
            dns_name: match self.dns_name {
                Some(name) => Some(dns_text(name)),
                None => None,
            },
        }
    }
}

/// A field of the payload that is there: its flag and the bytes that fill it.
pub type Slot = Option<(u8, Seq<u8>)>;

/// The field with the given flag and width, filled with `content` if there is any.
pub open spec fn slot(flag: u8, width: nat, content: Option<Seq<u8>>) -> Slot {
    match content {
        Some(bytes) => Some((flag, padded(bytes, width))),
        None => None,
    }
}

/// The octets of an address in the order in which they go on the wire, and back.
pub open spec fn backwards(address: Option<Seq<u8>>) -> Option<Seq<u8>> {
    match address {
        Some(octets) => Some(octets.reverse()),
        None => None,
    }
}

/// The bytes of a name, if there is one.
pub open spec fn encoded(name: Option<Seq<char>>) -> Option<Seq<u8>> {
    match name {
        Some(text) => Some(encode_utf8(text)),
        None => None,
    }
}

/// The flags of the fields that are there.
pub open spec fn slot_flags(slots: Seq<Slot>) -> u8
    decreases slots.len(),
{
    if slots.len() == 0 {
        0
    } else {
        match slots.last() {
            Some((flag, _)) => slot_flags(slots.drop_last()) | flag,
            None => slot_flags(slots.drop_last()),
        }
    }
}

/// The fields that are there, one behind the other.
pub open spec fn slot_bytes(slots: Seq<Slot>) -> Seq<u8>
    decreases slots.len(),
{
    if slots.len() == 0 {
        seq![]
    } else {
        match slots.last() {
            Some((_, bytes)) => slot_bytes(slots.drop_last()) + bytes,
            None => slot_bytes(slots.drop_last()),
        }
    }
}

/// Flag and width of the six fields, in the order in which they stand in the payload.
pub open spec fn layout() -> Seq<(u8, usize)> {
    seq![
        (0x01u8, 6usize),
        (0x02u8, 4usize),
        (0x04u8, 4usize),
        (0x08u8, 4usize),
        (0x10u8, 4usize),
        (0x20u8, 32usize),
    ]
}

/// Where field number `n` starts in a payload with the given flags: behind the flags, the
/// reserved bytes and those of the fields before it that the flags name.
pub open spec fn field_at(flags: u8, n: int) -> int
    decreases n,
{
    if n <= 0 {
        4
    } else {
        field_at(flags, n - 1) + if flags & layout()[n - 1].0 != 0 {
            layout()[n - 1].1 as int
        } else {
            0
        }
    }
}

/// The bytes of field number `n`, if the flags of the payload name it.
pub open spec fn field_bytes(payload: Seq<u8>, n: int) -> Option<Seq<u8>> {
    let flags = payload[0];
    if flags & layout()[n].0 != 0 {
        Some(payload.subrange(field_at(flags, n), field_at(flags, n + 1)))
    } else {
        None
    }
}

impl IpParamView {
    /// A parameter set with nothing in it.
    pub open spec fn empty() -> IpParamView {
        IpParamView {
            mac: None,
            ip: None,
            subnet: None,
            gateway: None,
            dns_ip: None,
            dns_name: None,
        }
    }

    /// Whether every value fits its field, as those of an [`IpParam`] do.
    pub open spec fn valid(self) -> bool {
        &&& self.mac matches Some(mac) ==> mac.len() == 6
        &&& self.ip matches Some(address) ==> address.len() == 4
        &&& self.subnet matches Some(address) ==> address.len() == 4
        &&& self.gateway matches Some(address) ==> address.len() == 4
        &&& self.dns_ip matches Some(address) ==> address.len() == 4
        &&& self.dns_name matches Some(text) ==> encode_utf8(text).len() <= DNS_NAME_LENGTH
    }

    /// The six fields, in the order in which they stand in the payload.
    pub open spec fn slots(self) -> Seq<Slot> {
        seq![
            slot(0x01, 6, self.mac),
            slot(0x02, 4, backwards(self.ip)),
            slot(0x04, 4, backwards(self.subnet)),
            slot(0x08, 4, backwards(self.gateway)),
            slot(0x10, 4, backwards(self.dns_ip)),
            slot(0x20, 32, encoded(self.dns_name)),
        ]
    }

    /// The payload: the flags, three reserved bytes and the fields that are there.
    pub open spec fn wire_bytes(self) -> Seq<u8> {
        seq![slot_flags(self.slots()), 0, 0, 0] + slot_bytes(self.slots())
    }

    /// What a payload says. It is too short if it has no flags, or ends before a field that its
    /// flags name; the reserved bytes need not be there where the flags name no field.
    pub open spec fn unpacked(payload: Seq<u8>) -> Result<IpParamView, WireError> {
        if payload.len() == 0 {
            Err(WireError::ReadBufferTooShort)
        } else if payload[0] & 0x3F != 0 && payload.len() < field_at(payload[0], 6) {
            Err(WireError::ReadBufferTooShort)
        } else {
            let name = field_bytes(payload, 5);
            if name matches Some(field) && !valid_utf8(text_bytes(field)) {
                Err(WireError::InvalidUtf8)
            } else {
                Ok(
                    IpParamView {
                        mac: field_bytes(payload, 0),
                        ip: backwards(field_bytes(payload, 1)),
                        subnet: backwards(field_bytes(payload, 2)),
                        gateway: backwards(field_bytes(payload, 3)),
                        dns_ip: backwards(field_bytes(payload, 4)),
                        dns_name: match name {
                            Some(field) => Some(decode_utf8(text_bytes(field))),
                            None => None,
                        },
                    },
                )
            }
        }
    }
}

/// One field of an [`IpParam`] on its way to the wire.
///
/// An address cannot be borrowed as bytes because it has to be reversed first, and the reversed
/// copy would not outlive the borrow.
enum Field<'a> {
    Bytes(&'a [u8]),
    Address(Ipv4Addr),
}

impl<'a> Field<'a> {
    /// The bytes of this field on the wire, without padding.
    spec fn bytes(self) -> Seq<u8> {
        match self {
            Field::Bytes(bytes) => bytes@,
            Field::Address(address) => address@.reverse(),
        }
    }
}

/// An address, if there is one, ready to be written into the given field.
spec fn address_entry<'a>(field: (u8, usize), address: Option<Ipv4Addr>) -> Option<
    ((u8, usize), Field<'a>),
> {
    match address {
        Some(present) => Some((field, Field::Address(present))),
        None => None,
    }
}

/// Whether `entry` is `content`, byte for byte, ready to be written into the given field, or
/// nothing where there is no content.
spec fn bytes_entry(
    entry: Option<((u8, usize), Field<'_>)>,
    field: (u8, usize),
    content: Option<Seq<u8>>,
) -> bool {
    match content {
        Some(bytes) => entry matches Some((own, Field::Bytes(held))) && own == field && held@
            == bytes,
        None => entry is None,
    }
}

/// What a field that is ready to be written, with its flag and its width, puts on the wire.
spec fn slot_of(entry: Option<((u8, usize), Field<'_>)>) -> Slot {
    match entry {
        Some(((flag, width), field)) => slot(flag, width as nat, Some(field.bytes())),
        None => None,
    }
}

/// A field cannot be wider than its slot.
spec fn fits(entry: Option<((u8, usize), Field<'_>)>) -> bool {
    match entry {
        Some(((_, width), field)) => field.bytes().len() <= width <= 32,
        None => true,
    }
}

/// Takes field number `n` off the payload, if the flags name it, and moves `at` behind it.
fn take<'a>(buf: &'a [u8], at: &mut usize, field: (u8, usize), Ghost(n): Ghost<int>) -> (taken:
    Result<Option<&'a [u8]>, WireError>)
    requires
        buf@.len() > 0,
        0 <= n < 6,
        field == layout()[n],
        *old(at) == field_at(buf@[0], n),
    ensures
        match taken {
            Ok(None) => {
                &&& field_bytes(buf@, n) is None
                &&& *final(at) == field_at(buf@[0], n + 1)
            },
            Ok(Some(bytes)) => {
                &&& field_bytes(buf@, n) == Some(bytes@)
                &&& bytes@.len() == field.1
                &&& *final(at) == field_at(buf@[0], n + 1) <= buf@.len()
            },
            Err(error) => {
                &&& buf@[0] & field.0 != 0
                &&& buf@.len() < field_at(buf@[0], n + 1)
                &&& error == WireError::ReadBufferTooShort
            },
        },
{
    if buf[0] & field.0 == 0 {
        return Ok(None);
    }
    if *at > buf.len() || buf.len() - *at < field.1 {
        return Err(WireError::ReadBufferTooShort);
    }
    let end: usize = *at + field.1;
    let bytes = &buf[*at..end];
    *at = end;
    Ok(Some(bytes))
}

/// Takes field number `n`, which holds an address, off the payload, as [`take`] does.
fn take_address(buf: &[u8], at: &mut usize, field: (u8, usize), Ghost(n): Ghost<int>) -> (taken:
    Result<Option<Ipv4Addr>, WireError>)
    requires
        buf@.len() > 0,
        1 <= n < 5,
        field == layout()[n],
        *old(at) == field_at(buf@[0], n),
    ensures
        match taken {
            Ok(address) => {
                &&& octets_of(address) == backwards(field_bytes(buf@, n))
                &&& *final(at) == field_at(buf@[0], n + 1)
                &&& address is Some ==> *final(at) <= buf@.len()
            },
            Err(error) => {
                &&& buf@[0] & field.0 != 0
                &&& buf@.len() < field_at(buf@[0], n + 1)
                &&& error == WireError::ReadBufferTooShort
            },
        },
{
    match take(buf, at, field, Ghost(n)) {
        Ok(Some(wire)) => {
            let address = Ipv4Addr::new(wire[3], wire[2], wire[1], wire[0]);
            assert(address@ =~= wire@.reverse());
            Ok(Some(address))
        },
        Ok(None) => Ok(None),
        Err(error) => Err(error),
    }
}

impl Default for IpParam {
    fn default() -> (param: Self)
        ensures
            param@ == IpParamView::empty(),
    {
        IpParam { mac: None, ip: None, subnet: None, gateway: None, dns_ip: None, dns_name: None }
    }
}

impl IpParam {
    /// How many bytes a DNS name can have. The field is always this wide on the wire.
    pub const DNS_NAME_LENGTH: usize = DNS_NAME_LENGTH;

    /// The flags byte plus three reserved bytes.
    const FIELDS_START: usize = 4;

    const MAC: (u8, usize) = (0x01, 6);

    const IP: (u8, usize) = (0x02, 4);

    const SUBNET: (u8, usize) = (0x04, 4);

    const GATEWAY: (u8, usize) = (0x08, 4);

    const DNS_IP: (u8, usize) = (0x10, 4);

    const DNS_NAME: (u8, usize) = (0x20, 32);

    /// An address that is to be written into the given field.
    fn address_field(field: (u8, usize), address: Option<Ipv4Addr>) -> (entry: Option<
        ((u8, usize), Field<'static>),
    >)
        requires
            field.1 == 4,
        ensures
            entry == address_entry(field, address),
            slot_of(entry) == slot(field.0, field.1 as nat, backwards(octets_of(address))),
            fits(entry),
            octets_of(address) matches Some(octets) ==> octets.len() == 4,
    {
        match address {
            Some(present) => {
                proof {
                    law_address_length(present);
                }
                Some((field, Field::Address(present)))
            },
            None => None,
        }
    }

    /// The fields this parameter set would write, in flag order: an entry for each field, with
    /// nothing in it where the parameter set has no value.
    ///
    /// One source for both [`IpParam::packed_len`] and the writing itself, so the length can never
    /// disagree with what is written.
    fn present(&self) -> (entries: [Option<((u8, usize), Field<'_>)>; 6])
        ensures
            bytes_entry(entries[0], Self::MAC, self@.mac),
            entries[1] == address_entry(Self::IP, self.ip),
            entries[2] == address_entry(Self::SUBNET, self.subnet),
            entries[3] == address_entry(Self::GATEWAY, self.gateway),
            entries[4] == address_entry(Self::DNS_IP, self.dns_ip),
            bytes_entry(entries[5], Self::DNS_NAME, encoded(self@.dns_name)),
            forall|i: int| 0 <= i < 6 ==> slot_of(#[trigger] entries[i]) == self@.slots()[i],
            forall|i: int| 0 <= i < 6 ==> fits(#[trigger] entries[i]),
            self@.valid(),
    {
        let mac = match &self.mac {
            Some(mac) => Some((Self::MAC, Field::Bytes(mac))),
            None => None,
        };
        let dns_name = match &self.dns_name {
            Some(name) => Some((Self::DNS_NAME, Field::Bytes(dns_name_as_str(name).as_bytes()))),
            None => None,
        };
        [
            mac,
            Self::address_field(Self::IP, self.ip),
            Self::address_field(Self::SUBNET, self.subnet),
            Self::address_field(Self::GATEWAY, self.gateway),
            Self::address_field(Self::DNS_IP, self.dns_ip),
            dns_name,
        ]
    }

    /// Reads the payload of a Set-IP request or a Get-IP response.
    ///
    /// # Errors
    ///
    /// [`WireError::ReadBufferTooShort`] if the payload ends before a field its own flags
    /// promised, or [`WireError::InvalidUtf8`] if the DNS name is not valid UTF-8.
    pub fn unpack_from_slice(buf: &[u8]) -> (param: Result<IpParam, WireError>)
        ensures
            match param {
                Ok(read) => IpParamView::unpacked(buf@) == Ok::<IpParamView, WireError>(read@),
                Err(error) => IpParamView::unpacked(buf@) == Err::<IpParamView, WireError>(error),
            },
    {
        if buf.len() == 0 {
            return Err(WireError::ReadBufferTooShort);
        }
        proof {
            lemma_extents(buf@[0]);
        }
        let mut at: usize = Self::FIELDS_START;

        let mac = match take(buf, &mut at, Self::MAC, Ghost(0)) {
            Ok(Some(bytes)) => {
                let mac: [u8; 6] = [bytes[0], bytes[1], bytes[2], bytes[3], bytes[4], bytes[5]];
                assert(mac@ =~= bytes@);
                Some(mac)
            },
            Ok(None) => None,
            Err(error) => return Err(error),
        };
        let ip = match take_address(buf, &mut at, Self::IP, Ghost(1)) {
            Ok(ip) => ip,
            Err(error) => return Err(error),
        };
        let subnet = match take_address(buf, &mut at, Self::SUBNET, Ghost(2)) {
            Ok(subnet) => subnet,
            Err(error) => return Err(error),
        };
        let gateway = match take_address(buf, &mut at, Self::GATEWAY, Ghost(3)) {
            Ok(gateway) => gateway,
            Err(error) => return Err(error),
        };
        let dns_ip = match take_address(buf, &mut at, Self::DNS_IP, Ghost(4)) {
            Ok(dns_ip) => dns_ip,
            Err(error) => return Err(error),
        };
        let dns_name = match take(buf, &mut at, Self::DNS_NAME, Ghost(5)) {
            Ok(Some(field)) => match read_dns_name(field) {
                Ok(name) => Some(name),
                Err(error) => return Err(error),
            },
            Ok(None) => None,
            Err(error) => return Err(error),
        };

        Ok(IpParam { mac, ip, subnet, gateway, dns_ip, dns_name })
    }

    /// How many bytes the payload of this parameter set takes up.
    pub fn packed_len(&self) -> (len: usize)
        ensures
            len == self@.wire_bytes().len(),
            self@.valid(),
    {
        let entries = self.present();
        let ghost slots = self@.slots();
        let mut total: usize = Self::FIELDS_START;
        let mut i: usize = 0;
        while i < 6
            invariant
                i <= 6,
                slots.len() == 6,
                total <= 4 + 32 * i,
                total == 4 + slot_bytes(slots.take(i as int)).len(),
                forall|k: int| 0 <= k < 6 ==> slot_of(#[trigger] entries[k]) == slots[k],
                forall|k: int| 0 <= k < 6 ==> fits(#[trigger] entries[k]),
            decreases 6 - i,
        {
            proof {
                assert(fits(entries[i as int]));
                assert(slots.take(i + 1).drop_last() =~= slots.take(i as int));
            }
            match &entries[i] {
                Some(((_, width), _)) => {
                    total = total + *width;
                },
                None => {},
            }
            i += 1;
        }
        assert(slots.take(6) =~= slots);
        total
    }

    /// Writes the payload of this parameter set into the front of `buf` and hands that front back.
    /// The buffer must be long enough.
    pub fn pack_to_slice_unchecked<'buf>(&self, buf: &'buf mut [u8]) -> (written: &'buf [u8])
        requires
            self@.wire_bytes().len() <= old(buf)@.len(),
        ensures
            written@ == self@.wire_bytes(),
            final(buf)@ == overwritten(old(buf)@, self@.wire_bytes()),
            self@.valid(),
    {
        let length: usize = self.packed_len();
        let ghost behind = buf@.skip(length as int);

        // Zero first: the reserved bytes behind the flags, and the padding behind a DNS name
        // shorter than its field, must be zero rather than whatever the caller's buffer held.
        zero_front(buf, length);

        let entries = self.present();
        let ghost slots = self@.slots();
        let mut flags: u8 = 0;
        let mut at: usize = Self::FIELDS_START;
        let mut i: usize = 0;
        assert(buf@ =~= zeros(4) + slot_bytes(slots.take(0)) + zeros((length - at) as nat)
            + behind);
        while i < 6
            invariant
                i <= 6,
                slots.len() == 6,
                length == 4 + slot_bytes(slots).len(),
                at == 4 + slot_bytes(slots.take(i as int)).len(),
                at <= length,
                flags == slot_flags(slots.take(i as int)),
                buf@ == zeros(4) + slot_bytes(slots.take(i as int)) + zeros((length - at) as nat)
                    + behind,
                forall|k: int| 0 <= k < 6 ==> slot_of(#[trigger] entries[k]) == slots[k],
                forall|k: int| 0 <= k < 6 ==> fits(#[trigger] entries[k]),
            decreases 6 - i,
        {
            let ghost done = slot_bytes(slots.take(i as int));
            let ghost before = buf@;
            proof {
                assert(fits(entries[i as int]));
                assert(slots.take(i + 1).drop_last() =~= slots.take(i as int));
                lemma_slot_bytes_prefix(slots, i + 1);
            }
            match &entries[i] {
                Some(((flag, width), field)) => {
                    match field {
                        Field::Bytes(bytes) => {
                            write_at(buf, at, bytes);
                        },
                        Field::Address(address) => {
                            let octets = address.octets();
                            // Last octet first - see the note on `IpParam`.
                            let wire: [u8; 4] = [octets[3], octets[2], octets[1], octets[0]];
                            assert(wire@ =~= address@.reverse());
                            write_at(buf, at, &wire);
                        },
                    }
                    flags = flags | *flag;
                    proof {
                        let bytes = field.bytes();
                        assert(buf@ == before.take(at as int) + bytes + before.skip(
                            at + bytes.len(),
                        ));
                        assert(buf@ =~= zeros(4) + (done + padded(bytes, *width as nat)) + zeros(
                            (length - at - *width) as nat,
                        ) + behind);
                    }
                    at = at + *width;
                },
                None => {},
            }
            i += 1;
        }
        assert(slots.take(6) =~= slots);

        buf[0] = flags;
        assert(buf@ =~= self@.wire_bytes() + behind);
        let written: &'buf [u8] = &buf[0..length];
        assert(written@ =~= self@.wire_bytes());
        written
    }

    /// Writes the payload of this parameter set into the front of `buf` and hands that front back,
    /// if it fits.
    pub fn pack_to_slice<'buf>(&self, buf: &'buf mut [u8]) -> (written: Result<
        &'buf [u8],
        WireError,
    >)
        ensures
            packs(self@.wire_bytes(), old(buf)@, final(buf)@, written),
            self@.valid(),
    {
        if buf.len() < self.packed_len() {
            Err(WireError::WriteBufferTooShort)
        } else {
            Ok(self.pack_to_slice_unchecked(buf))
        }
    }
}

/// The six flags are those of the six fields, the fields lie one behind the other, and one that
/// is not there takes up no room.
pub(crate) proof fn lemma_extents(flags: u8)
    ensures
        flags & 0x3F != 0 <==> exists|n: int|
            0 <= n < 6 && flags & (#[trigger] layout()[n]).0 != 0,
        forall|n: int| 0 <= n <= 6 ==> 4 <= #[trigger] field_at(flags, n) <= field_at(flags, 6),
        forall|n: int|
            0 <= n < 6 && flags & (#[trigger] layout()[n]).0 == 0 ==> field_at(flags, n + 1)
                == field_at(flags, n),
{
    reveal_with_fuel(field_at, 7);
    assert(flags & 0x3F != 0 <==> (flags & 0x01 != 0 || flags & 0x02 != 0 || flags & 0x04 != 0
        || flags & 0x08 != 0 || flags & 0x10 != 0 || flags & 0x20 != 0)) by (bit_vector);
    let l = layout();
    assert(l[0].0 == 0x01 && l[1].0 == 0x02 && l[2].0 == 0x04 && l[3].0 == 0x08 && l[4].0 == 0x10
        && l[5].0 == 0x20);
}

/// The first fields stand in front of all of them.
pub(crate) proof fn lemma_slot_bytes_prefix(slots: Seq<Slot>, n: int)
    requires
        0 <= n <= slots.len(),
    ensures
        slot_bytes(slots.take(n)).is_prefix_of(slot_bytes(slots)),
    decreases slots.len() - n,
{
    if n == slots.len() {
        assert(slots.take(n) =~= slots);
    } else {
        assert(slots.take(n + 1).drop_last() =~= slots.take(n));
        lemma_slot_bytes_prefix(slots, n + 1);
    }
}

} // verus!
