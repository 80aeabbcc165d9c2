//! Where everything stands in a mailbox header, byte by byte.
//!
//! The laws here speak of what the functions take and hand out, and of single bytes.

use vstd::prelude::*;

use super::header::MailboxHeader;
use super::mailbox_type::MailboxType;
use super::priority::Priority;
use crate::wire::{bytes_of_word, WireError};

verus! {

/// **Every field of a mailbox header has its place**: the length in the first two bytes, the low
/// one first, zeros in the next two, the priority in the two upper bits of byte 4, the type in the
/// four lower bits of byte 5 and the low three bits of the counter above it.
pub proof fn law_mailbox_header_bytes(header: MailboxHeader, packed: [u8; 6])
    requires
        call_ensures(MailboxHeader::pack, (&header,), packed),
    ensures
        packed[0] == header.length % 256,
        packed[1] == header.length / 256,
        packed[0] + 256 * packed[1] == header.length,
        packed[2] == 0,
        packed[3] == 0,
        packed[4] % 64 == 0,
        packed[4] == 0 <==> header.priority is Lowest,
        packed[4] == 64 <==> header.priority is Low,
        packed[4] == 128 <==> header.priority is High,
        packed[4] == 192 <==> header.priority is Highest,
        packed[5] % 16 == 0 <==> header.mailbox_type is Error,
        packed[5] % 16 == 1 <==> header.mailbox_type is Aoe,
        packed[5] % 16 == 2 <==> header.mailbox_type is Eoe,
        packed[5] % 16 == 3 <==> header.mailbox_type is Coe,
        packed[5] % 16 == 4 <==> header.mailbox_type is Foe,
        packed[5] % 16 == 5 <==> header.mailbox_type is Soe,
        packed[5] % 16 == 15 <==> header.mailbox_type is VendorSpecific,
        packed[5] / 16 == header.counter % 8,
{
    let bytes = header.wire_bytes();
    assert(packed@ == bytes);
    assert(bytes_of_word(header.length).len() == 2);
    assert(packed[5] == packed@[5]);
}

/// **Every field of a mailbox header is read from its place**, and the type alone decides whether
/// six bytes are a header.
pub proof fn law_mailbox_header_fields(buf: &[u8], read: Result<MailboxHeader, WireError>)
    requires
        call_ensures(MailboxHeader::unpack_from_slice, (buf,), read),
    ensures
        buf@.len() < 6 ==> read == Err::<MailboxHeader, WireError>(WireError::ReadBufferTooShort),
        buf@.len() >= 6 && 6 <= buf@[5] % 16 <= 14 ==> read == Err::<MailboxHeader, WireError>(
            WireError::InvalidValue,
        ),
        buf@.len() >= 6 && !(6 <= buf@[5] % 16 <= 14) ==> read is Ok,
        read matches Ok(header) ==> {
            &&& header.length == buf@[0] + 256 * buf@[1]
            &&& header.priority is Lowest <==> buf@[4] < 64
            &&& header.priority is Low <==> 64 <= buf@[4] < 128
            &&& header.priority is High <==> 128 <= buf@[4] < 192
            &&& header.priority is Highest <==> 192 <= buf@[4]
            &&& header.mailbox_type is Error <==> buf@[5] % 16 == 0
            &&& header.mailbox_type is Aoe <==> buf@[5] % 16 == 1
            &&& header.mailbox_type is Eoe <==> buf@[5] % 16 == 2
            &&& header.mailbox_type is Coe <==> buf@[5] % 16 == 3
            &&& header.mailbox_type is Foe <==> buf@[5] % 16 == 4
            &&& header.mailbox_type is Soe <==> buf@[5] % 16 == 5
            &&& header.mailbox_type is VendorSpecific <==> buf@[5] % 16 == 15
            &&& header.counter == buf@[5] / 16 % 8
        },
{
}

/// **A mailbox header goes into the front of a buffer**, if six bytes fit, and the rest of the
/// buffer stays as it is. Where they do not fit, all of it stays.
pub proof fn law_mailbox_header_written<'a>(
    header: MailboxHeader,
    packed: [u8; 6],
    buf: &'a mut [u8],
    written: Result<&'a [u8], WireError>,
)
    requires
        call_ensures(MailboxHeader::pack, (&header,), packed),
        call_ensures(MailboxHeader::pack_to_slice, (&header, buf), written),
    ensures
        final(buf)@.len() == old(buf)@.len(),
        old(buf)@.len() >= 6 ==> {
            &&& written matches Ok(front) && front@ == packed@
            &&& forall|i: int| 0 <= i < 6 ==> #[trigger] final(buf)@[i] == packed[i]
            &&& forall|i: int|
                6 <= i < old(buf)@.len() ==> #[trigger] final(buf)@[i] == old(buf)@[i]
        },
        old(buf)@.len() < 6 ==> {
            &&& written == Err::<&[u8], WireError>(WireError::WriteBufferTooShort)
            &&& final(buf)@ == old(buf)@
        },
{
}

/// **Writing a mailbox header into a buffer that is long enough is writing it into that buffer.**
pub proof fn law_mailbox_header_written_unchecked<'a>(
    header: MailboxHeader,
    packed: [u8; 6],
    buf: &'a mut [u8],
    written: &'a [u8],
    len: usize,
)
    requires
        call_ensures(MailboxHeader::pack, (&header,), packed),
        call_ensures(MailboxHeader::packed_len, (&header,), len),
        call_ensures(MailboxHeader::pack_to_slice_unchecked, (&header, buf), written),
        old(buf)@.len() >= 6,
    ensures
        len == 6,
        written@ == packed@,
        final(buf)@.len() == old(buf)@.len(),
        forall|i: int| 0 <= i < 6 ==> #[trigger] final(buf)@[i] == packed[i],
        forall|i: int| 6 <= i < old(buf)@.len() ==> #[trigger] final(buf)@[i] == old(buf)@[i],
{
}

/// **The seven mailbox types have these values**, alone and as a byte on the wire.
pub proof fn law_mailbox_type_values(mailbox_type: MailboxType, code: u8, packed: [u8; 1])
    requires
        call_ensures(<u8 as From<MailboxType>>::from, (mailbox_type,), code),
        call_ensures(MailboxType::pack, (&mailbox_type,), packed),
    ensures
        packed[0] == code,
        mailbox_type is Error <==> code == 0,
        mailbox_type is Aoe <==> code == 1,
        mailbox_type is Eoe <==> code == 2,
        mailbox_type is Coe <==> code == 3,
        mailbox_type is Foe <==> code == 4,
        mailbox_type is Soe <==> code == 5,
        mailbox_type is VendorSpecific <==> code == 15,
{
    assert(packed@ == mailbox_type.wire_bytes());
}

/// **A byte is read, or converted, as the mailbox type that has its value**, and refused where
/// none has it.
pub proof fn law_mailbox_type_read(
    buf: &[u8],
    read: Result<MailboxType, WireError>,
    converted: Result<MailboxType, WireError>,
    code: u8,
)
    requires
        call_ensures(MailboxType::unpack_from_slice, (buf,), read),
        buf@.len() > 0 ==> call_ensures(
            <MailboxType as TryFrom<u8>>::try_from,
            (buf@[0],),
            converted,
        ),
        read matches Ok(mailbox_type) ==> call_ensures(
            <u8 as From<MailboxType>>::from,
            (mailbox_type,),
            code,
        ),
    ensures
        buf@.len() == 0 ==> read == Err::<MailboxType, WireError>(WireError::ReadBufferTooShort),
        buf@.len() > 0 ==> read == converted,
        buf@.len() > 0 ==> (read is Ok <==> buf@[0] <= 5 || buf@[0] == 15),
        read is Ok ==> code == buf@[0],
        buf@.len() > 0 && read is Err ==> read == Err::<MailboxType, WireError>(
            WireError::InvalidValue,
        ),
{
}

/// **The four priorities have the values 0 to 3**, alone and as a byte on the wire.
pub proof fn law_priority_values(priority: Priority, code: u8, packed: [u8; 1])
    requires
        call_ensures(<u8 as From<Priority>>::from, (priority,), code),
        call_ensures(Priority::pack, (&priority,), packed),
    ensures
        packed[0] == code,
        priority is Lowest <==> code == 0,
        priority is Low <==> code == 1,
        priority is High <==> code == 2,
        priority is Highest <==> code == 3,
{
    assert(packed@ == priority.wire_bytes());
}

/// **A byte is read, or converted, as the priority that has its value**, and as the lowest, which
/// is the default, where none has it.
pub proof fn law_priority_read(
    buf: &[u8],
    read: Result<Priority, WireError>,
    converted: Priority,
    default: Priority,
)
    requires
        call_ensures(Priority::unpack_from_slice, (buf,), read),
        buf@.len() > 0 ==> call_ensures(<Priority as From<u8>>::from, (buf@[0],), converted),
        call_ensures(<Priority as Default>::default, (), default),
    ensures
        buf@.len() == 0 ==> read == Err::<Priority, WireError>(WireError::ReadBufferTooShort),
        buf@.len() > 0 ==> read == Ok::<Priority, WireError>(converted),
        buf@.len() > 0 ==> {
            &&& converted is Low <==> buf@[0] == 1
            &&& converted is High <==> buf@[0] == 2
            &&& converted is Highest <==> buf@[0] == 3
            &&& converted is Lowest <==> buf@[0] == 0 || buf@[0] > 3
        },
        default is Lowest,
{
}

/// **A mailbox type, or a priority, goes into the first byte of a buffer**, if it has one, and the
/// rest of the buffer stays as it is.
pub proof fn law_mailbox_type_and_priority_written<'a>(
    mailbox_type: MailboxType,
    type_packed: [u8; 1],
    type_buf: &'a mut [u8],
    type_written: Result<&'a [u8], WireError>,
    priority: Priority,
    priority_packed: [u8; 1],
    priority_buf: &'a mut [u8],
    priority_written: Result<&'a [u8], WireError>,
)
    requires
        call_ensures(MailboxType::pack, (&mailbox_type,), type_packed),
        call_ensures(MailboxType::pack_to_slice, (&mailbox_type, type_buf), type_written),
        call_ensures(Priority::pack, (&priority,), priority_packed),
        call_ensures(Priority::pack_to_slice, (&priority, priority_buf), priority_written),
    ensures
        old(type_buf)@.len() == 0 ==> {
            &&& type_written == Err::<&[u8], WireError>(WireError::WriteBufferTooShort)
            &&& final(type_buf)@ == old(type_buf)@
        },
        old(type_buf)@.len() > 0 ==> {
            &&& type_written matches Ok(front) && front@ == type_packed@
            &&& final(type_buf)@ == old(type_buf)@.update(0, type_packed[0])
        },
        old(priority_buf)@.len() == 0 ==> {
            &&& priority_written == Err::<&[u8], WireError>(WireError::WriteBufferTooShort)
            &&& final(priority_buf)@ == old(priority_buf)@
        },
        old(priority_buf)@.len() > 0 ==> {
            &&& priority_written matches Ok(front) && front@ == priority_packed@
            &&& final(priority_buf)@ == old(priority_buf)@.update(0, priority_packed[0])
        },
{
    if old(type_buf)@.len() > 0 {
        assert(final(type_buf)@ =~= old(type_buf)@.update(0, type_packed[0]));
    }
    if old(priority_buf)@.len() > 0 {
        assert(final(priority_buf)@ =~= old(priority_buf)@.update(0, priority_packed[0]));
    }
}

/// **A mailbox type, or a priority, takes up one byte**, and goes into the first byte of a buffer
/// that is long enough.
pub proof fn law_mailbox_type_and_priority_written_unchecked<'a>(
    mailbox_type: MailboxType,
    type_packed: [u8; 1],
    type_len: usize,
    type_buf: &'a mut [u8],
    type_written: &'a [u8],
    priority: Priority,
    priority_packed: [u8; 1],
    priority_len: usize,
    priority_buf: &'a mut [u8],
    priority_written: &'a [u8],
)
    requires
        call_ensures(MailboxType::pack, (&mailbox_type,), type_packed),
        call_ensures(MailboxType::packed_len, (&mailbox_type,), type_len),
        call_ensures(MailboxType::pack_to_slice_unchecked, (&mailbox_type, type_buf), type_written),
        old(type_buf)@.len() > 0,
        call_ensures(Priority::pack, (&priority,), priority_packed),
        call_ensures(Priority::packed_len, (&priority,), priority_len),
        call_ensures(
            Priority::pack_to_slice_unchecked,
            (&priority, priority_buf),
            priority_written,
        ),
        old(priority_buf)@.len() > 0,
    ensures
        type_len == 1,
        type_written@ == type_packed@,
        final(type_buf)@ == old(type_buf)@.update(0, type_packed[0]),
        priority_len == 1,
        priority_written@ == priority_packed@,
        final(priority_buf)@ == old(priority_buf)@.update(0, priority_packed[0]),
{
    assert(final(type_buf)@ =~= old(type_buf)@.update(0, type_packed[0]));
    assert(final(priority_buf)@ =~= old(priority_buf)@.update(0, priority_packed[0]));
}

} // verus!
