//! What holds between reading and writing a mailbox header.

use vstd::prelude::*;

use super::header::MailboxHeader;
use super::mailbox_type::MailboxType;
use super::priority::Priority;
use crate::wire::WireError;

verus! {

/// **A mailbox header survives being written and read back**, whatever stands behind it. Of the
/// counter the low three bits do: all of it, for the counters from 1 to 7.
pub proof fn law_mailbox_header_round_trip(header: MailboxHeader, behind: Seq<u8>)
    ensures
        MailboxHeader::unpacked(header.wire_bytes() + behind) == Ok::<MailboxHeader, WireError>(
            MailboxHeader { counter: (header.counter % 8) as u8, ..header },
        ),
        header.counter < 8 ==> MailboxHeader::unpacked(header.wire_bytes() + behind) == Ok::<
            MailboxHeader,
            WireError,
        >(header),
{
    let bytes = header.wire_bytes() + behind;
    law_mailbox_type_round_trip(header.mailbox_type, seq![]);
    law_priority_round_trip(header.priority, seq![]);
    assert(bytes[5] % 16 == header.mailbox_type.code());
    assert(bytes[4] / 64 == header.priority.code());
}

/// **Writing what was read gives back the bytes that were read**, with the address and the
/// reserved bits set to zero.
pub proof fn law_mailbox_header_rewritten(bytes: Seq<u8>)
    ensures
        MailboxHeader::unpacked(bytes) matches Ok(header) ==> header.wire_bytes() == seq![
            bytes[0],
            bytes[1],
            0u8,
            0u8,
            (bytes[4] / 64 * 64) as u8,
            (bytes[5] % 128) as u8,
        ],
{
    if let Ok(header) = MailboxHeader::unpacked(bytes) {
        assert(header.wire_bytes() =~= seq![
            bytes[0],
            bytes[1],
            0u8,
            0u8,
            (bytes[4] / 64 * 64) as u8,
            (bytes[5] % 128) as u8,
        ]);
    }
}

/// **A header that is long enough is refused for its mailbox type alone**: for one of the nine
/// reserved values, 6 to 14.
pub proof fn law_mailbox_header_refused(bytes: Seq<u8>)
    requires
        bytes.len() >= 6,
    ensures
        MailboxHeader::unpacked(bytes) is Err <==> 6 <= bytes[5] % 16 <= 14,
        MailboxHeader::unpacked(bytes) matches Err(error) ==> error == WireError::InvalidValue,
{
}

/// **Every mailbox type is read back as it was written**, and no two share a value.
pub proof fn law_mailbox_type_round_trip(mailbox_type: MailboxType, behind: Seq<u8>)
    ensures
        MailboxType::unpacked(mailbox_type.wire_bytes() + behind) == Ok::<MailboxType, WireError>(
            mailbox_type,
        ),
        MailboxType::named(mailbox_type.code()) == Ok::<MailboxType, WireError>(mailbox_type),
        mailbox_type.code() < 16,
        forall|code: u8|
            (#[trigger] MailboxType::named(code)) == Ok::<MailboxType, WireError>(mailbox_type)
                ==> code == mailbox_type.code(),
{
}

/// **Every priority is read back as it was written**; a value above the four defined ones reads
/// as the default.
pub proof fn law_priority_round_trip(priority: Priority, behind: Seq<u8>)
    ensures
        Priority::unpacked(priority.wire_bytes() + behind) == Ok::<Priority, WireError>(priority),
        Priority::named(priority.code()) == priority,
        priority.code() < 4,
        forall|code: u8| code >= 4 ==> (#[trigger] Priority::named(code)) == Priority::Lowest,
{
}

} // verus!
