# ethercat_mailbox

The mailbox side of an EtherCAT MainDevice, verified with Verus: the mailbox header, Ethernet over
EtherCAT (EoE) headers and IP parameters, and the waits for a SubDevice's mailboxes.

* `src/` is the library. Every function states what it returns for every input, over the spec
  functions `wire_bytes` and `unpacked` of each wire type and over the models of the waits. The
  modules named `*_laws` prove what holds between them: what is written is read back, what is
  refused and why, and how the waits go on and end.
* `app/` runs the waits on a bus.
* `tests/` runs the library on concrete values.

What is trusted and not proved stands in `src/mailbox/eoe/dns_name.rs`: three calls, into
`heapless::String` and `core::str::from_utf8`.
