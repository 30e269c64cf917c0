//! The per-packet pipeline: parse, classify, rewrite.
//!
//! A malformed buffer and an unmatched packet are dropped; a matched TCP
//! datagram is rewritten and handed back for exactly one write; a matched
//! datagram of any other protocol is recognized but deliberately dropped —
//! pass-through of non-TCP traffic is an extension point this engine leaves
//! unimplemented.

use vstd::prelude::*;
use crate::packet::dst_of;
use crate::packet::parse;
use crate::packet::protocol_of;
use crate::packet::src_of;
use crate::packet::wf_ip;
use crate::packet::TCP_PROTOCOL;
use crate::rewrite::rewrite;
use crate::rewrite::rewrite_spec;
use crate::table::lemma_lookup_some;
use crate::table::spec_lookup;
use crate::table::AddressTable;
use crate::table::Direction;

verus! {

/// What becomes of one raw buffer.
pub enum PacketDisposition {
    /// The buffer is not a well-formed IPv4 datagram: dropped.
    Malformed,
    /// No application's address pair fits: dropped.
    NoMatch,
    /// Matched, but the protocol is not TCP: recognized and dropped.
    Ignored {
        /// Position of the matched application.
        app_index: usize,
    },
    /// Matched TCP traffic: the rewritten datagram, to be written once.
    Forward {
        /// Position of the matched application.
        app_index: usize,
        /// The direction the packet travels.
        direction: Direction,
        /// The rewritten datagram.
        packet: Vec<u8>,
    },
}

/// Runs one buffer through the pipeline.
///
/// Exactly the well-formed, matched, TCP-bearing buffers come back as
/// `Forward`, carrying the rewrite for the matched application and
/// direction: one rewrite, for one write, per such packet.
pub fn process_packet(table: &AddressTable, packet: Vec<u8>) -> (r: PacketDisposition)
    ensures
        r is Malformed <==> !wf_ip(packet@),
        r is NoMatch <==> wf_ip(packet@) && spec_lookup(table@, src_of(packet@), dst_of(packet@))
            is None,
        r is Ignored <==> wf_ip(packet@) && spec_lookup(table@, src_of(packet@), dst_of(packet@))
            is Some && protocol_of(packet@) != TCP_PROTOCOL as int,
        r is Forward <==> wf_ip(packet@) && spec_lookup(table@, src_of(packet@), dst_of(packet@))
            is Some && protocol_of(packet@) == TCP_PROTOCOL as int,
        forall|i: int, d: Direction|
            wf_ip(packet@) && spec_lookup(table@, src_of(packet@), dst_of(packet@)) == Some(
                (i, d),
            ) ==> match r {
                PacketDisposition::Ignored { app_index } => app_index as int == i,
                PacketDisposition::Forward { app_index, direction, packet: out } => {
                    &&& app_index as int == i
                    &&& direction == d
                    &&& out@ == rewrite_spec(packet@, table@[i], d)
                },
                _ => true,
            },
{
    let header = match parse(&packet) {
        Ok(h) => h,
        Err(_) => {
            return PacketDisposition::Malformed;
        },
    };
    match table.lookup(header.source, header.destination) {
        None => PacketDisposition::NoMatch,
        Some((index, direction)) => {
            proof {
                lemma_lookup_some(
                    table@,
                    src_of(packet@),
                    dst_of(packet@),
                    index as int,
                    direction,
                );
            }
            if header.protocol == TCP_PROTOCOL {
                let mut rewritten = packet;
                rewrite(&mut rewritten, table.entry(index), direction);
                PacketDisposition::Forward { app_index: index, direction, packet: rewritten }
            } else {
                PacketDisposition::Ignored { app_index: index }
            }
        },
    }
}

} // verus!
