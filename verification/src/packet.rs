//! Views of a raw buffer as an IPv4 datagram, with a TCP segment nested in
//! its payload.
//!
//! The field readers are spec functions over the byte sequence; `parse`
//! checks well-formedness and extracts the fields the engine needs.  A
//! buffer shorter than a minimal header, with a header length below the
//! minimum, or whose declared header or total length exceeds the buffer, is
//! malformed and rejected; the caller drops it and carries on.

use vstd::prelude::*;

verus! {

/// Protocol number carried by a TCP-bearing datagram.
pub const TCP_PROTOCOL: u8 = 6;

/// The big-endian 16-bit word at byte offset `i`.
pub open spec fn word_at(b: Seq<u8>, i: int) -> int {
    256 * (b[i] as int) + (b[i + 1] as int)
}

/// The big-endian 32-bit address at byte offset `i`.
pub open spec fn addr_at(b: Seq<u8>, i: int) -> int {
    0x1000000 * (b[i] as int) + 0x10000 * (b[i + 1] as int) + 256 * (b[i + 2] as int) + (b[i
        + 3] as int)
}

/// The header-length field: the low nibble of the first byte, in 32-bit
/// units.
pub open spec fn ihl_of(b: Seq<u8>) -> int {
    (b[0] as int) % 16
}

/// The version field: the high nibble of the first byte.
pub open spec fn version_of(b: Seq<u8>) -> int {
    (b[0] as int) / 16
}

/// The header length in bytes.
pub open spec fn header_len_of(b: Seq<u8>) -> int {
    4 * ihl_of(b)
}

/// The declared total length of the datagram.
pub open spec fn total_len_of(b: Seq<u8>) -> int {
    word_at(b, 2)
}

/// The protocol field.
pub open spec fn protocol_of(b: Seq<u8>) -> int {
    b[9] as int
}

/// The source address.
pub open spec fn src_of(b: Seq<u8>) -> int {
    addr_at(b, 12)
}

/// The destination address.
pub open spec fn dst_of(b: Seq<u8>) -> int {
    addr_at(b, 16)
}

/// A well-formed IPv4 buffer: room for a minimal header, a header length of
/// at least five words, and declared lengths that stay within the buffer.
pub open spec fn wf_ip(b: Seq<u8>) -> bool {
    &&& b.len() >= 20
    &&& ihl_of(b) >= 5
    &&& header_len_of(b) <= b.len()
    &&& total_len_of(b) <= b.len()
}

/// The payload carries a parseable TCP segment: the protocol says TCP and
/// the declared length leaves room for a minimal TCP header.
pub open spec fn has_tcp(b: Seq<u8>) -> bool {
    protocol_of(b) == TCP_PROTOCOL as int && total_len_of(b) >= header_len_of(b) + 20
}

/// The TCP segment: the bytes between the IP header and the declared total
/// length.
pub open spec fn segment_of(b: Seq<u8>) -> Seq<u8> {
    b.subrange(header_len_of(b), total_len_of(b))
}

/// The ports of a nested TCP header.
#[derive(Debug, Clone, Copy, PartialEq, Eq, Structural)]
pub struct TcpHeaderView {
    pub source_port: u16,
    pub destination_port: u16,
}

/// The fields of a parsed IPv4 header, with the nested TCP view when the
/// payload carries one.
#[derive(Debug, Clone, Copy, PartialEq, Eq, Structural)]
pub struct IpHeaderView {
    pub version: u8,
    pub ihl: u8,
    pub total_length: u16,
    pub protocol: u8,
    pub source: u32,
    pub destination: u32,
    pub tcp: Option<TcpHeaderView>,
}

/// Why a buffer was rejected.
#[derive(Debug, Clone, Copy, PartialEq, Eq, Structural)]
pub enum ParseError {
    /// Truncated or inconsistent IP header.
    Malformed,
}

/// Reads the big-endian 16-bit word at offset `i`.
pub fn read_word(b: &Vec<u8>, i: usize) -> (w: u16)
    requires
        i + 1 < b.len(),
    ensures
        w as int == word_at(b@, i as int),
{
    256 * (b[i] as u16) + (b[i + 1] as u16)
}

/// Reads the big-endian 32-bit address at offset `i`.
pub fn read_addr(b: &Vec<u8>, i: usize) -> (a: u32)
    requires
        i + 3 < b.len(),
    ensures
        a as int == addr_at(b@, i as int),
{
    0x1000000 * (b[i] as u32) + 0x10000 * (b[i + 1] as u32) + 256 * (b[i + 2] as u32) + (b[i
        + 3] as u32)
}

/// Validates a raw buffer as an IPv4 datagram and extracts its fields.
///
/// Returns `Ok` exactly on well-formed buffers; the view then reports every
/// field as the spec readers give it, and carries the TCP ports exactly when
/// the protocol says TCP and the declared length has room for a minimal TCP
/// header.
pub fn parse(buffer: &Vec<u8>) -> (r: Result<IpHeaderView, ParseError>)
    ensures
        r is Ok <==> wf_ip(buffer@),
        r matches Ok(h) ==> {
            &&& h.version as int == version_of(buffer@)
            &&& h.ihl as int == ihl_of(buffer@)
            &&& h.total_length as int == total_len_of(buffer@)
            &&& h.protocol as int == protocol_of(buffer@)
            &&& h.source as int == src_of(buffer@)
            &&& h.destination as int == dst_of(buffer@)
            &&& (h.tcp is Some <==> has_tcp(buffer@))
            &&& h.tcp matches Some(t) ==> {
                &&& t.source_port as int == word_at(buffer@, header_len_of(buffer@))
                &&& t.destination_port as int == word_at(buffer@, header_len_of(buffer@) + 2)
            }
        },
        r is Err ==> r == Result::<IpHeaderView, ParseError>::Err(ParseError::Malformed),
{
    if buffer.len() < 20 {
        return Err(ParseError::Malformed);
    }
    let ihl = buffer[0] % 16;
    if ihl < 5 {
        return Err(ParseError::Malformed);
    }
    let header_len = 4 * (ihl as usize);
    if header_len > buffer.len() {
        return Err(ParseError::Malformed);
    }
    let total_length = read_word(buffer, 2);
    if total_length as usize > buffer.len() {
        return Err(ParseError::Malformed);
    }
    let protocol = buffer[9];
    let source = read_addr(buffer, 12);
    let destination = read_addr(buffer, 16);
    let tcp = if protocol == TCP_PROTOCOL && total_length as usize >= header_len + 20 {
        Some(
            TcpHeaderView {
                source_port: read_word(buffer, header_len),
                destination_port: read_word(buffer, header_len + 2),
            },
        )
    } else {
        None
    };
    Ok(
        IpHeaderView {
            version: buffer[0] / 16,
            ihl,
            total_length,
            protocol,
            source,
            destination,
            tcp,
        },
    )
}

} // verus!
