//! Header rewriting: address substitution and checksum recomputation.
//!
//! Rewriting replaces the source address by the application's phony address
//! and the destination by the peer (outbound) or the origin (inbound), then
//! recomputes the IPv4 header checksum, and, when the payload carries a
//! parseable TCP segment, the TCP checksum over the pseudo-header built from
//! the already-rewritten addresses.  Lengths and every other byte are left
//! alone.  A datagram whose protocol says TCP but whose declared length has
//! no room for a TCP header gets the IP-layer rewrite only.

use vstd::prelude::*;
use vstd::arithmetic::div_mod::lemma_fundamental_div_mod;
use vstd::arithmetic::div_mod::lemma_mod_breakdown;
use crate::checksum::checksum_of;
use crate::checksum::checksum_range;
use crate::checksum::fold16;
use crate::checksum::fold_carries;
use crate::checksum::lemma_checksum_verifies;
use crate::checksum::lemma_fold16_bounds;
use crate::checksum::lemma_sum_words_bounds;
use crate::checksum::lemma_sum_words_set_word;
use crate::checksum::ones_sum;
use crate::checksum::sum_words;
use crate::checksum::words_verify;
use crate::packet::addr_at;
use crate::packet::dst_of;
use crate::packet::has_tcp;
use crate::packet::header_len_of;
use crate::packet::ihl_of;
use crate::packet::protocol_of;
use crate::packet::read_addr;
use crate::packet::read_word;
use crate::packet::segment_of;
use crate::packet::src_of;
use crate::packet::total_len_of;
use crate::packet::wf_ip;
use crate::packet::word_at;
use crate::packet::TCP_PROTOCOL;
use crate::table::Direction;
use crate::table::ResolvedApp;

verus! {

/// `b` with the big-endian 16-bit word `v` stored at byte offset `i`.
pub open spec fn store_word(b: Seq<u8>, i: int, v: int) -> Seq<u8> {
    b.update(i, ((v / 256) % 256) as u8).update(i + 1, (v % 256) as u8)
}

/// `b` with the big-endian 32-bit address `a` stored at byte offset `i`.
pub open spec fn store_addr(b: Seq<u8>, i: int, a: int) -> Seq<u8> {
    b.update(i, ((a / 0x1000000) % 256) as u8).update(i + 1, ((a / 0x10000) % 256) as u8).update(
        i + 2,
        ((a / 256) % 256) as u8,
    ).update(i + 3, (a % 256) as u8)
}

/// The source address every rewritten packet carries: the phony.
pub open spec fn new_src(a: ResolvedApp, d: Direction) -> int {
    a.phony as int
}

/// The destination a rewritten packet carries: the peer when outbound, the
/// origin when inbound.
pub open spec fn new_dst(a: ResolvedApp, d: Direction) -> int {
    match d {
        Direction::Outbound => a.dest as int,
        Direction::Inbound => a.origin as int,
    }
}

/// Step one of a rewrite: both address fields substituted.
pub open spec fn rewrite_addrs(b: Seq<u8>, a: ResolvedApp, d: Direction) -> Seq<u8> {
    store_addr(store_addr(b, 12, new_src(a, d)), 16, new_dst(a, d))
}

/// Step two: the header checksum recomputed over the header with its
/// checksum field zeroed.
pub open spec fn with_ip_checksum(b: Seq<u8>) -> Seq<u8> {
    store_word(b, 10, checksum_of(store_word(b, 10, 0).take(header_len_of(b))))
}

/// The sum the TCP pseudo-header contributes: both addresses as 16-bit
/// words, the TCP protocol number, and the segment length.
pub open spec fn pseudo_sum(src: int, dst: int, seg_len: int) -> int {
    src / 0x10000 + src % 0x10000 + dst / 0x10000 + dst % 0x10000 + (TCP_PROTOCOL as int)
        + seg_len
}

/// The TCP checksum for a segment under the given addresses: the complement
/// of the folded sum of pseudo-header and segment words.
pub open spec fn tcp_checksum_of(src: int, dst: int, seg: Seq<u8>) -> int {
    0xFFFF - fold16(pseudo_sum(src, dst, seg.len() as int) + sum_words(seg))
}

/// Step three: the TCP checksum recomputed from the rewritten addresses and
/// the segment with its checksum field zeroed.
pub open spec fn with_tcp_checksum(b: Seq<u8>) -> Seq<u8> {
    let off = header_len_of(b) + 16;
    store_word(b, off, tcp_checksum_of(src_of(b), dst_of(b), segment_of(store_word(b, off, 0))))
}

/// The complete rewrite of a well-formed datagram.
pub open spec fn rewrite_spec(b: Seq<u8>, a: ResolvedApp, d: Direction) -> Seq<u8> {
    let b2 = with_ip_checksum(rewrite_addrs(b, a, d));
    if has_tcp(b) {
        with_tcp_checksum(b2)
    } else {
        b2
    }
}

/// Stores the big-endian 16-bit word `v` at byte offset `i`.
pub fn store_word_exec(b: &mut Vec<u8>, i: usize, v: u16)
    requires
        i + 1 < old(b).len(),
    ensures
        final(b)@ == store_word(old(b)@, i as int, v as int),
        final(b).len() == old(b).len(),
{
    b.set(i, (v / 256) as u8);
    b.set(i + 1, (v % 256) as u8);
}

/// Stores the big-endian 32-bit address `a` at byte offset `i`.
pub fn store_addr_exec(b: &mut Vec<u8>, i: usize, a: u32)
    requires
        i + 3 < old(b).len(),
    ensures
        final(b)@ == store_addr(old(b)@, i as int, a as int),
        final(b).len() == old(b).len(),
{
    b.set(i, (a / 0x1000000) as u8);
    b.set(i + 1, ((a / 0x10000) % 256) as u8);
    b.set(i + 2, ((a / 256) % 256) as u8);
    b.set(i + 3, (a % 256) as u8);
}

/// Rewrites a well-formed datagram in place for the given application and
/// direction: address substitution, fresh IP header checksum, and, when the
/// declared lengths leave room for a TCP header, a fresh TCP checksum over
/// the pseudo-header of the rewritten addresses.
pub fn rewrite(packet: &mut Vec<u8>, app: &ResolvedApp, dir: Direction)
    requires
        wf_ip(old(packet)@),
    ensures
        final(packet)@ == rewrite_spec(old(packet)@, *app, dir),
        final(packet).len() == old(packet).len(),
{
    let ghost b0 = packet@;
    let new_source = app.phony;
    let new_destination = match dir {
        Direction::Outbound => app.dest,
        Direction::Inbound => app.origin,
    };
    store_addr_exec(packet, 12, new_source);
    store_addr_exec(packet, 16, new_destination);
    let ghost b1 = packet@;
    proof {
        assert(b1 == rewrite_addrs(b0, *app, dir));
        assert(b1[0] == b0[0]);
        assert(b1[2] == b0[2] && b1[3] == b0[3]);
        assert(b1[9] == b0[9]);
    }
    store_word_exec(packet, 10, 0);
    let ghost z = packet@;
    let header_len = 4 * ((packet[0] % 16) as usize);
    proof {
        assert(z[0] == b0[0]);
        assert(header_len == header_len_of(b1));
        assert(z.take(header_len as int) =~= z.subrange(0, header_len as int));
    }
    let c = checksum_range(packet, 0, header_len);
    store_word_exec(packet, 10, c);
    let ghost b2 = packet@;
    proof {
        assert(z.take(header_len_of(b1)) == store_word(b1, 10, 0).take(header_len_of(b1)));
        assert(b2 =~= with_ip_checksum(b1));
        assert(b2 == with_ip_checksum(b1));
        assert(b2[0] == b0[0] && b2[2] == b0[2] && b2[3] == b0[3] && b2[9] == b0[9]);
        assert(ihl_of(b2) == ihl_of(b0));
        assert(total_len_of(b2) == total_len_of(b0));
        assert(protocol_of(b2) == protocol_of(b0));
    }
    let protocol = packet[9];
    let total_length = read_word(packet, 2) as usize;
    if protocol == TCP_PROTOCOL && total_length >= header_len + 20 {
        proof {
            assert(has_tcp(b0));
        }
        let off = header_len + 16;
        store_word_exec(packet, off, 0);
        let ghost zt = packet@;
        proof {
            assert(forall|k: int| 0 <= k < 20 ==> zt[k] == b2[k]);
            assert(src_of(zt) == src_of(b2) && dst_of(zt) == dst_of(b2));
            assert(ihl_of(zt) == ihl_of(b2) && total_len_of(zt) == total_len_of(b2));
            assert(segment_of(zt) =~= zt.subrange(header_len as int, total_length as int));
            lemma_sum_words_bounds(zt.subrange(header_len as int, total_length as int));
        }
        let src = read_addr(packet, 12);
        let dst = read_addr(packet, 16);
        let seg_sum = ones_sum(packet, header_len, total_length);
        let seg_len = (total_length - header_len) as u64;
        let ps: u64 = (src / 0x10000) as u64 + (src % 0x10000) as u64 + (dst / 0x10000) as u64 + (
        dst % 0x10000) as u64 + TCP_PROTOCOL as u64 + seg_len;
        proof {
            assert(ps as int == pseudo_sum(src_of(zt), dst_of(zt), segment_of(zt).len() as int));
        }
        let folded = fold_carries(ps + seg_sum);
        let tcs: u16 = 0xFFFF - folded;
        proof {
            assert(tcs as int == tcp_checksum_of(src_of(zt), dst_of(zt), segment_of(zt)));
        }
        store_word_exec(packet, off, tcs);
        proof {
            assert(packet@ =~= with_tcp_checksum(b2));
            assert(packet@ == rewrite_spec(b0, *app, dir));
        }
    } else {
        proof {
            assert(!has_tcp(b0));
            assert(packet@ == rewrite_spec(b0, *app, dir));
        }
    }
}

/// The bytes a rewrite may touch: the checksum and address fields of the IP
/// header, and the TCP checksum field when a segment is present.
pub open spec fn changed_byte(b: Seq<u8>, i: int) -> bool {
    (10 <= i < 20) || (has_tcp(b) && (i == header_len_of(b) + 16 || i == header_len_of(b) + 17))
}

/// Storing an in-range word at an even offset reads back as itself.
pub proof fn lemma_word_roundtrip(b: Seq<u8>, i: int, v: int)
    requires
        0 <= i,
        i + 1 < b.len(),
        0 <= v < 0x10000,
    ensures
        word_at(store_word(b, i, v), i) == v,
{
    lemma_fundamental_div_mod(v, 256);
}

/// Storing an in-range address reads back as itself.
pub proof fn lemma_addr_roundtrip(b: Seq<u8>, i: int, a: int)
    requires
        0 <= i,
        i + 3 < b.len(),
        0 <= a < 0x100000000,
    ensures
        addr_at(store_addr(b, i, a), i) == a,
{
    lemma_fundamental_div_mod(a, 0x1000000);
    lemma_mod_breakdown(a, 0x10000, 0x100);
    lemma_mod_breakdown(a, 0x100, 0x100);
    lemma_mod_breakdown(a % 0x1000000, 0x10000, 0x100);
    lemma_mod_breakdown(a % 0x10000, 0x100, 0x100);
}

/// A rewrite keeps the datagram's shape: the length and every field other
/// than the addresses and checksums are unchanged, the substituted addresses
/// read back exactly, and no byte outside the address and checksum fields
/// moves.  The result is well-formed again.
pub proof fn lemma_rewrite_shape(b: Seq<u8>, a: ResolvedApp, d: Direction)
    requires
        wf_ip(b),
    ensures
        rewrite_spec(b, a, d).len() == b.len(),
        ihl_of(rewrite_spec(b, a, d)) == ihl_of(b),
        header_len_of(rewrite_spec(b, a, d)) == header_len_of(b),
        total_len_of(rewrite_spec(b, a, d)) == total_len_of(b),
        protocol_of(rewrite_spec(b, a, d)) == protocol_of(b),
        src_of(rewrite_spec(b, a, d)) == new_src(a, d),
        dst_of(rewrite_spec(b, a, d)) == new_dst(a, d),
        wf_ip(rewrite_spec(b, a, d)),
        has_tcp(rewrite_spec(b, a, d)) == has_tcp(b),
        forall|i: int|
            0 <= i < b.len() && !changed_byte(b, i) ==> #[trigger] rewrite_spec(b, a, d)[i]
                == b[i],
{
    let b1 = rewrite_addrs(b, a, d);
    let b2 = with_ip_checksum(b1);
    let r = rewrite_spec(b, a, d);
    lemma_addr_roundtrip(b, 12, new_src(a, d));
    assert(addr_at(b1, 12) == new_src(a, d)) by {
        assert(store_addr(b, 12, new_src(a, d))[12] == b1[12]);
        assert(store_addr(b, 12, new_src(a, d))[13] == b1[13]);
        assert(store_addr(b, 12, new_src(a, d))[14] == b1[14]);
        assert(store_addr(b, 12, new_src(a, d))[15] == b1[15]);
    }
    lemma_addr_roundtrip(store_addr(b, 12, new_src(a, d)), 16, new_dst(a, d));
    assert(addr_at(b1, 16) == new_dst(a, d));
    assert(src_of(r) == new_src(a, d) && dst_of(r) == new_dst(a, d));
}

/// After a rewrite, the stored header checksum makes the 16-bit words of the
/// final header fold to `0xFFFF`: a receiver's verification of the
/// one's-complement sum over the final bytes succeeds.
pub proof fn lemma_rewrite_ip_checksum_verifies(b: Seq<u8>, a: ResolvedApp, d: Direction)
    requires
        wf_ip(b),
    ensures
        words_verify(rewrite_spec(b, a, d).take(header_len_of(b))),
{
    let hl = header_len_of(b);
    let b1 = rewrite_addrs(b, a, d);
    let b2 = with_ip_checksum(b1);
    let r = rewrite_spec(b, a, d);
    assert(header_len_of(b1) == hl);
    let z = store_word(b1, 10, 0);
    let hz = z.take(hl);
    let s0 = sum_words(hz);
    lemma_sum_words_bounds(hz);
    let c = checksum_of(hz);
    lemma_fold16_bounds(s0);
    assert(0 <= c <= 0xFFFF);
    let h2 = b2.take(hl);
    assert(h2 =~= hz.update(10, ((c / 256) % 256) as u8).update(11, (c % 256) as u8));
    lemma_sum_words_set_word(hz, 10, ((c / 256) % 256) as u8, (c % 256) as u8);
    assert(hz[10] == 0 && hz[11] == 0);
    assert(256 * (((c / 256) % 256) as u8 as int) + ((c % 256) as u8 as int) == c) by {
        lemma_fundamental_div_mod(c, 256);
    }
    assert(sum_words(h2) == s0 + c);
    lemma_checksum_verifies(s0);
    assert(fold16(sum_words(h2)) == 0xFFFF);
    assert(r.take(hl) =~= h2);
}

/// After a rewrite of a TCP-bearing datagram, the stored TCP checksum is the
/// one's-complement checksum of the pseudo-header of the final addresses
/// concatenated with the final segment (checksum field read as zero), and
/// the words of pseudo-header and final segment together fold to `0xFFFF`.
pub proof fn lemma_rewrite_tcp_checksum_verifies(b: Seq<u8>, a: ResolvedApp, d: Direction)
    requires
        wf_ip(b),
        has_tcp(b),
    ensures
        fold16(
            pseudo_sum(
                src_of(rewrite_spec(b, a, d)),
                dst_of(rewrite_spec(b, a, d)),
                segment_of(rewrite_spec(b, a, d)).len() as int,
            ) + sum_words(segment_of(rewrite_spec(b, a, d))),
        ) == 0xFFFF,
        word_at(rewrite_spec(b, a, d), header_len_of(b) + 16) == tcp_checksum_of(
            src_of(rewrite_spec(b, a, d)),
            dst_of(rewrite_spec(b, a, d)),
            segment_of(store_word(rewrite_spec(b, a, d), header_len_of(b) + 16, 0)),
        ),
{
    let hl = header_len_of(b);
    let total = total_len_of(b);
    let b1 = rewrite_addrs(b, a, d);
    let b2 = with_ip_checksum(b1);
    let r = rewrite_spec(b, a, d);
    let off = hl + 16;
    assert(header_len_of(b2) == hl && total_len_of(b2) == total);
    let zt = store_word(b2, off, 0);
    assert(header_len_of(zt) == hl && total_len_of(zt) == total);
    let seg_z = segment_of(zt);
    let ps = pseudo_sum(src_of(zt), dst_of(zt), seg_z.len() as int);
    let s0 = ps + sum_words(seg_z);
    lemma_sum_words_bounds(seg_z);
    assert(ps >= 0) by {
        assert(src_of(zt) >= 0 && dst_of(zt) >= 0);
    }
    let c = tcp_checksum_of(src_of(zt), dst_of(zt), seg_z);
    lemma_fold16_bounds(s0);
    assert(0 <= c <= 0xFFFF);
    assert(r == store_word(b2, off, c));
    assert(header_len_of(r) == hl && total_len_of(r) == total);
    assert(src_of(r) == src_of(zt) && dst_of(r) == dst_of(zt));
    let seg_r = segment_of(r);
    assert(seg_r =~= seg_z.update(16, ((c / 256) % 256) as u8).update(17, (c % 256) as u8));
    lemma_sum_words_set_word(seg_z, 16, ((c / 256) % 256) as u8, (c % 256) as u8);
    assert(seg_z[16] == 0 && seg_z[17] == 0);
    assert(256 * (((c / 256) % 256) as u8 as int) + ((c % 256) as u8 as int) == c) by {
        lemma_fundamental_div_mod(c, 256);
    }
    assert(sum_words(seg_r) == sum_words(seg_z) + c);
    assert(seg_r.len() == seg_z.len());
    lemma_checksum_verifies(s0);
    assert(fold16(pseudo_sum(src_of(r), dst_of(r), seg_r.len() as int) + sum_words(seg_r))
        == 0xFFFF);
    lemma_word_roundtrip(b2, off, c);
    assert(word_at(r, off) == c);
    assert(store_word(r, off, 0) =~= zt);
    assert(segment_of(store_word(r, off, 0)) =~= seg_z);
}

/// Round-trip transparency: an outbound datagram leaves as phony to peer, a
/// reply is delivered as phony to origin, and in both directions every
/// segment byte outside the checksum field — ports, options and the whole
/// payload of the conversation — is carried unchanged.
pub proof fn lemma_round_trip(b_out: Seq<u8>, reply: Seq<u8>, a: ResolvedApp)
    requires
        wf_ip(b_out),
        has_tcp(b_out),
        wf_ip(reply),
        has_tcp(reply),
    ensures
        src_of(rewrite_spec(b_out, a, Direction::Outbound)) == a.phony as int,
        dst_of(rewrite_spec(b_out, a, Direction::Outbound)) == a.dest as int,
        src_of(rewrite_spec(reply, a, Direction::Inbound)) == a.phony as int,
        dst_of(rewrite_spec(reply, a, Direction::Inbound)) == a.origin as int,
        segment_of(rewrite_spec(b_out, a, Direction::Outbound)).len() == segment_of(b_out).len(),
        segment_of(rewrite_spec(reply, a, Direction::Inbound)).len() == segment_of(reply).len(),
        forall|i: int|
            0 <= i < segment_of(b_out).len() && i != 16 && i != 17 ==> #[trigger] segment_of(
                rewrite_spec(b_out, a, Direction::Outbound),
            )[i] == segment_of(b_out)[i],
        forall|i: int|
            0 <= i < segment_of(reply).len() && i != 16 && i != 17 ==> #[trigger] segment_of(
                rewrite_spec(reply, a, Direction::Inbound),
            )[i] == segment_of(reply)[i],
{
    lemma_rewrite_shape(b_out, a, Direction::Outbound);
    lemma_rewrite_shape(reply, a, Direction::Inbound);
    let sent = rewrite_spec(b_out, a, Direction::Outbound);
    let delivered = rewrite_spec(reply, a, Direction::Inbound);
    assert forall|i: int|
        0 <= i < segment_of(b_out).len() && i != 16 && i != 17 implies #[trigger] segment_of(
        sent,
    )[i] == segment_of(b_out)[i] by {
        let hl = header_len_of(b_out);
        assert(segment_of(sent)[i] == sent[hl + i]);
        assert(!changed_byte(b_out, hl + i));
    }
    assert forall|i: int|
        0 <= i < segment_of(reply).len() && i != 16 && i != 17 implies #[trigger] segment_of(
        delivered,
    )[i] == segment_of(reply)[i] by {
        let hl = header_len_of(reply);
        assert(segment_of(delivered)[i] == delivered[hl + i]);
        assert(!changed_byte(reply, hl + i));
    }
}

} // verus!
