//! Game packets between the hook and the network: delivery sequencing per
//! target and the sampled logging of packet flow. Instants are microseconds.

use vstd::prelude::*;
use crate::delivery::DeliveryStreamId;
use std::collections::HashMap;
use crate::text::{push_decimal, push_signed_decimal, push_str, spec_decimal, spec_signed_decimal};

verus! {

/// A game packet as the hook hands it over.
#[derive(Clone, Debug, PartialEq, Eq)]
pub struct HookGamePacket {
    pub peer: u64,
    pub sequence: u32,
    pub channel: i32,
    pub send_type: i32,
    pub payload: Vec<u8>,
}

/// A game packet on its way to the network, with its delivery position.
#[derive(Clone, Debug, PartialEq, Eq)]
pub struct OutboundGamePacket {
    pub to_steam_id64: u64,
    pub hook_sequence: u32,
    pub delivery_stream_id: DeliveryStreamId,
    pub delivery_sequence: u64,
    pub channel: i32,
    pub send_type: i32,
    pub payload: Vec<u8>,
}

/// A game packet received from the network.
#[derive(Clone, Debug, PartialEq, Eq)]
pub struct InboundGamePacket {
    pub from_steam_id64: u64,
    pub delivery_stream_id: DeliveryStreamId,
    pub delivery_sequence: u64,
    pub channel: i32,
    pub send_type: i32,
    pub payload: Vec<u8>,
}

/// The figures logged for one packet.
#[derive(Clone, Copy, Debug, PartialEq, Eq, Structural)]
pub struct PacketSummary {
    pub peer: u64,
    pub hook_sequence: u32,
    pub delivery_sequence: u64,
    pub channel: i32,
    pub send_type: i32,
    pub payload_bytes: usize,
    pub wire_bytes: usize,
}

/// The delivery stream and next sequence number towards one target.
#[derive(Clone, Copy, Debug, PartialEq, Eq)]
pub struct DeliveryCursor {
    pub stream_id: DeliveryStreamId,
    pub next_sequence: u64,
}

/// Numbers outbound packets per target; a target whose sequence numbers run
/// out moves to a fresh stream.
#[derive(Debug)]
pub struct DeliveryStreamAllocator {
    pub by_target: HashMap<u64, DeliveryCursor>,
}

/// The position the next packet to `target` takes, and the cursor after
/// it: a target without a cursor, or whose sequence numbers ran out, starts
/// `fresh` at 1; otherwise its stream goes on with the next number.
pub open spec fn spec_assign(cursors: Map<u64, DeliveryCursor>, target: u64, fresh: DeliveryStreamId) -> (DeliveryStreamId, u64, DeliveryCursor) {
    if cursors.contains_key(target) && cursors[target].next_sequence != u64::MAX {
        let c = cursors[target];
        (c.stream_id, c.next_sequence, DeliveryCursor { next_sequence: (c.next_sequence + 1) as u64, ..c })
    } else {
        (fresh, 1, DeliveryCursor { stream_id: fresh, next_sequence: 2 })
    }
}

impl DeliveryStreamAllocator {
    pub fn new() -> (a: DeliveryStreamAllocator)
        ensures
            a.by_target@ == Map::<u64, DeliveryCursor>::empty(),
    {
        DeliveryStreamAllocator { by_target: HashMap::new() }
    }

    /// The stream and sequence number of the next packet to `target`.
    /// `fresh` is the stream to start when the target has none yet or its
    /// sequence numbers ran out; the caller draws it at random. Only the
    /// target's cursor changes.
    pub fn assign(&mut self, target: u64, fresh: DeliveryStreamId) -> (r: (DeliveryStreamId, u64))
        ensures
            r.0 == spec_assign(old(self).by_target@, target, fresh).0,
            r.1 == spec_assign(old(self).by_target@, target, fresh).1,
            final(self).by_target@ == old(self).by_target@.insert(target, spec_assign(old(self).by_target@, target, fresh).2),
    {
        broadcast use vstd::std_specs::hash::group_hash_axioms;
        let current = match self.by_target.get(&target) {
            Some(c) => Some(*c),
            None => None,
        };
        match current {
            Some(c) => {
                if c.next_sequence == u64::MAX {
                    self.by_target.insert(target, DeliveryCursor { stream_id: fresh, next_sequence: 2 });
                    (fresh, 1)
                } else {
                    self.by_target.insert(target, DeliveryCursor { stream_id: c.stream_id, next_sequence: c.next_sequence + 1 });
                    (c.stream_id, c.next_sequence)
                }
            },
            None => {
                self.by_target.insert(target, DeliveryCursor { stream_id: fresh, next_sequence: 2 });
                (fresh, 1)
            },
        }
    }

    /// Turns a hook packet into an outbound packet with the next delivery
    /// position of its target.
    pub fn assign_hook_packet(&mut self, packet: HookGamePacket, fresh: DeliveryStreamId) -> (o: OutboundGamePacket)
        ensures
            o.to_steam_id64 == packet.peer,
            o.hook_sequence == packet.sequence,
            o.channel == packet.channel,
            o.send_type == packet.send_type,
            o.payload@ == packet.payload@,
            o.delivery_stream_id == spec_assign(old(self).by_target@, packet.peer, fresh).0,
            o.delivery_sequence == spec_assign(old(self).by_target@, packet.peer, fresh).1,
            final(self).by_target@ == old(self).by_target@.insert(packet.peer, spec_assign(old(self).by_target@, packet.peer, fresh).2),
    {
        let (stream, sequence) = self.assign(packet.peer, fresh);
        OutboundGamePacket {
            to_steam_id64: packet.peer,
            hook_sequence: packet.sequence,
            delivery_stream_id: stream,
            delivery_sequence: sequence,
            channel: packet.channel,
            send_type: packet.send_type,
            payload: packet.payload,
        }
    }
}

/// Packets to one target are numbered 1, 2, 3, ... on one stream, whatever
/// goes to other targets meanwhile: after a packet to `t` numbered `n`, the
/// next packet to `t` takes `n + 1` on the same stream (until the numbers run
/// out), and a packet to another target leaves `t`'s numbering as it was.
pub proof fn law_delivery_numbering(m: Map<u64, DeliveryCursor>, t: u64, u: u64, f: DeliveryStreamId, g: DeliveryStreamId)
    ensures
        spec_assign(m, t, f).1 + 1 != u64::MAX ==> {
            &&& spec_assign(m.insert(t, spec_assign(m, t, f).2), t, g).0 == spec_assign(m, t, f).0
            &&& spec_assign(m.insert(t, spec_assign(m, t, f).2), t, g).1 == spec_assign(m, t, f).1 + 1
        },
        t != u ==> spec_assign(m.insert(u, spec_assign(m, u, g).2), t, f) == spec_assign(m, t, f),
        !m.contains_key(t) ==> spec_assign(m, t, f).1 == 1,
{
    assert(m.insert(t, spec_assign(m, t, f).2)[t] == spec_assign(m, t, f).2);
}

/// The first 64 packets are logged, then every thousandth.
pub fn should_sample_packet(count: u64) -> (r: bool)
    ensures
        r == (count <= 64 || count % 1000 == 0),
{
    count <= 64 || count % 1000 == 0
}

/// Hands a received packet to the hook with the next local sequence number.
pub fn encode_inbound_hook_packet(inbound: InboundGamePacket, local_sequence: &mut u32) -> (r: (HookGamePacket, PacketSummary, u64))
    ensures
        r.0.peer == inbound.from_steam_id64,
        r.0.sequence == *old(local_sequence),
        r.0.channel == inbound.channel,
        r.0.send_type == inbound.send_type,
        r.0.payload@ == inbound.payload@,
        r.1 == (PacketSummary {
            peer: inbound.from_steam_id64,
            hook_sequence: *old(local_sequence),
            delivery_sequence: inbound.delivery_sequence,
            channel: inbound.channel,
            send_type: inbound.send_type,
            payload_bytes: inbound.payload@.len() as usize,
            wire_bytes: inbound.payload@.len() as usize,
        }),
        r.2 == inbound.payload@.len() as u64,
        *final(local_sequence) == (if *old(local_sequence) == u32::MAX { u32::MAX } else { (*old(local_sequence) + 1) as u32 }),
{
    let len = inbound.payload.len();
    let summary = PacketSummary {
        peer: inbound.from_steam_id64,
        hook_sequence: *local_sequence,
        delivery_sequence: inbound.delivery_sequence,
        channel: inbound.channel,
        send_type: inbound.send_type,
        payload_bytes: len,
        wire_bytes: len,
    };
    let packet = HookGamePacket {
        peer: inbound.from_steam_id64,
        sequence: *local_sequence,
        channel: inbound.channel,
        send_type: inbound.send_type,
        payload: inbound.payload,
    };
    *local_sequence = local_sequence.saturating_add(1);
    (packet, summary, len as u64)
}

/// What to log for one observed packet.
#[derive(Debug)]
pub struct PacketObservation {
    /// The gap since the previous packet, when it reached a second.
    pub gap_line: Option<String>,
    /// The notice of the first packet in this direction.
    pub first_line: Option<&'static str>,
    /// The sampled detail line.
    pub sample_line: Option<String>,
}

/// Counts packets in each direction and decides what is logged.
#[derive(Debug)]
pub struct PacketObserver {
    pub hook_packets: u64,
    pub network_packets: u64,
    pub last_hook_packet_at: Option<u64>,
    pub last_network_packet_at: Option<u64>,
}

/// `a - b`, floored at zero.
pub open spec fn sat_sub(a: u64, b: u64) -> u64 {
    if a >= b { (a - b) as u64 } else { 0 }
}

/// The gap line for a packet at `now` after one at `previous`.
pub open spec fn spec_gap_line(direction: Seq<char>, previous: Option<u64>, now: u64) -> Option<Seq<char>> {
    match previous {
        Some(p) => if sat_sub(now, p) >= 1_000_000 {
            Some(direction + " packet gap: "@ + spec_decimal((sat_sub(now, p) / 1000) as nat) + " ms"@)
        } else {
            None
        },
        None => None,
    }
}

pub open spec fn opt_text(s: Option<String>) -> Option<Seq<char>> {
    match s {
        Some(t) => Some(t@),
        None => None,
    }
}

fn gap_line(direction: &str, previous: Option<u64>, now: u64) -> (r: Option<String>)
    ensures
        opt_text(r) == spec_gap_line(direction@, previous, now),
{
    match previous {
        Some(p) => {
            let gap = now.saturating_sub(p);
            if gap >= 1_000_000 {
                let mut s = String::new();
                push_str(&mut s, direction);
                push_str(&mut s, " packet gap: ");
                push_decimal(&mut s, (gap / 1000) as u128);
                push_str(&mut s, " ms");
                Some(s)
            } else {
                None
            }
        },
        None => None,
    }
}

/// The detail line of the `count`-th hook packet.
pub open spec fn spec_hook_sample(count: u64, s: PacketSummary) -> Seq<char> {
    "Hook -> network packet #"@ + spec_decimal(count as nat) + ": to="@ + spec_decimal(s.peer as nat)
        + " hook_sequence="@ + spec_decimal(s.hook_sequence as nat) + " channel="@
        + spec_signed_decimal(s.channel as int) + " send_type="@ + spec_signed_decimal(s.send_type as int)
        + " payload_bytes="@ + spec_decimal(s.payload_bytes as nat) + " wire_bytes="@
        + spec_decimal(s.wire_bytes as nat)
}

/// The detail line of the `count`-th network packet.
pub open spec fn spec_network_sample(count: u64, s: PacketSummary) -> Seq<char> {
    "Network -> Hook packet #"@ + spec_decimal(count as nat) + ": from="@ + spec_decimal(s.peer as nat)
        + " delivery_sequence="@ + spec_decimal(s.delivery_sequence as nat) + " hook_sequence="@
        + spec_decimal(s.hook_sequence as nat) + " channel="@ + spec_signed_decimal(s.channel as int)
        + " send_type="@ + spec_signed_decimal(s.send_type as int) + " payload_bytes="@
        + spec_decimal(s.payload_bytes as nat) + " local_bytes="@ + spec_decimal(s.wire_bytes as nat)
}

impl PacketObserver {
    pub fn new() -> (o: PacketObserver)
        ensures
            o.hook_packets == 0 && o.network_packets == 0,
            o.last_hook_packet_at is None && o.last_network_packet_at is None,
    {
        PacketObserver { hook_packets: 0, network_packets: 0, last_hook_packet_at: None, last_network_packet_at: None }
    }

    /// A packet from the hook at `now`.
    pub fn observe_hook_packet(&mut self, summary: &PacketSummary, now: u64) -> (o: PacketObservation)
        ensures
            final(self).hook_packets == (if old(self).hook_packets == u64::MAX { u64::MAX } else { (old(self).hook_packets + 1) as u64 }),
            final(self).last_hook_packet_at == Some(now),
            final(self).network_packets == old(self).network_packets,
            final(self).last_network_packet_at == old(self).last_network_packet_at,
            opt_text(o.gap_line) == spec_gap_line("Hook -> network"@, old(self).last_hook_packet_at, now),
            (o.first_line is Some) == (final(self).hook_packets == 1),
            o.first_line matches Some(t) ==> t@ == "First hook packet received"@,
            (o.sample_line is Some) == (final(self).hook_packets <= 64 || final(self).hook_packets % 1000 == 0),
            o.sample_line matches Some(t) ==> t@ == spec_hook_sample(final(self).hook_packets, *summary),
    {
        proof {
            reveal_strlit("Hook -> network");
            reveal_strlit("First hook packet received");
        }
        let gap = gap_line("Hook -> network", self.last_hook_packet_at, now);
        self.last_hook_packet_at = Some(now);
        self.hook_packets = self.hook_packets.saturating_add(1);
        let first_line = if self.hook_packets == 1 { Some("First hook packet received") } else { None };
        let sample_line = if should_sample_packet(self.hook_packets) {
            let mut s = String::new();
            push_str(&mut s, "Hook -> network packet #");
            push_decimal(&mut s, self.hook_packets as u128);
            push_str(&mut s, ": to=");
            push_decimal(&mut s, summary.peer as u128);
            push_str(&mut s, " hook_sequence=");
            push_decimal(&mut s, summary.hook_sequence as u128);
            push_str(&mut s, " channel=");
            push_signed_decimal(&mut s, summary.channel as i64);
            push_str(&mut s, " send_type=");
            push_signed_decimal(&mut s, summary.send_type as i64);
            push_str(&mut s, " payload_bytes=");
            push_decimal(&mut s, summary.payload_bytes as u128);
            push_str(&mut s, " wire_bytes=");
            push_decimal(&mut s, summary.wire_bytes as u128);
            Some(s)
        } else {
            None
        };
        PacketObservation { gap_line: gap, first_line, sample_line }
    }

    /// A packet from the network at `now`.
    pub fn observe_network_packet(&mut self, summary: &PacketSummary, now: u64) -> (o: PacketObservation)
        ensures
            final(self).network_packets == (if old(self).network_packets == u64::MAX { u64::MAX } else { (old(self).network_packets + 1) as u64 }),
            final(self).last_network_packet_at == Some(now),
            final(self).hook_packets == old(self).hook_packets,
            final(self).last_hook_packet_at == old(self).last_hook_packet_at,
            opt_text(o.gap_line) == spec_gap_line("Network -> Hook"@, old(self).last_network_packet_at, now),
            (o.first_line is Some) == (final(self).network_packets == 1),
            o.first_line matches Some(t) ==> t@ == "First network packet received"@,
            (o.sample_line is Some) == (final(self).network_packets <= 64 || final(self).network_packets % 1000 == 0),
            o.sample_line matches Some(t) ==> t@ == spec_network_sample(final(self).network_packets, *summary),
    {
        proof {
            reveal_strlit("Network -> Hook");
            reveal_strlit("First network packet received");
        }
        let gap = gap_line("Network -> Hook", self.last_network_packet_at, now);
        self.last_network_packet_at = Some(now);
        self.network_packets = self.network_packets.saturating_add(1);
        let first_line = if self.network_packets == 1 { Some("First network packet received") } else { None };
        let sample_line = if should_sample_packet(self.network_packets) {
            let mut s = String::new();
            push_str(&mut s, "Network -> Hook packet #");
            push_decimal(&mut s, self.network_packets as u128);
            push_str(&mut s, ": from=");
            push_decimal(&mut s, summary.peer as u128);
            push_str(&mut s, " delivery_sequence=");
            push_decimal(&mut s, summary.delivery_sequence as u128);
            push_str(&mut s, " hook_sequence=");
            push_decimal(&mut s, summary.hook_sequence as u128);
            push_str(&mut s, " channel=");
            push_signed_decimal(&mut s, summary.channel as i64);
            push_str(&mut s, " send_type=");
            push_signed_decimal(&mut s, summary.send_type as i64);
            push_str(&mut s, " payload_bytes=");
            push_decimal(&mut s, summary.payload_bytes as u128);
            push_str(&mut s, " local_bytes=");
            push_decimal(&mut s, summary.wire_bytes as u128);
            Some(s)
        } else {
            None
        };
        PacketObservation { gap_line: gap, first_line, sample_line }
    }
}

} // verus!
