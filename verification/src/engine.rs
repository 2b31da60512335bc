//! The proximity engine: one shared state driven by the broadcast role, the
//! scan/listen role and the handshake coordinator.
//!
//! The two roles run concurrently in the host runtime and share this state
//! under one lock; every entry point here is a single lock-scoped decision.
//! Radio work — broadcasting, scanning, connecting, the per-field reads and
//! writes — happens outside, and its results are handed back in as plain
//! values.

use vstd::prelude::*;

use crate::handshake::empty_payload;
use crate::handshake::hs_wf;
use crate::handshake::HandshakeSession;
use crate::mac::mac_eq;
use crate::identity::DeviceInfo;
use crate::packet::payload_of_beacon;
use crate::packet::PeerPayload;
use crate::packet::PeerPayloadV;
use crate::packet::StreetPassPacket;
use crate::packet::StreetPassPacketV;
use crate::table::has_addr;
use crate::table::record_effect;
use crate::table::sweep_effect;
use crate::table::EncounterTable;
use crate::table::PeerRecordV;

verus! {

/// How often the broadcast role announces this node's presence, in
/// milliseconds.
pub const BROADCAST_INTERVAL_MS: u32 = 2000;

/// The engine state shared by the broadcast role, the scan role and the
/// handshake coordinator.
///
/// The two role flags gate the radio: both are dropped while a handshake is
/// in flight so that at most one logical owner issues radio calls at a time,
/// and both are restored when it concludes.
pub struct EngineState {
    pub identity: DeviceInfo,
    pub my_mac: [u8; 6],
    pub table: EncounterTable,
    pub is_scanning: bool,
    pub is_advertising: bool,
    pub led_on: bool,
}

/// True when `packet` is a beacon from some node other than this one: the
/// only inbound frame that changes the engine state.
pub open spec fn foreign_beacon(
    packet: Option<StreetPassPacket>,
    src: Seq<u8>,
    my_mac: Seq<u8>,
) -> bool {
    match packet {
        Some(p) => p@ is Beacon && src != my_mac,
        None => false,
    }
}

/// The peer payload a beacon carries (the empty payload for anything else).
pub open spec fn beacon_payload_opt(packet: Option<StreetPassPacket>) -> PeerPayloadV {
    match packet {
        Some(p) => match p@ {
            StreetPassPacketV::Beacon { identity, timestamp } => payload_of_beacon(
                identity,
                timestamp,
            ),
            _ => empty_payload(),
        },
        None => empty_payload(),
    }
}

/// The timestamp a beacon carries (zero for anything else).
pub open spec fn beacon_timestamp_opt(packet: Option<StreetPassPacket>) -> u64 {
    match packet {
        Some(p) => match p@ {
            StreetPassPacketV::Beacon { identity, timestamp } => timestamp,
            _ => 0u64,
        },
        None => 0u64,
    }
}

/// The parts of the engine no entry point ever changes: who this node is and
/// the table's bounds.
pub open spec fn statics_unchanged(pre: EngineState, post: EngineState) -> bool {
    &&& post.identity@ == pre.identity@
    &&& post.my_mac@ == pre.my_mac@
    &&& post.table.capacity == pre.table.capacity
    &&& post.table.ttl == pre.table.ttl
}

impl EngineState {
    /// The engine invariant.
    pub open spec fn wf(self) -> bool {
        self.table.wf()
    }

    /// A freshly started engine: both roles enabled, no encounters yet.
    pub fn new(identity: DeviceInfo, my_mac: [u8; 6], capacity: usize, ttl: u64) -> (engine:
        EngineState)
        requires
            capacity >= 1,
            ttl >= 1,
        ensures
            engine.wf(),
            engine.identity@ == identity@,
            engine.my_mac@ == my_mac@,
            engine.table.model() == Seq::<PeerRecordV>::empty(),
            engine.table.capacity == capacity,
            engine.table.ttl == ttl,
            engine.is_scanning,
            engine.is_advertising,
            !engine.led_on,
    {
        EngineState {
            identity,
            my_mac,
            table: EncounterTable::new(capacity, ttl),
            is_scanning: true,
            is_advertising: true,
            led_on: false,
        }
    }

    /// Handles one decoded inbound frame from address `src`.
    ///
    /// A beacon from another node records the encounter (lighting the
    /// indicator on a first encounter) and is answered with an `Ack` echoing
    /// the beacon's timestamp.  Everything else — a frame that failed to
    /// decode (`None`), this node's own beacon echoed back, an `Ack`, or
    /// activity data — changes nothing and is not answered; in particular a
    /// malformed frame never creates a record.
    pub fn handle_packet(
        &mut self,
        src: &[u8; 6],
        packet: Option<StreetPassPacket>,
        now: u64,
    ) -> (reply: Option<StreetPassPacket>)
        requires
            old(self).wf(),
        ensures
            final(self).wf(),
            statics_unchanged(*old(self), *final(self)),
            final(self).is_scanning == old(self).is_scanning,
            final(self).is_advertising == old(self).is_advertising,
            foreign_beacon(packet, src@, old(self).my_mac@) ==> {
                &&& record_effect(
                    old(self).table.model(),
                    final(self).table.model(),
                    old(self).table.capacity as int,
                    src@,
                    beacon_payload_opt(packet),
                    now,
                )
                &&& reply matches Some(r) && r@ == (StreetPassPacketV::Ack {
                    timestamp: beacon_timestamp_opt(packet),
                })
                &&& final(self).led_on == (old(self).led_on || !has_addr(
                    old(self).table.model(),
                    src@,
                ))
            },
            !foreign_beacon(packet, src@, old(self).my_mac@) ==> {
                &&& final(self).table.model() == old(self).table.model()
                &&& reply is None
                &&& final(self).led_on == old(self).led_on
            },
    {
        match packet {
            None => None,
            Some(pkt) => {
                if mac_eq(src, &self.my_mac) {
                    None
                } else {
                    match pkt {
                        StreetPassPacket::Beacon { identity, timestamp } => {
                            let known = self.table.lookup(src).is_some();
                            let payload = PeerPayload::from_beacon(identity, timestamp);
                            self.table.record_interaction(src, payload, now);
                            if !known {
                                self.led_on = true;
                            }
                            Some(StreetPassPacket::Ack { timestamp })
                        },
                        _ => None,
                    }
                }
            },
        }
    }

    /// One cycle of the broadcast role: while advertising, sweep the lapsed
    /// records and emit this node's beacon stamped `now`; while paused, do
    /// nothing.
    pub fn broadcast_tick(&mut self, now: u64) -> (beacon: Option<StreetPassPacket>)
        requires
            old(self).wf(),
        ensures
            final(self).wf(),
            statics_unchanged(*old(self), *final(self)),
            final(self).is_scanning == old(self).is_scanning,
            final(self).is_advertising == old(self).is_advertising,
            final(self).led_on == old(self).led_on,
            old(self).is_advertising ==> {
                &&& sweep_effect(
                    old(self).table.model(),
                    final(self).table.model(),
                    old(self).table.ttl,
                    now,
                )
                &&& beacon matches Some(b) && b@ == (StreetPassPacketV::Beacon {
                    identity: old(self).identity@,
                    timestamp: now,
                })
            },
            !old(self).is_advertising ==> {
                &&& final(self).table.model() == old(self).table.model()
                &&& beacon is None
            },
    {
        if self.is_advertising {
            self.table.sweep(now);
            Some(
                StreetPassPacket::Beacon { identity: self.identity.duplicate(), timestamp: now },
            )
        } else {
            None
        }
    }

    /// The discovery filter of the scan role: a discovered address is worth
    /// a handshake only while scanning is enabled and the address is not
    /// still blocked by a recent encounter.
    pub fn should_attempt_handshake(&self, addr: &[u8; 6], now: u64) -> (go: bool)
        requires
            self.wf(),
        ensures
            go == (self.is_scanning && !self.table.spec_blocked(addr@, now)),
    {
        self.is_scanning && !self.table.is_blocked(addr, now)
    }

    /// Hands a discovered, unblocked address to the handshake coordinator,
    /// pausing both roles so the radio has a single owner for the duration;
    /// a blocked address, or one discovered while scanning is off, starts
    /// nothing.
    pub fn begin_handshake(&mut self, addr: &[u8; 6], now: u64) -> (session: Option<
        HandshakeSession,
    >)
        requires
            old(self).wf(),
        ensures
            final(self).wf(),
            statics_unchanged(*old(self), *final(self)),
            final(self).table.model() == old(self).table.model(),
            final(self).led_on == old(self).led_on,
            old(self).is_scanning && !old(self).table.spec_blocked(addr@, now) ==> {
                &&& session matches Some(s) && s@.address == addr@ && s@.state is Idle
                    && s@.fields_done == 0 && s@.payload == empty_payload() && hs_wf(s@)
                &&& !final(self).is_scanning
                &&& !final(self).is_advertising
            },
            !(old(self).is_scanning && !old(self).table.spec_blocked(addr@, now)) ==> {
                &&& session is None
                &&& final(self).is_scanning == old(self).is_scanning
                &&& final(self).is_advertising == old(self).is_advertising
            },
    {
        if self.is_scanning && !self.table.is_blocked(addr, now) {
            self.is_scanning = false;
            self.is_advertising = false;
            Some(HandshakeSession::new(*addr))
        } else {
            None
        }
    }

    /// Concludes a handshake, successful or not: the encounter is recorded
    /// exactly when the session reached `Done`, and both roles resume either
    /// way.
    pub fn finish_handshake(&mut self, session: &HandshakeSession, now: u64) -> (recorded: bool)
        requires
            old(self).wf(),
        ensures
            final(self).wf(),
            statics_unchanged(*old(self), *final(self)),
            final(self).led_on == old(self).led_on,
            final(self).is_scanning,
            final(self).is_advertising,
            recorded == (session@.state is Done),
            session@.state is Done ==> record_effect(
                old(self).table.model(),
                final(self).table.model(),
                old(self).table.capacity as int,
                session@.address,
                session@.payload,
                now,
            ),
            !(session@.state is Done) ==> final(self).table.model() == old(self).table.model(),
    {
        let recorded = session.conclude(&mut self.table, now);
        self.is_scanning = true;
        self.is_advertising = true;
        recorded
    }

    /// Cooperative shutdown: both roles observe the dropped flags between
    /// operations and unwind.
    pub fn stop(&mut self)
        requires
            old(self).wf(),
        ensures
            final(self).wf(),
            statics_unchanged(*old(self), *final(self)),
            final(self).table.model() == old(self).table.model(),
            final(self).led_on == old(self).led_on,
            !final(self).is_scanning,
            !final(self).is_advertising,
    {
        self.is_scanning = false;
        self.is_advertising = false;
    }
}

} // verus!
