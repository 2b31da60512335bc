//! The conceptual wire payloads exchanged between nodes, and the peer payload
//! kept for every recorded encounter.
//!
//! The actual byte encoding and decoding of these packets belongs to the
//! transport glue around the engine; the engine itself only decides what a
//! received, already-decoded packet means.

use vstd::prelude::*;

use crate::identity::DeviceInfo;
use crate::identity::DeviceInfoV;

verus! {

/// The largest frame the radio transport accepts.
pub const MAX_DATA_LEN: usize = 200;

/// The identity-equivalent data kept for a peer after an exchange.
pub struct PeerPayload {
    pub serial_num: String,
    pub device_name: String,
    pub device_owner: String,
    pub timestamp: u64,
}

/// Mathematical image of a `PeerPayload`.
pub ghost struct PeerPayloadV {
    pub serial_num: Seq<char>,
    pub device_name: Seq<char>,
    pub device_owner: Seq<char>,
    pub timestamp: u64,
}

impl View for PeerPayload {
    type V = PeerPayloadV;

    open spec fn view(&self) -> PeerPayloadV {
        PeerPayloadV {
            serial_num: self.serial_num@,
            device_name: self.device_name@,
            device_owner: self.device_owner@,
            timestamp: self.timestamp,
        }
    }
}

/// A packet of the proximity protocol.
pub enum StreetPassPacket {
    /// Periodic presence broadcast carrying this node's identity.
    Beacon { identity: DeviceInfo, timestamp: u64 },
    /// Acknowledgment of a received beacon, echoing its timestamp.
    Ack { timestamp: u64 },
    /// Opaque activity-specific payload; carried but not interpreted here.
    GameData { game_id: u16, data: Vec<u8> },
}

/// Mathematical image of a `StreetPassPacket`.
pub ghost enum StreetPassPacketV {
    Beacon { identity: DeviceInfoV, timestamp: u64 },
    Ack { timestamp: u64 },
    GameData { game_id: u16, data: Seq<u8> },
}

impl View for StreetPassPacket {
    type V = StreetPassPacketV;

    open spec fn view(&self) -> StreetPassPacketV {
        match self {
            StreetPassPacket::Beacon { identity, timestamp } => StreetPassPacketV::Beacon {
                identity: identity@,
                timestamp: *timestamp,
            },
            StreetPassPacket::Ack { timestamp } => StreetPassPacketV::Ack { timestamp: *timestamp },
            StreetPassPacket::GameData { game_id, data } => StreetPassPacketV::GameData {
                game_id: *game_id,
                data: data@,
            },
        }
    }
}

/// The peer payload that a beacon's contents stand for.
pub open spec fn payload_of_beacon(identity: DeviceInfoV, timestamp: u64) -> PeerPayloadV {
    PeerPayloadV {
        serial_num: identity.serial_num,
        device_name: identity.device_name,
        device_owner: identity.device_owner,
        timestamp,
    }
}

/// True when an encoded frame of `len` bytes fits the transport.
pub fn frame_fits(len: usize) -> (fits: bool)
    ensures
        fits <==> len <= MAX_DATA_LEN,
{
    len <= MAX_DATA_LEN
}

impl PeerPayload {
    /// A value-identical copy of the payload.
    pub fn duplicate(&self) -> (copy: PeerPayload)
        ensures
            copy@ == self@,
    {
        PeerPayload {
            serial_num: self.serial_num.clone(),
            device_name: self.device_name.clone(),
            device_owner: self.device_owner.clone(),
            timestamp: self.timestamp,
        }
    }

    /// The payload recorded when a beacon with the given identity and
    /// timestamp is received.
    pub fn from_beacon(identity: DeviceInfo, timestamp: u64) -> (payload: PeerPayload)
        ensures
            payload@ == payload_of_beacon(identity@, timestamp),
    {
        PeerPayload {
            serial_num: identity.serial_num,
            device_name: identity.device_name,
            device_owner: identity.device_owner,
            timestamp,
        }
    }
}

} // verus!
