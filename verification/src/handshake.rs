//! The connection-oriented handshake coordinator.
//!
//! One handshake walks a fixed sequence of transport operations against a
//! single peer: connect, resolve the identity service, read the four identity
//! fields, then write the acknowledgment token.  The radio operations
//! themselves are performed by the transport glue; their results come back as
//! events, and this state machine decides what each result means.  Only a
//! handshake that reaches `Done` — that is, whose acknowledgment write
//! succeeded — records the encounter.

use vstd::prelude::*;

use crate::packet::PeerPayload;
use crate::packet::PeerPayloadV;
use crate::table::record_effect;
use crate::table::EncounterTable;

verus! {

/// The phases of one handshake.
///
/// `Idle` awaits the connect result; `Connecting` means the link is up and
/// the service lookup is pending; `ServiceDiscovered` means the peer is
/// compatible and the field reads may begin; `Exchanging` covers the reads;
/// `Acknowledging` awaits the result of the acknowledgment write.  `Done`
/// and `Failed` are terminal.
#[derive(Clone, Copy, Debug, PartialEq, Eq, Structural)]
pub enum HsState {
    Idle,
    Connecting,
    ServiceDiscovered,
    Exchanging,
    Acknowledging,
    Done,
    Failed,
}

/// The result of one best-effort field read.
///
/// `Missing` stands for an absent or unreadable field: the payload keeps its
/// default and the exchange goes on.  `TransportError` is a hard link
/// failure and aborts the handshake.
pub enum FieldOutcome {
    Text(String),
    Number(u64),
    Missing,
    TransportError,
}

/// Mathematical image of a `FieldOutcome`.
pub ghost enum FieldOutcomeV {
    Text(Seq<char>),
    Number(u64),
    Missing,
    TransportError,
}

impl View for FieldOutcome {
    type V = FieldOutcomeV;

    open spec fn view(&self) -> FieldOutcomeV {
        match self {
            FieldOutcome::Text(s) => FieldOutcomeV::Text(s@),
            FieldOutcome::Number(n) => FieldOutcomeV::Number(*n),
            FieldOutcome::Missing => FieldOutcomeV::Missing,
            FieldOutcome::TransportError => FieldOutcomeV::TransportError,
        }
    }
}

/// The result of one transport operation, fed back to the coordinator.
pub enum HsEvent {
    ConnectResult(bool),
    ServiceResult(bool),
    FieldRead(FieldOutcome),
    AckWriteResult(bool),
}

/// Mathematical image of an `HsEvent`.
pub ghost enum HsEventV {
    ConnectResult(bool),
    ServiceResult(bool),
    FieldRead(FieldOutcomeV),
    AckWriteResult(bool),
}

impl View for HsEvent {
    type V = HsEventV;

    open spec fn view(&self) -> HsEventV {
        match self {
            HsEvent::ConnectResult(ok) => HsEventV::ConnectResult(*ok),
            HsEvent::ServiceResult(ok) => HsEventV::ServiceResult(*ok),
            HsEvent::FieldRead(o) => HsEventV::FieldRead(o@),
            HsEvent::AckWriteResult(ok) => HsEventV::AckWriteResult(*ok),
        }
    }
}

/// One in-flight handshake with a peer: the transport address, the phase
/// reached, how many identity fields have been processed, and the payload
/// gathered so far.
pub struct HandshakeSession {
    pub address: [u8; 6],
    pub state: HsState,
    pub fields_done: u8,
    pub payload: PeerPayload,
}

/// Mathematical image of a `HandshakeSession`.
pub ghost struct HandshakeSessionV {
    pub address: Seq<u8>,
    pub state: HsState,
    pub fields_done: u8,
    pub payload: PeerPayloadV,
}

impl View for HandshakeSession {
    type V = HandshakeSessionV;

    open spec fn view(&self) -> HandshakeSessionV {
        HandshakeSessionV {
            address: self.address@,
            state: self.state,
            fields_done: self.fields_done,
            payload: self.payload@,
        }
    }
}

/// The payload before any field has been read: empty strings, zero
/// timestamp.
pub open spec fn empty_payload() -> PeerPayloadV {
    PeerPayloadV {
        serial_num: Seq::<char>::empty(),
        device_name: Seq::<char>::empty(),
        device_owner: Seq::<char>::empty(),
        timestamp: 0u64,
    }
}

/// The payload after field number `idx` (reads go in the order serial
/// number, device name, device owner, timestamp) came back as `o`.  A
/// missing or ill-typed field leaves the payload untouched.
pub open spec fn apply_field(p: PeerPayloadV, idx: u8, o: FieldOutcomeV) -> PeerPayloadV {
    match o {
        FieldOutcomeV::Text(s) => if idx == 0 {
            PeerPayloadV {
                serial_num: s,
                device_name: p.device_name,
                device_owner: p.device_owner,
                timestamp: p.timestamp,
            }
        } else if idx == 1 {
            PeerPayloadV {
                serial_num: p.serial_num,
                device_name: s,
                device_owner: p.device_owner,
                timestamp: p.timestamp,
            }
        } else if idx == 2 {
            PeerPayloadV {
                serial_num: p.serial_num,
                device_name: p.device_name,
                device_owner: s,
                timestamp: p.timestamp,
            }
        } else {
            p
        },
        FieldOutcomeV::Number(n) => if idx == 3 {
            PeerPayloadV {
                serial_num: p.serial_num,
                device_name: p.device_name,
                device_owner: p.device_owner,
                timestamp: n,
            }
        } else {
            p
        },
        FieldOutcomeV::Missing => p,
        FieldOutcomeV::TransportError => p,
    }
}

/// `s` with only the phase replaced.
pub open spec fn with_state(s: HandshakeSessionV, state: HsState) -> HandshakeSessionV {
    HandshakeSessionV {
        address: s.address,
        state,
        fields_done: s.fields_done,
        payload: s.payload,
    }
}

/// The transition relation of the coordinator: what receiving event `e` in
/// session `s` leads to.  Failure of any step is terminal; an event that
/// does not belong to the current phase is ignored; `Done` and `Failed`
/// absorb everything.
pub open spec fn step_spec(s: HandshakeSessionV, e: HsEventV) -> HandshakeSessionV {
    match s.state {
        HsState::Idle => match e {
            HsEventV::ConnectResult(ok) => if ok {
                with_state(s, HsState::Connecting)
            } else {
                with_state(s, HsState::Failed)
            },
            _ => s,
        },
        HsState::Connecting => match e {
            HsEventV::ServiceResult(ok) => if ok {
                with_state(s, HsState::ServiceDiscovered)
            } else {
                with_state(s, HsState::Failed)
            },
            _ => s,
        },
        HsState::ServiceDiscovered | HsState::Exchanging => match e {
            HsEventV::FieldRead(o) => if o is TransportError {
                with_state(s, HsState::Failed)
            } else {
                let done: u8 = if s.fields_done < 4 {
                    (s.fields_done + 1) as u8
                } else {
                    4u8
                };
                HandshakeSessionV {
                    address: s.address,
                    state: if done >= 4 {
                        HsState::Acknowledging
                    } else {
                        HsState::Exchanging
                    },
                    fields_done: done,
                    payload: apply_field(s.payload, s.fields_done, o),
                }
            },
            _ => s,
        },
        HsState::Acknowledging => match e {
            HsEventV::AckWriteResult(ok) => if ok {
                with_state(s, HsState::Done)
            } else {
                with_state(s, HsState::Failed)
            },
            _ => s,
        },
        HsState::Done => s,
        HsState::Failed => s,
    }
}

/// The session invariant: the count of processed fields matches the phase.
pub open spec fn hs_wf(s: HandshakeSessionV) -> bool {
    &&& s.fields_done <= 4
    &&& (s.state is Idle || s.state is Connecting || s.state is ServiceDiscovered)
        ==> s.fields_done == 0
    &&& s.state is Exchanging ==> 1 <= s.fields_done <= 3
    &&& s.state is Acknowledging ==> s.fields_done == 4
}

/// True of the one event that can complete a handshake.
pub open spec fn ack_success(e: HsEventV) -> bool {
    e matches HsEventV::AckWriteResult(true)
}

/// The session after a whole sequence of events.
pub open spec fn run_steps(s: HandshakeSessionV, evs: Seq<HsEventV>) -> HandshakeSessionV
    decreases evs.len(),
{
    if evs.len() <= 0 {
        s
    } else {
        run_steps(step_spec(s, evs[0]), evs.drop_first())
    }
}

/// A single step reaches `Done` only from `Done` itself or through a
/// successful acknowledgment write.
pub proof fn lemma_done_needs_ack(s: HandshakeSessionV, e: HsEventV)
    ensures
        step_spec(s, e).state is Done ==> s.state is Done || ack_success(e),
{
}

/// A handshake that never sees its acknowledgment succeed never reaches
/// `Done`, whatever else the transport reports.
pub proof fn lemma_failed_handshake_never_done(s: HandshakeSessionV, evs: Seq<HsEventV>)
    requires
        !(s.state is Done),
        forall|i: int| 0 <= i < evs.len() ==> !ack_success(#[trigger] evs[i]),
    ensures
        !(run_steps(s, evs).state is Done),
    decreases evs.len(),
{
    if evs.len() > 0 {
        lemma_done_needs_ack(s, evs[0]);
        assert forall|i: int| 0 <= i < evs.drop_first().len() implies !ack_success(
            #[trigger] evs.drop_first()[i],
        ) by {
            assert(evs.drop_first()[i] == evs[i + 1]);
        }
        lemma_failed_handshake_never_done(step_spec(s, evs[0]), evs.drop_first());
    }
}

impl HandshakeSession {
    /// A fresh session for the given peer, about to issue the connect.
    pub fn new(address: [u8; 6]) -> (s: HandshakeSession)
        ensures
            s@.address == address@,
            s@.state is Idle,
            s@.fields_done == 0,
            s@.payload == empty_payload(),
            hs_wf(s@),
    {
        let s = HandshakeSession {
            address,
            state: HsState::Idle,
            fields_done: 0,
            payload: PeerPayload {
                serial_num: String::new(),
                device_name: String::new(),
                device_owner: String::new(),
                timestamp: 0,
            },
        };
        proof {
            assert(s@.payload.serial_num =~= empty_payload().serial_num);
            assert(s@.payload.device_name =~= empty_payload().device_name);
            assert(s@.payload.device_owner =~= empty_payload().device_owner);
        }
        s
    }

    /// Feeds the result of one transport operation into the state machine.
    pub fn step(&mut self, event: HsEvent)
        requires
            hs_wf(old(self)@),
        ensures
            final(self)@ == step_spec(old(self)@, event@),
            hs_wf(final(self)@),
    {
        match self.state {
            HsState::Idle => match event {
                HsEvent::ConnectResult(ok) => {
                    self.state = if ok {
                        HsState::Connecting
                    } else {
                        HsState::Failed
                    };
                },
                _ => {},
            },
            HsState::Connecting => match event {
                HsEvent::ServiceResult(ok) => {
                    self.state = if ok {
                        HsState::ServiceDiscovered
                    } else {
                        HsState::Failed
                    };
                },
                _ => {},
            },
            HsState::ServiceDiscovered | HsState::Exchanging => match event {
                HsEvent::FieldRead(outcome) => match outcome {
                    FieldOutcome::TransportError => {
                        self.state = HsState::Failed;
                    },
                    FieldOutcome::Text(s) => {
                        if self.fields_done == 0 {
                            self.payload.serial_num = s;
                        } else if self.fields_done == 1 {
                            self.payload.device_name = s;
                        } else if self.fields_done == 2 {
                            self.payload.device_owner = s;
                        }
                        self.advance_field();
                    },
                    FieldOutcome::Number(n) => {
                        if self.fields_done == 3 {
                            self.payload.timestamp = n;
                        }
                        self.advance_field();
                    },
                    FieldOutcome::Missing => {
                        self.advance_field();
                    },
                },
                _ => {},
            },
            HsState::Acknowledging => match event {
                HsEvent::AckWriteResult(ok) => {
                    self.state = if ok {
                        HsState::Done
                    } else {
                        HsState::Failed
                    };
                },
                _ => {},
            },
            HsState::Done => {},
            HsState::Failed => {},
        }
    }

    /// Counts one processed field and moves to the next phase.
    fn advance_field(&mut self)
        requires
            old(self).fields_done <= 4,
        ensures
            final(self).fields_done == (if old(self).fields_done < 4 {
                (old(self).fields_done + 1) as u8
            } else {
                4u8
            }),
            final(self).state == (if final(self).fields_done >= 4 {
                HsState::Acknowledging
            } else {
                HsState::Exchanging
            }),
            final(self).address == old(self).address,
            final(self).payload == old(self).payload,
    {
        self.fields_done = if self.fields_done < 4 {
            self.fields_done + 1
        } else {
            4
        };
        self.state = if self.fields_done >= 4 {
            HsState::Acknowledging
        } else {
            HsState::Exchanging
        };
    }

    /// Concludes the handshake against the encounter table: a `Done` session
    /// records the encounter exactly once; any other outcome leaves the
    /// table untouched, so a handshake that failed before the acknowledgment
    /// never creates or updates a record.
    pub fn conclude(&self, table: &mut EncounterTable, now: u64) -> (recorded: bool)
        requires
            old(table).wf(),
        ensures
            final(table).wf(),
            final(table).capacity == old(table).capacity,
            final(table).ttl == old(table).ttl,
            recorded == (self@.state is Done),
            self@.state is Done ==> record_effect(
                old(table).model(),
                final(table).model(),
                old(table).capacity as int,
                self@.address,
                self@.payload,
                now,
            ),
            !(self@.state is Done) ==> final(table).model() == old(table).model(),
    {
        match self.state {
            HsState::Done => {
                table.record_interaction(&self.address, self.payload.duplicate(), now);
                true
            },
            _ => false,
        }
    }
}

} // verus!
