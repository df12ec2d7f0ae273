//! The handshake as a state machine: the caller performs each action on the
//! connection and reports what happened.
use vstd::prelude::*;
use crate::dh::{DhParameters, KeyPair, generate_keypair, compute_shared_secret, public_of, secret_of};

verus! {

/// Which end of the connection a peer is.
#[derive(Clone, Copy, Debug, PartialEq, Eq, Structural)]
pub enum Role {
    Listener,
    Connector,
}

/// Where a handshake stands. A listener goes `AwaitingConnection`,
/// `ReceivingPeerPublic`, `SendingOwnPublic`, `Done`; a connector goes
/// `Connecting`, `SendingOwnPublic`, `ReceivingPeerPublic`, `Done`. The
/// listener reads first and the connector writes first, so that the two never
/// both wait to read.
#[derive(Clone, Copy, Debug, PartialEq, Eq, Structural)]
pub enum HandshakePhase {
    AwaitingConnection,
    Connecting,
    ReceivingPeerPublic,
    SendingOwnPublic,
    Done,
}

/// What the caller reports after carrying out an action.
#[derive(Clone, Debug)]
pub enum HandshakeEvent {
    Connected,
    Sent,
    Received(Vec<u8>),
}

/// What the caller is to do next.
#[derive(Clone, Debug)]
pub enum HandshakeAction {
    /// Accept or open the connection.
    Connect,
    /// Write these eight bytes, then flush.
    SendPublic(Vec<u8>),
    /// Read exactly eight bytes.
    ReceivePublic,
    /// The handshake is over; this is the shared secret.
    Finished(u64),
}

/// Why an event was refused.
#[derive(Clone, Copy, Debug, PartialEq, Eq, Structural)]
pub enum HandshakeError {
    /// The event does not answer the action of the current phase.
    UnexpectedEvent,
    /// A public value arrived with other than eight bytes.
    ShortRead,
}

/// The eight big-endian bytes of `x`.
pub open spec fn be_bytes(x: u64) -> Seq<u8> {
    seq![
        (x >> 56u64) as u8,
        (x >> 48u64) as u8,
        (x >> 40u64) as u8,
        (x >> 32u64) as u8,
        (x >> 24u64) as u8,
        (x >> 16u64) as u8,
        (x >> 8u64) as u8,
        x as u8,
    ]
}

/// Serialises a public value for the wire.
pub fn encode_public(x: u64) -> (r: Vec<u8>)
    ensures
        r@ == be_bytes(x),
{
    let v = vec![
        (x >> 56u64) as u8,
        (x >> 48u64) as u8,
        (x >> 40u64) as u8,
        (x >> 32u64) as u8,
        (x >> 24u64) as u8,
        (x >> 16u64) as u8,
        (x >> 8u64) as u8,
        x as u8,
    ];
    assert(v@ =~= be_bytes(x));
    v
}

/// Reads a public value from its eight big-endian bytes.
pub fn decode_public(b: &[u8]) -> (r: u64)
    requires
        b@.len() == 8,
    ensures
        be_bytes(r) == b@,
{
    let b0 = b[0] as u64;
    let b1 = b[1] as u64;
    let b2 = b[2] as u64;
    let b3 = b[3] as u64;
    let b4 = b[4] as u64;
    let b5 = b[5] as u64;
    let b6 = b[6] as u64;
    let b7 = b[7] as u64;
    let r: u64 = (b0 << 56u64) | (b1 << 48u64) | (b2 << 40u64) | (b3 << 32u64) | (b4 << 24u64) | (
    b5 << 16u64) | (b6 << 8u64) | b7;
    assert(
        (r >> 56u64) as u8 == b0 as u8 && (r >> 48u64) as u8 == b1 as u8 && (r >> 40u64) as u8
            == b2 as u8 && (r >> 32u64) as u8 == b3 as u8 && (r >> 24u64) as u8 == b4 as u8 && (r
            >> 16u64) as u8 == b5 as u8 && (r >> 8u64) as u8 == b6 as u8 && r as u8 == b7 as u8
    ) by (bit_vector)
        requires
            b0 < 256 && b1 < 256 && b2 < 256 && b3 < 256 && b4 < 256 && b5 < 256 && b6 < 256 && b7
                < 256,
            r == (b0 << 56u64) | (b1 << 48u64) | (b2 << 40u64) | (b3 << 32u64) | (b4 << 24u64) | (
            b5 << 16u64) | (b6 << 8u64) | b7,
    ;
    assert(be_bytes(r) =~= b@);
    r
}

/// The phase that a role starts in.
pub open spec fn initial_phase(role: Role) -> HandshakePhase {
    match role {
        Role::Listener => HandshakePhase::AwaitingConnection,
        Role::Connector => HandshakePhase::Connecting,
    }
}

/// The phase that follows `phase` for `role`, once its action is done.
pub open spec fn phase_after(role: Role, phase: HandshakePhase) -> HandshakePhase {
    match (role, phase) {
        (Role::Listener, HandshakePhase::AwaitingConnection) => HandshakePhase::ReceivingPeerPublic,
        (Role::Listener, HandshakePhase::ReceivingPeerPublic) => HandshakePhase::SendingOwnPublic,
        (Role::Connector, HandshakePhase::Connecting) => HandshakePhase::SendingOwnPublic,
        (Role::Connector, HandshakePhase::SendingOwnPublic) => HandshakePhase::ReceivingPeerPublic,
        _ => HandshakePhase::Done,
    }
}

/// The phases that a role passes through.
pub open spec fn phase_of_role(role: Role, phase: HandshakePhase) -> bool {
    match role {
        Role::Listener => phase != HandshakePhase::Connecting,
        Role::Connector => phase != HandshakePhase::AwaitingConnection,
    }
}

/// Whether `event` answers the action of `phase`.
pub open spec fn answers(phase: HandshakePhase, event: HandshakeEvent) -> bool {
    match event {
        HandshakeEvent::Connected => phase == HandshakePhase::AwaitingConnection || phase
            == HandshakePhase::Connecting,
        HandshakeEvent::Sent => phase == HandshakePhase::SendingOwnPublic,
        HandshakeEvent::Received(_) => phase == HandshakePhase::ReceivingPeerPublic,
    }
}

/// One peer's side of the handshake.
#[derive(Clone, Copy, Debug)]
pub struct Handshake {
    pub role: Role,
    pub phase: HandshakePhase,
    pub params: DhParameters,
    pub keypair: KeyPair,
    /// The peer's public value, once received; zero before.
    pub peer_public: u64,
}

impl Handshake {
    /// The parameters are usable, the public value belongs to the private
    /// scalar, and the phase is one that the role passes through.
    pub open spec fn wf(&self) -> bool {
        &&& self.params.wf()
        &&& self.keypair.public as int == public_of(self.params, self.keypair.private)
        &&& phase_of_role(self.role, self.phase)
    }

    /// Starts a handshake for `role` with the given private scalar.
    pub fn new(role: Role, params: DhParameters, private: u64) -> (h: Handshake)
        requires
            params.wf(),
        ensures
            h.wf(),
            h.role == role,
            h.phase == initial_phase(role),
            h.params == params,
            h.keypair.private == private,
            h.peer_public == 0,
    {
        let keypair = generate_keypair(&params, private);
        let phase = match role {
            Role::Listener => HandshakePhase::AwaitingConnection,
            Role::Connector => HandshakePhase::Connecting,
        };
        Handshake { role, phase, params, keypair, peer_public: 0 }
    }

    /// What the caller is to do in the current phase.
    pub fn action(&self) -> (r: HandshakeAction)
        requires
            self.wf(),
        ensures
            (self.phase == HandshakePhase::AwaitingConnection || self.phase
                == HandshakePhase::Connecting) ==> r is Connect,
            self.phase == HandshakePhase::SendingOwnPublic ==> (r matches HandshakeAction::SendPublic(
                b,
            ) && b@ == be_bytes(self.keypair.public)),
            self.phase == HandshakePhase::ReceivingPeerPublic ==> r is ReceivePublic,
            self.phase == HandshakePhase::Done ==> (r matches HandshakeAction::Finished(s) && s as int
                == secret_of(self.params, self.keypair.private, self.peer_public)),
    {
        match self.phase {
            HandshakePhase::AwaitingConnection | HandshakePhase::Connecting => HandshakeAction::Connect,
            HandshakePhase::SendingOwnPublic => HandshakeAction::SendPublic(
                encode_public(self.keypair.public),
            ),
            HandshakePhase::ReceivingPeerPublic => HandshakeAction::ReceivePublic,
            HandshakePhase::Done => HandshakeAction::Finished(
                compute_shared_secret(&self.params, self.keypair.private, self.peer_public),
            ),
        }
    }

    /// Takes in what happened after the current action. An event that does
    /// not answer the action, or a public value of other than eight bytes, is
    /// refused and changes nothing; otherwise the handshake moves to the next
    /// phase of its role, keeping a received public value.
    pub fn step(&mut self, event: HandshakeEvent) -> (r: Result<(), HandshakeError>)
        requires
            old(self).wf(),
        ensures
            final(self).wf(),
            !answers(old(self).phase, event) ==> r == Err::<(), HandshakeError>(
                HandshakeError::UnexpectedEvent,
            ) && *final(self) == *old(self),
            answers(old(self).phase, event) && (event matches HandshakeEvent::Received(b)
                && b@.len() != 8) ==> r == Err::<(), HandshakeError>(HandshakeError::ShortRead) && *final(self)
                == *old(self),
            answers(old(self).phase, event) && !(event matches HandshakeEvent::Received(b)
                && b@.len() != 8) ==> {
                &&& r is Ok
                &&& final(self).phase == phase_after(old(self).role, old(self).phase)
                &&& final(self).role == old(self).role
                &&& final(self).params == old(self).params
                &&& final(self).keypair == old(self).keypair
                &&& event matches HandshakeEvent::Received(b) ==> be_bytes(final(self).peer_public)
                    == b@
                &&& !(event is Received) ==> final(self).peer_public == old(self).peer_public
            },
    {
        let next = match (self.role, self.phase) {
            (Role::Listener, HandshakePhase::AwaitingConnection) => HandshakePhase::ReceivingPeerPublic,
            (Role::Listener, HandshakePhase::ReceivingPeerPublic) => HandshakePhase::SendingOwnPublic,
            (Role::Connector, HandshakePhase::Connecting) => HandshakePhase::SendingOwnPublic,
            (Role::Connector, HandshakePhase::SendingOwnPublic) => HandshakePhase::ReceivingPeerPublic,
            _ => HandshakePhase::Done,
        };
        match event {
            HandshakeEvent::Connected => {
                if self.phase == HandshakePhase::AwaitingConnection || self.phase
                    == HandshakePhase::Connecting {
                    self.phase = next;
                    Ok(())
                } else {
                    Err(HandshakeError::UnexpectedEvent)
                }
            },
            HandshakeEvent::Sent => {
                if self.phase == HandshakePhase::SendingOwnPublic {
                    self.phase = next;
                    Ok(())
                } else {
                    Err(HandshakeError::UnexpectedEvent)
                }
            },
            HandshakeEvent::Received(b) => {
                if self.phase != HandshakePhase::ReceivingPeerPublic {
                    Err(HandshakeError::UnexpectedEvent)
                } else if b.len() != 8 {
                    Err(HandshakeError::ShortRead)
                } else {
                    self.peer_public = decode_public(b.as_slice());
                    self.phase = next;
                    Ok(())
                }
            },
        }
    }
}

/// A listener and a connector that have each finished with the other's public
/// value hold the same secret.
pub proof fn lemma_finished_peers_agree(listener: Handshake, connector: Handshake)
    requires
        listener.wf(),
        connector.wf(),
        listener.params == connector.params,
        listener.peer_public == connector.keypair.public,
        connector.peer_public == listener.keypair.public,
    ensures
        secret_of(listener.params, listener.keypair.private, listener.peer_public) == secret_of(
            connector.params,
            connector.keypair.private,
            connector.peer_public,
        ),
{
    crate::dh::lemma_handshake_agreement(
        listener.params,
        listener.keypair.private,
        connector.keypair.private,
    );
}

} // verus!
