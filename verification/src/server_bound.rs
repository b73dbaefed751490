use vstd::prelude::*;

use crate::DecodeError;
use crate::Decodable;
use crate::Encodable;
use crate::Lossless;
use crate::ReceivedPacket;
use crate::common::State;
use crate::primitive::BoolConditional;
use crate::primitive::F32Bits;
use crate::primitive::F64Bits;
use crate::primitive::Identifier;
use crate::primitive::Uuid;
use crate::primitive::VarInt;
use crate::primitive::array::Array;
use crate::primitive::array::PacketInferredInBytes;
use crate::primitive::array::VarIntLength;
use crate::primitive::leb128;

verus! {

/// A packet the server can receive: a decodable body tagged with the
/// packet id that selects it within its phase.
pub trait ServerBoundPacket: Decodable {
    /// The packet's id within its phase.
    spec fn packet_id_spec() -> int;

    /// The packet's id, as a runtime value.
    fn packet_id() -> (r: i32)
        ensures
            r as int == Self::packet_id_spec(),
    ;
}

/// One phase's group of server-bound packets: a discriminated union that
/// parses by reading the packet id first, then dispatching on it. An id
/// with no packet in the phase is an error naming the id and the phase.
pub trait PacketCluster: Sized + View {
    /// The outcome of decoding the packet that `id` selects from `s`.
    spec fn spec_parse_with_id(id: i32, s: Seq<u8>) -> Result<(int, Self::V), DecodeError>;

    /// Decode the packet that `id` selects.
    fn parse_with_id(id: i32, f: &mut ReceivedPacket) -> (r: Result<Self, DecodeError>)
        requires
            old(f).wf(),
        ensures
            final(f).wf(),
            final(f).buf_spec() == old(f).buf_spec(),
            old(f).pos_spec() <= final(f).pos_spec(),
            match Self::spec_parse_with_id(id, old(f).rest()) {
                Ok(p) => r matches Ok(v) && v@ == p.1 && final(f).pos_spec() == old(f).pos_spec()
                    + p.0,
                Err(e) => r matches Err(e2) && e2 == e,
            },
    ;

    /// Read the packet id, then decode the packet it selects.
    fn parse(f: &mut ReceivedPacket) -> (r: Result<Self, DecodeError>)
        requires
            old(f).wf(),
        ensures
            final(f).wf(),
            final(f).buf_spec() == old(f).buf_spec(),
            old(f).pos_spec() <= final(f).pos_spec(),
            match leb128::spec_read_var_int(old(f).rest()) {
                Ok(p) => match Self::spec_parse_with_id(p.1, old(f).rest().skip(p.0)) {
                    Ok(q) => r matches Ok(v) && v@ == q.1 && final(f).pos_spec() == old(
                        f,
                    ).pos_spec() + p.0 + q.0,
                    Err(e) => r matches Err(e2) && e2 == e,
                },
                Err(e) => r matches Err(e2) && e2 == e,
            },
    {
        let ghost s = old(f).rest();
        let (n, id) = match leb128::read_var_int(f) {
            Ok(p) => p,
            Err(e) => {
                return Err(e);
            },
        };
        proof {
            assert(f.rest() =~= s.skip(n as int));
        }
        Self::parse_with_id(id, f)
    }
}

/// The outcome of parsing a whole frame body as a phase's packet group:
/// a VarInt packet id, then the selected packet's fields.
pub open spec fn spec_parse_cluster<C: PacketCluster>(s: Seq<u8>) -> Result<
    (int, C::V),
    DecodeError,
> {
    match leb128::spec_read_var_int(s) {
        Ok(p) => match C::spec_parse_with_id(p.1, s.skip(p.0)) {
            Ok(q) => Ok((p.0 + q.0, q.1)),
            Err(e) => Err(e),
        },
        Err(e) => Err(e),
    }
}

/// The state a client asks to continue in after its handshake: 1 is a
/// status query, 2 begins a login.
#[derive(Debug, PartialEq, Eq, Clone, Copy, Hash, Structural)]
pub enum HandshakeNextState {
    Status,
    Login,
}

impl View for HandshakeNextState {
    type V = HandshakeNextState;

    open spec fn view(&self) -> HandshakeNextState {
        *self
    }
}

/// The wire value of a handshake next state.
pub open spec fn next_state_value(n: HandshakeNextState) -> i32 {
    match n {
        HandshakeNextState::Status => 1i32,
        HandshakeNextState::Login => 2i32,
    }
}

impl Encodable for HandshakeNextState {
    open spec fn encodable(&self) -> bool {
        true
    }

    open spec fn encoding(&self) -> Seq<u8> {
        leb128::spec_build_var_int(next_state_value(*self))
    }

    fn encode(&self, out: &mut Vec<u8>) -> (n: usize) {
        match self {
            HandshakeNextState::Status => VarInt(1).encode(out),
            HandshakeNextState::Login => VarInt(2).encode(out),
        }
    }
}

impl Decodable for HandshakeNextState {
    open spec fn spec_decode(s: Seq<u8>) -> Result<(int, HandshakeNextState), DecodeError> {
        match leb128::spec_read_var_int(s) {
            Ok(p) => if p.1 == 1 {
                Ok((p.0, HandshakeNextState::Status))
            } else if p.1 == 2 {
                Ok((p.0, HandshakeNextState::Login))
            } else {
                Err(DecodeError::UnknownNextState(p.1))
            },
            Err(e) => Err(e),
        }
    }

    fn decode(f: &mut ReceivedPacket) -> (r: Result<Self, DecodeError>) {
        let raw = match leb128::read_var_int(f) {
            Ok(p) => p.1,
            Err(e) => {
                return Err(e);
            },
        };
        if raw == 1 {
            Ok(HandshakeNextState::Status)
        } else if raw == 2 {
            Ok(HandshakeNextState::Login)
        } else {
            Err(DecodeError::UnknownNextState(raw))
        }
    }
}

impl Lossless for HandshakeNextState {
    proof fn lemma_round_trip(&self, tail: Seq<u8>) {
        leb128::lemma_var_int_round_trip(next_state_value(*self), tail);
    }
}

/// The first packet of every connection: the client's protocol version,
/// the address and port it dialled, and the state it asks to enter.
#[derive(Debug, PartialEq, Eq, Clone, Hash)]
pub struct Handshake {
    pub protocol_version: VarInt,
    pub server_address: String,
    pub server_port: u16,
    pub next_state: HandshakeNextState,
}

/// The mathematical content of a `Handshake`.
pub struct HandshakeV {
    pub protocol_version: VarInt,
    pub server_address: Seq<char>,
    pub server_port: u16,
    pub next_state: HandshakeNextState,
}

impl View for Handshake {
    type V = HandshakeV;

    open spec fn view(&self) -> HandshakeV {
        HandshakeV {
            protocol_version: self.protocol_version,
            server_address: self.server_address@,
            server_port: self.server_port,
            next_state: self.next_state,
        }
    }
}

impl ServerBoundPacket for Handshake {
    open spec fn packet_id_spec() -> int {
        0
    }

    fn packet_id() -> (r: i32) {
        0
    }
}

impl Encodable for Handshake {
    open spec fn encodable(&self) -> bool {
        self.server_address.encodable()
    }

    open spec fn encoding(&self) -> Seq<u8> {
        self.protocol_version.encoding() + self.server_address.encoding()
            + self.server_port.encoding() + self.next_state.encoding()
    }

    fn encode(&self, out: &mut Vec<u8>) -> (n: usize) {
        let start = out.len();
        let _ = self.protocol_version.encode(out);
        let _ = self.server_address.encode(out);
        let _ = self.server_port.encode(out);
        let _ = self.next_state.encode(out);
        proof {
            if self.encodable() {
                assert(out@ =~= old(out)@ + self.encoding());
            }
            assert(old(out)@ =~= out@.take(old(out)@.len() as int));
        }
        out.len() - start
    }
}

impl Decodable for Handshake {
    open spec fn spec_decode(s: Seq<u8>) -> Result<(int, HandshakeV), DecodeError> {
        match VarInt::spec_decode(s) {
            Ok(p1) => match String::spec_decode(s.skip(p1.0)) {
                Ok(p2) => match u16::spec_decode(s.skip(p1.0 + p2.0)) {
                    Ok(p3) => match HandshakeNextState::spec_decode(s.skip(p1.0 + p2.0 + p3.0)) {
                        Ok(p4) => Ok(
                            (
                                p1.0 + p2.0 + p3.0 + p4.0,
                                HandshakeV {
                                    protocol_version: p1.1,
                                    server_address: p2.1,
                                    server_port: p3.1,
                                    next_state: p4.1,
                                },
                            ),
                        ),
                        Err(e) => Err(e),
                    },
                    Err(e) => Err(e),
                },
                Err(e) => Err(e),
            },
            Err(e) => Err(e),
        }
    }

    fn decode(f: &mut ReceivedPacket) -> (r: Result<Self, DecodeError>) {
        let ghost s = old(f).rest();
        let protocol_version = match VarInt::decode(f) {
            Ok(v) => v,
            Err(e) => {
                return Err(e);
            },
        };
        proof {
            let p1 = VarInt::spec_decode(s).unwrap();
            assert(f.rest() =~= s.skip(p1.0));
        }
        let server_address = match String::decode(f) {
            Ok(v) => v,
            Err(e) => {
                return Err(e);
            },
        };
        proof {
            let p1 = VarInt::spec_decode(s).unwrap();
            let p2 = String::spec_decode(s.skip(p1.0)).unwrap();
            assert(f.rest() =~= s.skip(p1.0 + p2.0));
        }
        let server_port = match u16::decode(f) {
            Ok(v) => v,
            Err(e) => {
                return Err(e);
            },
        };
        proof {
            let p1 = VarInt::spec_decode(s).unwrap();
            let p2 = String::spec_decode(s.skip(p1.0)).unwrap();
            let p3 = u16::spec_decode(s.skip(p1.0 + p2.0)).unwrap();
            assert(f.rest() =~= s.skip(p1.0 + p2.0 + p3.0));
        }
        let next_state = match HandshakeNextState::decode(f) {
            Ok(v) => v,
            Err(e) => {
                return Err(e);
            },
        };
        Ok(Handshake { protocol_version, server_address, server_port, next_state })
    }
}

impl Lossless for Handshake {
    proof fn lemma_round_trip(&self, tail: Seq<u8>) {
        let e1 = self.protocol_version.encoding();
        let e2 = self.server_address.encoding();
        let e3 = self.server_port.encoding();
        let e4 = self.next_state.encoding();
        let s = self.encoding() + tail;
        assert(s =~= e1 + (e2 + (e3 + (e4 + tail))));
        self.protocol_version.lemma_round_trip(e2 + (e3 + (e4 + tail)));
        assert(s.skip(e1.len() as int) =~= e2 + (e3 + (e4 + tail)));
        self.server_address.lemma_round_trip(e3 + (e4 + tail));
        assert(s.skip(e1.len() + e2.len() as int) =~= e3 + (e4 + tail));
        self.server_port.lemma_round_trip(e4 + tail);
        assert(s.skip(e1.len() + e2.len() + e3.len() as int) =~= e4 + tail);
        self.next_state.lemma_round_trip(tail);
    }
}

/// The single-byte ping that pre-2013 clients send to list a server.
#[derive(Debug, PartialEq, Eq, Clone, Copy, Hash, Structural)]
pub struct LegacyServerListPing {
    pub payload: u8,
}

impl View for LegacyServerListPing {
    type V = LegacyServerListPing;

    open spec fn view(&self) -> LegacyServerListPing {
        *self
    }
}

impl ServerBoundPacket for LegacyServerListPing {
    open spec fn packet_id_spec() -> int {
        0xfe
    }

    fn packet_id() -> (r: i32) {
        0xfe
    }
}

impl Encodable for LegacyServerListPing {
    open spec fn encodable(&self) -> bool {
        true
    }

    open spec fn encoding(&self) -> Seq<u8> {
        seq![self.payload]
    }

    fn encode(&self, out: &mut Vec<u8>) -> (n: usize) {
        self.payload.encode(out)
    }
}

impl Decodable for LegacyServerListPing {
    open spec fn spec_decode(s: Seq<u8>) -> Result<(int, LegacyServerListPing), DecodeError> {
        match u8::spec_decode(s) {
            Ok(p) => Ok((p.0, LegacyServerListPing { payload: p.1 })),
            Err(e) => Err(e),
        }
    }

    fn decode(f: &mut ReceivedPacket) -> (r: Result<Self, DecodeError>) {
        match u8::decode(f) {
            Ok(payload) => Ok(LegacyServerListPing { payload }),
            Err(e) => Err(e),
        }
    }
}

impl Lossless for LegacyServerListPing {
    proof fn lemma_round_trip(&self, tail: Seq<u8>) {
        self.payload.lemma_round_trip(tail);
    }
}

/// The packets a client may send while the connection is handshaking.
#[derive(Debug)]
pub enum Handshaking {
    Handshake(Handshake),
    LegacyServerListPing(LegacyServerListPing),
}

/// The mathematical content of a `Handshaking` packet.
pub enum HandshakingV {
    Handshake(HandshakeV),
    LegacyServerListPing(LegacyServerListPing),
}

impl View for Handshaking {
    type V = HandshakingV;

    open spec fn view(&self) -> HandshakingV {
        match self {
            Handshaking::Handshake(p) => HandshakingV::Handshake(p@),
            Handshaking::LegacyServerListPing(p) => HandshakingV::LegacyServerListPing(*p),
        }
    }
}

impl PacketCluster for Handshaking {
    open spec fn spec_parse_with_id(id: i32, s: Seq<u8>) -> Result<(int, HandshakingV), DecodeError> {
        if id == 0 {
            match Handshake::spec_decode(s) {
                Ok(p) => Ok((p.0, HandshakingV::Handshake(p.1))),
                Err(e) => Err(e),
            }
        } else if id == 0xfe {
            match LegacyServerListPing::spec_decode(s) {
                Ok(p) => Ok((p.0, HandshakingV::LegacyServerListPing(p.1))),
                Err(e) => Err(e),
            }
        } else {
            Err(DecodeError::UnknownPacketId(id, State::Handshaking))
        }
    }

    fn parse_with_id(id: i32, f: &mut ReceivedPacket) -> (r: Result<Self, DecodeError>) {
        if id == 0 {
            match Handshake::decode(f) {
                Ok(p) => Ok(Handshaking::Handshake(p)),
                Err(e) => Err(e),
            }
        } else if id == 0xfe {
            match LegacyServerListPing::decode(f) {
                Ok(p) => Ok(Handshaking::LegacyServerListPing(p)),
                Err(e) => Err(e),
            }
        } else {
            Err(DecodeError::UnknownPacketId(id, State::Handshaking))
        }
    }
}

impl Handshaking {
    /// The handshake this packet is expected to be, or an error.
    pub fn assume_handshake(self) -> (r: Result<Handshake, DecodeError>)
        ensures
            (r is Ok) <==> (self matches Handshaking::Handshake(_)),
            r matches Ok(p) ==> self == Handshaking::Handshake(p),
            r matches Err(e) ==> e == DecodeError::UnexpectedPacket,
    {
        if let Handshaking::Handshake(inner) = self {
            Ok(inner)
        } else {
            Err(DecodeError::UnexpectedPacket)
        }
    }

    /// The handshake this packet is known to be.
    pub fn unwrap_handshake(self) -> (r: Handshake)
        requires
            self matches Handshaking::Handshake(_),
        ensures
            self == Handshaking::Handshake(r),
    {
        match self {
            Handshaking::Handshake(inner) => inner,
            Handshaking::LegacyServerListPing(_) => {
                proof {
                    assert(false);
                }
                Handshake {
                    protocol_version: VarInt(0),
                    server_address: String::new(),
                    server_port: 0,
                    next_state: HandshakeNextState::Status,
                }
            },
        }
    }

    /// The legacy ping this packet is expected to be, or an error.
    pub fn assume_legacy_server_list_ping(self) -> (r: Result<LegacyServerListPing, DecodeError>)
        ensures
            (r is Ok) <==> (self matches Handshaking::LegacyServerListPing(_)),
            r matches Ok(p) ==> self == Handshaking::LegacyServerListPing(p),
            r matches Err(e) ==> e == DecodeError::UnexpectedPacket,
    {
        if let Handshaking::LegacyServerListPing(inner) = self {
            Ok(inner)
        } else {
            Err(DecodeError::UnexpectedPacket)
        }
    }

    /// The legacy ping this packet is known to be.
    pub fn unwrap_legacy_server_list_ping(self) -> (r: LegacyServerListPing)
        requires
            self matches Handshaking::LegacyServerListPing(_),
        ensures
            self == Handshaking::LegacyServerListPing(r),
    {
        match self {
            Handshaking::LegacyServerListPing(inner) => inner,
            Handshaking::Handshake(_) => {
                proof {
                    assert(false);
                }
                LegacyServerListPing { payload: 0 }
            },
        }
    }
}

/// A request for the server's status document; it has no fields.
#[derive(Debug, PartialEq, Eq, Clone, Copy, Hash, Structural)]
pub struct StatusRequest {}

impl View for StatusRequest {
    type V = StatusRequest;

    open spec fn view(&self) -> StatusRequest {
        *self
    }
}

impl ServerBoundPacket for StatusRequest {
    open spec fn packet_id_spec() -> int {
        0
    }

    fn packet_id() -> (r: i32) {
        0
    }
}

impl Encodable for StatusRequest {
    open spec fn encodable(&self) -> bool {
        true
    }

    open spec fn encoding(&self) -> Seq<u8> {
        Seq::empty()
    }

    fn encode(&self, out: &mut Vec<u8>) -> (n: usize) {
        proof {
            assert(out@ =~= old(out)@ + self.encoding());
            crate::lemma_append_prefix(old(out)@, self.encoding());
        }
        0
    }
}

impl Decodable for StatusRequest {
    open spec fn spec_decode(s: Seq<u8>) -> Result<(int, StatusRequest), DecodeError> {
        Ok((0int, StatusRequest {  }))
    }

    fn decode(f: &mut ReceivedPacket) -> (r: Result<Self, DecodeError>) {
        Ok(StatusRequest {  })
    }
}

impl Lossless for StatusRequest {
    proof fn lemma_round_trip(&self, tail: Seq<u8>) {
    }
}

/// A ping whose payload the server echoes back.
#[derive(Debug, PartialEq, Eq, Clone, Copy, Hash, Structural)]
pub struct PingRequest {
    pub payload: i64,
}

impl View for PingRequest {
    type V = PingRequest;

    open spec fn view(&self) -> PingRequest {
        *self
    }
}

impl ServerBoundPacket for PingRequest {
    open spec fn packet_id_spec() -> int {
        1
    }

    fn packet_id() -> (r: i32) {
        1
    }
}

impl Encodable for PingRequest {
    open spec fn encodable(&self) -> bool {
        true
    }

    open spec fn encoding(&self) -> Seq<u8> {
        self.payload.encoding()
    }

    fn encode(&self, out: &mut Vec<u8>) -> (n: usize) {
        self.payload.encode(out)
    }
}

impl Decodable for PingRequest {
    open spec fn spec_decode(s: Seq<u8>) -> Result<(int, PingRequest), DecodeError> {
        match i64::spec_decode(s) {
            Ok(p) => Ok((p.0, PingRequest { payload: p.1 })),
            Err(e) => Err(e),
        }
    }

    fn decode(f: &mut ReceivedPacket) -> (r: Result<Self, DecodeError>) {
        match i64::decode(f) {
            Ok(payload) => Ok(PingRequest { payload }),
            Err(e) => Err(e),
        }
    }
}

impl Lossless for PingRequest {
    proof fn lemma_round_trip(&self, tail: Seq<u8>) {
        self.payload.lemma_round_trip(tail);
    }
}

/// The packets a client may send while the connection reports status.
#[derive(Debug)]
pub enum Status {
    StatusRequest(StatusRequest),
    PingRequest(PingRequest),
}

/// The mathematical content of a `Status` packet.
pub enum StatusV {
    StatusRequest(StatusRequest),
    PingRequest(PingRequest),
}

impl View for Status {
    type V = StatusV;

    open spec fn view(&self) -> StatusV {
        match self {
            Status::StatusRequest(p) => StatusV::StatusRequest(*p),
            Status::PingRequest(p) => StatusV::PingRequest(*p),
        }
    }
}

impl PacketCluster for Status {
    open spec fn spec_parse_with_id(id: i32, s: Seq<u8>) -> Result<(int, StatusV), DecodeError> {
        if id == 0 {
            match StatusRequest::spec_decode(s) {
                Ok(p) => Ok((p.0, StatusV::StatusRequest(p.1))),
                Err(e) => Err(e),
            }
        } else if id == 1 {
            match PingRequest::spec_decode(s) {
                Ok(p) => Ok((p.0, StatusV::PingRequest(p.1))),
                Err(e) => Err(e),
            }
        } else {
            Err(DecodeError::UnknownPacketId(id, State::Status))
        }
    }

    fn parse_with_id(id: i32, f: &mut ReceivedPacket) -> (r: Result<Self, DecodeError>) {
        if id == 0 {
            match StatusRequest::decode(f) {
                Ok(p) => Ok(Status::StatusRequest(p)),
                Err(e) => Err(e),
            }
        } else if id == 1 {
            match PingRequest::decode(f) {
                Ok(p) => Ok(Status::PingRequest(p)),
                Err(e) => Err(e),
            }
        } else {
            Err(DecodeError::UnknownPacketId(id, State::Status))
        }
    }
}

impl Status {
    /// The status request this packet is expected to be, or an error.
    pub fn assume_status_request(self) -> (r: Result<StatusRequest, DecodeError>)
        ensures
            (r is Ok) <==> (self matches Status::StatusRequest(_)),
            r matches Err(e) ==> e == DecodeError::UnexpectedPacket,
    {
        if let Status::StatusRequest(inner) = self {
            Ok(inner)
        } else {
            Err(DecodeError::UnexpectedPacket)
        }
    }

    /// The ping this packet is expected to be, or an error.
    pub fn assume_ping_request(self) -> (r: Result<PingRequest, DecodeError>)
        ensures
            (r is Ok) <==> (self matches Status::PingRequest(_)),
            r matches Ok(p) ==> self == Status::PingRequest(p),
            r matches Err(e) ==> e == DecodeError::UnexpectedPacket,
    {
        if let Status::PingRequest(inner) = self {
            Ok(inner)
        } else {
            Err(DecodeError::UnexpectedPacket)
        }
    }
}

/// A client's request to log in: its name, and its UUID when it sends one.
#[derive(Debug, PartialEq, Eq, Clone, Hash)]
pub struct LoginStart {
    pub name: String,
    pub uuid: BoolConditional<Uuid>,
}

/// The mathematical content of a `LoginStart`.
pub struct LoginStartV {
    pub name: Seq<char>,
    pub uuid: Option<Uuid>,
}

impl View for LoginStart {
    type V = LoginStartV;

    open spec fn view(&self) -> LoginStartV {
        LoginStartV { name: self.name@, uuid: self.uuid@ }
    }
}

impl ServerBoundPacket for LoginStart {
    open spec fn packet_id_spec() -> int {
        0
    }

    fn packet_id() -> (r: i32) {
        0
    }
}

impl Encodable for LoginStart {
    open spec fn encodable(&self) -> bool {
        self.name.encodable()
    }

    open spec fn encoding(&self) -> Seq<u8> {
        self.name.encoding() + self.uuid.encoding()
    }

    fn encode(&self, out: &mut Vec<u8>) -> (n: usize) {
        let start = out.len();
        let _ = self.name.encode(out);
        let _ = self.uuid.encode(out);
        proof {
            if self.encodable() {
                assert(out@ =~= old(out)@ + self.encoding());
            }
            assert(old(out)@ =~= out@.take(old(out)@.len() as int));
        }
        out.len() - start
    }
}

impl Decodable for LoginStart {
    open spec fn spec_decode(s: Seq<u8>) -> Result<(int, LoginStartV), DecodeError> {
        match String::spec_decode(s) {
            Ok(p1) => match BoolConditional::<Uuid>::spec_decode(s.skip(p1.0)) {
                Ok(p2) => Ok((p1.0 + p2.0, LoginStartV { name: p1.1, uuid: p2.1 })),
                Err(e) => Err(e),
            },
            Err(e) => Err(e),
        }
    }

    fn decode(f: &mut ReceivedPacket) -> (r: Result<Self, DecodeError>) {
        let ghost s = old(f).rest();
        let name = match String::decode(f) {
            Ok(v) => v,
            Err(e) => {
                return Err(e);
            },
        };
        proof {
            let p1 = String::spec_decode(s).unwrap();
            assert(f.rest() =~= s.skip(p1.0));
        }
        let uuid = match BoolConditional::<Uuid>::decode(f) {
            Ok(v) => v,
            Err(e) => {
                return Err(e);
            },
        };
        Ok(LoginStart { name, uuid })
    }
}

impl Lossless for LoginStart {
    proof fn lemma_round_trip(&self, tail: Seq<u8>) {
        let e1 = self.name.encoding();
        let e2 = self.uuid.encoding();
        let s = self.encoding() + tail;
        assert(s =~= e1 + (e2 + tail));
        self.name.lemma_round_trip(e2 + tail);
        assert(s.skip(e1.len() as int) =~= e2 + tail);
        self.uuid.lemma_round_trip(tail);
    }
}

/// The client's half of the encryption handshake: the shared secret and
/// the verify token, each enciphered with the server's public key.
#[derive(Debug, PartialEq, Eq, Hash)]
pub struct EncryptionResponse {
    pub shared_secret: Array<VarIntLength, u8>,
    pub verify_token: Array<VarIntLength, u8>,
}

/// The mathematical content of an `EncryptionResponse`.
pub struct EncryptionResponseV {
    pub shared_secret: Seq<u8>,
    pub verify_token: Seq<u8>,
}

impl View for EncryptionResponse {
    type V = EncryptionResponseV;

    open spec fn view(&self) -> EncryptionResponseV {
        EncryptionResponseV { shared_secret: self.shared_secret@, verify_token: self.verify_token@ }
    }
}

impl ServerBoundPacket for EncryptionResponse {
    open spec fn packet_id_spec() -> int {
        1
    }

    fn packet_id() -> (r: i32) {
        1
    }
}

impl Encodable for EncryptionResponse {
    open spec fn encodable(&self) -> bool {
        self.shared_secret.encodable() && self.verify_token.encodable()
    }

    open spec fn encoding(&self) -> Seq<u8> {
        self.shared_secret.encoding() + self.verify_token.encoding()
    }

    fn encode(&self, out: &mut Vec<u8>) -> (n: usize) {
        let start = out.len();
        let _ = self.shared_secret.encode(out);
        let _ = self.verify_token.encode(out);
        proof {
            if self.encodable() {
                assert(out@ =~= old(out)@ + self.encoding());
            }
            assert(old(out)@ =~= out@.take(old(out)@.len() as int));
        }
        out.len() - start
    }
}

impl Decodable for EncryptionResponse {
    open spec fn spec_decode(s: Seq<u8>) -> Result<(int, EncryptionResponseV), DecodeError> {
        match Array::<VarIntLength, u8>::spec_decode(s) {
            Ok(p1) => match Array::<VarIntLength, u8>::spec_decode(s.skip(p1.0)) {
                Ok(p2) => Ok(
                    (p1.0 + p2.0, EncryptionResponseV { shared_secret: p1.1, verify_token: p2.1 }),
                ),
                Err(e) => Err(e),
            },
            Err(e) => Err(e),
        }
    }

    fn decode(f: &mut ReceivedPacket) -> (r: Result<Self, DecodeError>) {
        let ghost s = old(f).rest();
        let shared_secret = match Array::<VarIntLength, u8>::decode(f) {
            Ok(v) => v,
            Err(e) => {
                return Err(e);
            },
        };
        proof {
            let p1 = Array::<VarIntLength, u8>::spec_decode(s).unwrap();
            assert(f.rest() =~= s.skip(p1.0));
        }
        let verify_token = match Array::<VarIntLength, u8>::decode(f) {
            Ok(v) => v,
            Err(e) => {
                return Err(e);
            },
        };
        Ok(EncryptionResponse { shared_secret, verify_token })
    }
}

impl Lossless for EncryptionResponse {
    proof fn lemma_round_trip(&self, tail: Seq<u8>) {
        let e1 = self.shared_secret.encoding();
        let e2 = self.verify_token.encoding();
        let s = self.encoding() + tail;
        assert(s =~= e1 + (e2 + tail));
        self.shared_secret.lemma_round_trip(e2 + tail);
        assert(s.skip(e1.len() as int) =~= e2 + tail);
        self.verify_token.lemma_round_trip(tail);
    }
}

/// A client's answer to a plugin request; the optional payload runs to the
/// end of the frame.
#[derive(Debug, PartialEq, Eq, Hash)]
pub struct PluginResponse {
    pub message_id: VarInt,
    pub data: BoolConditional<Array<PacketInferredInBytes, u8>>,
}

/// The mathematical content of a `PluginResponse`.
pub struct PluginResponseV {
    pub message_id: VarInt,
    pub data: Option<Seq<u8>>,
}

impl View for PluginResponse {
    type V = PluginResponseV;

    open spec fn view(&self) -> PluginResponseV {
        PluginResponseV { message_id: self.message_id, data: self.data@ }
    }
}

impl ServerBoundPacket for PluginResponse {
    open spec fn packet_id_spec() -> int {
        2
    }

    fn packet_id() -> (r: i32) {
        2
    }
}

impl Encodable for PluginResponse {
    open spec fn encodable(&self) -> bool {
        self.data.encodable()
    }

    open spec fn encoding(&self) -> Seq<u8> {
        self.message_id.encoding() + self.data.encoding()
    }

    fn encode(&self, out: &mut Vec<u8>) -> (n: usize) {
        let start = out.len();
        let _ = self.message_id.encode(out);
        let _ = self.data.encode(out);
        proof {
            if self.encodable() {
                assert(out@ =~= old(out)@ + self.encoding());
            }
            assert(old(out)@ =~= out@.take(old(out)@.len() as int));
        }
        out.len() - start
    }
}

impl Decodable for PluginResponse {
    open spec fn spec_decode(s: Seq<u8>) -> Result<(int, PluginResponseV), DecodeError> {
        match VarInt::spec_decode(s) {
            Ok(p1) => match BoolConditional::<Array<PacketInferredInBytes, u8>>::spec_decode(
                s.skip(p1.0),
            ) {
                Ok(p2) => Ok((p1.0 + p2.0, PluginResponseV { message_id: p1.1, data: p2.1 })),
                Err(e) => Err(e),
            },
            Err(e) => Err(e),
        }
    }

    fn decode(f: &mut ReceivedPacket) -> (r: Result<Self, DecodeError>) {
        let ghost s = old(f).rest();
        let message_id = match VarInt::decode(f) {
            Ok(v) => v,
            Err(e) => {
                return Err(e);
            },
        };
        proof {
            let p1 = VarInt::spec_decode(s).unwrap();
            assert(f.rest() =~= s.skip(p1.0));
        }
        let data = match BoolConditional::<Array<PacketInferredInBytes, u8>>::decode(f) {
            Ok(v) => v,
            Err(e) => {
                return Err(e);
            },
        };
        Ok(PluginResponse { message_id, data })
    }
}

impl PluginResponse {
    /// Decoding a plugin response from exactly its own encoding gives the
    /// response back. Because its payload runs to the end of the frame, the
    /// law holds of the whole frame rather than of every prefix.
    pub proof fn lemma_round_trip_exact(&self)
        requires
            self.encodable(),
        ensures
            Self::spec_decode(self.encoding()) == Ok::<(int, PluginResponseV), DecodeError>(
                (self.encoding().len() as int, self@),
            ),
    {
        let e1 = self.message_id.encoding();
        let e2 = self.data.encoding();
        let s = self.encoding();
        assert(s =~= e1 + e2);
        self.message_id.lemma_round_trip(e2);
        assert(s.skip(e1.len() as int) =~= e2);
        match self.data.0 {
            Some(arr) => {
                assert(e2[0] == 1);
                assert(e2.skip(1) =~= arr.encoding());
                assert(arr.encoding() =~= crate::primitive::array::seq_encoding(arr.inner@));
                crate::primitive::array::lemma_to_end_round_trip(arr.inner@);
            },
            None => {
                assert(e2[0] == 0);
            },
        }
    }
}

/// The packets a client may send while the connection is logging in.
#[derive(Debug)]
pub enum Login {
    LoginStart(LoginStart),
    EncryptionResponse(EncryptionResponse),
    PluginResponse(PluginResponse),
}

/// The mathematical content of a `Login` packet.
pub enum LoginV {
    LoginStart(LoginStartV),
    EncryptionResponse(EncryptionResponseV),
    PluginResponse(PluginResponseV),
}

impl View for Login {
    type V = LoginV;

    open spec fn view(&self) -> LoginV {
        match self {
            Login::LoginStart(p) => LoginV::LoginStart(p@),
            Login::EncryptionResponse(p) => LoginV::EncryptionResponse(p@),
            Login::PluginResponse(p) => LoginV::PluginResponse(p@),
        }
    }
}

impl PacketCluster for Login {
    open spec fn spec_parse_with_id(id: i32, s: Seq<u8>) -> Result<(int, LoginV), DecodeError> {
        if id == 0 {
            match LoginStart::spec_decode(s) {
                Ok(p) => Ok((p.0, LoginV::LoginStart(p.1))),
                Err(e) => Err(e),
            }
        } else if id == 1 {
            match EncryptionResponse::spec_decode(s) {
                Ok(p) => Ok((p.0, LoginV::EncryptionResponse(p.1))),
                Err(e) => Err(e),
            }
        } else if id == 2 {
            match PluginResponse::spec_decode(s) {
                Ok(p) => Ok((p.0, LoginV::PluginResponse(p.1))),
                Err(e) => Err(e),
            }
        } else {
            Err(DecodeError::UnknownPacketId(id, State::Login))
        }
    }

    fn parse_with_id(id: i32, f: &mut ReceivedPacket) -> (r: Result<Self, DecodeError>) {
        if id == 0 {
            match LoginStart::decode(f) {
                Ok(p) => Ok(Login::LoginStart(p)),
                Err(e) => Err(e),
            }
        } else if id == 1 {
            match EncryptionResponse::decode(f) {
                Ok(p) => Ok(Login::EncryptionResponse(p)),
                Err(e) => Err(e),
            }
        } else if id == 2 {
            match PluginResponse::decode(f) {
                Ok(p) => Ok(Login::PluginResponse(p)),
                Err(e) => Err(e),
            }
        } else {
            Err(DecodeError::UnknownPacketId(id, State::Login))
        }
    }
}

impl Login {
    /// The login request this packet is expected to be, or an error.
    pub fn assume_login_start(self) -> (r: Result<LoginStart, DecodeError>)
        ensures
            (r is Ok) <==> (self matches Login::LoginStart(_)),
            r matches Ok(p) ==> self == Login::LoginStart(p),
            r matches Err(e) ==> e == DecodeError::UnexpectedPacket,
    {
        if let Login::LoginStart(inner) = self {
            Ok(inner)
        } else {
            Err(DecodeError::UnexpectedPacket)
        }
    }

    /// The encryption response this packet is expected to be, or an error.
    pub fn assume_encryption_response(self) -> (r: Result<EncryptionResponse, DecodeError>)
        ensures
            (r is Ok) <==> (self matches Login::EncryptionResponse(_)),
            r matches Ok(p) ==> self == Login::EncryptionResponse(p),
            r matches Err(e) ==> e == DecodeError::UnexpectedPacket,
    {
        if let Login::EncryptionResponse(inner) = self {
            Ok(inner)
        } else {
            Err(DecodeError::UnexpectedPacket)
        }
    }

    /// The plugin response this packet is expected to be, or an error.
    pub fn assume_plugin_response(self) -> (r: Result<PluginResponse, DecodeError>)
        ensures
            (r is Ok) <==> (self matches Login::PluginResponse(_)),
            r matches Ok(p) ==> self == Login::PluginResponse(p),
            r matches Err(e) ==> e == DecodeError::UnexpectedPacket,
    {
        if let Login::PluginResponse(inner) = self {
            Ok(inner)
        } else {
            Err(DecodeError::UnexpectedPacket)
        }
    }
}

/// A client's acknowledgement of a position synchronisation.
#[derive(Debug, PartialEq, Eq, Clone, Copy, Hash, Structural)]
pub struct ConfirmTeleportation {
    pub teleport_id: VarInt,
}

impl View for ConfirmTeleportation {
    type V = ConfirmTeleportation;

    open spec fn view(&self) -> ConfirmTeleportation {
        *self
    }
}

impl ServerBoundPacket for ConfirmTeleportation {
    open spec fn packet_id_spec() -> int {
        0
    }

    fn packet_id() -> (r: i32) {
        0
    }
}

impl Encodable for ConfirmTeleportation {
    open spec fn encodable(&self) -> bool {
        true
    }

    open spec fn encoding(&self) -> Seq<u8> {
        self.teleport_id.encoding()
    }

    fn encode(&self, out: &mut Vec<u8>) -> (n: usize) {
        self.teleport_id.encode(out)
    }
}

impl Decodable for ConfirmTeleportation {
    open spec fn spec_decode(s: Seq<u8>) -> Result<(int, ConfirmTeleportation), DecodeError> {
        match VarInt::spec_decode(s) {
            Ok(p) => Ok((p.0, ConfirmTeleportation { teleport_id: p.1 })),
            Err(e) => Err(e),
        }
    }

    fn decode(f: &mut ReceivedPacket) -> (r: Result<Self, DecodeError>) {
        match VarInt::decode(f) {
            Ok(teleport_id) => Ok(ConfirmTeleportation { teleport_id }),
            Err(e) => Err(e),
        }
    }
}

impl Lossless for ConfirmTeleportation {
    proof fn lemma_round_trip(&self, tail: Seq<u8>) {
        self.teleport_id.lemma_round_trip(tail);
    }
}

/// The client's presentation settings, sent on joining and on change.
#[derive(Debug, PartialEq, Eq, Clone, Hash)]
pub struct ClientInformation {
    pub locale: String,
    pub view_distance: i8,
    pub chat_mode: VarInt,
    pub chat_colors: bool,
    pub displayed_skin_parts: u8,
    pub main_hand: VarInt,
    pub enable_text_filtering: bool,
    pub allow_server_listings: bool,
}

/// The mathematical content of a `ClientInformation`.
pub struct ClientInformationV {
    pub locale: Seq<char>,
    pub view_distance: i8,
    pub chat_mode: VarInt,
    pub chat_colors: bool,
    pub displayed_skin_parts: u8,
    pub main_hand: VarInt,
    pub enable_text_filtering: bool,
    pub allow_server_listings: bool,
}

impl View for ClientInformation {
    type V = ClientInformationV;

    open spec fn view(&self) -> ClientInformationV {
        ClientInformationV {
            locale: self.locale@,
            view_distance: self.view_distance,
            chat_mode: self.chat_mode,
            chat_colors: self.chat_colors,
            displayed_skin_parts: self.displayed_skin_parts,
            main_hand: self.main_hand,
            enable_text_filtering: self.enable_text_filtering,
            allow_server_listings: self.allow_server_listings,
        }
    }
}

impl ServerBoundPacket for ClientInformation {
    open spec fn packet_id_spec() -> int {
        0x08
    }

    fn packet_id() -> (r: i32) {
        0x08
    }
}

impl Encodable for ClientInformation {
    open spec fn encodable(&self) -> bool {
        self.locale.encodable()
    }

    open spec fn encoding(&self) -> Seq<u8> {
        self.locale.encoding() + self.view_distance.encoding() + self.chat_mode.encoding()
            + self.chat_colors.encoding() + self.displayed_skin_parts.encoding()
            + self.main_hand.encoding() + self.enable_text_filtering.encoding()
            + self.allow_server_listings.encoding()
    }

    fn encode(&self, out: &mut Vec<u8>) -> (n: usize) {
        let start = out.len();
        let _ = self.locale.encode(out);
        let _ = self.view_distance.encode(out);
        let _ = self.chat_mode.encode(out);
        let _ = self.chat_colors.encode(out);
        let _ = self.displayed_skin_parts.encode(out);
        let _ = self.main_hand.encode(out);
        let _ = self.enable_text_filtering.encode(out);
        let _ = self.allow_server_listings.encode(out);
        proof {
            if self.encodable() {
                assert(out@ =~= old(out)@ + self.encoding());
            }
            assert(old(out)@ =~= out@.take(old(out)@.len() as int));
        }
        out.len() - start
    }
}

impl Decodable for ClientInformation {
    open spec fn spec_decode(s: Seq<u8>) -> Result<(int, ClientInformationV), DecodeError> {
        match String::spec_decode(s) {
            Ok(p1) => match i8::spec_decode(s.skip(p1.0)) {
                Ok(p2) => match VarInt::spec_decode(s.skip(p1.0 + p2.0)) {
                    Ok(p3) => match bool::spec_decode(s.skip(p1.0 + p2.0 + p3.0)) {
                        Ok(p4) => match u8::spec_decode(s.skip(p1.0 + p2.0 + p3.0 + p4.0)) {
                            Ok(p5) => match VarInt::spec_decode(
                                s.skip(p1.0 + p2.0 + p3.0 + p4.0 + p5.0),
                            ) {
                                Ok(p6) => match bool::spec_decode(
                                    s.skip(p1.0 + p2.0 + p3.0 + p4.0 + p5.0 + p6.0),
                                ) {
                                    Ok(p7) => match bool::spec_decode(
                                        s.skip(p1.0 + p2.0 + p3.0 + p4.0 + p5.0 + p6.0 + p7.0),
                                    ) {
                                        Ok(p8) => Ok(
                                            (
                                                p1.0 + p2.0 + p3.0 + p4.0 + p5.0 + p6.0 + p7.0
                                                    + p8.0,
                                                ClientInformationV {
                                                    locale: p1.1,
                                                    view_distance: p2.1,
                                                    chat_mode: p3.1,
                                                    chat_colors: p4.1,
                                                    displayed_skin_parts: p5.1,
                                                    main_hand: p6.1,
                                                    enable_text_filtering: p7.1,
                                                    allow_server_listings: p8.1,
                                                },
                                            ),
                                        ),
                                        Err(e) => Err(e),
                                    },
                                    Err(e) => Err(e),
                                },
                                Err(e) => Err(e),
                            },
                            Err(e) => Err(e),
                        },
                        Err(e) => Err(e),
                    },
                    Err(e) => Err(e),
                },
                Err(e) => Err(e),
            },
            Err(e) => Err(e),
        }
    }

    fn decode(f: &mut ReceivedPacket) -> (r: Result<Self, DecodeError>) {
        let ghost s = old(f).rest();
        let locale = match String::decode(f) {
            Ok(v) => v,
            Err(e) => {
                return Err(e);
            },
        };
        proof {
            let p1 = String::spec_decode(s).unwrap();
            assert(f.rest() =~= s.skip(p1.0));
        }
        let view_distance = match i8::decode(f) {
            Ok(v) => v,
            Err(e) => {
                return Err(e);
            },
        };
        proof {
            let p1 = String::spec_decode(s).unwrap();
            let p2 = i8::spec_decode(s.skip(p1.0)).unwrap();
            assert(f.rest() =~= s.skip(p1.0 + p2.0));
        }
        let chat_mode = match VarInt::decode(f) {
            Ok(v) => v,
            Err(e) => {
                return Err(e);
            },
        };
        proof {
            let p1 = String::spec_decode(s).unwrap();
            let p2 = i8::spec_decode(s.skip(p1.0)).unwrap();
            let p3 = VarInt::spec_decode(s.skip(p1.0 + p2.0)).unwrap();
            assert(f.rest() =~= s.skip(p1.0 + p2.0 + p3.0));
        }
        let chat_colors = match bool::decode(f) {
            Ok(v) => v,
            Err(e) => {
                return Err(e);
            },
        };
        proof {
            let p1 = String::spec_decode(s).unwrap();
            let p2 = i8::spec_decode(s.skip(p1.0)).unwrap();
            let p3 = VarInt::spec_decode(s.skip(p1.0 + p2.0)).unwrap();
            let p4 = bool::spec_decode(s.skip(p1.0 + p2.0 + p3.0)).unwrap();
            assert(f.rest() =~= s.skip(p1.0 + p2.0 + p3.0 + p4.0));
        }
        let displayed_skin_parts = match u8::decode(f) {
            Ok(v) => v,
            Err(e) => {
                return Err(e);
            },
        };
        proof {
            let p1 = String::spec_decode(s).unwrap();
            let p2 = i8::spec_decode(s.skip(p1.0)).unwrap();
            let p3 = VarInt::spec_decode(s.skip(p1.0 + p2.0)).unwrap();
            let p4 = bool::spec_decode(s.skip(p1.0 + p2.0 + p3.0)).unwrap();
            let p5 = u8::spec_decode(s.skip(p1.0 + p2.0 + p3.0 + p4.0)).unwrap();
            assert(f.rest() =~= s.skip(p1.0 + p2.0 + p3.0 + p4.0 + p5.0));
        }
        let main_hand = match VarInt::decode(f) {
            Ok(v) => v,
            Err(e) => {
                return Err(e);
            },
        };
        proof {
            let p1 = String::spec_decode(s).unwrap();
            let p2 = i8::spec_decode(s.skip(p1.0)).unwrap();
            let p3 = VarInt::spec_decode(s.skip(p1.0 + p2.0)).unwrap();
            let p4 = bool::spec_decode(s.skip(p1.0 + p2.0 + p3.0)).unwrap();
            let p5 = u8::spec_decode(s.skip(p1.0 + p2.0 + p3.0 + p4.0)).unwrap();
            let p6 = VarInt::spec_decode(s.skip(p1.0 + p2.0 + p3.0 + p4.0 + p5.0)).unwrap();
            assert(f.rest() =~= s.skip(p1.0 + p2.0 + p3.0 + p4.0 + p5.0 + p6.0));
        }
        let enable_text_filtering = match bool::decode(f) {
            Ok(v) => v,
            Err(e) => {
                return Err(e);
            },
        };
        proof {
            let p1 = String::spec_decode(s).unwrap();
            let p2 = i8::spec_decode(s.skip(p1.0)).unwrap();
            let p3 = VarInt::spec_decode(s.skip(p1.0 + p2.0)).unwrap();
            let p4 = bool::spec_decode(s.skip(p1.0 + p2.0 + p3.0)).unwrap();
            let p5 = u8::spec_decode(s.skip(p1.0 + p2.0 + p3.0 + p4.0)).unwrap();
            let p6 = VarInt::spec_decode(s.skip(p1.0 + p2.0 + p3.0 + p4.0 + p5.0)).unwrap();
            let p7 = bool::spec_decode(s.skip(p1.0 + p2.0 + p3.0 + p4.0 + p5.0 + p6.0)).unwrap();
            assert(f.rest() =~= s.skip(p1.0 + p2.0 + p3.0 + p4.0 + p5.0 + p6.0 + p7.0));
        }
        let allow_server_listings = match bool::decode(f) {
            Ok(v) => v,
            Err(e) => {
                return Err(e);
            },
        };
        Ok(
            ClientInformation {
                locale,
                view_distance,
                chat_mode,
                chat_colors,
                displayed_skin_parts,
                main_hand,
                enable_text_filtering,
                allow_server_listings,
            },
        )
    }
}

impl Lossless for ClientInformation {
    #[verifier::rlimit(100)]
    proof fn lemma_round_trip(&self, tail: Seq<u8>) {
        let e1 = self.locale.encoding();
        let e2 = self.view_distance.encoding();
        let e3 = self.chat_mode.encoding();
        let e4 = self.chat_colors.encoding();
        let e5 = self.displayed_skin_parts.encoding();
        let e6 = self.main_hand.encoding();
        let e7 = self.enable_text_filtering.encoding();
        let e8 = self.allow_server_listings.encoding();
        let s = self.encoding() + tail;
        let t8 = tail;
        let t7 = e8 + t8;
        let t6 = e7 + t7;
        let t5 = e6 + t6;
        let t4 = e5 + t5;
        let t3 = e4 + t4;
        let t2 = e3 + t3;
        let t1 = e2 + t2;
        let n1 = e1.len() as int;
        let n2 = e2.len() as int;
        let n3 = e3.len() as int;
        let n4 = e4.len() as int;
        let n5 = e5.len() as int;
        let n6 = e6.len() as int;
        let n7 = e7.len() as int;
        assert(s =~= e1 + t1);
        self.locale.lemma_round_trip(t1);
        crate::lemma_concat_skip(e1, t1);
        self.view_distance.lemma_round_trip(t2);
        crate::lemma_concat_skip(e2, t2);
        crate::lemma_skip_skip(s, n1, n2);
        self.chat_mode.lemma_round_trip(t3);
        crate::lemma_concat_skip(e3, t3);
        crate::lemma_skip_skip(s, n1 + n2, n3);
        self.chat_colors.lemma_round_trip(t4);
        crate::lemma_concat_skip(e4, t4);
        crate::lemma_skip_skip(s, n1 + n2 + n3, n4);
        self.displayed_skin_parts.lemma_round_trip(t5);
        crate::lemma_concat_skip(e5, t5);
        crate::lemma_skip_skip(s, n1 + n2 + n3 + n4, n5);
        self.main_hand.lemma_round_trip(t6);
        crate::lemma_concat_skip(e6, t6);
        crate::lemma_skip_skip(s, n1 + n2 + n3 + n4 + n5, n6);
        self.enable_text_filtering.lemma_round_trip(t7);
        crate::lemma_concat_skip(e7, t7);
        crate::lemma_skip_skip(s, n1 + n2 + n3 + n4 + n5 + n6, n7);
        self.allow_server_listings.lemma_round_trip(t8);
        crate::lemma_concat_skip(e8, t8);
    }
}

/// A named channel's payload from the client; the payload runs to the end
/// of the frame.
#[derive(Debug, PartialEq, Eq, Hash)]
pub struct PluginMessage {
    pub channel: Identifier,
    pub data: Array<PacketInferredInBytes, u8>,
}

/// The mathematical content of a `PluginMessage`.
pub struct PluginMessageV {
    pub channel: Seq<char>,
    pub data: Seq<u8>,
}

impl View for PluginMessage {
    type V = PluginMessageV;

    open spec fn view(&self) -> PluginMessageV {
        PluginMessageV { channel: self.channel@, data: self.data@ }
    }
}

impl ServerBoundPacket for PluginMessage {
    open spec fn packet_id_spec() -> int {
        0x0d
    }

    fn packet_id() -> (r: i32) {
        0x0d
    }
}

impl Encodable for PluginMessage {
    open spec fn encodable(&self) -> bool {
        self.channel.encodable() && self.data.encodable()
    }

    open spec fn encoding(&self) -> Seq<u8> {
        self.channel.encoding() + self.data.encoding()
    }

    fn encode(&self, out: &mut Vec<u8>) -> (n: usize) {
        let start = out.len();
        let _ = self.channel.encode(out);
        let _ = self.data.encode(out);
        proof {
            if self.encodable() {
                assert(out@ =~= old(out)@ + self.encoding());
            }
            assert(old(out)@ =~= out@.take(old(out)@.len() as int));
        }
        out.len() - start
    }
}

impl Decodable for PluginMessage {
    open spec fn spec_decode(s: Seq<u8>) -> Result<(int, PluginMessageV), DecodeError> {
        match Identifier::spec_decode(s) {
            Ok(p1) => match Array::<PacketInferredInBytes, u8>::spec_decode(s.skip(p1.0)) {
                Ok(p2) => Ok((p1.0 + p2.0, PluginMessageV { channel: p1.1, data: p2.1 })),
                Err(e) => Err(e),
            },
            Err(e) => Err(e),
        }
    }

    fn decode(f: &mut ReceivedPacket) -> (r: Result<Self, DecodeError>) {
        let ghost s = old(f).rest();
        let channel = match Identifier::decode(f) {
            Ok(v) => v,
            Err(e) => {
                return Err(e);
            },
        };
        proof {
            let p1 = Identifier::spec_decode(s).unwrap();
            assert(f.rest() =~= s.skip(p1.0));
        }
        let data = match Array::<PacketInferredInBytes, u8>::decode(f) {
            Ok(v) => v,
            Err(e) => {
                return Err(e);
            },
        };
        Ok(PluginMessage { channel, data })
    }
}

impl PluginMessage {
    /// Decoding a plugin message from exactly its own encoding gives the
    /// message back. Because its payload runs to the end of the frame, the
    /// law holds of the whole frame rather than of every prefix.
    pub proof fn lemma_round_trip_exact(&self)
        requires
            self.encodable(),
        ensures
            Self::spec_decode(self.encoding()) == Ok::<(int, PluginMessageV), DecodeError>(
                (self.encoding().len() as int, self@),
            ),
    {
        let e1 = self.channel.encoding();
        let e2 = self.data.encoding();
        let s = self.encoding();
        assert(s =~= e1 + e2);
        self.channel.lemma_round_trip(e2);
        assert(s.skip(e1.len() as int) =~= e2);
        assert(e2 =~= crate::primitive::array::seq_encoding(self.data.inner@));
        crate::primitive::array::lemma_to_end_round_trip(self.data.inner@);
    }
}

/// The player's feet position, sent while on the move.
#[derive(Debug, PartialEq, Eq, Clone, Copy, Hash, Structural)]
pub struct SetPlayerPosition {
    pub x: F64Bits,
    pub feet_y: F64Bits,
    pub z: F64Bits,
    pub on_ground: bool,
}

impl View for SetPlayerPosition {
    type V = SetPlayerPosition;

    open spec fn view(&self) -> SetPlayerPosition {
        *self
    }
}

impl ServerBoundPacket for SetPlayerPosition {
    open spec fn packet_id_spec() -> int {
        0x14
    }

    fn packet_id() -> (r: i32) {
        0x14
    }
}

impl Encodable for SetPlayerPosition {
    open spec fn encodable(&self) -> bool {
        true
    }

    open spec fn encoding(&self) -> Seq<u8> {
        self.x.encoding() + self.feet_y.encoding() + self.z.encoding() + self.on_ground.encoding()
    }

    fn encode(&self, out: &mut Vec<u8>) -> (n: usize) {
        let start = out.len();
        let _ = self.x.encode(out);
        let _ = self.feet_y.encode(out);
        let _ = self.z.encode(out);
        let _ = self.on_ground.encode(out);
        proof {
            assert(out@ =~= old(out)@ + self.encoding());
            assert(old(out)@ =~= out@.take(old(out)@.len() as int));
        }
        out.len() - start
    }
}

impl Decodable for SetPlayerPosition {
    open spec fn spec_decode(s: Seq<u8>) -> Result<(int, SetPlayerPosition), DecodeError> {
        match F64Bits::spec_decode(s) {
            Ok(p1) => match F64Bits::spec_decode(s.skip(p1.0)) {
                Ok(p2) => match F64Bits::spec_decode(s.skip(p1.0 + p2.0)) {
                    Ok(p3) => match bool::spec_decode(s.skip(p1.0 + p2.0 + p3.0)) {
                        Ok(p4) => Ok(
                            (
                                p1.0 + p2.0 + p3.0 + p4.0,
                                SetPlayerPosition {
                                    x: p1.1,
                                    feet_y: p2.1,
                                    z: p3.1,
                                    on_ground: p4.1,
                                },
                            ),
                        ),
                        Err(e) => Err(e),
                    },
                    Err(e) => Err(e),
                },
                Err(e) => Err(e),
            },
            Err(e) => Err(e),
        }
    }

    fn decode(f: &mut ReceivedPacket) -> (r: Result<Self, DecodeError>) {
        let ghost s = old(f).rest();
        let x = match F64Bits::decode(f) {
            Ok(v) => v,
            Err(e) => {
                return Err(e);
            },
        };
        proof {
            let p1 = F64Bits::spec_decode(s).unwrap();
            assert(f.rest() =~= s.skip(p1.0));
        }
        let feet_y = match F64Bits::decode(f) {
            Ok(v) => v,
            Err(e) => {
                return Err(e);
            },
        };
        proof {
            let p1 = F64Bits::spec_decode(s).unwrap();
            let p2 = F64Bits::spec_decode(s.skip(p1.0)).unwrap();
            assert(f.rest() =~= s.skip(p1.0 + p2.0));
        }
        let z = match F64Bits::decode(f) {
            Ok(v) => v,
            Err(e) => {
                return Err(e);
            },
        };
        proof {
            let p1 = F64Bits::spec_decode(s).unwrap();
            let p2 = F64Bits::spec_decode(s.skip(p1.0)).unwrap();
            let p3 = F64Bits::spec_decode(s.skip(p1.0 + p2.0)).unwrap();
            assert(f.rest() =~= s.skip(p1.0 + p2.0 + p3.0));
        }
        let on_ground = match bool::decode(f) {
            Ok(v) => v,
            Err(e) => {
                return Err(e);
            },
        };
        Ok(SetPlayerPosition { x, feet_y, z, on_ground })
    }
}

impl Lossless for SetPlayerPosition {
    proof fn lemma_round_trip(&self, tail: Seq<u8>) {
        let e1 = self.x.encoding();
        let e2 = self.feet_y.encoding();
        let e3 = self.z.encoding();
        let e4 = self.on_ground.encoding();
        let s = self.encoding() + tail;
        assert(s =~= e1 + (e2 + (e3 + (e4 + tail))));
        self.x.lemma_round_trip(e2 + (e3 + (e4 + tail)));
        assert(s.skip(e1.len() as int) =~= e2 + (e3 + (e4 + tail)));
        self.feet_y.lemma_round_trip(e3 + (e4 + tail));
        assert(s.skip(e1.len() + e2.len() as int) =~= e3 + (e4 + tail));
        self.z.lemma_round_trip(e4 + tail);
        assert(s.skip(e1.len() + e2.len() + e3.len() as int) =~= e4 + tail);
        self.on_ground.lemma_round_trip(tail);
    }
}

/// The player's feet position and view direction, sent while on the move.
#[derive(Debug, PartialEq, Eq, Clone, Copy, Hash, Structural)]
pub struct SetPlayerPositionAndRotation {
    pub x: F64Bits,
    pub feet_y: F64Bits,
    pub z: F64Bits,
    pub yaw: F32Bits,
    pub pitch: F32Bits,
    pub on_ground: bool,
}

impl View for SetPlayerPositionAndRotation {
    type V = SetPlayerPositionAndRotation;

    open spec fn view(&self) -> SetPlayerPositionAndRotation {
        *self
    }
}

impl ServerBoundPacket for SetPlayerPositionAndRotation {
    open spec fn packet_id_spec() -> int {
        0x15
    }

    fn packet_id() -> (r: i32) {
        0x15
    }
}

impl Encodable for SetPlayerPositionAndRotation {
    open spec fn encodable(&self) -> bool {
        true
    }

    open spec fn encoding(&self) -> Seq<u8> {
        self.x.encoding() + self.feet_y.encoding() + self.z.encoding() + self.yaw.encoding()
            + self.pitch.encoding() + self.on_ground.encoding()
    }

    fn encode(&self, out: &mut Vec<u8>) -> (n: usize) {
        let start = out.len();
        let _ = self.x.encode(out);
        let _ = self.feet_y.encode(out);
        let _ = self.z.encode(out);
        let _ = self.yaw.encode(out);
        let _ = self.pitch.encode(out);
        let _ = self.on_ground.encode(out);
        proof {
            assert(out@ =~= old(out)@ + self.encoding());
            assert(old(out)@ =~= out@.take(old(out)@.len() as int));
        }
        out.len() - start
    }
}

impl Decodable for SetPlayerPositionAndRotation {
    open spec fn spec_decode(s: Seq<u8>) -> Result<
        (int, SetPlayerPositionAndRotation),
        DecodeError,
    > {
        match F64Bits::spec_decode(s) {
            Ok(p1) => match F64Bits::spec_decode(s.skip(p1.0)) {
                Ok(p2) => match F64Bits::spec_decode(s.skip(p1.0 + p2.0)) {
                    Ok(p3) => match F32Bits::spec_decode(s.skip(p1.0 + p2.0 + p3.0)) {
                        Ok(p4) => match F32Bits::spec_decode(s.skip(p1.0 + p2.0 + p3.0 + p4.0)) {
                            Ok(p5) => match bool::spec_decode(
                                s.skip(p1.0 + p2.0 + p3.0 + p4.0 + p5.0),
                            ) {
                                Ok(p6) => Ok(
                                    (
                                        p1.0 + p2.0 + p3.0 + p4.0 + p5.0 + p6.0,
                                        SetPlayerPositionAndRotation {
                                            x: p1.1,
                                            feet_y: p2.1,
                                            z: p3.1,
                                            yaw: p4.1,
                                            pitch: p5.1,
                                            on_ground: p6.1,
                                        },
                                    ),
                                ),
                                Err(e) => Err(e),
                            },
                            Err(e) => Err(e),
                        },
                        Err(e) => Err(e),
                    },
                    Err(e) => Err(e),
                },
                Err(e) => Err(e),
            },
            Err(e) => Err(e),
        }
    }

    fn decode(f: &mut ReceivedPacket) -> (r: Result<Self, DecodeError>) {
        let ghost s = old(f).rest();
        let x = match F64Bits::decode(f) {
            Ok(v) => v,
            Err(e) => {
                return Err(e);
            },
        };
        proof {
            let p1 = F64Bits::spec_decode(s).unwrap();
            assert(f.rest() =~= s.skip(p1.0));
        }
        let feet_y = match F64Bits::decode(f) {
            Ok(v) => v,
            Err(e) => {
                return Err(e);
            },
        };
        proof {
            let p1 = F64Bits::spec_decode(s).unwrap();
            let p2 = F64Bits::spec_decode(s.skip(p1.0)).unwrap();
            assert(f.rest() =~= s.skip(p1.0 + p2.0));
        }
        let z = match F64Bits::decode(f) {
            Ok(v) => v,
            Err(e) => {
                return Err(e);
            },
        };
        proof {
            let p1 = F64Bits::spec_decode(s).unwrap();
            let p2 = F64Bits::spec_decode(s.skip(p1.0)).unwrap();
            let p3 = F64Bits::spec_decode(s.skip(p1.0 + p2.0)).unwrap();
            assert(f.rest() =~= s.skip(p1.0 + p2.0 + p3.0));
        }
        let yaw = match F32Bits::decode(f) {
            Ok(v) => v,
            Err(e) => {
                return Err(e);
            },
        };
        proof {
            let p1 = F64Bits::spec_decode(s).unwrap();
            let p2 = F64Bits::spec_decode(s.skip(p1.0)).unwrap();
            let p3 = F64Bits::spec_decode(s.skip(p1.0 + p2.0)).unwrap();
            let p4 = F32Bits::spec_decode(s.skip(p1.0 + p2.0 + p3.0)).unwrap();
            assert(f.rest() =~= s.skip(p1.0 + p2.0 + p3.0 + p4.0));
        }
        let pitch = match F32Bits::decode(f) {
            Ok(v) => v,
            Err(e) => {
                return Err(e);
            },
        };
        proof {
            let p1 = F64Bits::spec_decode(s).unwrap();
            let p2 = F64Bits::spec_decode(s.skip(p1.0)).unwrap();
            let p3 = F64Bits::spec_decode(s.skip(p1.0 + p2.0)).unwrap();
            let p4 = F32Bits::spec_decode(s.skip(p1.0 + p2.0 + p3.0)).unwrap();
            let p5 = F32Bits::spec_decode(s.skip(p1.0 + p2.0 + p3.0 + p4.0)).unwrap();
            assert(f.rest() =~= s.skip(p1.0 + p2.0 + p3.0 + p4.0 + p5.0));
        }
        let on_ground = match bool::decode(f) {
            Ok(v) => v,
            Err(e) => {
                return Err(e);
            },
        };
        Ok(SetPlayerPositionAndRotation { x, feet_y, z, yaw, pitch, on_ground })
    }
}

impl Lossless for SetPlayerPositionAndRotation {
    #[verifier::rlimit(100)]
    proof fn lemma_round_trip(&self, tail: Seq<u8>) {
        let e1 = self.x.encoding();
        let e2 = self.feet_y.encoding();
        let e3 = self.z.encoding();
        let e4 = self.yaw.encoding();
        let e5 = self.pitch.encoding();
        let e6 = self.on_ground.encoding();
        let t6 = tail;
        let t5 = e6 + t6;
        let t4 = e5 + t5;
        let t3 = e4 + t4;
        let t2 = e3 + t3;
        let t1 = e2 + t2;
        let s = self.encoding() + tail;
        assert(s =~= e1 + t1);
        self.x.lemma_round_trip(t1);
        assert(s.skip(e1.len() as int) =~= e2 + t2);
        self.feet_y.lemma_round_trip(t2);
        assert(s.skip(e1.len() + e2.len() as int) =~= e3 + t3);
        self.z.lemma_round_trip(t3);
        assert(s.skip(e1.len() + e2.len() + e3.len() as int) =~= e4 + t4);
        self.yaw.lemma_round_trip(t4);
        assert(s.skip(e1.len() + e2.len() + e3.len() + e4.len() as int) =~= e5 + t5);
        self.pitch.lemma_round_trip(t5);
        assert(s.skip(e1.len() + e2.len() + e3.len() + e4.len() + e5.len() as int) =~= e6 + t6);
        self.on_ground.lemma_round_trip(t6);
    }
}

/// The packets a client may send while the connection is in play.
#[derive(Debug)]
pub enum Play {
    ConfirmTeleportation(ConfirmTeleportation),
    ClientInformation(ClientInformation),
    PluginMessage(PluginMessage),
    SetPlayerPosition(SetPlayerPosition),
    SetPlayerPositionAndRotation(SetPlayerPositionAndRotation),
}

/// The mathematical content of a `Play` packet.
pub enum PlayV {
    ConfirmTeleportation(ConfirmTeleportation),
    ClientInformation(ClientInformationV),
    PluginMessage(PluginMessageV),
    SetPlayerPosition(SetPlayerPosition),
    SetPlayerPositionAndRotation(SetPlayerPositionAndRotation),
}

impl View for Play {
    type V = PlayV;

    open spec fn view(&self) -> PlayV {
        match self {
            Play::ConfirmTeleportation(p) => PlayV::ConfirmTeleportation(*p),
            Play::ClientInformation(p) => PlayV::ClientInformation(p@),
            Play::PluginMessage(p) => PlayV::PluginMessage(p@),
            Play::SetPlayerPosition(p) => PlayV::SetPlayerPosition(*p),
            Play::SetPlayerPositionAndRotation(p) => PlayV::SetPlayerPositionAndRotation(*p),
        }
    }
}

impl PacketCluster for Play {
    open spec fn spec_parse_with_id(id: i32, s: Seq<u8>) -> Result<(int, PlayV), DecodeError> {
        if id == 0x00 {
            match ConfirmTeleportation::spec_decode(s) {
                Ok(p) => Ok((p.0, PlayV::ConfirmTeleportation(p.1))),
                Err(e) => Err(e),
            }
        } else if id == 0x08 {
            match ClientInformation::spec_decode(s) {
                Ok(p) => Ok((p.0, PlayV::ClientInformation(p.1))),
                Err(e) => Err(e),
            }
        } else if id == 0x0d {
            match PluginMessage::spec_decode(s) {
                Ok(p) => Ok((p.0, PlayV::PluginMessage(p.1))),
                Err(e) => Err(e),
            }
        } else if id == 0x14 {
            match SetPlayerPosition::spec_decode(s) {
                Ok(p) => Ok((p.0, PlayV::SetPlayerPosition(p.1))),
                Err(e) => Err(e),
            }
        } else if id == 0x15 {
            match SetPlayerPositionAndRotation::spec_decode(s) {
                Ok(p) => Ok((p.0, PlayV::SetPlayerPositionAndRotation(p.1))),
                Err(e) => Err(e),
            }
        } else {
            Err(DecodeError::UnknownPacketId(id, State::Play))
        }
    }

    fn parse_with_id(id: i32, f: &mut ReceivedPacket) -> (r: Result<Self, DecodeError>) {
        if id == 0x00 {
            match ConfirmTeleportation::decode(f) {
                Ok(p) => Ok(Play::ConfirmTeleportation(p)),
                Err(e) => Err(e),
            }
        } else if id == 0x08 {
            match ClientInformation::decode(f) {
                Ok(p) => Ok(Play::ClientInformation(p)),
                Err(e) => Err(e),
            }
        } else if id == 0x0d {
            match PluginMessage::decode(f) {
                Ok(p) => Ok(Play::PluginMessage(p)),
                Err(e) => Err(e),
            }
        } else if id == 0x14 {
            match SetPlayerPosition::decode(f) {
                Ok(p) => Ok(Play::SetPlayerPosition(p)),
                Err(e) => Err(e),
            }
        } else if id == 0x15 {
            match SetPlayerPositionAndRotation::decode(f) {
                Ok(p) => Ok(Play::SetPlayerPositionAndRotation(p)),
                Err(e) => Err(e),
            }
        } else {
            Err(DecodeError::UnknownPacketId(id, State::Play))
        }
    }
}

impl Play {
    /// The teleport acknowledgement this packet is expected to be.
    pub fn assume_confirm_teleportation(self) -> (r: Result<ConfirmTeleportation, DecodeError>)
        ensures
            (r is Ok) <==> (self matches Play::ConfirmTeleportation(_)),
            r matches Ok(p) ==> self == Play::ConfirmTeleportation(p),
            r matches Err(e) ==> e == DecodeError::UnexpectedPacket,
    {
        if let Play::ConfirmTeleportation(inner) = self {
            Ok(inner)
        } else {
            Err(DecodeError::UnexpectedPacket)
        }
    }

    /// The client information this packet is expected to be.
    pub fn assume_client_information(self) -> (r: Result<ClientInformation, DecodeError>)
        ensures
            (r is Ok) <==> (self matches Play::ClientInformation(_)),
            r matches Ok(p) ==> self == Play::ClientInformation(p),
            r matches Err(e) ==> e == DecodeError::UnexpectedPacket,
    {
        if let Play::ClientInformation(inner) = self {
            Ok(inner)
        } else {
            Err(DecodeError::UnexpectedPacket)
        }
    }

    /// The plugin message this packet is expected to be.
    pub fn assume_plugin_message(self) -> (r: Result<PluginMessage, DecodeError>)
        ensures
            (r is Ok) <==> (self matches Play::PluginMessage(_)),
            r matches Ok(p) ==> self == Play::PluginMessage(p),
            r matches Err(e) ==> e == DecodeError::UnexpectedPacket,
    {
        if let Play::PluginMessage(inner) = self {
            Ok(inner)
        } else {
            Err(DecodeError::UnexpectedPacket)
        }
    }

    /// The position update this packet is expected to be.
    pub fn assume_set_player_position(self) -> (r: Result<SetPlayerPosition, DecodeError>)
        ensures
            (r is Ok) <==> (self matches Play::SetPlayerPosition(_)),
            r matches Ok(p) ==> self == Play::SetPlayerPosition(p),
            r matches Err(e) ==> e == DecodeError::UnexpectedPacket,
    {
        if let Play::SetPlayerPosition(inner) = self {
            Ok(inner)
        } else {
            Err(DecodeError::UnexpectedPacket)
        }
    }

    /// The position-and-rotation update this packet is expected to be.
    pub fn assume_set_player_position_and_rotation(self) -> (r: Result<
        SetPlayerPositionAndRotation,
        DecodeError,
    >)
        ensures
            (r is Ok) <==> (self matches Play::SetPlayerPositionAndRotation(_)),
            r matches Ok(p) ==> self == Play::SetPlayerPositionAndRotation(p),
            r matches Err(e) ==> e == DecodeError::UnexpectedPacket,
    {
        if let Play::SetPlayerPositionAndRotation(inner) = self {
            Ok(inner)
        } else {
            Err(DecodeError::UnexpectedPacket)
        }
    }
}

} // verus!
