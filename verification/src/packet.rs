use vstd::prelude::*;

pub mod packet_id;

use crate::Decodable;
use crate::DecodeError;
use crate::Encodable;
use crate::ReceivedPacket;
use crate::client::ClientState;
use crate::primitive::Uuid;
use crate::primitive::leb128;
use crate::primitive::leb128::spec_read_var_int;
use packet_id::PacketId;

verus! {

/// The state a handshake asks to continue in, read from its trailing
/// value: 1 is a status query, 2 begins a login.
#[derive(Debug, PartialEq, Eq, Clone, Copy, Structural)]
pub enum HandshakeNextState {
    Status,
    Login,
}

/// The two standard feature flags, as the driver's fixed list.
#[derive(Debug, PartialEq, Eq, Clone, Copy, Structural)]
pub enum FeatureFlags {
    Vanilla,
    Bundle,
}

/// The identifier text a feature flag is sent as.
pub open spec fn feature_flag_chars(f: FeatureFlags) -> Seq<char> {
    match f {
        FeatureFlags::Vanilla => "minecraft:vanilla"@,
        FeatureFlags::Bundle => "minecraft:bundle"@,
    }
}

impl FeatureFlags {
    /// The namespaced identifier this flag travels as.
    pub fn to_ident(self) -> (r: &'static str)
        ensures
            r@ == feature_flag_chars(self),
    {
        match self {
            Self::Vanilla => "minecraft:vanilla",
            Self::Bundle => "minecraft:bundle",
        }
    }
}

/// A world entity's numeric identity.
#[derive(Debug, PartialEq, Eq, Clone, Copy, Structural)]
pub struct EntityId {
    pub id: i32,
}

/// A crafting recipe; none is carried yet.
#[derive(Debug)]
pub struct Recipes();

/// The outcome of reading the fixed handshake field sequence from `s`:
/// the byte count, the packet id, the protocol version, the address, the
/// port, and the raw next-state value.
pub open spec fn spec_handshake_fields(s: Seq<u8>) -> Result<
    (int, i32, i32, Seq<char>, u16, i32),
    DecodeError,
> {
    match spec_read_var_int(s) {
        Ok(p1) => match spec_read_var_int(s.skip(p1.0)) {
            Ok(p2) => match String::spec_decode(s.skip(p1.0 + p2.0)) {
                Ok(p3) => match u16::spec_decode(s.skip(p1.0 + p2.0 + p3.0)) {
                    Ok(p4) => match spec_read_var_int(s.skip(p1.0 + p2.0 + p3.0 + p4.0)) {
                        Ok(p5) => Ok(
                            (p1.0 + p2.0 + p3.0 + p4.0 + p5.0, p1.1, p2.1, p3.1, p4.1, p5.1),
                        ),
                        Err(e) => Err(e),
                    },
                    Err(e) => Err(e),
                },
                Err(e) => Err(e),
            },
            Err(e) => Err(e),
        },
        Err(e) => Err(e),
    }
}

/// A cursor over one received frame, together with the client state that
/// selects how packet ids are interpreted.
#[derive(Debug)]
pub struct PacketParser {
    state: ClientState,
    packet_data: ReceivedPacket,
}

impl PacketParser {
    /// The client state the parser reads under.
    pub closed spec fn state_spec(&self) -> ClientState {
        self.state
    }

    /// The bytes not yet consumed.
    pub closed spec fn rest_spec(&self) -> Seq<u8> {
        self.packet_data.rest()
    }

    /// The cursor is inside its buffer.
    pub closed spec fn wf(&self) -> bool {
        self.packet_data.wf()
    }

    /// Wrap a frame's bytes for parsing under the given state.
    pub fn from_state_vec(state: ClientState, v: Vec<u8>) -> (r: Self)
        ensures
            r.wf(),
            r.state_spec() == state,
            r.rest_spec() == v@,
    {
        Self { state, packet_data: ReceivedPacket::new(v) }
    }

    /// Read one big-endian unsigned 16-bit value.
    pub fn read_unsigned_short(&mut self) -> (r: Result<u16, DecodeError>)
        requires
            old(self).wf(),
        ensures
            final(self).wf(),
            final(self).state_spec() == old(self).state_spec(),
            match u16::spec_decode(old(self).rest_spec()) {
                Ok(p) => r matches Ok(v) && v == p.1 && final(self).rest_spec() == old(self).rest_spec().skip(p.0) && 0 <= p.0 <= old(self).rest_spec().len(),
                Err(e) => r matches Err(e2) && e2 == e,
            },
    {
        let r = u16::decode(&mut self.packet_data);
        proof {
            if u16::spec_decode(old(self).rest_spec()) is Ok {
                let p = u16::spec_decode(old(self).rest_spec()).unwrap();
                assert(self.packet_data.rest() =~= old(self).rest_spec().skip(p.0));
            }
        }
        r
    }

    /// Read one variable-length integer, yielding its value.
    pub fn read_var_int(&mut self) -> (r: Result<i32, DecodeError>)
        requires
            old(self).wf(),
        ensures
            final(self).wf(),
            final(self).state_spec() == old(self).state_spec(),
            match spec_read_var_int(old(self).rest_spec()) {
                Ok(p) => r matches Ok(v) && v == p.1 && final(self).rest_spec() == old(self).rest_spec().skip(p.0) && 0 <= p.0 <= old(self).rest_spec().len(),
                Err(e) => r matches Err(e2) && e2 == e,
            },
    {
        let r = leb128::read_var_int(&mut self.packet_data);
        proof {
            if spec_read_var_int(old(self).rest_spec()) is Ok {
                let p = spec_read_var_int(old(self).rest_spec()).unwrap();
                assert(self.packet_data.rest() =~= old(self).rest_spec().skip(p.0));
            }
        }
        match r {
            Ok(p) => Ok(p.1),
            Err(e) => Err(e),
        }
    }

    /// Read one length-prefixed UTF-8 string.
    pub fn read_string(&mut self) -> (r: Result<String, DecodeError>)
        requires
            old(self).wf(),
        ensures
            final(self).wf(),
            final(self).state_spec() == old(self).state_spec(),
            match String::spec_decode(old(self).rest_spec()) {
                Ok(p) => r matches Ok(v) && v@ == p.1 && final(self).rest_spec() == old(self).rest_spec().skip(p.0) && 0 <= p.0 <= old(self).rest_spec().len(),
                Err(e) => r matches Err(e2) && e2 == e,
            },
    {
        let r = String::decode(&mut self.packet_data);
        proof {
            if String::spec_decode(old(self).rest_spec()) is Ok {
                let p = String::spec_decode(old(self).rest_spec()).unwrap();
                assert(self.packet_data.rest() =~= old(self).rest_spec().skip(p.0));
            }
        }
        r
    }

    /// Read one UUID: sixteen big-endian bytes.
    pub fn read_uuid(&mut self) -> (r: Result<Uuid, DecodeError>)
        requires
            old(self).wf(),
        ensures
            final(self).wf(),
            final(self).state_spec() == old(self).state_spec(),
            match Uuid::spec_decode(old(self).rest_spec()) {
                Ok(p) => r matches Ok(v) && v == p.1 && final(self).rest_spec() == old(self).rest_spec().skip(p.0) && 0 <= p.0 <= old(self).rest_spec().len(),
                Err(e) => r matches Err(e2) && e2 == e,
            },
    {
        let r = Uuid::decode(&mut self.packet_data);
        proof {
            if Uuid::spec_decode(old(self).rest_spec()) is Ok {
                let p = Uuid::spec_decode(old(self).rest_spec()).unwrap();
                assert(self.packet_data.rest() =~= old(self).rest_spec().skip(p.0));
            }
        }
        r
    }

    /// Read one boolean byte; only 0 and 1 are accepted.
    pub fn read_boolean(&mut self) -> (r: Result<bool, DecodeError>)
        requires
            old(self).wf(),
        ensures
            final(self).wf(),
            final(self).state_spec() == old(self).state_spec(),
            match bool::spec_decode(old(self).rest_spec()) {
                Ok(p) => r matches Ok(v) && v == p.1 && final(self).rest_spec() == old(self).rest_spec().skip(p.0) && 0 <= p.0 <= old(self).rest_spec().len(),
                Err(e) => r matches Err(e2) && e2 == e,
            },
    {
        let r = bool::decode(&mut self.packet_data);
        proof {
            if bool::spec_decode(old(self).rest_spec()) is Ok {
                let p = bool::spec_decode(old(self).rest_spec()).unwrap();
                assert(self.packet_data.rest() =~= old(self).rest_spec().skip(p.0));
            }
        }
        r
    }

    /// Read a packet id and select the packet kind it names under the
    /// current state. Reading in the status state is not handled here.
    pub fn read_packet_id(&mut self) -> (r: Result<PacketId, DecodeError>)
        requires
            old(self).wf(),
            !(old(self).state_spec() matches ClientState::Status),
        ensures
            final(self).wf(),
            final(self).state_spec() == old(self).state_spec(),
            match spec_read_var_int(old(self).rest_spec()) {
                Ok(p) => final(self).rest_spec() == old(self).rest_spec().skip(p.0) && 0 <= p.0 <= old(self).rest_spec().len() && r == (
                match old(self).state_spec() {
                    ClientState::Handshaking => packet_id::spec_serv_in_handshake(p.1),
                    ClientState::Login => packet_id::spec_serv_in_login(p.1),
                    ClientState::Play => packet_id::spec_serv_in_play(p.1),
                    _ => Err::<PacketId, DecodeError>(DecodeError::UnexpectedPacket),
                }),
                Err(e) => r matches Err(e2) && e2 == e,
            },
    {
        let v = match self.read_var_int() {
            Ok(v) => v,
            Err(e) => {
                return Err(e);
            },
        };
        PacketId::to_serv_from_i32(self.state, v)
    }

    /// Read the protocol version field: a variable-length integer.
    pub fn read_version(&mut self) -> (r: Result<i32, DecodeError>)
        requires
            old(self).wf(),
        ensures
            final(self).wf(),
            final(self).state_spec() == old(self).state_spec(),
            match spec_read_var_int(old(self).rest_spec()) {
                Ok(p) => r matches Ok(v) && v == p.1 && final(self).rest_spec() == old(self).rest_spec().skip(p.0) && 0 <= p.0 <= old(self).rest_spec().len(),
                Err(e) => r matches Err(e2) && e2 == e,
            },
    {
        self.read_var_int()
    }

    /// Read the handshake's next-state value: 1 asks for status, 2 for
    /// login, and anything else is an error.
    pub fn get_next_state(&mut self) -> (r: Result<HandshakeNextState, DecodeError>)
        requires
            old(self).wf(),
        ensures
            final(self).wf(),
            final(self).state_spec() == old(self).state_spec(),
            match spec_read_var_int(old(self).rest_spec()) {
                Ok(p) => final(self).rest_spec() == old(self).rest_spec().skip(p.0) && 0 <= p.0 <= old(self).rest_spec().len() && (if p.1 == 1 {
                    r == Ok::<HandshakeNextState, DecodeError>(HandshakeNextState::Status)
                } else if p.1 == 2 {
                    r == Ok::<HandshakeNextState, DecodeError>(HandshakeNextState::Login)
                } else {
                    r == Err::<HandshakeNextState, DecodeError>(
                        DecodeError::UnknownNextState(p.1),
                    )
                }),
                Err(e) => r matches Err(e2) && e2 == e,
            },
    {
        let v = match self.read_var_int() {
            Ok(v) => v,
            Err(e) => {
                return Err(e);
            },
        };
        if v == 1 {
            Ok(HandshakeNextState::Status)
        } else if v == 2 {
            Ok(HandshakeNextState::Login)
        } else {
            Err(DecodeError::UnknownNextState(v))
        }
    }

    /// Drive the whole handshake exchange: packet id, protocol version,
    /// address, port and next state, in order. A wrong packet id, a
    /// version other than 763, or a status request would abort the driver,
    /// so the precondition excludes those inputs; every read failure is
    /// returned as an error.
    pub fn handle_handshake(&mut self) -> (r: Result<(i32, String, u16), DecodeError>)
        requires
            old(self).wf(),
            old(self).state_spec() matches ClientState::Handshaking,
            match spec_read_var_int(old(self).rest_spec()) {
                Ok(p1) => p1.1 != 0xfe && (match spec_read_var_int(
                    old(self).rest_spec().skip(p1.0),
                ) {
                    Ok(p2) => p2.1 == 763 && (match spec_handshake_fields(old(self).rest_spec()) {
                        Ok(t) => t.5 != 1,
                        Err(_) => true,
                    }),
                    Err(_) => true,
                }),
                Err(_) => true,
            },
        ensures
            final(self).wf(),
            final(self).state_spec() == old(self).state_spec(),
            match spec_read_var_int(old(self).rest_spec()) {
                Ok(p1) => match packet_id::spec_serv_in_handshake(p1.1) {
                    Err(e) => r matches Err(e2) && e2 == e,
                    Ok(_) => match spec_handshake_fields(old(self).rest_spec()) {
                        Ok(t) => if t.5 == 2 {
                            r matches Ok(v) && v.0 == t.2 && v.1@ == t.3 && v.2 == t.4
                                && final(self).rest_spec() == old(self).rest_spec().skip(t.0)
                        } else {
                            r matches Err(e2) && e2 == DecodeError::UnknownNextState(t.5)
                        },
                        Err(e) => r matches Err(e2) && e2 == e,
                    },
                },
                Err(e) => r matches Err(e2) && e2 == e,
            },
    {
        let ghost s = old(self).rest_spec();
        let id = match self.read_packet_id() {
            Ok(v) => v,
            Err(e) => {
                return Err(e);
            },
        };
        let version = match self.read_version() {
            Ok(v) => v,
            Err(e) => {
                return Err(e);
            },
        };
        proof {
            let p1 = spec_read_var_int(s).unwrap();
            let p2 = spec_read_var_int(s.skip(p1.0)).unwrap();
            crate::lemma_skip_skip(s, p1.0, p2.0);
        }
        let host = match self.read_string() {
            Ok(v) => v,
            Err(e) => {
                return Err(e);
            },
        };
        proof {
            let p1 = spec_read_var_int(s).unwrap();
            let p2 = spec_read_var_int(s.skip(p1.0)).unwrap();
            let p3 = String::spec_decode(s.skip(p1.0 + p2.0)).unwrap();
            crate::lemma_skip_skip(s, p1.0 + p2.0, p3.0);
        }
        let port = match self.read_unsigned_short() {
            Ok(v) => v,
            Err(e) => {
                return Err(e);
            },
        };
        proof {
            let p1 = spec_read_var_int(s).unwrap();
            let p2 = spec_read_var_int(s.skip(p1.0)).unwrap();
            let p3 = String::spec_decode(s.skip(p1.0 + p2.0)).unwrap();
            let p4 = u16::spec_decode(s.skip(p1.0 + p2.0 + p3.0)).unwrap();
            crate::lemma_skip_skip(s, p1.0 + p2.0 + p3.0, p4.0);
        }
        let next = match self.get_next_state() {
            Ok(v) => v,
            Err(e) => {
                return Err(e);
            },
        };
        Ok((version, host, port))
    }

    /// Drive the login request: packet id, player name, and the optional
    /// UUID. A packet other than the login request would abort the driver,
    /// so the precondition pins the state to login, where packet id 0 is
    /// the login request and every other id is already an error.
    pub fn handle_login_start(&mut self) -> (r: Result<(String, Option<Uuid>), DecodeError>)
        requires
            old(self).wf(),
            old(self).state_spec() matches ClientState::Login,
        ensures
            final(self).wf(),
            final(self).state_spec() == old(self).state_spec(),
            match spec_read_var_int(old(self).rest_spec()) {
                Ok(p1) => match packet_id::spec_serv_in_login(p1.1) {
                    Err(e) => r matches Err(e2) && e2 == e,
                    Ok(_) => match String::spec_decode(old(self).rest_spec().skip(p1.0)) {
                        Ok(p2) => match bool::spec_decode(
                            old(self).rest_spec().skip(p1.0 + p2.0),
                        ) {
                            Ok(p3) => if p3.1 {
                                match Uuid::spec_decode(
                                    old(self).rest_spec().skip(p1.0 + p2.0 + p3.0),
                                ) {
                                    Ok(p4) => r matches Ok(v) && v.0@ == p2.1 && v.1 == Some(p4.1),
                                    Err(e) => r matches Err(e2) && e2 == e,
                                }
                            } else {
                                r matches Ok(v) && v.0@ == p2.1 && v.1 == None::<Uuid>
                            },
                            Err(e) => r matches Err(e2) && e2 == e,
                        },
                        Err(e) => r matches Err(e2) && e2 == e,
                    },
                },
                Err(e) => r matches Err(e2) && e2 == e,
            },
    {
        let ghost s = old(self).rest_spec();
        let id = match self.read_packet_id() {
            Ok(v) => v,
            Err(e) => {
                return Err(e);
            },
        };
        let name = match self.read_string() {
            Ok(v) => v,
            Err(e) => {
                return Err(e);
            },
        };
        proof {
            let p1 = spec_read_var_int(s).unwrap();
            let p2 = String::spec_decode(s.skip(p1.0)).unwrap();
            crate::lemma_skip_skip(s, p1.0, p2.0);
        }
        let flag = match self.read_boolean() {
            Ok(v) => v,
            Err(e) => {
                return Err(e);
            },
        };
        proof {
            let p1 = spec_read_var_int(s).unwrap();
            let p2 = String::spec_decode(s.skip(p1.0)).unwrap();
            let p3 = bool::spec_decode(s.skip(p1.0 + p2.0)).unwrap();
            crate::lemma_skip_skip(s, p1.0 + p2.0, p3.0);
        }
        if flag {
            match self.read_uuid() {
                Ok(u) => Ok((name, Some(u))),
                Err(e) => Err(e),
            }
        } else {
            Ok((name, None))
        }
    }
}

/// The VarInt-length-prefixed UTF-8 bytes of a character sequence.
pub open spec fn spec_encode_str(s: Seq<char>) -> Seq<u8> {
    leb128::spec_build_var_int(vstd::utf8::encode_utf8(s).len() as i32) + vstd::utf8::encode_utf8(
        s,
    )
}

/// The concatenated string encodings of a list of feature flags.
pub open spec fn spec_encode_feature_flags(fs: Seq<FeatureFlags>) -> Seq<u8>
    decreases fs.len(),
{
    if fs.len() == 0 {
        Seq::empty()
    } else {
        spec_encode_str(feature_flag_chars(fs[0])) + spec_encode_feature_flags(fs.skip(1))
    }
}

/// Encoding one more feature flag appends that flag's string.
proof fn lemma_feature_flags_snoc(fs: Seq<FeatureFlags>, i: int)
    requires
        0 <= i < fs.len(),
    ensures
        spec_encode_feature_flags(fs.take(i + 1)) == spec_encode_feature_flags(fs.take(i))
            + spec_encode_str(feature_flag_chars(fs[i])),
    decreases i,
{
    if i == 0 {
        assert(fs.take(1) =~= seq![fs[0]]);
        assert(fs.take(0) =~= Seq::<FeatureFlags>::empty());
        assert(seq![fs[0]].skip(1) =~= Seq::<FeatureFlags>::empty());
        assert(spec_encode_feature_flags(Seq::<FeatureFlags>::empty()) =~= Seq::<u8>::empty());
        assert(spec_encode_feature_flags(seq![fs[0]]) =~= spec_encode_str(
            feature_flag_chars(fs[0]),
        ));
        assert(Seq::<u8>::empty() + spec_encode_str(feature_flag_chars(fs[0])) =~= spec_encode_str(
            feature_flag_chars(fs[0]),
        ));
    } else {
        lemma_feature_flags_snoc(fs.skip(1), i - 1);
        assert(fs.take(i + 1)[0] == fs[0]);
        assert(fs.take(i + 1).skip(1) =~= fs.skip(1).take(i));
        assert(fs.take(i)[0] == fs[0]);
        assert(fs.take(i).skip(1) =~= fs.skip(1).take(i - 1));
        assert(fs.skip(1)[i - 1] == fs[i]);
        assert(spec_encode_str(feature_flag_chars(fs[0])) + (spec_encode_feature_flags(
            fs.skip(1).take(i - 1),
        ) + spec_encode_str(feature_flag_chars(fs[i]))) =~= (spec_encode_str(
            feature_flag_chars(fs[0]),
        ) + spec_encode_feature_flags(fs.skip(1).take(i - 1))) + spec_encode_str(
            feature_flag_chars(fs[i]),
        ));
    }
}

/// The fixed body of the single hard-coded chunk packet, around the
/// serialized height-map document `hm`: chunk 0,0, no sections, no block
/// entities, four one-word bit sets, and no light arrays.
pub open spec fn spec_chunk_data_body(hm: Seq<u8>) -> Seq<u8> {
    (0i32).encoding() + (0i32).encoding() + hm + leb128::spec_build_var_int(0)
        + leb128::spec_build_var_int(0) + (leb128::spec_build_var_int(1) + (0i64).encoding())
        + (leb128::spec_build_var_int(1) + (0i64).encoding()) + (leb128::spec_build_var_int(1)
        + (0i64).encoding()) + (leb128::spec_build_var_int(1) + (0i64).encoding())
        + leb128::spec_build_var_int(0) + leb128::spec_build_var_int(0)
}

/// An accumulating writer for one client-bound frame: the packet id is
/// chosen once, and each write appends a field's exact wire bytes.
#[derive(Debug)]
pub struct PacketBuilder {
    packet_id: PacketId,
    built_data: Vec<u8>,
}

impl PacketBuilder {
    /// The chosen packet id.
    pub closed spec fn packet_id_spec(&self) -> PacketId {
        self.packet_id
    }

    /// The body bytes written so far.
    pub closed spec fn data_spec(&self) -> Seq<u8> {
        self.built_data@
    }

    /// An empty builder with no packet id chosen yet.
    pub fn new() -> (r: Self)
        ensures
            r.packet_id_spec() == PacketId::Unset,
            r.data_spec() == Seq::<u8>::empty(),
    {
        Self { packet_id: PacketId::Unset, built_data: Vec::new() }
    }

    /// The finished frame: its body length (id byte included) as a VarInt,
    /// the packet id byte, then the written fields. Finishing without a
    /// client-bound packet id is a programming error, which the
    /// precondition excludes.
    pub fn to_packet_bytes(self) -> (r: Vec<u8>)
        requires
            !(self.packet_id_spec() matches PacketId::Unset),
            packet_id::has_client_id(self.packet_id_spec()),
            self.data_spec().len() + 1 < 0x8000_0000,
        ensures
            r@ == leb128::spec_build_var_int((self.data_spec().len() + 1) as i32) + seq![
                packet_id::client_id_spec(self.packet_id_spec()) as u8,
            ] + self.data_spec(),
    {
        let id = self.packet_id.to_client_to_i32();
        proof {
            assert(0 <= packet_id::client_id_spec(self.packet_id) < 0x100);
        }
        let len = self.built_data.len() + 1;
        let mut result = leb128::build_var_int(len as i32);
        let ghost prefix = result@;
        result.push(id as u8);
        let mut data = self.built_data;
        result.append(&mut data);
        proof {
            assert(result@ =~= prefix + seq![packet_id::client_id_spec(self.packet_id) as u8]
                + self.data_spec());
            assert(prefix + seq![packet_id::client_id_spec(self.packet_id) as u8]
                + self.data_spec() =~= prefix + (seq![
                packet_id::client_id_spec(self.packet_id) as u8,
            ]) + self.data_spec());
        }
        result
    }

    /// Choose the packet id.
    pub fn set_packet_id(&mut self, id: PacketId)
        ensures
            final(self).packet_id_spec() == id,
            final(self).data_spec() == old(self).data_spec(),
    {
        self.packet_id = id;
    }

    /// Append a variable-length integer.
    pub fn write_var_int(&mut self, val: i32)
        ensures
            final(self).packet_id_spec() == old(self).packet_id_spec(),
            final(self).data_spec() == old(self).data_spec() + leb128::spec_build_var_int(val),
    {
        let _ = crate::primitive::VarInt(val).encode(&mut self.built_data);
    }

    /// Append a length-prefixed UTF-8 string.
    pub fn write_string(&mut self, s: String)
        ensures
            final(self).packet_id_spec() == old(self).packet_id_spec(),
            s.encodable() ==> final(self).data_spec() == old(self).data_spec() + spec_encode_str(
                s@,
            ),
            old(self).data_spec().is_prefix_of(final(self).data_spec()),
    {
        let _ = s.encode(&mut self.built_data);
    }

    /// Append a UUID: sixteen big-endian bytes.
    pub fn write_uuid(&mut self, uuid: Uuid)
        ensures
            final(self).packet_id_spec() == old(self).packet_id_spec(),
            final(self).data_spec() == old(self).data_spec() + crate::primitive::be_bytes_u128(
                uuid.value,
            ),
    {
        let _ = uuid.encode(&mut self.built_data);
    }

    /// Append one unsigned byte.
    pub fn write_unsigned_byte(&mut self, byte: u8)
        ensures
            final(self).packet_id_spec() == old(self).packet_id_spec(),
            final(self).data_spec() == old(self).data_spec() + seq![byte],
    {
        let _ = byte.encode(&mut self.built_data);
    }

    /// Append one signed byte.
    pub fn write_byte(&mut self, byte: i8)
        ensures
            final(self).packet_id_spec() == old(self).packet_id_spec(),
            final(self).data_spec() == old(self).data_spec() + seq![byte as u8],
    {
        let _ = byte.encode(&mut self.built_data);
    }

    /// Append one big-endian signed 16-bit value.
    pub fn write_short(&mut self, val: i16)
        ensures
            final(self).packet_id_spec() == old(self).packet_id_spec(),
            final(self).data_spec() == old(self).data_spec() + crate::primitive::be_bytes_u16(
                val as u16,
            ),
    {
        let _ = val.encode(&mut self.built_data);
    }

    /// Append one big-endian signed 32-bit value.
    pub fn write_int(&mut self, val: i32)
        ensures
            final(self).packet_id_spec() == old(self).packet_id_spec(),
            final(self).data_spec() == old(self).data_spec() + crate::primitive::be_bytes_u32(
                val as u32,
            ),
    {
        let _ = val.encode(&mut self.built_data);
    }

    /// Append one big-endian signed 64-bit value.
    pub fn write_long(&mut self, v: i64)
        ensures
            final(self).packet_id_spec() == old(self).packet_id_spec(),
            final(self).data_spec() == old(self).data_spec() + crate::primitive::be_bytes_u64(
                v as u64,
            ),
    {
        let _ = v.encode(&mut self.built_data);
    }

    /// Append one boolean byte.
    pub fn write_boolean(&mut self, b: bool)
        ensures
            final(self).packet_id_spec() == old(self).packet_id_spec(),
            final(self).data_spec() == old(self).data_spec() + (if b {
                seq![1u8]
            } else {
                seq![0u8]
            }),
    {
        let _ = b.encode(&mut self.built_data);
    }

    /// Append one binary32 bit pattern, big-endian.
    pub fn write_float(&mut self, v: crate::primitive::F32Bits)
        ensures
            final(self).packet_id_spec() == old(self).packet_id_spec(),
            final(self).data_spec() == old(self).data_spec() + crate::primitive::be_bytes_u32(
                v.bits,
            ),
    {
        let _ = v.encode(&mut self.built_data);
    }

    /// Append one binary64 bit pattern, big-endian.
    pub fn write_double(&mut self, v: crate::primitive::F64Bits)
        ensures
            final(self).packet_id_spec() == old(self).packet_id_spec(),
            final(self).data_spec() == old(self).data_spec() + crate::primitive::be_bytes_u64(
                v.bits,
            ),
    {
        let _ = v.encode(&mut self.built_data);
    }

    /// Append a bit set: its word count as a VarInt, then each word.
    pub fn write_bit_set(&mut self, bits: &Vec<i64>)
        requires
            bits@.len() < 0x8000_0000,
        ensures
            final(self).packet_id_spec() == old(self).packet_id_spec(),
            final(self).data_spec() == old(self).data_spec() + leb128::spec_build_var_int(
                bits@.len() as i32,
            ) + crate::primitive::array::seq_encoding(bits@),
    {
        self.write_var_int(bits.len() as i32);
        let ghost mid = self.built_data@;
        let mut i: usize = 0;
        while i < bits.len()
            invariant
                i <= bits@.len(),
                self.built_data@ == mid + crate::primitive::array::seq_encoding(
                    bits@.take(i as int),
                ),
                self.packet_id == old(self).packet_id,
                mid == old(self).data_spec() + leb128::spec_build_var_int(bits@.len() as i32),
            decreases bits@.len() - i,
        {
            let _ = bits[i].encode(&mut self.built_data);
            i = i + 1;
            proof {
                crate::primitive::array::lemma_seq_encoding_snoc(bits@, i - 1);
            }
        }
        proof {
            assert(bits@.take(bits@.len() as int) =~= bits@);
        }
    }

    /// Append raw bytes unchanged.
    fn append_bytes(&mut self, bytes: &Vec<u8>)
        ensures
            final(self).packet_id_spec() == old(self).packet_id_spec(),
            final(self).data_spec() == old(self).data_spec() + bytes@,
    {
        let ghost start = self.built_data@;
        let mut i: usize = 0;
        while i < bytes.len()
            invariant
                i <= bytes@.len(),
                self.built_data@ == start + bytes@.take(i as int),
                self.packet_id == old(self).packet_id,
                start == old(self).data_spec(),
            decreases bytes@.len() - i,
        {
            self.built_data.push(bytes[i]);
            i = i + 1;
            proof {
                assert(self.built_data@ =~= start + bytes@.take(i as int));
            }
        }
        proof {
            assert(self.built_data@ =~= old(self).data_spec() + bytes@);
        }
    }

    /// Write the login acceptance: the player's UUID, name, and an empty
    /// property list.
    pub fn write_login_success(&mut self, uuid: Uuid, name: String, _other_players: ())
        ensures
            final(self).packet_id_spec() == PacketId::LoginSuccess,
            name.encodable() ==> final(self).data_spec() == old(self).data_spec()
                + crate::primitive::be_bytes_u128(uuid.value) + spec_encode_str(name@)
                + leb128::spec_build_var_int(0),
    {
        self.set_packet_id(PacketId::LoginSuccess);
        self.write_uuid(uuid);
        self.write_string(name);
        self.write_var_int(0);
    }

    /// Write the world-entry packet with this driver's fixed session
    /// settings around the given entity id and registry document.
    #[verifier::rlimit(100)]
    pub fn write_login_play(&mut self, entity_id: EntityId, codec: &crate::primitive::NbtBlob)
        ensures
            final(self).packet_id_spec() == PacketId::LoginPlay,
            final(self).data_spec() == old(self).data_spec() + spec_login_play_body(
                entity_id.id,
                codec@,
            ),
    {
        proof {
            reveal_strlit("minecraft:overworld");
            reveal_strlit("minecraft:the_end");
            reveal_strlit("minecraft:nether");
            assert(vstd::utf8::is_ascii_chars("minecraft:overworld"@));
            assert(vstd::utf8::is_ascii_chars("minecraft:the_end"@));
            assert(vstd::utf8::is_ascii_chars("minecraft:nether"@));
            vstd::utf8::is_ascii_chars_encode_utf8("minecraft:overworld"@);
            vstd::utf8::is_ascii_chars_encode_utf8("minecraft:the_end"@);
            vstd::utf8::is_ascii_chars_encode_utf8("minecraft:nether"@);
        }
        self.set_packet_id(PacketId::LoginPlay);
        self.write_int(entity_id.id);
        self.write_boolean(false);
        self.write_unsigned_byte(0);
        self.write_byte(-1);
        self.write_var_int(3);
        self.write_string("minecraft:overworld".to_owned());
        self.write_string("minecraft:the_end".to_owned());
        self.write_string("minecraft:nether".to_owned());
        self.append_bytes_blob(codec);
        self.write_string("minecraft:overworld".to_owned());
        self.write_string("minecraft:overworld".to_owned());
        self.write_long(0x100000);
        self.write_var_int(20);
        self.write_var_int(16);
        self.write_var_int(16);
        self.write_boolean(false);
        self.write_boolean(true);
        self.write_boolean(false);
        self.write_boolean(false);
        self.write_boolean(false);
        self.write_var_int(0);
        proof {
            assert(self.built_data@ =~= old(self).data_spec() + spec_login_play_body(
                entity_id.id,
                codec@,
            ));
        }
    }

    /// Append an opaque serialized NBT document.
    fn append_bytes_blob(&mut self, blob: &crate::primitive::NbtBlob)
        ensures
            final(self).packet_id_spec() == old(self).packet_id_spec(),
            final(self).data_spec() == old(self).data_spec() + blob@,
    {
        let _ = blob.encode(&mut self.built_data);
    }

    /// Write the fixed spawn-player sequence for a new player entity.
    pub fn write_spawn_player(&mut self, uuid: Uuid)
        ensures
            final(self).packet_id_spec() == PacketId::SpawnPlayer,
            final(self).data_spec() == old(self).data_spec() + leb128::spec_build_var_int(10)
                + crate::primitive::be_bytes_u128(uuid.value) + crate::primitive::be_bytes_u64(0)
                + crate::primitive::be_bytes_u64(0) + crate::primitive::be_bytes_u64(0) + seq![
                0u8,
            ] + seq![0u8],
    {
        self.set_packet_id(PacketId::SpawnPlayer);
        self.write_var_int(10);
        self.write_uuid(uuid);
        self.write_double(crate::primitive::F64Bits { bits: 0 });
        self.write_double(crate::primitive::F64Bits { bits: 0 });
        self.write_double(crate::primitive::F64Bits { bits: 0 });
        self.write_byte(0);
        self.write_byte(0);
    }

    /// Write the fixed difficulty announcement: hard, unlocked.
    pub fn write_change_difficulty(&mut self)
        ensures
            final(self).packet_id_spec() == PacketId::ChangeDifficulty,
            final(self).data_spec() == old(self).data_spec() + seq![3u8] + seq![0u8],
    {
        self.set_packet_id(PacketId::ChangeDifficulty);
        self.write_unsigned_byte(3);
        self.write_boolean(false);
    }

    /// Write the fixed spawn-entity sequence for a new entity at the
    /// origin.
    pub fn write_spawn_entity(&mut self, uuid: Uuid)
        ensures
            final(self).packet_id_spec() == PacketId::SpawnEntify,
            final(self).data_spec() == old(self).data_spec() + leb128::spec_build_var_int(10)
                + crate::primitive::be_bytes_u128(uuid.value) + leb128::spec_build_var_int(0)
                + crate::primitive::be_bytes_u64(0) + crate::primitive::be_bytes_u64(0)
                + crate::primitive::be_bytes_u64(0) + seq![0u8] + seq![0u8] + seq![0u8]
                + leb128::spec_build_var_int(0) + crate::primitive::be_bytes_u16(0)
                + crate::primitive::be_bytes_u16(0) + crate::primitive::be_bytes_u16(0),
    {
        self.set_packet_id(PacketId::SpawnEntify);
        self.write_var_int(10);
        self.write_uuid(uuid);
        self.write_var_int(0);
        self.write_double(crate::primitive::F64Bits { bits: 0 });
        self.write_double(crate::primitive::F64Bits { bits: 0 });
        self.write_double(crate::primitive::F64Bits { bits: 0 });
        self.write_byte(0);
        self.write_byte(0);
        self.write_byte(0);
        self.write_var_int(0);
        self.write_short(0);
        self.write_short(0);
        self.write_short(0);
    }

    /// Write the feature-flag list: its count, then each flag's name.
    pub fn write_feature_flags(&mut self, features: &Vec<FeatureFlags>)
        requires
            features@.len() < 0x8000_0000,
        ensures
            final(self).packet_id_spec() == PacketId::FeatureFlags,
            final(self).data_spec() == old(self).data_spec() + leb128::spec_build_var_int(
                features@.len() as i32,
            ) + spec_encode_feature_flags(features@),
    {
        proof {
            reveal_strlit("minecraft:vanilla");
            reveal_strlit("minecraft:bundle");
            assert(vstd::utf8::is_ascii_chars("minecraft:vanilla"@));
            assert(vstd::utf8::is_ascii_chars("minecraft:bundle"@));
            vstd::utf8::is_ascii_chars_encode_utf8("minecraft:vanilla"@);
            vstd::utf8::is_ascii_chars_encode_utf8("minecraft:bundle"@);
        }
        self.set_packet_id(PacketId::FeatureFlags);
        self.write_var_int(features.len() as i32);
        let ghost mid = self.built_data@;
        let mut i: usize = 0;
        while i < features.len()
            invariant
                i <= features@.len(),
                self.built_data@ == mid + spec_encode_feature_flags(features@.take(i as int)),
                self.packet_id == PacketId::FeatureFlags,
                mid == old(self).data_spec() + leb128::spec_build_var_int(features@.len() as i32),
                vstd::utf8::encode_utf8("minecraft:vanilla"@).len() < 0x8000_0000,
                vstd::utf8::encode_utf8("minecraft:bundle"@).len() < 0x8000_0000,
            decreases features@.len() - i,
        {
            let s: String = features[i].to_ident().to_owned();
            let _ = s.encode(&mut self.built_data);
            i = i + 1;
            proof {
                lemma_feature_flags_snoc(features@, i - 1);
            }
        }
        proof {
            assert(features@.take(features@.len() as int) =~= features@);
        }
    }

    /// Write a named channel's payload: the channel, then the payload's
    /// bytes with no prefix, since the payload runs to the end of the
    /// frame.
    pub fn write_plugin_message(&mut self, channel: String, data: &Vec<u8>)
        ensures
            final(self).packet_id_spec() == PacketId::PluginMessage,
            channel.encodable() ==> final(self).data_spec() == old(self).data_spec()
                + spec_encode_str(channel@) + data@,
    {
        self.set_packet_id(PacketId::PluginMessage);
        self.write_string(channel);
        self.append_bytes(data);
    }

    /// Write the player-ability flags and movement parameters.
    pub fn write_player_abilities(
        &mut self,
        flags: crate::common::PlayerAbilitiesFlags,
        flying_speed: crate::primitive::F32Bits,
        field_of_view_modifier: crate::primitive::F32Bits,
    )
        ensures
            final(self).packet_id_spec() == PacketId::PlayerAbilities,
            final(self).data_spec() == old(self).data_spec() + seq![flags.bits]
                + crate::primitive::be_bytes_u32(flying_speed.bits)
                + crate::primitive::be_bytes_u32(field_of_view_modifier.bits),
    {
        self.set_packet_id(PacketId::PlayerAbilities);
        self.write_unsigned_byte(flags.bits());
        self.write_float(flying_speed);
        self.write_float(field_of_view_modifier);
    }

    /// Write the held-item slot.
    pub fn write_held_item(&mut self, pos: u8)
        ensures
            final(self).packet_id_spec() == PacketId::SetHeldItem,
            final(self).data_spec() == old(self).data_spec() + seq![pos],
    {
        self.set_packet_id(PacketId::SetHeldItem);
        self.write_unsigned_byte(pos);
    }

    /// Write the recipe list; only its count is carried.
    pub fn write_update_recipes(&mut self, recipes: &Vec<Recipes>)
        requires
            recipes@.len() < 0x8000_0000,
        ensures
            final(self).packet_id_spec() == PacketId::UpdateRecipes,
            final(self).data_spec() == old(self).data_spec() + leb128::spec_build_var_int(
                recipes@.len() as i32,
            ),
    {
        self.set_packet_id(PacketId::UpdateRecipes);
        self.write_var_int(recipes.len() as i32);
    }

    /// Write the fixed single-chunk packet around a freshly built
    /// height-map document: one MOTION_BLOCKING list of thirty-seven zero
    /// longs, serialized by the NBT library. Building that document never
    /// fails, so the whole body is pinned down.
    pub fn write_chunk_data_update_light(&mut self) -> (r: Result<(), DecodeError>)
        ensures
            r is Ok,
            final(self).packet_id_spec() == PacketId::ChunkDataAndUpdateLight,
            final(self).data_spec() == old(self).data_spec() + spec_chunk_data_body(
                crate::primitive::nbt_long_list_bytes(
                    "MOTION_BLOCKING"@,
                    Seq::new(37, |j: int| 0i64),
                ),
            ),
    {
        self.set_packet_id(PacketId::ChunkDataAndUpdateLight);
        let mut zeros: Vec<i64> = Vec::new();
        let mut i: usize = 0;
        while i < 37
            invariant
                i <= 37,
                zeros@ == Seq::new(i as nat, |j: int| 0i64),
            decreases 37 - i,
        {
            zeros.push(0);
            i = i + 1;
            proof {
                assert(zeros@ =~= Seq::new(i as nat, |j: int| 0i64));
            }
        }
        let hm = match crate::primitive::nbt_long_list_doc("MOTION_BLOCKING", &zeros) {
            Ok(v) => v,
            Err(e) => {
                return Err(e);
            },
        };
        self.write_int(0);
        self.write_int(0);
        self.append_bytes(&hm);
        self.write_var_int(0);
        self.write_var_int(0);
        let mut one_zero: Vec<i64> = Vec::new();
        one_zero.push(0);
        self.write_bit_set(&one_zero);
        self.write_bit_set(&one_zero);
        self.write_bit_set(&one_zero);
        self.write_bit_set(&one_zero);
        self.write_var_int(0);
        self.write_var_int(0);
        proof {
            assert(zeros@ =~= Seq::new(37, |j: int| 0i64));
            assert(crate::primitive::array::seq_encoding(one_zero@) =~= (0i64).encoding()
                + crate::primitive::array::seq_encoding(Seq::<i64>::empty())) by {
                assert(one_zero@.skip(1) =~= Seq::<i64>::empty());
            }
            assert(crate::primitive::array::seq_encoding(one_zero@) =~= (0i64).encoding());
            assert(self.built_data@ =~= old(self).data_spec() + spec_chunk_data_body(hm@));
        }
        Ok(())
    }

    /// Write the fixed respawn sequence into the overworld.
    pub fn write_respawn(&mut self)
        ensures
            final(self).packet_id_spec() == PacketId::Respawn,
            final(self).data_spec() == old(self).data_spec() + spec_encode_str(
                "minecraft:overworld"@,
            ) + spec_encode_str("minecraft:overworld"@) + crate::primitive::be_bytes_u64(100)
                + seq![0u8] + seq![(-1i8) as u8] + seq![1u8] + seq![1u8] + seq![3u8] + seq![0u8]
                + leb128::spec_build_var_int(10),
    {
        proof {
            reveal_strlit("minecraft:overworld");
            assert(vstd::utf8::is_ascii_chars("minecraft:overworld"@));
            vstd::utf8::is_ascii_chars_encode_utf8("minecraft:overworld"@);
        }
        self.set_packet_id(PacketId::Respawn);
        self.write_string("minecraft:overworld".to_owned());
        self.write_string("minecraft:overworld".to_owned());
        self.write_long(100);
        self.write_unsigned_byte(0);
        self.write_byte(-1);
        self.write_boolean(true);
        self.write_boolean(true);
        self.write_byte(3);
        self.write_boolean(false);
        self.write_var_int(10);
        proof {
            assert(seq![(3i8) as u8] =~= seq![3u8]);
        }
    }

    /// Write the fixed position synchronisation: the origin, no rotation,
    /// the three relative-coordinate flags, and teleport id 0x55.
    pub fn write_synchronize_player_position(&mut self)
        ensures
            final(self).packet_id_spec() == PacketId::SynchronizePlayerPosition,
            final(self).data_spec() == old(self).data_spec() + crate::primitive::be_bytes_u64(0)
                + crate::primitive::be_bytes_u64(0) + crate::primitive::be_bytes_u64(0)
                + crate::primitive::be_bytes_u32(0) + crate::primitive::be_bytes_u32(0) + seq![
                7u8,
            ] + leb128::spec_build_var_int(0x55),
    {
        self.set_packet_id(PacketId::SynchronizePlayerPosition);
        self.write_double(crate::primitive::F64Bits { bits: 0 });
        self.write_double(crate::primitive::F64Bits { bits: 0 });
        self.write_double(crate::primitive::F64Bits { bits: 0 });
        self.write_float(crate::primitive::F32Bits { bits: 0 });
        self.write_float(crate::primitive::F32Bits { bits: 0 });
        self.write_byte(7);
        self.write_var_int(0x55);
        proof {
            assert(seq![(7i8) as u8] =~= seq![7u8]);
        }
    }
}

/// The fixed world-entry body this driver writes, around a given entity
/// id and the serialized registry document.
pub open spec fn spec_login_play_body(entity_id: i32, codec: Seq<u8>) -> Seq<u8> {
    crate::primitive::be_bytes_u32(entity_id as u32) + seq![0u8] + seq![0u8] + seq![(-1i8) as u8]
        + leb128::spec_build_var_int(3) + spec_encode_str("minecraft:overworld"@)
        + spec_encode_str("minecraft:the_end"@) + spec_encode_str("minecraft:nether"@) + codec
        + spec_encode_str("minecraft:overworld"@) + spec_encode_str("minecraft:overworld"@)
        + crate::primitive::be_bytes_u64(0x100000) + leb128::spec_build_var_int(20)
        + leb128::spec_build_var_int(16) + leb128::spec_build_var_int(16) + seq![0u8] + seq![1u8]
        + seq![0u8] + seq![0u8] + seq![0u8] + leb128::spec_build_var_int(0)
}

} // verus!
