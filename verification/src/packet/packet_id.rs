use vstd::prelude::*;

use crate::DecodeError;
use crate::client::ClientState;
use crate::common::State;

verus! {

/// Every packet kind the original driver knows, both directions, plus the
/// `Unset` placeholder a builder starts with.
#[derive(Debug, Copy, Clone, PartialEq, Eq, Structural)]
pub enum PacketId {
    FirstPacket,
    LegacyServerListPing,
    LoginDisconnect,
    LoginStart,
    EncryptionRequest,
    ClientAuth,
    EncryptionResponse,
    ServerAuth,
    SetCompression,
    LoginSuccess,
    BundleDelimiter,
    SpawnEntify,
    SpawnPlayer,
    PluginMessage,
    ChangeDifficulty,
    LoginPlay,
    FeatureFlags,
    PlayerAbilities,
    SetHeldItem,
    UpdateRecipes,
    ChunkDataAndUpdateLight,
    Respawn,
    SynchronizePlayerPosition,
    Unset,
}

/// The server-bound packet a handshaking-phase id selects, if any.
pub open spec fn spec_serv_in_handshake(v: i32) -> Result<PacketId, DecodeError> {
    if v == 0 {
        Ok(PacketId::FirstPacket)
    } else if v == 0xfe {
        Ok(PacketId::LegacyServerListPing)
    } else {
        Err(DecodeError::UnknownPacketId(v, State::Handshaking))
    }
}

/// The server-bound packet a login-phase id selects, if any.
pub open spec fn spec_serv_in_login(v: i32) -> Result<PacketId, DecodeError> {
    if v == 0 {
        Ok(PacketId::LoginStart)
    } else {
        Err(DecodeError::UnknownPacketId(v, State::Login))
    }
}

/// The server-bound packet a play-phase id selects; none is handled here.
pub open spec fn spec_serv_in_play(v: i32) -> Result<PacketId, DecodeError> {
    Err(DecodeError::UnknownPacketId(v, State::Play))
}

/// Whether this packet kind is client-bound with a known id.
pub open spec fn has_client_id(p: PacketId) -> bool {
    match p {
        PacketId::LoginSuccess => true,
        PacketId::BundleDelimiter => true,
        PacketId::SpawnEntify => true,
        PacketId::SpawnPlayer => true,
        PacketId::PluginMessage => true,
        PacketId::ChangeDifficulty => true,
        PacketId::LoginPlay => true,
        PacketId::FeatureFlags => true,
        PacketId::PlayerAbilities => true,
        PacketId::SetHeldItem => true,
        PacketId::UpdateRecipes => true,
        PacketId::ChunkDataAndUpdateLight => true,
        PacketId::Respawn => true,
        PacketId::SynchronizePlayerPosition => true,
        _ => false,
    }
}

/// The wire id of a client-bound packet kind.
pub open spec fn client_id_spec(p: PacketId) -> i32 {
    match p {
        PacketId::LoginSuccess => 0x2i32,
        PacketId::BundleDelimiter => 0i32,
        PacketId::SpawnEntify => 0x01i32,
        PacketId::SpawnPlayer => 0x03i32,
        PacketId::PluginMessage => 0x17i32,
        PacketId::ChangeDifficulty => 0x0ci32,
        PacketId::LoginPlay => 0x28i32,
        PacketId::FeatureFlags => 0x6bi32,
        PacketId::PlayerAbilities => 0x34i32,
        PacketId::SetHeldItem => 0x4di32,
        PacketId::UpdateRecipes => 0x6di32,
        PacketId::ChunkDataAndUpdateLight => 0x24i32,
        PacketId::Respawn => 0x41i32,
        PacketId::SynchronizePlayerPosition => 0x3ci32,
        _ => 0i32,
    }
}

impl PacketId {
    /// Select the server-bound packet kind a raw id names in the given
    /// client state. The status state has no handler here, and `Initial`
    /// accepts nothing.
    pub fn to_serv_from_i32(state: ClientState, v: i32) -> (r: Result<Self, DecodeError>)
        requires
            !(state matches ClientState::Status),
        ensures
            r == (match state {
                ClientState::Handshaking => spec_serv_in_handshake(v),
                ClientState::Login => spec_serv_in_login(v),
                ClientState::Play => spec_serv_in_play(v),
                _ => Err::<PacketId, DecodeError>(DecodeError::UnexpectedPacket),
            }),
    {
        match state {
            ClientState::Handshaking => Self::to_serv_in_handshake(v),
            ClientState::Login => Self::to_serv_in_login(v),
            ClientState::Status => Err(DecodeError::UnexpectedPacket),
            ClientState::Play => Self::to_serv_in_play(v),
            ClientState::Initial => Err(DecodeError::UnexpectedPacket),
        }
    }

    fn to_serv_in_handshake(v: i32) -> (r: Result<Self, DecodeError>)
        ensures
            r == spec_serv_in_handshake(v),
    {
        if v == 0 {
            Ok(Self::FirstPacket)
        } else if v == 0xfe {
            Ok(Self::LegacyServerListPing)
        } else {
            Err(DecodeError::UnknownPacketId(v, State::Handshaking))
        }
    }

    fn to_serv_in_login(v: i32) -> (r: Result<Self, DecodeError>)
        ensures
            r == spec_serv_in_login(v),
    {
        if v == 0 {
            Ok(Self::LoginStart)
        } else {
            Err(DecodeError::UnknownPacketId(v, State::Login))
        }
    }

    fn to_serv_in_play(v: i32) -> (r: Result<Self, DecodeError>)
        ensures
            r == spec_serv_in_play(v),
    {
        Err(DecodeError::UnknownPacketId(v, State::Play))
    }

    /// The wire id of a client-bound packet kind. Calling this on a
    /// server-bound kind or on `Unset` is a programming error, which the
    /// precondition excludes.
    pub fn to_client_to_i32(self) -> (r: i32)
        requires
            has_client_id(self),
        ensures
            r == client_id_spec(self),
    {
        match self {
            Self::LoginSuccess => 0x2,
            Self::BundleDelimiter => 0,
            Self::SpawnEntify => 0x01,
            Self::SpawnPlayer => 0x03,
            Self::PluginMessage => 0x17,
            Self::ChangeDifficulty => 0x0c,
            Self::LoginPlay => 0x28,
            Self::FeatureFlags => 0x6b,
            Self::PlayerAbilities => 0x34,
            Self::SetHeldItem => 0x4d,
            Self::UpdateRecipes => 0x6d,
            Self::ChunkDataAndUpdateLight => 0x24,
            Self::Respawn => 0x41,
            Self::SynchronizePlayerPosition => 0x3c,
            _ => 0,
        }
    }
}

} // verus!
