use vstd::prelude::*;

use crate::BuiltPacket;
use crate::Encodable;
use crate::common::Difficulty;
use crate::common::GameMode;
use crate::common::PlayerAbilitiesFlags;
use crate::common::State;
use crate::common::SynchronizePlayerPositionFlags;
use crate::primitive::Angle;
use crate::primitive::BoolConditional;
use crate::primitive::Chat;
use crate::primitive::F32Bits;
use crate::primitive::F64Bits;
use crate::primitive::Identifier;
use crate::primitive::NbtBlob;
use crate::primitive::Position;
use crate::primitive::Todo;
use crate::primitive::Uuid;
use crate::primitive::VarInt;
use crate::primitive::array::Array;
use crate::primitive::array::PacketInferredInBytes;
use crate::primitive::array::VarIntLength;
use crate::primitive::array::VarIntLengthInBytes;
use crate::primitive::leb128;

verus! {

/// A packet the server can emit: an encodable body tagged with its packet
/// id and the single phase in which sending it is legal.
pub trait ClientBoundPacket: Encodable {
    /// The packet's id.
    spec fn packet_id_spec() -> i32;

    /// The packet's id, as a runtime value.
    fn packet_id() -> (r: i32)
        ensures
            r == Self::packet_id_spec(),
    ;

    /// The single phase in which this packet may be sent.
    spec fn valid_state_spec() -> State;

    /// The legal phase, as a runtime value.
    fn valid_state() -> (r: State)
        ensures
            r == Self::valid_state_spec(),
    ;

    /// Check that the packet is legal in the current phase. Sending in any
    /// other phase is a programming error, which the precondition excludes.
    fn verify(&self, current_state: State)
        requires
            current_state == Self::valid_state_spec(),
    {
    }

    /// The frame body: the packet id as a VarInt, then the field encodings.
    fn to_bytes(&self) -> (b: Vec<u8>)
        ensures
            self.encodable() ==> b@ == leb128::spec_build_var_int(Self::packet_id_spec())
                + self.encoding(),
    {
        let mut buf: Vec<u8> = Vec::new();
        let _ = VarInt(Self::packet_id()).encode(&mut buf);
        let _ = self.encode(&mut buf);
        proof {
            if self.encodable() {
                assert(buf@ =~= leb128::spec_build_var_int(Self::packet_id_spec())
                    + self.encoding());
            }
        }
        buf
    }

    /// The frame body, ready for the framing layer.
    fn to_packet(&self) -> (b: BuiltPacket)
        ensures
            self.encodable() ==> b@ == leb128::spec_build_var_int(Self::packet_id_spec())
                + self.encoding(),
    {
        BuiltPacket::from_bytes(self.to_bytes())
    }
}

/// The server's status document, a JSON string.
#[derive(Debug, PartialEq, Eq, Clone)]
pub struct StatusResponse {
    pub json_response: String,
}

impl View for StatusResponse {
    type V = StatusResponse;

    open spec fn view(&self) -> StatusResponse {
        *self
    }
}

impl Encodable for StatusResponse {
    open spec fn encodable(&self) -> bool {
        self.json_response.encodable()
    }

    open spec fn encoding(&self) -> Seq<u8> {
        self.json_response.encoding()
    }

    fn encode(&self, out: &mut Vec<u8>) -> (n: usize) {
        self.json_response.encode(out)
    }
}

impl ClientBoundPacket for StatusResponse {
    open spec fn packet_id_spec() -> i32 {
        0
    }

    fn packet_id() -> (r: i32) {
        0
    }

    open spec fn valid_state_spec() -> State {
        State::Status
    }

    fn valid_state() -> (r: State) {
        State::Status
    }
}

/// A reason for closing the connection, shown to the player.
#[derive(Debug, PartialEq, Eq, Clone)]
pub struct Disconnect {
    pub chat: Chat,
}

impl View for Disconnect {
    type V = Disconnect;

    open spec fn view(&self) -> Disconnect {
        *self
    }
}

impl Encodable for Disconnect {
    open spec fn encodable(&self) -> bool {
        self.chat.encodable()
    }

    open spec fn encoding(&self) -> Seq<u8> {
        self.chat.encoding()
    }

    fn encode(&self, out: &mut Vec<u8>) -> (n: usize) {
        self.chat.encode(out)
    }
}

impl ClientBoundPacket for Disconnect {
    open spec fn packet_id_spec() -> i32 {
        0
    }

    fn packet_id() -> (r: i32) {
        0
    }

    open spec fn valid_state_spec() -> State {
        State::Login
    }

    fn valid_state() -> (r: State) {
        State::Login
    }
}

/// The server's half of the encryption handshake.
#[derive(Debug, PartialEq, Eq)]
pub struct EncryptionRequest {
    pub server_id: String,
    pub public_key: Array<VarIntLength, u8>,
    pub verify_token: Array<VarIntLength, u8>,
}

impl View for EncryptionRequest {
    type V = EncryptionRequest;

    open spec fn view(&self) -> EncryptionRequest {
        *self
    }
}

impl Encodable for EncryptionRequest {
    open spec fn encodable(&self) -> bool {
        self.server_id.encodable() && self.public_key.encodable() && self.verify_token.encodable()
    }

    open spec fn encoding(&self) -> Seq<u8> {
        self.server_id.encoding() + self.public_key.encoding() + self.verify_token.encoding()
    }

    fn encode(&self, out: &mut Vec<u8>) -> (n: usize) {
        let start = out.len();
        let _ = self.server_id.encode(out);
        let _ = self.public_key.encode(out);
        let _ = self.verify_token.encode(out);
        proof {
            if self.encodable() {
                assert(out@ =~= old(out)@ + self.encoding());
            }
            assert(old(out)@ =~= out@.take(old(out)@.len() as int));
        }
        out.len() - start
    }
}

impl ClientBoundPacket for EncryptionRequest {
    open spec fn packet_id_spec() -> i32 {
        1
    }

    fn packet_id() -> (r: i32) {
        1
    }

    open spec fn valid_state_spec() -> State {
        State::Login
    }

    fn valid_state() -> (r: State) {
        State::Login
    }
}

/// One property of a logged-in profile, optionally signed.
#[derive(Debug, PartialEq, Eq, Clone)]
pub struct LoginSuccessProperty {
    pub name: String,
    pub value: String,
    pub signature: BoolConditional<String>,
}

impl View for LoginSuccessProperty {
    type V = LoginSuccessProperty;

    open spec fn view(&self) -> LoginSuccessProperty {
        *self
    }
}

impl Encodable for LoginSuccessProperty {
    open spec fn encodable(&self) -> bool {
        self.name.encodable() && self.value.encodable() && self.signature.encodable()
    }

    open spec fn encoding(&self) -> Seq<u8> {
        self.name.encoding() + self.value.encoding() + self.signature.encoding()
    }

    fn encode(&self, out: &mut Vec<u8>) -> (n: usize) {
        let start = out.len();
        let _ = self.name.encode(out);
        let _ = self.value.encode(out);
        let _ = self.signature.encode(out);
        proof {
            if self.encodable() {
                assert(out@ =~= old(out)@ + self.encoding());
            }
            assert(old(out)@ =~= out@.take(old(out)@.len() as int));
        }
        out.len() - start
    }
}

/// The server's acceptance of a login: the player's UUID (sixteen
/// big-endian bytes, equal to the one the client presented), name, and
/// profile properties.
#[derive(Debug, PartialEq, Eq)]
pub struct LoginSuccess {
    pub uuid: Uuid,
    pub user_name: String,
    pub property: Array<VarIntLength, LoginSuccessProperty>,
}

impl View for LoginSuccess {
    type V = LoginSuccess;

    open spec fn view(&self) -> LoginSuccess {
        *self
    }
}

impl Encodable for LoginSuccess {
    open spec fn encodable(&self) -> bool {
        self.user_name.encodable() && self.property.encodable()
    }

    open spec fn encoding(&self) -> Seq<u8> {
        self.uuid.encoding() + self.user_name.encoding() + self.property.encoding()
    }

    fn encode(&self, out: &mut Vec<u8>) -> (n: usize) {
        let start = out.len();
        let _ = self.uuid.encode(out);
        let _ = self.user_name.encode(out);
        let _ = self.property.encode(out);
        proof {
            if self.encodable() {
                assert(out@ =~= old(out)@ + self.encoding());
            }
            assert(old(out)@ =~= out@.take(old(out)@.len() as int));
        }
        out.len() - start
    }
}

impl ClientBoundPacket for LoginSuccess {
    open spec fn packet_id_spec() -> i32 {
        2
    }

    fn packet_id() -> (r: i32) {
        2
    }

    open spec fn valid_state_spec() -> State {
        State::Login
    }

    fn valid_state() -> (r: State) {
        State::Login
    }
}

/// The compression threshold announcement.
#[derive(Debug, PartialEq, Eq, Clone, Copy, Hash, Structural)]
pub struct SetCompression {
    pub threshold: VarInt,
}

impl View for SetCompression {
    type V = SetCompression;

    open spec fn view(&self) -> SetCompression {
        *self
    }
}

impl Encodable for SetCompression {
    open spec fn encodable(&self) -> bool {
        true
    }

    open spec fn encoding(&self) -> Seq<u8> {
        self.threshold.encoding()
    }

    fn encode(&self, out: &mut Vec<u8>) -> (n: usize) {
        self.threshold.encode(out)
    }
}

impl ClientBoundPacket for SetCompression {
    open spec fn packet_id_spec() -> i32 {
        3
    }

    fn packet_id() -> (r: i32) {
        3
    }

    open spec fn valid_state_spec() -> State {
        State::Login
    }

    fn valid_state() -> (r: State) {
        State::Login
    }
}

/// A plugin channel request during login; the payload runs to the end of
/// the frame.
#[derive(Debug, PartialEq, Eq)]
pub struct PluginRequest {
    pub message_id: VarInt,
    pub channel: Identifier,
    pub data: Array<PacketInferredInBytes, u8>,
}

impl View for PluginRequest {
    type V = PluginRequest;

    open spec fn view(&self) -> PluginRequest {
        *self
    }
}

impl Encodable for PluginRequest {
    open spec fn encodable(&self) -> bool {
        self.channel.encodable() && self.data.encodable()
    }

    open spec fn encoding(&self) -> Seq<u8> {
        self.message_id.encoding() + self.channel.encoding() + self.data.encoding()
    }

    fn encode(&self, out: &mut Vec<u8>) -> (n: usize) {
        let start = out.len();
        let _ = self.message_id.encode(out);
        let _ = self.channel.encode(out);
        let _ = self.data.encode(out);
        proof {
            if self.encodable() {
                assert(out@ =~= old(out)@ + self.encoding());
            }
            assert(old(out)@ =~= out@.take(old(out)@.len() as int));
        }
        out.len() - start
    }
}

impl ClientBoundPacket for PluginRequest {
    open spec fn packet_id_spec() -> i32 {
        4
    }

    fn packet_id() -> (r: i32) {
        4
    }

    open spec fn valid_state_spec() -> State {
        State::Login
    }

    fn valid_state() -> (r: State) {
        State::Login
    }
}

/// A new entity entering the world, with its position and velocity. The
/// coordinate fields carry IEEE-754 bit patterns.
#[derive(Debug, PartialEq, Eq, Clone, Copy, Hash, Structural)]
pub struct SpawnEntity {
    pub entity_id: VarInt,
    pub entity_uuid: Uuid,
    pub mob_type: VarInt,
    pub x: F64Bits,
    pub y: F64Bits,
    pub z: F64Bits,
    pub pitch: Angle,
    pub yaw: Angle,
    pub head_yaw: Angle,
    pub data: VarInt,
    pub velocity_x: i16,
    pub velocity_y: i16,
    pub velocity_z: i16,
}

impl View for SpawnEntity {
    type V = SpawnEntity;

    open spec fn view(&self) -> SpawnEntity {
        *self
    }
}

impl Encodable for SpawnEntity {
    open spec fn encodable(&self) -> bool {
        true
    }

    open spec fn encoding(&self) -> Seq<u8> {
        self.entity_id.encoding() + self.entity_uuid.encoding() + self.mob_type.encoding()
            + self.x.encoding() + self.y.encoding() + self.z.encoding() + self.pitch.encoding()
            + self.yaw.encoding() + self.head_yaw.encoding() + self.data.encoding()
            + self.velocity_x.encoding() + self.velocity_y.encoding() + self.velocity_z.encoding()
    }

    fn encode(&self, out: &mut Vec<u8>) -> (n: usize) {
        let start = out.len();
        let _ = self.entity_id.encode(out);
        let _ = self.entity_uuid.encode(out);
        let _ = self.mob_type.encode(out);
        let _ = self.x.encode(out);
        let _ = self.y.encode(out);
        let _ = self.z.encode(out);
        let _ = self.pitch.encode(out);
        let _ = self.yaw.encode(out);
        let _ = self.head_yaw.encode(out);
        let _ = self.data.encode(out);
        let _ = self.velocity_x.encode(out);
        let _ = self.velocity_y.encode(out);
        let _ = self.velocity_z.encode(out);
        proof {
            assert(out@ =~= old(out)@ + self.encoding());
            assert(old(out)@ =~= out@.take(old(out)@.len() as int));
        }
        out.len() - start
    }
}

impl ClientBoundPacket for SpawnEntity {
    open spec fn packet_id_spec() -> i32 {
        0x01
    }

    fn packet_id() -> (r: i32) {
        0x01
    }

    open spec fn valid_state_spec() -> State {
        State::Play
    }

    fn valid_state() -> (r: State) {
        State::Play
    }
}

/// A change of world difficulty.
#[derive(Debug, PartialEq, Eq, Clone, Copy, Hash, Structural)]
pub struct ChangeDifficulty {
    pub new_difficulty: Difficulty,
    pub difficulty_locked: bool,
}

impl View for ChangeDifficulty {
    type V = ChangeDifficulty;

    open spec fn view(&self) -> ChangeDifficulty {
        *self
    }
}

impl Encodable for ChangeDifficulty {
    open spec fn encodable(&self) -> bool {
        self.new_difficulty.encodable()
    }

    open spec fn encoding(&self) -> Seq<u8> {
        self.new_difficulty.encoding() + self.difficulty_locked.encoding()
    }

    fn encode(&self, out: &mut Vec<u8>) -> (n: usize) {
        let start = out.len();
        let _ = self.new_difficulty.encode(out);
        let _ = self.difficulty_locked.encode(out);
        proof {
            if self.encodable() {
                assert(out@ =~= old(out)@ + self.encoding());
            }
            assert(old(out)@ =~= out@.take(old(out)@.len() as int));
        }
        out.len() - start
    }
}

impl ClientBoundPacket for ChangeDifficulty {
    open spec fn packet_id_spec() -> i32 {
        0x0c
    }

    fn packet_id() -> (r: i32) {
        0x0c
    }

    open spec fn valid_state_spec() -> State {
        State::Play
    }

    fn valid_state() -> (r: State) {
        State::Play
    }
}

/// A named channel's payload for the client; the payload runs to the end
/// of the frame.
#[derive(Debug, PartialEq, Eq)]
pub struct PluginMessage {
    pub channel: Identifier,
    pub data: Array<PacketInferredInBytes, u8>,
}

impl View for PluginMessage {
    type V = PluginMessage;

    open spec fn view(&self) -> PluginMessage {
        *self
    }
}

impl Encodable for PluginMessage {
    open spec fn encodable(&self) -> bool {
        self.channel.encodable() && self.data.encodable()
    }

    open spec fn encoding(&self) -> Seq<u8> {
        self.channel.encoding() + self.data.encoding()
    }

    fn encode(&self, out: &mut Vec<u8>) -> (n: usize) {
        let start = out.len();
        let _ = self.channel.encode(out);
        let _ = self.data.encode(out);
        proof {
            if self.encodable() {
                assert(out@ =~= old(out)@ + self.encoding());
            }
            assert(old(out)@ =~= out@.take(old(out)@.len() as int));
        }
        out.len() - start
    }
}

impl ClientBoundPacket for PluginMessage {
    open spec fn packet_id_spec() -> i32 {
        0x17
    }

    fn packet_id() -> (r: i32) {
        0x17
    }

    open spec fn valid_state_spec() -> State {
        State::Play
    }

    fn valid_state() -> (r: State) {
        State::Play
    }
}

/// A block-state or biome container whose palette layout depends on its
/// bit width; the palette's wire format is an open item.
#[derive(Debug, PartialEq, Eq)]
pub struct PalettedContainer {
    pub bits_per_entry: u8,
    pub palette: Todo,
    pub data_array: Array<VarIntLength, i64>,
}

impl View for PalettedContainer {
    type V = PalettedContainer;

    open spec fn view(&self) -> PalettedContainer {
        *self
    }
}

impl Encodable for PalettedContainer {
    open spec fn encodable(&self) -> bool {
        false
    }

    open spec fn encoding(&self) -> Seq<u8> {
        self.bits_per_entry.encoding() + self.palette.encoding() + self.data_array.encoding()
    }

    fn encode(&self, out: &mut Vec<u8>) -> (n: usize) {
        let start = out.len();
        let _ = self.bits_per_entry.encode(out);
        let _ = self.palette.encode(out);
        let _ = self.data_array.encode(out);
        proof {
            assert(old(out)@ =~= out@.take(old(out)@.len() as int));
        }
        out.len() - start
    }
}

/// One 16 x 16 x 16 section of a chunk column.
#[derive(Debug, PartialEq, Eq)]
pub struct ChunkSection {
    pub block_count: i16,
    pub block_states: PalettedContainer,
    pub biomes: PalettedContainer,
}

impl View for ChunkSection {
    type V = ChunkSection;

    open spec fn view(&self) -> ChunkSection {
        *self
    }
}

impl Encodable for ChunkSection {
    open spec fn encodable(&self) -> bool {
        false
    }

    open spec fn encoding(&self) -> Seq<u8> {
        self.block_count.encoding() + self.block_states.encoding() + self.biomes.encoding()
    }

    fn encode(&self, out: &mut Vec<u8>) -> (n: usize) {
        let start = out.len();
        let _ = self.block_count.encode(out);
        let _ = self.block_states.encode(out);
        let _ = self.biomes.encode(out);
        proof {
            assert(old(out)@ =~= out@.take(old(out)@.len() as int));
        }
        out.len() - start
    }
}

/// A block entity within a chunk: its offset, height, kind and data tree.
#[derive(Debug)]
pub struct BlockEntity {
    pub xy: crate::common::InChunkOffset,
    pub y: u16,
    pub be_type: VarInt,
    pub data: NbtBlob,
}

impl View for BlockEntity {
    type V = BlockEntity;

    open spec fn view(&self) -> BlockEntity {
        *self
    }
}

impl Encodable for BlockEntity {
    open spec fn encodable(&self) -> bool {
        true
    }

    open spec fn encoding(&self) -> Seq<u8> {
        self.xy.encoding() + self.y.encoding() + self.be_type.encoding() + self.data.encoding()
    }

    fn encode(&self, out: &mut Vec<u8>) -> (n: usize) {
        let start = out.len();
        let _ = self.xy.encode(out);
        let _ = self.y.encode(out);
        let _ = self.be_type.encode(out);
        let _ = self.data.encode(out);
        proof {
            assert(out@ =~= old(out)@ + self.encoding());
            assert(old(out)@ =~= out@.take(old(out)@.len() as int));
        }
        out.len() - start
    }
}

/// One chunk column's blocks, block entities and light, sent as the player
/// comes into range.
#[derive(Debug)]
pub struct ChunkDataAndUpdateLight {
    pub chunk_x: i32,
    pub chunk_z: i32,
    pub height_maps: NbtBlob,
    pub chunk_data: Array<VarIntLengthInBytes, ChunkSection>,
    pub block_entities: Array<VarIntLength, BlockEntity>,
    pub sky_light_mask: Array<VarIntLength, i64>,
    pub block_light_mask: Array<VarIntLength, i64>,
    pub empty_sky_light_mask: Array<VarIntLength, i64>,
    pub empty_block_light_mask: Array<VarIntLength, i64>,
    pub sky_lights_array: Array<VarIntLength, Array<VarIntLength, u8>>,
    pub block_lights_array: Array<VarIntLength, Array<VarIntLength, u8>>,
}

impl View for ChunkDataAndUpdateLight {
    type V = ChunkDataAndUpdateLight;

    open spec fn view(&self) -> ChunkDataAndUpdateLight {
        *self
    }
}

impl Encodable for ChunkDataAndUpdateLight {
    open spec fn encodable(&self) -> bool {
        &&& self.chunk_data.inner@.len() == 0
        &&& self.block_entities.encodable()
        &&& self.sky_light_mask.encodable()
        &&& self.block_light_mask.encodable()
        &&& self.empty_sky_light_mask.encodable()
        &&& self.empty_block_light_mask.encodable()
        &&& self.sky_lights_array.encodable()
        &&& self.block_lights_array.encodable()
    }

    open spec fn encoding(&self) -> Seq<u8> {
        self.chunk_x.encoding() + self.chunk_z.encoding() + self.height_maps.encoding()
            + self.chunk_data.encoding() + self.block_entities.encoding()
            + self.sky_light_mask.encoding() + self.block_light_mask.encoding()
            + self.empty_sky_light_mask.encoding() + self.empty_block_light_mask.encoding()
            + self.sky_lights_array.encoding() + self.block_lights_array.encoding()
    }

    fn encode(&self, out: &mut Vec<u8>) -> (n: usize) {
        let start = out.len();
        let _ = self.chunk_x.encode(out);
        let _ = self.chunk_z.encode(out);
        let _ = self.height_maps.encode(out);
        let _ = self.chunk_data.encode(out);
        let _ = self.block_entities.encode(out);
        let _ = self.sky_light_mask.encode(out);
        let _ = self.block_light_mask.encode(out);
        let _ = self.empty_sky_light_mask.encode(out);
        let _ = self.empty_block_light_mask.encode(out);
        let _ = self.sky_lights_array.encode(out);
        let _ = self.block_lights_array.encode(out);
        proof {
            if self.encodable() {
                assert(out@ =~= old(out)@ + self.encoding());
            }
            assert(old(out)@ =~= out@.take(old(out)@.len() as int));
        }
        out.len() - start
    }
}

impl ClientBoundPacket for ChunkDataAndUpdateLight {
    open spec fn packet_id_spec() -> i32 {
        0x24
    }

    fn packet_id() -> (r: i32) {
        0x24
    }

    open spec fn valid_state_spec() -> State {
        State::Play
    }

    fn valid_state() -> (r: State) {
        State::Play
    }
}

/// Where a player last died, for the respawn screen.
#[derive(Debug, PartialEq, Eq)]
pub struct DeathLocation {
    pub dimension_name: Identifier,
    pub location: Position,
}

impl View for DeathLocation {
    type V = DeathLocation;

    open spec fn view(&self) -> DeathLocation {
        *self
    }
}

impl Encodable for DeathLocation {
    open spec fn encodable(&self) -> bool {
        self.dimension_name.encodable() && self.location.encodable()
    }

    open spec fn encoding(&self) -> Seq<u8> {
        self.dimension_name.encoding() + self.location.encoding()
    }

    fn encode(&self, out: &mut Vec<u8>) -> (n: usize) {
        let start = out.len();
        let _ = self.dimension_name.encode(out);
        let _ = self.location.encode(out);
        proof {
            if self.encodable() {
                assert(out@ =~= old(out)@ + self.encoding());
            }
            assert(old(out)@ =~= out@.take(old(out)@.len() as int));
        }
        out.len() - start
    }
}

/// Everything a client needs to enter the world: identity, world shape,
/// the registry data tree, and the session's initial settings.
#[derive(Debug)]
pub struct LoginPlay {
    pub entity_id: i32,
    pub is_hardcore: bool,
    pub game_mode: GameMode,
    pub previous_game_mode: GameMode,
    pub dimension_names: Array<VarIntLength, Identifier>,
    pub registry_codec: NbtBlob,
    pub dimension_type: Identifier,
    pub dimension_name: Identifier,
    pub hashed_seed: u64,
    pub max_players: VarInt,
    pub view_distance: VarInt,
    pub simulation_distance: VarInt,
    pub reduce_debug_info: bool,
    pub enable_respawn_screen: bool,
    pub is_debug: bool,
    pub is_flat: bool,
    pub death_location: BoolConditional<DeathLocation>,
    pub portal_cooldown: VarInt,
}

impl View for LoginPlay {
    type V = LoginPlay;

    open spec fn view(&self) -> LoginPlay {
        *self
    }
}

impl Encodable for LoginPlay {
    open spec fn encodable(&self) -> bool {
        &&& self.dimension_names.encodable()
        &&& self.dimension_type.encodable()
        &&& self.dimension_name.encodable()
        &&& self.death_location.encodable()
    }

    open spec fn encoding(&self) -> Seq<u8> {
        self.entity_id.encoding() + self.is_hardcore.encoding() + self.game_mode.encoding()
            + self.previous_game_mode.encoding() + self.dimension_names.encoding()
            + self.registry_codec.encoding() + self.dimension_type.encoding()
            + self.dimension_name.encoding() + self.hashed_seed.encoding()
            + self.max_players.encoding() + self.view_distance.encoding()
            + self.simulation_distance.encoding() + self.reduce_debug_info.encoding()
            + self.enable_respawn_screen.encoding() + self.is_debug.encoding()
            + self.is_flat.encoding() + self.death_location.encoding()
            + self.portal_cooldown.encoding()
    }

    #[verifier::rlimit(100)]
    fn encode(&self, out: &mut Vec<u8>) -> (n: usize) {
        let start = out.len();
        let _ = self.entity_id.encode(out);
        let _ = self.is_hardcore.encode(out);
        let _ = self.game_mode.encode(out);
        let _ = self.previous_game_mode.encode(out);
        let _ = self.dimension_names.encode(out);
        let _ = self.registry_codec.encode(out);
        let _ = self.dimension_type.encode(out);
        let _ = self.dimension_name.encode(out);
        let _ = self.hashed_seed.encode(out);
        let _ = self.max_players.encode(out);
        let _ = self.view_distance.encode(out);
        let _ = self.simulation_distance.encode(out);
        let _ = self.reduce_debug_info.encode(out);
        let _ = self.enable_respawn_screen.encode(out);
        let _ = self.is_debug.encode(out);
        let _ = self.is_flat.encode(out);
        let _ = self.death_location.encode(out);
        let _ = self.portal_cooldown.encode(out);
        proof {
            if self.encodable() {
                assert(out@ =~= old(out)@ + self.encoding());
            }
            assert(old(out)@ =~= out@.take(old(out)@.len() as int));
        }
        out.len() - start
    }
}

impl ClientBoundPacket for LoginPlay {
    open spec fn packet_id_spec() -> i32 {
        0x28
    }

    fn packet_id() -> (r: i32) {
        0x28
    }

    open spec fn valid_state_spec() -> State {
        State::Play
    }

    fn valid_state() -> (r: State) {
        State::Play
    }
}

/// The player's current abilities and movement parameters; the two speed
/// fields carry IEEE-754 bit patterns.
#[derive(Debug, PartialEq, Eq, Clone, Copy, Hash, Structural)]
pub struct PlayerAbilities {
    pub flags: PlayerAbilitiesFlags,
    pub flying_speed: F32Bits,
    pub field_of_view_modifier: F32Bits,
}

impl View for PlayerAbilities {
    type V = PlayerAbilities;

    open spec fn view(&self) -> PlayerAbilities {
        *self
    }
}

impl Encodable for PlayerAbilities {
    open spec fn encodable(&self) -> bool {
        self.flags.encodable()
    }

    open spec fn encoding(&self) -> Seq<u8> {
        self.flags.encoding() + self.flying_speed.encoding()
            + self.field_of_view_modifier.encoding()
    }

    fn encode(&self, out: &mut Vec<u8>) -> (n: usize) {
        let start = out.len();
        let _ = self.flags.encode(out);
        let _ = self.flying_speed.encode(out);
        let _ = self.field_of_view_modifier.encode(out);
        proof {
            if self.encodable() {
                assert(out@ =~= old(out)@ + self.encoding());
            }
            assert(old(out)@ =~= out@.take(old(out)@.len() as int));
        }
        out.len() - start
    }
}

impl ClientBoundPacket for PlayerAbilities {
    open spec fn packet_id_spec() -> i32 {
        0x34
    }

    fn packet_id() -> (r: i32) {
        0x34
    }

    open spec fn valid_state_spec() -> State {
        State::Play
    }

    fn valid_state() -> (r: State) {
        State::Play
    }
}

/// An authoritative position and view direction for the player; the
/// coordinate fields carry IEEE-754 bit patterns.
#[derive(Debug, PartialEq, Eq, Clone, Copy, Hash, Structural)]
pub struct SynchronizePlayerPosition {
    pub x: F64Bits,
    pub y: F64Bits,
    pub z: F64Bits,
    pub yaw: F32Bits,
    pub pitch: F32Bits,
    pub flags: SynchronizePlayerPositionFlags,
    pub teleport_id: VarInt,
}

impl View for SynchronizePlayerPosition {
    type V = SynchronizePlayerPosition;

    open spec fn view(&self) -> SynchronizePlayerPosition {
        *self
    }
}

impl Encodable for SynchronizePlayerPosition {
    open spec fn encodable(&self) -> bool {
        self.flags.encodable()
    }

    open spec fn encoding(&self) -> Seq<u8> {
        self.x.encoding() + self.y.encoding() + self.z.encoding() + self.yaw.encoding()
            + self.pitch.encoding() + self.flags.encoding() + self.teleport_id.encoding()
    }

    fn encode(&self, out: &mut Vec<u8>) -> (n: usize) {
        let start = out.len();
        let _ = self.x.encode(out);
        let _ = self.y.encode(out);
        let _ = self.z.encode(out);
        let _ = self.yaw.encode(out);
        let _ = self.pitch.encode(out);
        let _ = self.flags.encode(out);
        let _ = self.teleport_id.encode(out);
        proof {
            if self.encodable() {
                assert(out@ =~= old(out)@ + self.encoding());
            }
            assert(old(out)@ =~= out@.take(old(out)@.len() as int));
        }
        out.len() - start
    }
}

impl ClientBoundPacket for SynchronizePlayerPosition {
    open spec fn packet_id_spec() -> i32 {
        0x3c
    }

    fn packet_id() -> (r: i32) {
        0x3c
    }

    open spec fn valid_state_spec() -> State {
        State::Play
    }

    fn valid_state() -> (r: State) {
        State::Play
    }
}

/// Which hotbar slot the player holds.
#[derive(Debug, PartialEq, Eq, Clone, Copy, Hash, Structural)]
pub struct SetHeldItem {
    pub slot: u8,
}

impl View for SetHeldItem {
    type V = SetHeldItem;

    open spec fn view(&self) -> SetHeldItem {
        *self
    }
}

impl Encodable for SetHeldItem {
    open spec fn encodable(&self) -> bool {
        true
    }

    open spec fn encoding(&self) -> Seq<u8> {
        seq![self.slot]
    }

    fn encode(&self, out: &mut Vec<u8>) -> (n: usize) {
        self.slot.encode(out)
    }
}

impl ClientBoundPacket for SetHeldItem {
    open spec fn packet_id_spec() -> i32 {
        0x4d
    }

    fn packet_id() -> (r: i32) {
        0x4d
    }

    open spec fn valid_state_spec() -> State {
        State::Play
    }

    fn valid_state() -> (r: State) {
        State::Play
    }
}

/// The feature flags active on the server.
#[derive(Debug, PartialEq, Eq)]
pub struct FeatureFlags {
    pub features: Array<VarIntLength, crate::common::Feature>,
}

impl View for FeatureFlags {
    type V = FeatureFlags;

    open spec fn view(&self) -> FeatureFlags {
        *self
    }
}

impl Encodable for FeatureFlags {
    open spec fn encodable(&self) -> bool {
        self.features.encodable()
    }

    open spec fn encoding(&self) -> Seq<u8> {
        self.features.encoding()
    }

    fn encode(&self, out: &mut Vec<u8>) -> (n: usize) {
        self.features.encode(out)
    }
}

impl ClientBoundPacket for FeatureFlags {
    open spec fn packet_id_spec() -> i32 {
        0x6b
    }

    fn packet_id() -> (r: i32) {
        0x6b
    }

    open spec fn valid_state_spec() -> State {
        State::Play
    }

    fn valid_state() -> (r: State) {
        State::Play
    }
}

} // verus!
