use vstd::prelude::*;

use crate::DecodeError;
use crate::Decodable;
use crate::Encodable;
use crate::Lossless;
use crate::ReceivedPacket;
use crate::primitive::Identifier;
use crate::primitive::array::Array;
use crate::primitive::array::VarIntLengthInBytes;

verus! {

/// The connection's protocol phase; it gates which packet ids are legal in
/// each direction. A fresh connection starts in `Handshaking`.
#[derive(PartialEq, Eq, Clone, Copy, Debug, Hash, Structural)]
pub enum State {
    Handshaking,
    Status,
    Login,
    Play,
}

/// Whether the frame layer compresses packet bodies. Only the `Disabled`
/// path is implemented; the other variants are the negotiation seam.
#[derive(Debug, PartialEq, Eq, Clone, Copy, Hash, Structural)]
pub enum Compression {
    Disabled,
    Handhsaking,
    Enabled,
}

/// Whether the byte stream is enciphered. Only the `Disabled` path is
/// implemented; the other variants are the negotiation seam.
#[derive(Debug, PartialEq, Eq, Clone, Copy, Hash, Structural)]
pub enum Encryption {
    Disabled,
    Handshaking,
    Enabled,
}

/// A player's game mode, one signed byte on the wire: Undefined is -1,
/// then Survival 0, Creative 1, Adventure 2, Spectator 3.
#[derive(Debug, PartialEq, Eq, Clone, Copy, Hash, Structural)]
pub enum GameMode {
    Undefined,
    Survival,
    Creative,
    Adventure,
    Spectator,
}

impl View for GameMode {
    type V = GameMode;

    open spec fn view(&self) -> GameMode {
        *self
    }
}

/// The wire byte of a game mode.
pub open spec fn game_mode_byte(g: GameMode) -> i8 {
    match g {
        GameMode::Undefined => -1i8,
        GameMode::Survival => 0i8,
        GameMode::Creative => 1i8,
        GameMode::Adventure => 2i8,
        GameMode::Spectator => 3i8,
    }
}

impl Encodable for GameMode {
    open spec fn encodable(&self) -> bool {
        true
    }

    open spec fn encoding(&self) -> Seq<u8> {
        seq![game_mode_byte(*self) as u8]
    }

    fn encode(&self, out: &mut Vec<u8>) -> (n: usize) {
        let raw: i8 = match self {
            GameMode::Undefined => -1,
            GameMode::Survival => 0,
            GameMode::Creative => 1,
            GameMode::Adventure => 2,
            GameMode::Spectator => 3,
        };
        raw.encode(out)
    }
}

impl Decodable for GameMode {
    open spec fn spec_decode(s: Seq<u8>) -> Result<(int, GameMode), DecodeError> {
        match i8::spec_decode(s) {
            Ok(p) => if p.1 == -1 {
                Ok((p.0, GameMode::Undefined))
            } else if p.1 == 0 {
                Ok((p.0, GameMode::Survival))
            } else if p.1 == 1 {
                Ok((p.0, GameMode::Creative))
            } else if p.1 == 2 {
                Ok((p.0, GameMode::Adventure))
            } else if p.1 == 3 {
                Ok((p.0, GameMode::Spectator))
            } else {
                Err(DecodeError::InvalidGameMode(p.1))
            },
            Err(e) => Err(e),
        }
    }

    fn decode(f: &mut ReceivedPacket) -> (r: Result<Self, DecodeError>) {
        let raw = match i8::decode(f) {
            Ok(v) => v,
            Err(e) => {
                return Err(e);
            },
        };
        if raw == -1 {
            Ok(GameMode::Undefined)
        } else if raw == 0 {
            Ok(GameMode::Survival)
        } else if raw == 1 {
            Ok(GameMode::Creative)
        } else if raw == 2 {
            Ok(GameMode::Adventure)
        } else if raw == 3 {
            Ok(GameMode::Spectator)
        } else {
            Err(DecodeError::InvalidGameMode(raw))
        }
    }
}

impl Lossless for GameMode {
    proof fn lemma_round_trip(&self, tail: Seq<u8>) {
        let b = game_mode_byte(*self);
        b.lemma_round_trip(tail);
        assert(b as u8 as i8 == b) by (bit_vector);
        assert(self.encoding() =~= b.encoding());
    }
}

/// A feature flag sent to the client, encoded as a namespaced identifier
/// string; the two standard flags have fixed names.
#[derive(Debug, PartialEq, Eq, Clone, Hash)]
pub enum Feature {
    Vanilla,
    Bundle,
    Other(Identifier),
}

impl View for Feature {
    type V = Feature;

    open spec fn view(&self) -> Feature {
        *self
    }
}

/// The identifier text a feature flag travels as.
pub open spec fn feature_chars(f: Feature) -> Seq<char> {
    match f {
        Feature::Vanilla => "minecraft:vanilla"@,
        Feature::Bundle => "minecraft:bundle"@,
        Feature::Other(id) => id@,
    }
}

impl Encodable for Feature {
    open spec fn encodable(&self) -> bool {
        vstd::utf8::encode_utf8(feature_chars(*self)).len() < 0x8000_0000
    }

    open spec fn encoding(&self) -> Seq<u8> {
        crate::primitive::leb128::spec_build_var_int(
            vstd::utf8::encode_utf8(feature_chars(*self)).len() as i32,
        ) + vstd::utf8::encode_utf8(feature_chars(*self))
    }

    fn encode(&self, out: &mut Vec<u8>) -> (n: usize) {
        match self {
            Feature::Vanilla => {
                let s: String = "minecraft:vanilla".to_owned();
                s.encode(out)
            },
            Feature::Bundle => {
                let s: String = "minecraft:bundle".to_owned();
                s.encode(out)
            },
            Feature::Other(id) => id.encode(out),
        }
    }
}

/// The world difficulty, one unsigned byte on the wire; bytes above 3 are
/// carried through unchanged, so decoding never fails.
#[derive(Debug, PartialEq, Eq, Clone, Copy, Hash, Structural)]
pub enum Difficulty {
    Peaceful,
    Easy,
    Normal,
    Hard,
    Other(u8),
}

impl View for Difficulty {
    type V = Difficulty;

    open spec fn view(&self) -> Difficulty {
        *self
    }
}

/// The wire byte of a difficulty.
pub open spec fn difficulty_byte(d: Difficulty) -> u8 {
    match d {
        Difficulty::Peaceful => 0,
        Difficulty::Easy => 1,
        Difficulty::Normal => 2,
        Difficulty::Hard => 3,
        Difficulty::Other(id) => id,
    }
}

impl Encodable for Difficulty {
    /// An `Other` byte in the named range 0 to 3 is a non-canonical spelling
    /// of a named variant and is excluded.
    open spec fn encodable(&self) -> bool {
        match *self {
            Difficulty::Other(id) => id > 3,
            _ => true,
        }
    }

    open spec fn encoding(&self) -> Seq<u8> {
        seq![difficulty_byte(*self)]
    }

    fn encode(&self, out: &mut Vec<u8>) -> (n: usize) {
        let raw: u8 = match self {
            Difficulty::Peaceful => 0,
            Difficulty::Easy => 1,
            Difficulty::Normal => 2,
            Difficulty::Hard => 3,
            Difficulty::Other(id) => *id,
        };
        raw.encode(out)
    }
}

impl Decodable for Difficulty {
    open spec fn spec_decode(s: Seq<u8>) -> Result<(int, Difficulty), DecodeError> {
        match u8::spec_decode(s) {
            Ok(p) => if p.1 == 0 {
                Ok((p.0, Difficulty::Peaceful))
            } else if p.1 == 1 {
                Ok((p.0, Difficulty::Easy))
            } else if p.1 == 2 {
                Ok((p.0, Difficulty::Normal))
            } else if p.1 == 3 {
                Ok((p.0, Difficulty::Hard))
            } else {
                Ok((p.0, Difficulty::Other(p.1)))
            },
            Err(e) => Err(e),
        }
    }

    fn decode(f: &mut ReceivedPacket) -> (r: Result<Self, DecodeError>) {
        let raw = match u8::decode(f) {
            Ok(v) => v,
            Err(e) => {
                return Err(e);
            },
        };
        if raw == 0 {
            Ok(Difficulty::Peaceful)
        } else if raw == 1 {
            Ok(Difficulty::Easy)
        } else if raw == 2 {
            Ok(Difficulty::Normal)
        } else if raw == 3 {
            Ok(Difficulty::Hard)
        } else {
            Ok(Difficulty::Other(raw))
        }
    }
}

impl Lossless for Difficulty {
    proof fn lemma_round_trip(&self, tail: Seq<u8>) {
        difficulty_byte(*self).lemma_round_trip(tail);
    }
}

/// The four player-ability bits: invulnerable 0x01, flying 0x02, allow
/// flying 0x04, creative mode 0x08.
pub const PLAYER_ABILITIES_MASK: u8 = 0x0f;

/// A set of player-ability flags backed by one byte; bits outside the
/// defined mask are a decode error.
#[derive(Debug, PartialEq, Eq, Clone, Copy, Hash, Structural)]
pub struct PlayerAbilitiesFlags {
    pub bits: u8,
}

impl PlayerAbilitiesFlags {
    /// No flag set.
    pub fn empty() -> (r: Self)
        ensures
            r.bits == 0,
    {
        PlayerAbilitiesFlags { bits: 0 }
    }

    /// Accept a byte whose set bits all lie in the defined mask.
    pub fn from_bits(raw: u8) -> (r: Option<Self>)
        ensures
            raw & 0xf0 == 0 ==> (r matches Some(v) && v.bits == raw),
            raw & 0xf0 != 0 ==> r is None,
    {
        if raw & 0xf0 == 0 {
            Some(PlayerAbilitiesFlags { bits: raw })
        } else {
            None
        }
    }

    /// The backing byte.
    pub fn bits(&self) -> (r: u8)
        ensures
            r == self.bits,
    {
        self.bits
    }
}

impl View for PlayerAbilitiesFlags {
    type V = PlayerAbilitiesFlags;

    open spec fn view(&self) -> PlayerAbilitiesFlags {
        *self
    }
}

impl Encodable for PlayerAbilitiesFlags {
    open spec fn encodable(&self) -> bool {
        self.bits & 0xf0 == 0
    }

    open spec fn encoding(&self) -> Seq<u8> {
        seq![self.bits]
    }

    fn encode(&self, out: &mut Vec<u8>) -> (n: usize) {
        self.bits.encode(out)
    }
}

impl Decodable for PlayerAbilitiesFlags {
    open spec fn spec_decode(s: Seq<u8>) -> Result<(int, PlayerAbilitiesFlags), DecodeError> {
        match u8::spec_decode(s) {
            Ok(p) => if p.1 & 0xf0 == 0 {
                Ok((p.0, PlayerAbilitiesFlags { bits: p.1 }))
            } else {
                Err(DecodeError::InvalidFlags(p.1))
            },
            Err(e) => Err(e),
        }
    }

    fn decode(f: &mut ReceivedPacket) -> (r: Result<Self, DecodeError>) {
        let raw = match u8::decode(f) {
            Ok(v) => v,
            Err(e) => {
                return Err(e);
            },
        };
        if raw & 0xf0 == 0 {
            Ok(PlayerAbilitiesFlags { bits: raw })
        } else {
            Err(DecodeError::InvalidFlags(raw))
        }
    }
}

impl Lossless for PlayerAbilitiesFlags {
    proof fn lemma_round_trip(&self, tail: Seq<u8>) {
        self.bits.lemma_round_trip(tail);
    }
}

/// The five position-synchronisation bits: x 0x01, y 0x02, z 0x04,
/// y-rotation 0x08, x-rotation 0x10.
pub const SYNC_POSITION_MASK: u8 = 0x1f;

/// The flag set of a position synchronisation, one byte; bits outside the
/// defined mask are a decode error.
#[derive(Debug, PartialEq, Eq, Clone, Copy, Hash, Structural)]
pub struct SynchronizePlayerPositionFlags {
    pub bits: u8,
}

impl SynchronizePlayerPositionFlags {
    /// No flag set.
    pub fn empty() -> (r: Self)
        ensures
            r.bits == 0,
    {
        SynchronizePlayerPositionFlags { bits: 0 }
    }

    /// Accept a byte whose set bits all lie in the defined mask.
    pub fn from_bits(raw: u8) -> (r: Option<Self>)
        ensures
            raw & 0xe0 == 0 ==> (r matches Some(v) && v.bits == raw),
            raw & 0xe0 != 0 ==> r is None,
    {
        if raw & 0xe0 == 0 {
            Some(SynchronizePlayerPositionFlags { bits: raw })
        } else {
            None
        }
    }

    /// The backing byte.
    pub fn bits(&self) -> (r: u8)
        ensures
            r == self.bits,
    {
        self.bits
    }
}

impl View for SynchronizePlayerPositionFlags {
    type V = SynchronizePlayerPositionFlags;

    open spec fn view(&self) -> SynchronizePlayerPositionFlags {
        *self
    }
}

impl Encodable for SynchronizePlayerPositionFlags {
    open spec fn encodable(&self) -> bool {
        self.bits & 0xe0 == 0
    }

    open spec fn encoding(&self) -> Seq<u8> {
        seq![self.bits]
    }

    fn encode(&self, out: &mut Vec<u8>) -> (n: usize) {
        self.bits.encode(out)
    }
}

impl Decodable for SynchronizePlayerPositionFlags {
    open spec fn spec_decode(s: Seq<u8>) -> Result<
        (int, SynchronizePlayerPositionFlags),
        DecodeError,
    > {
        match u8::spec_decode(s) {
            Ok(p) => if p.1 & 0xe0 == 0 {
                Ok((p.0, SynchronizePlayerPositionFlags { bits: p.1 }))
            } else {
                Err(DecodeError::InvalidFlags(p.1))
            },
            Err(e) => Err(e),
        }
    }

    fn decode(f: &mut ReceivedPacket) -> (r: Result<Self, DecodeError>) {
        let raw = match u8::decode(f) {
            Ok(v) => v,
            Err(e) => {
                return Err(e);
            },
        };
        if raw & 0xe0 == 0 {
            Ok(SynchronizePlayerPositionFlags { bits: raw })
        } else {
            Err(DecodeError::InvalidFlags(raw))
        }
    }
}

impl Lossless for SynchronizePlayerPositionFlags {
    proof fn lemma_round_trip(&self, tail: Seq<u8>) {
        self.bits.lemma_round_trip(tail);
    }
}

/// A block offset within a chunk column: the low four bits of x and z,
/// packed into one byte as x:4 z:4. Two offsets are equal when they pack
/// to the same byte.
#[derive(Debug, Clone, Copy)]
pub struct InChunkOffset {
    x: i32,
    z: i32,
}

impl View for InChunkOffset {
    type V = i8;

    open spec fn view(&self) -> i8 {
        self.pack_spec()
    }
}

impl InChunkOffset {
    /// Build from block coordinates; only the low four bits of each count.
    pub fn new(x: i32, z: i32) -> (r: Self)
        ensures
            r@ == (((x & 0x0f) << 4u32) | (z & 0x0f)) as i8,
    {
        InChunkOffset { x, z }
    }

    /// The packed byte.
    pub closed spec fn pack_spec(&self) -> i8 {
        (((self.x & 0x0f) << 4u32) | (self.z & 0x0f)) as i8
    }

    /// Pack the two offsets into one byte.
    pub fn pack(self) -> (r: i8)
        ensures
            r == self.pack_spec(),
    {
        let x = self.x & 0x0f;
        let z = self.z & 0x0f;
        #[verifier::truncate] (((x << 4u32) | z) as i8)
    }
}

impl PartialEq for InChunkOffset {
    fn eq(&self, other: &Self) -> (r: bool) {
        self.pack() == other.pack()
    }
}

impl vstd::std_specs::cmp::PartialEqSpecImpl for InChunkOffset {
    open spec fn obeys_eq_spec() -> bool {
        true
    }

    open spec fn eq_spec(&self, other: &Self) -> bool {
        self.pack_spec() == other.pack_spec()
    }
}

impl Encodable for InChunkOffset {
    open spec fn encodable(&self) -> bool {
        true
    }

    open spec fn encoding(&self) -> Seq<u8> {
        seq![self.pack_spec() as u8]
    }

    fn encode(&self, out: &mut Vec<u8>) -> (n: usize) {
        self.pack().encode(out)
    }
}

impl Decodable for InChunkOffset {
    open spec fn spec_decode(s: Seq<u8>) -> Result<(int, i8), DecodeError> {
        match i8::spec_decode(s) {
            Ok(p) => Ok(
                (
                    p.0,
                    (((((p.1 as i32) >> 4u32) & 0x0f) & 0x0f) << 4u32 | (((p.1 as i32) & 0x0f)
                        & 0x0f)) as i8,
                ),
            ),
            Err(e) => Err(e),
        }
    }

    fn decode(f: &mut ReceivedPacket) -> (r: Result<Self, DecodeError>) {
        let raw = match i8::decode(f) {
            Ok(v) => v,
            Err(e) => {
                return Err(e);
            },
        };
        let x = ((raw as i32) >> 4u32) & 0x0f;
        let z = (raw as i32) & 0x0f;
        Ok(InChunkOffset { x, z })
    }
}

impl Lossless for InChunkOffset {
    proof fn lemma_round_trip(&self, tail: Seq<u8>) {
        let b = self.pack_spec();
        (b as u8).lemma_round_trip(tail);
        assert(self.encoding() =~= (b as u8).encoding());
        let x = self.x;
        let z = self.z;
        assert({
            let raw = ((((x & 0x0f) << 4u32) | (z & 0x0f)) as i8) as u8 as i8;
            ((((raw as i32) >> 4u32) & 0x0f) & 0x0f) << 4u32 | (((raw as i32) & 0x0f) & 0x0f)
                == (((x & 0x0f) << 4u32) | (z & 0x0f))
        }) by (bit_vector);
    }
}

/// Half-byte sky light values for a 16 x 16 x 16 section, two values to a
/// byte, indexed by y, then z, then x.
#[derive(Debug)]
pub struct SkyLightArray {
    pub array: Array<VarIntLengthInBytes, u8>,
}

impl View for SkyLightArray {
    type V = Seq<u8>;

    open spec fn view(&self) -> Seq<u8> {
        self.array@
    }
}

impl SkyLightArray {
    /// The byte index of a block's light value, and whether it sits in the
    /// upper half of its byte.
    pub fn to_index(x: u32, y: u32, z: u32) -> (r: (usize, bool))
        requires
            x < 16,
            y < 16,
            z < 16,
        ensures
            r.0 == ((y * 256 + z * 16 + x) as u32 >> 1u32),
            r.1 == ((y * 256 + z * 16 + x) as u32 & 1 == 1),
    {
        let index: u32 = (y << 8u32) | (z << 4u32) | x;
        proof {
            assert((y << 8u32) | (z << 4u32) | x == (y * 256 + z * 16 + x) as u32)
                by (bit_vector)
                requires
                    x < 16 && y < 16 && z < 16,
            ;
        }
        let is_upper = index & 1 == 1;
        ((index >> 1u32) as usize, is_upper)
    }

    /// The light value of a block, one nibble wide.
    pub fn get(&self, x: u32, y: u32, z: u32) -> (r: u8)
        requires
            x < 16,
            y < 16,
            z < 16,
            ((y * 256 + z * 16 + x) as u32 >> 1u32) < self@.len(),
        ensures
            r == ({
                let byte = self@[((y * 256 + z * 16 + x) as u32 >> 1u32) as int];
                if (y * 256 + z * 16 + x) as u32 & 1 == 1 {
                    byte >> 4u32
                } else {
                    byte & 0x0f
                }
            }),
    {
        let (index, is_upper) = Self::to_index(x, y, z);
        let byte = self.array.inner[index];
        if is_upper {
            byte >> 4u32
        } else {
            byte & 0x0f
        }
    }
}

impl Encodable for SkyLightArray {
    open spec fn encodable(&self) -> bool {
        self.array.encodable()
    }

    open spec fn encoding(&self) -> Seq<u8> {
        self.array.encoding()
    }

    fn encode(&self, out: &mut Vec<u8>) -> (n: usize) {
        self.array.encode(out)
    }
}

impl Decodable for SkyLightArray {
    open spec fn spec_decode(s: Seq<u8>) -> Result<(int, Seq<u8>), DecodeError> {
        Array::<VarIntLengthInBytes, u8>::spec_decode(s)
    }

    fn decode(f: &mut ReceivedPacket) -> (r: Result<Self, DecodeError>) {
        match Array::<VarIntLengthInBytes, u8>::decode(f) {
            Ok(array) => Ok(SkyLightArray { array }),
            Err(e) => Err(e),
        }
    }
}

impl Lossless for SkyLightArray {
    proof fn lemma_round_trip(&self, tail: Seq<u8>) {
        self.array.lemma_round_trip(tail);
    }
}

} // verus!
