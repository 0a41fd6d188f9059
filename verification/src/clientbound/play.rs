//! Play-state packets to the client: the ones this engine sends right
//! after a login completes.
//!
//! A disconnect reason is carried as the serialized text of the chat
//! document. The two fractional player-ability quantities travel as
//! the four big-endian bytes of their IEEE-754 bit patterns; the
//! packet stores those 32-bit patterns as plain integers, so the wire
//! form is exact and the codec stays within integer arithmetic.

use crate::buffer::Buffer;
use crate::clientbound::{CbView, ClientboundPacket};
use crate::error::CodecError;
use crate::game::{Difficulty, Dimension, Gamemode, LevelType};
use crate::wire::{
    be32, be64, lemma_i32_u32_inverse, sp_bool, sp_i32, sp_i64, sp_string, sp_u32, sp_u8,
    sp_varint, spec_str_bytes, str_fits, u32_of_i32, u64_of_i64, var_bytes,
};
use vstd::prelude::*;

verus! {

#[derive(Debug)]
pub struct ServerDifficultyPacket {
    pub difficulty: Difficulty,
    pub locked: bool,
}

pub struct ServerDifficultyView {
    pub difficulty: Difficulty,
    pub locked: bool,
}

impl View for ServerDifficultyPacket {
    type V = ServerDifficultyView;

    open spec fn view(&self) -> ServerDifficultyView {
        ServerDifficultyView { difficulty: self.difficulty, locked: self.locked }
    }
}

impl ServerDifficultyPacket {
    pub fn new(difficulty: Difficulty, locked: bool) -> (r: ClientboundPacket)
        ensures
            r matches ClientboundPacket::ServerDifficulty(p) && p.difficulty == difficulty
                && p.locked == locked,
    {
        ClientboundPacket::ServerDifficulty(ServerDifficultyPacket { difficulty, locked })
    }

    /// One difficulty byte, one locked flag.
    pub open spec fn sp_body(s: Seq<u8>) -> Result<(CbView, nat), CodecError> {
        match sp_u8(s) {
            Err(e) => Err(e),
            Ok((b, a)) => match Difficulty::spec_from(b) {
                None => Err(CodecError::Malformed),
                Some(difficulty) => match sp_bool(s.skip(a as int)) {
                    Err(e) => Err(e),
                    Ok((locked, c)) => Ok(
                        (
                            CbView::ServerDifficulty(
                                ServerDifficultyView { difficulty, locked },
                            ),
                            (a + c) as nat,
                        ),
                    ),
                },
            },
        }
    }

    pub open spec fn spec_payload(&self) -> Seq<u8> {
        seq![self.difficulty.spec_value()] + seq![
            if self.locked {
                1u8
            } else {
                0u8
            },
        ]
    }

    pub open spec fn payload_fits(&self) -> bool {
        true
    }

    pub fn deserialize(buffer: &mut Buffer) -> (r: Result<ClientboundPacket, CodecError>)
        requires
            old(buffer).wf(),
        ensures
            final(buffer).wf(),
            final(buffer).data() == old(buffer).data(),
            match r {
                Ok(p) => Self::sp_body(old(buffer).remaining()) matches Ok(pr) && pr.0 == p@
                    && final(buffer).pos() == old(buffer).pos() + pr.1,
                Err(e) => Self::sp_body(old(buffer).remaining()) == Err::<
                    (CbView, nat),
                    CodecError,
                >(e),
            },
    {
        let ghost s = old(buffer).remaining();
        let b = match buffer.read_ubyte() {
            Ok(v) => v,
            Err(e) => {
                return Err(e);
            },
        };
        proof {
            assert(buffer.remaining() =~= s.skip(1));
        }
        let difficulty = match Difficulty::from_u8(b) {
            Some(d) => d,
            None => {
                return Err(CodecError::Malformed);
            },
        };
        let locked = match buffer.read_bool() {
            Ok(v) => v,
            Err(e) => {
                return Err(e);
            },
        };
        Ok(ClientboundPacket::ServerDifficulty(ServerDifficultyPacket { difficulty, locked }))
    }

    pub fn serialize(&self, buffer: &mut Buffer) -> (r: Result<(), CodecError>)
        requires
            old(buffer).wf(),
        ensures
            final(buffer).wf(),
            final(buffer).pos() == old(buffer).pos(),
            r is Ok <==> self.payload_fits(),
            r is Ok ==> final(buffer).data() == old(buffer).data() + self.spec_payload(),
            r is Err ==> final(buffer).data() == old(buffer).data(),
    {
        buffer.write_ubyte(self.difficulty.as_u8());
        buffer.write_bool(self.locked);
        assert(buffer.data() =~= old(buffer).data() + self.spec_payload());
        Ok(())
    }
}

#[derive(Debug)]
pub struct DisconnectPlayPacket {
    pub reason: String,
}

pub struct DisconnectPlayView {
    pub reason: Seq<char>,
}

impl View for DisconnectPlayPacket {
    type V = DisconnectPlayView;

    open spec fn view(&self) -> DisconnectPlayView {
        DisconnectPlayView { reason: self.reason@ }
    }
}

impl DisconnectPlayPacket {
    /// Wrap a serialized reason document.
    pub fn new(reason: String) -> (r: ClientboundPacket)
        ensures
            r matches ClientboundPacket::DisconnectPlay(p) && p.reason@ == reason@,
    {
        ClientboundPacket::DisconnectPlay(DisconnectPlayPacket { reason })
    }

    pub open spec fn sp_body(s: Seq<u8>) -> Result<(CbView, nat), CodecError> {
        match sp_string(s) {
            Err(e) => Err(e),
            Ok((reason, a)) => Ok((CbView::DisconnectPlay(DisconnectPlayView { reason }), a)),
        }
    }

    pub open spec fn spec_payload(&self) -> Seq<u8> {
        spec_str_bytes(self.reason@)
    }

    pub open spec fn payload_fits(&self) -> bool {
        str_fits(self.reason@)
    }

    pub fn deserialize(buffer: &mut Buffer) -> (r: Result<ClientboundPacket, CodecError>)
        requires
            old(buffer).wf(),
        ensures
            final(buffer).wf(),
            final(buffer).data() == old(buffer).data(),
            match r {
                Ok(p) => Self::sp_body(old(buffer).remaining()) matches Ok(pr) && pr.0 == p@
                    && final(buffer).pos() == old(buffer).pos() + pr.1,
                Err(e) => Self::sp_body(old(buffer).remaining()) == Err::<
                    (CbView, nat),
                    CodecError,
                >(e),
            },
    {
        let reason = match buffer.read_string() {
            Ok(v) => v,
            Err(e) => {
                return Err(e);
            },
        };
        Ok(ClientboundPacket::DisconnectPlay(DisconnectPlayPacket { reason }))
    }

    pub fn serialize(&self, buffer: &mut Buffer) -> (r: Result<(), CodecError>)
        requires
            old(buffer).wf(),
        ensures
            final(buffer).wf(),
            final(buffer).pos() == old(buffer).pos(),
            r is Ok <==> self.payload_fits(),
            r is Ok ==> final(buffer).data() == old(buffer).data() + self.spec_payload(),
            r is Err ==> final(buffer).data() == old(buffer).data(),
    {
        match buffer.write_string(self.reason.as_str()) {
            Ok(_) => Ok(()),
            Err(e) => Err(e),
        }
    }
}

#[derive(Debug)]
pub struct PluginMessagePacket {
    pub channel: String,
    pub data: Vec<u8>,
}

pub struct PluginMessageView {
    pub channel: Seq<char>,
    pub data: Seq<u8>,
}

impl View for PluginMessagePacket {
    type V = PluginMessageView;

    open spec fn view(&self) -> PluginMessageView {
        PluginMessageView { channel: self.channel@, data: self.data@ }
    }
}

impl PluginMessagePacket {
    pub fn new(channel: &str, data: &[u8]) -> (r: ClientboundPacket)
        ensures
            r matches ClientboundPacket::PluginMessage(p) && p.channel@ == channel@ && p.data@
                == data@,
    {
        let mut d: Vec<u8> = Vec::new();
        d.extend_from_slice(data);
        proof {
            assert(d@ =~= data@);
        }
        ClientboundPacket::PluginMessage(
            PluginMessagePacket { channel: channel.to_owned(), data: d },
        )
    }

    /// The vendor-brand message: the vendor name as a wire string on
    /// the brand channel.
    pub fn new_minecraft_brand(vendor: &str) -> (r: Result<ClientboundPacket, CodecError>)
        ensures
            r matches Ok(p) ==> str_fits(vendor@) && (p matches ClientboundPacket::PluginMessage(
                q,
            ) && q.channel@ == "minecraft:brand"@ && q.data@ == spec_str_bytes(vendor@)),
            r is Err ==> !str_fits(vendor@),
    {
        let mut tmp = Buffer::new();
        match tmp.write_string(vendor) {
            Ok(_) => {},
            Err(e) => {
                return Err(e);
            },
        }
        let mut d: Vec<u8> = Vec::new();
        d.extend_from_slice(tmp.as_raw());
        proof {
            assert(d@ =~= spec_str_bytes(vendor@));
        }
        Ok(
            ClientboundPacket::PluginMessage(
                PluginMessagePacket { channel: "minecraft:brand".to_owned(), data: d },
            ),
        )
    }

    /// A channel string, then raw bytes up to the end of the frame's
    /// payload; the payload length is supplied by the frame decoder.
    pub open spec fn sp_body(s: Seq<u8>, payload_len: nat) -> Result<(CbView, nat), CodecError> {
        match sp_string(s) {
            Err(e) => Err(e),
            Ok((channel, c)) => {
                if c > payload_len {
                    Err(CodecError::Malformed)
                } else if s.len() < payload_len {
                    Err(CodecError::Truncated)
                } else {
                    Ok(
                        (
                            CbView::PluginMessage(
                                PluginMessageView {
                                    channel,
                                    data: s.subrange(c as int, payload_len as int),
                                },
                            ),
                            payload_len,
                        ),
                    )
                }
            },
        }
    }

    pub open spec fn spec_payload(&self) -> Seq<u8> {
        spec_str_bytes(self.channel@) + self.data@
    }

    pub open spec fn payload_fits(&self) -> bool {
        str_fits(self.channel@)
    }

    pub fn deserialize(buffer: &mut Buffer, payload_size: usize) -> (r: Result<
        ClientboundPacket,
        CodecError,
    >)
        requires
            old(buffer).wf(),
        ensures
            final(buffer).wf(),
            final(buffer).data() == old(buffer).data(),
            match r {
                Ok(p) => Self::sp_body(old(buffer).remaining(), payload_size as nat) matches Ok(pr)
                    && pr.0 == p@ && final(buffer).pos() == old(buffer).pos() + pr.1,
                Err(e) => Self::sp_body(old(buffer).remaining(), payload_size as nat) == Err::<
                    (CbView, nat),
                    CodecError,
                >(e),
            },
    {
        let ghost s = old(buffer).remaining();
        let start = buffer.cursor();
        let channel = match buffer.read_string() {
            Ok(v) => v,
            Err(e) => {
                return Err(e);
            },
        };
        let ghost c = buffer.pos() - old(buffer).pos();
        proof {
            assert(sp_string(s) matches Ok(p) && p.0 == channel@ && p.1 == c as nat);
            assert(buffer.remaining() =~= s.skip(c));
        }
        let channel_len = buffer.cursor() - start;
        if channel_len > payload_size {
            buffer.seek(start);
            return Err(CodecError::Malformed);
        }
        let data_size = payload_size - channel_len;
        let data = match buffer.read_ubyte_array(data_size) {
            Ok(v) => v,
            Err(e) => {
                buffer.seek(start);
                return Err(e);
            },
        };
        proof {
            assert(data@ =~= s.subrange(c, payload_size as int));
        }
        Ok(ClientboundPacket::PluginMessage(PluginMessagePacket { channel, data }))
    }

    pub fn serialize(&self, buffer: &mut Buffer) -> (r: Result<(), CodecError>)
        requires
            old(buffer).wf(),
        ensures
            final(buffer).wf(),
            final(buffer).pos() == old(buffer).pos(),
            r is Ok <==> self.payload_fits(),
            r is Ok ==> final(buffer).data() == old(buffer).data() + self.spec_payload(),
            r is Err ==> final(buffer).data() == old(buffer).data(),
    {
        match buffer.write_string(self.channel.as_str()) {
            Ok(_) => {},
            Err(e) => {
                return Err(e);
            },
        }
        buffer.write_ubyte_array(self.data.as_slice());
        assert(buffer.data() =~= old(buffer).data() + self.spec_payload());
        Ok(())
    }
}

#[derive(Debug)]
pub struct JoinGamePacket {
    pub entity_id: i32,
    pub gamemode: Gamemode,
    pub hardcore: bool,
    pub dimension: Dimension,
    pub hashed_seed: i64,
    pub max_players: u8,
    pub level_type: LevelType,
    pub render_distance: i32,
    pub reduced_debug_info: bool,
    pub enable_respawn_screen: bool,
}

pub struct JoinGameView {
    pub entity_id: i32,
    pub gamemode: Gamemode,
    pub hardcore: bool,
    pub dimension: Dimension,
    pub hashed_seed: i64,
    pub max_players: u8,
    pub level_type: LevelType,
    pub render_distance: i32,
    pub reduced_debug_info: bool,
    pub enable_respawn_screen: bool,
}

impl View for JoinGamePacket {
    type V = JoinGameView;

    open spec fn view(&self) -> JoinGameView {
        JoinGameView {
            entity_id: self.entity_id,
            gamemode: self.gamemode,
            hardcore: self.hardcore,
            dimension: self.dimension,
            hashed_seed: self.hashed_seed,
            max_players: self.max_players,
            level_type: self.level_type,
            render_distance: self.render_distance,
            reduced_debug_info: self.reduced_debug_info,
            enable_respawn_screen: self.enable_respawn_screen,
        }
    }
}

impl JoinGamePacket {
    pub fn new(
        entity_id: i32,
        gamemode: Gamemode,
        hardcore: bool,
        dimension: Dimension,
        hashed_seed: i64,
        max_players: u8,
        level_type: LevelType,
        render_distance: i32,
        reduced_debug_info: bool,
        enable_respawn_screen: bool,
    ) -> (r: ClientboundPacket)
        ensures
            r matches ClientboundPacket::JoinGame(p) && p.entity_id == entity_id && p.gamemode
                == gamemode && p.hardcore == hardcore && p.dimension == Dimension::spec_from(
                dimension.spec_value(),
            ) && p.dimension.is_canonical() && p.hashed_seed == hashed_seed && p.max_players
                == max_players && p.level_type == level_type && p.render_distance
                == render_distance && p.reduced_debug_info == reduced_debug_info
                && p.enable_respawn_screen == enable_respawn_screen,
            dimension.is_canonical() ==> (r matches ClientboundPacket::JoinGame(p) && p.dimension
                == dimension),
    {
        proof {
            if dimension.is_canonical() {
                crate::game::lemma_dimension_round_trip(dimension);
            }
        }
        ClientboundPacket::JoinGame(
            JoinGamePacket {
                entity_id,
                gamemode,
                hardcore,
                // a `Custom` value aliasing a named dimension would not
                // survive the wire round trip; store the canonical form
                dimension: dimension.canonicalize(),
                hashed_seed,
                max_players,
                level_type,
                render_distance,
                reduced_debug_info,
                enable_respawn_screen,
            },
        )
    }

    /// The combined gamemode byte: the gamemode value with the
    /// hardcore flag in bit three.
    pub open spec fn gamemode_byte(gamemode: Gamemode, hardcore: bool) -> u8 {
        (gamemode.spec_value() + if hardcore {
            8int
        } else {
            0int
        }) as u8
    }

    pub open spec fn sp_body(s: Seq<u8>) -> Result<(CbView, nat), CodecError> {
        match sp_i32(s) {
            Err(e) => Err(e),
            Ok((entity_id, _a)) => match sp_u8(s.skip(4)) {
                Err(e) => Err(e),
                Ok((gb, _b)) => {
                    let hardcore = (gb / 8) % 2 == 1;
                    let base = if hardcore {
                        (gb - 8) as u8
                    } else {
                        gb
                    };
                    match Gamemode::spec_from(base) {
                        None => Err(CodecError::Malformed),
                        Some(gamemode) => match sp_i32(s.skip(5)) {
                            Err(e) => Err(e),
                            Ok((dim, _c)) => match sp_i64(s.skip(9)) {
                                Err(e) => Err(e),
                                Ok((hashed_seed, _d)) => match sp_u8(s.skip(17)) {
                                    Err(e) => Err(e),
                                    Ok((max_players, _f)) => match sp_string(s.skip(18)) {
                                        Err(e) => Err(e),
                                        Ok((name, g)) => match LevelType::spec_from(name) {
                                            None => Err(CodecError::Malformed),
                                            Some(level_type) => match sp_varint(
                                                s.skip(18 + g as int),
                                            ) {
                                                Err(e) => Err(e),
                                                Ok((render_distance, h)) => match sp_bool(
                                                    s.skip(18 + g as int + h as int),
                                                ) {
                                                    Err(e) => Err(e),
                                                    Ok((reduced, _i)) => match sp_bool(
                                                        s.skip(19 + g as int + h as int),
                                                    ) {
                                                        Err(e) => Err(e),
                                                        Ok((respawn, _j)) => Ok(
                                                            (
                                                                CbView::JoinGame(
                                                                    JoinGameView {
                                                                        entity_id,
                                                                        gamemode,
                                                                        hardcore,
                                                                        dimension: Dimension::spec_from(dim),
                                                                        hashed_seed,
                                                                        max_players,
                                                                        level_type,
                                                                        render_distance,
                                                                        reduced_debug_info: reduced,
                                                                        enable_respawn_screen: respawn,
                                                                    },
                                                                ),
                                                                (20 + g + h) as nat,
                                                            ),
                                                        ),
                                                    },
                                                },
                                            },
                                        },
                                    },
                                },
                            },
                        },
                    }
                },
            },
        }
    }

    pub open spec fn spec_payload(&self) -> Seq<u8> {
        be32(u32_of_i32(self.entity_id)) + seq![
            Self::gamemode_byte(self.gamemode, self.hardcore),
        ] + be32(u32_of_i32(self.dimension.spec_value())) + be64(u64_of_i64(self.hashed_seed))
            + seq![self.max_players] + spec_str_bytes(self.level_type.spec_name()) + var_bytes(
            u32_of_i32(self.render_distance) as nat,
        ) + seq![
            if self.reduced_debug_info {
                1u8
            } else {
                0u8
            },
        ] + seq![
            if self.enable_respawn_screen {
                1u8
            } else {
                0u8
            },
        ]
    }

    pub open spec fn payload_fits(&self) -> bool {
        str_fits(self.level_type.spec_name())
    }

    #[verifier::rlimit(100)]
    pub fn deserialize(buffer: &mut Buffer) -> (r: Result<ClientboundPacket, CodecError>)
        requires
            old(buffer).wf(),
        ensures
            final(buffer).wf(),
            final(buffer).data() == old(buffer).data(),
            match r {
                Ok(p) => Self::sp_body(old(buffer).remaining()) matches Ok(pr) && pr.0 == p@
                    && final(buffer).pos() == old(buffer).pos() + pr.1,
                Err(e) => Self::sp_body(old(buffer).remaining()) == Err::<
                    (CbView, nat),
                    CodecError,
                >(e),
            },
    {
        broadcast use lemma_i32_u32_inverse;

        let ghost s = old(buffer).remaining();
        let entity_id = match buffer.read_int() {
            Ok(v) => v,
            Err(e) => {
                return Err(e);
            },
        };
        proof {
            assert(buffer.remaining() =~= s.skip(4));
        }
        let gb = match buffer.read_ubyte() {
            Ok(v) => v,
            Err(e) => {
                return Err(e);
            },
        };
        proof {
            assert(buffer.remaining() =~= s.skip(5));
        }
        let hardcore = (gb / 8) % 2 == 1;
        let base = if hardcore {
            gb - 8
        } else {
            gb
        };
        let gamemode = match Gamemode::from_u8(base) {
            Some(g) => g,
            None => {
                return Err(CodecError::Malformed);
            },
        };
        let dim = match buffer.read_int() {
            Ok(v) => v,
            Err(e) => {
                return Err(e);
            },
        };
        proof {
            assert(buffer.remaining() =~= s.skip(9));
        }
        let dimension = Dimension::from_i32(dim);
        let hashed_seed = match buffer.read_long() {
            Ok(v) => v,
            Err(e) => {
                return Err(e);
            },
        };
        proof {
            assert(buffer.remaining() =~= s.skip(17));
        }
        let max_players = match buffer.read_ubyte() {
            Ok(v) => v,
            Err(e) => {
                return Err(e);
            },
        };
        proof {
            assert(buffer.remaining() =~= s.skip(18));
        }
        let name = match buffer.read_string() {
            Ok(v) => v,
            Err(e) => {
                return Err(e);
            },
        };
        let ghost g = buffer.pos() - old(buffer).pos() - 18;
        proof {
            assert(sp_string(s.skip(18)) matches Ok(p) && p.0 == name@ && p.1 == g as nat);
            assert(buffer.remaining() =~= s.skip(18 + g));
        }
        let level_type = match LevelType::from_string(name.as_str()) {
            Some(t) => t,
            None => {
                return Err(CodecError::Malformed);
            },
        };
        let render_distance = match buffer.read_varint() {
            Ok(v) => v,
            Err(e) => {
                return Err(e);
            },
        };
        let ghost h = buffer.pos() - old(buffer).pos() - 18 - g;
        proof {
            assert(sp_varint(s.skip(18 + g)) == Ok::<_, CodecError>((render_distance, h as nat)));
            assert(buffer.remaining() =~= s.skip(18 + g + h));
        }
        let reduced_debug_info = match buffer.read_bool() {
            Ok(v) => v,
            Err(e) => {
                return Err(e);
            },
        };
        proof {
            assert(buffer.remaining() =~= s.skip(19 + g + h));
        }
        let enable_respawn_screen = match buffer.read_bool() {
            Ok(v) => v,
            Err(e) => {
                return Err(e);
            },
        };
        Ok(
            ClientboundPacket::JoinGame(
                JoinGamePacket {
                    entity_id,
                    gamemode,
                    hardcore,
                    dimension,
                    hashed_seed,
                    max_players,
                    level_type,
                    render_distance,
                    reduced_debug_info,
                    enable_respawn_screen,
                },
            ),
        )
    }

    pub fn serialize(&self, buffer: &mut Buffer) -> (r: Result<(), CodecError>)
        requires
            old(buffer).wf(),
        ensures
            final(buffer).wf(),
            final(buffer).pos() == old(buffer).pos(),
            r is Ok <==> self.payload_fits(),
            r is Ok ==> final(buffer).data() == old(buffer).data() + self.spec_payload(),
            r is Err ==> final(buffer).data() == old(buffer).data(),
    {
        let name = self.level_type.to_string();
        if name.as_bytes().len() > 0x7fff_ffff {
            return Err(CodecError::OutOfRange);
        }
        buffer.write_int(self.entity_id);
        let gm = self.gamemode.as_u8();
        let gb: u8 = if self.hardcore {
            gm + 8
        } else {
            gm
        };
        buffer.write_ubyte(gb);
        buffer.write_int(self.dimension.as_i32());
        buffer.write_long(self.hashed_seed);
        buffer.write_ubyte(self.max_players);
        let w = buffer.write_string(name);
        proof {
            assert(w is Ok);
        }
        buffer.write_varint(self.render_distance);
        buffer.write_bool(self.reduced_debug_info);
        buffer.write_bool(self.enable_respawn_screen);
        assert(buffer.data() =~= old(buffer).data() + self.spec_payload());
        Ok(())
    }
}

#[derive(Debug)]
pub struct PlayerAbilitiesPacket {
    pub invulnerability: bool,
    pub flying: bool,
    pub allow_flight: bool,
    pub instant_break: bool,
    pub flying_speed_bits: u32,
    pub field_of_view_modifier_bits: u32,
}

pub struct PlayerAbilitiesView {
    pub invulnerability: bool,
    pub flying: bool,
    pub allow_flight: bool,
    pub instant_break: bool,
    pub flying_speed_bits: u32,
    pub field_of_view_modifier_bits: u32,
}

impl View for PlayerAbilitiesPacket {
    type V = PlayerAbilitiesView;

    open spec fn view(&self) -> PlayerAbilitiesView {
        PlayerAbilitiesView {
            invulnerability: self.invulnerability,
            flying: self.flying,
            allow_flight: self.allow_flight,
            instant_break: self.instant_break,
            flying_speed_bits: self.flying_speed_bits,
            field_of_view_modifier_bits: self.field_of_view_modifier_bits,
        }
    }
}

impl PlayerAbilitiesPacket {
    pub fn new(
        invulnerability: bool,
        flying: bool,
        allow_flight: bool,
        instant_break: bool,
        flying_speed_bits: u32,
        field_of_view_modifier_bits: u32,
    ) -> (r: ClientboundPacket)
        ensures
            r matches ClientboundPacket::PlayerAbilities(p) && p.invulnerability
                == invulnerability && p.flying == flying && p.allow_flight == allow_flight
                && p.instant_break == instant_break && p.flying_speed_bits == flying_speed_bits
                && p.field_of_view_modifier_bits == field_of_view_modifier_bits,
    {
        ClientboundPacket::PlayerAbilities(
            PlayerAbilitiesPacket {
                invulnerability,
                flying,
                allow_flight,
                instant_break,
                flying_speed_bits,
                field_of_view_modifier_bits,
            },
        )
    }

    /// The flags byte: four ability bits packed from the low end.
    pub open spec fn flags_byte(&self) -> u8 {
        ((if self.invulnerability {
            1int
        } else {
            0int
        }) + (if self.flying {
            2int
        } else {
            0int
        }) + (if self.allow_flight {
            4int
        } else {
            0int
        }) + (if self.instant_break {
            8int
        } else {
            0int
        })) as u8
    }

    pub open spec fn sp_body(s: Seq<u8>) -> Result<(CbView, nat), CodecError> {
        match sp_u8(s) {
            Err(e) => Err(e),
            Ok((b, _a)) => match sp_u32(s.skip(1)) {
                Err(e) => Err(e),
                Ok((speed, _c)) => match sp_u32(s.skip(5)) {
                    Err(e) => Err(e),
                    Ok((fov, _d)) => Ok(
                        (
                            CbView::PlayerAbilities(
                                PlayerAbilitiesView {
                                    invulnerability: b % 2 == 1,
                                    flying: (b / 2) % 2 == 1,
                                    allow_flight: (b / 4) % 2 == 1,
                                    instant_break: (b / 8) % 2 == 1,
                                    flying_speed_bits: speed,
                                    field_of_view_modifier_bits: fov,
                                },
                            ),
                            9,
                        ),
                    ),
                },
            },
        }
    }

    pub open spec fn spec_payload(&self) -> Seq<u8> {
        seq![self.flags_byte()] + be32(self.flying_speed_bits) + be32(
            self.field_of_view_modifier_bits,
        )
    }

    pub open spec fn payload_fits(&self) -> bool {
        true
    }

    pub fn deserialize(buffer: &mut Buffer) -> (r: Result<ClientboundPacket, CodecError>)
        requires
            old(buffer).wf(),
        ensures
            final(buffer).wf(),
            final(buffer).data() == old(buffer).data(),
            match r {
                Ok(p) => Self::sp_body(old(buffer).remaining()) matches Ok(pr) && pr.0 == p@
                    && final(buffer).pos() == old(buffer).pos() + pr.1,
                Err(e) => Self::sp_body(old(buffer).remaining()) == Err::<
                    (CbView, nat),
                    CodecError,
                >(e),
            },
    {
        let ghost s = old(buffer).remaining();
        let b = match buffer.read_ubyte() {
            Ok(v) => v,
            Err(e) => {
                return Err(e);
            },
        };
        proof {
            assert(buffer.remaining() =~= s.skip(1));
        }
        let speed = match buffer.read_uint() {
            Ok(v) => v,
            Err(e) => {
                return Err(e);
            },
        };
        proof {
            assert(buffer.remaining() =~= s.skip(5));
        }
        let fov = match buffer.read_uint() {
            Ok(v) => v,
            Err(e) => {
                return Err(e);
            },
        };
        Ok(
            ClientboundPacket::PlayerAbilities(
                PlayerAbilitiesPacket {
                    invulnerability: b % 2 == 1,
                    flying: (b / 2) % 2 == 1,
                    allow_flight: (b / 4) % 2 == 1,
                    instant_break: (b / 8) % 2 == 1,
                    flying_speed_bits: speed,
                    field_of_view_modifier_bits: fov,
                },
            ),
        )
    }

    pub fn serialize(&self, buffer: &mut Buffer) -> (r: Result<(), CodecError>)
        requires
            old(buffer).wf(),
        ensures
            final(buffer).wf(),
            final(buffer).pos() == old(buffer).pos(),
            r is Ok <==> self.payload_fits(),
            r is Ok ==> final(buffer).data() == old(buffer).data() + self.spec_payload(),
            r is Err ==> final(buffer).data() == old(buffer).data(),
    {
        let mut flags: u8 = 0;
        if self.invulnerability {
            flags = flags + 1;
        }
        if self.flying {
            flags = flags + 2;
        }
        if self.allow_flight {
            flags = flags + 4;
        }
        if self.instant_break {
            flags = flags + 8;
        }
        buffer.write_ubyte(flags);
        buffer.write_uint(self.flying_speed_bits);
        buffer.write_uint(self.field_of_view_modifier_bits);
        assert(buffer.data() =~= old(buffer).data() + self.spec_payload());
        Ok(())
    }
}

} // verus!
