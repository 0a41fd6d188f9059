//! The server's own state and the packet consumers: what the game
//! answers, per protocol state, to the packets the engine hands back.
//! Loading the configuration file and serializing the status payload
//! document are the crate boundary's business; the decisions here work
//! on plain values.

use crate::chat::Chat;
use crate::clientbound::play::{
    JoinGamePacket, PlayerAbilitiesPacket, PluginMessagePacket, ServerDifficultyPacket,
};
use crate::clientbound::status::{
    PongPacket, StatusResponsePayload, StatusResponsePayloadPlayers, StatusResponsePayloadVersion,
};
use crate::clientbound::ClientboundPacket;
use crate::connection::{PROTOCOL_NAME, PROTOCOL_VERSION};
use crate::game::{Difficulty, Dimension, Gamemode, LevelType};
use crate::serverbound::ServerboundPacket;
use crate::world::World;
use vstd::prelude::*;

verus! {

/// Runtime configuration: where to listen and what to advertise.
pub struct Config {
    pub host: String,
    pub port: u16,
    pub motd: String,
    pub max_players: u32,
}

impl Config {
    pub fn default() -> (r: Config)
        ensures
            r.host@ == "127.0.0.1"@,
            r.port == 25565,
            r.motd@ == "Minecrate server"@,
            r.max_players == 20,
    {
        Config {
            host: "127.0.0.1".to_owned(),
            port: 25565,
            motd: "Minecrate server".to_owned(),
            max_players: 20,
        }
    }
}

/// The game-facing server state the consumers read.
pub struct MinecraftServer {
    pub config: Config,
    pub difficulty: Difficulty,
    pub difficulty_locked: bool,
    pub worlds: Vec<World>,
}

impl MinecraftServer {
    pub fn new(config: Config) -> (r: MinecraftServer)
        ensures
            r.config.host@ == config.host@,
            r.config.port == config.port,
            r.config.motd@ == config.motd@,
            r.config.max_players == config.max_players,
            r.difficulty == Difficulty::Normal,
            !r.difficulty_locked,
            r.worlds@.len() == 0,
    {
        MinecraftServer {
            config,
            difficulty: Difficulty::Normal,
            difficulty_locked: false,
            worlds: Vec::new(),
        }
    }

    pub fn tick(&mut self) {
    }
}

/// What a consumer asks the caller to do with a decoded packet.
pub enum ConsumerAction {
    /// Write these packets to the connection, in order.
    Send(Vec<ClientboundPacket>),
    /// Serialize this status payload document and send it as the
    /// status response.
    SendStatus(StatusResponsePayload),
    /// Nothing to answer.
    Ignore,
}

/// The per-state packet consumers: the status exchange and the packets
/// sent right after a completed login. The handshake-sequence packets
/// themselves are already handled inside the engine.
pub fn packet_process(server: &MinecraftServer, packet: &ServerboundPacket) -> (r: ConsumerAction)
    ensures
        match packet {
            ServerboundPacket::StatusRequest(_) => r matches ConsumerAction::SendStatus(p)
                && p.version.protocol == PROTOCOL_VERSION && p.version.name@ == PROTOCOL_NAME@
                && p.players.max == server.config.max_players && p.players.online == 0
                && p.players.sample@.len() == 0,
            ServerboundPacket::Ping(ping) => r matches ConsumerAction::Send(v) && v@.len() == 1
                && (v@[0] matches ClientboundPacket::Pong(pong) && pong.payload == ping.payload),
            ServerboundPacket::EncryptionResponse(_) => r matches ConsumerAction::Send(v) && v@.len()
                == 4 && (v@[0] matches ClientboundPacket::JoinGame(j) && j.entity_id == 0
                && j.gamemode == Gamemode::Survival && !j.hardcore && j.dimension
                == Dimension::Overworld && j.hashed_seed == 0 && j.max_players == 0
                && j.level_type == LevelType::Default && j.render_distance == 32
                && !j.reduced_debug_info && j.enable_respawn_screen) && (v@[1] matches
                ClientboundPacket::PluginMessage(m) && m.channel@ == "minecraft:brand"@ && m.data@
                == crate::wire::spec_str_bytes("minecrate"@)) && (v@[2] matches
                ClientboundPacket::ServerDifficulty(d) && d.difficulty == server.difficulty
                && d.locked == server.difficulty_locked) && (v@[3] matches
                ClientboundPacket::PlayerAbilities(a) && !a.invulnerability && !a.flying
                && !a.allow_flight && !a.instant_break && a.flying_speed_bits == 0x3d4ccccd
                && a.field_of_view_modifier_bits == 0x3dcccccd),
            _ => r is Ignore,
        },
{
    match packet {
        ServerboundPacket::StatusRequest(_) => {
            let payload = StatusResponsePayload {
                version: StatusResponsePayloadVersion {
                    name: PROTOCOL_NAME.to_owned(),
                    protocol: PROTOCOL_VERSION,
                },
                players: StatusResponsePayloadPlayers {
                    max: server.config.max_players,
                    online: 0,
                    sample: Vec::new(),
                },
                description: Chat::new_text(server.config.motd.as_str()),
                favicon: "".to_owned(),
            };
            ConsumerAction::SendStatus(payload)
        },
        ServerboundPacket::Ping(ping) => {
            let mut out: Vec<ClientboundPacket> = Vec::new();
            out.push(PongPacket::new(ping.payload));
            ConsumerAction::Send(out)
        },
        ServerboundPacket::EncryptionResponse(_) => {
            let mut out: Vec<ClientboundPacket> = Vec::new();
            out.push(
                JoinGamePacket::new(
                    0,
                    Gamemode::Survival,
                    false,
                    Dimension::Overworld,
                    0,
                    0,
                    LevelType::Default,
                    32,
                    false,
                    true,
                ),
            );
            proof {
                broadcast use vstd::utf8::is_ascii_chars_encode_utf8;

                reveal_strlit("minecrate");
                assert(vstd::utf8::is_ascii_chars("minecrate"@));
            }
            match PluginMessagePacket::new_minecraft_brand("minecrate") {
                Ok(brand) => {
                    out.push(brand);
                },
                Err(_) => {
                    proof {
                        assert(false);
                    }
                },
            }
            out.push(ServerDifficultyPacket::new(server.difficulty, server.difficulty_locked));
            out.push(
                PlayerAbilitiesPacket::new(false, false, false, false, 0x3d4ccccd, 0x3dcccccd),
            );
            ConsumerAction::Send(out)
        },
        _ => ConsumerAction::Ignore,
    }
}

} // verus!
