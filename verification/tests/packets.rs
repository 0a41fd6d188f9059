use minecrate::buffer::Buffer;
use minecrate::clientbound::login::LoginSuccessPacket;
use minecrate::clientbound::play::{
    JoinGamePacket, PlayerAbilitiesPacket, PluginMessagePacket, ServerDifficultyPacket,
};
use minecrate::clientbound::status::PongPacket;
use minecrate::clientbound::ClientboundPacket;
use minecrate::error::CodecError;
use minecrate::game::{Difficulty, Dimension, Gamemode, LevelType};
use minecrate::packet::{Packet, State};
use minecrate::serverbound::handshake::HandshakePacket;
use minecrate::serverbound::login::{EncryptionResponsePacket, LoginStartPacket};
use minecrate::serverbound::ServerboundPacket;
use minecrate::uuid::Uuid;

/// Frame one serverbound packet the way a client would.
fn frame_serverbound(id: i32, payload: &Buffer) -> Buffer {
    let mut wire = Buffer::new();
    wire.write_varint(id);
    wire.write_ubyte_array(payload.as_raw());
    let mut out = Buffer::new();
    out.write_varint(wire.len() as i32);
    out.write_ubyte_array(wire.as_raw());
    out
}

fn frame_clientbound(packet: &ClientboundPacket) -> Buffer {
    let mut wire = Buffer::new();
    wire.write_varint(packet.get_id());
    packet.serialize(&mut wire).unwrap();
    let mut out = Buffer::new();
    out.write_varint(wire.len() as i32);
    out.write_ubyte_array(wire.as_raw());
    out
}

#[test]
fn handshake_frame_round_trip() {
    let p = HandshakePacket {
        protocol: 701,
        address: "localhost".to_string(),
        port: 25565,
        next: 2,
    };
    let mut payload = Buffer::new();
    p.serialize(&mut payload).unwrap();
    let mut framed = frame_serverbound(0, &payload);
    match ServerboundPacket::deserialize(&mut framed, &State::Handshake).unwrap() {
        ServerboundPacket::Handshake(h) => {
            assert_eq!(h.protocol, 701);
            assert_eq!(h.address, "localhost");
            assert_eq!(h.port, 25565);
            assert_eq!(h.next, 2);
        }
        _ => panic!("wrong variant"),
    }
    assert_eq!(framed.cursor(), framed.len());
}

#[test]
fn login_start_round_trip() {
    let p = LoginStartPacket { username: "Alice".to_string() };
    let mut payload = Buffer::new();
    p.serialize(&mut payload).unwrap();
    let mut framed = frame_serverbound(0, &payload);
    match ServerboundPacket::deserialize(&mut framed, &State::Login).unwrap() {
        ServerboundPacket::LoginStart(l) => assert_eq!(l.username, "Alice"),
        _ => panic!("wrong variant"),
    }
}

#[test]
fn encryption_response_round_trip() {
    let p = EncryptionResponsePacket {
        shared_secret_length: 3,
        shared_secret: vec![1, 2, 3],
        verify_token_length: 2,
        verify_token: vec![9, 8],
    };
    let mut payload = Buffer::new();
    p.serialize(&mut payload).unwrap();
    let mut framed = frame_serverbound(1, &payload);
    match ServerboundPacket::deserialize(&mut framed, &State::Login).unwrap() {
        ServerboundPacket::EncryptionResponse(e) => {
            assert_eq!(e.shared_secret, vec![1, 2, 3]);
            assert_eq!(e.verify_token, vec![9, 8]);
            assert_eq!(e.shared_secret_length, 3);
            assert_eq!(e.verify_token_length, 2);
        }
        _ => panic!("wrong variant"),
    }
}

#[test]
fn frame_backpressure_incomplete() {
    let p = HandshakePacket {
        protocol: 701,
        address: "localhost".to_string(),
        port: 25565,
        next: 1,
    };
    let mut payload = Buffer::new();
    p.serialize(&mut payload).unwrap();
    let framed = frame_serverbound(0, &payload);
    let all = framed.as_raw().to_vec();
    // feed everything but the last byte: the decoder must report
    // Incomplete and leave the buffered bytes untouched
    let mut partial = Buffer::new();
    partial.extend(&all[..all.len() - 1]);
    let before = partial.as_raw().to_vec();
    assert_eq!(
        ServerboundPacket::deserialize(&mut partial, &State::Handshake).unwrap_err(),
        CodecError::Incomplete
    );
    assert_eq!(partial.as_raw(), &before[..]);
    assert_eq!(partial.cursor(), 0);
    // appending the missing byte makes the same decode succeed
    partial.extend(&all[all.len() - 1..]);
    assert!(ServerboundPacket::deserialize(&mut partial, &State::Handshake).is_ok());
}

#[test]
fn state_scoped_dispatch_unknown_packet() {
    // a login-start frame (id 0 in Login) decoded while in Status state
    // must hit the status table: id 0 there is status-request, whose
    // empty payload will not match, or for id 1 the ping decoder; use
    // an id valid only in Login: id 1 with a login payload in Status
    // decodes as Ping only if 8 bytes follow; pick id 2 which no
    // serverbound state knows
    let mut payload = Buffer::new();
    payload.write_string("Alice").unwrap();
    let mut framed = frame_serverbound(2, &payload);
    assert_eq!(
        ServerboundPacket::deserialize(&mut framed, &State::Status).unwrap_err(),
        CodecError::UnknownPacket
    );
    // and an encryption-response frame (id 1 in Login) sent in Status
    // is decoded under the Status table as a ping, whose payload shape
    // does not fit: the frame is rejected, not accepted as login data
    let p = EncryptionResponsePacket {
        shared_secret_length: 1,
        shared_secret: vec![1],
        verify_token_length: 1,
        verify_token: vec![2],
    };
    let mut payload = Buffer::new();
    p.serialize(&mut payload).unwrap();
    let mut framed = frame_serverbound(1, &payload);
    assert!(ServerboundPacket::deserialize(&mut framed, &State::Status).is_err());
    // a handshake frame in Play state: nothing is legal there
    let mut payload = Buffer::new();
    payload.write_varint(701);
    let mut framed = frame_serverbound(0, &payload);
    assert_eq!(
        ServerboundPacket::deserialize(&mut framed, &State::Play).unwrap_err(),
        CodecError::UnknownPacket
    );
    // clientbound: login-success (id 2, legal only in Login) decoded
    // while in Status yields UnknownPacket
    let p = LoginSuccessPacket::new(Uuid(1), "A");
    let mut framed = frame_clientbound(&p);
    assert_eq!(
        ClientboundPacket::deserialize(&mut framed, &State::Status).unwrap_err(),
        CodecError::UnknownPacket
    );
}

#[test]
fn frame_length_mismatch_is_malformed() {
    // declare one byte more than the handshake payload actually uses
    let p = HandshakePacket {
        protocol: 701,
        address: "x".to_string(),
        port: 1,
        next: 1,
    };
    let mut payload = Buffer::new();
    p.serialize(&mut payload).unwrap();
    let mut wire = Buffer::new();
    wire.write_varint(0);
    wire.write_ubyte_array(payload.as_raw());
    wire.write_ubyte(0xAA);
    let mut framed = Buffer::new();
    framed.write_varint(wire.len() as i32);
    framed.write_ubyte_array(wire.as_raw());
    assert_eq!(
        ServerboundPacket::deserialize(&mut framed, &State::Handshake).unwrap_err(),
        CodecError::Malformed
    );
}

#[test]
fn pong_round_trip() {
    let p = PongPacket::new(-12345678901234);
    let mut framed = frame_clientbound(&p);
    match ClientboundPacket::deserialize(&mut framed, &State::Status).unwrap() {
        ClientboundPacket::Pong(q) => assert_eq!(q.payload, -12345678901234),
        _ => panic!("wrong variant"),
    }
}

#[test]
fn join_game_round_trip() {
    let p = JoinGamePacket::new(
        42,
        Gamemode::Creative,
        true,
        Dimension::Nether,
        -99,
        20,
        LevelType::Flat,
        32,
        false,
        true,
    );
    let mut framed = frame_clientbound(&p);
    match ClientboundPacket::deserialize(&mut framed, &State::Play).unwrap() {
        ClientboundPacket::JoinGame(q) => {
            assert_eq!(q.entity_id, 42);
            assert_eq!(q.gamemode, Gamemode::Creative);
            assert!(q.hardcore);
            assert_eq!(q.dimension, Dimension::Nether);
            assert_eq!(q.hashed_seed, -99);
            assert_eq!(q.max_players, 20);
            assert_eq!(q.level_type, LevelType::Flat);
            assert_eq!(q.render_distance, 32);
            assert!(!q.reduced_debug_info);
            assert!(q.enable_respawn_screen);
        }
        _ => panic!("wrong variant"),
    }
}

#[test]
fn join_game_aliasing_dimension_is_canonicalized() {
    // building the packet with Custom(0) stores Overworld, so the
    // wire round trip is still the identity on the packet
    let p = JoinGamePacket::new(
        7,
        Gamemode::Survival,
        false,
        Dimension::Custom(0),
        0,
        0,
        LevelType::Default,
        10,
        false,
        false,
    );
    match &p {
        ClientboundPacket::JoinGame(q) => assert_eq!(q.dimension, Dimension::Overworld),
        _ => panic!("wrong variant"),
    }
    let mut framed = frame_clientbound(&p);
    match ClientboundPacket::deserialize(&mut framed, &State::Play).unwrap() {
        ClientboundPacket::JoinGame(q) => assert_eq!(q.dimension, Dimension::Overworld),
        _ => panic!("wrong variant"),
    }
}

#[test]
fn player_abilities_round_trip() {
    let speed = 0.05f32.to_bits();
    let fov = 0.1f32.to_bits();
    let p = PlayerAbilitiesPacket::new(true, false, true, false, speed, fov);
    let mut framed = frame_clientbound(&p);
    match ClientboundPacket::deserialize(&mut framed, &State::Play).unwrap() {
        ClientboundPacket::PlayerAbilities(q) => {
            assert!(q.invulnerability);
            assert!(!q.flying);
            assert!(q.allow_flight);
            assert!(!q.instant_break);
            assert_eq!(f32::from_bits(q.flying_speed_bits), 0.05);
            assert_eq!(f32::from_bits(q.field_of_view_modifier_bits), 0.1);
        }
        _ => panic!("wrong variant"),
    }
}

#[test]
fn plugin_message_round_trip() {
    let p = PluginMessagePacket::new("minecraft:brand", &[10, 20, 30]);
    let mut framed = frame_clientbound(&p);
    match ClientboundPacket::deserialize(&mut framed, &State::Play).unwrap() {
        ClientboundPacket::PluginMessage(q) => {
            assert_eq!(q.channel, "minecraft:brand");
            assert_eq!(q.data, vec![10, 20, 30]);
        }
        _ => panic!("wrong variant"),
    }
}

#[test]
fn minecraft_brand_payload_is_wire_string() {
    match PluginMessagePacket::new_minecraft_brand("minecrate").unwrap() {
        ClientboundPacket::PluginMessage(q) => {
            assert_eq!(q.channel, "minecraft:brand");
            let mut expect = Buffer::new();
            expect.write_string("minecrate").unwrap();
            assert_eq!(q.data, expect.as_raw().to_vec());
        }
        _ => panic!("wrong variant"),
    }
}

#[test]
fn server_difficulty_round_trip() {
    let p = ServerDifficultyPacket::new(Difficulty::Hard, true);
    let mut framed = frame_clientbound(&p);
    match ClientboundPacket::deserialize(&mut framed, &State::Play).unwrap() {
        ClientboundPacket::ServerDifficulty(q) => {
            assert_eq!(q.difficulty, Difficulty::Hard);
            assert!(q.locked);
        }
        _ => panic!("wrong variant"),
    }
}

#[test]
fn login_success_round_trip() {
    let v: u128 = 0xfedc_ba98_7654_3210_0123_4567_89ab_cdef;
    let p = LoginSuccessPacket::new(Uuid(v), "Alice");
    let mut framed = frame_clientbound(&p);
    match ClientboundPacket::deserialize(&mut framed, &State::Login).unwrap() {
        ClientboundPacket::LoginSuccess(q) => {
            assert_eq!(q.uuid, Uuid(v));
            assert_eq!(q.username, "Alice");
        }
        _ => panic!("wrong variant"),
    }
}

#[test]
fn login_success_bad_uuid_is_malformed() {
    let mut payload = Buffer::new();
    payload.write_string("not-a-uuid").unwrap();
    payload.write_string("Alice").unwrap();
    let mut wire = Buffer::new();
    wire.write_varint(2);
    wire.write_ubyte_array(payload.as_raw());
    let mut framed = Buffer::new();
    framed.write_varint(wire.len() as i32);
    framed.write_ubyte_array(wire.as_raw());
    assert_eq!(
        ClientboundPacket::deserialize(&mut framed, &State::Login).unwrap_err(),
        CodecError::Malformed
    );
}

#[test]
fn ids_and_states() {
    let p = ServerboundPacket::Ping(minecrate::serverbound::status::PingPacket { payload: 7 });
    assert_eq!(p.get_id(), 1);
    assert_eq!(p.get_state(), State::Status);
    let q = PongPacket::new(7);
    assert_eq!(q.get_id(), 1);
    assert_eq!(q.get_state(), State::Status);
}
