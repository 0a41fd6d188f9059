use minecrate::buffer::Buffer;
use minecrate::clientbound::ClientboundPacket;
use minecrate::connection::{ConnectionHandler, StepOutcome};
use minecrate::error::EngineError;
use minecrate::mojang::Profile;
use minecrate::packet::{Packet, State};
use minecrate::serverbound::ServerboundPacket;
use minecrate::server::{packet_process, Config, ConsumerAction, MinecraftServer};
use minecrate::stream::Stream;

fn frame(id: i32, payload: &[u8]) -> Vec<u8> {
    let mut wire = Buffer::new();
    wire.write_varint(id);
    wire.write_ubyte_array(payload);
    let mut out = Buffer::new();
    out.write_varint(wire.len() as i32);
    out.write_ubyte_array(wire.as_raw());
    out.as_raw().to_vec()
}

fn handshake_payload(protocol: i32, next: i32) -> Vec<u8> {
    let mut b = Buffer::new();
    b.write_varint(protocol);
    b.write_string("localhost").unwrap();
    b.write_ushort(25565);
    b.write_varint(next);
    b.as_raw().to_vec()
}

fn login_start_payload(name: &str) -> Vec<u8> {
    let mut b = Buffer::new();
    b.write_string(name).unwrap();
    b.as_raw().to_vec()
}

/// Drive a connection through the handshake and login start, returning
/// the server's encryption request fields.
fn start_login(handler: &ConnectionHandler, stream: &mut Stream) -> (Vec<u8>, Vec<u8>) {
    stream.feed(&frame(0, &handshake_payload(701, 2))).unwrap();
    match handler.process(stream) {
        StepOutcome::Packet(ServerboundPacket::Handshake(_), responses) => {
            assert!(responses.is_empty());
        }
        _ => panic!("expected handshake"),
    }
    assert_eq!(*stream.get_state(), State::Login);

    stream.feed(&frame(0, &login_start_payload("Alice"))).unwrap();
    let response = match handler.process(stream) {
        StepOutcome::Packet(ServerboundPacket::LoginStart(l), mut responses) => {
            assert_eq!(l.username, "Alice");
            assert_eq!(responses.len(), 1);
            responses.remove(0)
        }
        _ => panic!("expected login start"),
    };
    assert_eq!(stream.get_username(), "Alice");

    let mut reply = Buffer::new();
    reply.extend(&response);
    match ClientboundPacket::deserialize(&mut reply, &State::Login).unwrap() {
        ClientboundPacket::EncryptionRequest(req) => {
            assert_eq!(req.server_id, "");
            assert_eq!(req.verify_token.len(), 4);
            assert_eq!(req.verify_token, *stream.get_verify_challenge());
            (req.public_key, req.verify_token)
        }
        _ => panic!("expected encryption request"),
    }
}

fn encryption_response_payload(secret_enc: &[u8], token_enc: &[u8]) -> Vec<u8> {
    let mut b = Buffer::new();
    b.write_varint(secret_enc.len() as i32);
    b.write_ubyte_array(secret_enc);
    b.write_varint(token_enc.len() as i32);
    b.write_ubyte_array(token_enc);
    b.as_raw().to_vec()
}

#[test]
fn handshake_chooses_status() {
    let handler = ConnectionHandler::new().unwrap();
    let mut stream = Stream::new();
    stream.feed(&frame(0, &handshake_payload(701, 1))).unwrap();
    match handler.process(&mut stream) {
        StepOutcome::Packet(ServerboundPacket::Handshake(_), _) => {}
        _ => panic!("expected handshake"),
    }
    assert_eq!(*stream.get_state(), State::Status);
}

#[test]
fn handshake_version_mismatch_keeps_state() {
    let handler = ConnectionHandler::new().unwrap();
    let mut stream = Stream::new();
    stream.feed(&frame(0, &handshake_payload(1, 2))).unwrap();
    match handler.process(&mut stream) {
        StepOutcome::Packet(ServerboundPacket::Handshake(_), _) => {}
        _ => panic!("expected handshake"),
    }
    assert_eq!(*stream.get_state(), State::Handshake);
}

#[test]
fn idle_on_partial_frame() {
    let handler = ConnectionHandler::new().unwrap();
    let mut stream = Stream::new();
    let full = frame(0, &handshake_payload(701, 2));
    stream.feed(&full[..full.len() - 1]).unwrap();
    match handler.process(&mut stream) {
        StepOutcome::Idle => {}
        _ => panic!("expected idle"),
    }
    stream.feed(&full[full.len() - 1..]).unwrap();
    match handler.process(&mut stream) {
        StepOutcome::Packet(ServerboundPacket::Handshake(_), _) => {}
        _ => panic!("expected handshake after completing the frame"),
    }
}

#[test]
fn full_login_handshake() {
    let handler = ConnectionHandler::new().unwrap();
    let mut stream = Stream::new();
    let (pub_der, token) = start_login(&handler, &mut stream);

    // client side: encrypt the shared secret and the challenge echo
    // under the server's public key
    let client_key = openssl::rsa::Rsa::public_key_from_der(&pub_der).unwrap();
    let secret: Vec<u8> = (0u8..16).collect();
    let mut secret_enc = vec![0u8; client_key.size() as usize];
    let n = client_key
        .public_encrypt(&secret, &mut secret_enc, openssl::rsa::Padding::PKCS1)
        .unwrap();
    secret_enc.truncate(n);
    let mut token_enc = vec![0u8; client_key.size() as usize];
    let n = client_key
        .public_encrypt(&token, &mut token_enc, openssl::rsa::Padding::PKCS1)
        .unwrap();
    token_enc.truncate(n);

    stream
        .feed(&frame(1, &encryption_response_payload(&secret_enc, &token_enc)))
        .unwrap();
    let query = match handler.process(&mut stream) {
        StepOutcome::NeedSession(ServerboundPacket::EncryptionResponse(_), q) => q,
        _ => panic!("expected session query"),
    };
    assert_eq!(query.username, "Alice");
    assert_eq!(query.shared_secret, secret);

    // the server hash digests secret ‖ public key DER
    let mut input = secret.clone();
    input.extend_from_slice(&pub_der);
    let expect = minecrate::mojang::create_server_hash(&Vec::new(), &input, &Vec::new()).unwrap();
    assert_eq!(query.server_hash, expect);

    // session confirmed: complete the login
    let profile = Profile {
        id: "069a79f4-44e9-4726-a5be-fca90e38aaf5".to_string(),
        name: "Alice".to_string(),
    };
    let success_bytes = handler
        .complete_login(&mut stream, &profile, &query.shared_secret)
        .unwrap();
    assert_eq!(*stream.get_state(), State::Play);

    // the login-success frame left encrypted: decrypting it with the
    // shared secret recovers the frame, so no plaintext was sent
    let mut dec = openssl::symm::Crypter::new(
        openssl::symm::Cipher::aes_128_cfb8(),
        openssl::symm::Mode::Decrypt,
        &secret,
        Some(&secret),
    )
    .unwrap();
    let mut clear = vec![0u8; success_bytes.len() + 16];
    let n = dec.update(&success_bytes, &mut clear).unwrap();
    clear.truncate(n);
    assert_ne!(clear, success_bytes);
    let mut reply = Buffer::new();
    reply.extend(&clear);
    match ClientboundPacket::deserialize(&mut reply, &State::Login).unwrap() {
        ClientboundPacket::LoginSuccess(p) => {
            assert_eq!(p.username, "Alice");
            assert_eq!(
                p.uuid.to_hyphenated(),
                "069a79f4-44e9-4726-a5be-fca90e38aaf5"
            );
        }
        _ => panic!("expected login success"),
    }

    // cipher install idempotence: a later outbound frame is ciphered
    // with the same stream exactly once, continuing the key stream
    let pong = minecrate::clientbound::status::PongPacket::new(7);
    let enc2 = stream.send_packet(&pong).unwrap();
    let mut clear2 = vec![0u8; enc2.len() + 16];
    let n = dec.update(&enc2, &mut clear2).unwrap();
    clear2.truncate(n);
    let mut expect2 = Buffer::new();
    expect2.write_varint(pong.get_id());
    let mut wire = Buffer::new();
    pong.serialize(&mut wire).unwrap();
    let mut framed2 = Buffer::new();
    framed2.write_varint((wire.len() + 1) as i32);
    framed2.write_varint(pong.get_id());
    framed2.write_ubyte_array(wire.as_raw());
    assert_eq!(clear2, framed2.as_raw().to_vec());
}

#[test]
fn flipped_challenge_echo_is_rejected() {
    let handler = ConnectionHandler::new().unwrap();
    let mut stream = Stream::new();
    let (pub_der, token) = start_login(&handler, &mut stream);

    let client_key = openssl::rsa::Rsa::public_key_from_der(&pub_der).unwrap();
    let secret: Vec<u8> = (0u8..16).collect();
    let mut secret_enc = vec![0u8; client_key.size() as usize];
    let n = client_key
        .public_encrypt(&secret, &mut secret_enc, openssl::rsa::Padding::PKCS1)
        .unwrap();
    secret_enc.truncate(n);
    // flip one bit of the challenge before encrypting the echo
    let mut tampered = token.clone();
    tampered[0] ^= 1;
    let mut token_enc = vec![0u8; client_key.size() as usize];
    let n = client_key
        .public_encrypt(&tampered, &mut token_enc, openssl::rsa::Padding::PKCS1)
        .unwrap();
    token_enc.truncate(n);

    stream
        .feed(&frame(1, &encryption_response_payload(&secret_enc, &token_enc)))
        .unwrap();
    match handler.process(&mut stream) {
        StepOutcome::Fail(EngineError::ChallengeMismatch) => {}
        _ => panic!("expected challenge mismatch"),
    }
}

#[test]
fn garbage_encryption_response_fails_decrypt() {
    let handler = ConnectionHandler::new().unwrap();
    let mut stream = Stream::new();
    let _ = start_login(&handler, &mut stream);
    let garbage = vec![0u8; 128];
    stream
        .feed(&frame(1, &encryption_response_payload(&garbage, &garbage)))
        .unwrap();
    match handler.process(&mut stream) {
        StepOutcome::Fail(EngineError::DecryptFailed) => {}
        _ => panic!("expected decrypt failure"),
    }
}

#[test]
fn malformed_profile_id_fails_authentication() {
    let handler = ConnectionHandler::new().unwrap();
    let mut stream = Stream::new();
    let profile = Profile { id: "not a uuid".to_string(), name: "Alice".to_string() };
    let secret: Vec<u8> = (0u8..16).collect();
    assert_eq!(
        handler.complete_login(&mut stream, &profile, &secret).unwrap_err(),
        EngineError::AuthenticationFailed
    );
}

#[test]
fn rsa_helpers_round_trip() {
    let key = openssl::rsa::Rsa::generate(1024).unwrap();
    let data: Vec<u8> = (0u8..16).collect();
    let enc = minecrate::crypto::rsa_encrypt(&key, &data).unwrap();
    assert_eq!(enc.len(), 128);
    let dec = minecrate::crypto::rsa_decrypt(&key, &enc).unwrap();
    assert_eq!(dec, data);
    // garbage cannot be decrypted
    assert_eq!(
        minecrate::crypto::rsa_decrypt(&key, &vec![7u8; 128]).unwrap_err(),
        minecrate::error::EngineError::DecryptFailed
    );
}

#[test]
fn consumers_answer_status_and_ping() {
    let server = MinecraftServer::new(Config::default());
    let ping = ServerboundPacket::Ping(minecrate::serverbound::status::PingPacket {
        payload: 424242,
    });
    match packet_process(&server, &ping) {
        ConsumerAction::Send(v) => match &v[0] {
            ClientboundPacket::Pong(p) => assert_eq!(p.payload, 424242),
            _ => panic!("expected pong"),
        },
        _ => panic!("expected send"),
    }
    let req = ServerboundPacket::StatusRequest(
        minecrate::serverbound::status::StatusRequestPacket {},
    );
    match packet_process(&server, &req) {
        ConsumerAction::SendStatus(p) => {
            assert_eq!(p.version.protocol, 701);
            assert_eq!(p.version.name, "20w06a");
            assert_eq!(p.players.max, 20);
        }
        _ => panic!("expected status payload"),
    }
}
