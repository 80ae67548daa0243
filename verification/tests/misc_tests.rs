//! Identity, discovery, metadata exchange, commands, start-up validation,
//! and the buffer-ownership model.

use tata_core::{
    create_keypair, discovery_events, generate_keypair, should_initiate, Command, Error, Event,
    ForeignBuffer, HandshakeMetadata, Metadata, MetadataAction, MetadataBehaviour, MetadataError,
    MetadataHandler, MetadataProtocol, NewUser, PeerId, PrivateChatProtocol, Secret, UserCommand,
};

fn peer(s: &str) -> PeerId {
    PeerId::new(s.as_bytes().to_vec())
}

#[test]
fn peer_id_round_trips_through_base58() {
    let raw = vec![0u8, 1, 2, 3, 254, 255];
    let id = PeerId::from_raw_bytes(&raw);
    // The text is what the Base58 encoder itself produces.
    let expected = bs58::encode(&raw).into_string().into_bytes();
    assert_eq!(id.text().clone(), expected);
    // Decoding recovers the raw bytes.
    assert_eq!(id.as_bytes().expect("valid text"), raw);
}

#[test]
fn peer_id_rejects_non_base58_text() {
    // '0', 'O', 'I' and 'l' are not in the Base58 alphabet.
    let id = peer("QmO0Il");
    assert_eq!(id.as_bytes().unwrap_err(), Error::Base58);
    assert_eq!(Error::Base58.to_text(), "base58 decode error");
}

#[test]
fn peer_id_order_and_equality() {
    assert!(peer("A").equals(&peer("A")));
    assert!(!peer("A").equals(&peer("B")));
    assert!(peer("A").lt(&peer("B")));
    assert!(!peer("B").lt(&peer("A")));
    assert!(peer("A").lt(&peer("AB")));
    assert!(!peer("A").lt(&peer("A")));
    let d: PeerId = Default::default();
    assert!(d.text().is_empty());
}

#[test]
fn keypair_wrapping_keeps_the_parts() {
    let raw_peer = vec![18u8, 52, 86];
    let (secret, id) = create_keypair(vec![9u8; 32], &raw_peer);
    assert_eq!(secret.into_bytes(), vec![9u8; 32]);
    assert_eq!(id.text().clone(), bs58::encode(&raw_peer).into_string().into_bytes());
    let (secret2, id2) = generate_keypair(vec![7u8; 32], &raw_peer);
    assert_eq!(secret2.into_bytes(), vec![7u8; 32]);
    assert!(id2.equals(&id));
}

#[test]
fn tie_break_lets_the_smaller_id_dial() {
    assert!(should_initiate(&peer("A"), &peer("B")));
    assert!(!should_initiate(&peer("B"), &peer("A")));
    let mut b = MetadataBehaviour::new();
    b.add_peer(peer("B"));
    // Local "A" is smaller: it dials.
    match b.poll(&peer("A")) {
        Some(p) => assert!(p.equals(&peer("B"))),
        None => panic!("A should dial B"),
    }
    // Local "C" is larger: it waits to be dialed.
    let mut b = MetadataBehaviour::new();
    b.add_peer(peer("B"));
    assert!(b.poll(&peer("C")).is_none());
    assert!(b.poll(&peer("A")).is_none());
}

#[test]
fn discovery_batches_are_deduplicated() {
    let batch = vec![peer("X"), peer("Y"), peer("X"), peer("X"), peer("Z"), peer("Y")];
    let events = discovery_events(&batch, false);
    let ids: Vec<Vec<u8>> = events
        .iter()
        .map(|e| match e {
            Event::PeerDiscovered { peer_id } => peer_id.text().clone(),
            _ => panic!("expected discovery events"),
        })
        .collect();
    assert_eq!(ids, vec![b"X".to_vec(), b"Y".to_vec(), b"Z".to_vec()]);
    let gone = discovery_events(&vec![peer("X")], true);
    assert!(matches!(gone[0], Event::PeerGone { .. }));
}

#[test]
fn metadata_exchange_sends_receives_and_finishes() {
    let mut h = MetadataHandler::new(HandshakeMetadata::new(b"alice".to_vec()));
    // No substream yet: nothing happens.
    assert!(h.poll().is_none());
    h.on_outbound_negotiated();
    match h.poll() {
        Some(MetadataAction::SendMetadata(p)) => {
            assert_eq!(p, b"{\"name\":\"alice\"}".to_vec())
        },
        _ => panic!("expected the outbound payload"),
    }
    h.on_send_complete();
    match h.poll() {
        Some(MetadataAction::Close(MetadataError::Finished)) => {},
        _ => panic!("expected the close"),
    }
    // Inbound side: read bytes, surface the metadata, then close.
    let mut h = MetadataHandler::new(HandshakeMetadata::new(b"bob".to_vec()));
    h.on_inbound_negotiated();
    h.on_inbound_data(b"{\"name\":\"alice\"}".to_vec());
    match h.poll() {
        Some(MetadataAction::EmitMetadata(md)) => assert_eq!(md.name, b"alice".to_vec()),
        _ => panic!("expected the metadata"),
    }
    match h.poll() {
        Some(MetadataAction::Close(MetadataError::Finished)) => {},
        _ => panic!("expected the close"),
    }
    assert_eq!(MetadataError::Finished.to_text(), "metadata exchange finished");
}

#[test]
fn metadata_exchange_times_out() {
    let mut h = MetadataHandler::new(HandshakeMetadata::new(b"alice".to_vec()));
    h.on_inbound_negotiated();
    assert!(h.poll().is_none());
    h.on_timer_fired();
    assert!(matches!(h.poll(), Some(MetadataAction::Close(MetadataError::Finished))));
}

#[test]
fn protocol_identifiers() {
    let chat = PrivateChatProtocol::new(HandshakeMetadata::new(b"alice".to_vec()));
    assert_eq!(chat.protocol_info(), b"/private_chat/1.0.0".to_vec());
    assert_eq!(chat.upgrade_metadata().name, b"alice".to_vec());
    assert_eq!(MetadataProtocol.protocol_info(), b"/tata/metadata/1.0.0".to_vec());
    let md = Metadata { name: b"n".to_vec() };
    assert_eq!(md.name, b"n".to_vec());
}

#[test]
fn command_parsing() {
    assert_eq!(Command::parse(&b"list_users".to_vec()), Command::ListUsers);
    assert_eq!(Command::parse(&b"  create_user now".to_vec()), Command::CreateUser);
    assert_eq!(Command::parse(&b"update_user\t1".to_vec()), Command::UpdateUser);
    assert_eq!(Command::parse(&b"delete_user".to_vec()), Command::DeleteUser);
    assert_eq!(Command::parse(&b"switch_user".to_vec()), Command::SwitchUser);
    assert_eq!(Command::parse(&b"current_user\n".to_vec()), Command::CurrentUser);
    assert_eq!(Command::parse(&b"".to_vec()), Command::Help);
    assert_eq!(Command::parse(&b"frobnicate".to_vec()), Command::Help);
    assert_eq!(Command::parse(&b"list_userss".to_vec()), Command::Help);
    assert!(Command::help().contains("list_users"));
    let c = UserCommand::Delete { id: 3 };
    assert!(matches!(c, UserCommand::Delete { id: 3 }));
}

#[test]
fn start_validation() {
    let ok = tata_core::start_params(vec![1u8; 32], b"alice".to_vec()).expect("valid");
    assert_eq!(ok.0.into_bytes(), vec![1u8; 32]);
    assert_eq!(ok.1.name, b"alice".to_vec());
    match tata_core::start_params(vec![1u8; 31], b"alice".to_vec()) {
        Err(e) => assert_eq!(e, Error::SecretLength),
        Ok(_) => panic!("short secret must be rejected"),
    }
    assert_eq!(Error::SecretLength.to_text(), "bad secret key length");
    assert_eq!(Error::NameLength.to_text(), "display name too long");
}

#[test]
fn foreign_buffers_pair_produce_with_one_release() {
    // Paired produce/release cycles: every staged buffer is released exactly
    // once and hands back exactly its bytes.
    for round in 0..100u8 {
        let bytes = vec![round; (round as usize % 7) + 1];
        let staged = ForeignBuffer::from_vec(bytes.clone());
        assert_eq!(staged.len(), bytes.len());
        let back = staged.into_vec();
        assert_eq!(back, bytes);
    }
}

#[test]
fn user_records() {
    let (secret, id) = create_keypair(vec![2u8; 32], &vec![1u8, 2, 3]);
    let _local = NewUser::new("alice".to_string(), secret, id);
    let _peer_rec = NewUser::new_peer("bob".to_string(), peer("B"));
    let s = Secret::new(vec![5u8; 32]);
    assert_eq!(s.into_bytes(), vec![5u8; 32]);
}
