use anna_sync::signaling::{
    after_frame, not_a_message, Action, Frame, FrameReply, ServerMessage, SignalHub, SignalMessage,
};

fn hub(peers: &[&str]) -> SignalHub {
    let mut hub = SignalHub::new();
    for peer in peers {
        hub.connect(peer, 5);
    }
    hub
}

fn join(hub: &mut SignalHub, peer: &str, room: &str) -> Vec<(String, Vec<String>)> {
    hub.handle_message(peer, SignalMessage::Join { room: room.to_string() })
        .into_iter()
        .map(|action| match action {
            Action::Send { to, message: ServerMessage::PeerList { peers } } => (to, peers),
            other => panic!("expected a peer list, got {other:?}"),
        })
        .collect()
}

fn strings(list: &[&str]) -> Vec<String> {
    list.iter().map(|s| s.to_string()).collect()
}

#[test]
fn identifiers_are_random_uuids() {
    let mut hub = SignalHub::new();
    let (a, _) = hub.accept(0);
    let (b, _) = hub.accept(0);
    assert_ne!(a, b);
    assert_eq!(a.len(), 36);
    assert_eq!(a.as_bytes()[14], b'4');
    assert_eq!(hub.peer_count(), 2);
}

#[test]
fn only_the_room_is_told_of_a_newcomer() {
    let mut hub = hub(&["a", "b", "c"]);
    assert_eq!(join(&mut hub, "a", "r"), vec![("a".to_string(), strings(&[]))]);
    join(&mut hub, "c", "other");
    assert_eq!(
        join(&mut hub, "b", "r"),
        vec![("a".to_string(), strings(&["b"])), ("b".to_string(), strings(&["a"]))]
    );
}

#[test]
fn joining_twice_makes_no_second_membership() {
    let mut hub = hub(&["a", "b"]);
    join(&mut hub, "a", "r");
    join(&mut hub, "b", "r");
    assert_eq!(
        join(&mut hub, "a", "r"),
        vec![("a".to_string(), strings(&["b"])), ("b".to_string(), strings(&["a"]))]
    );
}

#[test]
fn one_who_has_left_is_in_no_room() {
    let mut hub = hub(&["a", "b", "c"]);
    join(&mut hub, "a", "r");
    join(&mut hub, "b", "r");
    hub.disconnect("a");
    assert_eq!(hub.peer_count(), 2);
    assert_eq!(
        join(&mut hub, "c", "r"),
        vec![("b".to_string(), strings(&["c"])), ("c".to_string(), strings(&["b"]))]
    );
}

#[test]
fn a_signal_is_passed_on_unchanged() {
    let mut hub = hub(&["a", "b"]);
    let payload = serde_json::Value::from(vec!["sdp", "offer"]);
    let actions =
        hub.handle_message("a", SignalMessage::Signal { to: "b".to_string(), signal: payload.clone() });
    assert_eq!(actions.len(), 1);
    match &actions[0] {
        Action::Send { to, message: ServerMessage::Signal { from, signal } } => {
            assert_eq!(to, "b");
            assert_eq!(from, "a");
            assert_eq!(signal, &payload);
        }
        other => panic!("expected a signal, got {other:?}"),
    }
}

#[test]
fn a_signal_to_nobody_comes_back_as_an_error() {
    let mut hub = hub(&["a"]);
    let actions = hub
        .handle_message("a", SignalMessage::Signal { to: "ghost".to_string(), signal: serde_json::Value::Null });
    assert_eq!(actions.len(), 1);
    match &actions[0] {
        Action::Send { to, message: ServerMessage::Error { message } } => {
            assert_eq!(to, "a");
            assert_eq!(message, "peer ghost not found");
        }
        other => panic!("expected an error, got {other:?}"),
    }
}

#[test]
fn announced_files_are_kept_with_the_peer() {
    let mut hub = hub(&["a"]);
    let actions = hub.handle_message("a", SignalMessage::Announce { files: strings(&["f", "g"]) });
    let asked: Vec<String> = actions
        .into_iter()
        .map(|action| match action {
            Action::LookUp { file_hash } => file_hash,
            other => panic!("expected a look-up, got {other:?}"),
        })
        .collect();
    assert_eq!(asked, strings(&["f", "g"]));
    let peers = hub.list_peers();
    assert_eq!(peers.len(), 1);
    assert_eq!(peers[0].files, strings(&["f", "g"]));
    assert_eq!(peers[0].connected_at, 5);
    assert_eq!(peers[0].clone().files, peers[0].files);
    hub.handle_message("stranger", SignalMessage::Announce { files: strings(&["f"]) });
    assert_eq!(hub.peer_count(), 1);
}

#[test]
fn a_found_file_makes_a_seeder() {
    let mut hub = hub(&["a"]);
    hub.file_looked_up("a", "f", Some(2));
    hub.file_looked_up("a", "g", None);
    hub.file_looked_up("a", "h", Some(0));
    assert_eq!(hub.chunk_tracker().get_peers_for_chunk("f", 1), strings(&["a"]));
    assert!(hub.chunk_tracker().get_available_chunks("g").is_empty());
    assert!(hub.chunk_tracker().get_available_chunks("h").is_empty());
}

#[test]
fn chunk_requests_are_answered_from_the_bitfields() {
    let mut hub = hub(&["a", "b"]);
    for (peer, bits) in [("a", 0xc0u8), ("b", 0x40)] {
        let actions = hub.handle_message(
            peer,
            SignalMessage::Bitfield { file_hash: "f".to_string(), bitfield: vec![bits], chunk_count: 2 },
        );
        assert!(actions.is_empty());
    }
    let actions =
        hub.handle_message("b", SignalMessage::RequestChunk { file_hash: "f".to_string(), chunk_id: 0 });
    match &actions[..] {
        [Action::Send { to, message: ServerMessage::ChunkPeers { file_hash, chunk_id, peers } }] => {
            assert_eq!((to.as_str(), file_hash.as_str(), *chunk_id), ("b", "f", 0));
            assert_eq!(peers, &strings(&["a"]));
        }
        other => panic!("expected the peers of a chunk, got {other:?}"),
    }
    let actions = hub.handle_message(
        "b",
        SignalMessage::PipelineRequest { file_hash: "f".to_string(), chunk_ids: vec![1, 0] },
    );
    match &actions[..] {
        [Action::Send { to, message: ServerMessage::ChunkAssignments { file_hash, assignments } }] => {
            assert_eq!((to.as_str(), file_hash.as_str()), ("b", "f"));
            let ids: Vec<u32> = assignments.iter().map(|a| a.chunk_id).collect();
            assert_eq!(ids, vec![0, 1]);
        }
        other => panic!("expected assignments, got {other:?}"),
    }
}

#[test]
fn an_error_from_a_peer_is_taken_without_an_answer() {
    let mut hub = hub(&["a"]);
    assert!(hub.handle_message("a", SignalMessage::Error { message: "oops".to_string() }).is_empty());
    assert_eq!(hub.peer_count(), 1);
}

#[test]
fn what_is_no_message_is_answered_with_an_error() {
    match not_a_message("a", "expected value at line 1 column 1") {
        Action::Send { to, message: ServerMessage::Error { message } } => {
            assert_eq!(to, "a");
            assert_eq!(message, "expected value at line 1 column 1");
        }
        other => panic!("expected an error, got {other:?}"),
    }
}

#[test]
fn a_connection_is_left_when_it_is_closed_or_broken() {
    assert_eq!(after_frame(Frame::Text), FrameReply::Handle);
    assert_eq!(after_frame(Frame::Other), FrameReply::Ignore);
    assert_eq!(after_frame(Frame::Close), FrameReply::Leave);
    assert_eq!(after_frame(Frame::Broken), FrameReply::Leave);
}
