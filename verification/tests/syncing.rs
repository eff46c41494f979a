use p2p_chat::frame::{read_framed, write_framed, MSG_TYPE_FULL, MSG_TYPE_PATCH};
use p2p_chat::patch::{make_patch, PatchError};
use p2p_chat::session::{sender_step, SenderAction, SenderEvent};
use p2p_chat::sync::{ChangeKind, FrameAction, FrameFault, SyncState, WatchAction};

fn state(content: &str) -> SyncState {
    SyncState::new(content.to_string())
}

fn written(action: FrameAction) -> String {
    match action {
        FrameAction::WriteFile(content) => content,
        other => panic!("{other:?}"),
    }
}

fn passed_over(action: FrameAction) -> FrameFault {
    match action {
        FrameAction::ReadNext(fault) => fault,
        other => panic!("{other:?}"),
    }
}

fn broadcast(action: WatchAction) -> String {
    match action {
        WatchAction::Broadcast(patch) => patch,
        other => panic!("{other:?}"),
    }
}

fn sent(event: SenderEvent) -> Vec<u8> {
    match sender_step(event) {
        SenderAction::Send(bytes) => bytes,
        other => panic!("{other:?}"),
    }
}

fn framed(msg_type: u8, payload: &[u8]) -> Vec<u8> {
    write_framed(msg_type, payload).unwrap()
}

/// Reads the stream to its end, as the receiving side does.
fn receive(state: &mut SyncState, bytes: &[u8]) {
    let mut stream = bytes;
    while let Ok((msg_type, payload)) = read_framed(&mut stream) {
        if let FrameAction::CloseStream(_) = state.on_frame(msg_type, payload) {
            break;
        }
    }
}

#[test]
fn a_full_sync_replaces_the_content() {
    let mut peer = state("old\n");
    let action = peer.on_frame(MSG_TYPE_FULL, "größe\n".as_bytes().to_vec());
    assert_eq!(written(action), "größe\n");
    assert_eq!(peer.content(), "größe\n");
}

#[test]
fn a_patch_changes_the_content() {
    let mut peer = state("one\ntwo\n");
    let patch = make_patch("one\ntwo\n", "one\nthree\n");
    assert_eq!(written(peer.on_frame(MSG_TYPE_PATCH, patch.into_bytes())), "one\nthree\n");
    assert_eq!(peer.content(), "one\nthree\n");
}

#[test]
fn faulty_frames_change_nothing() {
    let mut peer = state("kept\n");
    let fault = passed_over(peer.on_frame(MSG_TYPE_FULL, vec![0xff]));
    assert_eq!(fault, FrameFault::FullNotUtf8);
    let fault = passed_over(peer.on_frame(MSG_TYPE_PATCH, vec![0xff]));
    assert_eq!(fault, FrameFault::PatchNotUtf8);
    let fault = passed_over(peer.on_frame(MSG_TYPE_PATCH, b"@@ what".to_vec()));
    assert_eq!(fault, FrameFault::PatchUnparsable);
    let patch = make_patch("other\n", "another\n");
    let fault = passed_over(peer.on_frame(MSG_TYPE_PATCH, patch.into_bytes()));
    assert_eq!(fault, FrameFault::PatchInapplicable);
    assert_eq!(peer.content(), "kept\n");
}

#[test]
fn an_unknown_type_closes_the_stream() {
    let mut peer = state("kept\n");
    match peer.on_frame(2, b"new\n".to_vec()) {
        FrameAction::CloseStream(fault) => {
            assert_eq!(fault, FrameFault::UnknownType { msg_type: 2 })
        }
        other => panic!("{other:?}"),
    }
    assert_eq!(peer.content(), "kept\n");
}

#[test]
fn outcomes_are_settled() {
    let mut peer = state("a");
    assert_eq!(written(peer.settle(Ok("b".to_string()))), "b");
    assert_eq!(written(peer.settle_patch(Ok("c".to_string()))), "c");
    let fault = passed_over(peer.settle_patch(Err(PatchError::Unparsable)));
    assert_eq!(fault, FrameFault::PatchUnparsable);
    let fault = passed_over(peer.settle_patch(Err(PatchError::Inapplicable)));
    assert_eq!(fault, FrameFault::PatchInapplicable);
    assert_eq!(passed_over(peer.settle(Err(FrameFault::FullNotUtf8))), FrameFault::FullNotUtf8);
    assert_eq!(peer.content(), "c");
}

#[test]
fn only_a_modification_is_read() {
    assert!(matches!(ChangeKind::Modified.action(), WatchAction::ReadFile));
    assert!(matches!(ChangeKind::Created.action(), WatchAction::Wait));
    assert!(matches!(ChangeKind::Removed.action(), WatchAction::Wait));
    assert!(matches!(ChangeKind::Other.action(), WatchAction::Wait));
}

#[test]
fn an_edit_is_broadcast_once() {
    let mut peer = state("a\n");
    let patch = broadcast(peer.on_content("b\n".to_string()));
    assert_eq!(patch, "--- original\n+++ modified\n@@ -1 +1 @@\n-a\n+b\n");
    assert_eq!(peer.content(), "b\n");
    assert!(matches!(peer.on_content("b\n".to_string()), WatchAction::Wait));
    assert_eq!(peer.content(), "b\n");
}

#[test]
fn an_adopted_content_is_known() {
    let mut peer = state("a");
    assert_eq!(broadcast(peer.adopt("b".to_string(), "the patch".to_string())), "the patch");
    assert_eq!(peer.content(), "b");
}

#[test]
fn a_remote_write_is_not_echoed() {
    let mut peer = state("old\n");
    let content = written(peer.on_frame(MSG_TYPE_FULL, b"new\n".to_vec()));
    assert!(matches!(peer.on_content(content), WatchAction::Wait));
    let patch = make_patch("new\n", "newer\n");
    let content = written(peer.on_frame(MSG_TYPE_PATCH, patch.into_bytes()));
    assert!(matches!(peer.on_content(content), WatchAction::Wait));
}

#[test]
fn a_sender_frames_the_full_sync_and_the_patches() {
    assert_eq!(sent(SenderEvent::Opened("hi".to_string())), [0, 0, 0, 0, 2, b'h', b'i']);
    assert_eq!(sent(SenderEvent::Patch("@@".to_string())), [1, 0, 0, 0, 2, b'@', b'@']);
}

#[test]
fn a_sender_goes_on_and_stops() {
    assert!(matches!(sender_step(SenderEvent::Sent), SenderAction::AwaitPatch));
    assert!(matches!(sender_step(SenderEvent::Lagged(3)), SenderAction::AwaitPatch));
    assert!(matches!(sender_step(SenderEvent::OpenFailed), SenderAction::Stop));
    assert!(matches!(sender_step(SenderEvent::SendFailed), SenderAction::Stop));
    assert!(matches!(sender_step(SenderEvent::Closed), SenderAction::Stop));
}

#[test]
fn a_peer_follows() {
    let mut here = state("one\ntwo\n");
    let mut there = state("something else");
    let mut bytes = sent(SenderEvent::Opened(here.content().to_string()));
    for version in ["one\ntwo\nthree\n", "", "four", "four\nfive\n"] {
        let patch = broadcast(here.on_content(version.to_string()));
        bytes.extend(sent(SenderEvent::Patch(patch)));
    }
    receive(&mut there, &bytes);
    assert_eq!(there.content(), "four\nfive\n");
    assert_eq!(here.content(), there.content());
}

#[test]
fn a_broken_stream_leaves_a_version() {
    let versions = ["one\n", "one\ntwo\n", "two\n"];
    let mut here = state(versions[0]);
    let mut bytes = sent(SenderEvent::Opened(versions[0].to_string()));
    for version in &versions[1..] {
        let patch = broadcast(here.on_content(version.to_string()));
        bytes.extend(sent(SenderEvent::Patch(patch)));
    }
    for n in 0..=bytes.len() {
        let mut there = state("before");
        receive(&mut there, &bytes[..n]);
        assert!(there.content() == "before" || versions.contains(&there.content()));
    }
}

#[test]
fn a_fault_is_passed_over_and_an_unknown_type_is_not() {
    let mut bytes = framed(MSG_TYPE_FULL, b"a\n");
    bytes.extend(framed(MSG_TYPE_PATCH, b"\xff"));
    bytes.extend(framed(MSG_TYPE_FULL, b"b\n"));
    let mut peer = state("");
    receive(&mut peer, &bytes);
    assert_eq!(peer.content(), "b\n");

    bytes.extend(framed(9, b""));
    bytes.extend(framed(MSG_TYPE_FULL, b"c\n"));
    let mut peer = state("");
    receive(&mut peer, &bytes);
    assert_eq!(peer.content(), "b\n");
}
