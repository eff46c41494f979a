//! The sending side of a file-sync stream, and what a whole stream does to the receiving side.
use crate::frame::{write_framed, MSG_TYPE_FULL, MSG_TYPE_PATCH};
use vstd::prelude::*;

verus! {

use crate::frame::{
    fits_length_field, frame_bytes, frame_rest, law_cut_frame_is_not_read, law_frame_layout,
    law_read_gives_back_written, parse_frame, stream_bytes, MAX_MSG_LEN,
};
use crate::patch::{patch_outcome, PatchError};
use crate::sync::{frame_outcome, law_full_sync_reconciles, law_patch_is_followed, FrameFault};
use vstd::utf8::encode_utf8;

/// What happens to the task that sends to one peer.
#[derive(Debug)]
pub enum SenderEvent {
    /// The stream is open; the known content is the given one.
    Opened(String),
    /// The stream could not be opened.
    OpenFailed,
    /// The bytes were written.
    Sent,
    /// The bytes could not be written.
    SendFailed,
    /// A patch was broadcast.
    Patch(String),
    /// The task was too slow, and so many patches are lost.
    Lagged(u64),
    /// No more patches will be broadcast.
    Closed,
}

/// What the task that sends to one peer does next.
#[derive(Debug)]
pub enum SenderAction {
    /// Write the bytes to the stream.
    Send(Vec<u8>),
    /// Wait for the next patch.
    AwaitPatch,
    /// End.
    Stop,
}

/// A `SenderEvent` with its text taken by its view.
pub enum SenderInput {
    Opened(Seq<char>),
    OpenFailed,
    Sent,
    SendFailed,
    Patch(Seq<char>),
    Lagged(u64),
    Closed,
}

/// A `SenderAction` with its bytes taken by their view.
pub enum SenderOutput {
    Send(Seq<u8>),
    AwaitPatch,
    Stop,
}

impl View for SenderEvent {
    type V = SenderInput;

    open spec fn view(&self) -> SenderInput {
        match self {
            SenderEvent::Opened(content) => SenderInput::Opened(content@),
            SenderEvent::OpenFailed => SenderInput::OpenFailed,
            SenderEvent::Sent => SenderInput::Sent,
            SenderEvent::SendFailed => SenderInput::SendFailed,
            SenderEvent::Patch(patch) => SenderInput::Patch(patch@),
            SenderEvent::Lagged(missed) => SenderInput::Lagged(*missed),
            SenderEvent::Closed => SenderInput::Closed,
        }
    }
}

impl View for SenderAction {
    type V = SenderOutput;

    open spec fn view(&self) -> SenderOutput {
        match self {
            SenderAction::Send(bytes) => SenderOutput::Send(bytes@),
            SenderAction::AwaitPatch => SenderOutput::AwaitPatch,
            SenderAction::Stop => SenderOutput::Stop,
        }
    }
}

/// A message with the text as its payload, or the end where the text is too long to be framed.
pub open spec fn text_output(msg_type: u8, text: Seq<char>) -> SenderOutput {
    if fits_length_field(encode_utf8(text)) {
        SenderOutput::Send(frame_bytes(msg_type, encode_utf8(text)))
    } else {
        SenderOutput::Stop
    }
}

/// A full sync comes first, then every patch in a frame of its own. Lost patches are passed over.
/// What cannot be sent ends the task.
pub open spec fn sender_output(input: SenderInput) -> SenderOutput {
    match input {
        SenderInput::Opened(content) => text_output(MSG_TYPE_FULL, content),
        SenderInput::Patch(patch) => text_output(MSG_TYPE_PATCH, patch),
        SenderInput::Sent => SenderOutput::AwaitPatch,
        SenderInput::Lagged(_) => SenderOutput::AwaitPatch,
        SenderInput::OpenFailed => SenderOutput::Stop,
        SenderInput::SendFailed => SenderOutput::Stop,
        SenderInput::Closed => SenderOutput::Stop,
    }
}

fn text_action(msg_type: u8, text: &str) -> (action: SenderAction)
    ensures
        action@ == text_output(msg_type, text@),
        if encode_utf8(text@).len() <= u32::MAX {
            action matches SenderAction::Send(bytes) && {
                &&& bytes@.len() == 5 + encode_utf8(text@).len()
                &&& bytes@[0] == msg_type
                &&& bytes@[1] * 0x100_0000 + bytes@[2] * 0x1_0000 + bytes@[3] * 0x100 + bytes@[4]
                    == encode_utf8(text@).len()
                &&& bytes@.skip(5) == encode_utf8(text@)
            }
        } else {
            action is Stop
        },
{
    proof {
        law_frame_layout(msg_type, encode_utf8(text@));
    }
    match write_framed(msg_type, text.as_bytes()) {
        Some(bytes) => SenderAction::Send(bytes),
        None => SenderAction::Stop,
    }
}

/// What the task that sends to one peer does next.
pub fn sender_step(event: SenderEvent) -> (action: SenderAction)
    ensures
        action@ == sender_output(event@),
        match event {
            SenderEvent::Opened(content) => if encode_utf8(content@).len() <= u32::MAX {
                action matches SenderAction::Send(bytes) && {
                    &&& bytes@.len() == 5 + encode_utf8(content@).len()
                    &&& bytes@[0] == 0
                    &&& bytes@[1] * 0x100_0000 + bytes@[2] * 0x1_0000 + bytes@[3] * 0x100
                        + bytes@[4] == encode_utf8(content@).len()
                    &&& bytes@.skip(5) == encode_utf8(content@)
                }
            } else {
                action is Stop
            },
            SenderEvent::Patch(patch) => if encode_utf8(patch@).len() <= u32::MAX {
                action matches SenderAction::Send(bytes) && {
                    &&& bytes@.len() == 5 + encode_utf8(patch@).len()
                    &&& bytes@[0] == 1
                    &&& bytes@[1] * 0x100_0000 + bytes@[2] * 0x1_0000 + bytes@[3] * 0x100
                        + bytes@[4] == encode_utf8(patch@).len()
                    &&& bytes@.skip(5) == encode_utf8(patch@)
                }
            } else {
                action is Stop
            },
            SenderEvent::Sent => action is AwaitPatch,
            SenderEvent::Lagged(_) => action is AwaitPatch,
            SenderEvent::OpenFailed => action is Stop,
            SenderEvent::SendFailed => action is Stop,
            SenderEvent::Closed => action is Stop,
        },
{
    match event {
        SenderEvent::Opened(content) => text_action(MSG_TYPE_FULL, content.as_str()),
        SenderEvent::Patch(patch) => text_action(MSG_TYPE_PATCH, patch.as_str()),
        SenderEvent::Sent => SenderAction::AwaitPatch,
        SenderEvent::Lagged(_) => SenderAction::AwaitPatch,
        SenderEvent::OpenFailed => SenderAction::Stop,
        SenderEvent::SendFailed => SenderAction::Stop,
        SenderEvent::Closed => SenderAction::Stop,
    }
}

/// On an open stream the whole known content is sent, and on a broadcast the patch: as a frame that
/// holds the bytes of the text, with their number in front of them, and the type in front of that.
/// Only a text with more bytes than 32 bits can count is not sent, and ends the task.
pub proof fn law_texts_are_sent_in_full(text: Seq<char>)
    ensures
        encode_utf8(text).len() < 0x1_0000_0000 ==> {
            &&& sender_output(SenderInput::Opened(text)) matches SenderOutput::Send(bytes) && {
                &&& bytes.len() == 5 + encode_utf8(text).len()
                &&& bytes[0] == 0
                &&& bytes[1] * 0x100_0000 + bytes[2] * 0x1_0000 + bytes[3] * 0x100 + bytes[4]
                    == encode_utf8(text).len()
                &&& bytes.skip(5) == encode_utf8(text)
            }
            &&& sender_output(SenderInput::Patch(text)) matches SenderOutput::Send(bytes) && {
                &&& bytes.len() == 5 + encode_utf8(text).len()
                &&& bytes[0] == 1
                &&& bytes[1] * 0x100_0000 + bytes[2] * 0x1_0000 + bytes[3] * 0x100 + bytes[4]
                    == encode_utf8(text).len()
                &&& bytes.skip(5) == encode_utf8(text)
            }
        },
        encode_utf8(text).len() >= 0x1_0000_0000 ==> {
            &&& sender_output(SenderInput::Opened(text)) is Stop
            &&& sender_output(SenderInput::Patch(text)) is Stop
        },
{
    law_frame_layout(MSG_TYPE_FULL, encode_utf8(text));
    law_frame_layout(MSG_TYPE_PATCH, encode_utf8(text));
}

/// A sender waits for the next patch when it has sent what it had and when it missed some, and it
/// ends on any failure and when there will be no more patches.
pub proof fn law_sender_waits_or_ends(missed: u64)
    ensures
        sender_output(SenderInput::Sent) is AwaitPatch,
        sender_output(SenderInput::Lagged(missed)) is AwaitPatch,
        sender_output(SenderInput::OpenFailed) is Stop,
        sender_output(SenderInput::SendFailed) is Stop,
        sender_output(SenderInput::Closed) is Stop,
{
}

/// What a peer sends, the other takes up: any text that is sent as the first message and is within
/// the cap becomes the content of the receiver.
pub proof fn law_first_message_is_taken_up(known: Seq<char>, text: Seq<char>)
    requires
        encode_utf8(text).len() <= MAX_MSG_LEN,
    ensures
        sender_output(SenderInput::Opened(text)) matches SenderOutput::Send(bytes) && received(
            known,
            bytes,
        ) == text,
{
    reveal_with_fuel(received, 2);
    let bytes = frame_bytes(MSG_TYPE_FULL, encode_utf8(text));
    let none = Seq::<u8>::empty();
    assert(bytes =~= bytes + none);
    law_read_gives_back_written(MSG_TYPE_FULL, encode_utf8(text), none);
    law_full_sync_reconciles(known, text);
}

/// All the bytes that a sender writes when `inputs` happen to it, up to where it stops.
pub open spec fn sent_bytes(inputs: Seq<SenderInput>) -> Seq<u8>
    decreases inputs.len(),
{
    if inputs.len() == 0 {
        Seq::empty()
    } else {
        match sender_output(inputs[0]) {
            SenderOutput::Send(bytes) => bytes + sent_bytes(inputs.drop_first()),
            SenderOutput::AwaitPatch => sent_bytes(inputs.drop_first()),
            SenderOutput::Stop => Seq::empty(),
        }
    }
}

/// What happens to a sender that gets `patches` one after the other and can write them all.
pub open spec fn patch_inputs(patches: Seq<Seq<char>>) -> Seq<SenderInput>
    decreases patches.len(),
{
    if patches.len() == 0 {
        Seq::empty()
    } else {
        seq![SenderInput::Patch(patches[0]), SenderInput::Sent] + patch_inputs(patches.drop_first())
    }
}

/// What happens to a sender that opens a stream with `content` known, gets `patches` one after
/// the other and can write them all.
pub open spec fn session_inputs(content: Seq<char>, patches: Seq<Seq<char>>) -> Seq<SenderInput> {
    seq![SenderInput::Opened(content), SenderInput::Sent] + patch_inputs(patches)
}

/// The frames of `patches`.
pub open spec fn patch_frames(patches: Seq<Seq<char>>) -> Seq<(u8, Seq<u8>)> {
    Seq::new(patches.len(), |i: int| (MSG_TYPE_PATCH, encode_utf8(patches[i])))
}

/// The frames of a session: the full sync and the patches.
pub open spec fn session_frames(content: Seq<char>, patches: Seq<Seq<char>>) -> Seq<(u8, Seq<u8>)> {
    seq![(MSG_TYPE_FULL, encode_utf8(content))] + patch_frames(patches)
}

/// The content of a receiver that starts with `known`, once it has read the stream `input` up to
/// its end or to the frame that makes it drop the stream.
pub open spec fn received(known: Seq<char>, input: Seq<u8>) -> Seq<char>
    decreases input.len(),
{
    match parse_frame(input) {
        Err(_) => known,
        Ok((msg_type, payload)) => match frame_outcome(known, msg_type, payload) {
            Ok(content) => received(content, frame_rest(input)),
            Err(FrameFault::UnknownType { .. }) => known,
            Err(_) => received(known, frame_rest(input)),
        },
    }
}

/// `versions` is a history of a file, and each of `patches` leads from one version to the next.
pub open spec fn patches_lead(versions: Seq<Seq<char>>, patches: Seq<Seq<char>>) -> bool {
    &&& versions.len() == patches.len() + 1
    &&& forall|i: int|
        0 <= i < patches.len() ==> patch_outcome(versions[i], #[trigger] patches[i]) == Ok::<
            Seq<char>,
            PatchError,
        >(versions[i + 1])
}

/// Every text fits into a frame that a reader accepts.
pub open spec fn fit_frames(texts: Seq<Seq<char>>) -> bool {
    forall|i: int| 0 <= i < texts.len() ==> encode_utf8(#[trigger] texts[i]).len() <= MAX_MSG_LEN
}

/// Every text can be framed.
pub open spec fn can_be_framed(texts: Seq<Seq<char>>) -> bool {
    forall|i: int| 0 <= i < texts.len() ==> fits_length_field(encode_utf8(#[trigger] texts[i]))
}

proof fn lemma_patch_bytes(patches: Seq<Seq<char>>)
    requires
        can_be_framed(patches),
    ensures
        sent_bytes(patch_inputs(patches)) == stream_bytes(patch_frames(patches)),
    decreases patches.len(),
{
    reveal_with_fuel(sent_bytes, 3);
    if patches.len() > 0 {
        let tail = patches.drop_first();
        let inputs = patch_inputs(patches);
        assert forall|i: int| 0 <= i < tail.len() implies fits_length_field(
            encode_utf8(#[trigger] tail[i]),
        ) by {
            assert(tail[i] == patches[i + 1]);
        }
        lemma_patch_bytes(tail);
        assert(inputs.drop_first().drop_first() =~= patch_inputs(tail));
        assert(inputs.drop_first()[0] == SenderInput::Sent);
        assert(patch_frames(patches).drop_first() =~= patch_frames(tail));
    }
}

/// A sender writes the full sync first and then every patch, each in a frame of its own and in the
/// order in which they were broadcast.
pub proof fn law_sender_writes_full_sync_then_patches(content: Seq<char>, patches: Seq<Seq<char>>)
    requires
        fits_length_field(encode_utf8(content)),
        can_be_framed(patches),
    ensures
        sent_bytes(session_inputs(content, patches)) == stream_bytes(
            session_frames(content, patches),
        ),
{
    reveal_with_fuel(sent_bytes, 3);
    let inputs = session_inputs(content, patches);
    lemma_patch_bytes(patches);
    assert(inputs.drop_first().drop_first() =~= patch_inputs(patches));
    assert(inputs.drop_first()[0] == SenderInput::Sent);
    assert(session_frames(content, patches).drop_first() =~= patch_frames(patches));
}

/// A text that cannot be framed is not sent, nor is anything after it.
pub proof fn law_over_long_text_ends_the_sending(text: Seq<char>, inputs: Seq<SenderInput>)
    requires
        !fits_length_field(encode_utf8(text)),
    ensures
        sent_bytes(seq![SenderInput::Opened(text)] + inputs) == Seq::<u8>::empty(),
        sent_bytes(seq![SenderInput::Patch(text)] + inputs) == Seq::<u8>::empty(),
{
}

/// A lag makes a sender neither write nor stop: it goes on with the next patch.
pub proof fn law_lag_is_passed_over(missed: u64, inputs: Seq<SenderInput>)
    ensures
        sent_bytes(seq![SenderInput::Lagged(missed)] + inputs) == sent_bytes(inputs),
{
    assert((seq![SenderInput::Lagged(missed)] + inputs).drop_first() =~= inputs);
}

/// A frame that a receiver ignores does not change its content, and it goes on with the next one.
pub proof fn law_fault_is_passed_over(
    known: Seq<char>,
    msg_type: u8,
    payload: Seq<u8>,
    rest: Seq<u8>,
)
    requires
        payload.len() <= MAX_MSG_LEN,
        msg_type == MSG_TYPE_FULL || msg_type == MSG_TYPE_PATCH,
        frame_outcome(known, msg_type, payload) is Err,
    ensures
        received(known, frame_bytes(msg_type, payload) + rest) == received(known, rest),
{
    law_read_gives_back_written(msg_type, payload, rest);
}

/// At a frame of an unknown type the receiver drops the stream, and nothing behind it counts.
pub proof fn law_unknown_type_ends_the_stream(
    known: Seq<char>,
    msg_type: u8,
    payload: Seq<u8>,
    rest: Seq<u8>,
)
    requires
        payload.len() <= MAX_MSG_LEN,
        msg_type != MSG_TYPE_FULL,
        msg_type != MSG_TYPE_PATCH,
    ensures
        received(known, frame_bytes(msg_type, payload) + rest) == known,
{
    law_read_gives_back_written(msg_type, payload, rest);
}

proof fn lemma_history_tail(versions: Seq<Seq<char>>, patches: Seq<Seq<char>>)
    requires
        patches.len() > 0,
        patches_lead(versions, patches),
        fit_frames(patches),
    ensures
        patches_lead(versions.drop_first(), patches.drop_first()),
        fit_frames(patches.drop_first()),
{
    let later = versions.drop_first();
    let tail = patches.drop_first();
    assert forall|i: int| 0 <= i < tail.len() implies patch_outcome(later[i], #[trigger] tail[i])
        == Ok::<Seq<char>, PatchError>(later[i + 1]) by {
        assert(tail[i] == patches[i + 1]);
    }
    assert forall|i: int| 0 <= i < tail.len() implies encode_utf8(#[trigger] tail[i]).len()
        <= MAX_MSG_LEN by {
        assert(tail[i] == patches[i + 1]);
    }
}

proof fn lemma_patches_followed(
    versions: Seq<Seq<char>>,
    patches: Seq<Seq<char>>,
    rest: Seq<u8>,
)
    requires
        patches_lead(versions, patches),
        fit_frames(patches),
    ensures
        received(versions[0], stream_bytes(patch_frames(patches)) + rest) == received(
            versions.last(),
            rest,
        ),
    decreases patches.len(),
{
    let bytes = stream_bytes(patch_frames(patches));
    if patches.len() == 0 {
        assert(bytes + rest =~= rest);
    } else {
        let tail = patches.drop_first();
        let tail_bytes = stream_bytes(patch_frames(tail));
        let payload = encode_utf8(patches[0]);
        assert(patch_frames(patches).drop_first() =~= patch_frames(tail));
        assert(bytes + rest =~= frame_bytes(MSG_TYPE_PATCH, payload) + (tail_bytes + rest));
        law_read_gives_back_written(MSG_TYPE_PATCH, payload, tail_bytes + rest);
        law_patch_is_followed(versions[0], patches[0], versions[1]);
        lemma_history_tail(versions, patches);
        lemma_patches_followed(versions.drop_first(), tail, rest);
    }
}

/// A peer follows the one it is connected to: whatever content it starts from, once it has read
/// the full sync and the patches of a session it has the last version, and it goes on from there.
/// The patches are those that the sender broadcasts (see `SyncState::on_content`), and all of them
/// arrive: none is lost to a lag, and none is longer than a reader accepts.
pub proof fn law_peer_follows(
    known: Seq<char>,
    versions: Seq<Seq<char>>,
    patches: Seq<Seq<char>>,
    rest: Seq<u8>,
)
    requires
        patches_lead(versions, patches),
        encode_utf8(versions[0]).len() <= MAX_MSG_LEN,
        fit_frames(patches),
    ensures
        received(known, sent_bytes(session_inputs(versions[0], patches)) + rest) == received(
            versions.last(),
            rest,
        ),
        received(known, sent_bytes(session_inputs(versions[0], patches))) == versions.last(),
{
    let payload = encode_utf8(versions[0]);
    let frames = session_frames(versions[0], patches);
    let patch_bytes = stream_bytes(patch_frames(patches));
    let bytes = sent_bytes(session_inputs(versions[0], patches));
    law_sender_writes_full_sync_then_patches(versions[0], patches);
    assert(frames.drop_first() =~= patch_frames(patches));
    assert(bytes + rest =~= frame_bytes(MSG_TYPE_FULL, payload) + (patch_bytes + rest));
    law_read_gives_back_written(MSG_TYPE_FULL, payload, patch_bytes + rest);
    law_full_sync_reconciles(known, versions[0]);
    lemma_patches_followed(versions, patches, rest);
    let none = Seq::<u8>::empty();
    assert(bytes =~= frame_bytes(MSG_TYPE_FULL, payload) + (patch_bytes + none));
    law_read_gives_back_written(MSG_TYPE_FULL, payload, patch_bytes + none);
    lemma_patches_followed(versions, patches, none);
}

proof fn lemma_cut_patches(versions: Seq<Seq<char>>, patches: Seq<Seq<char>>, n: int)
    requires
        patches_lead(versions, patches),
        fit_frames(patches),
        0 <= n <= stream_bytes(patch_frames(patches)).len(),
    ensures
        versions.contains(received(versions[0], stream_bytes(patch_frames(patches)).take(n))),
    decreases patches.len(),
{
    let bytes = stream_bytes(patch_frames(patches));
    if patches.len() == 0 {
        assert(bytes.take(n).len() == 0);
        assert(versions[0] == received(versions[0], bytes.take(n)));
    } else {
        let tail = patches.drop_first();
        let tail_bytes = stream_bytes(patch_frames(tail));
        let payload = encode_utf8(patches[0]);
        let frame = frame_bytes(MSG_TYPE_PATCH, payload);
        assert(patch_frames(patches).drop_first() =~= patch_frames(tail));
        assert(bytes =~= frame + tail_bytes);
        if n < frame.len() {
            law_cut_frame_is_not_read(MSG_TYPE_PATCH, payload, n);
            assert(bytes.take(n) =~= frame.take(n));
            assert(versions[0] == received(versions[0], bytes.take(n)));
        } else {
            let later = versions.drop_first();
            let m = n - frame.len();
            assert(bytes.take(n) =~= frame + tail_bytes.take(m));
            law_read_gives_back_written(MSG_TYPE_PATCH, payload, tail_bytes.take(m));
            law_patch_is_followed(versions[0], patches[0], versions[1]);
            lemma_history_tail(versions, patches);
            lemma_cut_patches(later, tail, m);
            let k = choose|k: int|
                0 <= k < later.len() && #[trigger] later[k] == received(
                    later[0],
                    tail_bytes.take(m),
                );
            assert(versions[k + 1] == later[k]);
        }
    }
}

/// A stream that breaks off anywhere leaves the receiver with a version of the file, or with what
/// it had before the full sync arrived: never with a mixture.
pub proof fn law_cut_session_leaves_a_version(
    known: Seq<char>,
    versions: Seq<Seq<char>>,
    patches: Seq<Seq<char>>,
    n: int,
)
    requires
        patches_lead(versions, patches),
        encode_utf8(versions[0]).len() <= MAX_MSG_LEN,
        fit_frames(patches),
        0 <= n <= sent_bytes(session_inputs(versions[0], patches)).len(),
    ensures
        ({
            let content = received(known, sent_bytes(session_inputs(versions[0], patches)).take(n));
            content == known || versions.contains(content)
        }),
{
    let payload = encode_utf8(versions[0]);
    let frame = frame_bytes(MSG_TYPE_FULL, payload);
    let patch_bytes = stream_bytes(patch_frames(patches));
    let bytes = sent_bytes(session_inputs(versions[0], patches));
    law_sender_writes_full_sync_then_patches(versions[0], patches);
    assert(session_frames(versions[0], patches).drop_first() =~= patch_frames(patches));
    assert(bytes =~= frame + patch_bytes);
    if n < frame.len() {
        law_cut_frame_is_not_read(MSG_TYPE_FULL, payload, n);
        assert(bytes.take(n) =~= frame.take(n));
    } else {
        let m = n - frame.len();
        assert(bytes.take(n) =~= frame + patch_bytes.take(m));
        law_read_gives_back_written(MSG_TYPE_FULL, payload, patch_bytes.take(m));
        law_full_sync_reconciles(known, versions[0]);
        lemma_cut_patches(versions, patches, m);
    }
}

} // verus!
