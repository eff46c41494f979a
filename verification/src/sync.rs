//! The content that a peer knows to be in sync, and what frames from peers and changes of the file
//! do to it.
use crate::frame::{MSG_TYPE_FULL, MSG_TYPE_PATCH};
use crate::patch::{apply_patch, make_patch, PatchError};
use vstd::prelude::*;

verus! {

use crate::patch::{
    apply_hunks, diff_hunks, hunks_text, patch_outcome, patch_text, text_hunks, text_result, Hunk,
};
use vstd::utf8::{
    decode_utf8, encode_utf8, encode_utf8_decode_utf8, encode_utf8_valid_utf8, valid_utf8,
};

/// Why a frame changed nothing.
#[derive(Debug, Clone, Copy, PartialEq, Eq, Structural)]
pub enum FrameFault {
    /// The payload of a full sync is not UTF-8.
    FullNotUtf8,
    /// The payload of a patch is not UTF-8.
    PatchNotUtf8,
    /// The payload of a patch is no patch.
    PatchUnparsable,
    /// The patch does not fit the known content: the peer is likely out of sync.
    PatchInapplicable,
    /// There is no such message type.
    UnknownType { msg_type: u8 },
}

/// What to do after a frame.
#[derive(Debug)]
pub enum FrameAction {
    /// Write the content to the file and read the next frame, whether or not the write succeeds.
    WriteFile(String),
    /// Read the next frame.
    ReadNext(FrameFault),
    /// Drop the stream.
    CloseStream(FrameFault),
}

/// A kind of change that is reported of the file.
#[derive(Debug, Clone, Copy, PartialEq, Eq, Structural)]
pub enum ChangeKind {
    Created,
    Modified,
    Removed,
    Other,
}

impl ChangeKind {
    /// What to do when the change is reported: only a modification is worth reading the file for.
    pub fn action(self) -> (action: WatchAction)
        ensures
            action == if self == ChangeKind::Modified {
                WatchAction::ReadFile
            } else {
                WatchAction::Wait
            },
    {
        match self {
            ChangeKind::Modified => WatchAction::ReadFile,
            ChangeKind::Created => WatchAction::Wait,
            ChangeKind::Removed => WatchAction::Wait,
            ChangeKind::Other => WatchAction::Wait,
        }
    }
}

/// What to do after a change of the file.
#[derive(Debug)]
pub enum WatchAction {
    /// Wait for the next change.
    Wait,
    /// Read the file. Where that fails, wait for the next change.
    ReadFile,
    /// Send the patch to every connected peer, and wait for the next change.
    Broadcast(String),
}

/// The content after a frame, or why the frame is ignored.
pub open spec fn frame_outcome(known: Seq<char>, msg_type: u8, payload: Seq<u8>) -> Result<
    Seq<char>,
    FrameFault,
> {
    if msg_type == MSG_TYPE_FULL {
        if valid_utf8(payload) {
            Ok(decode_utf8(payload))
        } else {
            Err(FrameFault::FullNotUtf8)
        }
    } else if msg_type == MSG_TYPE_PATCH {
        if valid_utf8(payload) {
            patched_outcome(patch_outcome(known, decode_utf8(payload)))
        } else {
            Err(FrameFault::PatchNotUtf8)
        }
    } else {
        Err(FrameFault::UnknownType { msg_type })
    }
}

/// The content after a patch that came to `outcome`.
pub open spec fn patched_outcome(outcome: Result<Seq<char>, PatchError>) -> Result<
    Seq<char>,
    FrameFault,
> {
    match outcome {
        Ok(patched) => Ok(patched),
        Err(PatchError::Unparsable) => Err(FrameFault::PatchUnparsable),
        Err(PatchError::Inapplicable) => Err(FrameFault::PatchInapplicable),
    }
}

/// What a receiver with the content `before` does when a frame comes to `outcome`: it adopts and
/// writes a new content, and else keeps its own. Only an unknown type ends the stream.
pub open spec fn settles(
    before: Seq<char>,
    outcome: Result<Seq<char>, FrameFault>,
    after: Seq<char>,
    action: FrameAction,
) -> bool {
    match outcome {
        Ok(content) => after == content && (action matches FrameAction::WriteFile(written)
            && written@ == content),
        Err(FrameFault::UnknownType { msg_type }) => after == before && action
            == FrameAction::CloseStream(FrameFault::UnknownType { msg_type }),
        Err(fault) => after == before && action == FrameAction::ReadNext(fault),
    }
}

/// What a peer with the content `before` does when it reads `content` from the file: it adopts a
/// content that it does not know, and broadcasts the patch to it.
pub open spec fn watches(
    before: Seq<char>,
    content: Seq<char>,
    after: Seq<char>,
    action: WatchAction,
) -> bool {
    &&& after == content
    &&& if content == before {
        action == WatchAction::Wait
    } else {
        action matches WatchAction::Broadcast(patch) && patch@ == patch_text(before, content)
    }
}

/// The last content that is known to be in sync.
#[derive(Debug)]
pub struct SyncState {
    content: String,
}

impl View for SyncState {
    type V = Seq<char>;

    closed spec fn view(&self) -> Seq<char> {
        self.content@
    }
}

impl SyncState {
    /// Starts from the content of the file.
    pub fn new(content: String) -> (state: SyncState)
        ensures
            state@ == content@,
    {
        SyncState { content }
    }

    /// The content.
    pub fn content(&self) -> (content: &str)
        ensures
            content@ == self@,
    {
        self.content.as_str()
    }

    /// Takes what a frame came to.
    pub fn settle(&mut self, outcome: Result<String, FrameFault>) -> (action: FrameAction)
        ensures
            settles(old(self)@, text_result(outcome), final(self)@, action),
            match outcome {
                Ok(content) => final(self)@ == content@ && (action matches FrameAction::WriteFile(
                    written,
                ) && written@ == content@),
                Err(fault) => final(self)@ == old(self)@ && action == if fault is UnknownType {
                    FrameAction::CloseStream(fault)
                } else {
                    FrameAction::ReadNext(fault)
                },
            },
    {
        match outcome {
            Ok(content) => {
                self.content = content.clone();
                FrameAction::WriteFile(content)
            },
            Err(FrameFault::UnknownType { msg_type }) => FrameAction::CloseStream(
                FrameFault::UnknownType { msg_type },
            ),
            Err(fault) => FrameAction::ReadNext(fault),
        }
    }

    /// Takes what applying a patch to the content came to.
    pub fn settle_patch(&mut self, outcome: Result<String, PatchError>) -> (action: FrameAction)
        ensures
            settles(
                old(self)@,
                patched_outcome(text_result(outcome)),
                final(self)@,
                action,
            ),
            match outcome {
                Ok(content) => final(self)@ == content@ && (action matches FrameAction::WriteFile(
                    written,
                ) && written@ == content@),
                Err(PatchError::Unparsable) => final(self)@ == old(self)@ && action
                    == FrameAction::ReadNext(FrameFault::PatchUnparsable),
                Err(PatchError::Inapplicable) => final(self)@ == old(self)@ && action
                    == FrameAction::ReadNext(FrameFault::PatchInapplicable),
            },
    {
        self.settle(
            match outcome {
                Ok(content) => Ok(content),
                Err(PatchError::Unparsable) => Err(FrameFault::PatchUnparsable),
                Err(PatchError::Inapplicable) => Err(FrameFault::PatchInapplicable),
            },
        )
    }

    /// Takes a frame from a peer. A patch is applied to the known content, not to what is on disk,
    /// so that it meets the content that the sender diffed against.
    pub fn on_frame(&mut self, msg_type: u8, payload: Vec<u8>) -> (action: FrameAction)
        ensures
            settles(
                old(self)@,
                frame_outcome(old(self)@, msg_type, payload@),
                final(self)@,
                action,
            ),
            msg_type == 0 && valid_utf8(payload@) ==> {
                &&& final(self)@ == decode_utf8(payload@)
                &&& action matches FrameAction::WriteFile(written) && written@ == decode_utf8(
                    payload@,
                )
            },
            msg_type == 0 && !valid_utf8(payload@) ==> {
                &&& final(self)@ == old(self)@
                &&& action == FrameAction::ReadNext(FrameFault::FullNotUtf8)
            },
            msg_type == 1 && valid_utf8(payload@) ==> match text_hunks(
                decode_utf8(payload@),
                usize::BITS,
            ) {
                None => {
                    &&& final(self)@ == old(self)@
                    &&& action == FrameAction::ReadNext(FrameFault::PatchUnparsable)
                },
                Some(hunks) => match apply_hunks(old(self)@, hunks) {
                    None => {
                        &&& final(self)@ == old(self)@
                        &&& action == FrameAction::ReadNext(FrameFault::PatchInapplicable)
                    },
                    Some(patched) => {
                        &&& final(self)@ == patched
                        &&& action matches FrameAction::WriteFile(written) && written@ == patched
                    },
                },
            },
            msg_type == 1 && !valid_utf8(payload@) ==> {
                &&& final(self)@ == old(self)@
                &&& action == FrameAction::ReadNext(FrameFault::PatchNotUtf8)
            },
            msg_type > 1 ==> {
                &&& final(self)@ == old(self)@
                &&& action == FrameAction::CloseStream(FrameFault::UnknownType { msg_type })
            },
    {
        if msg_type == MSG_TYPE_FULL {
            match String::from_utf8(payload) {
                Ok(content) => self.settle(Ok(content)),
                Err(_) => self.settle(Err(FrameFault::FullNotUtf8)),
            }
        } else if msg_type == MSG_TYPE_PATCH {
            match String::from_utf8(payload) {
                Ok(text) => {
                    let outcome = apply_patch(self.content.as_str(), text.as_str());
                    self.settle_patch(outcome)
                },
                Err(_) => self.settle(Err(FrameFault::PatchNotUtf8)),
            }
        } else {
            self.settle(Err(FrameFault::UnknownType { msg_type }))
        }
    }

    /// Adopts a content that was edited here, with the patch that leads to it.
    pub fn adopt(&mut self, content: String, patch: String) -> (action: WatchAction)
        ensures
            final(self)@ == content@,
            action == WatchAction::Broadcast(patch),
    {
        self.content = content;
        WatchAction::Broadcast(patch)
    }

    /// Takes the content that was read after a modification. A content that is known already was
    /// written by this peer itself, and is not sent on.
    pub fn on_content(&mut self, content: String) -> (action: WatchAction)
        ensures
            watches(old(self)@, content@, final(self)@, action),
            action matches WatchAction::Broadcast(patch) ==> patch_outcome(old(self)@, patch@)
                == Ok::<Seq<char>, PatchError>(content@),
            final(self)@ == content@,
            content@ == old(self)@ <==> action == WatchAction::Wait,
            content@ != old(self)@ ==> (action matches WatchAction::Broadcast(patch) && {
                &&& patch@ == hunks_text(
                    (Some("original"@), Some("modified"@)),
                    diff_hunks(old(self)@, content@),
                )
                &&& text_hunks(patch@, usize::BITS) matches Some(hunks) && apply_hunks(
                    old(self)@,
                    hunks,
                ) == Some(content@)
            }),
    {
        if self.content == content {
            return WatchAction::Wait;
        }
        let patch = make_patch(self.content.as_str(), content.as_str());
        self.adopt(content, patch)
    }
}

/// What a frame makes a peer write is not taken for a local edit: when the peer reads from the file
/// what it was told to write, it waits and keeps its content, whichever frame it was.
pub proof fn law_remote_write_is_not_echoed(
    before: Seq<char>,
    msg_type: u8,
    payload: Seq<u8>,
    after: Seq<char>,
    written: String,
    later: Seq<char>,
    action: WatchAction,
)
    requires
        settles(
            before,
            frame_outcome(before, msg_type, payload),
            after,
            FrameAction::WriteFile(written),
        ),
        watches(after, written@, later, action),
    ensures
        action == WatchAction::Wait,
        later == after,
{
}

/// Every edit is broadcast, and only once: the first report of a new content broadcasts the patch
/// to it, and a further report of the same content broadcasts nothing.
pub proof fn law_edit_is_broadcast_once(
    before: Seq<char>,
    content: Seq<char>,
    after: Seq<char>,
    first: WatchAction,
    later: Seq<char>,
    second: WatchAction,
)
    requires
        content != before,
        watches(before, content, after, first),
        watches(after, content, later, second),
    ensures
        first matches WatchAction::Broadcast(patch) && patch@ == patch_text(before, content),
        second == WatchAction::Wait,
        later == content,
{
}

/// A patch whose hunks fit the known content is taken up, whichever content it was made from: the
/// receiver has, and writes, what the hunks make of its own content.
pub proof fn law_fitting_patch_is_taken_up(
    known: Seq<char>,
    text: Seq<char>,
    hunks: Seq<Hunk>,
    patched: Seq<char>,
    after: Seq<char>,
    action: FrameAction,
)
    requires
        text_hunks(text, usize::BITS) == Some(hunks),
        apply_hunks(known, hunks) == Some(patched),
        settles(known, frame_outcome(known, MSG_TYPE_PATCH, encode_utf8(text)), after, action),
    ensures
        after == patched,
        action matches FrameAction::WriteFile(written) && written@ == patched,
{
    encode_utf8_valid_utf8(text);
    encode_utf8_decode_utf8(text);
}

/// A patch that is none, or whose hunks do not fit the known content, leaves the content and the
/// file alone, and the next frame is read.
pub proof fn law_unfit_patch_is_skipped(
    known: Seq<char>,
    text: Seq<char>,
    after: Seq<char>,
    action: FrameAction,
)
    requires
        text_hunks(text, usize::BITS) matches Some(hunks) ==> apply_hunks(known, hunks) is None,
        settles(known, frame_outcome(known, MSG_TYPE_PATCH, encode_utf8(text)), after, action),
    ensures
        after == known,
        action == FrameAction::ReadNext(
            if text_hunks(text, usize::BITS) is None {
                FrameFault::PatchUnparsable
            } else {
                FrameFault::PatchInapplicable
            },
        ),
{
    encode_utf8_valid_utf8(text);
    encode_utf8_decode_utf8(text);
}

/// A full sync is taken up as it is: the receiver has, and writes, the text that was sent.
pub proof fn law_full_sync_is_taken_up(
    known: Seq<char>,
    text: Seq<char>,
    after: Seq<char>,
    action: FrameAction,
)
    requires
        settles(known, frame_outcome(known, MSG_TYPE_FULL, encode_utf8(text)), after, action),
    ensures
        after == text,
        action matches FrameAction::WriteFile(written) && written@ == text,
{
    encode_utf8_valid_utf8(text);
    encode_utf8_decode_utf8(text);
}

/// A payload that is not text leaves the content and the file alone, and the next frame is read.
pub proof fn law_payload_that_is_no_text_is_skipped(
    known: Seq<char>,
    msg_type: u8,
    payload: Seq<u8>,
    after: Seq<char>,
    action: FrameAction,
)
    requires
        msg_type == MSG_TYPE_FULL || msg_type == MSG_TYPE_PATCH,
        !valid_utf8(payload),
        settles(known, frame_outcome(known, msg_type, payload), after, action),
    ensures
        after == known,
        action == FrameAction::ReadNext(
            if msg_type == MSG_TYPE_FULL {
                FrameFault::FullNotUtf8
            } else {
                FrameFault::PatchNotUtf8
            },
        ),
{
}

/// A frame of any other type leaves the content and the file alone, and the stream is dropped.
pub proof fn law_unknown_type_is_dropped(
    known: Seq<char>,
    msg_type: u8,
    payload: Seq<u8>,
    after: Seq<char>,
    action: FrameAction,
)
    requires
        msg_type != MSG_TYPE_FULL,
        msg_type != MSG_TYPE_PATCH,
        settles(known, frame_outcome(known, msg_type, payload), after, action),
    ensures
        after == known,
        action == FrameAction::CloseStream(FrameFault::UnknownType { msg_type }),
{
}

/// The file is written only with what the peer then knows, and the content changes only where the
/// file is written.
pub proof fn law_file_and_content_agree(
    known: Seq<char>,
    msg_type: u8,
    payload: Seq<u8>,
    after: Seq<char>,
    action: FrameAction,
)
    requires
        settles(known, frame_outcome(known, msg_type, payload), after, action),
    ensures
        action matches FrameAction::WriteFile(written) ==> written@ == after,
        !(action is WriteFile) ==> after == known,
{
}

/// What is broadcast after an edit is the difference from the content known before, and what is
/// known afterwards is what was read.
pub proof fn law_edit_is_broadcast_as_difference(
    before: Seq<char>,
    content: Seq<char>,
    after: Seq<char>,
    action: WatchAction,
)
    requires
        watches(before, content, after, action),
    ensures
        after == content,
        content == before <==> action == WatchAction::Wait,
        content != before ==> (action matches WatchAction::Broadcast(patch) && patch@ == hunks_text(
            (Some("original"@), Some("modified"@)),
            diff_hunks(before, content),
        )),
{
}

/// A full sync makes the receiver's content that of the sender, whatever it was before.
pub proof fn law_full_sync_reconciles(known: Seq<char>, content: Seq<char>)
    ensures
        frame_outcome(known, MSG_TYPE_FULL, encode_utf8(content)) == Ok::<Seq<char>, FrameFault>(
            content,
        ),
{
    encode_utf8_valid_utf8(content);
    encode_utf8_decode_utf8(content);
}

/// A patch takes a receiver that has the old content to the new one.
pub proof fn law_patch_is_followed(known: Seq<char>, patch: Seq<char>, content: Seq<char>)
    requires
        patch_outcome(known, patch) == Ok::<Seq<char>, PatchError>(content),
    ensures
        frame_outcome(known, MSG_TYPE_PATCH, encode_utf8(patch)) == Ok::<Seq<char>, FrameFault>(
            content,
        ),
{
    encode_utf8_valid_utf8(patch);
    encode_utf8_decode_utf8(patch);
}

} // verus!
