//! The streamed upload protocol: the first frame describes the file, every
//! later chunk frame is appended to the blob, and the end of the stream
//! finalizes it.
use vstd::prelude::*;
use vstd::string::StringExecFns;

use crate::wire::{StreamFrame, UploadFileRequest};

verus! {

/// Prefix of every uploaded artifact's blob path.
pub open spec fn artifact_prefix() -> Seq<char> {
    "modelbox/artifacts/"@
}

/// Blob path of the file `file_id` under the object `parent_id`:
/// `modelbox/artifacts/{parent_id}/{file_id}`.
pub open spec fn artifact_path(parent_id: Seq<char>, file_id: Seq<char>) -> Seq<char> {
    artifact_prefix() + parent_id + "/"@ + file_id
}

/// Blob path of the file `file_id` under the object `parent_id`.
pub fn artifact_path_of(parent_id: &str, file_id: &str) -> (r: String)
    ensures
        r@ == artifact_path(parent_id@, file_id@),
{
    let mut p = String::from_str("modelbox/artifacts/");
    p.append(parent_id);
    p.append("/");
    p.append(file_id);
    p
}

/// What to do with one message that follows the first frame.
#[derive(Debug, PartialEq, Eq)]
pub enum UploadAction {
    /// Append these bytes to the blob.
    Write(Vec<u8>),
    /// Nothing to write: the message carries no chunk.
    Skip,
    /// The stream has ended: flush and finalize the blob.
    Finalize,
}

/// The action for one message after the first frame; `None` is the end of
/// the stream.
pub open spec fn step_action(message: Option<UploadFileRequest>) -> UploadAction {
    match message {
        Some(UploadFileRequest { stream_frame: Some(StreamFrame::Chunks(data)) }) => UploadAction::Write(data),
        Some(_) => UploadAction::Skip,
        None => UploadAction::Finalize,
    }
}

/// Decides what to do with one message after the first frame: a chunk is
/// written, any other frame is skipped, the end of the stream finalizes.
pub fn upload_step(message: Option<UploadFileRequest>) -> (r: UploadAction)
    ensures
        r == step_action(message),
{
    match message {
        Some(req) => match req.stream_frame {
            Some(StreamFrame::Chunks(data)) => UploadAction::Write(data),
            Some(StreamFrame::Metadata(m)) => UploadAction::Skip,
            None => UploadAction::Skip,
        },
        None => UploadAction::Finalize,
    }
}

/// The bytes that a message contributes to the blob.
pub open spec fn chunk_bytes(message: UploadFileRequest) -> Seq<u8> {
    match message.stream_frame {
        Some(StreamFrame::Chunks(data)) => data@,
        _ => Seq::empty(),
    }
}

/// The concatenation of the chunks of the messages, in order.
pub open spec fn chunks_of(messages: Seq<UploadFileRequest>) -> Seq<u8>
    decreases messages.len(),
{
    if messages.len() == 0 {
        Seq::empty()
    } else {
        chunks_of(messages.drop_last()) + chunk_bytes(messages.last())
    }
}

/// The bytes that a sequence of actions writes, in order.
pub open spec fn bytes_written(actions: Seq<UploadAction>) -> Seq<u8>
    decreases actions.len(),
{
    if actions.len() == 0 {
        Seq::empty()
    } else {
        bytes_written(actions.drop_last()) + match actions.last() {
            UploadAction::Write(data) => data@,
            _ => Seq::empty(),
        }
    }
}

/// Running the step decisions over the messages that follow the first frame
/// writes exactly the concatenation of their chunks, in order.
pub proof fn law_upload_writes_chunks(messages: Seq<UploadFileRequest>)
    ensures
        bytes_written(messages.map_values(|m: UploadFileRequest| step_action(Some(m)))) == chunks_of(
            messages,
        ),
    decreases messages.len(),
{
    let acts = messages.map_values(|m: UploadFileRequest| step_action(Some(m)));
    if messages.len() > 0 {
        let d = messages.drop_last();
        law_upload_writes_chunks(d);
        assert(acts.drop_last() =~= d.map_values(|m: UploadFileRequest| step_action(Some(m))));
        assert(acts.last() == step_action(Some(messages.last())));
    } else {
        assert(acts =~= Seq::<UploadAction>::empty());
    }
}

} // verus!
