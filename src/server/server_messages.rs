use vstd::prelude::*;

use crate::context::{EditorBufferContext, EditorContext};
use crate::editor_modes::EditorMode;

verus! {

/// A full state snapshot.
pub struct ContextMessage {
    pub editor: EditorContext,
}

/// A keystroke submitted by a client.
pub struct InputMessage {
    pub input: String,
    pub editor_mode: EditorMode,
}

/// A buffer state submitted by a client.
pub struct BufferMessage {
    pub request_id: String,
    pub buffer_name: String,
    pub buffer: EditorBufferContext,
}

/// The messages of the plugin protocol, tagged by `message_type` on the wire.
pub enum ServerMessages {
    Context(ContextMessage),
    Input(InputMessage),
    Buffer(BufferMessage),
}

} // verus!
