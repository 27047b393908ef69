//! Positional (offset-addressed) byte I/O: capability traits for reading and
//! writing at explicit offsets, exact-transfer retry loops, an adapter for
//! cursor-based streams, and a lock-backed bridge that makes an exclusive
//! resource shareable.

mod bridge;
mod bufops;
mod errors;
mod model;
mod positional;
mod store;
mod stream;

pub use bridge::BridgeCore;
pub use bridge::BridgePred;
pub use bridge::DerefWrapper;
pub use bridge::ShareBridge;
pub use errors::IoError;
pub use model::StoreModel;
pub use model::full_read_len;
pub use model::lemma_write_effect_append;
pub use model::write_effect;
pub use positional::ExactStep;
pub use positional::ReadAt;
pub use positional::ReadAtMut;
pub use positional::ReadWriteAt;
pub use positional::ReadWriteAtMut;
pub use positional::WriteAt;
pub use positional::WriteAtMut;
pub use positional::decide_read_step;
pub use positional::decide_write_step;
pub use positional::lemma_interrupted_keeps_position;
pub use positional::read_step_decision;
pub use positional::write_step_decision;
pub use store::MemStore;
pub use stream::CursorStream;
pub use stream::MemStream;
pub use stream::ReadWriteSeek;
