// Reconstruction of complete call stacks from kernel trace streams: user-mode
// and kernel-mode stack fragments arrive as separate records and are matched
// to their sampling event by timestamp and thread.

pub mod address;
pub mod correlator;
pub mod decode;
pub mod identity;
pub mod lemmas;
pub mod paths;
pub mod session;
pub mod timeline;
pub mod traits;

pub use paths::{big_fixtures_dir, fixtures_dir};
pub use traits::EncodeUtf16;
