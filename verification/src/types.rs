//! The buffers that the codec sends and receives.
pub mod kvlines;
pub mod params;
pub mod telegram;
pub mod validators;

pub use kvlines::{KVLines, KeyValue};
pub use params::Params;
pub use telegram::Telegram;
pub use validators::{validate_param_key, validate_topic};
