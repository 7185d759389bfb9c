//! A timestamp value type: a pair of seconds and nanoseconds since the Unix
//! epoch, with an ISO-8601 UTC rendering and two independent codecs (a
//! self-describing key-value codec and a positional binary codec).

pub mod calendar;
pub mod key_value;
pub mod positional;
pub mod timestamp;

pub use timestamp::Et;
pub use timestamp::EtError;
