//! A small error-reporting utility: a localizable message wrapper
//! ([`MessageResource`]) and a closed set of error categories ([`Error`])
//! that carry such messages, with exact display templates and a structured
//! text encoding that round-trips.

pub mod codec;
pub mod decimal;
pub mod error;
pub mod message;
pub mod text;

pub use error::Error;
pub use message::DescribableError;
pub use message::MessageResource;
