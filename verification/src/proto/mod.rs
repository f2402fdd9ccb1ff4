//! The wire protocol: frames, messages and their bytes.
pub mod constants;
pub mod error;
pub mod frame;
pub mod fields;
pub mod definition;
pub mod body;
pub mod codec;
pub mod messages;
pub mod parts;
pub mod push;
pub mod records;
pub mod repeats;
pub mod travel;
pub mod shapes;
pub mod defined;
pub mod pushed;
pub mod framing;
