//! A minimal HTTP GET client core: request building, header encoding and the
//! handle life cycle of a session-based native transport, with every rule
//! stated as a contract and proved.

pub mod error;
pub mod header;
pub mod iso_8859_1;
pub mod native;
pub mod plan;
pub mod request;
pub mod target;
pub mod text;

pub use error::Error;
pub use native::Response;
pub use request::Request;
pub use request::AGENT;
