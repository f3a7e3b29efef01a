//! Core logic of a small HTTP-client workbench: the data model for saved
//! endpoints and their recorded responses, a pure reducer that maps incoming
//! events to state changes and follow-up commands, an in-memory relational
//! store mirroring the on-disk schema, request assembly (query strings and
//! header selection), and response formatting (MIME sniffing plus
//! pretty-printing).
//!
//! Everything here is verified; the surrounding process (window toolkit,
//! network transport, database file) lives outside this crate and talks to it
//! through plain values.

pub mod format;
pub mod list;
pub mod model;
pub mod reducer;
pub mod request;
pub mod store;
pub mod text;
pub mod ui;

pub use model::Command;
pub use model::EndpointDb;
pub use model::EndpointKvPair;
pub use model::HttpMethod;
pub use model::MHeader;
pub use model::MQueryParam;
pub use model::Message;
pub use model::MyErr;
pub use model::Request;
pub use model::Response;
pub use model::State;
