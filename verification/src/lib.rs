//! The core of a mailbox query client: it formats search criteria, decodes
//! MIME messages into a flat structure, and decides what a query asks of
//! the mail server and when a search is tried again.
//!
//! - `query`: criteria and the search string they are sent as.
//! - `mime`: the decoder, from raw bytes to a `Message`; `message`,
//!   `headers` and `encoding` hold what it builds.
//! - `search`: the controller of a query, which does no I/O itself;
//!   `runs` holds what is proved of the course of a query.
//! - `error`: the failures of a query.
//! - `time` and `args`: the deadline, the criteria and the password as
//!   the command line names them; `span` tells which text the parser of
//!   spans cannot be asked about.

pub mod args;
pub mod encoding;
pub mod error;
pub mod headers;
pub mod message;
pub mod mime;
pub mod query;
pub mod runs;
pub mod search;
pub mod span;
pub mod text;
pub mod time;

pub use crate::error::Error;
pub use crate::message::{Message, Part};
pub use crate::query::Client;
pub use crate::time::Time;
