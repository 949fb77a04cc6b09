//! A small HTTP framework core: the request context handed to handlers,
//! responses, the route table, query-string decoding, request binding and
//! the rendering of validation reports.

pub mod assoc;
pub mod binding;
pub mod context;
pub mod decode;
pub mod extract;
pub mod handler;
pub mod json;
pub mod method;
pub mod order;
pub mod query;
pub mod report;
pub mod response;
pub mod server;
pub mod text;

pub use context::{Context, FromRequest, StatusResponder};
pub use handler::{AsyncMarker, SyncMarker};
pub use method::Method;
pub use report::ReportExt;
pub use response::{Response, StatusCode};
pub use server::Server;
