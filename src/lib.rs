//! A small concurrent request server: request framing, route dispatch,
//! response framing, and the bookkeeping of a fixed pool of workers.
pub mod method;
pub mod pool;
pub mod request;
pub mod response;
pub mod route;
pub mod server;
pub mod status;
pub mod text;

pub use method::Method;
pub use pool::{Message, PoolState, WorkerState};
pub use request::{Header, Request};
pub use response::render_response;
pub use route::Route;
pub use server::{Outcome, WebSrv};
pub use status::StatusCode;
