use vstd::prelude::*;

pub mod body;
pub mod handler;
pub mod header;
pub mod method;
pub mod prelude;
pub mod request;
pub mod route;
pub mod server;
pub mod status_code;

pub use method::Method;
pub use request::Request;
pub use route::Route;
pub use status_code::StatusCode;
