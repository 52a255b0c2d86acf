pub use crate::handler::{Action, HandlerResult};
pub use crate::header;
pub use crate::route::{route, Route};
pub use crate::server::Server;
pub use crate::{Request, StatusCode};
