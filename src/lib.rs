//! Connection admission and session identity for a websocket server:
//! identity tickets carried in a cookie, a registry of live connections
//! keyed by ticket, a parser for inbound action frames, and the per-socket
//! session logic that ties them together.
pub mod ticket;
pub mod cookie;
pub mod registry;
pub mod envelope;
pub mod session;

pub use cookie::{attach_ticket, cookie_name, extract_ticket, find_cookie};
pub use envelope::{Envelope, Frame, Rejection};
pub use registry::{Admission, Connection, Player, Registry};
pub use session::{admit_request, admit_resolved, AuthorizesTicket, DumbTicketStamper, Session, SessionState};
pub use ticket::Ticket;
