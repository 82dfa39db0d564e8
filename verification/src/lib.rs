//! Lomor model provider support: the decisions that bring a local `lomord`
//! inference server up, and the client side of its Unix-socket protocol.
//!
//! - [`readiness`]: the health URL, what counts as a passed health probe, and
//!   the order in which the `lomord` binary is searched for.
//! - [`startup`]: the start-up sequence (probe, locate, start, poll) as a
//!   state machine whose actions a caller performs.
//! - [`uds`]: the socket path of a client, and how the events of a request
//!   and a health reply are read.
//! - [`sse`]: the event types named in a server-sent-events body.
//! - [`text`]: decimal rendering and path joining.

pub mod readiness;
pub mod sse;
pub mod startup;
pub mod text;
pub mod uds;
