//! Host functions for guests that answer HTTP requests.
//!
//! A guest is a WebAssembly module that gets a client's request, may send requests of its
//! own to backends, and builds the response that goes back to the client. It does so
//! through functions that its host provides. This library is what those functions do: a
//! [`handler::Handler`] holds the state of one request/response cycle, and each function
//! takes the guest's memory and the arguments that the guest passed.
pub mod call;
pub mod events;
pub mod handler;
pub mod http;
pub mod imports;
pub mod laws;
pub mod linker;
pub mod memory;
pub mod message;
pub mod model;
pub mod order;
pub mod paging;
pub mod status;
pub mod trap;

pub use crate::handler::Handler;
