//! A sandbox backend on the Tensorlake platform.
//!
//! A request names whom a sandbox belongs to and what it is made of. The
//! [`backend`] turns it into the first step towards a running sandbox, the
//! [`lifecycle`] says what every answer of the platform calls for, and the
//! [`handle`] of the sandbox says where its commands go and when one is tried
//! again. A command is run to its end by [`run`] or bridged to its caller by
//! [`process`]; both read their output as an event stream with [`sse`].
//!
//! Nothing here waits or talks to the network. Each step names the request to
//! send, and the answer comes back as an argument.
pub mod acquire_laws;
pub mod api;
pub mod backend;
pub mod backend_laws;
pub mod bridge_laws;
pub mod command_laws;
pub mod error;
pub mod error_laws;
pub mod handle;
pub mod handle_laws;
pub mod http;
pub mod lifecycle;
pub mod lifecycle_laws;
pub mod naming;
pub mod naming_laws;
pub mod path;
pub mod process;
pub mod process_laws;
pub mod reader_laws;
pub mod run;
pub mod sandbox;
pub mod sse;
pub mod sse_laws;
pub mod text;
pub mod text_laws;
