//! The engine of a local development proxy. It sits in front of a target
//! development server, forwards client traffic to it, tags each client with
//! an identity kept in a cookie, lets the target report context for a
//! request out of band, and keeps a bounded, aging log of request and
//! response pairs for an operator to inspect.
//!
//! Everything here decides and computes on plain values; nothing here
//! touches a socket, a file or a terminal. A caller reads a request off the
//! wire, hands it over, acts on what it is handed back, and serialises
//! access to the stores.
//!
//! * [`identity`] recovers a client's identity from its cookie and mints
//!   new ones.
//! * [`headers`] and [`fields`] say which header fields pass the proxy and
//!   in what form.
//! * [`forward`] classifies a request, builds the request that goes out
//!   with its injected headers, and makes the answer for the client.
//! * [`context`] keeps the context fragments reported for each request.
//! * [`logs`] and [`retention`] keep the log of completed transactions
//!   under a count cap and a time to live.
//! * [`proxy`] ties these together behind the four routes of the proxy.
//! * [`app`], [`render`] and [`config`] serve the process around the
//!   engine: its health and notices, the texts of its status display, and
//!   its configuration.

pub mod app;
mod clock;
pub mod config;
pub mod context;
pub mod fields;
pub mod forward;
pub mod headers;
pub mod identity;
pub mod logs;
pub mod proxy;
pub mod render;
pub mod retention;
pub mod text;
