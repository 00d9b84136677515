//! A small HTTP file server, reduced to the decisions it takes: which rule a
//! request path falls under, what is answered, and in which order a fixed pool
//! of workers is handed its jobs. Sockets, files and threads belong to the
//! embedding program; everything here is a function of plain values.

pub mod config;
pub mod connection;
pub mod crew;
pub mod pattern;
pub mod pool;
pub mod request;
pub mod response;
pub mod route;
pub mod text;
pub mod worker;

pub use connection::{handle_connection, Step};
pub use pool::{Message, ThreadPool};
pub use request::parse_request_line;
pub use response::{render_result, serve_file, HttpResult};
pub use route::{match_route, ConfigError, Route, RouteAction, RouteTable};
pub use worker::Worker;
