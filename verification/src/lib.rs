//! A remote trigger for pulling a repository.
//!
//! A client sends two lines, `GET / HTTP/1.1` and a command line such as
//! `command: git-pull`, and gets a status line and a short body back. This
//! crate holds everything about that exchange that is not input or output:
//!
//! - `request` collects the lines of a request and decides the answer;
//! - `command` reads the command line and carries the command out on the
//!   server's `state`;
//! - `response` renders the answer as it goes over the wire;
//! - `tokens`, `text` and `decimal` are the text handling underneath.
//!
//! The server around it reads lines into a `RequestReader`, hands them to
//! `handle_request`, runs the pull where the returned `Step` asks for one and
//! passes its outcome to `pull_response`, and writes `Response::to_wire`.

pub mod command;
pub mod decimal;
pub mod request;
pub mod response;
pub mod state;
pub mod text;
pub mod tokens;
