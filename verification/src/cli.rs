//! The command-line tool's logic: the theme and tables it prints with, the
//! `doctor` checklist, the port warning, the child's environment and exit
//! code, the `watch` and `advertise` decisions, and the text of `status`.
//! Parsing arguments, probing sockets and talking to the terminal are the
//! program's business.

pub mod advertise;
pub mod args;
pub mod commands;
pub mod doctor;
pub mod exit;
pub mod port;
pub mod qr;
pub mod render;
pub mod routes;
pub mod spawn;
pub mod url;
pub mod watch;
