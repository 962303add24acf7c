//! Capture of terminal applications: the input that is typed into them, the
//! screens that they show, the sessions that keep them running, and the
//! recordings that replay them.

pub mod capture;
pub mod frame;
pub mod host;
pub mod input;
pub mod launch;
pub mod recording;
pub mod replay;
pub mod scan;
pub mod server;
pub mod session;
pub mod terminal;
pub mod text;
pub mod width;
