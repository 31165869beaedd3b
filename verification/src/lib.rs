//! A minimal host-side bridge exposing two filesystem commands to a
//! front-end caller: reading a file's contents as UTF-8 text, and checking
//! whether a path exists.
//!
//! The blocking filesystem calls themselves, and the transport that carries
//! a command across the process boundary, are external collaborators. The
//! library holds everything that can be reasoned about: the typed error
//! taxonomy, the UTF-8 decoding of the bytes a read produced, and the
//! mapping from an observed filesystem outcome to the command's reply.

pub mod commands;
pub mod error;
pub mod text;
