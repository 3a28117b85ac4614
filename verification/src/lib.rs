//! A small command-line interpreter core: the grammar of a command line, the
//! expansion of its words, the resolution of redirections and the wiring of
//! a pipeline's standard streams.

pub mod text;
pub mod syntax;
pub mod environment;
pub mod expand;
pub mod redirect;
pub mod command;
pub mod pipeline;
pub mod launch;
