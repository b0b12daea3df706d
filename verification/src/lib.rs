//! Wrap arbitrary commands as Windows services: the command-line surface,
//! the supervision policy, the argument builder for service registration,
//! and the host state machine that bridges Service Control Manager events
//! to a managed child process.

pub mod cli;
pub mod control;
pub mod numbers;
pub mod quoting;
pub mod roundtrip;
pub mod service;
pub mod text;
