//! Bookkeeping for SSH local-port-forwarding tunnels: the stored tunnel
//! definitions, the validation of what a user types for one, the registry of
//! live forwarding processes with its liveness sweep, and the decisions that
//! tie them together.
pub mod port;
pub mod definition;
pub mod registry;
pub mod form;
pub mod manager;
pub mod laws;
pub mod search;
