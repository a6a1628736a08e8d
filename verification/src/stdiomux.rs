//! A multiplexer that carries many byte channels over one pair of pipes.
pub mod adm;
pub mod channel;
pub mod frame;
pub mod mux;
pub mod rpc;
