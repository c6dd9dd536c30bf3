pub mod basic_client;
pub mod cli;
pub mod consensus;
pub mod gossip;
pub mod json_rpc;
pub mod primitives;
pub mod random;
pub mod rpc_wrapper;
pub mod sampler;
pub mod stats;
pub mod tinydancer;
pub mod transaction_service;
pub mod ui;
pub mod ui_text;
pub mod wire;
pub mod wire_read;

