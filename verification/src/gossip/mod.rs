pub mod contact_info;
pub mod crds;
pub mod incomplete_slots;
pub mod node;
pub mod node_shreds;
pub mod ping_pong;
pub mod protocol;
pub mod version;
