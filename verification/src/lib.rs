pub mod firewall;
pub mod persist;
pub mod packet;
pub mod rule;
