//! Passive link-layer monitoring primitives: canonical hardware-address text,
//! address extraction from decoded frames, a duplicate-free host registry, the
//! capture state machine, and Ethernet+ARP frame construction.

pub mod address;
pub mod arp;
pub mod capture;
pub mod frame;
pub mod link;
pub mod registry;
pub mod report;
pub mod text;
