//! A user-space, per-application IPv4 address-translation engine.
//!
//! The library holds the verified core of the engine: classifying a raw
//! packet by the address pair it carries, rewriting IP and TCP headers with
//! freshly computed one's-complement checksums, assigning work to a fixed
//! pool of workers so that packets of one application stay in order, and the
//! start/stop bookkeeping around the read loop.  Reading from and writing to
//! the virtual interface, firewall rule execution, configuration files and
//! signals are left to the surrounding program.

pub mod checksum;
pub mod packet;
pub mod table;
pub mod rewrite;
pub mod threadpool;
pub mod engine;
pub mod lifecycle;
