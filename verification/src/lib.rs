//! Decoder for eCPRI / O-RAN fronthaul traffic carried in packet captures.
//!
//! The crate reads legacy PCAP containers, strips the Ethernet header,
//! decodes the eCPRI common header and the O-RAN control- and user-plane
//! sections, expands block-floating-point IQ samples and reassembles them
//! per radio symbol.  Every function carries a contract that is checked by
//! Verus; the few calls into `nom` sit behind small trusted wrappers in
//! [`cursor`].
//!
//! * [`cursor`]: byte- and bit-aligned readers.
//! * [`pcap`], [`capture`]: the capture container and its reader.
//! * [`protocols`]: Ethernet, BIP, eCPRI and the O-RAN sections.
//! * [`utility`]: IQ expansion, reassembly and draining.
//! * [`driver`]: the decisions of the ingestion loop.

pub mod capture;
pub mod cursor;
pub mod driver;
pub mod pcap;
pub mod protocols;
pub mod utility;
