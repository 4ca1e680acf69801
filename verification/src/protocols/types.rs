//! Failure kinds shared by the protocol decoders.

use vstd::prelude::*;

verus! {

/// Why a decoder gave up on its input.
#[derive(Clone, Copy, Debug, PartialEq, Eq, Structural)]
pub enum ErrorKind {
    /// A byte-aligned read asked for more bytes than the input holds.
    NotEnoughBytes,
    /// A bit-aligned read asked for more bits than the input holds.
    NotEnoughBits,
    /// The eCPRI marker `0xAEFE` is missing.
    NotEcpri,
    /// The eCPRI message type is neither IQ data nor real-time control.
    UnsupportedMessageType,
    /// The control-plane section type is not 0, 1 or 3.
    UnsupportedSectionType,
    /// The filter index is neither "no filter" nor "NR PRACH".
    UnsupportedFilterIndex,
    /// The BIP EtherType is missing.
    NotBip,
}

} // verus!
