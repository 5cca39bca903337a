//! The ways in which an operation of this library fails.

use vstd::prelude::*;

verus! {

/// What is wrong with a piece of text that should have named something.
#[derive(Debug, Clone, Copy, PartialEq, Eq, Structural)]
pub enum ParseError {
    /// A port range with more than one `-`.
    PortRangeFormat,
    /// A port that is no number between 0 and 65535.
    PortNumber,
    /// A port range whose lower end is above its upper end.
    PortRangeOrder,
    /// An address that does not have four fields between dots, or text with
    /// more than one `/`.
    AddressFormat,
    /// An address field that is no number between 0 and 255.
    AddressOctet,
    /// A prefix length that is no number between 0 and 32.
    PrefixLength,
    /// A word that names no protocol.
    Protocol,
    /// A word that names no action.
    Action,
    /// A word that names no TCP flag.
    TcpFlag,
    /// A word that names no attach mode.
    Mode,
    /// An interface name of the form `if<number>` whose number cannot be read.
    Interface,
}

/// Why an operation failed.
#[derive(Debug, Clone, Copy, PartialEq, Eq, Structural)]
pub enum GuardError {
    /// Some text could not be read.
    Parse(ParseError),
    /// A rule breaks one of the invariants of rules.
    InvalidRule,
    /// A live rule already has the label.
    DuplicateLabel,
    /// No live rule has the label.
    NotFound,
    /// A write to a kernel map failed; what was written before it was taken back.
    MapWriteFailed,
    /// A read from a kernel map failed.
    MapReadFailed,
    /// The classifier could not be attached.
    AttachError,
    /// The classifier could not be detached.
    DetachError,
    /// A sandbox module could not be compiled or instantiated.
    WasmLoadError,
    /// A sandbox module lacks its memory or its entry point.
    WasmMissingExport,
    /// A sandbox module failed while it inspected a packet.
    WasmInvokeError,
    /// A request was not framed as the wire protocol asks.
    ProtocolError,
}

} // verus!
