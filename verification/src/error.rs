//! Error codes of the stack and their descriptions.

use vstd::prelude::*;
use vstd::string::StringExecFns;
use vstd::std_specs::convert::FromSpecImpl;

verus! {

/// No error.
pub const OT_ERROR_NONE: u32 = 0;

/// Insufficient buffers: an arena or a byte buffer is exhausted.
pub const OT_ERROR_NO_BUFS: u32 = 3;

/// Input arguments are invalid.
pub const OT_ERROR_INVALID_ARGS: u32 = 7;

/// The operation is not valid in the current state.
pub const OT_ERROR_INVALID_STATE: u32 = 13;

/// An error reported by the stack, carried as its numeric code.
#[derive(Debug, Copy, Clone, Eq, PartialEq, Hash, Structural)]
pub struct OtError(u32);

impl OtError {
    /// The numeric code of the error.
    pub closed spec fn code(self) -> u32 {
        self.0
    }

    /// Wraps a numeric code.
    pub fn new(value: u32) -> (e: Self)
        ensures
            e == error_of(value),
            e.code() == value,
    {
        OtError(value)
    }

    /// The numeric code of the error.
    #[verifier::when_used_as_spec(code)]
    pub fn into_inner(self) -> (value: u32)
        ensures
            value == self.code(),
    {
        self.0
    }
}

/// What a status code of the stack means as a result: `Ok` for
/// `OT_ERROR_NONE`, the code as an error otherwise.
pub open spec fn spec_ot(code: u32) -> Result<(), OtError> {
    if code == OT_ERROR_NONE {
        Ok(())
    } else {
        Err(error_of(code))
    }
}

/// The error that carries `code`.
pub closed spec fn error_of(code: u32) -> OtError {
    OtError(code)
}

/// An error is the error of its code, and `error_of(code)` is the one
/// error whose code is `code`.
pub proof fn error_of_code(e: OtError, code: u32)
    ensures
        error_of(code).code() == code,
        e == error_of(e.code()),
{
}

/// Turns a status code of the stack into a result.
pub fn ot(code: u32) -> (r: Result<(), OtError>)
    ensures
        r == spec_ot(code),
{
    if code == OT_ERROR_NONE {
        Ok(())
    } else {
        Err(OtError::new(code))
    }
}

/// The error codes of the stack by name.
#[derive(Debug, Clone, Copy, PartialEq, Eq, Structural)]
pub enum OtErrorCodes {
    /// No error.
    NoError,
    /// Operational failed.
    Failed,
    /// Message was dropped.
    Drop,
    /// Insufficient buffers.
    NoBufs,
    /// No route available.
    NoRoute,
    /// Service is busy and could not service the operation.
    Busy,
    /// Failed to parse message.
    Parse,
    /// Input arguments are invalid.
    InvalidArgs,
    /// Security checks failed.
    Security,
    /// Address resolution requires an address query operation.
    AddressQuery,
    /// Address is not in the source match table.
    NoAddress,
    /// Operation was aborted.
    Abort,
    /// Function or method is not implemented.
    NotImplemented,
    /// Cannot complete due to invalid state.
    InvalidState,
    /// No acknowledgment was received after the maximum number of frame retries.
    NoAck,
    /// A transmission could not take place due to activity on the channel.
    ChannelAccessFailure,
    /// Not currently attached to a Thread Partition.
    Detached,
    /// FCS check failure while receiving.
    Fcs,
    /// No frame received.
    NoFrameReceived,
    /// Received a frame from an unknown neighbor.
    UnknownNeighbor,
    /// Received a frame from an invalid source address.
    InvalidSourceAddress,
    /// Received a frame filtered by the address filter.
    AddressFiltered,
    /// Received a frame filtered by the destination address check.
    DestinationAddressFiltered,
    /// The requested item could not be found.
    NotFound,
    /// The operation is already in progress.
    Already,
    /// The creation of IPv6 address failed.
    Ip6AddressCreationFailure,
    /// Operation prevented by mode flags.
    NotCapable,
    /// Coap response or acknowledgment or DNS, SNTP response not received.
    ResponseTimeout,
    /// Received a duplicated frame.
    Duplicated,
    /// Message is being dropped from reassembly list due to timeout.
    ReassemblyTimeout,
    /// Message is not a TMF Message.
    NotTmf,
    /// Received a non-lowpan data frame.
    NotLowpanDataFrame,
    /// The link margin was too low.
    LinkMarginLow,
    /// Input (CLI) command is invalid.
    InvalidCommand,
    /// Special error code used to indicate success/error status is pending and not yet known.
    Pending,
    /// Request rejected.
    Rejected,
    /// The number of defined errors.
    NumErrors,
    /// Generic error (should not use).
    Generic,
}

impl OtErrorCodes {
    /// The named code that a numeric code stands for; a number without a
    /// name of its own stands for `Generic`.
    pub open spec fn of_code(code: u32) -> OtErrorCodes {
        if code == 0 {
            OtErrorCodes::NoError
        } else if code == 1 {
            OtErrorCodes::Failed
        } else if code == 2 {
            OtErrorCodes::Drop
        } else if code == 3 {
            OtErrorCodes::NoBufs
        } else if code == 4 {
            OtErrorCodes::NoRoute
        } else if code == 5 {
            OtErrorCodes::Busy
        } else if code == 6 {
            OtErrorCodes::Parse
        } else if code == 7 {
            OtErrorCodes::InvalidArgs
        } else if code == 8 {
            OtErrorCodes::Security
        } else if code == 9 {
            OtErrorCodes::AddressQuery
        } else if code == 10 {
            OtErrorCodes::NoAddress
        } else if code == 11 {
            OtErrorCodes::Abort
        } else if code == 12 {
            OtErrorCodes::NotImplemented
        } else if code == 13 {
            OtErrorCodes::InvalidState
        } else if code == 14 {
            OtErrorCodes::NoAck
        } else if code == 15 {
            OtErrorCodes::ChannelAccessFailure
        } else if code == 16 {
            OtErrorCodes::Detached
        } else if code == 17 {
            OtErrorCodes::Fcs
        } else if code == 18 {
            OtErrorCodes::NoFrameReceived
        } else if code == 19 {
            OtErrorCodes::UnknownNeighbor
        } else if code == 20 {
            OtErrorCodes::InvalidSourceAddress
        } else if code == 21 {
            OtErrorCodes::AddressFiltered
        } else if code == 22 {
            OtErrorCodes::DestinationAddressFiltered
        } else if code == 23 {
            OtErrorCodes::NotFound
        } else if code == 24 {
            OtErrorCodes::Already
        } else if code == 26 {
            OtErrorCodes::Ip6AddressCreationFailure
        } else if code == 27 {
            OtErrorCodes::NotCapable
        } else if code == 28 {
            OtErrorCodes::ResponseTimeout
        } else if code == 29 {
            OtErrorCodes::Duplicated
        } else if code == 30 {
            OtErrorCodes::ReassemblyTimeout
        } else if code == 31 {
            OtErrorCodes::NotTmf
        } else if code == 32 {
            OtErrorCodes::NotLowpanDataFrame
        } else if code == 34 {
            OtErrorCodes::LinkMarginLow
        } else if code == 35 {
            OtErrorCodes::InvalidCommand
        } else if code == 36 {
            OtErrorCodes::Pending
        } else if code == 37 {
            OtErrorCodes::Rejected
        } else {
            OtErrorCodes::Generic
        }
    }

    /// The number of a named code.
    pub open spec fn spec_code(self) -> u32 {
        match self {
            OtErrorCodes::NoError => 0,
            OtErrorCodes::Failed => 1,
            OtErrorCodes::Drop => 2,
            OtErrorCodes::NoBufs => 3,
            OtErrorCodes::NoRoute => 4,
            OtErrorCodes::Busy => 5,
            OtErrorCodes::Parse => 6,
            OtErrorCodes::InvalidArgs => 7,
            OtErrorCodes::Security => 8,
            OtErrorCodes::AddressQuery => 9,
            OtErrorCodes::NoAddress => 10,
            OtErrorCodes::Abort => 11,
            OtErrorCodes::NotImplemented => 12,
            OtErrorCodes::InvalidState => 13,
            OtErrorCodes::NoAck => 14,
            OtErrorCodes::ChannelAccessFailure => 15,
            OtErrorCodes::Detached => 16,
            OtErrorCodes::Fcs => 17,
            OtErrorCodes::NoFrameReceived => 18,
            OtErrorCodes::UnknownNeighbor => 19,
            OtErrorCodes::InvalidSourceAddress => 20,
            OtErrorCodes::AddressFiltered => 21,
            OtErrorCodes::DestinationAddressFiltered => 22,
            OtErrorCodes::NotFound => 23,
            OtErrorCodes::Already => 24,
            OtErrorCodes::Ip6AddressCreationFailure => 26,
            OtErrorCodes::NotCapable => 27,
            OtErrorCodes::ResponseTimeout => 28,
            OtErrorCodes::Duplicated => 29,
            OtErrorCodes::ReassemblyTimeout => 30,
            OtErrorCodes::NotTmf => 31,
            OtErrorCodes::NotLowpanDataFrame => 32,
            OtErrorCodes::LinkMarginLow => 34,
            OtErrorCodes::InvalidCommand => 35,
            OtErrorCodes::Pending => 36,
            OtErrorCodes::Rejected => 37,
            OtErrorCodes::NumErrors => 38,
            OtErrorCodes::Generic => 255,
        }
    }

    /// The number of a named code.
    #[verifier::when_used_as_spec(spec_code)]
    pub fn code(self) -> (code: u32)
        ensures
            code == self.spec_code(),
    {
        match self {
            OtErrorCodes::NoError => 0,
            OtErrorCodes::Failed => 1,
            OtErrorCodes::Drop => 2,
            OtErrorCodes::NoBufs => 3,
            OtErrorCodes::NoRoute => 4,
            OtErrorCodes::Busy => 5,
            OtErrorCodes::Parse => 6,
            OtErrorCodes::InvalidArgs => 7,
            OtErrorCodes::Security => 8,
            OtErrorCodes::AddressQuery => 9,
            OtErrorCodes::NoAddress => 10,
            OtErrorCodes::Abort => 11,
            OtErrorCodes::NotImplemented => 12,
            OtErrorCodes::InvalidState => 13,
            OtErrorCodes::NoAck => 14,
            OtErrorCodes::ChannelAccessFailure => 15,
            OtErrorCodes::Detached => 16,
            OtErrorCodes::Fcs => 17,
            OtErrorCodes::NoFrameReceived => 18,
            OtErrorCodes::UnknownNeighbor => 19,
            OtErrorCodes::InvalidSourceAddress => 20,
            OtErrorCodes::AddressFiltered => 21,
            OtErrorCodes::DestinationAddressFiltered => 22,
            OtErrorCodes::NotFound => 23,
            OtErrorCodes::Already => 24,
            OtErrorCodes::Ip6AddressCreationFailure => 26,
            OtErrorCodes::NotCapable => 27,
            OtErrorCodes::ResponseTimeout => 28,
            OtErrorCodes::Duplicated => 29,
            OtErrorCodes::ReassemblyTimeout => 30,
            OtErrorCodes::NotTmf => 31,
            OtErrorCodes::NotLowpanDataFrame => 32,
            OtErrorCodes::LinkMarginLow => 34,
            OtErrorCodes::InvalidCommand => 35,
            OtErrorCodes::Pending => 36,
            OtErrorCodes::Rejected => 37,
            OtErrorCodes::NumErrors => 38,
            OtErrorCodes::Generic => 255,
        }
    }

    /// The short name of a code.
    pub open spec fn spec_name(self) -> Seq<char> {
        match self {
            OtErrorCodes::NoError => "None"@,
            OtErrorCodes::Failed => "Failed"@,
            OtErrorCodes::Drop => "Drop"@,
            OtErrorCodes::NoBufs => "NoBufs"@,
            OtErrorCodes::NoRoute => "NoRoute"@,
            OtErrorCodes::Busy => "Busy"@,
            OtErrorCodes::Parse => "Parse"@,
            OtErrorCodes::InvalidArgs => "InvalidArgs"@,
            OtErrorCodes::Security => "Security"@,
            OtErrorCodes::AddressQuery => "AddressQuery"@,
            OtErrorCodes::NoAddress => "NoAddress"@,
            OtErrorCodes::Abort => "Abort"@,
            OtErrorCodes::NotImplemented => "NotImplemented"@,
            OtErrorCodes::InvalidState => "InvalidState"@,
            OtErrorCodes::NoAck => "NoAck"@,
            OtErrorCodes::ChannelAccessFailure => "ChannelAccessFailure"@,
            OtErrorCodes::Detached => "Detached"@,
            OtErrorCodes::Fcs => "Fcs"@,
            OtErrorCodes::NoFrameReceived => "NoFrameReceived"@,
            OtErrorCodes::UnknownNeighbor => "UnknownNeighbor"@,
            OtErrorCodes::InvalidSourceAddress => "InvalidSourceAddress"@,
            OtErrorCodes::AddressFiltered => "AddressFiltered"@,
            OtErrorCodes::DestinationAddressFiltered => "DestinationAddressFiltered"@,
            OtErrorCodes::NotFound => "NotFound"@,
            OtErrorCodes::Already => "Already"@,
            OtErrorCodes::Ip6AddressCreationFailure => "Ip6AddressCreationFailure"@,
            OtErrorCodes::NotCapable => "NotCapable"@,
            OtErrorCodes::ResponseTimeout => "ResponseTimeout"@,
            OtErrorCodes::Duplicated => "Duplicated"@,
            OtErrorCodes::ReassemblyTimeout => "ReassemblyTimeout"@,
            OtErrorCodes::NotTmf => "NotTmf"@,
            OtErrorCodes::NotLowpanDataFrame => "NotLowpanDataFrame"@,
            OtErrorCodes::LinkMarginLow => "LinkMarginLow"@,
            OtErrorCodes::InvalidCommand => "InvalidCommand"@,
            OtErrorCodes::Pending => "Pending"@,
            OtErrorCodes::Rejected => "Rejected"@,
            OtErrorCodes::Generic => "Generic"@,
            OtErrorCodes::NumErrors => "NumErrors"@,
        }
    }

    /// The short name of a code.
    pub fn name(self) -> (name: &'static str)
        ensures
            name@ == self.spec_name(),
    {
        match self {
            OtErrorCodes::NoError => "None",
            OtErrorCodes::Failed => "Failed",
            OtErrorCodes::Drop => "Drop",
            OtErrorCodes::NoBufs => "NoBufs",
            OtErrorCodes::NoRoute => "NoRoute",
            OtErrorCodes::Busy => "Busy",
            OtErrorCodes::Parse => "Parse",
            OtErrorCodes::InvalidArgs => "InvalidArgs",
            OtErrorCodes::Security => "Security",
            OtErrorCodes::AddressQuery => "AddressQuery",
            OtErrorCodes::NoAddress => "NoAddress",
            OtErrorCodes::Abort => "Abort",
            OtErrorCodes::NotImplemented => "NotImplemented",
            OtErrorCodes::InvalidState => "InvalidState",
            OtErrorCodes::NoAck => "NoAck",
            OtErrorCodes::ChannelAccessFailure => "ChannelAccessFailure",
            OtErrorCodes::Detached => "Detached",
            OtErrorCodes::Fcs => "Fcs",
            OtErrorCodes::NoFrameReceived => "NoFrameReceived",
            OtErrorCodes::UnknownNeighbor => "UnknownNeighbor",
            OtErrorCodes::InvalidSourceAddress => "InvalidSourceAddress",
            OtErrorCodes::AddressFiltered => "AddressFiltered",
            OtErrorCodes::DestinationAddressFiltered => "DestinationAddressFiltered",
            OtErrorCodes::NotFound => "NotFound",
            OtErrorCodes::Already => "Already",
            OtErrorCodes::Ip6AddressCreationFailure => "Ip6AddressCreationFailure",
            OtErrorCodes::NotCapable => "NotCapable",
            OtErrorCodes::ResponseTimeout => "ResponseTimeout",
            OtErrorCodes::Duplicated => "Duplicated",
            OtErrorCodes::ReassemblyTimeout => "ReassemblyTimeout",
            OtErrorCodes::NotTmf => "NotTmf",
            OtErrorCodes::NotLowpanDataFrame => "NotLowpanDataFrame",
            OtErrorCodes::LinkMarginLow => "LinkMarginLow",
            OtErrorCodes::InvalidCommand => "InvalidCommand",
            OtErrorCodes::Pending => "Pending",
            OtErrorCodes::Rejected => "Rejected",
            OtErrorCodes::Generic => "Generic",
            OtErrorCodes::NumErrors => "NumErrors",
        }
    }

    /// One sentence on what a code means.
    pub open spec fn spec_description(self) -> Seq<char> {
        match self {
            OtErrorCodes::NoError => "No error."@,
            OtErrorCodes::Failed => "Operational failed."@,
            OtErrorCodes::Drop => "Message was dropped."@,
            OtErrorCodes::NoBufs => "Insufficient buffers."@,
            OtErrorCodes::NoRoute => "No route available."@,
            OtErrorCodes::Busy => "Service is busy and could not service the operation."@,
            OtErrorCodes::Parse => "Failed to parse message."@,
            OtErrorCodes::InvalidArgs => "Input arguments are invalid."@,
            OtErrorCodes::Security => "Security checks failed."@,
            OtErrorCodes::AddressQuery => "Address resolution requires an address query operation."@,
            OtErrorCodes::NoAddress => "Address is not in the source match table."@,
            OtErrorCodes::Abort => "Operation was aborted."@,
            OtErrorCodes::NotImplemented => "Function or method is not implemented."@,
            OtErrorCodes::InvalidState => "Cannot complete due to invalid state."@,
            OtErrorCodes::NoAck => "No acknowledgment was received after macMaxFrameRetries."@,
            OtErrorCodes::ChannelAccessFailure => "CSMA-CA mechanism has failed."@,
            OtErrorCodes::Detached => "Not currently attached to a Thread Partition."@,
            OtErrorCodes::Fcs => "FCS check failure while receiving."@,
            OtErrorCodes::NoFrameReceived => "No frame received."@,
            OtErrorCodes::UnknownNeighbor => "Received a frame from an unknown neighbor."@,
            OtErrorCodes::InvalidSourceAddress => "Received a frame from an invalid source address."@,
            OtErrorCodes::AddressFiltered => "Received a frame filtered by the address filter."@,
            OtErrorCodes::DestinationAddressFiltered => "Received a frame filtered by the destination address check."@,
            OtErrorCodes::NotFound => "The requested item could not be found."@,
            OtErrorCodes::Already => "The operation is already in progress."@,
            OtErrorCodes::Ip6AddressCreationFailure => "The creation of IPv6 address failed."@,
            OtErrorCodes::NotCapable => "Operation prevented by mode flags."@,
            OtErrorCodes::ResponseTimeout => "Response or acknowledgment not received."@,
            OtErrorCodes::Duplicated => "Received a duplicated frame."@,
            OtErrorCodes::ReassemblyTimeout => "Message dropped from reassembly list due to timeout."@,
            OtErrorCodes::NotTmf => "Message is not a TMF Message."@,
            OtErrorCodes::NotLowpanDataFrame => "Received a non-lowpan data frame."@,
            OtErrorCodes::LinkMarginLow => "The link margin was too low."@,
            OtErrorCodes::InvalidCommand => "Input (CLI) command is invalid."@,
            OtErrorCodes::Pending => "Success/error status is pending and not yet known."@,
            OtErrorCodes::Rejected => "Request rejected."@,
            OtErrorCodes::Generic => "Generic error (should not use)."@,
            OtErrorCodes::NumErrors => "The number of defined errors."@,
        }
    }

    /// One sentence on what a code means.
    pub fn description(self) -> (description: &'static str)
        ensures
            description@ == self.spec_description(),
    {
        match self {
            OtErrorCodes::NoError => "No error.",
            OtErrorCodes::Failed => "Operational failed.",
            OtErrorCodes::Drop => "Message was dropped.",
            OtErrorCodes::NoBufs => "Insufficient buffers.",
            OtErrorCodes::NoRoute => "No route available.",
            OtErrorCodes::Busy => "Service is busy and could not service the operation.",
            OtErrorCodes::Parse => "Failed to parse message.",
            OtErrorCodes::InvalidArgs => "Input arguments are invalid.",
            OtErrorCodes::Security => "Security checks failed.",
            OtErrorCodes::AddressQuery => "Address resolution requires an address query operation.",
            OtErrorCodes::NoAddress => "Address is not in the source match table.",
            OtErrorCodes::Abort => "Operation was aborted.",
            OtErrorCodes::NotImplemented => "Function or method is not implemented.",
            OtErrorCodes::InvalidState => "Cannot complete due to invalid state.",
            OtErrorCodes::NoAck => "No acknowledgment was received after macMaxFrameRetries.",
            OtErrorCodes::ChannelAccessFailure => "CSMA-CA mechanism has failed.",
            OtErrorCodes::Detached => "Not currently attached to a Thread Partition.",
            OtErrorCodes::Fcs => "FCS check failure while receiving.",
            OtErrorCodes::NoFrameReceived => "No frame received.",
            OtErrorCodes::UnknownNeighbor => "Received a frame from an unknown neighbor.",
            OtErrorCodes::InvalidSourceAddress => "Received a frame from an invalid source address.",
            OtErrorCodes::AddressFiltered => "Received a frame filtered by the address filter.",
            OtErrorCodes::DestinationAddressFiltered => "Received a frame filtered by the destination address check.",
            OtErrorCodes::NotFound => "The requested item could not be found.",
            OtErrorCodes::Already => "The operation is already in progress.",
            OtErrorCodes::Ip6AddressCreationFailure => "The creation of IPv6 address failed.",
            OtErrorCodes::NotCapable => "Operation prevented by mode flags.",
            OtErrorCodes::ResponseTimeout => "Response or acknowledgment not received.",
            OtErrorCodes::Duplicated => "Received a duplicated frame.",
            OtErrorCodes::ReassemblyTimeout => "Message dropped from reassembly list due to timeout.",
            OtErrorCodes::NotTmf => "Message is not a TMF Message.",
            OtErrorCodes::NotLowpanDataFrame => "Received a non-lowpan data frame.",
            OtErrorCodes::LinkMarginLow => "The link margin was too low.",
            OtErrorCodes::InvalidCommand => "Input (CLI) command is invalid.",
            OtErrorCodes::Pending => "Success/error status is pending and not yet known.",
            OtErrorCodes::Rejected => "Request rejected.",
            OtErrorCodes::Generic => "Generic error (should not use).",
            OtErrorCodes::NumErrors => "The number of defined errors.",
        }
    }

    /// The text of a code: its name, then its description in parentheses.
    pub open spec fn spec_to_string(self) -> Seq<char> {
        self.spec_name() + " ("@ + self.spec_description() + ")"@
    }

    /// The text of a code: its name, then its description in parentheses.
    pub fn to_string(&self) -> (text: String)
        ensures
            text@ == self.spec_to_string(),
    {
        let mut text = String::from_str(self.name());
        text.append(" (");
        text.append(self.description());
        text.append(")");
        text
    }

    /// A number that has a name of its own is the number of the code it
    /// stands for; and the code that a named code's number stands for is
    /// that code.
    pub proof fn of_code_inverts_code(self)
        ensures
            Self::of_code(self.spec_code()) == (if self == OtErrorCodes::NumErrors {
                OtErrorCodes::Generic
            } else {
                self
            }),
    {
    }
}

impl From<OtError> for OtErrorCodes {
    fn from(value: OtError) -> (code: Self) {
        match value.into_inner() {
            0 => OtErrorCodes::NoError,
            1 => OtErrorCodes::Failed,
            2 => OtErrorCodes::Drop,
            3 => OtErrorCodes::NoBufs,
            4 => OtErrorCodes::NoRoute,
            5 => OtErrorCodes::Busy,
            6 => OtErrorCodes::Parse,
            7 => OtErrorCodes::InvalidArgs,
            8 => OtErrorCodes::Security,
            9 => OtErrorCodes::AddressQuery,
            10 => OtErrorCodes::NoAddress,
            11 => OtErrorCodes::Abort,
            12 => OtErrorCodes::NotImplemented,
            13 => OtErrorCodes::InvalidState,
            14 => OtErrorCodes::NoAck,
            15 => OtErrorCodes::ChannelAccessFailure,
            16 => OtErrorCodes::Detached,
            17 => OtErrorCodes::Fcs,
            18 => OtErrorCodes::NoFrameReceived,
            19 => OtErrorCodes::UnknownNeighbor,
            20 => OtErrorCodes::InvalidSourceAddress,
            21 => OtErrorCodes::AddressFiltered,
            22 => OtErrorCodes::DestinationAddressFiltered,
            23 => OtErrorCodes::NotFound,
            24 => OtErrorCodes::Already,
            26 => OtErrorCodes::Ip6AddressCreationFailure,
            27 => OtErrorCodes::NotCapable,
            28 => OtErrorCodes::ResponseTimeout,
            29 => OtErrorCodes::Duplicated,
            30 => OtErrorCodes::ReassemblyTimeout,
            31 => OtErrorCodes::NotTmf,
            32 => OtErrorCodes::NotLowpanDataFrame,
            34 => OtErrorCodes::LinkMarginLow,
            35 => OtErrorCodes::InvalidCommand,
            36 => OtErrorCodes::Pending,
            37 => OtErrorCodes::Rejected,
            255 => OtErrorCodes::Generic,
            _ => OtErrorCodes::Generic,
        }
    }
}

impl FromSpecImpl<OtError> for OtErrorCodes {
    open spec fn obeys_from_spec() -> bool {
        true
    }

    open spec fn from_spec(value: OtError) -> Self {
        OtErrorCodes::of_code(value.code())
    }
}

} // verus!
