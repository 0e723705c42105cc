use vstd::prelude::*;

verus! {

/// PLC family.
#[derive(Debug, Clone, Copy, PartialEq, Eq, Structural)]
pub enum PlcType {
    S200,
    S200Smart,
    S300,
    S400,
    S1200,
    S1500,
    Sinumerik828D,
}

impl PlcType {
    /// The rack and slot that a PLC of this family usually has.
    pub open spec fn spec_default_rack_slot(&self) -> (u8, u8) {
        match *self {
            PlcType::S300 | PlcType::Sinumerik828D => (0, 2),
            PlcType::S400 => (0, 3),
            _ => (0, 1),
        }
    }

    #[verifier::when_used_as_spec(spec_default_rack_slot)]
    pub fn default_rack_slot(&self) -> (r: (u8, u8))
        ensures
            r == self.spec_default_rack_slot(),
    {
        match self {
            Self::S200 => (0, 1),
            Self::S200Smart => (0, 1),
            Self::S300 => (0, 2),
            Self::S400 => (0, 3),
            Self::S1200 => (0, 1),
            Self::S1500 => (0, 1),
            Self::Sinumerik828D => (0, 2),
        }
    }

    /// Protocol type: ISOTCP243 (1) for the 200 family, ISOTCP (2) otherwise.
    pub fn protocol_type(&self) -> (r: u16)
        ensures
            r == (if *self == PlcType::S200 || *self == PlcType::S200Smart { 1u16 } else { 2u16 }),
    {
        match self {
            Self::S200 | Self::S200Smart => 0x01,
            _ => 0x02,
        }
    }

    /// Default PDU size.
    pub fn default_pdu_size(&self) -> (r: u16)
        ensures
            r == (match *self {
                PlcType::S200 => 240u16,
                PlcType::S400 | PlcType::S1500 => 1140u16,
                _ => 480u16,
            }),
    {
        match self {
            Self::S200 => 240,
            Self::S200Smart => 480,
            Self::S300 => 480,
            Self::S400 => 1140,
            Self::S1200 => 480,
            Self::S1500 => 1140,
            Self::Sinumerik828D => 480,
        }
    }
}


/// Order code and version of a PLC.
#[derive(Debug, Clone, PartialEq, Eq)]
pub struct OrderCode {
    pub code: String,
    pub v1: u8,
    pub v2: u8,
    pub v3: u8,
}

/// Identification of the CPU module.
#[derive(Debug, Clone, PartialEq, Eq)]
pub struct CpuInfo {
    pub module_type: String,
    pub serial_number: String,
    pub as_name: String,
    pub copyright: String,
    pub module_name: String,
}

/// Communication limits of the CPU.
#[derive(Debug, Clone, Copy, PartialEq, Eq, Structural)]
pub struct CommunicationInfo {
    pub max_pdu_len: u32,
    pub max_connections: u32,
    pub max_mpi_rate: u32,
    pub max_bus_rate: u32,
}

/// Operating mode of the PLC.
#[derive(Debug, Clone, Copy, PartialEq, Eq, Structural)]
pub enum PlcStatus {
    Unknown,
    Run,
    Stop,
}

/// COTP PDU type (CR/CC/DR/DC/DT...).
#[derive(Debug, Clone, Copy, PartialEq, Eq, Structural)]
pub enum PduType {
    ConnectRequest,
    ConnectConfirm,
    DisconnectRequest,
    DisconnectConfirm,
    Reject,
    DtData,
}

impl PduType {
    /// The byte that stands for this value on the wire.
    pub open spec fn spec_code(self) -> u8 {
        match self {
            PduType::ConnectRequest => 0xE0,
            PduType::ConnectConfirm => 0xD0,
            PduType::DisconnectRequest => 0x80,
            PduType::DisconnectConfirm => 0xC0,
            PduType::Reject => 0x50,
            PduType::DtData => 0xF0,
        }
    }

    #[verifier::when_used_as_spec(spec_code)]
    pub fn code(self) -> (r: u8)
        ensures
            r == self.spec_code(),
    {
        match self {
            PduType::ConnectRequest => 0xE0,
            PduType::ConnectConfirm => 0xD0,
            PduType::DisconnectRequest => 0x80,
            PduType::DisconnectConfirm => 0xC0,
            PduType::Reject => 0x50,
            PduType::DtData => 0xF0,
        }
    }

    /// The value whose code is `code`, if there is one.
    pub open spec fn decode(code: u8) -> Option<Self> {
        if exists|t: Self| t.code() == code {
            Some(choose|t: Self| t.code() == code)
        } else {
            None
        }
    }

    pub fn from(code: u8) -> (r: Option<Self>)
        ensures
            r == Self::decode(code),
            r matches Some(t) ==> t.code() == code,
            r is None <==> forall|t: Self| t.code() != code,
    {
        let r = match code {
            0xE0 => Some(PduType::ConnectRequest),
            0xD0 => Some(PduType::ConnectConfirm),
            0x80 => Some(PduType::DisconnectRequest),
            0xC0 => Some(PduType::DisconnectConfirm),
            0x50 => Some(PduType::Reject),
            0xF0 => Some(PduType::DtData),
            _ => None,
        };
        proof {
            if let Some(t) = r {
                assert(t.code() == code);
                let c = choose|u: Self| u.code() == code;
                assert(c == t);
            }
        }
        r
    }

    /// Decoding the code of a value gives the value back: codes are distinct.
    pub proof fn lemma_decode_code(t: Self)
        ensures
            Self::decode(t.code()) == Some(t),
    {
        let c = choose|u: Self| u.code() == t.code();
        assert(c == t);
    }
}

impl TryFrom<u8> for PduType {
    type Error = ();

    fn try_from(value: u8) -> (r: Result<Self, Self::Error>) {
        match PduType::from(value) {
            Some(t) => Ok(t),
            None => Err(()),
        }
    }
}

impl vstd::std_specs::convert::TryFromSpecImpl<u8> for PduType {
    open spec fn obeys_try_from_spec() -> bool {
        true
    }

    open spec fn try_from_spec(v: u8) -> Result<Self, ()> {
        match PduType::decode(v) {
            Some(t) => Ok(t),
            None => Err(()),
        }
    }
}

/// S7 memory area.
#[derive(Debug, Clone, Copy, PartialEq, Eq, Structural)]
pub enum S7Area {
    SystemInfoOf200Family,
    SystemFlagsOf200Family,
    AnalogInputsOf200Family,
    AnalogOutputsOf200Family,
    DirectPeripheralAccess,
    Inputs,
    Outputs,
    Flags,
    DataBlocks,
    InstanceDataBlocks,
    LocalData,
    UnknownYet,
    S7Counters,
    S7Timers,
    IecCounters,
    IecTimers,
}

impl S7Area {
    /// The byte that stands for this value on the wire.
    pub open spec fn spec_code(self) -> u8 {
        match self {
            S7Area::SystemInfoOf200Family => 0x03,
            S7Area::SystemFlagsOf200Family => 0x05,
            S7Area::AnalogInputsOf200Family => 0x06,
            S7Area::AnalogOutputsOf200Family => 0x07,
            S7Area::DirectPeripheralAccess => 0x80,
            S7Area::Inputs => 0x81,
            S7Area::Outputs => 0x82,
            S7Area::Flags => 0x83,
            S7Area::DataBlocks => 0x84,
            S7Area::InstanceDataBlocks => 0x85,
            S7Area::LocalData => 0x86,
            S7Area::UnknownYet => 0x87,
            S7Area::S7Counters => 0x1C,
            S7Area::S7Timers => 0x1D,
            S7Area::IecCounters => 0x1E,
            S7Area::IecTimers => 0x1F,
        }
    }

    #[verifier::when_used_as_spec(spec_code)]
    pub fn code(self) -> (r: u8)
        ensures
            r == self.spec_code(),
    {
        match self {
            S7Area::SystemInfoOf200Family => 0x03,
            S7Area::SystemFlagsOf200Family => 0x05,
            S7Area::AnalogInputsOf200Family => 0x06,
            S7Area::AnalogOutputsOf200Family => 0x07,
            S7Area::DirectPeripheralAccess => 0x80,
            S7Area::Inputs => 0x81,
            S7Area::Outputs => 0x82,
            S7Area::Flags => 0x83,
            S7Area::DataBlocks => 0x84,
            S7Area::InstanceDataBlocks => 0x85,
            S7Area::LocalData => 0x86,
            S7Area::UnknownYet => 0x87,
            S7Area::S7Counters => 0x1C,
            S7Area::S7Timers => 0x1D,
            S7Area::IecCounters => 0x1E,
            S7Area::IecTimers => 0x1F,
        }
    }

    /// The value whose code is `code`, if there is one.
    pub open spec fn decode(code: u8) -> Option<Self> {
        if exists|t: Self| t.code() == code {
            Some(choose|t: Self| t.code() == code)
        } else {
            None
        }
    }

    pub fn from(code: u8) -> (r: Option<Self>)
        ensures
            r == Self::decode(code),
            r matches Some(t) ==> t.code() == code,
            r is None <==> forall|t: Self| t.code() != code,
    {
        let r = match code {
            0x03 => Some(S7Area::SystemInfoOf200Family),
            0x05 => Some(S7Area::SystemFlagsOf200Family),
            0x06 => Some(S7Area::AnalogInputsOf200Family),
            0x07 => Some(S7Area::AnalogOutputsOf200Family),
            0x80 => Some(S7Area::DirectPeripheralAccess),
            0x81 => Some(S7Area::Inputs),
            0x82 => Some(S7Area::Outputs),
            0x83 => Some(S7Area::Flags),
            0x84 => Some(S7Area::DataBlocks),
            0x85 => Some(S7Area::InstanceDataBlocks),
            0x86 => Some(S7Area::LocalData),
            0x87 => Some(S7Area::UnknownYet),
            0x1C => Some(S7Area::S7Counters),
            0x1D => Some(S7Area::S7Timers),
            0x1E => Some(S7Area::IecCounters),
            0x1F => Some(S7Area::IecTimers),
            _ => None,
        };
        proof {
            if let Some(t) = r {
                assert(t.code() == code);
                let c = choose|u: Self| u.code() == code;
                assert(c == t);
            }
        }
        r
    }

    /// Decoding the code of a value gives the value back: codes are distinct.
    pub proof fn lemma_decode_code(t: Self)
        ensures
            Self::decode(t.code()) == Some(t),
    {
        let c = choose|u: Self| u.code() == t.code();
        assert(c == t);
    }

    /// Mnemonic of the area.
    pub open spec fn spec_abbr(self) -> Seq<char> {
        match self {
            S7Area::SystemInfoOf200Family => ""@,
            S7Area::SystemFlagsOf200Family => "SM"@,
            S7Area::AnalogInputsOf200Family => "AI"@,
            S7Area::AnalogOutputsOf200Family => "AQ"@,
            S7Area::DirectPeripheralAccess => "PI/PQ"@,
            S7Area::Inputs => "I"@,
            S7Area::Outputs => "Q"@,
            S7Area::Flags => "M"@,
            S7Area::DataBlocks => "DB"@,
            S7Area::InstanceDataBlocks => "DI"@,
            S7Area::LocalData => "L"@,
            S7Area::UnknownYet => "V"@,
            S7Area::S7Counters => "C"@,
            S7Area::S7Timers => "T"@,
            S7Area::IecCounters => ""@,
            S7Area::IecTimers => ""@,
        }
    }

    pub fn abbr(&self) -> (r: &'static str)
        ensures
            r@ == self.spec_abbr(),
    {
        match self {
            S7Area::SystemInfoOf200Family => "",
            S7Area::SystemFlagsOf200Family => "SM",
            S7Area::AnalogInputsOf200Family => "AI",
            S7Area::AnalogOutputsOf200Family => "AQ",
            S7Area::DirectPeripheralAccess => "PI/PQ",
            S7Area::Inputs => "I",
            S7Area::Outputs => "Q",
            S7Area::Flags => "M",
            S7Area::DataBlocks => "DB",
            S7Area::InstanceDataBlocks => "DI",
            S7Area::LocalData => "L",
            S7Area::UnknownYet => "V",
            S7Area::S7Counters => "C",
            S7Area::S7Timers => "T",
            S7Area::IecCounters => "",
            S7Area::IecTimers => "",
        }
    }

    /// The area that the first letter of an address names.
    pub open spec fn spec_from_first_char(c: char) -> Option<S7Area> {
        if c == 'I' {
            Some(S7Area::Inputs)
        } else if c == 'Q' {
            Some(S7Area::Outputs)
        } else if c == 'M' {
            Some(S7Area::Flags)
        } else if c == 'D' || c == 'V' {
            Some(S7Area::DataBlocks)
        } else if c == 'T' {
            Some(S7Area::S7Timers)
        } else if c == 'C' {
            Some(S7Area::S7Counters)
        } else {
            None
        }
    }

    pub(crate) fn from_first_char(c: char) -> (r: Option<S7Area>)
        ensures
            r == Self::spec_from_first_char(c),
    {
        match c {
            'I' => Some(S7Area::Inputs),
            'Q' => Some(S7Area::Outputs),
            'M' => Some(S7Area::Flags),
            'D' | 'V' => Some(S7Area::DataBlocks),
            'T' => Some(S7Area::S7Timers),
            'C' => Some(S7Area::S7Counters),
            _ => None,
        }
    }
}

impl TryFrom<u8> for S7Area {
    type Error = ();

    fn try_from(value: u8) -> (r: Result<Self, Self::Error>) {
        match S7Area::from(value) {
            Some(t) => Ok(t),
            None => Err(()),
        }
    }
}

impl vstd::std_specs::convert::TryFromSpecImpl<u8> for S7Area {
    open spec fn obeys_try_from_spec() -> bool {
        true
    }

    open spec fn try_from_spec(v: u8) -> Result<Self, ()> {
        match S7Area::decode(v) {
            Some(t) => Ok(t),
            None => Err(()),
        }
    }
}

/// Variable type of a data item (transport size of the data part).
#[derive(Debug, Clone, Copy, PartialEq, Eq, Structural)]
pub enum S7DataVariableType {
    Null,
    Bit,
    ByteWordDword,
    Integer,
    DInteger,
    Real,
    OctetString,
}

impl S7DataVariableType {
    /// The byte that stands for this value on the wire.
    pub open spec fn spec_code(self) -> u8 {
        match self {
            S7DataVariableType::Null => 0x00,
            S7DataVariableType::Bit => 0x03,
            S7DataVariableType::ByteWordDword => 0x04,
            S7DataVariableType::Integer => 0x05,
            S7DataVariableType::DInteger => 0x06,
            S7DataVariableType::Real => 0x07,
            S7DataVariableType::OctetString => 0x09,
        }
    }

    #[verifier::when_used_as_spec(spec_code)]
    pub fn code(self) -> (r: u8)
        ensures
            r == self.spec_code(),
    {
        match self {
            S7DataVariableType::Null => 0x00,
            S7DataVariableType::Bit => 0x03,
            S7DataVariableType::ByteWordDword => 0x04,
            S7DataVariableType::Integer => 0x05,
            S7DataVariableType::DInteger => 0x06,
            S7DataVariableType::Real => 0x07,
            S7DataVariableType::OctetString => 0x09,
        }
    }

    /// The value whose code is `code`, if there is one.
    pub open spec fn decode(code: u8) -> Option<Self> {
        if exists|t: Self| t.code() == code {
            Some(choose|t: Self| t.code() == code)
        } else {
            None
        }
    }

    pub fn from(code: u8) -> (r: Option<Self>)
        ensures
            r == Self::decode(code),
            r matches Some(t) ==> t.code() == code,
            r is None <==> forall|t: Self| t.code() != code,
    {
        let r = match code {
            0x00 => Some(S7DataVariableType::Null),
            0x03 => Some(S7DataVariableType::Bit),
            0x04 => Some(S7DataVariableType::ByteWordDword),
            0x05 => Some(S7DataVariableType::Integer),
            0x06 => Some(S7DataVariableType::DInteger),
            0x07 => Some(S7DataVariableType::Real),
            0x09 => Some(S7DataVariableType::OctetString),
            _ => None,
        };
        proof {
            if let Some(t) = r {
                assert(t.code() == code);
                let c = choose|u: Self| u.code() == code;
                assert(c == t);
            }
        }
        r
    }

    /// Decoding the code of a value gives the value back: codes are distinct.
    pub proof fn lemma_decode_code(t: Self)
        ensures
            Self::decode(t.code()) == Some(t),
    {
        let c = choose|u: Self| u.code() == t.code();
        assert(c == t);
    }
}

impl TryFrom<u8> for S7DataVariableType {
    type Error = ();

    fn try_from(value: u8) -> (r: Result<Self, Self::Error>) {
        match S7DataVariableType::from(value) {
            Some(t) => Ok(t),
            None => Err(()),
        }
    }
}

impl vstd::std_specs::convert::TryFromSpecImpl<u8> for S7DataVariableType {
    open spec fn obeys_try_from_spec() -> bool {
        true
    }

    open spec fn try_from_spec(v: u8) -> Result<Self, ()> {
        match S7DataVariableType::decode(v) {
            Some(t) => Ok(t),
            None => Err(()),
        }
    }
}

/// Error class of an acknowledgement header.
#[derive(Debug, Clone, Copy, PartialEq, Eq, Structural)]
pub enum S7ErrorClass {
    NoError,
    ApplicationRelationship,
    ObjectDefinition,
    NoResourcesAvailable,
    ErrorOnServiceProcessing,
    ErrorOnSupplies,
    AccessError,
    DownloadError,
}

impl S7ErrorClass {
    /// The byte that stands for this value on the wire.
    pub open spec fn spec_code(self) -> u8 {
        match self {
            S7ErrorClass::NoError => 0x00,
            S7ErrorClass::ApplicationRelationship => 0x81,
            S7ErrorClass::ObjectDefinition => 0x82,
            S7ErrorClass::NoResourcesAvailable => 0x83,
            S7ErrorClass::ErrorOnServiceProcessing => 0x84,
            S7ErrorClass::ErrorOnSupplies => 0x85,
            S7ErrorClass::AccessError => 0x87,
            S7ErrorClass::DownloadError => 0xD2,
        }
    }

    #[verifier::when_used_as_spec(spec_code)]
    pub fn code(self) -> (r: u8)
        ensures
            r == self.spec_code(),
    {
        match self {
            S7ErrorClass::NoError => 0x00,
            S7ErrorClass::ApplicationRelationship => 0x81,
            S7ErrorClass::ObjectDefinition => 0x82,
            S7ErrorClass::NoResourcesAvailable => 0x83,
            S7ErrorClass::ErrorOnServiceProcessing => 0x84,
            S7ErrorClass::ErrorOnSupplies => 0x85,
            S7ErrorClass::AccessError => 0x87,
            S7ErrorClass::DownloadError => 0xD2,
        }
    }

    /// The value whose code is `code`, if there is one.
    pub open spec fn decode(code: u8) -> Option<Self> {
        if exists|t: Self| t.code() == code {
            Some(choose|t: Self| t.code() == code)
        } else {
            None
        }
    }

    pub fn from(code: u8) -> (r: Option<Self>)
        ensures
            r == Self::decode(code),
            r matches Some(t) ==> t.code() == code,
            r is None <==> forall|t: Self| t.code() != code,
    {
        let r = match code {
            0x00 => Some(S7ErrorClass::NoError),
            0x81 => Some(S7ErrorClass::ApplicationRelationship),
            0x82 => Some(S7ErrorClass::ObjectDefinition),
            0x83 => Some(S7ErrorClass::NoResourcesAvailable),
            0x84 => Some(S7ErrorClass::ErrorOnServiceProcessing),
            0x85 => Some(S7ErrorClass::ErrorOnSupplies),
            0x87 => Some(S7ErrorClass::AccessError),
            0xD2 => Some(S7ErrorClass::DownloadError),
            _ => None,
        };
        proof {
            if let Some(t) = r {
                assert(t.code() == code);
                let c = choose|u: Self| u.code() == code;
                assert(c == t);
            }
        }
        r
    }

    /// Decoding the code of a value gives the value back: codes are distinct.
    pub proof fn lemma_decode_code(t: Self)
        ensures
            Self::decode(t.code()) == Some(t),
    {
        let c = choose|u: Self| u.code() == t.code();
        assert(c == t);
    }

    /// Text that describes this value.
    pub open spec fn spec_description(self) -> Seq<char> {
        match self {
            S7ErrorClass::NoError => "no error"@,
            S7ErrorClass::ApplicationRelationship => "application relationship"@,
            S7ErrorClass::ObjectDefinition => "object definition"@,
            S7ErrorClass::NoResourcesAvailable => "no resources available"@,
            S7ErrorClass::ErrorOnServiceProcessing => "error on service processing"@,
            S7ErrorClass::ErrorOnSupplies => "error on supplies"@,
            S7ErrorClass::AccessError => "access error"@,
            S7ErrorClass::DownloadError => "download error"@,
        }
    }

    pub fn description(self) -> (r: &'static str)
        ensures
            r@ == self.spec_description(),
    {
        match self {
            S7ErrorClass::NoError => "no error",
            S7ErrorClass::ApplicationRelationship => "application relationship",
            S7ErrorClass::ObjectDefinition => "object definition",
            S7ErrorClass::NoResourcesAvailable => "no resources available",
            S7ErrorClass::ErrorOnServiceProcessing => "error on service processing",
            S7ErrorClass::ErrorOnSupplies => "error on supplies",
            S7ErrorClass::AccessError => "access error",
            S7ErrorClass::DownloadError => "download error",
        }
    }
}

impl TryFrom<u8> for S7ErrorClass {
    type Error = ();

    fn try_from(value: u8) -> (r: Result<Self, Self::Error>) {
        match S7ErrorClass::from(value) {
            Some(t) => Ok(t),
            None => Err(()),
        }
    }
}

impl vstd::std_specs::convert::TryFromSpecImpl<u8> for S7ErrorClass {
    open spec fn obeys_try_from_spec() -> bool {
        true
    }

    open spec fn try_from_spec(v: u8) -> Result<Self, ()> {
        match S7ErrorClass::decode(v) {
            Some(t) => Ok(t),
            None => Err(()),
        }
    }
}

/// S7 function code.
#[derive(Debug, Clone, Copy, PartialEq, Eq, Structural)]
pub enum S7FunctionCode {
    CpuServices,
    ReadVariable,
    WriteVariable,
    StartDownload,
    Download,
    EndDownload,
    StartUpload,
    Upload,
    EndUpload,
    PlcControl,
    PlcStop,
    SetupCommunication,
}

impl S7FunctionCode {
    /// The byte that stands for this value on the wire.
    pub open spec fn spec_code(self) -> u8 {
        match self {
            S7FunctionCode::CpuServices => 0x00,
            S7FunctionCode::ReadVariable => 0x04,
            S7FunctionCode::WriteVariable => 0x05,
            S7FunctionCode::StartDownload => 0xFA,
            S7FunctionCode::Download => 0xFB,
            S7FunctionCode::EndDownload => 0xFC,
            S7FunctionCode::StartUpload => 0x1D,
            S7FunctionCode::Upload => 0x1E,
            S7FunctionCode::EndUpload => 0x1F,
            S7FunctionCode::PlcControl => 0x28,
            S7FunctionCode::PlcStop => 0x29,
            S7FunctionCode::SetupCommunication => 0xF0,
        }
    }

    #[verifier::when_used_as_spec(spec_code)]
    pub fn code(self) -> (r: u8)
        ensures
            r == self.spec_code(),
    {
        match self {
            S7FunctionCode::CpuServices => 0x00,
            S7FunctionCode::ReadVariable => 0x04,
            S7FunctionCode::WriteVariable => 0x05,
            S7FunctionCode::StartDownload => 0xFA,
            S7FunctionCode::Download => 0xFB,
            S7FunctionCode::EndDownload => 0xFC,
            S7FunctionCode::StartUpload => 0x1D,
            S7FunctionCode::Upload => 0x1E,
            S7FunctionCode::EndUpload => 0x1F,
            S7FunctionCode::PlcControl => 0x28,
            S7FunctionCode::PlcStop => 0x29,
            S7FunctionCode::SetupCommunication => 0xF0,
        }
    }

    /// The value whose code is `code`, if there is one.
    pub open spec fn decode(code: u8) -> Option<Self> {
        if exists|t: Self| t.code() == code {
            Some(choose|t: Self| t.code() == code)
        } else {
            None
        }
    }

    pub fn from(code: u8) -> (r: Option<Self>)
        ensures
            r == Self::decode(code),
            r matches Some(t) ==> t.code() == code,
            r is None <==> forall|t: Self| t.code() != code,
    {
        let r = match code {
            0x00 => Some(S7FunctionCode::CpuServices),
            0x04 => Some(S7FunctionCode::ReadVariable),
            0x05 => Some(S7FunctionCode::WriteVariable),
            0xFA => Some(S7FunctionCode::StartDownload),
            0xFB => Some(S7FunctionCode::Download),
            0xFC => Some(S7FunctionCode::EndDownload),
            0x1D => Some(S7FunctionCode::StartUpload),
            0x1E => Some(S7FunctionCode::Upload),
            0x1F => Some(S7FunctionCode::EndUpload),
            0x28 => Some(S7FunctionCode::PlcControl),
            0x29 => Some(S7FunctionCode::PlcStop),
            0xF0 => Some(S7FunctionCode::SetupCommunication),
            _ => None,
        };
        proof {
            if let Some(t) = r {
                assert(t.code() == code);
                let c = choose|u: Self| u.code() == code;
                assert(c == t);
            }
        }
        r
    }

    /// Decoding the code of a value gives the value back: codes are distinct.
    pub proof fn lemma_decode_code(t: Self)
        ensures
            Self::decode(t.code()) == Some(t),
    {
        let c = choose|u: Self| u.code() == t.code();
        assert(c == t);
    }
}

/// S7 message (ROSCTR) type.
#[derive(Debug, Clone, Copy, PartialEq, Eq, Structural)]
pub enum S7MessageType {
    Job,
    Ack,
    AckData,
    UserData,
}

impl S7MessageType {
    /// The byte that stands for this value on the wire.
    pub open spec fn spec_code(self) -> u8 {
        match self {
            S7MessageType::Job => 0x01,
            S7MessageType::Ack => 0x02,
            S7MessageType::AckData => 0x03,
            S7MessageType::UserData => 0x07,
        }
    }

    #[verifier::when_used_as_spec(spec_code)]
    pub fn code(self) -> (r: u8)
        ensures
            r == self.spec_code(),
    {
        match self {
            S7MessageType::Job => 0x01,
            S7MessageType::Ack => 0x02,
            S7MessageType::AckData => 0x03,
            S7MessageType::UserData => 0x07,
        }
    }

    /// The value whose code is `code`, if there is one.
    pub open spec fn decode(code: u8) -> Option<Self> {
        if exists|t: Self| t.code() == code {
            Some(choose|t: Self| t.code() == code)
        } else {
            None
        }
    }

    pub fn from(code: u8) -> (r: Option<Self>)
        ensures
            r == Self::decode(code),
            r matches Some(t) ==> t.code() == code,
            r is None <==> forall|t: Self| t.code() != code,
    {
        let r = match code {
            0x01 => Some(S7MessageType::Job),
            0x02 => Some(S7MessageType::Ack),
            0x03 => Some(S7MessageType::AckData),
            0x07 => Some(S7MessageType::UserData),
            _ => None,
        };
        proof {
            if let Some(t) = r {
                assert(t.code() == code);
                let c = choose|u: Self| u.code() == code;
                assert(c == t);
            }
        }
        r
    }

    /// Decoding the code of a value gives the value back: codes are distinct.
    pub proof fn lemma_decode_code(t: Self)
        ensures
            Self::decode(t.code()) == Some(t),
    {
        let c = choose|u: Self| u.code() == t.code();
        assert(c == t);
    }
}

/// Transport size of a request item.
#[derive(Debug, Clone, Copy, PartialEq, Eq, Structural)]
pub enum S7ParamVariableType {
    Bit,
    Byte,
    Char,
    Word,
    Int,
    Dword,
    Dint,
    Real,
    Date,
    Tod,
    Time,
    S5Time,
    DateAndTime,
    Counter,
    Timer,
    IecTimer,
    IecCounter,
    HsCounter,
}

impl S7ParamVariableType {
    /// The byte that stands for this value on the wire.
    pub open spec fn spec_code(self) -> u8 {
        match self {
            S7ParamVariableType::Bit => 0x01,
            S7ParamVariableType::Byte => 0x02,
            S7ParamVariableType::Char => 0x03,
            S7ParamVariableType::Word => 0x04,
            S7ParamVariableType::Int => 0x05,
            S7ParamVariableType::Dword => 0x06,
            S7ParamVariableType::Dint => 0x07,
            S7ParamVariableType::Real => 0x08,
            S7ParamVariableType::Date => 0x09,
            S7ParamVariableType::Tod => 0x0A,
            S7ParamVariableType::Time => 0x0B,
            S7ParamVariableType::S5Time => 0x0C,
            S7ParamVariableType::DateAndTime => 0x0F,
            S7ParamVariableType::Counter => 0x1C,
            S7ParamVariableType::Timer => 0x1D,
            S7ParamVariableType::IecTimer => 0x1E,
            S7ParamVariableType::IecCounter => 0x1F,
            S7ParamVariableType::HsCounter => 0x20,
        }
    }

    #[verifier::when_used_as_spec(spec_code)]
    pub fn code(self) -> (r: u8)
        ensures
            r == self.spec_code(),
    {
        match self {
            S7ParamVariableType::Bit => 0x01,
            S7ParamVariableType::Byte => 0x02,
            S7ParamVariableType::Char => 0x03,
            S7ParamVariableType::Word => 0x04,
            S7ParamVariableType::Int => 0x05,
            S7ParamVariableType::Dword => 0x06,
            S7ParamVariableType::Dint => 0x07,
            S7ParamVariableType::Real => 0x08,
            S7ParamVariableType::Date => 0x09,
            S7ParamVariableType::Tod => 0x0A,
            S7ParamVariableType::Time => 0x0B,
            S7ParamVariableType::S5Time => 0x0C,
            S7ParamVariableType::DateAndTime => 0x0F,
            S7ParamVariableType::Counter => 0x1C,
            S7ParamVariableType::Timer => 0x1D,
            S7ParamVariableType::IecTimer => 0x1E,
            S7ParamVariableType::IecCounter => 0x1F,
            S7ParamVariableType::HsCounter => 0x20,
        }
    }

    /// The value whose code is `code`, if there is one.
    pub open spec fn decode(code: u8) -> Option<Self> {
        if exists|t: Self| t.code() == code {
            Some(choose|t: Self| t.code() == code)
        } else {
            None
        }
    }

    pub fn from(code: u8) -> (r: Option<Self>)
        ensures
            r == Self::decode(code),
            r matches Some(t) ==> t.code() == code,
            r is None <==> forall|t: Self| t.code() != code,
    {
        let r = match code {
            0x01 => Some(S7ParamVariableType::Bit),
            0x02 => Some(S7ParamVariableType::Byte),
            0x03 => Some(S7ParamVariableType::Char),
            0x04 => Some(S7ParamVariableType::Word),
            0x05 => Some(S7ParamVariableType::Int),
            0x06 => Some(S7ParamVariableType::Dword),
            0x07 => Some(S7ParamVariableType::Dint),
            0x08 => Some(S7ParamVariableType::Real),
            0x09 => Some(S7ParamVariableType::Date),
            0x0A => Some(S7ParamVariableType::Tod),
            0x0B => Some(S7ParamVariableType::Time),
            0x0C => Some(S7ParamVariableType::S5Time),
            0x0F => Some(S7ParamVariableType::DateAndTime),
            0x1C => Some(S7ParamVariableType::Counter),
            0x1D => Some(S7ParamVariableType::Timer),
            0x1E => Some(S7ParamVariableType::IecTimer),
            0x1F => Some(S7ParamVariableType::IecCounter),
            0x20 => Some(S7ParamVariableType::HsCounter),
            _ => None,
        };
        proof {
            if let Some(t) = r {
                assert(t.code() == code);
                let c = choose|u: Self| u.code() == code;
                assert(c == t);
            }
        }
        r
    }

    /// Decoding the code of a value gives the value back: codes are distinct.
    pub proof fn lemma_decode_code(t: Self)
        ensures
            Self::decode(t.code()) == Some(t),
    {
        let c = choose|u: Self| u.code() == t.code();
        assert(c == t);
    }
}

/// Return code of a data or return item.
#[derive(Debug, Clone, Copy, PartialEq, Eq, Structural)]
pub enum S7ReturnCode {
    Reserved,
    HardwareError,
    AccessingTheObjectNotAllowed,
    InvalidAddress,
    DataTypeNotSupported,
    DataTypeInconsistent,
    ObjectDoesNotExist,
    Success,
}

impl S7ReturnCode {
    /// The byte that stands for this value on the wire.
    pub open spec fn spec_code(self) -> u8 {
        match self {
            S7ReturnCode::Reserved => 0x00,
            S7ReturnCode::HardwareError => 0x01,
            S7ReturnCode::AccessingTheObjectNotAllowed => 0x03,
            S7ReturnCode::InvalidAddress => 0x05,
            S7ReturnCode::DataTypeNotSupported => 0x06,
            S7ReturnCode::DataTypeInconsistent => 0x07,
            S7ReturnCode::ObjectDoesNotExist => 0x0A,
            S7ReturnCode::Success => 0xFF,
        }
    }

    #[verifier::when_used_as_spec(spec_code)]
    pub fn code(self) -> (r: u8)
        ensures
            r == self.spec_code(),
    {
        match self {
            S7ReturnCode::Reserved => 0x00,
            S7ReturnCode::HardwareError => 0x01,
            S7ReturnCode::AccessingTheObjectNotAllowed => 0x03,
            S7ReturnCode::InvalidAddress => 0x05,
            S7ReturnCode::DataTypeNotSupported => 0x06,
            S7ReturnCode::DataTypeInconsistent => 0x07,
            S7ReturnCode::ObjectDoesNotExist => 0x0A,
            S7ReturnCode::Success => 0xFF,
        }
    }

    /// The value whose code is `code`, if there is one.
    pub open spec fn decode(code: u8) -> Option<Self> {
        if exists|t: Self| t.code() == code {
            Some(choose|t: Self| t.code() == code)
        } else {
            None
        }
    }

    pub fn from(code: u8) -> (r: Option<Self>)
        ensures
            r == Self::decode(code),
            r matches Some(t) ==> t.code() == code,
            r is None <==> forall|t: Self| t.code() != code,
    {
        let r = match code {
            0x00 => Some(S7ReturnCode::Reserved),
            0x01 => Some(S7ReturnCode::HardwareError),
            0x03 => Some(S7ReturnCode::AccessingTheObjectNotAllowed),
            0x05 => Some(S7ReturnCode::InvalidAddress),
            0x06 => Some(S7ReturnCode::DataTypeNotSupported),
            0x07 => Some(S7ReturnCode::DataTypeInconsistent),
            0x0A => Some(S7ReturnCode::ObjectDoesNotExist),
            0xFF => Some(S7ReturnCode::Success),
            _ => None,
        };
        proof {
            if let Some(t) = r {
                assert(t.code() == code);
                let c = choose|u: Self| u.code() == code;
                assert(c == t);
            }
        }
        r
    }

    /// Decoding the code of a value gives the value back: codes are distinct.
    pub proof fn lemma_decode_code(t: Self)
        ensures
            Self::decode(t.code()) == Some(t),
    {
        let c = choose|u: Self| u.code() == t.code();
        assert(c == t);
    }

    /// Text that describes this value.
    pub open spec fn spec_description(self) -> Seq<char> {
        match self {
            S7ReturnCode::Reserved => "reserved"@,
            S7ReturnCode::HardwareError => "hardware error"@,
            S7ReturnCode::AccessingTheObjectNotAllowed => "accessing the object not allowed"@,
            S7ReturnCode::InvalidAddress => "invalid address"@,
            S7ReturnCode::DataTypeNotSupported => "data type not supported"@,
            S7ReturnCode::DataTypeInconsistent => "data type inconsistent"@,
            S7ReturnCode::ObjectDoesNotExist => "object does not exist"@,
            S7ReturnCode::Success => "success"@,
        }
    }

    pub fn description(self) -> (r: &'static str)
        ensures
            r@ == self.spec_description(),
    {
        match self {
            S7ReturnCode::Reserved => "reserved",
            S7ReturnCode::HardwareError => "hardware error",
            S7ReturnCode::AccessingTheObjectNotAllowed => "accessing the object not allowed",
            S7ReturnCode::InvalidAddress => "invalid address",
            S7ReturnCode::DataTypeNotSupported => "data type not supported",
            S7ReturnCode::DataTypeInconsistent => "data type inconsistent",
            S7ReturnCode::ObjectDoesNotExist => "object does not exist",
            S7ReturnCode::Success => "success",
        }
    }
}

/// Addressing mode and item structure format.
#[derive(Debug, Clone, Copy, PartialEq, Eq, Structural)]
pub enum SyntaxID {
    S7Any,
    ParameterShort,
    PbcRId,
    AlarmLockfree,
    AlarmInd,
    AlarmAck,
    AlarmQueryreq,
    NotifyInd,
    DriveEsAny,
    S1200Sym,
    DbRead,
    Nck,
}

impl SyntaxID {
    /// The byte that stands for this value on the wire.
    pub open spec fn spec_code(self) -> u8 {
        match self {
            SyntaxID::S7Any => 0x10,
            SyntaxID::ParameterShort => 0x11,
            SyntaxID::PbcRId => 0x13,
            SyntaxID::AlarmLockfree => 0x15,
            SyntaxID::AlarmInd => 0x16,
            SyntaxID::AlarmAck => 0x19,
            SyntaxID::AlarmQueryreq => 0x1A,
            SyntaxID::NotifyInd => 0x1C,
            SyntaxID::DriveEsAny => 0xA2,
            SyntaxID::S1200Sym => 0xB2,
            SyntaxID::DbRead => 0xB0,
            SyntaxID::Nck => 0x82,
        }
    }

    #[verifier::when_used_as_spec(spec_code)]
    pub fn code(self) -> (r: u8)
        ensures
            r == self.spec_code(),
    {
        match self {
            SyntaxID::S7Any => 0x10,
            SyntaxID::ParameterShort => 0x11,
            SyntaxID::PbcRId => 0x13,
            SyntaxID::AlarmLockfree => 0x15,
            SyntaxID::AlarmInd => 0x16,
            SyntaxID::AlarmAck => 0x19,
            SyntaxID::AlarmQueryreq => 0x1A,
            SyntaxID::NotifyInd => 0x1C,
            SyntaxID::DriveEsAny => 0xA2,
            SyntaxID::S1200Sym => 0xB2,
            SyntaxID::DbRead => 0xB0,
            SyntaxID::Nck => 0x82,
        }
    }

    /// The value whose code is `code`, if there is one.
    pub open spec fn decode(code: u8) -> Option<Self> {
        if exists|t: Self| t.code() == code {
            Some(choose|t: Self| t.code() == code)
        } else {
            None
        }
    }

    pub fn from(code: u8) -> (r: Option<Self>)
        ensures
            r == Self::decode(code),
            r matches Some(t) ==> t.code() == code,
            r is None <==> forall|t: Self| t.code() != code,
    {
        let r = match code {
            0x10 => Some(SyntaxID::S7Any),
            0x11 => Some(SyntaxID::ParameterShort),
            0x13 => Some(SyntaxID::PbcRId),
            0x15 => Some(SyntaxID::AlarmLockfree),
            0x16 => Some(SyntaxID::AlarmInd),
            0x19 => Some(SyntaxID::AlarmAck),
            0x1A => Some(SyntaxID::AlarmQueryreq),
            0x1C => Some(SyntaxID::NotifyInd),
            0xA2 => Some(SyntaxID::DriveEsAny),
            0xB2 => Some(SyntaxID::S1200Sym),
            0xB0 => Some(SyntaxID::DbRead),
            0x82 => Some(SyntaxID::Nck),
            _ => None,
        };
        proof {
            if let Some(t) = r {
                assert(t.code() == code);
                let c = choose|u: Self| u.code() == code;
                assert(c == t);
            }
        }
        r
    }

    /// Decoding the code of a value gives the value back: codes are distinct.
    pub proof fn lemma_decode_code(t: Self)
        ensures
            Self::decode(t.code()) == Some(t),
    {
        let c = choose|u: Self| u.code() == t.code();
        assert(c == t);
    }
}


impl PduType {
    /// The wire codes of the COTP PDU types, fixed by the S7 protocol: each
    /// value is written as its code, and each code is read back as its value.
    pub proof fn lemma_wire_codes()
        ensures
            PduType::ConnectRequest.spec_code() == 0xE0u8,
            PduType::ConnectConfirm.spec_code() == 0xD0u8,
            PduType::DisconnectRequest.spec_code() == 0x80u8,
            PduType::DisconnectConfirm.spec_code() == 0xC0u8,
            PduType::Reject.spec_code() == 0x50u8,
            PduType::DtData.spec_code() == 0xF0u8,
            PduType::decode(0xE0u8) == Some(PduType::ConnectRequest),
            PduType::decode(0xD0u8) == Some(PduType::ConnectConfirm),
            PduType::decode(0x80u8) == Some(PduType::DisconnectRequest),
            PduType::decode(0xC0u8) == Some(PduType::DisconnectConfirm),
            PduType::decode(0x50u8) == Some(PduType::Reject),
            PduType::decode(0xF0u8) == Some(PduType::DtData),
    {
        PduType::lemma_decode_code(PduType::ConnectRequest);
        PduType::lemma_decode_code(PduType::ConnectConfirm);
        PduType::lemma_decode_code(PduType::DisconnectRequest);
        PduType::lemma_decode_code(PduType::DisconnectConfirm);
        PduType::lemma_decode_code(PduType::Reject);
        PduType::lemma_decode_code(PduType::DtData);
    }
}

impl S7Area {
    /// The wire codes of the memory areas, fixed by the S7 protocol: each
    /// value is written as its code, and each code is read back as its value.
    pub proof fn lemma_wire_codes()
        ensures
            S7Area::SystemInfoOf200Family.spec_code() == 0x03u8,
            S7Area::SystemFlagsOf200Family.spec_code() == 0x05u8,
            S7Area::AnalogInputsOf200Family.spec_code() == 0x06u8,
            S7Area::AnalogOutputsOf200Family.spec_code() == 0x07u8,
            S7Area::DirectPeripheralAccess.spec_code() == 0x80u8,
            S7Area::Inputs.spec_code() == 0x81u8,
            S7Area::Outputs.spec_code() == 0x82u8,
            S7Area::Flags.spec_code() == 0x83u8,
            S7Area::DataBlocks.spec_code() == 0x84u8,
            S7Area::InstanceDataBlocks.spec_code() == 0x85u8,
            S7Area::LocalData.spec_code() == 0x86u8,
            S7Area::UnknownYet.spec_code() == 0x87u8,
            S7Area::S7Counters.spec_code() == 0x1Cu8,
            S7Area::S7Timers.spec_code() == 0x1Du8,
            S7Area::IecCounters.spec_code() == 0x1Eu8,
            S7Area::IecTimers.spec_code() == 0x1Fu8,
            S7Area::decode(0x03u8) == Some(S7Area::SystemInfoOf200Family),
            S7Area::decode(0x05u8) == Some(S7Area::SystemFlagsOf200Family),
            S7Area::decode(0x06u8) == Some(S7Area::AnalogInputsOf200Family),
            S7Area::decode(0x07u8) == Some(S7Area::AnalogOutputsOf200Family),
            S7Area::decode(0x80u8) == Some(S7Area::DirectPeripheralAccess),
            S7Area::decode(0x81u8) == Some(S7Area::Inputs),
            S7Area::decode(0x82u8) == Some(S7Area::Outputs),
            S7Area::decode(0x83u8) == Some(S7Area::Flags),
            S7Area::decode(0x84u8) == Some(S7Area::DataBlocks),
            S7Area::decode(0x85u8) == Some(S7Area::InstanceDataBlocks),
            S7Area::decode(0x86u8) == Some(S7Area::LocalData),
            S7Area::decode(0x87u8) == Some(S7Area::UnknownYet),
            S7Area::decode(0x1Cu8) == Some(S7Area::S7Counters),
            S7Area::decode(0x1Du8) == Some(S7Area::S7Timers),
            S7Area::decode(0x1Eu8) == Some(S7Area::IecCounters),
            S7Area::decode(0x1Fu8) == Some(S7Area::IecTimers),
    {
        S7Area::lemma_decode_code(S7Area::SystemInfoOf200Family);
        S7Area::lemma_decode_code(S7Area::SystemFlagsOf200Family);
        S7Area::lemma_decode_code(S7Area::AnalogInputsOf200Family);
        S7Area::lemma_decode_code(S7Area::AnalogOutputsOf200Family);
        S7Area::lemma_decode_code(S7Area::DirectPeripheralAccess);
        S7Area::lemma_decode_code(S7Area::Inputs);
        S7Area::lemma_decode_code(S7Area::Outputs);
        S7Area::lemma_decode_code(S7Area::Flags);
        S7Area::lemma_decode_code(S7Area::DataBlocks);
        S7Area::lemma_decode_code(S7Area::InstanceDataBlocks);
        S7Area::lemma_decode_code(S7Area::LocalData);
        S7Area::lemma_decode_code(S7Area::UnknownYet);
        S7Area::lemma_decode_code(S7Area::S7Counters);
        S7Area::lemma_decode_code(S7Area::S7Timers);
        S7Area::lemma_decode_code(S7Area::IecCounters);
        S7Area::lemma_decode_code(S7Area::IecTimers);
    }
}

impl S7DataVariableType {
    /// The wire codes of the data transport sizes of data items, fixed by the S7 protocol: each
    /// value is written as its code, and each code is read back as its value.
    pub proof fn lemma_wire_codes()
        ensures
            S7DataVariableType::Null.spec_code() == 0x00u8,
            S7DataVariableType::Bit.spec_code() == 0x03u8,
            S7DataVariableType::ByteWordDword.spec_code() == 0x04u8,
            S7DataVariableType::Integer.spec_code() == 0x05u8,
            S7DataVariableType::DInteger.spec_code() == 0x06u8,
            S7DataVariableType::Real.spec_code() == 0x07u8,
            S7DataVariableType::OctetString.spec_code() == 0x09u8,
            S7DataVariableType::decode(0x00u8) == Some(S7DataVariableType::Null),
            S7DataVariableType::decode(0x03u8) == Some(S7DataVariableType::Bit),
            S7DataVariableType::decode(0x04u8) == Some(S7DataVariableType::ByteWordDword),
            S7DataVariableType::decode(0x05u8) == Some(S7DataVariableType::Integer),
            S7DataVariableType::decode(0x06u8) == Some(S7DataVariableType::DInteger),
            S7DataVariableType::decode(0x07u8) == Some(S7DataVariableType::Real),
            S7DataVariableType::decode(0x09u8) == Some(S7DataVariableType::OctetString),
    {
        S7DataVariableType::lemma_decode_code(S7DataVariableType::Null);
        S7DataVariableType::lemma_decode_code(S7DataVariableType::Bit);
        S7DataVariableType::lemma_decode_code(S7DataVariableType::ByteWordDword);
        S7DataVariableType::lemma_decode_code(S7DataVariableType::Integer);
        S7DataVariableType::lemma_decode_code(S7DataVariableType::DInteger);
        S7DataVariableType::lemma_decode_code(S7DataVariableType::Real);
        S7DataVariableType::lemma_decode_code(S7DataVariableType::OctetString);
    }
}

impl S7ErrorClass {
    /// The wire codes of the error classes, fixed by the S7 protocol: each
    /// value is written as its code, and each code is read back as its value.
    pub proof fn lemma_wire_codes()
        ensures
            S7ErrorClass::NoError.spec_code() == 0x00u8,
            S7ErrorClass::ApplicationRelationship.spec_code() == 0x81u8,
            S7ErrorClass::ObjectDefinition.spec_code() == 0x82u8,
            S7ErrorClass::NoResourcesAvailable.spec_code() == 0x83u8,
            S7ErrorClass::ErrorOnServiceProcessing.spec_code() == 0x84u8,
            S7ErrorClass::ErrorOnSupplies.spec_code() == 0x85u8,
            S7ErrorClass::AccessError.spec_code() == 0x87u8,
            S7ErrorClass::DownloadError.spec_code() == 0xD2u8,
            S7ErrorClass::decode(0x00u8) == Some(S7ErrorClass::NoError),
            S7ErrorClass::decode(0x81u8) == Some(S7ErrorClass::ApplicationRelationship),
            S7ErrorClass::decode(0x82u8) == Some(S7ErrorClass::ObjectDefinition),
            S7ErrorClass::decode(0x83u8) == Some(S7ErrorClass::NoResourcesAvailable),
            S7ErrorClass::decode(0x84u8) == Some(S7ErrorClass::ErrorOnServiceProcessing),
            S7ErrorClass::decode(0x85u8) == Some(S7ErrorClass::ErrorOnSupplies),
            S7ErrorClass::decode(0x87u8) == Some(S7ErrorClass::AccessError),
            S7ErrorClass::decode(0xD2u8) == Some(S7ErrorClass::DownloadError),
    {
        S7ErrorClass::lemma_decode_code(S7ErrorClass::NoError);
        S7ErrorClass::lemma_decode_code(S7ErrorClass::ApplicationRelationship);
        S7ErrorClass::lemma_decode_code(S7ErrorClass::ObjectDefinition);
        S7ErrorClass::lemma_decode_code(S7ErrorClass::NoResourcesAvailable);
        S7ErrorClass::lemma_decode_code(S7ErrorClass::ErrorOnServiceProcessing);
        S7ErrorClass::lemma_decode_code(S7ErrorClass::ErrorOnSupplies);
        S7ErrorClass::lemma_decode_code(S7ErrorClass::AccessError);
        S7ErrorClass::lemma_decode_code(S7ErrorClass::DownloadError);
    }
}

impl S7FunctionCode {
    /// The wire codes of the function codes, fixed by the S7 protocol: each
    /// value is written as its code, and each code is read back as its value.
    pub proof fn lemma_wire_codes()
        ensures
            S7FunctionCode::CpuServices.spec_code() == 0x00u8,
            S7FunctionCode::ReadVariable.spec_code() == 0x04u8,
            S7FunctionCode::WriteVariable.spec_code() == 0x05u8,
            S7FunctionCode::StartDownload.spec_code() == 0xFAu8,
            S7FunctionCode::Download.spec_code() == 0xFBu8,
            S7FunctionCode::EndDownload.spec_code() == 0xFCu8,
            S7FunctionCode::StartUpload.spec_code() == 0x1Du8,
            S7FunctionCode::Upload.spec_code() == 0x1Eu8,
            S7FunctionCode::EndUpload.spec_code() == 0x1Fu8,
            S7FunctionCode::PlcControl.spec_code() == 0x28u8,
            S7FunctionCode::PlcStop.spec_code() == 0x29u8,
            S7FunctionCode::SetupCommunication.spec_code() == 0xF0u8,
            S7FunctionCode::decode(0x00u8) == Some(S7FunctionCode::CpuServices),
            S7FunctionCode::decode(0x04u8) == Some(S7FunctionCode::ReadVariable),
            S7FunctionCode::decode(0x05u8) == Some(S7FunctionCode::WriteVariable),
            S7FunctionCode::decode(0xFAu8) == Some(S7FunctionCode::StartDownload),
            S7FunctionCode::decode(0xFBu8) == Some(S7FunctionCode::Download),
            S7FunctionCode::decode(0xFCu8) == Some(S7FunctionCode::EndDownload),
            S7FunctionCode::decode(0x1Du8) == Some(S7FunctionCode::StartUpload),
            S7FunctionCode::decode(0x1Eu8) == Some(S7FunctionCode::Upload),
            S7FunctionCode::decode(0x1Fu8) == Some(S7FunctionCode::EndUpload),
            S7FunctionCode::decode(0x28u8) == Some(S7FunctionCode::PlcControl),
            S7FunctionCode::decode(0x29u8) == Some(S7FunctionCode::PlcStop),
            S7FunctionCode::decode(0xF0u8) == Some(S7FunctionCode::SetupCommunication),
    {
        S7FunctionCode::lemma_decode_code(S7FunctionCode::CpuServices);
        S7FunctionCode::lemma_decode_code(S7FunctionCode::ReadVariable);
        S7FunctionCode::lemma_decode_code(S7FunctionCode::WriteVariable);
        S7FunctionCode::lemma_decode_code(S7FunctionCode::StartDownload);
        S7FunctionCode::lemma_decode_code(S7FunctionCode::Download);
        S7FunctionCode::lemma_decode_code(S7FunctionCode::EndDownload);
        S7FunctionCode::lemma_decode_code(S7FunctionCode::StartUpload);
        S7FunctionCode::lemma_decode_code(S7FunctionCode::Upload);
        S7FunctionCode::lemma_decode_code(S7FunctionCode::EndUpload);
        S7FunctionCode::lemma_decode_code(S7FunctionCode::PlcControl);
        S7FunctionCode::lemma_decode_code(S7FunctionCode::PlcStop);
        S7FunctionCode::lemma_decode_code(S7FunctionCode::SetupCommunication);
    }
}

impl S7MessageType {
    /// The wire codes of the message types, fixed by the S7 protocol: each
    /// value is written as its code, and each code is read back as its value.
    pub proof fn lemma_wire_codes()
        ensures
            S7MessageType::Job.spec_code() == 0x01u8,
            S7MessageType::Ack.spec_code() == 0x02u8,
            S7MessageType::AckData.spec_code() == 0x03u8,
            S7MessageType::UserData.spec_code() == 0x07u8,
            S7MessageType::decode(0x01u8) == Some(S7MessageType::Job),
            S7MessageType::decode(0x02u8) == Some(S7MessageType::Ack),
            S7MessageType::decode(0x03u8) == Some(S7MessageType::AckData),
            S7MessageType::decode(0x07u8) == Some(S7MessageType::UserData),
    {
        S7MessageType::lemma_decode_code(S7MessageType::Job);
        S7MessageType::lemma_decode_code(S7MessageType::Ack);
        S7MessageType::lemma_decode_code(S7MessageType::AckData);
        S7MessageType::lemma_decode_code(S7MessageType::UserData);
    }
}

impl S7ParamVariableType {
    /// The wire codes of the transport sizes of request items, fixed by the S7 protocol: each
    /// value is written as its code, and each code is read back as its value.
    pub proof fn lemma_wire_codes()
        ensures
            S7ParamVariableType::Bit.spec_code() == 0x01u8,
            S7ParamVariableType::Byte.spec_code() == 0x02u8,
            S7ParamVariableType::Char.spec_code() == 0x03u8,
            S7ParamVariableType::Word.spec_code() == 0x04u8,
            S7ParamVariableType::Int.spec_code() == 0x05u8,
            S7ParamVariableType::Dword.spec_code() == 0x06u8,
            S7ParamVariableType::Dint.spec_code() == 0x07u8,
            S7ParamVariableType::Real.spec_code() == 0x08u8,
            S7ParamVariableType::Date.spec_code() == 0x09u8,
            S7ParamVariableType::Tod.spec_code() == 0x0Au8,
            S7ParamVariableType::Time.spec_code() == 0x0Bu8,
            S7ParamVariableType::S5Time.spec_code() == 0x0Cu8,
            S7ParamVariableType::DateAndTime.spec_code() == 0x0Fu8,
            S7ParamVariableType::Counter.spec_code() == 0x1Cu8,
            S7ParamVariableType::Timer.spec_code() == 0x1Du8,
            S7ParamVariableType::IecTimer.spec_code() == 0x1Eu8,
            S7ParamVariableType::IecCounter.spec_code() == 0x1Fu8,
            S7ParamVariableType::HsCounter.spec_code() == 0x20u8,
            S7ParamVariableType::decode(0x01u8) == Some(S7ParamVariableType::Bit),
            S7ParamVariableType::decode(0x02u8) == Some(S7ParamVariableType::Byte),
            S7ParamVariableType::decode(0x03u8) == Some(S7ParamVariableType::Char),
            S7ParamVariableType::decode(0x04u8) == Some(S7ParamVariableType::Word),
            S7ParamVariableType::decode(0x05u8) == Some(S7ParamVariableType::Int),
            S7ParamVariableType::decode(0x06u8) == Some(S7ParamVariableType::Dword),
            S7ParamVariableType::decode(0x07u8) == Some(S7ParamVariableType::Dint),
            S7ParamVariableType::decode(0x08u8) == Some(S7ParamVariableType::Real),
            S7ParamVariableType::decode(0x09u8) == Some(S7ParamVariableType::Date),
            S7ParamVariableType::decode(0x0Au8) == Some(S7ParamVariableType::Tod),
            S7ParamVariableType::decode(0x0Bu8) == Some(S7ParamVariableType::Time),
            S7ParamVariableType::decode(0x0Cu8) == Some(S7ParamVariableType::S5Time),
            S7ParamVariableType::decode(0x0Fu8) == Some(S7ParamVariableType::DateAndTime),
            S7ParamVariableType::decode(0x1Cu8) == Some(S7ParamVariableType::Counter),
            S7ParamVariableType::decode(0x1Du8) == Some(S7ParamVariableType::Timer),
            S7ParamVariableType::decode(0x1Eu8) == Some(S7ParamVariableType::IecTimer),
            S7ParamVariableType::decode(0x1Fu8) == Some(S7ParamVariableType::IecCounter),
            S7ParamVariableType::decode(0x20u8) == Some(S7ParamVariableType::HsCounter),
    {
        S7ParamVariableType::lemma_decode_code(S7ParamVariableType::Bit);
        S7ParamVariableType::lemma_decode_code(S7ParamVariableType::Byte);
        S7ParamVariableType::lemma_decode_code(S7ParamVariableType::Char);
        S7ParamVariableType::lemma_decode_code(S7ParamVariableType::Word);
        S7ParamVariableType::lemma_decode_code(S7ParamVariableType::Int);
        S7ParamVariableType::lemma_decode_code(S7ParamVariableType::Dword);
        S7ParamVariableType::lemma_decode_code(S7ParamVariableType::Dint);
        S7ParamVariableType::lemma_decode_code(S7ParamVariableType::Real);
        S7ParamVariableType::lemma_decode_code(S7ParamVariableType::Date);
        S7ParamVariableType::lemma_decode_code(S7ParamVariableType::Tod);
        S7ParamVariableType::lemma_decode_code(S7ParamVariableType::Time);
        S7ParamVariableType::lemma_decode_code(S7ParamVariableType::S5Time);
        S7ParamVariableType::lemma_decode_code(S7ParamVariableType::DateAndTime);
        S7ParamVariableType::lemma_decode_code(S7ParamVariableType::Counter);
        S7ParamVariableType::lemma_decode_code(S7ParamVariableType::Timer);
        S7ParamVariableType::lemma_decode_code(S7ParamVariableType::IecTimer);
        S7ParamVariableType::lemma_decode_code(S7ParamVariableType::IecCounter);
        S7ParamVariableType::lemma_decode_code(S7ParamVariableType::HsCounter);
    }
}

impl S7ReturnCode {
    /// The wire codes of the return codes of read and write results, fixed by the S7 protocol: each
    /// value is written as its code, and each code is read back as its value.
    pub proof fn lemma_wire_codes()
        ensures
            S7ReturnCode::Reserved.spec_code() == 0x00u8,
            S7ReturnCode::HardwareError.spec_code() == 0x01u8,
            S7ReturnCode::AccessingTheObjectNotAllowed.spec_code() == 0x03u8,
            S7ReturnCode::InvalidAddress.spec_code() == 0x05u8,
            S7ReturnCode::DataTypeNotSupported.spec_code() == 0x06u8,
            S7ReturnCode::DataTypeInconsistent.spec_code() == 0x07u8,
            S7ReturnCode::ObjectDoesNotExist.spec_code() == 0x0Au8,
            S7ReturnCode::Success.spec_code() == 0xFFu8,
            S7ReturnCode::decode(0x00u8) == Some(S7ReturnCode::Reserved),
            S7ReturnCode::decode(0x01u8) == Some(S7ReturnCode::HardwareError),
            S7ReturnCode::decode(0x03u8) == Some(S7ReturnCode::AccessingTheObjectNotAllowed),
            S7ReturnCode::decode(0x05u8) == Some(S7ReturnCode::InvalidAddress),
            S7ReturnCode::decode(0x06u8) == Some(S7ReturnCode::DataTypeNotSupported),
            S7ReturnCode::decode(0x07u8) == Some(S7ReturnCode::DataTypeInconsistent),
            S7ReturnCode::decode(0x0Au8) == Some(S7ReturnCode::ObjectDoesNotExist),
            S7ReturnCode::decode(0xFFu8) == Some(S7ReturnCode::Success),
    {
        S7ReturnCode::lemma_decode_code(S7ReturnCode::Reserved);
        S7ReturnCode::lemma_decode_code(S7ReturnCode::HardwareError);
        S7ReturnCode::lemma_decode_code(S7ReturnCode::AccessingTheObjectNotAllowed);
        S7ReturnCode::lemma_decode_code(S7ReturnCode::InvalidAddress);
        S7ReturnCode::lemma_decode_code(S7ReturnCode::DataTypeNotSupported);
        S7ReturnCode::lemma_decode_code(S7ReturnCode::DataTypeInconsistent);
        S7ReturnCode::lemma_decode_code(S7ReturnCode::ObjectDoesNotExist);
        S7ReturnCode::lemma_decode_code(S7ReturnCode::Success);
    }
}

impl SyntaxID {
    /// The wire codes of the addressing modes, fixed by the S7 protocol: each
    /// value is written as its code, and each code is read back as its value.
    pub proof fn lemma_wire_codes()
        ensures
            SyntaxID::S7Any.spec_code() == 0x10u8,
            SyntaxID::PbcRId.spec_code() == 0x13u8,
            SyntaxID::AlarmLockfree.spec_code() == 0x15u8,
            SyntaxID::AlarmInd.spec_code() == 0x16u8,
            SyntaxID::AlarmAck.spec_code() == 0x19u8,
            SyntaxID::AlarmQueryreq.spec_code() == 0x1Au8,
            SyntaxID::NotifyInd.spec_code() == 0x1Cu8,
            SyntaxID::DriveEsAny.spec_code() == 0xA2u8,
            SyntaxID::S1200Sym.spec_code() == 0xB2u8,
            SyntaxID::DbRead.spec_code() == 0xB0u8,
            SyntaxID::Nck.spec_code() == 0x82u8,
            SyntaxID::decode(0x10u8) == Some(SyntaxID::S7Any),
            SyntaxID::decode(0x13u8) == Some(SyntaxID::PbcRId),
            SyntaxID::decode(0x15u8) == Some(SyntaxID::AlarmLockfree),
            SyntaxID::decode(0x16u8) == Some(SyntaxID::AlarmInd),
            SyntaxID::decode(0x19u8) == Some(SyntaxID::AlarmAck),
            SyntaxID::decode(0x1Au8) == Some(SyntaxID::AlarmQueryreq),
            SyntaxID::decode(0x1Cu8) == Some(SyntaxID::NotifyInd),
            SyntaxID::decode(0xA2u8) == Some(SyntaxID::DriveEsAny),
            SyntaxID::decode(0xB2u8) == Some(SyntaxID::S1200Sym),
            SyntaxID::decode(0xB0u8) == Some(SyntaxID::DbRead),
            SyntaxID::decode(0x82u8) == Some(SyntaxID::Nck),
    {
        SyntaxID::lemma_decode_code(SyntaxID::S7Any);
        SyntaxID::lemma_decode_code(SyntaxID::PbcRId);
        SyntaxID::lemma_decode_code(SyntaxID::AlarmLockfree);
        SyntaxID::lemma_decode_code(SyntaxID::AlarmInd);
        SyntaxID::lemma_decode_code(SyntaxID::AlarmAck);
        SyntaxID::lemma_decode_code(SyntaxID::AlarmQueryreq);
        SyntaxID::lemma_decode_code(SyntaxID::NotifyInd);
        SyntaxID::lemma_decode_code(SyntaxID::DriveEsAny);
        SyntaxID::lemma_decode_code(SyntaxID::S1200Sym);
        SyntaxID::lemma_decode_code(SyntaxID::DbRead);
        SyntaxID::lemma_decode_code(SyntaxID::Nck);
    }
}

impl PlcType {
    /// The rack and slot of each PLC family: S7-300 and Sinumerik 828D CPUs sit
    /// in slot 2, S7-400 CPUs in slot 3, all others in slot 1, all in rack 0.
    pub proof fn lemma_rack_slots()
        ensures
            PlcType::S200.spec_default_rack_slot() == (0u8, 1u8),
            PlcType::S200Smart.spec_default_rack_slot() == (0u8, 1u8),
            PlcType::S300.spec_default_rack_slot() == (0u8, 2u8),
            PlcType::S400.spec_default_rack_slot() == (0u8, 3u8),
            PlcType::S1200.spec_default_rack_slot() == (0u8, 1u8),
            PlcType::S1500.spec_default_rack_slot() == (0u8, 1u8),
            PlcType::Sinumerik828D.spec_default_rack_slot() == (0u8, 2u8),
    {
    }
}

impl S7Area {
    /// The area that the first letter of an address names: I inputs, Q
    /// outputs, M flags, D and V data blocks, T timers, C counters; no other
    /// letter names an area.
    pub proof fn lemma_area_letters(c: char)
        ensures
            S7Area::spec_from_first_char('I') == Some(S7Area::Inputs),
            S7Area::spec_from_first_char('Q') == Some(S7Area::Outputs),
            S7Area::spec_from_first_char('M') == Some(S7Area::Flags),
            S7Area::spec_from_first_char('D') == Some(S7Area::DataBlocks),
            S7Area::spec_from_first_char('V') == Some(S7Area::DataBlocks),
            S7Area::spec_from_first_char('T') == Some(S7Area::S7Timers),
            S7Area::spec_from_first_char('C') == Some(S7Area::S7Counters),
            c != 'I' && c != 'Q' && c != 'M' && c != 'D' && c != 'V' && c != 'T' && c != 'C'
                ==> S7Area::spec_from_first_char(c) is None,
    {
    }
}

impl S7Area {
    /// The usual abbreviation of each memory area (empty where it has none).
    pub proof fn lemma_abbr_texts()
        ensures
            S7Area::SystemInfoOf200Family.spec_abbr() == ""@,
            S7Area::SystemFlagsOf200Family.spec_abbr() == "SM"@,
            S7Area::AnalogInputsOf200Family.spec_abbr() == "AI"@,
            S7Area::AnalogOutputsOf200Family.spec_abbr() == "AQ"@,
            S7Area::DirectPeripheralAccess.spec_abbr() == "PI/PQ"@,
            S7Area::Inputs.spec_abbr() == "I"@,
            S7Area::Outputs.spec_abbr() == "Q"@,
            S7Area::Flags.spec_abbr() == "M"@,
            S7Area::DataBlocks.spec_abbr() == "DB"@,
            S7Area::InstanceDataBlocks.spec_abbr() == "DI"@,
            S7Area::LocalData.spec_abbr() == "L"@,
            S7Area::UnknownYet.spec_abbr() == "V"@,
            S7Area::S7Counters.spec_abbr() == "C"@,
            S7Area::S7Timers.spec_abbr() == "T"@,
            S7Area::IecCounters.spec_abbr() == ""@,
            S7Area::IecTimers.spec_abbr() == ""@,
    {
    }
}

impl S7ErrorClass {
    /// The text that describes each error class.
    pub proof fn lemma_description_texts()
        ensures
            S7ErrorClass::NoError.spec_description() == "no error"@,
            S7ErrorClass::ApplicationRelationship.spec_description() == "application relationship"@,
            S7ErrorClass::ObjectDefinition.spec_description() == "object definition"@,
            S7ErrorClass::NoResourcesAvailable.spec_description() == "no resources available"@,
            S7ErrorClass::ErrorOnServiceProcessing.spec_description() == "error on service processing"@,
            S7ErrorClass::ErrorOnSupplies.spec_description() == "error on supplies"@,
            S7ErrorClass::AccessError.spec_description() == "access error"@,
            S7ErrorClass::DownloadError.spec_description() == "download error"@,
    {
    }
}

impl S7ReturnCode {
    /// The text that describes each return code.
    pub proof fn lemma_description_texts()
        ensures
            S7ReturnCode::Reserved.spec_description() == "reserved"@,
            S7ReturnCode::HardwareError.spec_description() == "hardware error"@,
            S7ReturnCode::AccessingTheObjectNotAllowed.spec_description() == "accessing the object not allowed"@,
            S7ReturnCode::InvalidAddress.spec_description() == "invalid address"@,
            S7ReturnCode::DataTypeNotSupported.spec_description() == "data type not supported"@,
            S7ReturnCode::DataTypeInconsistent.spec_description() == "data type inconsistent"@,
            S7ReturnCode::ObjectDoesNotExist.spec_description() == "object does not exist"@,
            S7ReturnCode::Success.spec_description() == "success"@,
    {
    }
}

} // verus!
