use vstd::prelude::*;
use vstd::string::StringExecFns;

use crate::text::push_decimal;

verus! {

/// A DNP3 application-layer function code.
#[derive(Debug, Clone, Copy, PartialEq, Eq, Hash, Structural)]
pub enum FunctionCode {
    Confirm,
    Read,
    Write,
    Select,
    Operate,
    DirectOperate,
    DirectOperateNoAck,
    ImmediateFreeze,
    ImmediateFreezeNoAck,
    FreezeAndClear,
    FreezeAndClearNoAck,
    ColdRestart,
    WarmRestart,
    Response,
    UnsolicitedResponse,
    Other(u8),
}

/// The name of a function code as its `Debug` text shows it: the
/// variant's name, and for `Other` the byte in decimal within parentheses.
pub open spec fn function_code_name(code: FunctionCode) -> Seq<char> {
    match code {
        FunctionCode::Confirm => "Confirm"@,
        FunctionCode::Read => "Read"@,
        FunctionCode::Write => "Write"@,
        FunctionCode::Select => "Select"@,
        FunctionCode::Operate => "Operate"@,
        FunctionCode::DirectOperate => "DirectOperate"@,
        FunctionCode::DirectOperateNoAck => "DirectOperateNoAck"@,
        FunctionCode::ImmediateFreeze => "ImmediateFreeze"@,
        FunctionCode::ImmediateFreezeNoAck => "ImmediateFreezeNoAck"@,
        FunctionCode::FreezeAndClear => "FreezeAndClear"@,
        FunctionCode::FreezeAndClearNoAck => "FreezeAndClearNoAck"@,
        FunctionCode::ColdRestart => "ColdRestart"@,
        FunctionCode::WarmRestart => "WarmRestart"@,
        FunctionCode::Response => "Response"@,
        FunctionCode::UnsolicitedResponse => "UnsolicitedResponse"@,
        FunctionCode::Other(byte) => "Other("@ + crate::text::decimal(byte as nat) + ")"@,
    }
}

/// The function code named by a function byte, per the DNP3 application
/// layer's table of codes; bytes without a name here are kept as `Other`.
pub open spec fn function_code_of(byte: u8) -> FunctionCode {
    if byte == 0 {
        FunctionCode::Confirm
    } else if byte == 1 {
        FunctionCode::Read
    } else if byte == 2 {
        FunctionCode::Write
    } else if byte == 3 {
        FunctionCode::Select
    } else if byte == 4 {
        FunctionCode::Operate
    } else if byte == 5 {
        FunctionCode::DirectOperate
    } else if byte == 6 {
        FunctionCode::DirectOperateNoAck
    } else if byte == 7 {
        FunctionCode::ImmediateFreeze
    } else if byte == 8 {
        FunctionCode::ImmediateFreezeNoAck
    } else if byte == 9 {
        FunctionCode::FreezeAndClear
    } else if byte == 10 {
        FunctionCode::FreezeAndClearNoAck
    } else if byte == 13 {
        FunctionCode::ColdRestart
    } else if byte == 14 {
        FunctionCode::WarmRestart
    } else if byte == 129 {
        FunctionCode::Response
    } else if byte == 130 {
        FunctionCode::UnsolicitedResponse
    } else {
        FunctionCode::Other(byte)
    }
}

impl FunctionCode {
    /// The function code's name, as its `Debug` text shows it.
    pub fn name(&self) -> (name: String)
        ensures
            name@ == function_code_name(*self),
    {
        match self {
            FunctionCode::Confirm => String::from_str("Confirm"),
            FunctionCode::Read => String::from_str("Read"),
            FunctionCode::Write => String::from_str("Write"),
            FunctionCode::Select => String::from_str("Select"),
            FunctionCode::Operate => String::from_str("Operate"),
            FunctionCode::DirectOperate => String::from_str("DirectOperate"),
            FunctionCode::DirectOperateNoAck => String::from_str("DirectOperateNoAck"),
            FunctionCode::ImmediateFreeze => String::from_str("ImmediateFreeze"),
            FunctionCode::ImmediateFreezeNoAck => String::from_str("ImmediateFreezeNoAck"),
            FunctionCode::FreezeAndClear => String::from_str("FreezeAndClear"),
            FunctionCode::FreezeAndClearNoAck => String::from_str("FreezeAndClearNoAck"),
            FunctionCode::ColdRestart => String::from_str("ColdRestart"),
            FunctionCode::WarmRestart => String::from_str("WarmRestart"),
            FunctionCode::Response => String::from_str("Response"),
            FunctionCode::UnsolicitedResponse => String::from_str("UnsolicitedResponse"),
            FunctionCode::Other(byte) => {
                let mut name = String::from_str("Other(");
                push_decimal(&mut name, *byte as u64);
                name.append(")");
                name
            },
        }
    }

    fn from_byte(byte: u8) -> (code: Self)
        ensures
            code == function_code_of(byte),
    {
        match byte {
            0 => Self::Confirm,
            1 => Self::Read,
            2 => Self::Write,
            3 => Self::Select,
            4 => Self::Operate,
            5 => Self::DirectOperate,
            6 => Self::DirectOperateNoAck,
            7 => Self::ImmediateFreeze,
            8 => Self::ImmediateFreezeNoAck,
            9 => Self::FreezeAndClear,
            10 => Self::FreezeAndClearNoAck,
            13 => Self::ColdRestart,
            14 => Self::WarmRestart,
            129 => Self::Response,
            130 => Self::UnsolicitedResponse,
            other => Self::Other(other),
        }
    }
}

/// The part of the application-layer header that the detections read.
#[derive(Debug, Clone, Copy)]
pub struct ApplicationHeader {
    pub function: FunctionCode,
}

/// The application header that `app_data` starts with: byte 0 is the
/// application control byte (not interpreted), byte 1 the function code.
/// There is none when fewer than two bytes are present.
pub open spec fn spec_application_header(app_data: Seq<u8>) -> Option<ApplicationHeader> {
    if app_data.len() < 2 {
        None
    } else {
        Some(ApplicationHeader { function: function_code_of(app_data[1]) })
    }
}

/// Parses the DNP3 application-layer header (control byte + function code)
/// from a transport segment's application data.
///
/// Object headers/payload following the function code aren't parsed: the
/// detections only need the function code.
pub fn parse_application_header(app_data: &[u8]) -> (header: Option<ApplicationHeader>)
    ensures
        header == spec_application_header(app_data@),
{
    if app_data.len() < 2 {
        return None;
    }
    let function_byte = app_data[1];
    Some(ApplicationHeader { function: FunctionCode::from_byte(function_byte) })
}

/// The DNP3 function-code table: each named code is decoded from its
/// function byte, and every other byte is kept, unchanged, as `Other`.
pub proof fn lemma_function_code_table(byte: u8)
    ensures
        function_code_of(0) == FunctionCode::Confirm,
        function_code_of(1) == FunctionCode::Read,
        function_code_of(2) == FunctionCode::Write,
        function_code_of(3) == FunctionCode::Select,
        function_code_of(4) == FunctionCode::Operate,
        function_code_of(5) == FunctionCode::DirectOperate,
        function_code_of(6) == FunctionCode::DirectOperateNoAck,
        function_code_of(7) == FunctionCode::ImmediateFreeze,
        function_code_of(8) == FunctionCode::ImmediateFreezeNoAck,
        function_code_of(9) == FunctionCode::FreezeAndClear,
        function_code_of(10) == FunctionCode::FreezeAndClearNoAck,
        function_code_of(13) == FunctionCode::ColdRestart,
        function_code_of(14) == FunctionCode::WarmRestart,
        function_code_of(129) == FunctionCode::Response,
        function_code_of(130) == FunctionCode::UnsolicitedResponse,
        (byte <= 10 || byte == 13 || byte == 14 || byte == 129 || byte == 130) <==> !(
        function_code_of(byte) is Other),
        function_code_of(byte) is Other ==> function_code_of(byte) == FunctionCode::Other(byte),
{
}

/// Different function bytes decode to different function codes.
pub proof fn lemma_function_code_of_injective(a: u8, b: u8)
    ensures
        function_code_of(a) == function_code_of(b) ==> a == b,
{
}

/// The application header is read from byte 1 of the application data, the
/// function byte; byte 0 and everything after byte 1 do not change it.
pub proof fn lemma_application_header_reads_byte_one(app_data: Seq<u8>, other: Seq<u8>)
    requires
        app_data.len() >= 2,
        other.len() >= 2,
        other[1] == app_data[1],
    ensures
        spec_application_header(app_data) is Some,
        spec_application_header(other) == spec_application_header(app_data),
{
}

/// The names of the function codes, as findings show them: the variant's
/// name, and `Other(` + the byte in decimal + `)` for an unnamed byte.
pub proof fn lemma_function_code_names(byte: u8)
    ensures
        function_code_name(FunctionCode::Confirm) == "Confirm"@,
        function_code_name(FunctionCode::Read) == "Read"@,
        function_code_name(FunctionCode::Write) == "Write"@,
        function_code_name(FunctionCode::Select) == "Select"@,
        function_code_name(FunctionCode::Operate) == "Operate"@,
        function_code_name(FunctionCode::DirectOperate) == "DirectOperate"@,
        function_code_name(FunctionCode::DirectOperateNoAck) == "DirectOperateNoAck"@,
        function_code_name(FunctionCode::ImmediateFreeze) == "ImmediateFreeze"@,
        function_code_name(FunctionCode::ImmediateFreezeNoAck) == "ImmediateFreezeNoAck"@,
        function_code_name(FunctionCode::FreezeAndClear) == "FreezeAndClear"@,
        function_code_name(FunctionCode::FreezeAndClearNoAck) == "FreezeAndClearNoAck"@,
        function_code_name(FunctionCode::ColdRestart) == "ColdRestart"@,
        function_code_name(FunctionCode::WarmRestart) == "WarmRestart"@,
        function_code_name(FunctionCode::Response) == "Response"@,
        function_code_name(FunctionCode::UnsolicitedResponse) == "UnsolicitedResponse"@,
        function_code_name(FunctionCode::Other(byte)) == "Other("@ + crate::text::decimal(
            byte as nat,
        ) + ")"@,
{
}

} // verus!
