use vstd::prelude::*;
use crate::text::contains_char;

verus! {

/// Status codes returned by every call of the USD bridge.
#[derive(Debug, Clone, Copy, PartialEq, Eq, Structural)]
pub enum DuStatus {
    Success,
    ErrIo,
    ErrInvalid,
    ErrNull,
    ErrUsd,
    ErrVulkan,
}

/// Severity of a message the bridge logs.
#[derive(Debug, Clone, Copy, PartialEq, Eq, Structural)]
pub enum DuLogLevel {
    Trace,
    Debug,
    Info,
    Warn,
    Error,
}

/// Errors of the USD bridge, carrying the bridge's last error message where it has one.
#[derive(Debug, Clone)]
pub enum DuError {
    Io(String),
    Invalid(String),
    Null,
    Usd(String),
    Vulkan(String),
}

/// What a bridge status means, given the bridge's last error message.
pub open spec fn status_result(status: DuStatus, message: String) -> Result<(), DuError> {
    match status {
        DuStatus::Success => Ok(()),
        DuStatus::ErrIo => Err(DuError::Io(message)),
        DuStatus::ErrInvalid => Err(DuError::Invalid(message)),
        DuStatus::ErrNull => Err(DuError::Null),
        DuStatus::ErrUsd => Err(DuError::Usd(message)),
        DuStatus::ErrVulkan => Err(DuError::Vulkan(message)),
    }
}

/// Turns a bridge status into a result; `message` is the bridge's last error message.
pub fn check(status: DuStatus, message: String) -> (r: Result<(), DuError>)
    ensures
        r == status_result(status, message),
        r is Ok <==> status == DuStatus::Success,
{
    match status {
        DuStatus::Success => Ok(()),
        DuStatus::ErrIo => Err(DuError::Io(message)),
        DuStatus::ErrInvalid => Err(DuError::Invalid(message)),
        DuStatus::ErrNull => Err(DuError::Null),
        DuStatus::ErrUsd => Err(DuError::Usd(message)),
        DuStatus::ErrVulkan => Err(DuError::Vulkan(message)),
    }
}

/// The text of an error, as the viewer shows it.
pub open spec fn error_text(e: DuError) -> Seq<char> {
    match e {
        DuError::Io(m) => "IO error: "@ + m@,
        DuError::Invalid(m) => "Invalid operation: "@ + m@,
        DuError::Null => "Null pointer"@,
        DuError::Usd(m) => "USD error: "@ + m@,
        DuError::Vulkan(m) => "Vulkan error: "@ + m@,
    }
}

impl DuError {
    /// The text of the error (see `error_text`).
    pub fn to_message(&self) -> (r: String)
        ensures
            r@ == error_text(*self),
    {
        match self {
            DuError::Io(m) => String::from_str("IO error: ").concat(m.as_str()),
            DuError::Invalid(m) => String::from_str("Invalid operation: ").concat(m.as_str()),
            DuError::Null => String::from_str("Null pointer"),
            DuError::Usd(m) => String::from_str("USD error: ").concat(m.as_str()),
            DuError::Vulkan(m) => String::from_str("Vulkan error: ").concat(m.as_str()),
        }
    }
}

/// Which argument of a bridge call a string is: each names the error a NUL character in it
/// raises.
#[derive(Debug, Clone, Copy, PartialEq, Eq, Structural)]
pub enum CStringArg {
    Path,
    TypeName,
    Name,
    Value,
    SetName,
    Variant,
    SelectionPath,
    AovName,
    SettingKey,
    SettingValue,
}

/// The message of the error a NUL character in an argument of kind `arg` raises.
pub open spec fn nul_message(arg: CStringArg) -> Seq<char> {
    match arg {
        CStringArg::Path => "path contains null byte"@,
        CStringArg::TypeName => "type_name contains null byte"@,
        CStringArg::Name => "name contains null byte"@,
        CStringArg::Value => "value contains null byte"@,
        CStringArg::SetName => "set_name contains null byte"@,
        CStringArg::Variant => "variant contains null byte"@,
        CStringArg::SelectionPath => "Selection path contains an interior NUL byte"@,
        CStringArg::AovName => "AOV name contains null byte"@,
        CStringArg::SettingKey => "setting key contains null byte"@,
        CStringArg::SettingValue => "setting value contains null byte"@,
    }
}

fn nul_message_string(arg: CStringArg) -> (r: String)
    ensures
        r@ == nul_message(arg),
{
    match arg {
        CStringArg::Path => String::from_str("path contains null byte"),
        CStringArg::TypeName => String::from_str("type_name contains null byte"),
        CStringArg::Name => String::from_str("name contains null byte"),
        CStringArg::Value => String::from_str("value contains null byte"),
        CStringArg::SetName => String::from_str("set_name contains null byte"),
        CStringArg::Variant => String::from_str("variant contains null byte"),
        CStringArg::SelectionPath => String::from_str("Selection path contains an interior NUL byte"),
        CStringArg::AovName => String::from_str("AOV name contains null byte"),
        CStringArg::SettingKey => String::from_str("setting key contains null byte"),
        CStringArg::SettingValue => String::from_str("setting value contains null byte"),
    }
}

/// Checks that a string can cross to the bridge as a C string: it must hold no NUL
/// character; one that does is refused with `DuError::Invalid` and the argument's message.
pub fn check_c_string(s: &str, arg: CStringArg) -> (r: Result<(), DuError>)
    ensures
        r is Ok <==> !s@.contains('\0'),
        r is Err ==> r == Err::<(), DuError>(DuError::Invalid(r->Err_0->Invalid_0)) && r->Err_0->Invalid_0@
            == nul_message(arg),
{
    if contains_char(s, '\0') {
        Err(DuError::Invalid(nul_message_string(arg)))
    } else {
        Ok(())
    }
}

} // verus!
