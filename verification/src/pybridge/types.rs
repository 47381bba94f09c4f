//! Errors of the Python bridge and the description of a service.

use vstd::prelude::*;
use crate::text::{lit, push_str};

verus! {

/// Why a bridge operation failed.
#[derive(Debug)]
pub enum PyBridgeError {
    NotEnabled,
    NotStarted,
    StartFailed(String),
    Timeout,
    RpcError { code: i64, message: String },
    Serialization(String),
    Io(String),
    ServiceNotFound(String),
    Other(String),
}

/// The text of an error, as it is shown to the user.
pub open spec fn error_text(e: PyBridgeError) -> Seq<char> {
    match e {
        PyBridgeError::NotEnabled => "PyBridge 未启用"@,
        PyBridgeError::NotStarted => "PyBridge 未启动"@,
        PyBridgeError::StartFailed(s) => "Python 进程启动失败: "@ + s@,
        PyBridgeError::Timeout => "请求超时"@,
        PyBridgeError::RpcError { code, message } => "JSON-RPC 错误: code="@ + decimal(code as int)
            + ", message="@ + message@,
        PyBridgeError::Serialization(s) => "序列化错误: "@ + s@,
        PyBridgeError::Io(s) => "IO 错误: "@ + s@,
        PyBridgeError::ServiceNotFound(s) => "服务未找到: "@ + s@,
        PyBridgeError::Other(s) => "未知错误: "@ + s@,
    }
}

/// The decimal digits of `n >= 0`.
pub open spec fn digits(n: nat) -> Seq<char>
    decreases n,
{
    if n < 10 {
        seq![('0' as u32 + n) as char]
    } else {
        digits(n / 10).push(('0' as u32 + n % 10) as char)
    }
}

/// `n` in decimal, with a leading `-` when negative.
pub open spec fn decimal(n: int) -> Seq<char> {
    if n < 0 {
        seq!['-'] + digits((-n) as nat)
    } else {
        digits(n as nat)
    }
}

fn digit_char(d: u64) -> (c: char)
    requires
        d < 10,
    ensures
        c == ('0' as u32 + d) as char,
{
    let b: u8 = 48u8 + (d as u8);
    b as char
}

fn push_digits(out: &mut String, n: u64)
    ensures
        final(out)@ == old(out)@ + digits(n as nat),
    decreases n,
{
    if n < 10 {
        crate::text::push_char(out, digit_char(n));
    } else {
        push_digits(out, n / 10);
        crate::text::push_char(out, digit_char(n % 10));
    }
}

/// `n` written in decimal, without sign.
pub fn decimal_unsigned(n: u64) -> (r: String)
    ensures
        r@ == digits(n as nat),
{
    let mut out = String::new();
    push_digits(&mut out, n);
    assert(out@ =~= digits(n as nat));
    out
}

/// `n` written in decimal.
pub fn decimal_string(n: i64) -> (r: String)
    ensures
        r@ == decimal(n as int),
{
    let mut out = String::new();
    if n < 0 {
        crate::text::push_char(&mut out, '-');
        let m: u64 = if n == i64::MIN {
            9223372036854775808u64
        } else {
            (-n) as u64
        };
        push_digits(&mut out, m);
    } else {
        push_digits(&mut out, n as u64);
    }
    assert(out@ =~= decimal(n as int));
    out
}

fn lit_then(s: &str, t: &String) -> (r: String)
    ensures
        r@ == s@ + t@,
{
    let mut r = lit(s);
    push_str(&mut r, t.as_str());
    r
}

impl PyBridgeError {
    /// The text of the error; see `error_text`.
    pub fn message(&self) -> (r: String)
        ensures
            r@ == error_text(*self),
    {
        match self {
            PyBridgeError::NotEnabled => lit("PyBridge 未启用"),
            PyBridgeError::NotStarted => lit("PyBridge 未启动"),
            PyBridgeError::StartFailed(s) => lit_then("Python 进程启动失败: ", s),
            PyBridgeError::Timeout => lit("请求超时"),
            PyBridgeError::RpcError { code, message } => {
                let mut r = lit("JSON-RPC 错误: code=");
                let d = decimal_string(*code);
                push_str(&mut r, d.as_str());
                push_str(&mut r, ", message=");
                push_str(&mut r, message.as_str());
                r
            },
            PyBridgeError::Serialization(s) => lit_then("序列化错误: ", s),
            PyBridgeError::Io(s) => lit_then("IO 错误: ", s),
            PyBridgeError::ServiceNotFound(s) => lit_then("服务未找到: ", s),
            PyBridgeError::Other(s) => lit_then("未知错误: ", s),
        }
    }
}

/// A service that the Python side offers.
#[derive(Debug, Clone)]
pub struct ServiceHandle {
    pub name: String,
    pub version: String,
    pub description: String,
}

impl ServiceHandle {
    /// The handle as plain character sequences.
    pub open spec fn view(&self) -> (Seq<char>, Seq<char>, Seq<char>) {
        (self.name@, self.version@, self.description@)
    }

    /// A copy of the handle.
    pub fn duplicate(&self) -> (r: ServiceHandle)
        ensures
            r.view() == self.view(),
    {
        ServiceHandle { name: self.name.clone(), version: self.version.clone(), description: self.description.clone() }
    }
}

/// `std::io::Error`, carried through opaquely.
#[verifier::external_type_specification]
#[verifier::external_body]
pub struct ExIoError(std::io::Error);

/// `serde_json::Error`, carried through opaquely.
#[verifier::external_type_specification]
#[verifier::external_body]
pub struct ExSerdeJsonError(serde_json::Error);

/// The text that an `std::io::Error` displays (`ToString::to_string`); what
/// that text is, is not stated.
#[verifier::external_body]
fn io_error_text(e: &std::io::Error) -> String {
    e.to_string()
}

/// The text that a `serde_json::Error` displays (`ToString::to_string`); what
/// that text is, is not stated.
#[verifier::external_body]
fn serde_error_text(e: &serde_json::Error) -> String {
    e.to_string()
}

impl From<std::io::Error> for PyBridgeError {
    /// An I/O failure, described by the error's text.
    fn from(e: std::io::Error) -> (r: Self)
        ensures
            r is Io,
    {
        PyBridgeError::Io(io_error_text(&e))
    }
}

impl vstd::std_specs::convert::FromSpecImpl<std::io::Error> for PyBridgeError {
    open spec fn obeys_from_spec() -> bool {
        false
    }

    open spec fn from_spec(v: std::io::Error) -> Self {
        PyBridgeError::Io(arbitrary())
    }
}

impl From<serde_json::Error> for PyBridgeError {
    /// A serialization failure, described by the error's text.
    fn from(e: serde_json::Error) -> (r: Self)
        ensures
            r is Serialization,
    {
        PyBridgeError::Serialization(serde_error_text(&e))
    }
}

impl vstd::std_specs::convert::FromSpecImpl<serde_json::Error> for PyBridgeError {
    open spec fn obeys_from_spec() -> bool {
        false
    }

    open spec fn from_spec(v: serde_json::Error) -> Self {
        PyBridgeError::Serialization(arbitrary())
    }
}

} // verus!
