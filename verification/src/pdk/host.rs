//! The guest side of Scryer's host-call ABI: the checks that the guest makes
//! on each raw answer of the host (handle, response length, bytes read), the
//! bound on one response, and the errors that a host call reports.
//!
//! The raw calls themselves cross the WebAssembly boundary and stay with the
//! caller; each of them hands its raw result to one of the functions here.

use vstd::prelude::*;
use crate::plugin::PluginError;
use crate::text::{decimal, push_all, u64_to_string};

verus! {

/// The largest response, in bytes, that the guest accepts from one host call
/// (16 MiB), whatever the host's own service limits are.
pub const MAX_RESPONSE_BYTES: usize = 16777216;

/// A transport or protocol failure while using Scryer's native host ABI.
/// Encoding and decoding failures carry the codec's message.
#[derive(Debug, Clone)]
pub enum HostCallError {
    Unavailable,
    Encode(String),
    Decode(String),
    InvalidHandle,
    ResponseTooLarge(usize),
    ReadFailed,
    UnexpectedResponse(String),
    Service(PluginError),
}

/// The text that a host-call error displays.
pub open spec fn host_error_text(e: HostCallError) -> Seq<char> {
    match e {
        HostCallError::Unavailable => "Scryer host services are unavailable"@,
        HostCallError::Encode(m) => "failed to encode host request: "@ + m@,
        HostCallError::Decode(m) => "failed to decode host response: "@ + m@,
        HostCallError::InvalidHandle => "host returned an invalid response handle"@,
        HostCallError::ResponseTooLarge(size) => "host response exceeds the "@ + decimal(
            MAX_RESPONSE_BYTES as nat,
        ) + "-byte limit: "@ + decimal(size as nat),
        HostCallError::ReadFailed => "failed to read host response"@,
        HostCallError::UnexpectedResponse(operation) =>
            "host returned a response for another operation while handling "@ + operation@,
        HostCallError::Service(err) => "host service error: "@ + err.public_message@,
    }
}

impl HostCallError {
    /// The message of this failure.
    pub fn message(&self) -> (m: String)
        ensures
            m@ == host_error_text(*self),
    {
        match self {
            HostCallError::Unavailable => String::from_str("Scryer host services are unavailable"),
            HostCallError::Encode(e) => {
                let mut m = String::from_str("failed to encode host request: ");
                push_all(&mut m, e.as_str());
                m
            },
            HostCallError::Decode(e) => {
                let mut m = String::from_str("failed to decode host response: ");
                push_all(&mut m, e.as_str());
                m
            },
            HostCallError::InvalidHandle => String::from_str(
                "host returned an invalid response handle",
            ),
            HostCallError::ResponseTooLarge(size) => {
                let mut m = String::from_str("host response exceeds the ");
                push_all(&mut m, u64_to_string(MAX_RESPONSE_BYTES as u64).as_str());
                push_all(&mut m, "-byte limit: ");
                push_all(&mut m, u64_to_string(*size as u64).as_str());
                m
            },
            HostCallError::ReadFailed => String::from_str("failed to read host response"),
            HostCallError::UnexpectedResponse(operation) => {
                let mut m = String::from_str(
                    "host returned a response for another operation while handling ",
                );
                push_all(&mut m, operation.as_str());
                m
            },
            HostCallError::Service(err) => {
                let mut m = String::from_str("host service error: ");
                push_all(&mut m, err.public_message.as_str());
                m
            },
        }
    }
}

/// The handle that the host returned for a call: zero means that the host
/// produced no response.
pub fn accept_handle(raw_handle: u32) -> (r: Result<u32, HostCallError>)
    ensures
        raw_handle == 0 ==> r == Err::<u32, HostCallError>(HostCallError::InvalidHandle),
        raw_handle != 0 ==> r == Ok::<u32, HostCallError>(raw_handle),
{
    if raw_handle == 0 {
        return Err(HostCallError::InvalidHandle);
    }
    Ok(raw_handle)
}

/// The length that the host reported for a response: a negative length
/// means that the handle was not valid.
pub fn response_len(raw_len: i32) -> (r: Result<usize, HostCallError>)
    ensures
        raw_len < 0 ==> r == Err::<usize, HostCallError>(HostCallError::InvalidHandle),
        raw_len >= 0 ==> r == Ok::<usize, HostCallError>(raw_len as usize),
{
    if raw_len < 0 {
        return Err(HostCallError::InvalidHandle);
    }
    Ok(raw_len as usize)
}

/// Refuses a response longer than `MAX_RESPONSE_BYTES`, before the guest
/// allocates room for it.
pub fn check_response_len(len: usize) -> (r: Result<usize, HostCallError>)
    ensures
        len > MAX_RESPONSE_BYTES ==> r == Err::<usize, HostCallError>(
            HostCallError::ResponseTooLarge(len),
        ),
        len <= MAX_RESPONSE_BYTES ==> r == Ok::<usize, HostCallError>(len),
{
    if len > MAX_RESPONSE_BYTES {
        return Err(HostCallError::ResponseTooLarge(len));
    }
    Ok(len)
}

/// The outcome of reading a response into a buffer of `destination_len`
/// bytes: the read succeeded when the host wrote exactly that many bytes,
/// the buffer's length taken as an `i32` as the ABI carries it.
pub fn read_outcome(read: i32, destination_len: usize) -> (r: Result<(), HostCallError>)
    ensures
        read == destination_len as i32 ==> r is Ok,
        read != destination_len as i32 ==> r == Err::<(), HostCallError>(HostCallError::ReadFailed),
{
    let expected = destination_len as i32;
    if read == expected {
        Ok(())
    } else {
        Err(HostCallError::ReadFailed)
    }
}

/// A host service's answer: its value, or its error as `Service`.
pub fn result_value<T>(result: Result<T, PluginError>) -> (r: Result<T, HostCallError>)
    ensures
        match result {
            Ok(v) => r == Ok::<T, HostCallError>(v),
            Err(e) => r == Err::<T, HostCallError>(HostCallError::Service(e)),
        },
{
    match result {
        Ok(value) => Ok(value),
        Err(error) => Err(HostCallError::Service(error)),
    }
}

/// Outside a WebAssembly host every host call fails with `Unavailable`.
pub fn native_host_call(request: &[u8]) -> (r: Result<u32, HostCallError>)
    ensures
        r == Err::<u32, HostCallError>(HostCallError::Unavailable),
{
    Err(HostCallError::Unavailable)
}

} // verus!
