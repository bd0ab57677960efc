//! The failures that asset and camera operations report.

use vstd::prelude::*;
use vstd::string::StringExecFns;

verus! {

/// Why an asset operation failed.
#[derive(Debug, Clone, PartialEq, Eq)]
pub enum AssetError {
    /// Nothing is stored under the name that this holds.
    NotFound(String),
    /// The store, or a decoder on the way, failed; this holds its message.
    Io(String),
}

/// Why a camera operation failed.
#[derive(Debug, Clone, PartialEq, Eq)]
pub enum CaptureError {
    /// Someone else holds the device.
    Busy,
    /// Any other failure; this holds the message for the caller.
    Device(String),
}

/// The model of an `AssetError`.
pub enum AssetFailure {
    NotFound(Seq<char>),
    Io(Seq<char>),
}

impl View for AssetError {
    type V = AssetFailure;

    open spec fn view(&self) -> AssetFailure {
        match self {
            AssetError::NotFound(name) => AssetFailure::NotFound(name@),
            AssetError::Io(message) => AssetFailure::Io(message@),
        }
    }
}

/// The model of a `CaptureError`.
pub enum CaptureFailure {
    Busy,
    Device(Seq<char>),
}

impl View for CaptureError {
    type V = CaptureFailure;

    open spec fn view(&self) -> CaptureFailure {
        match self {
            CaptureError::Busy => CaptureFailure::Busy,
            CaptureError::Device(message) => CaptureFailure::Device(message@),
        }
    }
}

/// The text shown for an asset that is not there.
pub open spec fn not_found_text(name: Seq<char>) -> Seq<char> {
    "Image file not found: "@ + name
}

/// The text shown for a device that someone else holds.
pub open spec fn busy_text() -> Seq<char> {
    "Camera busy! Make sure no other Blumbotron instances or camera apps are running."@
}

impl AssetError {
    /// The message of this error as a value of the model.
    pub open spec fn text(self) -> Seq<char> {
        match self {
            AssetError::NotFound(name) => not_found_text(name@),
            AssetError::Io(message) => message@,
        }
    }

    /// The message for the caller.
    pub fn message(&self) -> (message: String)
        ensures
            message@ == self.text(),
    {
        match self {
            AssetError::NotFound(name) => {
                let mut message = String::from_str("Image file not found: ");
                message.append(name.as_str());
                message
            },
            AssetError::Io(message) => message.clone(),
        }
    }
}

impl CaptureError {
    /// The message of this error as a value of the model.
    pub open spec fn text(self) -> Seq<char> {
        match self {
            CaptureError::Busy => busy_text(),
            CaptureError::Device(message) => message@,
        }
    }

    /// The message for the caller.
    pub fn message(&self) -> (message: String)
        ensures
            message@ == self.text(),
    {
        match self {
            CaptureError::Busy => String::from_str(
                "Camera busy! Make sure no other Blumbotron instances or camera apps are running.",
            ),
            CaptureError::Device(message) => message.clone(),
        }
    }
}

/// `prefix` followed by `detail`.
pub fn prefixed(prefix: &str, detail: &str) -> (message: String)
    ensures
        message@ == prefix@ + detail@,
{
    let mut message = String::from_str(prefix);
    message.append(detail);
    message
}

} // verus!
