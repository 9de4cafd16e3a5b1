//! The errors of microphone start-up and screen capture, with their messages.
use vstd::prelude::*;

verus! {

broadcast use vstd::string::group_string_axioms;

/// Why the microphone could not be started.
pub enum MicError {
    /// The host has no default input device.
    NoDevice,
    /// The audio backend refused; its message.
    Cpal(String),
}

/// The text a `MicError` displays.
pub open spec fn mic_error_text(e: MicError) -> Seq<char> {
    match e {
        MicError::NoDevice => "no input device"@,
        MicError::Cpal(m) => "cpal: "@ + m@,
    }
}

impl MicError {
    /// The text this error displays.
    pub fn message(&self) -> (r: String)
        ensures
            r@ == mic_error_text(*self),
    {
        match self {
            MicError::NoDevice => String::from_str("no input device"),
            MicError::Cpal(m) => {
                let mut r = String::from_str("cpal: ");
                r.append(m.as_str());
                r
            },
        }
    }
}

/// The capture stream must deliver `f32` samples.
pub fn require_f32_input(delivers_f32: bool) -> (r: Result<(), MicError>)
    ensures
        delivers_f32 ==> r is Ok,
        !delivers_f32 ==> (r matches Err(MicError::Cpal(m)) && m@
            == "input stream must expose f32 samples (select another input device)"@),
{
    if delivers_f32 {
        Ok(())
    } else {
        Err(
            MicError::Cpal(
                String::from_str("input stream must expose f32 samples (select another input device)"),
            ),
        )
    }
}

/// Why a screen could not be captured or encoded.
pub enum CaptureError {
    /// The platform capture failed; its message.
    XCap(String),
    /// Encoding the image failed; its message.
    Encode(String),
}

/// The text a `CaptureError` displays.
pub open spec fn capture_error_text(e: CaptureError) -> Seq<char> {
    match e {
        CaptureError::XCap(m) => "xcap: "@ + m@,
        CaptureError::Encode(m) => "encode: "@ + m@,
    }
}

impl CaptureError {
    /// The text this error displays.
    pub fn message(&self) -> (r: String)
        ensures
            r@ == capture_error_text(*self),
    {
        match self {
            CaptureError::XCap(m) => {
                let mut r = String::from_str("xcap: ");
                r.append(m.as_str());
                r
            },
            CaptureError::Encode(m) => {
                let mut r = String::from_str("encode: ");
                r.append(m.as_str());
                r
            },
        }
    }
}

} // verus!
