use vstd::prelude::*;

verus! {

/// What can go wrong when records are written as structured text or read from it. Two
/// encoders are tried in turn; the reasons of both are kept.
#[derive(Debug, Clone, PartialEq, Eq)]
pub enum JsonError {
    SerializationFailed { simd_error: String, serde_error: String },
    DeserializationFailed { simd_error: String, serde_error: String },
    InvalidUtf8(String),
    IoError(String),
}

impl JsonError {
    pub open spec fn message_spec(&self) -> Seq<char> {
        match self {
            JsonError::SerializationFailed { simd_error, serde_error } => "Serialization failed - SIMD: "@
                + simd_error@ + ", Serde: "@ + serde_error@,
            JsonError::DeserializationFailed { simd_error, serde_error } => "Deserialization failed - SIMD: "@
                + simd_error@ + ", Serde: "@ + serde_error@,
            JsonError::InvalidUtf8(reason) => "Invalid UTF-8: "@ + reason@,
            JsonError::IoError(reason) => "IO error: "@ + reason@,
        }
    }

    /// The one-line text under which the error is reported.
    pub fn message(&self) -> (text: String)
        ensures
            text@ == self.message_spec(),
    {
        match self {
            JsonError::SerializationFailed { simd_error, serde_error } => {
                let mut text = "Serialization failed - SIMD: ".to_string();
                text.push_str(simd_error.as_str());
                text.push_str(", Serde: ");
                text.push_str(serde_error.as_str());
                text
            },
            JsonError::DeserializationFailed { simd_error, serde_error } => {
                let mut text = "Deserialization failed - SIMD: ".to_string();
                text.push_str(simd_error.as_str());
                text.push_str(", Serde: ");
                text.push_str(serde_error.as_str());
                text
            },
            JsonError::InvalidUtf8(reason) => {
                let mut text = "Invalid UTF-8: ".to_string();
                text.push_str(reason.as_str());
                text
            },
            JsonError::IoError(reason) => {
                let mut text = "IO error: ".to_string();
                text.push_str(reason.as_str());
                text
            },
        }
    }
}

/// The outcome of decoding with two decoders: what the first gave where it succeeded,
/// else what the second gave, else the reasons of both.
pub fn first_decoded<T>(first: Result<T, String>, second: Result<T, String>) -> (decoded: Result<
    T,
    JsonError,
>)
    ensures
        decoded == match first {
            Ok(value) => Ok::<T, JsonError>(value),
            Err(simd_error) => match second {
                Ok(value) => Ok::<T, JsonError>(value),
                Err(serde_error) => Err::<T, JsonError>(
                    JsonError::DeserializationFailed { simd_error, serde_error },
                ),
            },
        },
{
    match first {
        Ok(value) => Ok(value),
        Err(simd_error) => match second {
            Ok(value) => Ok(value),
            Err(serde_error) => Err(JsonError::DeserializationFailed { simd_error, serde_error }),
        },
    }
}

/// The outcome of encoding with two encoders: the text of the first where it succeeded,
/// else that of the second, else the reasons of both.
pub fn first_encoded(first: Result<String, String>, second: Result<String, String>) -> (encoded: Result<
    String,
    JsonError,
>)
    ensures
        encoded == match first {
            Ok(text) => Ok::<String, JsonError>(text),
            Err(simd_error) => match second {
                Ok(text) => Ok::<String, JsonError>(text),
                Err(serde_error) => Err::<String, JsonError>(
                    JsonError::SerializationFailed { simd_error, serde_error },
                ),
            },
        },
{
    match first {
        Ok(text) => Ok(text),
        Err(simd_error) => match second {
            Ok(text) => Ok(text),
            Err(serde_error) => Err(JsonError::SerializationFailed { simd_error, serde_error }),
        },
    }
}

} // verus!
