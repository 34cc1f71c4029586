use vstd::prelude::*;

verus! {

/// What can go wrong outside of configuration handling.
#[derive(Debug, Clone, PartialEq, Eq)]
pub enum TmsError {
    /// A path whose bytes are not UTF-8 text.
    NonUtf8Path,
    /// Reading, writing or interpreting persisted data failed.
    IoError,
    /// A repository or a remote catalogue could not be used.
    GitError,
    /// The configuration does not allow the operation.
    ConfigError,
    /// The terminal interface failed, with the reason.
    TuiError(String),
}

impl TmsError {
    /// The one-line text under which the error is reported.
    pub fn message(&self) -> (text: String)
        ensures
            text@ == self.message_spec(),
    {
        match self {
            TmsError::NonUtf8Path => "Non Utf-8 Path".to_string(),
            TmsError::IoError => "IO Error".to_string(),
            TmsError::GitError => "Git Error".to_string(),
            TmsError::ConfigError => "Config Error".to_string(),
            TmsError::TuiError(reason) => {
                let mut text = "TUI error: ".to_string();
                text.push_str(reason.as_str());
                text
            },
        }
    }

    pub open spec fn message_spec(&self) -> Seq<char> {
        match self {
            TmsError::NonUtf8Path => "Non Utf-8 Path"@,
            TmsError::IoError => "IO Error"@,
            TmsError::GitError => "Git Error"@,
            TmsError::ConfigError => "Config Error"@,
            TmsError::TuiError(reason) => "TUI error: "@ + reason@,
        }
    }
}

} // verus!
