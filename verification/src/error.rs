//! What can go wrong, and how each failure is put into words.

use vstd::prelude::*;
use vstd::string::*;

verus! {

/// Why a search or a download as a whole failed.
///
/// `Dir` and `Network` carry the words of the failure that caused them.
#[derive(Debug, Clone, PartialEq, Eq)]
pub enum Error {
    /// The answer to the search held no image data that can be read.
    Parse,
    /// The download directory could not be found or made.
    Dir(String),
    /// The search request failed.
    Network(String),
}

impl Error {
    pub open spec fn message_text(self) -> Seq<char> {
        match self {
            Error::Parse => "Unable to parse images from json. Google may have changed the way their data is stored"@,
            Error::Dir(cause) => "Unable to find or create: "@ + cause@,
            Error::Network(cause) => "GET request failed: "@ + cause@,
        }
    }

    pub open spec fn description_text(self) -> Seq<char> {
        match self {
            Error::Parse => "Unable to parse images from json"@,
            Error::Dir(_) => "Error when finding or creating directory"@,
            Error::Network(_) => "Failed to make GET request"@,
        }
    }

    /// The failure in words, with its cause where it has one.
    pub fn message(&self) -> (text: String)
        ensures
            text@ == self.message_text(),
    {
        match self {
            Error::Parse => "Unable to parse images from json. Google may have changed the way their data is stored".to_owned(),
            Error::Dir(cause) => "Unable to find or create: ".to_owned().concat(cause.as_str()),
            Error::Network(cause) => "GET request failed: ".to_owned().concat(cause.as_str()),
        }
    }

    /// The kind of failure in a few words.
    pub fn description(&self) -> (text: &'static str)
        ensures
            text@ == self.description_text(),
    {
        match self {
            Error::Parse => "Unable to parse images from json",
            Error::Dir(_) => "Error when finding or creating directory",
            Error::Network(_) => "Failed to make GET request",
        }
    }
}

/// Why one attempt to fill a download slot failed, or why the slot gave up.
///
/// `Fs` and `Network` carry the words of the failure that caused them.
#[derive(Debug, Clone, PartialEq, Eq)]
pub enum DownloadError {
    /// No candidate was left to try.
    Overflow,
    /// The content is no image, or of no known kind.
    Extension,
    /// The request took longer than allowed.
    Timeout,
    /// The file could not be created or written.
    Fs(String),
    /// The request failed.
    Network(String),
}

impl DownloadError {
    pub open spec fn message_text(self) -> Seq<char> {
        match self {
            DownloadError::Overflow => "Ran out of possible images"@,
            DownloadError::Extension => "Unable to determine file extension"@,
            DownloadError::Timeout => "GET request timed out"@,
            DownloadError::Fs(cause) => "Problem when creating or writing to file: "@ + cause@,
            DownloadError::Network(cause) => "Unable to fetch image: "@ + cause@,
        }
    }

    pub open spec fn description_text(self) -> Seq<char> {
        match self {
            DownloadError::Overflow => "Ran out of possible images"@,
            DownloadError::Extension => "File type not known or not an image"@,
            DownloadError::Timeout => "GET request timed out"@,
            DownloadError::Fs(_) => "Error occured creating or writing to file"@,
            DownloadError::Network(_) => "Error when making GET request to fetch image"@,
        }
    }

    /// The failure in words, with its cause where it has one.
    pub fn message(&self) -> (text: String)
        ensures
            text@ == self.message_text(),
    {
        match self {
            DownloadError::Overflow => "Ran out of possible images".to_owned(),
            DownloadError::Extension => "Unable to determine file extension".to_owned(),
            DownloadError::Timeout => "GET request timed out".to_owned(),
            DownloadError::Fs(cause) => {
                "Problem when creating or writing to file: ".to_owned().concat(cause.as_str())
            },
            DownloadError::Network(cause) => "Unable to fetch image: ".to_owned().concat(
                cause.as_str(),
            ),
        }
    }

    /// The kind of failure in a few words.
    pub fn description(&self) -> (text: &'static str)
        ensures
            text@ == self.description_text(),
    {
        match self {
            DownloadError::Overflow => "Ran out of possible images",
            DownloadError::Extension => "File type not known or not an image",
            DownloadError::Timeout => "GET request timed out",
            DownloadError::Fs(_) => "Error occured creating or writing to file",
            DownloadError::Network(_) => "Error when making GET request to fetch image",
        }
    }
}

} // verus!
