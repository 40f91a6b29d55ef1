//! The errors that the engine reports.

use vstd::prelude::*;
use vstd::string::*;
use crate::platform::{Architecture, Platform};
use crate::text::{decimal, u64_to_decimal};

verus! {

/// Everything that can go wrong, by kind. Failures met outside this library
/// (disk, network, archive, serialisation, store, task runtime) carry their text.
#[derive(Clone, Debug)]
pub enum Error {
    Runtime(String),
    IO(String),
    Zip(String),
    Reqwest(String),
    Serde(String),
    Database(String),
    /// No release asset exists for the platform.
    Github(Platform, Architecture),
    /// No transcoder build exists for the platform.
    Binary(Platform, Architecture),
    Command(String),
    Video(String),
    Path(String),
    /// An operation ran longer than this many whole seconds.
    Timeout(u64),
    MissingUrl(String),
    MissingFormat(String),
    IncompatibleFormat(String, String),
    MissingThumbnail,
    /// A looked-up entry is absent or no longer valid.
    FormatNotFound(String),
    Unknown(String),
}

impl Error {
    /// The text shown for the error.
    pub open spec fn spec_message(self) -> Seq<char> {
        match self {
            Error::Runtime(e) => "An error occurred while running the runtime: "@ + e@,
            Error::IO(e) => "An IO error occurred: "@ + e@,
            Error::Zip(e) => "An error occurred while extracting the archive: "@ + e@,
            Error::Reqwest(e) => "An error occurred while fetching: "@ + e@,
            Error::Serde(e) => "An error occurred while parsing JSON: "@ + e@,
            Error::Database(e) => "An error occurred while interacting with the database: "@ + e@,
            Error::Github(p, a) => "No GitHub asset found for platform "@ + p.spec_name() + "/"@
                + a.spec_name(),
            Error::Binary(p, a) => "No ffmpeg binary found for platform "@ + p.spec_name() + "/"@
                + a.spec_name(),
            Error::Command(e) => "Failed to execute command: "@ + e@,
            Error::Video(e) => "Failed to fetch video: "@ + e@,
            Error::Path(e) => "An invalid path was provided: "@ + e@,
            Error::Timeout(secs) => "Operation timed out after "@ + decimal(secs as nat) + "s"@,
            Error::MissingUrl(f) => "Format "@ + f@ + " has no URL available"@,
            Error::MissingFormat(k) => "No "@ + k@ + " format available for video"@,
            Error::IncompatibleFormat(f, why) => "Format "@ + f@ + " is not compatible: "@ + why@,
            Error::MissingThumbnail => "No thumbnail available for video"@,
            Error::FormatNotFound(e) => "Not found: "@ + e@,
            Error::Unknown(e) => "An unknown error occurred: "@ + e@,
        }
    }

    /// The text shown for the error.
    pub fn message(&self) -> (r: String)
        ensures
            r@ == self.spec_message(),
    {
        match self {
            Error::Runtime(e) => String::from_str(
                "An error occurred while running the runtime: ",
            ).concat(e.as_str()),
            Error::IO(e) => String::from_str("An IO error occurred: ").concat(e.as_str()),
            Error::Zip(e) => String::from_str(
                "An error occurred while extracting the archive: ",
            ).concat(e.as_str()),
            Error::Reqwest(e) => String::from_str("An error occurred while fetching: ").concat(
                e.as_str(),
            ),
            Error::Serde(e) => String::from_str("An error occurred while parsing JSON: ").concat(
                e.as_str(),
            ),
            Error::Database(e) => String::from_str(
                "An error occurred while interacting with the database: ",
            ).concat(e.as_str()),
            Error::Github(p, a) => {
                let pn = p.name();
                let an = a.name();
                String::from_str("No GitHub asset found for platform ").concat(
                    pn.as_str(),
                ).concat("/").concat(an.as_str())
            },
            Error::Binary(p, a) => {
                let pn = p.name();
                let an = a.name();
                String::from_str("No ffmpeg binary found for platform ").concat(
                    pn.as_str(),
                ).concat("/").concat(an.as_str())
            },
            Error::Command(e) => String::from_str("Failed to execute command: ").concat(e.as_str()),
            Error::Video(e) => String::from_str("Failed to fetch video: ").concat(e.as_str()),
            Error::Path(e) => String::from_str("An invalid path was provided: ").concat(e.as_str()),
            Error::Timeout(secs) => {
                let n = u64_to_decimal(*secs);
                String::from_str("Operation timed out after ").concat(n.as_str()).concat("s")
            },
            Error::MissingUrl(f) => String::from_str("Format ").concat(f.as_str()).concat(
                " has no URL available",
            ),
            Error::MissingFormat(k) => String::from_str("No ").concat(k.as_str()).concat(
                " format available for video",
            ),
            Error::IncompatibleFormat(f, why) => String::from_str("Format ").concat(
                f.as_str(),
            ).concat(" is not compatible: ").concat(why.as_str()),
            Error::MissingThumbnail => String::from_str("No thumbnail available for video"),
            Error::FormatNotFound(e) => String::from_str("Not found: ").concat(e.as_str()),
            Error::Unknown(e) => String::from_str("An unknown error occurred: ").concat(e.as_str()),
        }
    }
}

} // verus!
