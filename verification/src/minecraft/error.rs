//! Why installing Minecraft failed.
use vstd::prelude::*;

use crate::http::{status_text, HttpStatus};
use crate::text::concat2;

verus! {

#[derive(Debug)]
pub enum MinecraftInstallError {
    /// A filesystem error, by its message.
    Io(String),
    /// A network error, by its message.
    Request(String),
    HttpStatus { url: String, status: HttpStatus },
    InvalidManifest(String),
    Validation(String),
    MissingVersion(String),
    MissingDownload { version: String, artifact: String },
    ChecksumMismatch { path: String, expected: String, actual: String },
    Archive(String),
    Process(String),
    UnsupportedPlatform(String),
}

pub open spec fn install_error_message(e: MinecraftInstallError) -> Seq<char> {
    match e {
        MinecraftInstallError::Io(m) => "filesystem error during Minecraft installation: "@ + m@,
        MinecraftInstallError::Request(m) => "network error during Minecraft installation: "@ + m@,
        MinecraftInstallError::HttpStatus { url, status } => "Minecraft download request failed with status "@
            + status_text(status) + ": "@ + url@,
        MinecraftInstallError::InvalidManifest(m) => "invalid Minecraft manifest: "@ + m@,
        MinecraftInstallError::Validation(m) => "invalid Minecraft install request: "@ + m@,
        MinecraftInstallError::MissingVersion(v) => "Minecraft version was not found in the version manifest: "@
            + v@,
        MinecraftInstallError::MissingDownload { version, artifact } => "Minecraft version "@
            + version@ + " is missing download artifact: "@ + artifact@,
        MinecraftInstallError::ChecksumMismatch { path, expected, actual } => "Minecraft download checksum mismatch for "@
            + path@ + ": expected "@ + expected@ + ", got "@ + actual@,
        MinecraftInstallError::Archive(m) => "Minecraft archive extraction failed: "@ + m@,
        MinecraftInstallError::Process(m) => "Minecraft installer process failed: "@ + m@,
        MinecraftInstallError::UnsupportedPlatform(m) => "unsupported Minecraft install platform: "@
            + m@,
    }
}

impl MinecraftInstallError {
    /// The error's text.
    pub fn message(&self) -> (m: String)
        ensures
            m@ == install_error_message(*self),
    {
        match self {
            MinecraftInstallError::Io(m) => concat2(
                "filesystem error during Minecraft installation: ",
                m.as_str(),
            ),
            MinecraftInstallError::Request(m) => concat2(
                "network error during Minecraft installation: ",
                m.as_str(),
            ),
            MinecraftInstallError::HttpStatus { url, status } => {
                let mut r = concat2("Minecraft download request failed with status ", status.text().as_str());
                r.append(": ");
                r.append(url.as_str());
                r
            },
            MinecraftInstallError::InvalidManifest(m) => concat2("invalid Minecraft manifest: ", m.as_str()),
            MinecraftInstallError::Validation(m) => concat2(
                "invalid Minecraft install request: ",
                m.as_str(),
            ),
            MinecraftInstallError::MissingVersion(v) => concat2(
                "Minecraft version was not found in the version manifest: ",
                v.as_str(),
            ),
            MinecraftInstallError::MissingDownload { version, artifact } => {
                let mut r = concat2("Minecraft version ", version.as_str());
                r.append(" is missing download artifact: ");
                r.append(artifact.as_str());
                r
            },
            MinecraftInstallError::ChecksumMismatch { path, expected, actual } => {
                let mut r = concat2("Minecraft download checksum mismatch for ", path.as_str());
                r.append(": expected ");
                r.append(expected.as_str());
                r.append(", got ");
                r.append(actual.as_str());
                r
            },
            MinecraftInstallError::Archive(m) => concat2(
                "Minecraft archive extraction failed: ",
                m.as_str(),
            ),
            MinecraftInstallError::Process(m) => concat2(
                "Minecraft installer process failed: ",
                m.as_str(),
            ),
            MinecraftInstallError::UnsupportedPlatform(m) => concat2(
                "unsupported Minecraft install platform: ",
                m.as_str(),
            ),
        }
    }
}

} // verus!
