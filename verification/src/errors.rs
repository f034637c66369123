//! The errors that the engine's decisions raise, each with an exactly
//! specified user-facing message.

use vstd::prelude::*;
use crate::text::dec_of;
use crate::text::usize_to_string;

verus! {

#[derive(Debug)]
pub enum SyncError {
    /// A vendor name outside the known set.
    UnknownTool { tool: String },
    /// The canonical directory is missing.
    MissingConfigDir { dir: String },
    /// A vendor-native file is present and force was not given.
    FileExists { path: String },
    /// A vendor-native directory is present and force was not given.
    DirExists { path: String },
    /// A non-merge pull into a canonical directory that already holds files.
    NeedMerge { dir: String, count: usize },
    /// A pull source that is a selector, not a single vendor.
    UnsupportedTool { tool: String },
    /// A pull found none of the vendor's native artifacts.
    NothingFound { message: String },
    /// The vendor supports pull only.
    PushUnsupported,
    /// A required credential is absent.
    Config { message: String },
    /// The remote service answered outside the 2xx range.
    Api { message: String },
    /// The remote service could not be reached.
    Network { message: String },
    /// A malformed remote response.
    Serialization { message: String },
    /// A filesystem failure, wrapped with the offending path.
    Io { message: String },
}

pub open spec fn error_message(e: SyncError) -> Seq<char> {
    match e {
        SyncError::UnknownTool { tool } => "Unknown tool '"@ + tool@
            + "'. Available tools: cursor, memory, devin, all"@,
        SyncError::MissingConfigDir { dir } => "Configuration directory '"@ + dir@
            + "' not found"@,
        SyncError::FileExists { path } => "File '"@ + path@
            + "' already exists. Use --force to overwrite."@,
        SyncError::DirExists { path } => "Directory '"@ + path@
            + "' already exists. Use --force to overwrite."@,
        SyncError::NeedMerge { dir, count } => "Configuration directory '"@ + dir@
            + "' already contains "@ + dec_of(count as int)
            + " files. Use --merge to merge with existing configuration."@,
        SyncError::UnsupportedTool { tool } => "Unsupported tool: "@ + tool@,
        SyncError::NothingFound { message } => message@,
        SyncError::PushUnsupported => "Devin push is not yet implemented. Only pull is supported and requires the DEVIN_API_KEY credential."@,
        SyncError::Config { message } => "Invalid configuration: "@ + message@,
        SyncError::Api { message } => "API error: "@ + message@,
        SyncError::Network { message } => "Network error: "@ + message@,
        SyncError::Serialization { message } => "Serialization error: "@ + message@,
        SyncError::Io { message } => "IO error: "@ + message@,
    }
}

impl SyncError {
    /// The user-facing text of the error.
    pub fn message(&self) -> (r: String)
        ensures
            r@ == error_message(*self),
    {
        match self {
            SyncError::UnknownTool { tool } => {
                let mut s = "Unknown tool '".to_owned();
                s.append(tool.as_str());
                s.append("'. Available tools: cursor, memory, devin, all");
                s
            },
            SyncError::MissingConfigDir { dir } => {
                let mut s = "Configuration directory '".to_owned();
                s.append(dir.as_str());
                s.append("' not found");
                s
            },
            SyncError::FileExists { path } => {
                let mut s = "File '".to_owned();
                s.append(path.as_str());
                s.append("' already exists. Use --force to overwrite.");
                s
            },
            SyncError::DirExists { path } => {
                let mut s = "Directory '".to_owned();
                s.append(path.as_str());
                s.append("' already exists. Use --force to overwrite.");
                s
            },
            SyncError::NeedMerge { dir, count } => {
                let mut s = "Configuration directory '".to_owned();
                s.append(dir.as_str());
                s.append("' already contains ");
                let n = usize_to_string(*count);
                s.append(n.as_str());
                s.append(" files. Use --merge to merge with existing configuration.");
                s
            },
            SyncError::UnsupportedTool { tool } => {
                let mut s = "Unsupported tool: ".to_owned();
                s.append(tool.as_str());
                s
            },
            SyncError::NothingFound { message } => message.clone(),
            SyncError::PushUnsupported => {
                "Devin push is not yet implemented. Only pull is supported and requires the DEVIN_API_KEY credential.".to_owned()
            },
            SyncError::Config { message } => {
                let mut s = "Invalid configuration: ".to_owned();
                s.append(message.as_str());
                s
            },
            SyncError::Api { message } => {
                let mut s = "API error: ".to_owned();
                s.append(message.as_str());
                s
            },
            SyncError::Network { message } => {
                let mut s = "Network error: ".to_owned();
                s.append(message.as_str());
                s
            },
            SyncError::Serialization { message } => {
                let mut s = "Serialization error: ".to_owned();
                s.append(message.as_str());
                s
            },
            SyncError::Io { message } => {
                let mut s = "IO error: ".to_owned();
                s.append(message.as_str());
                s
            },
        }
    }
}

} // verus!
