//! What can go wrong, and how it is reported.

use vstd::prelude::*;

verus! {

/// A failure of one invocation. Each is final: nothing is retried.
#[derive(Debug, Clone, PartialEq, Eq)]
pub enum Failure {
    /// No override is set and the platform names no data directory.
    NoDataDir,
    /// The platform names a data directory whose path is not Unicode: it
    /// is no text, and the caller is to join the storage path itself.
    DataDirNotText,
    /// The storage path has no parent directory in which to create the file.
    InvalidDataPath,
    /// The file system refused to read, create or write the storage file;
    /// the text is the system's.
    Io(String),
    /// The storage file is not a flat table of strings under names that are
    /// not empty; the text says why, in the parser's words where it is the
    /// parser that refuses.
    Decode(String),
    /// The entries could not be written out as a document; the text is the
    /// serializer's.
    Encode(String),
    /// The document that was written out for the entries does not read back
    /// as the same entries, and is withheld.
    Unfaithful,
    /// More than one of the commands was given.
    Usage,
    /// Adding was asked for without operands.
    AddNotSpecified,
    /// Adding was asked for with other than the two operands, name and id.
    AddIncomplete,
    /// The name to store an id under is empty.
    NameEmpty,
    /// Removing was asked for without a name.
    RemoveNotSpecified,
    /// Looking up was asked for without a name.
    NameNotSpecified,
    /// No id is stored under the name that was looked up.
    NotFound(String),
    /// The clipboard could not be set; the text is the clipboard backend's.
    Clipboard(String),
}

/// A failure as contracts speak of it: the same, with each text as the
/// sequence of its characters.
pub enum SpecFailure {
    /// See `Failure::NoDataDir`.
    NoDataDir,
    /// See `Failure::DataDirNotText`.
    DataDirNotText,
    /// See `Failure::InvalidDataPath`.
    InvalidDataPath,
    /// See `Failure::Io`.
    Io(Seq<char>),
    /// See `Failure::Decode`.
    Decode(Seq<char>),
    /// See `Failure::Encode`.
    Encode(Seq<char>),
    /// See `Failure::Unfaithful`.
    Unfaithful,
    /// See `Failure::Usage`.
    Usage,
    /// See `Failure::AddNotSpecified`.
    AddNotSpecified,
    /// See `Failure::AddIncomplete`.
    AddIncomplete,
    /// See `Failure::NameEmpty`.
    NameEmpty,
    /// See `Failure::RemoveNotSpecified`.
    RemoveNotSpecified,
    /// See `Failure::NameNotSpecified`.
    NameNotSpecified,
    /// See `Failure::NotFound`.
    NotFound(Seq<char>),
    /// See `Failure::Clipboard`.
    Clipboard(Seq<char>),
}

impl View for Failure {
    type V = SpecFailure;

    open spec fn view(&self) -> SpecFailure {
        match self {
            Failure::NoDataDir => SpecFailure::NoDataDir,
            Failure::DataDirNotText => SpecFailure::DataDirNotText,
            Failure::InvalidDataPath => SpecFailure::InvalidDataPath,
            Failure::Io(text) => SpecFailure::Io(text@),
            Failure::Decode(text) => SpecFailure::Decode(text@),
            Failure::Encode(text) => SpecFailure::Encode(text@),
            Failure::Unfaithful => SpecFailure::Unfaithful,
            Failure::Usage => SpecFailure::Usage,
            Failure::AddNotSpecified => SpecFailure::AddNotSpecified,
            Failure::AddIncomplete => SpecFailure::AddIncomplete,
            Failure::NameEmpty => SpecFailure::NameEmpty,
            Failure::RemoveNotSpecified => SpecFailure::RemoveNotSpecified,
            Failure::NameNotSpecified => SpecFailure::NameNotSpecified,
            Failure::NotFound(name) => SpecFailure::NotFound(name@),
            Failure::Clipboard(text) => SpecFailure::Clipboard(text@),
        }
    }
}

impl Failure {
    /// The line that reports the failure, without the leading `error: `.
    pub open spec fn message_text(&self) -> Seq<char> {
        match self {
            Failure::NoDataDir => "unable to retrieve home directory path"@,
            Failure::DataDirNotText => "data directory path is not Unicode"@,
            Failure::InvalidDataPath => "invalid data path"@,
            Failure::Io(text) => text@,
            Failure::Decode(text) => text@,
            Failure::Encode(text) => text@,
            Failure::Unfaithful => "the ids do not read back as they were written"@,
            Failure::Usage => "only one of NAME, --list, --add and --remove can be given"@,
            Failure::AddNotSpecified => "name and id to add not specified"@,
            Failure::AddIncomplete => "name and/or id to add not specified"@,
            Failure::NameEmpty => "name to add is empty"@,
            Failure::RemoveNotSpecified => "id to remove not specified"@,
            Failure::NameNotSpecified => "no id name specified"@,
            Failure::NotFound(name) => "id `"@ + name@ + "` not found"@,
            Failure::Clipboard(text) => text@,
        }
    }

    /// The line that reports the failure on the error stream.
    pub open spec fn report_text(&self) -> Seq<char> {
        "error: "@ + self.message_text()
    }

    /// The line that reports the failure on the error stream.
    pub fn report(&self) -> (line: String)
        ensures
            line@ == self.report_text(),
    {
        let mut line = "error: ".to_owned();
        line.append(self.message().as_str());
        line
    }

    /// The line that reports the failure, without the leading `error: `.
    pub fn message(&self) -> (text: String)
        ensures
            text@ == self.message_text(),
    {
        match self {
            Failure::NoDataDir => "unable to retrieve home directory path".to_owned(),
            Failure::DataDirNotText => "data directory path is not Unicode".to_owned(),
            Failure::InvalidDataPath => "invalid data path".to_owned(),
            Failure::Io(text) => text.clone(),
            Failure::Decode(text) => text.clone(),
            Failure::Encode(text) => text.clone(),
            Failure::Unfaithful => "the ids do not read back as they were written".to_owned(),
            Failure::Usage => {
                "only one of NAME, --list, --add and --remove can be given".to_owned()
            },
            Failure::AddNotSpecified => "name and id to add not specified".to_owned(),
            Failure::AddIncomplete => "name and/or id to add not specified".to_owned(),
            Failure::NameEmpty => "name to add is empty".to_owned(),
            Failure::RemoveNotSpecified => "id to remove not specified".to_owned(),
            Failure::NameNotSpecified => "no id name specified".to_owned(),
            Failure::NotFound(name) => {
                let mut text = "id `".to_owned();
                text.append(name.as_str());
                text.append("` not found");
                text
            },
            Failure::Clipboard(text) => text.clone(),
        }
    }
}

} // verus!
