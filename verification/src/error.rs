//! What can go wrong during an import, and how it is reported.

use vstd::prelude::*;

verus! {

/// The broad classes of failure.
#[derive(Clone, Copy, Debug, PartialEq, Eq, Structural)]
pub enum ErrorKind {
    /// The caller selected no source, or more than one.
    Configuration,
    /// Opening, copying, removing or creating something on disk failed.
    Io,
    /// A container's metadata could not be read.
    MalformedContainer,
    /// Decryption failed for a reason other than a wrong password.
    PasswordVerification,
    /// The key is already present in the managed store.
    DuplicateIdentity,
    /// The registry could not be loaded or saved.
    Registry,
}

/// The point at which an import failed.
#[derive(Clone, Copy, Debug, PartialEq, Eq, Structural)]
pub enum Fault {
    /// Neither a single file nor a directory was selected, or both were.
    NoSource,
    /// The candidate could not be opened for reading and writing.
    Unreadable,
    /// The candidate is not a well-formed container.
    Malformed,
    /// The operator's answer to the password question could not be read.
    Unanswered,
    /// Decryption failed for a reason other than a wrong password.
    Undecryptable,
    /// The key's directory, or its registry entry, already exists.
    AlreadyImported,
    /// The key's directory could not be created.
    DirectoryNotCreated,
    /// The candidate's path has no file name.
    NoFileName,
    /// The container could not be copied into the key's directory.
    CopyFailed,
    /// The original could not be removed; the copy was taken back.
    RemovalFailed,
    /// The original could not be removed, and neither could the copy.
    RollbackFailed,
    /// Removing the original failed, yet it is gone: only the copy is left.
    SourceVanished,
    /// The registry could not be saved.
    SaveFailed,
    /// The stored registry is not usable.
    RegistryMalformed,
}

/// A failure, with the path it concerns and the underlying cause as text.
#[derive(Clone, Debug, PartialEq, Eq)]
pub struct ImportError {
    pub fault: Fault,
    pub path: String,
    pub cause: String,
}

/// An [`ImportError`] as a mathematical value.
pub struct ImportErrorView {
    pub fault: Fault,
    pub path: Seq<char>,
    pub cause: Seq<char>,
}

impl View for ImportError {
    type V = ImportErrorView;

    open spec fn view(&self) -> ImportErrorView {
        ImportErrorView { fault: self.fault, path: self.path@, cause: self.cause@ }
    }
}

/// The class that a fault belongs to.
pub open spec fn kind_of(fault: Fault) -> ErrorKind {
    match fault {
        Fault::NoSource => ErrorKind::Configuration,
        Fault::Malformed => ErrorKind::MalformedContainer,
        Fault::Undecryptable => ErrorKind::PasswordVerification,
        Fault::AlreadyImported => ErrorKind::DuplicateIdentity,
        Fault::SaveFailed | Fault::RegistryMalformed => ErrorKind::Registry,
        Fault::Unreadable
        | Fault::Unanswered
        | Fault::DirectoryNotCreated
        | Fault::NoFileName
        | Fault::CopyFailed
        | Fault::RemovalFailed
        | Fault::RollbackFailed
        | Fault::SourceVanished => ErrorKind::Io,
    }
}

/// What opens the message for a fault.
pub open spec fn headline(fault: Fault) -> Seq<char> {
    match fault {
        Fault::NoSource => "Must supply either --keystore or --directory"@,
        Fault::Unreadable => "Unable to get read and write permissions on keystore "@,
        Fault::Malformed => "Unable to read keystore JSON "@,
        Fault::Unanswered => "Error reading password"@,
        Fault::Undecryptable => "Error whilst decrypting keypair"@,
        Fault::AlreadyImported => "Refusing to re-import an existing public key"@,
        Fault::DirectoryNotCreated => "Unable to create import directory"@,
        Fault::NoFileName => "Badly formatted file name"@,
        Fault::CopyFailed => "Unable to copy keystore"@,
        Fault::RemovalFailed => "Unable to delete "@,
        Fault::RollbackFailed => "Unable to remove copied keystore"@,
        Fault::SourceVanished => "An error occurred whilst moving files"@,
        Fault::SaveFailed => "Unable to save validator definitions"@,
        Fault::RegistryMalformed => "Unable to open validator definitions"@,
    }
}

/// Whether the message for a fault names the path right after its headline.
pub open spec fn names_path_first(fault: Fault) -> bool {
    fault == Fault::Unreadable || fault == Fault::Malformed || fault == Fault::RemovalFailed
}

/// Whether the message for a fault ends with the path instead of a cause.
pub open spec fn ends_with_path(fault: Fault) -> bool {
    fault == Fault::AlreadyImported || fault == Fault::NoFileName
}

/// The message for an error: the headline, then the path where the fault
/// has one, then the cause, set off by a colon.
pub open spec fn message_of(e: ImportErrorView) -> Seq<char> {
    if e.fault == Fault::NoSource {
        headline(e.fault)
    } else if names_path_first(e.fault) {
        headline(e.fault) + e.path + ": "@ + e.cause
    } else if ends_with_path(e.fault) {
        headline(e.fault) + ": "@ + e.path
    } else {
        headline(e.fault) + ": "@ + e.cause
    }
}

fn headline_exec(fault: Fault) -> (text: &'static str)
    ensures
        text@ == headline(fault),
{
    match fault {
        Fault::NoSource => "Must supply either --keystore or --directory",
        Fault::Unreadable => "Unable to get read and write permissions on keystore ",
        Fault::Malformed => "Unable to read keystore JSON ",
        Fault::Unanswered => "Error reading password",
        Fault::Undecryptable => "Error whilst decrypting keypair",
        Fault::AlreadyImported => "Refusing to re-import an existing public key",
        Fault::DirectoryNotCreated => "Unable to create import directory",
        Fault::NoFileName => "Badly formatted file name",
        Fault::CopyFailed => "Unable to copy keystore",
        Fault::RemovalFailed => "Unable to delete ",
        Fault::RollbackFailed => "Unable to remove copied keystore",
        Fault::SourceVanished => "An error occurred whilst moving files",
        Fault::SaveFailed => "Unable to save validator definitions",
        Fault::RegistryMalformed => "Unable to open validator definitions",
    }
}

impl ImportError {
    /// An error at `fault`, about `path`, caused by `cause`.
    pub fn new(fault: Fault, path: &str, cause: &str) -> (e: ImportError)
        ensures
            e@ == (ImportErrorView { fault, path: path@, cause: cause@ }),
    {
        ImportError { fault, path: String::from_str(path), cause: String::from_str(cause) }
    }

    /// The class of this error.
    pub fn kind(&self) -> (kind: ErrorKind)
        ensures
            kind == kind_of(self@.fault),
    {
        match self.fault {
            Fault::NoSource => ErrorKind::Configuration,
            Fault::Malformed => ErrorKind::MalformedContainer,
            Fault::Undecryptable => ErrorKind::PasswordVerification,
            Fault::AlreadyImported => ErrorKind::DuplicateIdentity,
            Fault::SaveFailed | Fault::RegistryMalformed => ErrorKind::Registry,
            Fault::Unreadable
            | Fault::Unanswered
            | Fault::DirectoryNotCreated
            | Fault::NoFileName
            | Fault::CopyFailed
            | Fault::RemovalFailed
            | Fault::RollbackFailed
            | Fault::SourceVanished => ErrorKind::Io,
        }
    }

    /// The message to show for this error.
    pub fn message(&self) -> (text: String)
        ensures
            text@ == message_of(self@),
    {
        let mut text: String = String::from_str(headline_exec(self.fault));
        match self.fault {
            Fault::NoSource => {},
            Fault::Unreadable | Fault::Malformed | Fault::RemovalFailed => {
                text.append(self.path.as_str());
                text.append(": ");
                text.append(self.cause.as_str());
            },
            Fault::AlreadyImported | Fault::NoFileName => {
                text.append(": ");
                text.append(self.path.as_str());
            },
            _ => {
                text.append(": ");
                text.append(self.cause.as_str());
            },
        }
        text
    }
}

} // verus!
