use keystore_import::error::{ErrorKind, Fault, ImportError};

fn error(fault: Fault) -> ImportError {
    ImportError::new(fault, "/tmp/in/keystore-0.json", "permission denied")
}

#[test]
fn new_keeps_what_it_is_given() {
    let e = ImportError::new(Fault::CopyFailed, "/a", "disk full");
    assert_eq!(e.fault, Fault::CopyFailed);
    assert_eq!(e.path, "/a");
    assert_eq!(e.cause, "disk full");
}

#[test]
fn every_fault_has_its_kind() {
    assert_eq!(error(Fault::NoSource).kind(), ErrorKind::Configuration);
    assert_eq!(error(Fault::Unreadable).kind(), ErrorKind::Io);
    assert_eq!(error(Fault::Malformed).kind(), ErrorKind::MalformedContainer);
    assert_eq!(error(Fault::Unanswered).kind(), ErrorKind::Io);
    assert_eq!(error(Fault::Undecryptable).kind(), ErrorKind::PasswordVerification);
    assert_eq!(error(Fault::AlreadyImported).kind(), ErrorKind::DuplicateIdentity);
    assert_eq!(error(Fault::DirectoryNotCreated).kind(), ErrorKind::Io);
    assert_eq!(error(Fault::NoFileName).kind(), ErrorKind::Io);
    assert_eq!(error(Fault::CopyFailed).kind(), ErrorKind::Io);
    assert_eq!(error(Fault::RemovalFailed).kind(), ErrorKind::Io);
    assert_eq!(error(Fault::RollbackFailed).kind(), ErrorKind::Io);
    assert_eq!(error(Fault::SourceVanished).kind(), ErrorKind::Io);
    assert_eq!(error(Fault::SaveFailed).kind(), ErrorKind::Registry);
    assert_eq!(error(Fault::RegistryMalformed).kind(), ErrorKind::Registry);
}

#[test]
fn messages_name_path_and_cause() {
    assert_eq!(error(Fault::NoSource).message(), "Must supply either --keystore or --directory");
    assert_eq!(
        error(Fault::Unreadable).message(),
        "Unable to get read and write permissions on keystore /tmp/in/keystore-0.json: permission denied"
    );
    assert_eq!(
        error(Fault::Malformed).message(),
        "Unable to read keystore JSON /tmp/in/keystore-0.json: permission denied"
    );
    assert_eq!(error(Fault::Unanswered).message(), "Error reading password: permission denied");
    assert_eq!(error(Fault::Undecryptable).message(), "Error whilst decrypting keypair: permission denied");
    assert_eq!(
        error(Fault::AlreadyImported).message(),
        "Refusing to re-import an existing public key: /tmp/in/keystore-0.json"
    );
    assert_eq!(error(Fault::DirectoryNotCreated).message(), "Unable to create import directory: permission denied");
    assert_eq!(error(Fault::NoFileName).message(), "Badly formatted file name: /tmp/in/keystore-0.json");
    assert_eq!(error(Fault::CopyFailed).message(), "Unable to copy keystore: permission denied");
    assert_eq!(error(Fault::RemovalFailed).message(), "Unable to delete /tmp/in/keystore-0.json: permission denied");
    assert_eq!(error(Fault::RollbackFailed).message(), "Unable to remove copied keystore: permission denied");
    assert_eq!(error(Fault::SourceVanished).message(), "An error occurred whilst moving files: permission denied");
    assert_eq!(error(Fault::SaveFailed).message(), "Unable to save validator definitions: permission denied");
    assert_eq!(error(Fault::RegistryMalformed).message(), "Unable to open validator definitions: permission denied");
}
