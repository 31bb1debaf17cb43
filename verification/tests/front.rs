use std::io::Write;

use sequoia_openpgp::cert::CertBuilder;
use sequoia_openpgp::policy::StandardPolicy;
use sequoia_openpgp::serialize::stream::{LiteralWriter, Message, Signer};
use sequoia_openpgp::serialize::Serialize;
use sequoia_openpgp::Cert;
use signed_store::front::{
    content_type, delete_file, finish_upload, get_file, index, post_file, post_file_saved, upload,
    Reply, Upload,
};
use signed_store::gate::{Flaw, PolicyError, Verificator, VerifyError};
use signed_store::medium::Shelf;
use signed_store::store::{Store, StoreError};

fn trusted_signer(user: &str) -> Cert {
    let (cert, _) = CertBuilder::general_purpose(None, Some(user))
        .generate()
        .expect("a certificate");
    cert
}

fn keyring_of(cert: &Cert) -> Verificator {
    let mut bytes = Vec::new();
    cert.serialize(&mut bytes).expect("a serialized certificate");
    Verificator::from_bytes(&bytes).expect("a keyring")
}

fn signed_by(cert: &Cert, payload: &[u8]) -> Vec<u8> {
    let policy = StandardPolicy::new();
    let keypair = cert
        .keys()
        .unencrypted_secret()
        .with_policy(&policy, None)
        .supported()
        .alive()
        .revoked(false)
        .for_signing()
        .next()
        .expect("a signing key")
        .key()
        .clone()
        .into_keypair()
        .expect("a key pair");
    let mut sink = Vec::new();
    {
        let message = Message::new(&mut sink);
        let signer = Signer::new(message, keypair).build().expect("a signer");
        let mut writer = LiteralWriter::new(signer).build().expect("a writer");
        writer.write_all(payload).expect("written");
        writer.finalize().expect("finalized");
    }
    sink
}

#[test]
fn the_usage_text_names_the_host_of_the_request() {
    assert_eq!(
        index(Some("files.example.org:3000")),
        "upload:   $ gpg -s </path/to/file | curl http://files.example.org:3000/file-name --data-binary @-\ndownload: $ curl http://files.example.org:3000/file-name\ndelete:   $ curl -XDELETE http://files.example.org:3000/file-name\n"
    );
}

#[test]
fn the_usage_text_has_a_stand_in_for_an_unnamed_host() {
    assert_eq!(
        index(None),
        "upload:   $ gpg -s </path/to/file | curl http://$YOUR_SERVER_HOST/file-name --data-binary @-\ndownload: $ curl http://$YOUR_SERVER_HOST/file-name\ndelete:   $ curl -XDELETE http://$YOUR_SERVER_HOST/file-name\n"
    );
}

#[test]
fn objects_are_served_as_pgp() {
    assert_eq!(content_type(), "application/pgp");
}

#[test]
fn a_read_is_answered_with_the_object_or_not_found() {
    assert_eq!(get_file(true), Reply::Object);
    assert_eq!(get_file(false), Reply::NotFound);
    assert_eq!(Reply::Object.status(), 200);
    assert_eq!(Reply::NotFound.status(), 404);
    assert_eq!(Reply::NotFound.body(), "no such file\n");
}

#[test]
fn an_upload_is_saved_only_after_verification() {
    assert_eq!(post_file(&Ok(())), Upload::Save);
    let refused = [
        VerifyError::Unprocessed,
        VerifyError::Unreadable(String::from("Malformed packet")),
        VerifyError::Policy(PolicyError::NoSignatureLayer),
        VerifyError::Policy(PolicyError::NoSignature),
        VerifyError::Policy(PolicyError::Rejected(Flaw::BadSignature)),
    ];
    for error in refused {
        assert_eq!(post_file(&Err(error)), Upload::Refuse(Reply::Unsigned));
    }
    assert_eq!(Reply::Unsigned.status(), 401);
    assert_eq!(Reply::Unsigned.body(), "request body must signed by registered key\n");
}

#[test]
fn an_admitted_upload_is_answered_by_how_it_was_saved() {
    assert_eq!(post_file_saved(true), Reply::NoContent);
    assert_eq!(post_file_saved(false), Reply::StoreFailed);
    assert_eq!(Reply::NoContent.status(), 204);
    assert_eq!(Reply::NoContent.body(), "");
    assert_eq!(Reply::StoreFailed.status(), 500);
    assert_eq!(Reply::StoreFailed.body(), "failed to store file\n");
}

#[test]
fn a_delete_is_answered_by_whether_it_removed() {
    assert_eq!(delete_file(true), Reply::NoContent);
    assert_eq!(delete_file(false), Reply::NotFound);
    assert_eq!(delete_file(false).status(), 404);
    assert_eq!(delete_file(false).body(), "no such file\n");
}

#[test]
fn a_signed_upload_is_stored_as_it_came() {
    let alice = trusted_signer("alice@example.org");
    let keyring = keyring_of(&alice);
    let store = Store::new("objects", 60_000_000_000).expect("a store");
    let mut shelf = Shelf::new();
    let signed = signed_by(&alice, b"the file");
    assert_eq!(upload(&keyring, &store, &mut shelf, 5, "docs/file", &signed), Reply::NoContent);
    assert_eq!(store.open(&mut shelf, 5, "docs/file"), Ok(signed));
}

#[test]
fn a_refused_upload_changes_nothing() {
    let alice = trusted_signer("alice@example.org");
    let mallory = trusted_signer("mallory@example.org");
    let keyring = keyring_of(&alice);
    let store = Store::new("objects", 60_000_000_000).expect("a store");
    let mut shelf = Shelf::new();
    let kept = signed_by(&alice, b"the file");
    assert_eq!(upload(&keyring, &store, &mut shelf, 5, "docs/file", &kept), Reply::NoContent);
    let forged = signed_by(&mallory, b"another file");
    assert_eq!(upload(&keyring, &store, &mut shelf, 6, "docs/file", &forged), Reply::Unsigned);
    assert_eq!(upload(&keyring, &store, &mut shelf, 6, "docs/new", &forged), Reply::Unsigned);
    assert_eq!(upload(&keyring, &store, &mut shelf, 6, "docs/raw", b"the file"), Reply::Unsigned);
    assert_eq!(shelf.len(), 1);
    assert_eq!(store.open(&mut shelf, 7, "docs/file"), Ok(kept));
    assert_eq!(store.open(&mut shelf, 7, "docs/new"), Err(StoreError::NotFound));
}

#[test]
fn a_verified_payload_is_saved_under_its_key() {
    let store = Store::new("objects", 60_000_000_000).expect("a store");
    let mut shelf = Shelf::new();
    let reply = finish_upload(&Ok(()), &store, &mut shelf, 5, "docs/file", b"signed bytes");
    assert_eq!(reply, Reply::NoContent);
    assert_eq!(shelf.len(), 1);
    assert_eq!(shelf.read(&store.key_to_path("docs/file")), Some(b"signed bytes".to_vec()));
    assert_eq!(store.open(&mut shelf, 5, "docs/file"), Ok(b"signed bytes".to_vec()));
}

#[test]
fn a_payload_that_was_not_verified_is_not_saved() {
    let store = Store::new("objects", 60_000_000_000).expect("a store");
    let mut shelf = Shelf::new();
    finish_upload(&Ok(()), &store, &mut shelf, 5, "docs/file", b"kept");
    let refusals = [
        VerifyError::Unprocessed,
        VerifyError::Unreadable(String::from("Malformed packet")),
        VerifyError::Policy(PolicyError::NoSignatureLayer),
        VerifyError::Policy(PolicyError::Rejected(Flaw::MissingKey)),
    ];
    for refusal in refusals {
        let verified = Err(refusal);
        assert_eq!(
            finish_upload(&verified, &store, &mut shelf, 6, "docs/file", b"forged"),
            Reply::Unsigned
        );
        assert_eq!(
            finish_upload(&verified, &store, &mut shelf, 6, "docs/new", b"forged"),
            Reply::Unsigned
        );
    }
    assert_eq!(shelf.len(), 1);
    assert_eq!(store.open(&mut shelf, 7, "docs/file"), Ok(b"kept".to_vec()));
}
