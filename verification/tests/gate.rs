use std::io::Write;
use std::time::{Duration, SystemTime};

use sequoia_openpgp::cert::CertBuilder;
use sequoia_openpgp::policy::StandardPolicy;
use sequoia_openpgp::serialize::stream::{LiteralWriter, Message, Signer};
use sequoia_openpgp::serialize::Serialize;
use sequoia_openpgp::types::ReasonForRevocation;
use sequoia_openpgp::Cert;
use signed_store::gate::{
    check_layers, classify, settle, Flaw, KeyLoadError, Layer, PolicyError, Verdict, Verificator,
    VerifyError,
};

fn new_signer(user: &str) -> Cert {
    let (cert, _) = CertBuilder::general_purpose(None, Some(user))
        .generate()
        .expect("a certificate");
    cert
}

fn keyring_bytes(certs: &[&Cert]) -> Vec<u8> {
    let mut bytes = Vec::new();
    for cert in certs {
        cert.serialize(&mut bytes).expect("a serialized certificate");
    }
    bytes
}

fn sign(cert: &Cert, payload: &[u8]) -> Vec<u8> {
    sign_as_of(cert, SystemTime::now(), payload)
}

fn sign_as_of(cert: &Cert, valid_at: SystemTime, payload: &[u8]) -> Vec<u8> {
    let policy = StandardPolicy::new();
    let keypair = cert
        .keys()
        .unencrypted_secret()
        .with_policy(&policy, valid_at)
        .supported()
        .for_signing()
        .next()
        .expect("a signing key")
        .key()
        .clone()
        .into_keypair()
        .expect("a key pair");
    let mut sink = Vec::new();
    {
        let message = Message::new(&mut sink);
        let signer = Signer::new(message, keypair).build().expect("a signer");
        let mut writer = LiteralWriter::new(signer).build().expect("a writer");
        writer.write_all(payload).expect("written");
        writer.finalize().expect("finalized");
    }
    sink
}

fn unsigned(payload: &[u8]) -> Vec<u8> {
    let mut sink = Vec::new();
    {
        let message = Message::new(&mut sink);
        let mut writer = LiteralWriter::new(message).build().expect("a writer");
        writer.write_all(payload).expect("written");
        writer.finalize().expect("finalized");
    }
    sink
}

fn position(haystack: &[u8], needle: &[u8]) -> usize {
    haystack
        .windows(needle.len())
        .position(|window| window == needle)
        .expect("the payload inside the message")
}

#[test]
fn accepts_a_payload_signed_by_a_trusted_identity() {
    let alice = new_signer("alice@example.org");
    let keyring = Verificator::from_bytes(&keyring_bytes(&[&alice])).expect("a keyring");
    let signed = sign(&alice, b"a payload to store");
    assert_eq!(keyring.verify_bytes(&signed), Ok(()));
}

#[test]
fn accepts_a_signer_that_is_second_in_the_keyring() {
    let alice = new_signer("alice@example.org");
    let bob = new_signer("bob@example.org");
    let keyring = Verificator::from_bytes(&keyring_bytes(&[&alice, &bob])).expect("a keyring");
    assert_eq!(keyring.certs().len(), 2);
    let signed = sign(&bob, b"a payload to store");
    assert_eq!(keyring.verify_bytes(&signed), Ok(()));
}

#[test]
fn rejects_a_payload_with_one_byte_flipped() {
    let alice = new_signer("alice@example.org");
    let keyring = Verificator::from_bytes(&keyring_bytes(&[&alice])).expect("a keyring");
    let payload = b"a payload to store";
    let mut signed = sign(&alice, payload);
    assert_eq!(keyring.verify_bytes(&signed), Ok(()));
    let at = position(&signed, payload);
    signed[at + 3] ^= 0x01;
    assert_eq!(
        keyring.verify_bytes(&signed),
        Err(VerifyError::Policy(PolicyError::Rejected(Flaw::BadSignature)))
    );
}

#[test]
fn rejects_a_payload_signed_by_an_unknown_identity() {
    let alice = new_signer("alice@example.org");
    let mallory = new_signer("mallory@example.org");
    let keyring = Verificator::from_bytes(&keyring_bytes(&[&alice])).expect("a keyring");
    let signed = sign(&mallory, b"a payload to store");
    assert_eq!(
        keyring.verify_bytes(&signed),
        Err(VerifyError::Policy(PolicyError::Rejected(Flaw::MissingKey)))
    );
}

#[test]
fn rejects_a_payload_signed_by_an_expired_key() {
    let yesterday = SystemTime::now() - Duration::from_secs(86_400);
    let (old, _) = CertBuilder::general_purpose(None, Some("old@example.org"))
        .set_creation_time(yesterday)
        .set_validity_period(Duration::from_secs(3_600))
        .generate()
        .expect("a certificate");
    let keyring = Verificator::from_bytes(&keyring_bytes(&[&old])).expect("a keyring");
    let signed = sign_as_of(&old, yesterday, b"a payload to store");
    assert_eq!(
        keyring.verify_bytes(&signed),
        Err(VerifyError::Policy(PolicyError::Rejected(Flaw::BadKey)))
    );
}

#[test]
fn rejects_a_payload_signed_by_a_revoked_key() {
    let carol = new_signer("carol@example.org");
    let mut primary = carol
        .primary_key()
        .key()
        .clone()
        .parts_into_secret()
        .expect("a secret key")
        .into_keypair()
        .expect("a key pair");
    let revocation = carol
        .revoke(&mut primary, ReasonForRevocation::KeyCompromised, b"compromised")
        .expect("a revocation");
    let revoked = carol.clone().insert_packets(revocation).expect("a revoked certificate");
    let keyring = Verificator::from_bytes(&keyring_bytes(&[&revoked])).expect("a keyring");
    let signed = sign(&carol, b"a payload to store");
    assert_eq!(
        keyring.verify_bytes(&signed),
        Err(VerifyError::Policy(PolicyError::Rejected(Flaw::BadKey)))
    );
}

#[test]
fn accepts_a_signed_payload_too_large_to_buffer() {
    let alice = new_signer("alice@example.org");
    let keyring = Verificator::from_bytes(&keyring_bytes(&[&alice])).expect("a keyring");
    let payload = vec![0x5a_u8; 26 * 1024 * 1024];
    assert_eq!(keyring.verify_bytes(&sign(&alice, &payload)), Ok(()));
}

#[test]
fn rejects_an_unknown_signer_of_a_payload_too_large_to_buffer() {
    let alice = new_signer("alice@example.org");
    let mallory = new_signer("mallory@example.org");
    let keyring = Verificator::from_bytes(&keyring_bytes(&[&alice])).expect("a keyring");
    let payload = vec![0x5a_u8; 26 * 1024 * 1024];
    assert_eq!(
        keyring.verify_bytes(&sign(&mallory, &payload)),
        Err(VerifyError::Policy(PolicyError::Rejected(Flaw::MissingKey)))
    );
}

#[test]
fn rejects_a_payload_without_a_signature_layer() {
    let alice = new_signer("alice@example.org");
    let keyring = Verificator::from_bytes(&keyring_bytes(&[&alice])).expect("a keyring");
    assert_eq!(
        keyring.verify_bytes(&unsigned(b"a payload to store")),
        Err(VerifyError::Policy(PolicyError::NoSignatureLayer))
    );
}

#[test]
fn rejects_bytes_that_are_no_message() {
    let alice = new_signer("alice@example.org");
    let keyring = Verificator::from_bytes(&keyring_bytes(&[&alice])).expect("a keyring");
    let outcome = keyring.verify_bytes(b"these bytes are not an OpenPGP message");
    assert!(matches!(outcome, Err(VerifyError::Unreadable(_))));
}

#[test]
fn an_empty_keyring_is_not_loaded() {
    assert_eq!(Verificator::from_bytes(b"").err(), Some(KeyLoadError::Empty));
    assert_eq!(Verificator::from_records(&Vec::new()).err(), Some(KeyLoadError::Empty));
}

#[test]
fn a_malformed_keyring_is_not_loaded() {
    let loaded = Verificator::from_bytes(b"this is no keyring at all");
    assert!(matches!(loaded, Err(KeyLoadError::Malformed(_))));
}

#[test]
fn the_first_failed_record_names_the_error() {
    let alice = new_signer("alice@example.org");
    let records = vec![
        Ok(alice.clone()),
        Err(String::from("first")),
        Ok(alice),
        Err(String::from("second")),
    ];
    assert_eq!(
        Verificator::from_records(&records).err(),
        Some(KeyLoadError::Malformed(String::from("first")))
    );
}

#[test]
fn records_that_all_parsed_make_the_keyring() {
    let alice = new_signer("alice@example.org");
    let bob = new_signer("bob@example.org");
    let records = vec![Ok(alice.clone()), Ok(bob.clone())];
    let keyring = Verificator::from_records(&records).expect("a keyring");
    assert_eq!(keyring.certs(), vec![alice, bob]);
    assert_eq!(keyring.clone().certs(), keyring.certs());
}

#[test]
fn the_first_verdict_of_the_first_signature_layer_decides() {
    let good_first = vec![
        Layer::Compression,
        Layer::SignatureGroup { results: vec![Verdict::Good, Verdict::Bad(Flaw::BadKey)] },
        Layer::SignatureGroup { results: vec![Verdict::Bad(Flaw::BadSignature)] },
    ];
    assert_eq!(check_layers(&good_first), Ok(()));
    let bad_first = vec![
        Layer::Encryption,
        Layer::Compression,
        Layer::SignatureGroup { results: vec![Verdict::Bad(Flaw::UnboundKey), Verdict::Good] },
        Layer::SignatureGroup { results: vec![Verdict::Good] },
    ];
    assert_eq!(check_layers(&bad_first), Err(PolicyError::Rejected(Flaw::UnboundKey)));
}

#[test]
fn an_empty_signature_layer_is_no_signature() {
    let layers = vec![
        Layer::SignatureGroup { results: vec![] },
        Layer::SignatureGroup { results: vec![Verdict::Good] },
    ];
    assert_eq!(check_layers(&layers), Err(PolicyError::NoSignature));
}

#[test]
fn no_signature_layer_is_refused() {
    assert_eq!(check_layers(&vec![]), Err(PolicyError::NoSignatureLayer));
    assert_eq!(
        check_layers(&vec![Layer::Compression, Layer::Encryption]),
        Err(PolicyError::NoSignatureLayer)
    );
}

#[test]
fn each_policy_error_has_its_text() {
    assert_eq!(PolicyError::NoSignatureLayer.message(), "signature verification failed");
    assert_eq!(PolicyError::NoSignature.message(), "No signature");
    assert_eq!(PolicyError::Rejected(Flaw::MalformedSignature).message(), "Malformed signature");
    assert_eq!(PolicyError::Rejected(Flaw::MissingKey).message(), "Missing key");
    assert_eq!(PolicyError::Rejected(Flaw::UnboundKey).message(), "Unbound key");
    assert_eq!(PolicyError::Rejected(Flaw::BadKey).message(), "Bad key");
    assert_eq!(PolicyError::Rejected(Flaw::BadSignature).message(), "Bad signature");
}

#[test]
fn a_run_settles_by_its_outcome() {
    assert_eq!(settle(Ok(true)), Ok(()));
    assert_eq!(settle(Ok(false)), Err(VerifyError::Unprocessed));
    assert_eq!(
        settle(Err(String::from("Bad signature"))),
        Err(VerifyError::Policy(PolicyError::Rejected(Flaw::BadSignature)))
    );
    assert_eq!(
        settle(Err(String::from("No signature"))),
        Err(VerifyError::Policy(PolicyError::NoSignature))
    );
    assert_eq!(
        settle(Err(String::from("Malformed packet: truncated"))),
        Err(VerifyError::Unreadable(String::from("Malformed packet: truncated")))
    );
}

#[test]
fn a_text_is_classified_by_the_error_that_it_reports() {
    let errors = [
        PolicyError::NoSignatureLayer,
        PolicyError::NoSignature,
        PolicyError::Rejected(Flaw::MalformedSignature),
        PolicyError::Rejected(Flaw::MissingKey),
        PolicyError::Rejected(Flaw::UnboundKey),
        PolicyError::Rejected(Flaw::BadKey),
        PolicyError::Rejected(Flaw::BadSignature),
    ];
    for error in errors {
        assert_eq!(classify(&String::from(error.message())), Some(error));
    }
    assert_eq!(classify(&String::from("Bad")), None);
    assert_eq!(classify(&String::from("bad key")), None);
    assert_eq!(classify(&String::new()), None);
}
