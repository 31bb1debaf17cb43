//! The verification gate: the keyring of trusted signers, and the policy that
//! judges the structure of a signed message.

use sequoia_openpgp::cert::CertParser;
use sequoia_openpgp::parse::stream::{
    MessageLayer, MessageStructure, VerificationError, VerificationHelper, VerifierBuilder,
};
use sequoia_openpgp::parse::Parse;
use sequoia_openpgp::policy::StandardPolicy;
use sequoia_openpgp::{Cert, KeyHandle};
use vstd::prelude::*;

verus! {

/// `sequoia_openpgp::Cert`: the certificate of a signer. It is carried, not
/// read.
#[verifier::external_type_specification]
#[verifier::external_body]
pub struct ExCert(Cert);

/// `sequoia_openpgp::parse::stream::MessageStructure`: the layers of a
/// processed message, as the OpenPGP library reports them.
#[verifier::external_type_specification]
#[verifier::external_body]
pub struct ExMessageStructure<'a>(MessageStructure<'a>);

/// `sequoia_openpgp::parse::stream::MessageLayer`: one layer of a message
/// structure.
#[verifier::external_type_specification]
#[verifier::external_body]
pub struct ExMessageLayer<'a>(MessageLayer<'a>);

/// `sequoia_openpgp::KeyHandle`: the handle of a key, by which the OpenPGP
/// library asks for certificates.
#[verifier::external_type_specification]
#[verifier::external_body]
pub struct ExKeyHandle(KeyHandle);

/// `anyhow::Error`: the error that the OpenPGP library passes on.
#[verifier::external_type_specification]
#[verifier::external_body]
pub struct ExAnyhowError(anyhow::Error);

/// Why one signature was not accepted.
#[derive(Clone, Copy, Debug, PartialEq, Eq, Structural)]
pub enum Flaw {
    /// The signature is malformed.
    MalformedSignature,
    /// No certificate of the keyring holds the signing key.
    MissingKey,
    /// The signing key is not bound to its certificate.
    UnboundKey,
    /// The signing key is expired, revoked or otherwise unusable.
    BadKey,
    /// The signature does not match the signed content.
    BadSignature,
}

/// The result of verifying one signature.
#[derive(Clone, Copy, Debug, PartialEq, Eq, Structural)]
pub enum Verdict {
    /// A valid signature by a key of the keyring.
    Good,
    /// A signature that was not accepted.
    Bad(Flaw),
}

/// One layer of a message.
#[derive(Debug, PartialEq, Eq)]
pub enum Layer {
    /// A compression container.
    Compression,
    /// An encryption container.
    Encryption,
    /// The signatures over the same content, each with its verdict.
    SignatureGroup {
        /// The verdicts, in the order in which the signatures were found.
        results: Vec<Verdict>,
    },
}

/// Why the policy does not admit a message.
#[derive(Clone, Copy, Debug, PartialEq, Eq, Structural)]
pub enum PolicyError {
    /// The message has no signature layer.
    NoSignatureLayer,
    /// The first signature layer holds no signature.
    NoSignature,
    /// The first signature of the first signature layer was not accepted.
    Rejected(Flaw),
}

/// Why a message was not admitted.
#[derive(Debug, PartialEq, Eq)]
pub enum VerifyError {
    /// The policy refused the message.
    Policy(PolicyError),
    /// The message could not be processed; the text says why.
    Unreadable(String),
    /// The message was not processed to its end, so nothing judged it.
    Unprocessed,
}

/// Why a keyring could not be loaded.
#[derive(Debug, PartialEq, Eq)]
pub enum KeyLoadError {
    /// The keyring could not be parsed; the text says why.
    Malformed(String),
    /// The keyring holds no certificate.
    Empty,
}

impl PolicyError {
    /// The text that reports the error.
    pub open spec fn reason(self) -> Seq<char> {
        match self {
            PolicyError::NoSignatureLayer => "signature verification failed"@,
            PolicyError::NoSignature => "No signature"@,
            PolicyError::Rejected(Flaw::MalformedSignature) => "Malformed signature"@,
            PolicyError::Rejected(Flaw::MissingKey) => "Missing key"@,
            PolicyError::Rejected(Flaw::UnboundKey) => "Unbound key"@,
            PolicyError::Rejected(Flaw::BadKey) => "Bad key"@,
            PolicyError::Rejected(Flaw::BadSignature) => "Bad signature"@,
        }
    }

    /// The text that reports the error.
    pub fn message(&self) -> (text: &'static str)
        ensures
            text@ == self.reason(),
    {
        match self {
            PolicyError::NoSignatureLayer => "signature verification failed",
            PolicyError::NoSignature => "No signature",
            PolicyError::Rejected(Flaw::MalformedSignature) => "Malformed signature",
            PolicyError::Rejected(Flaw::MissingKey) => "Missing key",
            PolicyError::Rejected(Flaw::UnboundKey) => "Unbound key",
            PolicyError::Rejected(Flaw::BadKey) => "Bad key",
            PolicyError::Rejected(Flaw::BadSignature) => "Bad signature",
        }
    }
}

proof fn lemma_reason_marks(error: PolicyError)
    ensures
        error.reason().len() == match error {
            PolicyError::NoSignatureLayer => 29nat,
            PolicyError::NoSignature => 12nat,
            PolicyError::Rejected(Flaw::MalformedSignature) => 19nat,
            PolicyError::Rejected(Flaw::MissingKey) => 11nat,
            PolicyError::Rejected(Flaw::UnboundKey) => 11nat,
            PolicyError::Rejected(Flaw::BadKey) => 7nat,
            PolicyError::Rejected(Flaw::BadSignature) => 13nat,
        },
        error == PolicyError::Rejected(Flaw::MissingKey) ==> error.reason()[0] == 'M',
        error == PolicyError::Rejected(Flaw::UnboundKey) ==> error.reason()[0] == 'U',
{
    reveal_strlit("signature verification failed");
    reveal_strlit("No signature");
    reveal_strlit("Malformed signature");
    reveal_strlit("Missing key");
    reveal_strlit("Unbound key");
    reveal_strlit("Bad key");
    reveal_strlit("Bad signature");
}

/// Errors with the same text are the same error.
pub proof fn law_texts_tell_errors_apart(one: PolicyError, other: PolicyError)
    requires
        one.reason() == other.reason(),
    ensures
        one == other,
{
    lemma_reason_marks(one);
    lemma_reason_marks(other);
}

/// The layers that a message structure holds, outermost first.
pub uninterp spec fn structure_layers(structure: MessageStructure) -> Seq<Layer>;

/// What the first verdict of a signature layer decides.
pub open spec fn judge_group(results: Seq<Verdict>) -> Result<(), PolicyError> {
    if results.len() == 0 {
        Err(PolicyError::NoSignature)
    } else {
        match results[0] {
            Verdict::Good => Ok(()),
            Verdict::Bad(flaw) => Err(PolicyError::Rejected(flaw)),
        }
    }
}

/// The policy: the first signature layer decides, by its first verdict; a
/// message without a signature layer is not admitted.
pub open spec fn judge(layers: Seq<Layer>) -> Result<(), PolicyError>
    decreases layers.len(),
{
    if layers.len() == 0 {
        Err(PolicyError::NoSignatureLayer)
    } else {
        match layers[0] {
            Layer::SignatureGroup { results } => judge_group(results@),
            _ => judge(layers.drop_first()),
        }
    }
}

/// The layer at `i` is the first signature layer.
pub open spec fn first_signature_layer(layers: Seq<Layer>, i: int) -> bool {
    &&& 0 <= i < layers.len()
    &&& layers[i] is SignatureGroup
    &&& forall|j: int| 0 <= j < i ==> !(layers[j] is SignatureGroup)
}

/// Only the first signature layer counts, and of it only the first verdict,
/// whatever the layers around it and its other verdicts are. A message
/// without a signature layer is refused.
pub proof fn law_first_signature_layer_decides(layers: Seq<Layer>)
    ensures
        forall|i: int|
            first_signature_layer(layers, i) ==> judge(layers) == judge_group(
                layers[i]->results@,
            ),
        (forall|i: int| 0 <= i < layers.len() ==> !(#[trigger] layers[i] is SignatureGroup))
            <==> judge(layers) == Err::<(), PolicyError>(PolicyError::NoSignatureLayer),
        judge(layers) is Ok <==> exists|i: int|
            first_signature_layer(layers, i) && layers[i]->results@.len() > 0
                && layers[i]->results@[0] == Verdict::Good,
    decreases layers.len(),
{
    if layers.len() > 0 {
        let rest = layers.drop_first();
        law_first_signature_layer_decides(rest);
        if layers[0] is SignatureGroup {
            assert(first_signature_layer(layers, 0));
            assert forall|i: int| first_signature_layer(layers, i) implies i == 0 by {}
        } else {
            assert forall|i: int| first_signature_layer(layers, i) implies judge(layers)
                == judge_group(layers[i]->results@) by {
                assert(rest[i - 1] == layers[i]);
                assert(first_signature_layer(rest, i - 1)) by {
                    assert forall|j: int| 0 <= j < i - 1 implies !(rest[j] is SignatureGroup) by {
                        assert(rest[j] == layers[j + 1]);
                    }
                }
            }
            if forall|i: int| 0 <= i < rest.len() ==> !(#[trigger] rest[i] is SignatureGroup) {
                assert forall|i: int| 0 <= i < layers.len() implies !(
                #[trigger] layers[i] is SignatureGroup) by {
                    if i > 0 {
                        assert(rest[i - 1] == layers[i]);
                    }
                }
            } else {
                let i = choose|i: int| 0 <= i < rest.len() && #[trigger] rest[i] is SignatureGroup;
                assert(layers[i + 1] == rest[i]);
            }
            if judge(layers) is Ok {
                let i = choose|i: int|
                    first_signature_layer(rest, i) && rest[i]->results@.len() > 0
                        && rest[i]->results@[0] == Verdict::Good;
                assert(layers[i + 1] == rest[i]);
                assert(first_signature_layer(layers, i + 1)) by {
                    assert forall|j: int| 0 <= j < i + 1 implies !(layers[j] is SignatureGroup) by {
                        if j > 0 {
                            assert(rest[j - 1] == layers[j]);
                        }
                    }
                }
            }
        }
    }
}

/// Walks `MessageStructure::into_iter` and maps each `MessageLayer`, and each
/// `VerificationResult` of a signature group, to the variant that stands for
/// it here. The contract names the outcome the layers of the structure.
#[verifier::external_body]
fn layers_of(structure: MessageStructure) -> (layers: Vec<Layer>)
    ensures
        layers@ == structure_layers(structure),
{
    structure.into_iter().map(|layer| match layer {
        MessageLayer::Compression { .. } => Layer::Compression,
        MessageLayer::Encryption { .. } => Layer::Encryption,
        MessageLayer::SignatureGroup { results } => Layer::SignatureGroup { results: results.into_iter().map(|r| match r {
            Ok(_) => Verdict::Good,
            Err(VerificationError::MalformedSignature { .. }) => Verdict::Bad(Flaw::MalformedSignature),
            Err(VerificationError::MissingKey { .. }) => Verdict::Bad(Flaw::MissingKey),
            Err(VerificationError::UnboundKey { .. }) => Verdict::Bad(Flaw::UnboundKey),
            Err(VerificationError::BadKey { .. }) => Verdict::Bad(Flaw::BadKey),
            Err(VerificationError::BadSignature { .. }) => Verdict::Bad(Flaw::BadSignature),
        }).collect() },
    }).collect()
}

/// `Cert` derives `Clone`: the copy has the fields of the certificate.
pub assume_specification[ <Cert as Clone>::clone ](cert: &Cert) -> (copy: Cert)
    ensures
        copy == *cert,
;

/// What the parser makes of the bytes of a keyring, without the certificates
/// themselves: nothing where it cannot start, else for each record the text
/// of its error, or nothing where the record is a certificate.
pub uninterp spec fn keyring_outline(bytes: Seq<u8>) -> Option<Seq<Option<Seq<char>>>>;

/// The outline of what a parser handed out.
pub open spec fn outline_of(parsed: Result<Vec<Result<Cert, String>>, String>) -> Option<
    Seq<Option<Seq<char>>>,
> {
    match parsed {
        Ok(records) => Some(
            Seq::new(
                records@.len(),
                |i: int|
                    match records@[i] {
                        Ok(_) => None,
                        Err(text) => Some(text@),
                    },
            ),
        ),
        Err(_) => None,
    }
}

/// Calls `CertParser::from_bytes` and collects what the parser yields: one
/// record for each certificate, or the text of the error in its place. The
/// outer error is that of a parser that could not start. Which records are
/// certificates, and the texts of the errors, depend on the bytes alone; the
/// contract gives that outline a name.
#[verifier::external_body]
fn read_keyring(bytes: &[u8]) -> (parsed: Result<Vec<Result<Cert, String>>, String>)
    ensures
        outline_of(parsed) == keyring_outline(bytes@),
{
    match CertParser::from_bytes(bytes) {
        Ok(parser) => Ok(parser.map(|record| record.map_err(|e| e.to_string())).collect()),
        Err(e) => Err(e.to_string()),
    }
}

/// The record at `i` is the first that is marked with an error.
pub open spec fn first_marked(outline: Seq<Option<Seq<char>>>, i: int) -> bool {
    &&& 0 <= i < outline.len()
    &&& outline[i] is Some
    &&& forall|j: int| 0 <= j < i ==> outline[j] is None
}

/// The certificates of parsed records.
pub open spec fn certs_of(records: Seq<Result<Cert, String>>) -> Seq<Cert> {
    Seq::new(records.len(), |i: int| records[i]->Ok_0)
}

/// The record at `i` is the first that failed to parse.
pub open spec fn first_failure(records: Seq<Result<Cert, String>>, i: int) -> bool {
    &&& 0 <= i < records.len()
    &&& records[i] is Err
    &&& forall|j: int| 0 <= j < i ==> records[j] is Ok
}

/// The keyring: the certificates of the trusted signers. It is never empty.
pub struct Verificator {
    certs_: Vec<Cert>,
}

impl View for Verificator {
    type V = Seq<Cert>;

    closed spec fn view(&self) -> Seq<Cert> {
        self.certs_@
    }
}

impl Clone for Verificator {
    fn clone(&self) -> (copy: Verificator)
        ensures
            copy@ == self@,
    {
        proof {
            use_type_invariant(self);
        }
        Verificator { certs_: self.certs() }
    }
}

impl Verificator {
    #[verifier::type_invariant]
    spec fn holds_a_signer(&self) -> bool {
        self.certs_@.len() > 0
    }

    /// Builds the keyring from parsed records. Every record has to be a
    /// certificate, and there has to be one at least; else the error is that
    /// of the first record that failed, or says that there was none.
    pub fn from_records(records: &Vec<Result<Cert, String>>) -> (loaded: Result<
        Verificator,
        KeyLoadError,
    >)
        ensures
            match loaded {
                Ok(keyring) => records@.len() > 0 && keyring@ == certs_of(records@) && forall|
                    i: int,
                |
                    0 <= i < records@.len() ==> records@[i] is Ok,
                Err(KeyLoadError::Empty) => records@.len() == 0,
                Err(KeyLoadError::Malformed(message)) => exists|i: int|
                    first_failure(records@, i) && message@ == records@[i]->Err_0@,
            },
    {
        let mut certs: Vec<Cert> = Vec::new();
        let mut i: usize = 0;
        while i < records.len()
            invariant
                i <= records.len(),
                forall|j: int| 0 <= j < i ==> records@[j] is Ok,
                certs@ == certs_of(records@.take(i as int)),
            decreases records.len() - i,
        {
            match &records[i] {
                Ok(cert) => {
                    certs.push(cert.clone());
                    proof {
                        assert(certs@ =~= certs_of(records@.take(i as int + 1)));
                    }
                },
                Err(message) => {
                    assert(first_failure(records@, i as int));
                    return Err(KeyLoadError::Malformed(message.clone()));
                },
            }
            i += 1;
        }
        proof {
            assert(records@.take(records.len() as int) =~= records@);
        }
        if certs.len() == 0 {
            return Err(KeyLoadError::Empty);
        }
        Ok(Verificator { certs_: certs })
    }

    /// Loads the keyring from the bytes of one or more certificates. It fails
    /// where the bytes cannot be parsed as certificates throughout, or hold
    /// no certificate.
    pub fn from_bytes(bytes: &[u8]) -> (loaded: Result<Verificator, KeyLoadError>)
        ensures
            match keyring_outline(bytes@) {
                None => loaded matches Err(KeyLoadError::Malformed(_)),
                Some(outline) => match loaded {
                    Ok(keyring) => outline.len() > 0 && keyring@.len() == outline.len() && forall|
                        i: int,
                    |
                        0 <= i < outline.len() ==> outline[i] is None,
                    Err(KeyLoadError::Empty) => outline.len() == 0,
                    Err(KeyLoadError::Malformed(message)) => exists|i: int|
                        first_marked(outline, i) && outline[i] == Some(message@),
                },
            },
    {
        match read_keyring(bytes) {
            Ok(records) => {
                let ghost outline = keyring_outline(bytes@)->0;
                let loaded = Verificator::from_records(&records);
                proof {
                    assert(outline.len() == records@.len());
                    assert forall|i: int| 0 <= i < outline.len() implies (outline[i] is None
                        <==> records@[i] is Ok) by {}
                    if let Ok(keyring) = &loaded {
                        assert(keyring@.len() == records@.len());
                    }
                    if let Err(KeyLoadError::Malformed(message)) = &loaded {
                        let i = choose|i: int|
                            first_failure(records@, i) && message@ == records@[i]->Err_0@;
                        assert(first_marked(outline, i));
                    }
                }
                loaded
            },
            Err(message) => Err(KeyLoadError::Malformed(message)),
        }
    }

    /// The certificates of the trusted signers.
    pub fn certs(&self) -> (certs: Vec<Cert>)
        ensures
            certs@ == self@,
            certs@.len() > 0,
    {
        proof {
            use_type_invariant(self);
        }
        let mut certs: Vec<Cert> = Vec::new();
        let mut i: usize = 0;
        while i < self.certs_.len()
            invariant
                i <= self.certs_.len(),
                certs@ == self.certs_@.take(i as int),
            decreases self.certs_.len() - i,
        {
            certs.push(self.certs_[i].clone());
            proof {
                assert(certs@ =~= self.certs_@.take(i as int + 1));
            }
            i += 1;
        }
        proof {
            assert(self.certs_@.take(self.certs_.len() as int) =~= self.certs_@);
        }
        certs
    }
}

/// Judges the layers of a message.
pub fn check_layers(layers: &Vec<Layer>) -> (outcome: Result<(), PolicyError>)
    ensures
        outcome == judge(layers@),
{
    let mut i: usize = 0;
    assert(layers@.skip(0) =~= layers@);
    while i < layers.len()
        invariant
            i <= layers.len(),
            judge(layers@) == judge(layers@.skip(i as int)),
        decreases layers.len() - i,
    {
        proof {
            assert(layers@.skip(i as int).drop_first() =~= layers@.skip(i as int + 1));
        }
        match &layers[i] {
            Layer::SignatureGroup { results } => {
                if results.len() == 0 {
                    return Err(PolicyError::NoSignature);
                }
                return match results[0] {
                    Verdict::Good => Ok(()),
                    Verdict::Bad(flaw) => Err(PolicyError::Rejected(flaw)),
                };
            },
            _ => {},
        }
        i += 1;
    }
    Err(PolicyError::NoSignatureLayer)
}

/// Judges a message by the structure that the OpenPGP library found in it.
pub fn check(structure: MessageStructure) -> (outcome: Result<(), PolicyError>)
    ensures
        outcome == judge(structure_layers(structure)),
{
    let layers = layers_of(structure);
    check_layers(&layers)
}

/// The text that an error shows.
pub uninterp spec fn error_text(error: anyhow::Error) -> Seq<char>;

/// Calls `anyhow::Error::msg` with a copy of `text`. The error shows the
/// message that it was made of.
#[verifier::external_body]
fn refusal(text: &str) -> (error: anyhow::Error)
    ensures
        error_text(error) == text@,
{
    anyhow::Error::msg(text.to_owned())
}

/// The keyring as the helper of the OpenPGP library's verifier: it offers all
/// its certificates, and approves the structures that the policy admits. A
/// structure that the policy refuses is refused with an error that shows the
/// text of the policy's error, by which `settle` knows it again.
impl VerificationHelper for &Verificator {
    fn get_certs(&mut self, _ids: &[KeyHandle]) -> (certs: Result<Vec<Cert>, anyhow::Error>)
        ensures
            certs matches Ok(all) && all@ == old(self)@,
            *final(self) == *old(self),
    {
        Ok(self.certs())
    }

    fn check(&mut self, structure: MessageStructure) -> (outcome: Result<(), anyhow::Error>)
        ensures
            match judge(structure_layers(structure)) {
                Ok(_) => outcome is Ok,
                Err(error) => outcome matches Err(shown) && error_text(shown) == error.reason(),
            },
            *final(self) == *old(self),
    {
        match check(structure) {
            Ok(()) => Ok(()),
            Err(error) => Err(refusal(error.message())),
        }
    }
}

/// Builds a verifier of `signed` with `VerifierBuilder::from_bytes` and
/// `VerifierBuilder::with_policy`, under `StandardPolicy::new()` at the present
/// time and with the keyring as its helper, reads it to its end with
/// `std::io::copy`, and asks `Verifier::message_processed`. An error comes
/// back as its text. The outcome depends on the time, and nothing is claimed
/// of it.
#[verifier::external_body]
fn run_verifier(keyring: &Verificator, signed: &[u8]) -> (ran: Result<bool, String>) {
    let policy = StandardPolicy::new();
    let mut verifier = VerifierBuilder::from_bytes(signed)
        .and_then(|builder| builder.with_policy(&policy, None, keyring))
        .map_err(|e| e.to_string())?;
    std::io::copy(&mut verifier, &mut std::io::sink()).map_err(|e| e.to_string())?;
    Ok(verifier.message_processed())
}

/// Whether `text` is the text of `error`.
fn says(text: &String, error: PolicyError) -> (same: bool)
    ensures
        same == (text@ == error.reason()),
{
    let wanted: String = error.message().to_owned();
    *text == wanted
}

/// The policy error that a text reports, if it reports one.
pub fn classify(text: &String) -> (found: Option<PolicyError>)
    ensures
        match found {
            Some(error) => text@ == error.reason(),
            None => forall|error: PolicyError| text@ != error.reason(),
        },
{
    if says(text, PolicyError::NoSignatureLayer) {
        Some(PolicyError::NoSignatureLayer)
    } else if says(text, PolicyError::NoSignature) {
        Some(PolicyError::NoSignature)
    } else if says(text, PolicyError::Rejected(Flaw::MalformedSignature)) {
        Some(PolicyError::Rejected(Flaw::MalformedSignature))
    } else if says(text, PolicyError::Rejected(Flaw::MissingKey)) {
        Some(PolicyError::Rejected(Flaw::MissingKey))
    } else if says(text, PolicyError::Rejected(Flaw::UnboundKey)) {
        Some(PolicyError::Rejected(Flaw::UnboundKey))
    } else if says(text, PolicyError::Rejected(Flaw::BadKey)) {
        Some(PolicyError::Rejected(Flaw::BadKey))
    } else if says(text, PolicyError::Rejected(Flaw::BadSignature)) {
        Some(PolicyError::Rejected(Flaw::BadSignature))
    } else {
        None
    }
}

/// What becomes of a message, by how its verification ran.
pub open spec fn settled(ran: Result<bool, String>) -> Result<(), VerifyError> {
    match ran {
        Ok(processed) => if processed {
            Ok(())
        } else {
            Err(VerifyError::Unprocessed)
        },
        Err(text) => if exists|error: PolicyError| text@ == error.reason() {
            Err(VerifyError::Policy(choose|error: PolicyError| text@ == error.reason()))
        } else {
            Err(VerifyError::Unreadable(text))
        },
    }
}

/// A run that ended with the text of a policy error settles as that error,
/// and a run that ended with any error settles as an error: nothing but a
/// run that was processed to its end without an error is admitted.
pub proof fn law_only_a_clean_run_is_admitted(ran: Result<bool, String>, error: PolicyError)
    ensures
        settled(ran) is Ok <==> ran == Ok::<bool, String>(true),
        ran matches Err(text) && text@ == error.reason() ==> settled(ran) == Err::<
            (),
            VerifyError,
        >(VerifyError::Policy(error)),
{
    if let Err(text) = ran {
        if text@ == error.reason() {
            let chosen = choose|other: PolicyError| text@ == other.reason();
            law_texts_tell_errors_apart(error, chosen);
        }
    }
}

/// Decides on a message by how its verification ran. It is admitted where
/// the verifier processed it to its end without an error. An error whose text
/// is that of a policy error is that error; any other text is kept as it is.
pub fn settle(ran: Result<bool, String>) -> (outcome: Result<(), VerifyError>)
    ensures
        outcome == settled(ran),
{
    match ran {
        Ok(true) => Ok(()),
        Ok(false) => Err(VerifyError::Unprocessed),
        Err(text) => match classify(&text) {
            Some(error) => {
                proof {
                    let chosen = choose|other: PolicyError| text@ == other.reason();
                    law_texts_tell_errors_apart(error, chosen);
                }
                Err(VerifyError::Policy(error))
            },
            None => Err(VerifyError::Unreadable(text)),
        },
    }
}

impl Verificator {
    /// Verifies a signed message against the keyring. The message is admitted
    /// where the OpenPGP library processed all of it and the policy approved
    /// its structure. How the verifier runs is the OpenPGP library's to say,
    /// and depends on the time; whatever it reports, the outcome is what
    /// `settle` makes of the run.
    pub fn verify_bytes(&self, signed: &[u8]) -> (outcome: Result<(), VerifyError>)
        ensures
            exists|ran: Result<bool, String>| outcome == #[trigger] settled(ran),
    {
        let ran = run_verifier(self, signed);
        let ghost run = ran;
        let outcome = settle(ran);
        assert(outcome == settled(run));
        outcome
    }
}

} // verus!
