//! Credential records and the rules a credential file obeys.
use vstd::prelude::*;
use vstd::string::*;

use crate::secrets::{
    constant_time_eq, hex_decode, hex_decoded, hex_encode, hex_encoded, lemma_hex_roundtrip,
    sha256, sha256_digest,
};
use crate::text::{
    copy_strings, decimal, has_prefix, push_decimal, same_text, strip_prefix, texts,
};
use crate::timestamp::{earlier, Timestamp};

verus! {

/// Length in bytes of a bearer secret.
pub const TOKEN_LEN: usize = 32;

/// The version of the credential file.
pub const STORE_VERSION: u32 = 1;

/// Errors from loading or changing credentials.
#[derive(Debug)]
pub enum AuthError {
    /// The credential file could not be read or written.
    Io(String),
    /// The operating system's random source failed.
    Random(getrandom::Error),
    /// The structured store could not be decoded or breaks its rules.
    Malformed(String),
    /// Anonymous token lines require an explicit one-time conversion.
    LegacyMigrationRequired,
    /// A requested credential does not exist.
    CredentialNotFound(String),
    /// The credential already has the last generation there is.
    GenerationsExhausted(String),
    /// An overlap would end after the last day of the calendar.
    OverlapOutOfRange,
}

/// The error is a malformed store with this description.
pub open spec fn is_malformed(e: AuthError, what: Seq<char>) -> bool {
    match e {
        AuthError::Malformed(m) => m@ == what,
        _ => false,
    }
}

/// The error says that this credential does not exist.
pub open spec fn is_not_found(e: AuthError, id: Seq<char>) -> bool {
    match e {
        AuthError::CredentialNotFound(m) => m@ == id,
        _ => false,
    }
}

/// The error says that this credential has no further generation.
pub open spec fn is_exhausted(e: AuthError, id: Seq<char>) -> bool {
    match e {
        AuthError::GenerationsExhausted(m) => m@ == id,
        _ => false,
    }
}

/// One generation of a credential. Rotation keeps the generation before it for
/// a while, so records are told apart by id and generation together.
#[derive(Debug)]
pub struct CredentialRecord {
    pub id: String,
    pub verifier: String,
    pub principal: String,
    pub scopes: Vec<String>,
    pub issued_at: Timestamp,
    pub expires_at: Option<Timestamp>,
    pub revoked_at: Option<Timestamp>,
    pub generation: u64,
}

/// The mathematical content of a [`CredentialRecord`].
#[verifier::ext_equal]
pub struct RecordView {
    pub id: Seq<char>,
    pub verifier: Seq<char>,
    pub principal: Seq<char>,
    pub scopes: Seq<Seq<char>>,
    pub issued_at: Timestamp,
    pub expires_at: Option<Timestamp>,
    pub revoked_at: Option<Timestamp>,
    pub generation: u64,
}

impl View for CredentialRecord {
    type V = RecordView;

    open spec fn view(&self) -> RecordView {
        RecordView {
            id: self.id@,
            verifier: self.verifier@,
            principal: self.principal@,
            scopes: texts(self.scopes@),
            issued_at: self.issued_at,
            expires_at: self.expires_at,
            revoked_at: self.revoked_at,
            generation: self.generation,
        }
    }
}

/// The views of a list of records.
pub open spec fn record_views(records: Seq<CredentialRecord>) -> Seq<RecordView> {
    Seq::new(records.len(), |i: int| records[i]@)
}

/// The contents of a credential file.
#[derive(Debug)]
pub struct CredentialFile {
    pub version: u32,
    pub credentials: Vec<CredentialRecord>,
}

/// The mathematical content of a [`CredentialFile`].
#[verifier::ext_equal]
pub struct FileView {
    pub version: u32,
    pub credentials: Seq<RecordView>,
}

impl View for CredentialFile {
    type V = FileView;

    open spec fn view(&self) -> FileView {
        FileView { version: self.version, credentials: record_views(self.credentials@) }
    }
}

/// A file of the current version without credentials.
pub open spec fn empty_file() -> FileView {
    FileView { version: STORE_VERSION, credentials: Seq::empty() }
}

impl Default for CredentialFile {
    fn default() -> (f: CredentialFile)
        ensures
            f@ == empty_file(),
    {
        let f = CredentialFile { version: STORE_VERSION, credentials: Vec::new() };
        proof {
            assert(f@.credentials =~= Seq::<RecordView>::empty());
        }
        f
    }
}

/// The verifier of a secret: `sha256:` and the digest in hexadecimal.
pub open spec fn verifier_of(secret: Seq<u8>) -> Seq<char> {
    "sha256:"@ + hex_encoded(sha256(secret))
}

/// What is wrong with a verifier.
pub open spec fn verifier_error(encoded: Seq<char>) -> Option<Seq<char>> {
    if !has_prefix(encoded, "sha256:"@) {
        Some("credential verifier must use sha256"@)
    } else {
        match hex_decoded(encoded.skip("sha256:"@.len() as int)) {
            None => Some("credential verifier is not hex"@),
            Some(bytes) => if bytes.len() != 32 {
                Some("credential verifier has wrong length"@)
            } else {
                None
            },
        }
    }
}

/// The digest a verifier holds.
pub open spec fn verifier_bytes(encoded: Seq<char>) -> Option<Seq<u8>> {
    if verifier_error(encoded) is None {
        hex_decoded(encoded.skip("sha256:"@.len() as int))
    } else {
        None
    }
}

/// The record's verifier holds the digest of `presented`.
pub open spec fn verifies(r: RecordView, presented: Seq<u8>) -> bool {
    verifier_bytes(r.verifier) == Some(sha256(presented))
}

/// The record admits at `now`: not revoked, not expired, already issued.
pub open spec fn is_active(r: RecordView, now: Timestamp) -> bool {
    &&& r.revoked_at is None
    &&& match r.expires_at {
        Some(expiry) => earlier(now, expiry),
        None => true,
    }
    &&& !earlier(now, r.issued_at)
}

/// An earlier record has the same id and generation.
pub open spec fn repeats_earlier(creds: Seq<RecordView>, k: int) -> bool {
    exists|j: int|
        0 <= j < k && (#[trigger] creds[j]).id == creds[k].id && creds[j].generation
            == creds[k].generation
}

/// What is wrong with the `k`-th record.
pub open spec fn record_error(creds: Seq<RecordView>, k: int) -> Option<Seq<char>> {
    let r = creds[k];
    if r.id.len() == 0 || r.principal.len() == 0 || r.generation == 0 {
        Some("credential id, principal, and generation must be present"@)
    } else if verifier_error(r.verifier) is Some {
        verifier_error(r.verifier)
    } else if repeats_earlier(creds, k) {
        Some(
            "duplicate credential generation "@ + r.id + ":"@ + decimal(r.generation as nat),
        )
    } else {
        None
    }
}

/// The first thing wrong with the first `n` records.
pub open spec fn first_error(creds: Seq<RecordView>, n: nat) -> Option<Seq<char>>
    decreases n,
{
    if n == 0 {
        None
    } else {
        match first_error(creds, (n - 1) as nat) {
            Some(e) => Some(e),
            None => record_error(creds, n - 1),
        }
    }
}

/// The first thing wrong with a credential file.
pub open spec fn file_error(file: FileView) -> Option<Seq<char>> {
    if file.version != STORE_VERSION {
        Some("unsupported version "@ + decimal(file.version as nat) + " (expected 1)"@)
    } else {
        first_error(file.credentials, file.credentials.len())
    }
}

/// The file obeys the rules: current version, every record complete with a
/// usable verifier, no generation of a credential twice.
pub open spec fn is_valid(file: FileView) -> bool {
    file_error(file) is None
}

/// A stored verifier holds the digest it was made from: decoding undoes
/// encoding.
pub proof fn law_a_verifier_holds_its_digest(secret: Seq<u8>)
    requires
        sha256(secret).len() == 32,
    ensures
        verifier_bytes(verifier_of(secret)) == Some(sha256(secret)),
{
    let text = verifier_of(secret);
    lemma_hex_roundtrip(sha256(secret));
    assert(text.take("sha256:"@.len() as int) =~= "sha256:"@);
    assert(text.skip("sha256:"@.len() as int) =~= hex_encoded(sha256(secret)));
}

/// The verifier to store for a secret. It holds the secret's digest.
pub fn encode_verifier(secret: &[u8]) -> (text: String)
    ensures
        text@ == verifier_of(secret@),
        verifier_bytes(text@) == Some(sha256(secret@)),
{
    let digest = sha256_digest(secret);
    let mut text = "sha256:".to_owned();
    let digits = hex_encode(digest.as_slice());
    text.append(digits.as_str());
    proof {
        law_a_verifier_holds_its_digest(secret@);
    }
    text
}

/// The digest a stored verifier holds.
pub fn decode_verifier(encoded: &str) -> (bytes: Result<Vec<u8>, AuthError>)
    ensures
        match bytes {
            Ok(v) => verifier_bytes(encoded@) == Some(v@) && v@.len() == 32,
            Err(e) => verifier_error(encoded@) is Some && is_malformed(
                e,
                verifier_error(encoded@)->0,
            ),
        },
{
    let digits = match strip_prefix(encoded, "sha256:") {
        Some(digits) => digits,
        None => {
            return Err(AuthError::Malformed("credential verifier must use sha256".to_owned()));
        },
    };
    let bytes = match hex_decode(digits.as_str()) {
        Ok(bytes) => bytes,
        Err(_) => {
            return Err(AuthError::Malformed("credential verifier is not hex".to_owned()));
        },
    };
    if bytes.len() != 32 {
        return Err(AuthError::Malformed("credential verifier has wrong length".to_owned()));
    }
    Ok(bytes)
}

/// The secret that a legacy token line writes.
pub open spec fn legacy_secret(encoded: Seq<char>) -> Option<Seq<u8>> {
    match hex_decoded(encoded) {
        Some(bytes) => if bytes.len() == TOKEN_LEN {
            Some(bytes)
        } else {
            None
        },
        None => None,
    }
}

/// What is wrong with a legacy token line.
pub open spec fn legacy_error(encoded: Seq<char>) -> Option<Seq<char>> {
    match hex_decoded(encoded) {
        None => Some("legacy token is not hex"@),
        Some(bytes) => if bytes.len() != TOKEN_LEN {
            Some("legacy token has wrong length"@)
        } else {
            None
        },
    }
}

/// Read the secret of a legacy token line.
pub fn decode_secret(encoded: &str) -> (secret: Result<Vec<u8>, AuthError>)
    ensures
        match secret {
            Ok(v) => legacy_secret(encoded@) == Some(v@),
            Err(e) => legacy_error(encoded@) is Some && is_malformed(
                e,
                legacy_error(encoded@)->0,
            ),
        },
{
    let bytes = match hex_decode(encoded) {
        Ok(bytes) => bytes,
        Err(_) => {
            return Err(AuthError::Malformed("legacy token is not hex".to_owned()));
        },
    };
    if bytes.len() != TOKEN_LEN {
        return Err(AuthError::Malformed("legacy token has wrong length".to_owned()));
    }
    Ok(bytes)
}

/// Whether the record admits at `now`.
pub fn active_at(r: &CredentialRecord, now: Timestamp) -> (b: bool)
    ensures
        b == is_active(r@, now),
{
    let unrevoked = match r.revoked_at {
        Some(_) => false,
        None => true,
    };
    let unexpired = match r.expires_at {
        Some(expiry) => now.is_before(expiry),
        None => true,
    };
    unrevoked && unexpired && !now.is_before(r.issued_at)
}

/// Whether the record's verifier holds the digest `candidate`.
pub fn holds_digest(r: &CredentialRecord, candidate: &Vec<u8>) -> (b: bool)
    ensures
        b == (verifier_bytes(r@.verifier) == Some(candidate@)),
{
    match decode_verifier(r.verifier.as_str()) {
        Ok(stored) => constant_time_eq(stored.as_slice(), candidate.as_slice()),
        Err(_) => false,
    }
}

/// Whether an earlier record has the id and generation of the `k`-th.
fn is_repeat(creds: &Vec<CredentialRecord>, k: usize) -> (b: bool)
    requires
        k < creds@.len(),
    ensures
        b == repeats_earlier(record_views(creds@), k as int),
{
    let ghost views = record_views(creds@);
    let mut j: usize = 0;
    while j < k
        invariant
            j <= k < creds@.len(),
            views == record_views(creds@),
            forall|i: int|
                0 <= i < j ==> !((#[trigger] views[i]).id == views[k as int].id
                    && views[i].generation == views[k as int].generation),
        decreases k - j,
    {
        if creds[j].generation == creds[k].generation && same_text(
            creds[j].id.as_str(),
            creds[k].id.as_str(),
        ) {
            proof {
                assert(views[j as int].id == views[k as int].id);
            }
            return true;
        }
        j = j + 1;
    }
    false
}

/// The message of a repeated generation.
fn repeat_message(id: &str, generation: u64) -> (text: String)
    ensures
        text@ == "duplicate credential generation "@ + id@ + ":"@ + decimal(generation as nat),
{
    let mut text = "duplicate credential generation ".to_owned();
    text.append(id);
    text.append(":");
    push_decimal(&mut text, generation);
    text
}

/// Check a credential file against its rules.
pub fn validate_file(file: &CredentialFile) -> (r: Result<(), AuthError>)
    ensures
        match r {
            Ok(_) => is_valid(file@),
            Err(e) => file_error(file@) is Some && is_malformed(e, file_error(file@)->0),
        },
{
    if file.version != STORE_VERSION {
        let mut text = "unsupported version ".to_owned();
        push_decimal(&mut text, file.version as u64);
        text.append(" (expected 1)");
        return Err(AuthError::Malformed(text));
    }
    let ghost views = file@.credentials;
    let n = file.credentials.len();
    let mut k: usize = 0;
    while k < n
        invariant
            k <= n,
            n == file.credentials@.len(),
            views == record_views(file.credentials@),
            file@.version == STORE_VERSION,
            file@.credentials == views,
            first_error(views, k as nat) is None,
        decreases n - k,
    {
        let record = &file.credentials[k];
        let ghost error = record_error(views, k as int);
        proof {
            assert(views[k as int] == record@);
            assert(first_error(views, (k + 1) as nat) == error);
            if error is Some {
                lemma_first_error_stands(views, (k + 1) as nat, n as nat);
            }
        }
        if record.id.as_str().is_empty() || record.principal.as_str().is_empty()
            || record.generation == 0 {
            return Err(
                AuthError::Malformed(
                    "credential id, principal, and generation must be present".to_owned(),
                ),
            );
        }
        match decode_verifier(record.verifier.as_str()) {
            Ok(_) => {},
            Err(e) => {
                return Err(e);
            },
        }
        if is_repeat(&file.credentials, k) {
            return Err(
                AuthError::Malformed(repeat_message(record.id.as_str(), record.generation)),
            );
        }
        k = k + 1;
    }
    Ok(())
}

proof fn lemma_first_error_stands(creds: Seq<RecordView>, k: nat, n: nat)
    requires
        k <= n,
        first_error(creds, k) is Some,
    ensures
        first_error(creds, n) == first_error(creds, k),
    decreases n,
{
    if k < n {
        lemma_first_error_stands(creds, k, (n - 1) as nat);
    }
}

/// A copy of a record.
pub fn copy_record(r: &CredentialRecord) -> (copy: CredentialRecord)
    ensures
        copy@ == r@,
{
    CredentialRecord {
        id: r.id.clone(),
        verifier: r.verifier.clone(),
        principal: r.principal.clone(),
        scopes: copy_strings(&r.scopes),
        issued_at: r.issued_at,
        expires_at: r.expires_at,
        revoked_at: r.revoked_at,
        generation: r.generation,
    }
}

} // verus!
