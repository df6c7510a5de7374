//! Issuing credentials: minting, rotating, revoking, and taking over the tokens
//! of a legacy store.
//!
//! Each operation comes in two parts. One takes the random bytes and the time as
//! arguments and is exact; the other draws them and says what holds of every
//! draw.
use vstd::prelude::*;
use vstd::string::*;

use crate::auth::{is_structured, looks_structured};
use crate::auth_laws::{law_a_rotation_keeps_the_file_valid, lemma_latest};
use crate::credentials::{
    decode_secret, empty_file, encode_verifier, is_exhausted, is_malformed, is_not_found, is_valid,
    legacy_error, legacy_secret, record_views, verifier_of, verifies, AuthError, CredentialFile,
    CredentialRecord, FileView, RecordView, TOKEN_LEN,
};
use crate::secrets::{
    clock_now, hex_encode, hex_encoded, random_bytes, ClockReading, RandomBytes,
};
use crate::text::{
    chars_of, copy_strings, debug_quoted, decimal, push_decimal, quoted, same_text, string_of,
    texts, trim, trimmed,
};
use crate::timestamp::{earlier_of, moved, Span, Timestamp};

verus! {

/// The initial scope of an ordinary terminal pairing.
pub open spec fn terminal_control_scope() -> Seq<char> {
    "terminal.control"@
}

/// The scope that [`mint_token`] grants.
pub fn terminal_control() -> (scope: String)
    ensures
        scope@ == terminal_control_scope(),
{
    "terminal.control".to_owned()
}

/// A newly minted bearer secret and its identity.
pub struct MintedCredential {
    /// Stable identifier of the credential.
    pub id: String,
    /// The new generation.
    pub generation: u64,
    secret: String,
}

/// The mathematical content of a [`MintedCredential`]; the secret is written in
/// hexadecimal.
#[verifier::ext_equal]
pub struct MintedView {
    pub id: Seq<char>,
    pub generation: u64,
    pub secret: Seq<char>,
}

impl View for MintedCredential {
    type V = MintedView;

    closed spec fn view(&self) -> MintedView {
        MintedView { id: self.id@, generation: self.generation, secret: self.secret@ }
    }
}

impl MintedCredential {
    /// The bearer secret, for one-time delivery to the consumer.
    pub fn secret(&self) -> (s: &str)
        ensures
            s@ == self@.secret,
    {
        self.secret.as_str()
    }

    /// A description that leaves the secret out.
    pub fn redacted(&self) -> (text: String)
        ensures
            text@ == "MintedCredential { id: "@ + quoted(self@.id) + ", generation: "@ + decimal(
                self@.generation as nat,
            ) + ", secret: \"[REDACTED]\" }"@,
    {
        let mut text = "MintedCredential { id: ".to_owned();
        let id = debug_quoted(self.id.as_str());
        text.append(id.as_str());
        text.append(", generation: ");
        push_decimal(&mut text, self.generation);
        text.append(", secret: \"[REDACTED]\" }");
        text
    }
}

/// The error is the random source's.
pub open spec fn is_random(e: AuthError) -> bool {
    e matches AuthError::Random(_)
}

/// The id is 16 drawn bytes in hexadecimal.
pub open spec fn is_drawn_id(id: Seq<char>) -> bool {
    exists|bytes: RandomBytes| bytes@.len() == 16 && id == #[trigger] hex_encoded(bytes@)
}

/// Draw a credential id (16 random bytes in hexadecimal) and a bearer secret.
fn random_identity_and_secret() -> (r: Result<(String, RandomBytes), AuthError>)
    ensures
        match r {
            Ok(pair) => is_drawn_id(pair.0@) && pair.1@.len() == TOKEN_LEN,
            Err(e) => is_random(e),
        },
{
    let id = match random_bytes(16) {
        Ok(bytes) => bytes,
        Err(e) => {
            return Err(AuthError::Random(e));
        },
    };
    let secret = match random_bytes(TOKEN_LEN) {
        Ok(bytes) => bytes,
        Err(e) => {
            return Err(AuthError::Random(e));
        },
    };
    Ok((hex_encode(id.bytes().as_slice()), secret))
}

/// The record of a freshly minted credential. Without a principal it gets one
/// made of its id.
pub open spec fn minted_record(
    id: Seq<char>,
    secret: Seq<u8>,
    principal: Option<&str>,
    scopes: Seq<Seq<char>>,
    expires_at: Option<Timestamp>,
    now: Timestamp,
) -> RecordView {
    RecordView {
        id,
        verifier: verifier_of(secret),
        principal: match principal {
            Some(p) => p@,
            None => "remote-consumer:"@ + id,
        },
        scopes,
        issued_at: now,
        expires_at,
        revoked_at: None,
        generation: 1,
    }
}

/// `after` is `before` with one more record.
pub open spec fn with_record(before: FileView, record: RecordView) -> FileView {
    FileView { credentials: before.credentials.push(record), ..before }
}

/// Add a generation-one credential with the given id and secret, issued `now`.
pub fn mint_with(
    file: &mut CredentialFile,
    id: String,
    secret: &Vec<u8>,
    principal: Option<&str>,
    scopes: &Vec<String>,
    expires_at: Option<Timestamp>,
    now: Timestamp,
) -> (minted: MintedCredential)
    ensures
        final(file)@ == with_record(
            old(file)@,
            minted_record(id@, secret@, principal, texts(scopes@), expires_at, now),
        ),
        verifies(final(file)@.credentials.last(), secret@),
        minted@ == (MintedView { id: id@, generation: 1, secret: hex_encoded(secret@) }),
{
    let owner = match principal {
        Some(p) => p.to_owned(),
        None => {
            let mut p = "remote-consumer:".to_owned();
            p.append(id.as_str());
            p
        },
    };
    let record = CredentialRecord {
        id: id.clone(),
        verifier: encode_verifier(secret.as_slice()),
        principal: owner,
        scopes: copy_strings(scopes),
        issued_at: now,
        expires_at,
        revoked_at: None,
        generation: 1,
    };
    let ghost view = record@;
    file.credentials.push(record);
    proof {
        assert(view == minted_record(
            id@,
            secret@,
            principal,
            texts(scopes@),
            expires_at,
            now,
        ));
        assert(file@.credentials =~= old(file)@.credentials.push(view));
    }
    MintedCredential { id, generation: 1, secret: hex_encode(secret.as_slice()) }
}

/// `minted` and `after` are what minting with a drawn id and secret, at a time that
/// the clock gave, gives.
pub open spec fn is_mint(
    before: FileView,
    after: FileView,
    minted: MintedView,
    principal: Option<&str>,
    scopes: Seq<Seq<char>>,
    expires_at: Option<Timestamp>,
) -> bool {
    exists|id: Seq<char>, secret: RandomBytes, now: ClockReading|
        {
            &&& is_drawn_id(id)
            &&& secret@.len() == TOKEN_LEN
            &&& after == with_record(
                before,
                #[trigger] minted_record(id, secret@, principal, scopes, expires_at, now@),
            )
            &&& verifies(after.credentials.last(), secret@)
            &&& minted == (MintedView { id, generation: 1, secret: hex_encoded(secret@) })
        }
}

/// Mint a structured credential with a random id and secret, issued now. Only
/// the random source can fail, and then nothing is changed.
pub fn mint_credential(
    file: &mut CredentialFile,
    principal: Option<&str>,
    scopes: &Vec<String>,
    expires_at: Option<Timestamp>,
) -> (r: Result<MintedCredential, AuthError>)
    ensures
        match r {
            Ok(minted) => is_mint(
                old(file)@,
                final(file)@,
                minted@,
                principal,
                texts(scopes@),
                expires_at,
            ),
            Err(e) => is_random(e) && final(file)@ == old(file)@,
        },
{
    let (id, secret) = match random_identity_and_secret() {
        Ok(pair) => pair,
        Err(e) => {
            return Err(e);
        },
    };
    let now = clock_now();
    let ghost name = id@;
    let minted = mint_with(
        file,
        id,
        secret.bytes(),
        principal,
        scopes,
        expires_at,
        now.time(),
    );
    proof {
        let record = minted_record(name, secret@, principal, texts(scopes@), expires_at, now@);
        assert(file@ == with_record(old(file)@, record));
    }
    Ok(minted)
}

/// `after` is `before` with a generation-one credential of terminal-only
/// authority, and `token` its secret in hexadecimal.
pub open spec fn is_token_mint(before: FileView, after: FileView, token: Seq<char>) -> bool {
    exists|minted: MintedView| #[trigger]
        is_mint(before, after, minted, None, seq![terminal_control_scope()], None) && token
            == minted.secret
}

/// Mint a generation-one credential with terminal-only authority and give its
/// secret.
pub fn mint_token(file: &mut CredentialFile) -> (r: Result<String, AuthError>)
    ensures
        match r {
            Ok(secret) => is_token_mint(old(file)@, final(file)@, secret@),
            Err(e) => is_random(e) && final(file)@ == old(file)@,
        },
{
    let mut scopes: Vec<String> = Vec::new();
    scopes.push(terminal_control());
    proof {
        assert(texts(scopes@) =~= seq![terminal_control_scope()]);
    }
    match mint_credential(file, None, &scopes, None) {
        Ok(minted) => {
            let ghost view = minted@;
            proof {
                assert(is_mint(
                    old(file)@,
                    file@,
                    view,
                    None,
                    seq![terminal_control_scope()],
                    None,
                ));
            }
            Ok(minted.secret)
        },
        Err(e) => Err(e),
    }
}

/// The index of the last of the first `n` records with the highest generation
/// of credential `id`.
pub open spec fn latest_of(creds: Seq<RecordView>, id: Seq<char>, n: nat) -> Option<int>
    decreases n,
{
    if n == 0 {
        None
    } else {
        let prev = latest_of(creds, id, (n - 1) as nat);
        if creds[n - 1].id == id && (prev is None || creds[prev->0].generation <= creds[n
            - 1].generation) {
            Some(n - 1)
        } else {
            prev
        }
    }
}

/// A record after its credential was rotated: an unrevoked generation ends with
/// the overlap at the latest.
pub open spec fn overlapped(r: RecordView, id: Seq<char>, until: Timestamp) -> RecordView {
    if r.id == id && r.revoked_at is None {
        RecordView {
            expires_at: Some(
                match r.expires_at {
                    Some(expiry) => earlier_of(expiry, until),
                    None => until,
                },
            ),
            ..r
        }
    } else {
        r
    }
}

/// The credential exists and its latest generation is not the last there is.
pub open spec fn can_rotate(file: FileView, id: Seq<char>) -> bool {
    let creds = file.credentials;
    match latest_of(creds, id, creds.len()) {
        Some(k) => creds[k].generation < u64::MAX,
        None => false,
    }
}

/// The number of the generation that a rotation adds.
pub open spec fn next_generation(file: FileView, id: Seq<char>) -> u64 {
    let creds = file.credentials;
    (creds[latest_of(creds, id, creds.len())->0].generation + 1) as u64
}

/// The error is the one that credential `id` is not rotated for: it does not
/// exist, or has no further generation.
pub open spec fn refuses_rotation(e: AuthError, file: FileView, id: Seq<char>) -> bool {
    if latest_of(file.credentials, id, file.credentials.len()) is None {
        is_not_found(e, id)
    } else {
        is_exhausted(e, id)
    }
}

/// The file after credential `id` was rotated: its generations end with the
/// overlap, and a new one with the latest's principal and scopes is added.
pub open spec fn rotated(
    file: FileView,
    id: Seq<char>,
    until: Timestamp,
    now: Timestamp,
    secret: Seq<u8>,
) -> FileView {
    let creds = file.credentials;
    let latest = creds[latest_of(creds, id, creds.len())->0];
    FileView {
        credentials: Seq::new(creds.len(), |i: int| overlapped(creds[i], id, until)).push(
            RecordView {
                id,
                verifier: verifier_of(secret),
                principal: latest.principal,
                scopes: latest.scopes,
                issued_at: now,
                expires_at: None,
                revoked_at: None,
                generation: next_generation(file, id),
            },
        ),
        ..file
    }
}

/// The latest generation of credential `id`.
fn find_latest(file: &CredentialFile, id: &str) -> (k: Option<usize>)
    ensures
        match k {
            Some(k) => k < file.credentials@.len() && latest_of(
                file@.credentials,
                id@,
                file@.credentials.len(),
            ) == Some(k as int),
            None => latest_of(file@.credentials, id@, file@.credentials.len()) is None,
        },
{
    let ghost views = file@.credentials;
    let n = file.credentials.len();
    let mut latest: Option<usize> = None;
    let mut i: usize = 0;
    while i < n
        invariant
            i <= n,
            n == file.credentials@.len(),
            views == record_views(file.credentials@),
            match latest {
                Some(k) => k < i && latest_of(views, id@, i as nat) == Some(k as int),
                None => latest_of(views, id@, i as nat) is None,
            },
        decreases n - i,
    {
        proof {
            assert(views[i as int] == file.credentials@[i as int]@);
        }
        if same_text(file.credentials[i].id.as_str(), id) {
            let newer = match latest {
                Some(k) => {
                    proof {
                        assert(views[k as int] == file.credentials@[k as int]@);
                    }
                    file.credentials[k].generation <= file.credentials[i].generation
                },
                None => true,
            };
            if newer {
                latest = Some(i);
            }
        }
        i = i + 1;
    }
    latest
}

/// Rotate credential `id` at `now` with the given secret: the generations so far
/// stay good until `until` at the latest, the new one from `now` on. The new
/// one's number is above all of theirs; past the last number nothing changes.
pub fn rotate_with(
    file: &mut CredentialFile,
    id: &str,
    until: Timestamp,
    now: Timestamp,
    secret: &Vec<u8>,
) -> (r: Result<MintedCredential, AuthError>)
    ensures
        match r {
            Ok(minted) => {
                let creds = old(file)@.credentials;
                &&& can_rotate(old(file)@, id@)
                &&& final(file)@ == rotated(old(file)@, id@, until, now, secret@)
                &&& verifies(final(file)@.credentials.last(), secret@)
                &&& minted@ == (MintedView {
                    id: id@,
                    generation: next_generation(old(file)@, id@),
                    secret: hex_encoded(secret@),
                })
                &&& forall|i: int|
                    0 <= i < creds.len() && (#[trigger] creds[i]).id == id@ ==> creds[i].generation
                        < minted@.generation
                &&& is_valid(old(file)@) ==> is_valid(final(file)@)
            },
            Err(e) => {
                &&& !can_rotate(old(file)@, id@)
                &&& refuses_rotation(e, old(file)@, id@)
                &&& final(file)@ == old(file)@
            },
        },
{
    let k = match find_latest(file, id) {
        Some(k) => k,
        None => {
            return Err(AuthError::CredentialNotFound(id.to_owned()));
        },
    };
    let ghost was = file@;
    proof {
        assert(was.credentials[k as int] == file.credentials@[k as int]@);
    }
    if file.credentials[k].generation == u64::MAX {
        return Err(AuthError::GenerationsExhausted(id.to_owned()));
    }
    let generation: u64 = file.credentials[k].generation + 1;
    let record = CredentialRecord {
        id: id.to_owned(),
        verifier: encode_verifier(secret.as_slice()),
        principal: file.credentials[k].principal.clone(),
        scopes: copy_strings(&file.credentials[k].scopes),
        issued_at: now,
        expires_at: None,
        revoked_at: None,
        generation,
    };
    let ghost fresh = record@;
    let n = file.credentials.len();
    let mut i: usize = 0;
    while i < n
        invariant
            i <= n,
            n == file.credentials@.len(),
            n == was.credentials.len(),
            file.version == was.version,
            forall|j: int|
                0 <= j < i ==> (#[trigger] file.credentials@[j])@ == overlapped(
                    was.credentials[j],
                    id@,
                    until,
                ),
            forall|j: int|
                i <= j < n ==> (#[trigger] file.credentials@[j])@ == was.credentials[j],
        decreases n - i,
    {
        let here = same_text(file.credentials[i].id.as_str(), id);
        let live = match file.credentials[i].revoked_at {
            Some(_) => false,
            None => true,
        };
        if here && live {
            let end = match file.credentials[i].expires_at {
                Some(expiry) => expiry.earliest(until),
                None => until,
            };
            file.credentials[i].expires_at = Some(end);
        }
        i = i + 1;
    }
    file.credentials.push(record);
    proof {
        assert(file@.credentials =~= rotated(was, id@, until, now, secret@).credentials);
        assert(file@.credentials.last() == fresh);
        lemma_latest(was.credentials, id@, was.credentials.len());
        if is_valid(was) {
            law_a_rotation_keeps_the_file_valid(was, id@, until, now, secret@);
        }
    }
    Ok(
        MintedCredential {
            id: id.to_owned(),
            generation,
            secret: hex_encode(secret.as_slice()),
        },
    )
}

/// Rotate credential `id` at `now` with a bounded overlap and a random secret. A
/// negative overlap counts as none.
pub fn rotate_credential_at(
    file: &mut CredentialFile,
    id: &str,
    overlap: Span,
    now: Timestamp,
) -> (r: Result<MintedCredential, AuthError>)
    requires
        can_rotate(old(file)@, id@) ==> {
            &&& now.wf()
            &&& overlap.nanos < 1_000_000_000
            &&& now.has_room_for(overlap)
        },
    ensures
        rotates(old(file)@, final(file)@, id@, overlap, now, r),
{
    match find_latest(file, id) {
        Some(k) => {
            proof {
                assert(file@.credentials[k as int] == file.credentials@[k as int]@);
            }
            if file.credentials[k].generation == u64::MAX {
                return Err(AuthError::GenerationsExhausted(id.to_owned()));
            }
        },
        None => {
            return Err(AuthError::CredentialNotFound(id.to_owned()));
        },
    }
    let until = now.plus(overlap);
    let secret = match random_bytes(TOKEN_LEN) {
        Ok(bytes) => bytes,
        Err(e) => {
            return Err(AuthError::Random(e));
        },
    };
    let r = rotate_with(file, id, until, now, secret.bytes());
    proof {
        assert(file@ == rotated(old(file)@, id@, until, now, secret@));
    }
    r
}

/// `r` and `after` are an outcome of rotating credential `id` at `now`: it is
/// reported missing, or without a further generation, exactly when it is;
/// otherwise either the random source failed and nothing changed, or some secret
/// was added as its next generation, numbered above all of its earlier ones.
pub open spec fn rotates(
    before: FileView,
    after: FileView,
    id: Seq<char>,
    overlap: Span,
    now: Timestamp,
    r: Result<MintedCredential, AuthError>,
) -> bool {
    let creds = before.credentials;
    match r {
        Ok(minted) => {
            &&& can_rotate(before, id)
            &&& forall|i: int|
                0 <= i < creds.len() && (#[trigger] creds[i]).id == id ==> creds[i].generation
                    < minted@.generation
            &&& is_valid(before) ==> is_valid(after)
            &&& exists|secret: RandomBytes|
                {
                    &&& secret@.len() == TOKEN_LEN
                    &&& after == #[trigger] rotated(
                        before,
                        id,
                        moved(now, overlap),
                        now,
                        secret@,
                    )
                    &&& verifies(after.credentials.last(), secret@)
                    &&& minted@ == (MintedView {
                        id,
                        generation: next_generation(before, id),
                        secret: hex_encoded(secret@),
                    })
                }
        },
        Err(e) => {
            &&& after == before
            &&& if can_rotate(before, id) {
                is_random(e)
            } else {
                refuses_rotation(e, before, id)
            }
        },
    }
}

/// Rotate credential `id` now. For a credential that has a further generation, an
/// overlap past the end of the calendar is refused, and nothing changes.
pub fn rotate_credential(file: &mut CredentialFile, id: &str, overlap: Span) -> (r: Result<
    MintedCredential,
    AuthError,
>)
    requires
        overlap.nanos < 1_000_000_000,
    ensures
        exists|now: ClockReading|
            #![trigger now@.has_room_for(overlap)]
            now@.is_ordinary() && if now@.has_room_for(overlap) || !can_rotate(old(file)@, id@) {
                rotates(old(file)@, final(file)@, id@, overlap, now@, r)
            } else {
                r matches Err(AuthError::OverlapOutOfRange) && final(file)@ == old(file)@
            },
{
    let now = clock_now();
    let rotatable = match find_latest(file, id) {
        Some(k) => {
            proof {
                assert(file@.credentials[k as int] == file.credentials@[k as int]@);
            }
            file.credentials[k].generation < u64::MAX
        },
        None => false,
    };
    let ghost room = now@.has_room_for(overlap);
    if rotatable && !now.time().can_add(overlap) {
        return Err(AuthError::OverlapOutOfRange);
    }
    rotate_credential_at(file, id, overlap, now.time())
}

/// A record after credential `id` was revoked at `now`.
pub open spec fn revoked(r: RecordView, id: Seq<char>, now: Timestamp) -> RecordView {
    if r.id == id {
        RecordView { revoked_at: Some(now), ..r }
    } else {
        r
    }
}

/// The credential occurs in the file.
pub open spec fn has_credential(file: FileView, id: Seq<char>) -> bool {
    exists|i: int| 0 <= i < file.credentials.len() && (#[trigger] file.credentials[i]).id == id
}

/// The file after every generation of credential `id` was revoked at `now`.
pub open spec fn all_revoked(file: FileView, id: Seq<char>, now: Timestamp) -> FileView {
    FileView {
        credentials: Seq::new(
            file.credentials.len(),
            |i: int| revoked(file.credentials[i], id, now),
        ),
        ..file
    }
}

/// Revoke every generation of credential `id` at `now`.
pub fn revoke_at(file: &mut CredentialFile, id: &str, now: Timestamp) -> (r: Result<(), AuthError>)
    ensures
        match r {
            Ok(_) => has_credential(old(file)@, id@) && final(file)@ == all_revoked(
                old(file)@,
                id@,
                now,
            ),
            Err(e) => !has_credential(old(file)@, id@) && is_not_found(e, id@) && final(file)@
                == old(file)@,
        },
{
    let ghost was = file@;
    let n = file.credentials.len();
    let mut found = false;
    let mut i: usize = 0;
    while i < n
        invariant
            i <= n,
            n == file.credentials@.len(),
            n == was.credentials.len(),
            file.version == was.version,
            found == (exists|j: int| 0 <= j < i && (#[trigger] was.credentials[j]).id == id@),
            forall|j: int|
                0 <= j < i ==> (#[trigger] file.credentials@[j])@ == revoked(
                    was.credentials[j],
                    id@,
                    now,
                ),
            forall|j: int|
                i <= j < n ==> (#[trigger] file.credentials@[j])@ == was.credentials[j],
        decreases n - i,
    {
        proof {
            assert(file.credentials@[i as int]@ == was.credentials[i as int]);
        }
        if same_text(file.credentials[i].id.as_str(), id) {
            file.credentials[i].revoked_at = Some(now);
            found = true;
            proof {
                assert(was.credentials[i as int].id == id@);
            }
        }
        i = i + 1;
    }
    if !found {
        proof {
            assert(file@.credentials =~= was.credentials) by {
                assert forall|j: int| 0 <= j < n implies #[trigger] file@.credentials[j]
                    == was.credentials[j] by {
                    assert(file.credentials@[j]@ == revoked(was.credentials[j], id@, now));
                }
            }
        }
        return Err(AuthError::CredentialNotFound(id.to_owned()));
    }
    proof {
        assert(file@.credentials =~= all_revoked(was, id@, now).credentials);
    }
    Ok(())
}

/// Revoke every generation of credential `id` for future connection attempts.
pub fn revoke_credential(file: &mut CredentialFile, id: &str) -> (r: Result<(), AuthError>)
    ensures
        match r {
            Ok(_) => has_credential(old(file)@, id@) && exists|now: ClockReading|
                final(file)@ == #[trigger] all_revoked(old(file)@, id@, now@),
            Err(e) => !has_credential(old(file)@, id@) && is_not_found(e, id@) && final(file)@
                == old(file)@,
        },
{
    let now = clock_now();
    revoke_at(file, id, now.time())
}

/// The lines of a text: what stands between newlines.
pub open spec fn lines_of(s: Seq<char>) -> Seq<Seq<char>>
    decreases s.len(),
{
    if s.len() == 0 {
        seq![Seq::empty()]
    } else {
        let before = lines_of(s.drop_last());
        if s.last() == '\n' {
            before.push(Seq::empty())
        } else {
            before.drop_last().push(before.last().push(s.last()))
        }
    }
}

/// The tokens among some lines: each line trimmed, blank and `#` lines left out.
pub open spec fn tokens_of(lines: Seq<Seq<char>>) -> Seq<Seq<char>>
    decreases lines.len(),
{
    if lines.len() == 0 {
        Seq::empty()
    } else {
        let before = tokens_of(lines.drop_last());
        let line = trimmed(lines.last());
        if line.len() == 0 || line[0] == '#' {
            before
        } else {
            before.push(line)
        }
    }
}

/// The tokens of a legacy store.
pub open spec fn legacy_token_lines(raw: Seq<char>) -> Seq<Seq<char>> {
    tokens_of(lines_of(raw))
}

/// Add the token of one line, if it has one.
fn push_token(tokens: &mut Vec<String>, line: &Vec<char>)
    ensures
        texts(final(tokens)@) == ({
            let t = trimmed(line@);
            if t.len() == 0 || t[0] == '#' {
                texts(old(tokens)@)
            } else {
                texts(old(tokens)@).push(t)
            }
        }),
{
    let text = string_of(line);
    let token = trim(text.as_str());
    if token.len() > 0 && token[0] != '#' {
        let token_text = string_of(&token);
        tokens.push(token_text);
        proof {
            assert(texts(tokens@) =~= texts(old(tokens)@).push(token@));
        }
    }
}

/// The tokens of a legacy store.
pub fn legacy_tokens(raw: &str) -> (tokens: Vec<String>)
    ensures
        texts(tokens@) == legacy_token_lines(raw@),
{
    let chars = chars_of(raw);
    let mut tokens: Vec<String> = Vec::new();
    let mut line: Vec<char> = Vec::new();
    let ghost mut done: Seq<Seq<char>> = Seq::empty();
    let mut i: usize = 0;
    proof {
        assert(texts(tokens@) =~= tokens_of(done));
        assert(raw@.take(0) =~= Seq::<char>::empty());
        assert(lines_of(raw@.take(0)) =~= done.push(line@));
    }
    while i < chars.len()
        invariant
            i <= chars.len(),
            chars@ == raw@,
            lines_of(raw@.take(i as int)) == done.push(line@),
            texts(tokens@) == tokens_of(done),
        decreases chars.len() - i,
    {
        let c = chars[i];
        proof {
            assert(raw@.take(i + 1).drop_last() =~= raw@.take(i as int));
            assert(raw@.take(i + 1).last() == c);
            assert(done.push(line@).drop_last() =~= done);
        }
        if c == '\n' {
            push_token(&mut tokens, &line);
            proof {
                done = done.push(line@);
                assert(done.drop_last() =~= done.take(done.len() - 1));
            }
            line = Vec::new();
            proof {
                assert(line@ =~= Seq::<char>::empty());
            }
        } else {
            line.push(c);
        }
        i = i + 1;
    }
    proof {
        assert(raw@.take(i as int) =~= raw@);
        assert(done.push(line@).drop_last() =~= done);
    }
    push_token(&mut tokens, &line);
    tokens
}

/// The generation-one record of a legacy token.
pub open spec fn migrated_record(secret: Seq<u8>, id: Seq<char>, now: Timestamp) -> RecordView {
    RecordView {
        id,
        verifier: verifier_of(secret),
        principal: "legacy-remote-consumer:"@ + id,
        scopes: seq![terminal_control_scope()],
        issued_at: now,
        expires_at: None,
        revoked_at: None,
        generation: 1,
    }
}

/// The file that legacy tokens become under the given ids.
pub open spec fn migrated(tokens: Seq<Seq<char>>, ids: Seq<Seq<char>>, now: Timestamp) -> FileView {
    FileView {
        credentials: Seq::new(
            tokens.len(),
            |i: int| migrated_record(legacy_secret(tokens[i])->0, ids[i], now),
        ),
        ..empty_file()
    }
}

/// The first token that cannot be read.
pub open spec fn is_first_bad(tokens: Seq<Seq<char>>, k: int) -> bool {
    &&& 0 <= k < tokens.len()
    &&& legacy_error(tokens[k]) is Some
    &&& forall|j: int| 0 <= j < k ==> legacy_error(#[trigger] tokens[j]) is None
}

/// Every token can be read.
pub open spec fn all_readable(tokens: Seq<Seq<char>>) -> bool {
    forall|j: int| 0 <= j < tokens.len() ==> legacy_error(#[trigger] tokens[j]) is None
}

fn legacy_record(secret: &Vec<u8>, id: &str, now: Timestamp) -> (r: CredentialRecord)
    ensures
        r@ == migrated_record(secret@, id@, now),
        verifies(r@, secret@),
{
    let mut principal = "legacy-remote-consumer:".to_owned();
    principal.append(id);
    let mut scopes: Vec<String> = Vec::new();
    scopes.push(terminal_control());
    proof {
        assert(texts(scopes@) =~= seq![terminal_control_scope()]);
    }
    CredentialRecord {
        id: id.to_owned(),
        verifier: encode_verifier(secret.as_slice()),
        principal,
        scopes,
        issued_at: now,
        expires_at: None,
        revoked_at: None,
        generation: 1,
    }
}

/// Convert anonymous token lines to generation-one records under the given ids,
/// one per token.
pub fn migrate_with(raw: &str, ids: &Vec<String>, now: Timestamp) -> (r: Result<
    CredentialFile,
    AuthError,
>)
    requires
        ids@.len() == legacy_token_lines(raw@).len(),
    ensures
        ({
            let tokens = legacy_token_lines(raw@);
            match r {
                Ok(file) => {
                    &&& !looks_structured(raw@)
                    &&& all_readable(tokens)
                    &&& file@ == migrated(tokens, texts(ids@), now)
                    &&& forall|i: int|
                        0 <= i < tokens.len() ==> verifies(
                            #[trigger] file@.credentials[i],
                            legacy_secret(tokens[i])->0,
                        )
                },
                Err(e) => if looks_structured(raw@) {
                    is_malformed(e, "credential store is already structured"@)
                } else {
                    exists|k: int| #[trigger]
                        is_first_bad(tokens, k) && is_malformed(e, legacy_error(tokens[k])->0)
                },
            }
        }),
{
    if is_structured(raw) {
        return Err(AuthError::Malformed("credential store is already structured".to_owned()));
    }
    let tokens = legacy_tokens(raw);
    let ghost lines = legacy_token_lines(raw@);
    let mut file = CredentialFile::default();
    let mut i: usize = 0;
    proof {
        assert(file@.credentials.len() == 0);
    }
    while i < tokens.len()
        invariant
            i <= tokens.len(),
            !looks_structured(raw@),
            lines == legacy_token_lines(raw@),
            texts(tokens@) == lines,
            ids@.len() == lines.len(),
            file.version == empty_file().version,
            file.credentials@.len() == i,
            forall|j: int| 0 <= j < i ==> legacy_error(#[trigger] lines[j]) is None,
            forall|j: int|
                0 <= j < i ==> (#[trigger] file.credentials@[j])@ == migrated_record(
                    legacy_secret(lines[j])->0,
                    texts(ids@)[j],
                    now,
                ) && verifies(file.credentials@[j]@, legacy_secret(lines[j])->0),
        decreases tokens.len() - i,
    {
        proof {
            assert(lines[i as int] == tokens@[i as int]@);
        }
        let secret = match decode_secret(tokens[i].as_str()) {
            Ok(secret) => secret,
            Err(e) => {
                proof {
                    assert(is_first_bad(lines, i as int));
                }
                return Err(e);
            },
        };
        let record = legacy_record(&secret, ids[i].as_str(), now);
        file.credentials.push(record);
        i = i + 1;
    }
    proof {
        assert(file@.credentials =~= migrated(lines, texts(ids@), now).credentials);
        assert forall|j: int| 0 <= j < lines.len() implies verifies(
            #[trigger] file@.credentials[j],
            legacy_secret(lines[j])->0,
        ) by {
            assert(file.credentials@[j]@ == file@.credentials[j]);
        }
    }
    Ok(file)
}

/// Convert anonymous token lines to generation-one records with random ids. A
/// structured store is refused; so is the first token that cannot be read,
/// unless the random source fails before it is reached.
pub fn migrate_legacy_store(raw: &str) -> (r: Result<CredentialFile, AuthError>)
    ensures
        ({
            let tokens = legacy_token_lines(raw@);
            match r {
                Ok(file) => {
                    &&& !looks_structured(raw@)
                    &&& all_readable(tokens)
                    &&& exists|ids: Seq<Seq<char>>, now: ClockReading|
                        {
                            &&& ids.len() == tokens.len()
                            &&& forall|i: int| 0 <= i < ids.len() ==> is_drawn_id(#[trigger] ids[i])
                            &&& file@ == #[trigger] migrated(tokens, ids, now@)
                        }
                    &&& forall|i: int|
                        0 <= i < tokens.len() ==> verifies(
                            #[trigger] file@.credentials[i],
                            legacy_secret(tokens[i])->0,
                        )
                },
                Err(e) => if looks_structured(raw@) {
                    is_malformed(e, "credential store is already structured"@)
                } else {
                    is_random(e) || exists|k: int| #[trigger]
                        is_first_bad(tokens, k) && is_malformed(e, legacy_error(tokens[k])->0)
                },
            }
        }),
{
    if is_structured(raw) {
        return Err(AuthError::Malformed("credential store is already structured".to_owned()));
    }
    let now = clock_now();
    let tokens = legacy_tokens(raw);
    let ghost lines = legacy_token_lines(raw@);
    let mut ids: Vec<String> = Vec::new();
    let mut i: usize = 0;
    while i < tokens.len()
        invariant
            i <= tokens.len(),
            !looks_structured(raw@),
            lines == legacy_token_lines(raw@),
            texts(tokens@) == lines,
            ids@.len() == i,
            forall|j: int| 0 <= j < i ==> legacy_error(#[trigger] lines[j]) is None,
            forall|j: int| 0 <= j < i ==> is_drawn_id((#[trigger] ids@[j])@),
        decreases tokens.len() - i,
    {
        proof {
            assert(lines[i as int] == tokens@[i as int]@);
        }
        match decode_secret(tokens[i].as_str()) {
            Ok(_) => {},
            Err(e) => {
                proof {
                    assert(is_first_bad(lines, i as int));
                }
                return Err(e);
            },
        }
        match random_identity_and_secret() {
            Ok(pair) => {
                ids.push(pair.0);
            },
            Err(e) => {
                return Err(e);
            },
        }
        i = i + 1;
    }
    let r = migrate_with(raw, &ids, now.time());
    proof {
        assert(all_readable(lines));
        if r is Ok {
            assert(r->Ok_0@ == migrated(lines, texts(ids@), now@));
            assert forall|j: int| 0 <= j < texts(ids@).len() implies is_drawn_id(
                #[trigger] texts(ids@)[j],
            ) by {
                assert(is_drawn_id(ids@[j]@));
            }
        }
    }
    r
}

} // verus!
