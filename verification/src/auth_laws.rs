//! What holds of credentials across operations.
use vstd::prelude::*;

use crate::auth::{
    accepted, attestation_of, authentication, loads_decoded, must_reread, refreshed,
    AttestationView, CacheView, Stamp, TokenStore,
};
use crate::credentials::{
    empty_file, first_error, is_active, is_valid, law_a_verifier_holds_its_digest, legacy_secret,
    record_error, repeats_earlier, verifier_bytes, verifies, AuthError, CredentialFile, FileView, RecordView,
    STORE_VERSION, TOKEN_LEN,
};
use crate::issuing::{
    all_revoked, can_rotate, has_credential, is_drawn_id, is_mint, is_token_mint, latest_of,
    migrated, minted_record, overlapped, revoked, rotated, terminal_control_scope, with_record,
    MintedView,
};
use crate::secrets::{
    hex_decoded, hex_encoded, lemma_hex_roundtrip, sha256, ClockReading, RandomBytes,
};
use crate::timestamp::{earlier, Timestamp};

verus! {

/// Admission is sound: an accepted record is one of the store's, is active at
/// the time and verifies the presented secret. Expiry and revocation fail
/// closed.
pub proof fn law_only_active_matching_records_admit(
    creds: Seq<RecordView>,
    presented: Seq<u8>,
    now: Timestamp,
    n: nat,
)
    requires
        n <= creds.len(),
        accepted(creds, presented, now, n) is Some,
    ensures
        ({
            let r = accepted(creds, presented, now, n)->0;
            creds.contains(r) && is_active(r, now) && verifies(r, presented)
        }),
    decreases n,
{
    if is_active(creds[n - 1], now) && verifies(creds[n - 1], presented) {
        assert(creds[n - 1] == accepted(creds, presented, now, n)->0);
    } else {
        law_only_active_matching_records_admit(creds, presented, now, (n - 1) as nat);
    }
}

/// Admission is complete: where a record is active and verifies the secret, some
/// record is accepted.
pub proof fn law_an_active_matching_record_admits(
    creds: Seq<RecordView>,
    presented: Seq<u8>,
    now: Timestamp,
    n: nat,
    k: int,
)
    requires
        0 <= k < n <= creds.len(),
        is_active(creds[k], now),
        verifies(creds[k], presented),
    ensures
        accepted(creds, presented, now, n) is Some,
    decreases n,
{
    if k < n - 1 && !(is_active(creds[n - 1], now) && verifies(creds[n - 1], presented)) {
        law_an_active_matching_record_admits(creds, presented, now, (n - 1) as nat, k);
    }
}

/// A secret of the wrong length is never admitted.
pub proof fn law_a_secret_of_the_wrong_length_is_refused(
    file: FileView,
    presented: Seq<u8>,
    now: Timestamp,
)
    requires
        presented.len() != TOKEN_LEN,
    ensures
        authentication(file, presented, now) is None,
{
}

/// What a mint stores depends on the secret only through its digest: the store
/// never holds a bearer secret.
pub proof fn law_only_the_digest_is_stored(
    id: Seq<char>,
    secret: Seq<u8>,
    other: Seq<u8>,
    principal: Option<&str>,
    scopes: Seq<Seq<char>>,
    expires_at: Option<Timestamp>,
    now: Timestamp,
)
    requires
        sha256(secret) == sha256(other),
    ensures
        minted_record(id, secret, principal, scopes, expires_at, now) == minted_record(
            id,
            other,
            principal,
            scopes,
            expires_at,
            now,
        ),
{
}

/// What was minted authenticates: from the moment it is issued until it expires,
/// the secret is admitted with the identity it was minted with.
pub proof fn law_a_minted_secret_authenticates(
    file: FileView,
    id: Seq<char>,
    secret: Seq<u8>,
    principal: Option<&str>,
    scopes: Seq<Seq<char>>,
    expires_at: Option<Timestamp>,
    issued: Timestamp,
    now: Timestamp,
)
    requires
        secret.len() == TOKEN_LEN,
        sha256(secret).len() == 32,
        !earlier(now, issued),
        expires_at is Some ==> earlier(now, expires_at->0),
    ensures
        ({
            let record = minted_record(id, secret, principal, scopes, expires_at, issued);
            authentication(with_record(file, record), secret, now) == Some(attestation_of(record))
        }),
{
    law_a_verifier_holds_its_digest(secret);
}

proof fn lemma_accepted_prefix(
    a: Seq<RecordView>,
    b: Seq<RecordView>,
    presented: Seq<u8>,
    now: Timestamp,
    n: nat,
)
    requires
        n <= a.len(),
        n <= b.len(),
        forall|i: int| 0 <= i < n ==> a[i] == b[i],
    ensures
        accepted(a, presented, now, n) == accepted(b, presented, now, n),
    decreases n,
{
    if n > 0 {
        lemma_accepted_prefix(a, b, presented, now, (n - 1) as nat);
    }
}

/// A minted token comes back from the file: it is 64 hexadecimal digits, the file
/// has one record more and still loads, and a store loaded from it admits the
/// token from its issue on as generation one, with terminal-only authority, a
/// principal made of its id and no expiry. The id is taken to be fresh.
pub proof fn law_a_minted_token_comes_back_from_the_file(
    before: FileView,
    after: FileView,
    token: Seq<char>,
    now: Timestamp,
)
    requires
        is_valid(before),
        is_token_mint(before, after, token),
        !has_credential(before, after.credentials.last().id),
        !earlier(now, after.credentials.last().issued_at),
    ensures
        token.len() == 64,
        hex_decoded(token) is Some,
        hex_decoded(token)->0.len() == TOKEN_LEN,
        after.version == before.version,
        after.credentials == before.credentials.push(after.credentials.last()),
        is_drawn_id(after.credentials.last().id),
        is_valid(after),
        forall|file: CredentialFile, r: Result<TokenStore, AuthError>|
            file@ == after && #[trigger] loads_decoded(Ok(file), r) ==> r is Ok && r->Ok_0@ == after,
        authentication(after, hex_decoded(token)->0, now) == Some(
            AttestationView {
                id: after.credentials.last().id,
                principal: "remote-consumer:"@ + after.credentials.last().id,
                scopes: seq![terminal_control_scope()],
                issued_at: after.credentials.last().issued_at,
                expires_at: None,
                generation: 1,
            },
        ),
{
    let none: Option<&str> = None;
    let scopes = seq![terminal_control_scope()];
    let minted = choose|minted: MintedView| #[trigger]
        is_mint(before, after, minted, none, scopes, None) && token == minted.secret;
    let (id, draw, reading) = choose|id: Seq<char>, secret: RandomBytes, at: ClockReading|
        {
            &&& is_drawn_id(id)
            &&& secret@.len() == TOKEN_LEN
            &&& after == with_record(
                before,
                #[trigger] minted_record(id, secret@, none, scopes, None, at@),
            )
            &&& verifies(after.credentials.last(), secret@)
            &&& minted == (MintedView { id, generation: 1, secret: hex_encoded(secret@) })
        };
    let (secret, at) = (draw@, reading@);
    let record = minted_record(id, secret, none, scopes, None, at);
    assert(after.credentials.last() == record);
    lemma_hex_roundtrip(secret);
    law_a_mint_keeps_the_file_valid(before, id, secret, none, scopes, None, at);
    law_a_minted_secret_authenticates(before, id, secret, none, scopes, None, at, now);
}

/// A store that was never written is valid, so the first mint goes into a valid
/// file.
pub proof fn law_an_empty_store_is_valid()
    ensures
        is_valid(empty_file()),
{
}

/// Minting changes nothing for other secrets.
pub proof fn law_a_mint_leaves_other_secrets_alone(
    file: FileView,
    id: Seq<char>,
    secret: Seq<u8>,
    principal: Option<&str>,
    scopes: Seq<Seq<char>>,
    expires_at: Option<Timestamp>,
    issued: Timestamp,
    presented: Seq<u8>,
    now: Timestamp,
)
    requires
        sha256(secret).len() == 32,
        sha256(presented) != sha256(secret),
    ensures
        ({
            let record = minted_record(id, secret, principal, scopes, expires_at, issued);
            authentication(with_record(file, record), presented, now) == authentication(
                file,
                presented,
                now,
            )
        }),
{
    let record = minted_record(id, secret, principal, scopes, expires_at, issued);
    let after = with_record(file, record).credentials;
    law_a_verifier_holds_its_digest(secret);
    lemma_accepted_prefix(after, file.credentials, presented, now, file.credentials.len());
}

/// What `latest_of` finds: a record of the credential that no other record of it
/// exceeds in generation.
pub proof fn lemma_latest(creds: Seq<RecordView>, id: Seq<char>, n: nat)
    requires
        n <= creds.len(),
    ensures
        match latest_of(creds, id, n) {
            Some(k) => 0 <= k < n && creds[k].id == id && forall|i: int|
                0 <= i < n && (#[trigger] creds[i]).id == id ==> creds[i].generation
                    <= creds[k].generation,
            None => forall|i: int| 0 <= i < n ==> (#[trigger] creds[i]).id != id,
        },
    decreases n,
{
    if n > 0 {
        lemma_latest(creds, id, (n - 1) as nat);
    }
}

/// Rotation keeps the identity: the new secret is admitted from the rotation on
/// under the credential's id, with the latest generation's principal and scopes
/// and a generation number above all earlier ones of the credential.
pub proof fn law_rotation_preserves_identity(
    file: FileView,
    id: Seq<char>,
    until: Timestamp,
    at: Timestamp,
    secret: Seq<u8>,
    now: Timestamp,
)
    requires
        can_rotate(file, id),
        secret.len() == TOKEN_LEN,
        sha256(secret).len() == 32,
        !earlier(now, at),
    ensures
        ({
            let creds = file.credentials;
            let latest = latest_of(creds, id, creds.len());
            let a = authentication(rotated(file, id, until, at, secret), secret, now);
            &&& a is Some
            &&& a->0.id == id
            &&& a->0.principal == creds[latest->0].principal
            &&& a->0.scopes == creds[latest->0].scopes
            &&& a->0.generation == creds[latest->0].generation + 1
            &&& forall|i: int|
                0 <= i < creds.len() && (#[trigger] creds[i]).id == id ==> creds[i].generation
                    < a->0.generation
            &&& a->0.expires_at is None
        }),
{
    let creds = file.credentials;
    law_a_verifier_holds_its_digest(secret);
    lemma_latest(creds, id, creds.len());
    let after = rotated(file, id, until, at, secret).credentials;
    assert(after[after.len() - 1].id == id);
}

/// The overlap is bounded: a generation before the rotation is good exactly when
/// it was before and the overlap has not ended. Records of other credentials are
/// untouched.
pub proof fn law_the_overlap_is_bounded(
    file: FileView,
    id: Seq<char>,
    until: Timestamp,
    at: Timestamp,
    secret: Seq<u8>,
    k: int,
    now: Timestamp,
)
    requires
        0 <= k < file.credentials.len(),
    ensures
        ({
            let before = file.credentials[k];
            let after = rotated(file, id, until, at, secret).credentials[k];
            if before.id == id {
                is_active(after, now) <==> is_active(before, now) && earlier(now, until)
            } else {
                after == before
            }
        }),
{
}

/// Revocation is final: no generation of a revoked credential is active at any
/// time, and other credentials are untouched.
pub proof fn law_revocation_ends_every_generation(
    file: FileView,
    id: Seq<char>,
    at: Timestamp,
    k: int,
    now: Timestamp,
)
    requires
        0 <= k < file.credentials.len(),
    ensures
        ({
            let before = file.credentials[k];
            let after = all_revoked(file, id, at).credentials[k];
            if before.id == id {
                !is_active(after, now)
            } else {
                after == before
            }
        }),
{
}

/// After a revocation no secret is admitted under the revoked credential's id.
pub proof fn law_a_revoked_credential_admits_nobody(
    file: FileView,
    id: Seq<char>,
    at: Timestamp,
    presented: Seq<u8>,
    now: Timestamp,
)
    ensures
        match authentication(all_revoked(file, id, at), presented, now) {
            Some(a) => a.id != id,
            None => true,
        },
{
    let after = all_revoked(file, id, at);
    let n = after.credentials.len();
    if accepted(after.credentials, presented, now, n) is Some {
        law_only_active_matching_records_admit(after.credentials, presented, now, n);
        let r = accepted(after.credentials, presented, now, n)->0;
        let k = choose|k: int| 0 <= k < n && after.credentials[k] == r;
        law_revocation_ends_every_generation(file, id, at, k, now);
    }
}

/// Every record among the first `n` is complete and usable, and none repeats an
/// earlier one.
pub open spec fn records_are_sound(creds: Seq<RecordView>, n: int) -> bool {
    forall|k: int| 0 <= k < n ==> #[trigger] record_error(creds, k) is None
}

proof fn lemma_no_error(creds: Seq<RecordView>, n: nat)
    ensures
        first_error(creds, n) is None <==> records_are_sound(creds, n as int),
    decreases n,
{
    if n > 0 {
        lemma_no_error(creds, (n - 1) as nat);
        if first_error(creds, n) is None {
            assert forall|k: int| 0 <= k < n implies #[trigger] record_error(creds, k) is None by {
                if k == n - 1 {
                } else {
                    assert(record_error(creds, k) is None);
                }
            }
        }
        if records_are_sound(creds, n as int) {
            assert(record_error(creds, n - 1) is None);
        }
    }
}

/// What a valid file is: the current version, complete records with usable
/// verifiers, and no two records of the same id and generation.
pub proof fn law_a_valid_file_obeys_its_rules(file: FileView)
    ensures
        is_valid(file) <==> {
            &&& file.version == STORE_VERSION
            &&& forall|k: int|
                0 <= k < file.credentials.len() ==> {
                    let r = #[trigger] file.credentials[k];
                    &&& r.id.len() > 0
                    &&& r.principal.len() > 0
                    &&& r.generation > 0
                    &&& verifier_bytes(r.verifier) is Some
                }
            &&& forall|j: int, k: int|
                0 <= j < k < file.credentials.len() ==> {
                    (#[trigger] file.credentials[j]).id != (#[trigger] file.credentials[k]).id
                        || file.credentials[j].generation != file.credentials[k].generation
                }
        },
{
    let creds = file.credentials;
    lemma_no_error(creds, creds.len());
    if is_valid(file) {
        assert forall|k: int| 0 <= k < creds.len() implies {
            let r = #[trigger] creds[k];
            &&& r.id.len() > 0
            &&& r.principal.len() > 0
            &&& r.generation > 0
            &&& verifier_bytes(r.verifier) is Some
        } by {
            assert(record_error(creds, k) is None);
        }
        assert forall|j: int, k: int| 0 <= j < k < creds.len() implies (#[trigger] creds[j]).id != (
        #[trigger] creds[k]).id || creds[j].generation != creds[k].generation by {
            assert(record_error(creds, k) is None);
            if creds[j].id == creds[k].id && creds[j].generation == creds[k].generation {
                assert(repeats_earlier(creds, k));
            }
        }
    }
    if file.version == STORE_VERSION && (forall|k: int|
        0 <= k < creds.len() ==> {
            let r = #[trigger] creds[k];
            &&& r.id.len() > 0
            &&& r.principal.len() > 0
            &&& r.generation > 0
            &&& verifier_bytes(r.verifier) is Some
        }) && (forall|j: int, k: int|
        0 <= j < k < creds.len() ==> {
            (#[trigger] creds[j]).id != (#[trigger] creds[k]).id || creds[j].generation
                != creds[k].generation
        }) {
        assert forall|k: int| 0 <= k < creds.len() implies #[trigger] record_error(
            creds,
            k,
        ) is None by {
            let r = creds[k];
            assert(verifier_bytes(r.verifier) is Some);
            if repeats_earlier(creds, k) {
                let j = choose|j: int|
                    0 <= j < k && (#[trigger] creds[j]).id == creds[k].id && creds[j].generation
                        == creds[k].generation;
                assert(creds[j].id != creds[k].id || creds[j].generation != creds[k].generation);
            }
        }
    }
}

/// Minting under a fresh id, for a principal that is not blank, keeps a file
/// valid.
pub proof fn law_a_mint_keeps_the_file_valid(
    file: FileView,
    id: Seq<char>,
    secret: Seq<u8>,
    principal: Option<&str>,
    scopes: Seq<Seq<char>>,
    expires_at: Option<Timestamp>,
    now: Timestamp,
)
    requires
        is_valid(file),
        id.len() > 0,
        !has_credential(file, id),
        principal is Some ==> principal->0@.len() > 0,
        sha256(secret).len() == 32,
    ensures
        is_valid(
            with_record(file, minted_record(id, secret, principal, scopes, expires_at, now)),
        ),
{
    let record = minted_record(id, secret, principal, scopes, expires_at, now);
    let after = with_record(file, record);
    law_a_verifier_holds_its_digest(secret);
    law_a_valid_file_obeys_its_rules(file);
    assert(record.principal.len() > 0);
    assert forall|j: int, k: int| 0 <= j < k < after.credentials.len() implies (
    #[trigger] after.credentials[j]).id != (#[trigger] after.credentials[k]).id
        || after.credentials[j].generation != after.credentials[k].generation by {
        assert(file.credentials[j] == after.credentials[j]);
        if k < file.credentials.len() {
            assert(file.credentials[k] == after.credentials[k]);
        }
    }
    assert forall|k: int| 0 <= k < after.credentials.len() implies {
        let r = #[trigger] after.credentials[k];
        &&& r.id.len() > 0
        &&& r.principal.len() > 0
        &&& r.generation > 0
        &&& verifier_bytes(r.verifier) is Some
    } by {
        if k < file.credentials.len() {
            assert(file.credentials[k] == after.credentials[k]);
        }
    }
    law_a_valid_file_obeys_its_rules(after);
}

/// Rotating a credential keeps a file valid.
pub proof fn law_a_rotation_keeps_the_file_valid(
    file: FileView,
    id: Seq<char>,
    until: Timestamp,
    now: Timestamp,
    secret: Seq<u8>,
)
    requires
        is_valid(file),
        can_rotate(file, id),
        sha256(secret).len() == 32,
    ensures
        is_valid(rotated(file, id, until, now, secret)),
{
    let creds = file.credentials;
    let after = rotated(file, id, until, now, secret);
    law_a_verifier_holds_its_digest(secret);
    law_a_valid_file_obeys_its_rules(file);
    lemma_latest(creds, id, creds.len());
    let latest = latest_of(creds, id, creds.len())->0;
    assert(creds[latest].id.len() > 0 && creds[latest].principal.len() > 0);
    assert forall|k: int| 0 <= k < after.credentials.len() implies {
        let r = #[trigger] after.credentials[k];
        &&& r.id.len() > 0
        &&& r.principal.len() > 0
        &&& r.generation > 0
        &&& verifier_bytes(r.verifier) is Some
    } by {
        if k < creds.len() {
            assert(after.credentials[k] == overlapped(creds[k], id, until));
            assert(creds[k].id.len() > 0);
        }
    }
    assert forall|j: int, k: int| 0 <= j < k < after.credentials.len() implies (
    #[trigger] after.credentials[j]).id != (#[trigger] after.credentials[k]).id
        || after.credentials[j].generation != after.credentials[k].generation by {
        assert(after.credentials[j] == overlapped(creds[j], id, until));
        if k < creds.len() {
            assert(after.credentials[k] == overlapped(creds[k], id, until));
            assert(creds[j].id != creds[k].id || creds[j].generation != creds[k].generation);
        } else if creds[j].id == id {
            assert(creds[j].generation <= creds[latest].generation);
        }
    }
    law_a_valid_file_obeys_its_rules(after);
}

/// Revoking keeps a file valid.
pub proof fn law_a_revocation_keeps_the_file_valid(file: FileView, id: Seq<char>, now: Timestamp)
    requires
        is_valid(file),
    ensures
        is_valid(all_revoked(file, id, now)),
{
    let creds = file.credentials;
    let after = all_revoked(file, id, now);
    law_a_valid_file_obeys_its_rules(file);
    assert forall|k: int| 0 <= k < after.credentials.len() implies {
        let r = #[trigger] after.credentials[k];
        &&& r.id.len() > 0
        &&& r.principal.len() > 0
        &&& r.generation > 0
        &&& verifier_bytes(r.verifier) is Some
    } by {
        assert(after.credentials[k] == revoked(creds[k], id, now));
        assert(creds[k].id.len() > 0);
    }
    assert forall|j: int, k: int| 0 <= j < k < after.credentials.len() implies (
    #[trigger] after.credentials[j]).id != (#[trigger] after.credentials[k]).id
        || after.credentials[j].generation != after.credentials[k].generation by {
        assert(after.credentials[j] == revoked(creds[j], id, now));
        assert(after.credentials[k] == revoked(creds[k], id, now));
        assert(creds[j].id != creds[k].id || creds[j].generation != creds[k].generation);
    }
    law_a_valid_file_obeys_its_rules(after);
}

/// Migration gives a valid file, provided the ids are distinct and not blank.
pub proof fn law_a_migration_gives_a_valid_file(
    tokens: Seq<Seq<char>>,
    ids: Seq<Seq<char>>,
    now: Timestamp,
)
    requires
        ids.len() == tokens.len(),
        forall|i: int| 0 <= i < ids.len() ==> (#[trigger] ids[i]).len() > 0,
        forall|i: int, j: int| 0 <= i < j < ids.len() ==> #[trigger] ids[i] != #[trigger] ids[j],
        forall|i: int|
            0 <= i < tokens.len() ==> sha256(
                #[trigger] legacy_secret(tokens[i])->0,
            ).len() == 32,
    ensures
        is_valid(migrated(tokens, ids, now)),
{
    let after = migrated(tokens, ids, now);
    assert forall|k: int| 0 <= k < after.credentials.len() implies {
        let r = #[trigger] after.credentials[k];
        &&& r.id.len() > 0
        &&& r.principal.len() > 0
        &&& r.generation > 0
        &&& verifier_bytes(r.verifier) is Some
    } by {
        assert(ids[k].len() > 0);
        law_a_verifier_holds_its_digest(legacy_secret(tokens[k])->0);
    }
    assert forall|j: int, k: int| 0 <= j < k < after.credentials.len() implies (
    #[trigger] after.credentials[j]).id != (#[trigger] after.credentials[k]).id
        || after.credentials[j].generation != after.credentials[k].generation by {
        assert(ids[j] != ids[k]);
    }
    law_a_valid_file_obeys_its_rules(after);
}

/// A migrated token still authenticates.
pub proof fn law_a_migrated_token_authenticates(
    tokens: Seq<Seq<char>>,
    ids: Seq<Seq<char>>,
    at: Timestamp,
    k: int,
    now: Timestamp,
)
    requires
        0 <= k < tokens.len(),
        legacy_secret(tokens[k]) is Some,
        sha256(legacy_secret(tokens[k])->0).len() == 32,
        !earlier(now, at),
    ensures
        authentication(migrated(tokens, ids, at), legacy_secret(tokens[k])->0, now) is Some,
{
    let file = migrated(tokens, ids, at);
    law_a_verifier_holds_its_digest(legacy_secret(tokens[k])->0);
    law_an_active_matching_record_admits(
        file.credentials,
        legacy_secret(tokens[k])->0,
        now,
        file.credentials.len(),
        k,
    );
}

/// An unchanged file is not read again, and a refresh with the same generation
/// changes nothing.
pub proof fn law_an_unchanged_file_is_not_read_again(
    cache: CacheView,
    probed: Option<Stamp>,
    got: Result<TokenStore, AuthError>,
)
    requires
        probed is Some,
        probed == cache.stamp,
    ensures
        !must_reread(cache.stamp, probed),
        refreshed(cache, probed, got) == cache,
{
}

/// An unreadable generation keeps the last good one and does not count: the next
/// refresh reads again.
pub proof fn law_a_failed_read_keeps_the_last_good_generation(
    cache: CacheView,
    probed: Option<Stamp>,
    got: Result<TokenStore, AuthError>,
)
    requires
        must_reread(cache.stamp, probed),
        got is Err,
    ensures
        refreshed(cache, probed, got) == cache,
        must_reread(refreshed(cache, probed, got).stamp, probed),
{
}

/// A readable new generation replaces the old one at once, so a deleted file,
/// which loads as an empty store, revokes everything.
pub proof fn law_a_new_generation_takes_over(
    cache: CacheView,
    probed: Option<Stamp>,
    got: Result<TokenStore, AuthError>,
    presented: Seq<u8>,
    now: Timestamp,
)
    requires
        must_reread(cache.stamp, probed),
        got is Ok,
    ensures
        refreshed(cache, probed, got).file == got->Ok_0@,
        got->Ok_0@.credentials.len() == 0 ==> authentication(
            refreshed(cache, probed, got).file,
            presented,
            now,
        ) is None,
{
}

} // verus!
