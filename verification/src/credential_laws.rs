//! What each operation on credentials does, record by record.
use vstd::prelude::*;

use crate::auth::{
    accepted, authentication, loads_decoded, looks_structured, must_reread, refreshed, text_read,
    AttestationView, CacheView, ReadOutcome, Stamp, TokenStore,
};
use crate::auth_laws::lemma_latest;
use crate::credentials::{
    file_error, first_error, is_active, is_exhausted, is_malformed, is_not_found, legacy_error,
    legacy_secret, record_views, verifier_bytes, verifier_error, verifies, AuthError,
    CredentialFile, CredentialRecord, FileView, RecordView, TOKEN_LEN,
};
use crate::issuing::{
    all_readable, all_revoked, can_rotate, has_credential, is_drawn_id, is_first_bad, is_mint,
    is_random, latest_of, legacy_token_lines, lines_of, migrated, minted_record, refuses_rotation,
    rotated, rotates, tokens_of, with_record, MintedCredential, MintedView,
};
use crate::secrets::{hex_decoded, hex_encoded, sha256, ClockReading, RandomBytes};
use crate::text::{decimal, is_white_space, trimmed};
use crate::text_laws::lemma_trimmed_start;
use crate::timestamp::{moved, Span, Timestamp};

verus! {

/// `a` comes before `b` in time: in an earlier second, or earlier in the same.
pub open spec fn precedes(a: Timestamp, b: Timestamp) -> bool {
    if a.secs == b.secs {
        a.nanos < b.nanos
    } else {
        a.secs < b.secs
    }
}

/// The record lets the secret in at `now`: it is not revoked, it was issued by
/// then, it has no expiry or a later one, and its verifier is `sha256:` and the
/// secret's digest in hexadecimal.
pub open spec fn lets_in(r: RecordView, presented: Seq<u8>, now: Timestamp) -> bool {
    &&& r.revoked_at is None
    &&& r.issued_at == now || precedes(r.issued_at, now)
    &&& r.expires_at is None || precedes(now, r.expires_at->0)
    &&& exists|digits: Seq<char>|
        r.verifier == "sha256:"@ + digits && #[trigger] hex_decoded(digits) == Some(
            sha256(presented),
        ) && sha256(presented).len() == 32
}

proof fn lemma_lets_in(r: RecordView, presented: Seq<u8>, now: Timestamp)
    ensures
        lets_in(r, presented, now) <==> is_active(r, now) && verifies(r, presented),
{
    let prefix = "sha256:"@;
    reveal_strlit("sha256:");
    if verifies(r, presented) {
        let digits = r.verifier.skip(prefix.len() as int);
        assert(r.verifier =~= prefix + digits) by {
            assert(r.verifier.take(prefix.len() as int) =~= prefix);
        }
        assert(hex_decoded(digits) == Some(sha256(presented)));
    }
    if exists|digits: Seq<char>|
        r.verifier == "sha256:"@ + digits && #[trigger] hex_decoded(digits) == Some(
            sha256(presented),
        ) && sha256(presented).len() == 32 {
        let digits = choose|digits: Seq<char>|
            r.verifier == "sha256:"@ + digits && #[trigger] hex_decoded(digits) == Some(
                sha256(presented),
            ) && sha256(presented).len() == 32;
        assert(r.verifier.skip(prefix.len() as int) =~= digits);
        assert(r.verifier.take(prefix.len() as int) =~= prefix);
    }
}

proof fn lemma_accepted_is_last(
    creds: Seq<RecordView>,
    presented: Seq<u8>,
    now: Timestamp,
    n: nat,
)
    requires
        n <= creds.len(),
    ensures
        match accepted(creds, presented, now, n) {
            Some(r) => exists|k: int|
                {
                    &&& 0 <= k < n
                    &&& #[trigger] creds[k] == r
                    &&& lets_in(creds[k], presented, now)
                    &&& forall|j: int| k < j < n ==> !lets_in(#[trigger] creds[j], presented, now)
                },
            None => forall|j: int| 0 <= j < n ==> !lets_in(#[trigger] creds[j], presented, now),
        },
    decreases n,
{
    if n > 0 {
        lemma_lets_in(creds[n - 1], presented, now);
        lemma_accepted_is_last(creds, presented, now, (n - 1) as nat);
        if lets_in(creds[n - 1], presented, now) {
            assert(creds[n - 1] == accepted(creds, presented, now, n)->0);
        } else if let Some(r) = accepted(creds, presented, now, (n - 1) as nat) {
            let k = choose|k: int|
                {
                    &&& 0 <= k < n - 1
                    &&& #[trigger] creds[k] == r
                    &&& lets_in(creds[k], presented, now)
                    &&& forall|j: int|
                        k < j < n - 1 ==> !lets_in(#[trigger] creds[j], presented, now)
                };
            assert(creds[k] == r);
        }
    }
}

/// A secret is admitted exactly when it has 32 bytes and some record lets it in
/// at that time; it is then attested what the last such record says.
pub proof fn law_a_secret_is_admitted_by_its_record(
    file: FileView,
    presented: Seq<u8>,
    now: Timestamp,
)
    ensures
        authentication(file, presented, now) is Some <==> presented.len() == 32 && exists|k: int|
            0 <= k < file.credentials.len() && lets_in(
                #[trigger] file.credentials[k],
                presented,
                now,
            ),
        authentication(file, presented, now) is Some ==> exists|k: int|
            {
                let r = file.credentials[k];
                &&& 0 <= k < file.credentials.len()
                &&& lets_in(#[trigger] file.credentials[k], presented, now)
                &&& forall|j: int|
                    k < j < file.credentials.len() ==> !lets_in(
                        #[trigger] file.credentials[j],
                        presented,
                        now,
                    )
                &&& authentication(file, presented, now)->0 == (AttestationView {
                    id: r.id,
                    principal: r.principal,
                    scopes: r.scopes,
                    issued_at: r.issued_at,
                    expires_at: r.expires_at,
                    generation: r.generation,
                })
            },
{
    lemma_accepted_is_last(file.credentials, presented, now, file.credentials.len());
}

/// A record that lets a secret in at every time from `from` to `to` admits it
/// whenever the clock reads between them; one that has expired by `from` does
/// not let it in at any of them.
pub proof fn law_the_time_of_the_call_decides(
    file: FileView,
    presented: Seq<u8>,
    k: int,
    from: Timestamp,
    to: Timestamp,
    now: Timestamp,
)
    requires
        0 <= k < file.credentials.len(),
        !precedes(now, from),
        !precedes(to, now),
    ensures
        presented.len() == 32 && lets_in(file.credentials[k], presented, from) && lets_in(
            file.credentials[k],
            presented,
            to,
        ) ==> authentication(file, presented, now) is Some,
        file.credentials[k].expires_at is Some && !precedes(
            from,
            file.credentials[k].expires_at->0,
        ) ==> !lets_in(file.credentials[k], presented, now),
{
    law_a_secret_is_admitted_by_its_record(file, presented, now);
    if lets_in(file.credentials[k], presented, from) && lets_in(
        file.credentials[k],
        presented,
        to,
    ) {
        assert(lets_in(file.credentials[k], presented, now));
    }
}

/// A mint adds one record and changes no other: the id, `sha256:` and the
/// secret's digest, the given principal or one made of the id, the scopes, the
/// time of issue, the expiry, not revoked, generation one.
pub proof fn law_a_mint_adds_one_record(
    file: FileView,
    id: Seq<char>,
    secret: Seq<u8>,
    principal: Option<&str>,
    scopes: Seq<Seq<char>>,
    expires_at: Option<Timestamp>,
    now: Timestamp,
)
    ensures
        ({
            let after = with_record(
                file,
                minted_record(id, secret, principal, scopes, expires_at, now),
            );
            let added = after.credentials.last();
            &&& after.version == file.version
            &&& after.credentials.len() == file.credentials.len() + 1
            &&& forall|k: int|
                0 <= k < file.credentials.len() ==> #[trigger] after.credentials[k]
                    == file.credentials[k]
            &&& added.id == id
            &&& added.verifier == "sha256:"@ + hex_encoded(sha256(secret))
            &&& principal is Some ==> added.principal == principal->0@
            &&& principal is None ==> added.principal == "remote-consumer:"@ + id
            &&& added.scopes == scopes
            &&& added.issued_at == now
            &&& added.expires_at == expires_at
            &&& added.revoked_at is None
            &&& added.generation == 1
        }),
{
}

/// A rotation adds one record and, of the others, changes only when the
/// credential's own unrevoked generations expire: at the end of the overlap, or
/// before it if they did already.
pub proof fn law_a_rotation_only_shortens_lives(
    file: FileView,
    id: Seq<char>,
    until: Timestamp,
    now: Timestamp,
    secret: Seq<u8>,
    k: int,
)
    requires
        0 <= k < file.credentials.len(),
    ensures
        ({
            let was = file.credentials[k];
            let after = rotated(file, id, until, now, secret);
            let is = after.credentials[k];
            let added = after.credentials.last();
            &&& after.version == file.version
            &&& after.credentials.len() == file.credentials.len() + 1
            &&& is == (RecordView { expires_at: is.expires_at, ..was })
            &&& was.id != id || was.revoked_at is Some ==> is.expires_at == was.expires_at
            &&& was.id == id && was.revoked_at is None ==> {
                &&& is.expires_at is Some
                &&& !precedes(until, is.expires_at->0)
                &&& was.expires_at is Some ==> !precedes(was.expires_at->0, is.expires_at->0)
                &&& is.expires_at == Some(until) || is.expires_at == was.expires_at
            }
            &&& added.id == id
            &&& added.verifier == "sha256:"@ + hex_encoded(sha256(secret))
            &&& added.issued_at == now
            &&& added.expires_at is None
            &&& added.revoked_at is None
        }),
{
}

/// A rotation copies the principal and the scopes of the generation with the
/// highest number, the last of them if there are several, and counts on from it.
pub proof fn law_a_rotation_follows_the_latest_generation(
    file: FileView,
    id: Seq<char>,
    until: Timestamp,
    now: Timestamp,
    secret: Seq<u8>,
    k: int,
)
    requires
        0 <= k < file.credentials.len(),
        file.credentials[k].id == id,
        file.credentials[k].generation < u64::MAX,
        forall|j: int|
            0 <= j < file.credentials.len() && (#[trigger] file.credentials[j]).id == id
                ==> file.credentials[j].generation < file.credentials[k].generation || (
            file.credentials[j].generation == file.credentials[k].generation && j <= k),
    ensures
        ({
            let added = rotated(file, id, until, now, secret).credentials.last();
            &&& added.principal == file.credentials[k].principal
            &&& added.scopes == file.credentials[k].scopes
            &&& added.generation == file.credentials[k].generation + 1
        }),
{
    lemma_latest_is(file.credentials, id, file.credentials.len(), k);
}

proof fn lemma_latest_is(creds: Seq<RecordView>, id: Seq<char>, n: nat, k: int)
    requires
        0 <= k < n <= creds.len(),
        creds[k].id == id,
        forall|j: int|
            0 <= j < n && (#[trigger] creds[j]).id == id ==> creds[j].generation
                < creds[k].generation || (creds[j].generation == creds[k].generation && j <= k),
    ensures
        latest_of(creds, id, n) == Some(k),
    decreases n,
{
    if k < n - 1 {
        lemma_latest_is(creds, id, (n - 1) as nat, k);
        if creds[n - 1].id == id {
            assert(creds[n - 1].generation < creds[k].generation);
        }
    } else {
        lemma_latest(creds, id, (n - 1) as nat);
        if let Some(p) = latest_of(creds, id, (n - 1) as nat) {
            assert(creds[p].id == id);
        }
    }
}

/// A revocation marks every record of the credential with its time, and changes
/// nothing else.
pub proof fn law_a_revocation_marks_the_credential(
    file: FileView,
    id: Seq<char>,
    now: Timestamp,
    k: int,
)
    requires
        0 <= k < file.credentials.len(),
    ensures
        ({
            let was = file.credentials[k];
            let after = all_revoked(file, id, now);
            let is = after.credentials[k];
            &&& after.version == file.version
            &&& after.credentials.len() == file.credentials.len()
            &&& was.id != id ==> is == was
            &&& was.id == id ==> is == (RecordView { revoked_at: Some(now), ..was })
        }),
{
}

/// A migration gives one record per token, under its id: the token's digest, a
/// principal made of the id, terminal-only authority, no expiry, generation one.
pub proof fn law_a_migration_keeps_every_token(
    tokens: Seq<Seq<char>>,
    ids: Seq<Seq<char>>,
    now: Timestamp,
    k: int,
)
    requires
        0 <= k < tokens.len() == ids.len(),
        legacy_error(tokens[k]) is None,
    ensures
        ({
            let file = migrated(tokens, ids, now);
            let r = file.credentials[k];
            &&& file.version == 1
            &&& file.credentials.len() == tokens.len()
            &&& r.id == ids[k]
            &&& hex_decoded(tokens[k]) is Some
            &&& hex_decoded(tokens[k])->0.len() == 32
            &&& r.verifier == "sha256:"@ + hex_encoded(sha256(hex_decoded(tokens[k])->0))
            &&& r.principal == "legacy-remote-consumer:"@ + ids[k]
            &&& r.scopes == seq!["terminal.control"@]
            &&& r.issued_at == now
            &&& r.expires_at is None
            &&& r.revoked_at is None
            &&& r.generation == 1
        }),
{
}

/// A legacy token is readable exactly when it is 64 hexadecimal digits, and each
/// way it is not has its own words.
pub proof fn law_a_legacy_token_is_64_digits(token: Seq<char>)
    ensures
        legacy_error(token) is None <==> hex_decoded(token) is Some && token.len() == 64,
        legacy_error(token) is None <==> legacy_secret(token) is Some,
        legacy_secret(token) is Some ==> legacy_secret(token) == hex_decoded(token),
        hex_decoded(token) is None ==> legacy_error(token) == Some("legacy token is not hex"@),
        hex_decoded(token) is Some && token.len() != 64 ==> legacy_error(token) == Some(
            "legacy token has wrong length"@,
        ),
{
}

/// A verifier is usable exactly when it is `sha256:` and 64 hexadecimal digits,
/// and each way it is not has its own words.
pub proof fn law_a_verifier_is_prefixed_digits(encoded: Seq<char>, digits: Seq<char>)
    ensures
        encoded == "sha256:"@ + digits ==> {
            &&& verifier_error(encoded) is None <==> hex_decoded(digits) is Some && digits.len()
                == 64
            &&& verifier_error(encoded) is None ==> verifier_bytes(encoded) == hex_decoded(digits)
            &&& hex_decoded(digits) is None ==> verifier_error(encoded) == Some(
                "credential verifier is not hex"@,
            )
            &&& hex_decoded(digits) is Some && digits.len() != 64 ==> verifier_error(encoded)
                == Some("credential verifier has wrong length"@)
        },
        encoded.len() < 7 || encoded.take(7) != "sha256:"@ ==> verifier_error(encoded) == Some(
            "credential verifier must use sha256"@,
        ),
{
    reveal_strlit("sha256:");
    if encoded == "sha256:"@ + digits {
        assert(encoded.skip(7) =~= digits);
        assert(encoded.take(7) =~= "sha256:"@);
    }
}

/// What is wrong with a record, before any other of the file's records is looked
/// at.
pub open spec fn lacks_something(r: RecordView) -> bool {
    r.id.len() == 0 || r.principal.len() == 0 || r.generation == 0
}

/// A file's error is that of its version or else of its first record with one:
/// what that record lacks, what its verifier does, or that it repeats another.
pub proof fn law_a_files_first_fault_is_told(file: FileView, k: int)
    requires
        file.version == 1,
        0 <= k < file.credentials.len(),
        forall|j: int| 0 <= j < k ==> !is_faulty(file.credentials, #[trigger] tagged(j)),
        is_faulty(file.credentials, k),
    ensures
        ({
            let r = file.credentials[k];
            file_error(file) == Some(
                if lacks_something(r) {
                    "credential id, principal, and generation must be present"@
                } else if verifier_error(r.verifier) is Some {
                    verifier_error(r.verifier)->0
                } else {
                    "duplicate credential generation "@ + r.id + ":"@ + decimal(
                        r.generation as nat,
                    )
                },
            )
        }),
{
    lemma_no_fault_yet(file.credentials, k as nat);
    lemma_fault_stays(file.credentials, k, file.credentials.len());
}

pub open spec fn tagged(j: int) -> int {
    j
}

/// The record has a fault: it lacks something, its verifier is unusable, or an
/// earlier record has its id and generation.
pub open spec fn is_faulty(creds: Seq<RecordView>, k: int) -> bool {
    ||| lacks_something(creds[k])
    ||| verifier_error(creds[k].verifier) is Some
    ||| exists|j: int|
        0 <= j < k && (#[trigger] creds[j]).id == creds[k].id && creds[j].generation
            == creds[k].generation
}

proof fn lemma_no_fault_yet(creds: Seq<RecordView>, n: nat)
    requires
        n <= creds.len(),
        forall|j: int| 0 <= j < n ==> !is_faulty(creds, #[trigger] tagged(j)),
    ensures
        first_error(creds, n) is None,
    decreases n,
{
    if n > 0 {
        lemma_no_fault_yet(creds, (n - 1) as nat);
        assert(!is_faulty(creds, tagged(n - 1)));
    }
}

proof fn lemma_fault_stays(creds: Seq<RecordView>, k: int, n: nat)
    requires
        0 <= k < n <= creds.len(),
        first_error(creds, k as nat) is None,
        is_faulty(creds, k),
    ensures
        first_error(creds, n) == first_error(creds, (k + 1) as nat),
        first_error(creds, (k + 1) as nat) is Some,
    decreases n,
{
    if k + 1 < n {
        lemma_fault_stays(creds, k, (n - 1) as nat);
    }
}

/// A file of another version is refused for it, and a file without a faulty
/// record of the right version is accepted.
pub proof fn law_a_file_without_fault_is_accepted(file: FileView)
    ensures
        file.version != 1 ==> file_error(file) == Some(
            "unsupported version "@ + decimal(file.version as nat) + " (expected 1)"@,
        ),
        file.version == 1 && (forall|j: int|
            0 <= j < file.credentials.len() ==> !is_faulty(
                file.credentials,
                #[trigger] tagged(j),
            )) ==> file_error(file) is None,
{
    if file.version == 1 && (forall|j: int|
        0 <= j < file.credentials.len() ==> !is_faulty(file.credentials, #[trigger] tagged(j))) {
        lemma_no_fault_yet(file.credentials, file.credentials.len());
    }
}

/// A text's lines are what stands between its newlines.
pub proof fn law_newlines_part_the_lines(a: Seq<char>, b: Seq<char>)
    ensures
        lines_of(a + seq!['\n'] + b) == lines_of(a) + lines_of(b),
        !b.contains('\n') ==> lines_of(b) == seq![b],
    decreases b.len(),
{
    let whole = a + seq!['\n'] + b;
    if b.len() == 0 {
        assert(whole.drop_last() =~= a);
        assert(lines_of(whole) =~= lines_of(a) + lines_of(b));
        assert(b =~= Seq::<char>::empty());
    } else {
        let rest = b.drop_last();
        law_newlines_part_the_lines(a, rest);
        assert(whole.drop_last() =~= a + seq!['\n'] + rest);
        assert(whole.last() == b.last());
        lemma_some_line(rest);
        assert(lines_of(whole) =~= lines_of(a) + lines_of(b));
        if !b.contains('\n') {
            assert(b[b.len() - 1] != '\n');
            assert(!rest.contains('\n')) by {
                if rest.contains('\n') {
                    let i = choose|i: int| 0 <= i < rest.len() && rest[i] == '\n';
                    assert(b[i] == '\n');
                }
            }
            assert(rest.push(b.last()) =~= b);
            assert(lines_of(b) =~= seq![b]);
        }
    }
}

proof fn lemma_some_line(s: Seq<char>)
    ensures
        lines_of(s).len() > 0,
    decreases s.len(),
{
    if s.len() > 0 {
        lemma_some_line(s.drop_last());
    }
}

/// The tokens of a list of lines are read line by line: a line gives itself, its
/// surrounding whitespace left out, unless nothing is left or it starts with `#`.
pub proof fn law_tokens_are_the_written_lines(
    a: Seq<Seq<char>>,
    b: Seq<Seq<char>>,
    line: Seq<char>,
)
    ensures
        tokens_of(a + b) == tokens_of(a) + tokens_of(b),
        tokens_of(Seq::empty()) == Seq::<Seq<char>>::empty(),
        trimmed(line).len() == 0 ==> tokens_of(seq![line]) == Seq::<Seq<char>>::empty(),
        trimmed(line).len() > 0 && trimmed(line)[0] == '#' ==> tokens_of(seq![line]) == Seq::<
            Seq<char>,
        >::empty(),
        trimmed(line).len() > 0 && trimmed(line)[0] != '#' ==> tokens_of(seq![line]) == seq![
            trimmed(line),
        ],
    decreases b.len(),
{
    reveal_with_fuel(tokens_of, 2);
    assert(seq![line].drop_last() =~= Seq::<Seq<char>>::empty());
    if trimmed(line).len() > 0 && trimmed(line)[0] != '#' {
        assert(tokens_of(seq![line]) =~= seq![trimmed(line)]);
    }
    if b.len() == 0 {
        assert(a + b =~= a);
        assert(tokens_of(a) + tokens_of(b) =~= tokens_of(a));
    } else {
        law_tokens_are_the_written_lines(a, b.drop_last(), line);
        assert((a + b).drop_last() =~= a + b.drop_last());
        assert((a + b).last() == b.last());
        assert(tokens_of(a + b) =~= tokens_of(a) + tokens_of(b));
    }
}

/// The tokens of a store are those of its lines.
pub proof fn law_a_store_is_read_by_lines(raw: Seq<char>)
    ensures
        legacy_token_lines(raw) == tokens_of(lines_of(raw)),
{
}

/// A text is meant as a structured store exactly when its first visible character
/// opens an object.
pub proof fn law_a_structured_store_opens_an_object(raw: Seq<char>)
    ensures
        looks_structured(raw) <==> exists|i: int|
            0 <= i < raw.len() && #[trigger] raw[i] == '{' && forall|j: int|
                0 <= j < i ==> is_white_space(#[trigger] raw[j]),
{
    let a = lemma_trimmed_start(raw);
    if a < raw.len() {
        assert(raw.skip(a)[0] == raw[a]);
    }
    if exists|i: int|
        0 <= i < raw.len() && #[trigger] raw[i] == '{' && forall|j: int|
            0 <= j < i ==> is_white_space(#[trigger] raw[j]) {
        let i = choose|i: int|
            0 <= i < raw.len() && #[trigger] raw[i] == '{' && forall|j: int|
                0 <= j < i ==> is_white_space(#[trigger] raw[j]);
        assert(!is_white_space('{'));
        if a < i {
            assert(is_white_space(raw[a]));
        } else if i < a {
            assert(is_white_space(raw[i]));
        }
    }
}

/// A missing file reads as an empty text, a text as itself, a failed read as none.
pub proof fn law_a_missing_file_is_empty(text: String)
    ensures
        text_read(ReadOutcome::Missing) == Some(Seq::<char>::empty()),
        text_read(ReadOutcome::Text(text)) == Some(text@),
        text_read(ReadOutcome::Failed(text)) is None,
{
}

/// A file loads exactly when it was decoded and has no fault, and then as it is;
/// otherwise the decoder's words or the file's first fault are told.
pub proof fn law_a_faultless_file_loads_as_it_is(
    decoded: Result<CredentialFile, String>,
    r: Result<TokenStore, AuthError>,
)
    requires
        loads_decoded(decoded, r),
    ensures
        r is Ok <==> decoded is Ok && file_error(decoded->Ok_0@) is None,
        r is Ok ==> r->Ok_0@ == decoded->Ok_0@,
        decoded is Err ==> (r matches Err(AuthError::Malformed(m)) && m@ == decoded->Err_0@),
        decoded is Ok && file_error(decoded->Ok_0@) is Some ==> (r matches Err(
            AuthError::Malformed(m),
        ) && m@ == file_error(decoded->Ok_0@)->0),
{
}

/// A file is read again exactly when it cannot be identified or is not the one
/// that was read; a readable one is then taken over and counted, and one that
/// cannot be read leaves everything as it was.
pub proof fn law_another_file_is_taken_over(
    cache: CacheView,
    probed: Option<Stamp>,
    got: Result<TokenStore, AuthError>,
)
    ensures
        must_reread(cache.stamp, probed) <==> probed is None || probed != cache.stamp,
        must_reread(cache.stamp, probed) && got is Ok ==> {
            let after = refreshed(cache, probed, got);
            &&& after.file == got->Ok_0@
            &&& after.stamp == probed
            &&& after.path == cache.path
            &&& cache.reloads < u64::MAX ==> after.reloads == cache.reloads + 1
            &&& cache.reloads == u64::MAX ==> after.reloads == cache.reloads
        },
        must_reread(cache.stamp, probed) && got is Err ==> refreshed(cache, probed, got) == cache,
        !must_reread(cache.stamp, probed) ==> refreshed(cache, probed, got) == cache,
{
}

/// A credential can be rotated exactly when it has a record and none with the last
/// number there is; otherwise it is told which of the two is wrong.
pub proof fn law_a_credential_rotates_until_its_numbers_end(
    file: FileView,
    id: Seq<char>,
    e: AuthError,
)
    ensures
        has_credential(file, id) <==> exists|k: int|
            0 <= k < file.credentials.len() && (#[trigger] file.credentials[k]).id == id,
        can_rotate(file, id) <==> has_credential(file, id) && forall|k: int|
            0 <= k < file.credentials.len() && (#[trigger] file.credentials[k]).id == id
                ==> file.credentials[k].generation < u64::MAX,
        !has_credential(file, id) ==> (refuses_rotation(e, file, id) <==> (e matches
            AuthError::CredentialNotFound(m) && m@ == id)),
        has_credential(file, id) ==> (refuses_rotation(e, file, id) <==> (e matches
            AuthError::GenerationsExhausted(m) && m@ == id)),
{
    let creds = file.credentials;
    lemma_latest(creds, id, creds.len());
    if has_credential(file, id) {
        let k = choose|k: int| 0 <= k < creds.len() && (#[trigger] creds[k]).id == id;
        assert(creds[k].id == id);
    }
}

/// Each error says what its words are about.
pub proof fn law_errors_say_what_they_are_about(e: AuthError, what: Seq<char>)
    ensures
        is_malformed(e, what) <==> (e matches AuthError::Malformed(m) && m@ == what),
        is_not_found(e, what) <==> (e matches AuthError::CredentialNotFound(m) && m@ == what),
        is_exhausted(e, what) <==> (e matches AuthError::GenerationsExhausted(m) && m@ == what),
        is_random(e) <==> e is Random,
{
}

/// Tokens are all readable exactly when none has an error; the first that has one
/// has none before it.
pub proof fn law_the_first_unreadable_token_is_told(tokens: Seq<Seq<char>>, k: int)
    ensures
        all_readable(tokens) <==> forall|j: int|
            0 <= j < tokens.len() ==> hex_decoded(#[trigger] tokens[j]) is Some && tokens[j].len()
                == 64,
        is_first_bad(tokens, k) ==> 0 <= k < tokens.len() && !(hex_decoded(tokens[k]) is Some
            && tokens[k].len() == 64),
        is_first_bad(tokens, k) ==> forall|j: int|
            0 <= j < k ==> hex_decoded(#[trigger] tokens[j]) is Some && tokens[j].len() == 64,
{
    if all_readable(tokens) {
        assert forall|j: int| 0 <= j < tokens.len() implies hex_decoded(#[trigger] tokens[j]) is Some
            && tokens[j].len() == 64 by {
            assert(legacy_error(tokens[j]) is None);
            law_a_legacy_token_is_64_digits(tokens[j]);
        }
    }
    if forall|j: int|
        0 <= j < tokens.len() ==> hex_decoded(#[trigger] tokens[j]) is Some && tokens[j].len()
            == 64 {
        assert forall|j: int| 0 <= j < tokens.len() implies legacy_error(#[trigger] tokens[j])
            is None by {
            law_a_legacy_token_is_64_digits(tokens[j]);
        }
    }
    if is_first_bad(tokens, k) {
        law_a_legacy_token_is_64_digits(tokens[k]);
        assert forall|j: int| 0 <= j < k implies hex_decoded(#[trigger] tokens[j]) is Some
            && tokens[j].len() == 64 by {
            assert(legacy_error(tokens[j]) is None);
            law_a_legacy_token_is_64_digits(tokens[j]);
        }
    }
}

/// The contents of a list are those of its items, in order.
pub proof fn law_records_are_viewed_in_order(records: Seq<CredentialRecord>, k: int)
    requires
        0 <= k < records.len(),
    ensures
        record_views(records).len() == records.len(),
        record_views(records)[k] == records[k]@,
        records[k]@.id == records[k].id@,
        records[k]@.verifier == records[k].verifier@,
        records[k]@.principal == records[k].principal@,
        records[k]@.issued_at == records[k].issued_at,
        records[k]@.expires_at == records[k].expires_at,
        records[k]@.revoked_at == records[k].revoked_at,
        records[k]@.generation == records[k].generation,
        records[k]@.scopes.len() == records[k].scopes@.len(),
        forall|i: int|
            0 <= i < records[k].scopes@.len() ==> #[trigger] records[k]@.scopes[i]
                == records[k].scopes@[i]@,
{
}

/// A mint adds one record, under 16 drawn bytes in hexadecimal, for a secret of 32
/// drawn bytes that it gives in hexadecimal, dated by the clock.
pub proof fn law_a_mint_is_drawn_and_dated(
    before: FileView,
    after: FileView,
    minted: MintedView,
    principal: Option<&str>,
    scopes: Seq<Seq<char>>,
    expires_at: Option<Timestamp>,
)
    requires
        is_mint(before, after, minted, principal, scopes, expires_at),
    ensures
        after.credentials.len() == before.credentials.len() + 1,
        after.credentials.drop_last() == before.credentials,
        minted.generation == 1,
        minted.id == after.credentials.last().id,
        exists|bytes: RandomBytes|
            bytes@.len() == 16 && minted.id == #[trigger] hex_encoded(bytes@),
        exists|secret: RandomBytes|
            {
                &&& secret@.len() == 32
                &&& minted.secret == #[trigger] hex_encoded(secret@)
                &&& after.credentials.last().verifier == "sha256:"@ + hex_encoded(sha256(secret@))
            },
        exists|now: ClockReading| after.credentials.last().issued_at == #[trigger] now@,
        after.credentials.last().scopes == scopes,
        after.credentials.last().expires_at == expires_at,
        after.credentials.last().revoked_at is None,
        principal is Some ==> after.credentials.last().principal == principal->0@,
        principal is None ==> after.credentials.last().principal == "remote-consumer:"@ + minted.id,
{
    let (id, secret, now) = choose|id: Seq<char>, secret: RandomBytes, now: ClockReading|
        {
            &&& is_drawn_id(id)
            &&& secret@.len() == TOKEN_LEN
            &&& after == with_record(
                before,
                #[trigger] minted_record(id, secret@, principal, scopes, expires_at, now@),
            )
            &&& verifies(after.credentials.last(), secret@)
            &&& minted == (MintedView { id, generation: 1, secret: hex_encoded(secret@) })
        };
    let at = now@;
    assert(after.credentials.drop_last() =~= before.credentials);
}

/// A rotation that succeeds adds a secret of 32 drawn bytes, given in
/// hexadecimal, and keeps the generations so far good until the overlap has
/// passed.
pub proof fn law_a_rotation_is_drawn(
    before: FileView,
    after: FileView,
    id: Seq<char>,
    overlap: Span,
    now: Timestamp,
    r: Result<MintedCredential, AuthError>,
)
    requires
        rotates(before, after, id, overlap, now, r),
    ensures
        r is Ok ==> {
            let minted = r->Ok_0@;
            &&& minted.id == id
            &&& minted.generation == after.credentials.last().generation
            &&& exists|secret: RandomBytes|
                {
                    &&& secret@.len() == 32
                    &&& minted.secret == hex_encoded(secret@)
                    &&& after == #[trigger] rotated(
                        before,
                        id,
                        moved(now, overlap),
                        now,
                        secret@,
                    )
                }
        },
        r is Err ==> after == before,
        r is Err && can_rotate(before, id) ==> r->Err_0 is Random,
        r is Err && !can_rotate(before, id) ==> refuses_rotation(r->Err_0, before, id),
        r is Ok ==> can_rotate(before, id),
{
}

} // verus!
