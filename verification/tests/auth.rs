use phux_core_logic::atomic_write::{draw_temp_name, next_write_step, temp_name, WriteStep};
use phux_core_logic::auth::{
    default_token_store_path, ReadOutcome, ReloadingTokenStore, Stamp, TokenStore,
};
use phux_core_logic::credentials::{
    copy_record, decode_secret, decode_verifier, encode_verifier, validate_file, AuthError,
    CredentialFile, CredentialRecord, TOKEN_LEN,
};
use phux_core_logic::issuing::{
    migrate_legacy_store, migrate_with, mint_credential, mint_token, mint_with, revoke_at,
    revoke_credential, rotate_credential, rotate_credential_at, rotate_with, MintedCredential,
};
use phux_core_logic::timestamp::{Span, Timestamp, LAST_SECOND};

const TERMINAL_CONTROL_SCOPE: &str = "terminal.control";

fn now() -> Timestamp {
    let now = chrono::Utc::now();
    Timestamp { secs: now.timestamp(), nanos: now.timestamp_subsec_nanos() }
}

fn later(t: Timestamp, secs: i64) -> Timestamp {
    Timestamp { secs: t.secs + secs, nanos: t.nanos }
}

fn seconds(secs: i64) -> Span {
    Span { secs, nanos: 0 }
}

fn scopes() -> Vec<String> {
    vec![TERMINAL_CONTROL_SCOPE.to_owned()]
}

fn secret(minted: &MintedCredential) -> Vec<u8> {
    hex::decode(minted.secret()).unwrap()
}

fn store_of(file: CredentialFile) -> TokenStore {
    match TokenStore::from_decoded(Ok(file)) {
        Ok(store) => store,
        Err(e) => panic!("{}", e.message()),
    }
}

fn copy_file(file: &CredentialFile) -> CredentialFile {
    CredentialFile {
        version: file.version,
        credentials: file.credentials.iter().map(copy_record).collect(),
    }
}

fn record(id: &str, secret: &[u8], issued_at: Timestamp) -> CredentialRecord {
    CredentialRecord {
        id: id.to_owned(),
        verifier: encode_verifier(secret),
        principal: "device:test".to_owned(),
        scopes: scopes(),
        issued_at,
        expires_at: None,
        revoked_at: None,
        generation: 1,
    }
}

fn stamp(n: u64) -> Option<Stamp> {
    Some(Stamp { mtime: None, len: n, dev: 1, ino: 2 })
}

fn unread() -> Result<TokenStore, AuthError> {
    panic!("the store must not be read again")
}

#[test]
fn expiry_and_revocation_fail_closed() {
    let now = now();
    let token = [0x44; TOKEN_LEN];
    let mut base = record("cred", &token, later(now, -60));
    base.expires_at = Some(later(now, 1));
    let mut revoked = copy_record(&base);
    let store = TokenStore { file: CredentialFile { version: 1, credentials: vec![base] } };
    assert!(store.authenticate_at(&token, now).is_some());
    assert!(store.authenticate_at(&token, later(now, 1)).is_none());
    revoked.expires_at = None;
    revoked.revoked_at = Some(now);
    let store = TokenStore { file: CredentialFile { version: 1, credentials: vec![revoked] } };
    assert!(store.authenticate_at(&token, now).is_none());
}

#[test]
fn rotation_has_bounded_ab_overlap_and_preserves_identity() {
    let mut file = CredentialFile::default();
    let first = mint_credential(&mut file, Some("device:a"), &scopes(), None).unwrap();
    let first_secret = secret(&first);
    let now = later(now(), 1);
    let second = rotate_credential_at(&mut file, &first.id, seconds(300), now).unwrap();
    let second_secret = secret(&second);
    let store = store_of(file);
    assert_eq!(store.authenticate_at(&first_secret, now).unwrap().generation, 1);
    let current = store.authenticate_at(&second_secret, now).unwrap();
    assert_eq!(current.id, first.id);
    assert_eq!(current.principal, "device:a");
    assert_eq!(current.generation, 2);
    assert!(store.authenticate_at(&first_secret, later(now, 300)).is_none());
    assert!(store.authenticate_at(&second_secret, later(now, 300)).is_some());
}

#[test]
fn unchanged_store_is_statted_without_re_reading() {
    let mut file = CredentialFile::default();
    let minted = mint_credential(&mut file, None, &scopes(), None).unwrap();
    let bearer = secret(&minted);
    let mut store =
        ReloadingTokenStore::load("credentials".to_owned(), Ok(store_of(file)), stamp(1)).unwrap();
    for _ in 0..8 {
        assert!(store.verify(stamp(1), unread, &bearer));
    }
    assert_eq!(store.reloads(), 0);
}

#[test]
fn revocation_affects_new_authentication_not_established_attestation() {
    let mut file = CredentialFile::default();
    let minted = mint_credential(&mut file, Some("device:a"), &scopes(), None).unwrap();
    let bearer = secret(&minted);
    let mut live = ReloadingTokenStore::load(
        "credentials".to_owned(),
        Ok(store_of(copy_file(&file))),
        stamp(1),
    )
    .unwrap();
    let established = live.authenticate(stamp(1), unread, &bearer).unwrap();
    revoke_credential(&mut file, &minted.id).unwrap();
    assert!(
        live.authenticate(stamp(2), move || Ok(store_of(file)), &bearer).is_none(),
        "next handshake is revoked"
    );
    assert_eq!(
        established.principal, "device:a",
        "established session retains its captured attestation"
    );
}

#[test]
fn a_mint_stores_only_a_verifier() {
    let mut file = CredentialFile::default();
    let minted = mint_credential(&mut file, Some("device:cockpit"), &scopes(), None).unwrap();
    let stored = &file.credentials[0];
    assert_eq!(file.version, 1);
    assert_eq!(stored.principal, "device:cockpit");
    assert!(stored.verifier.starts_with("sha256:"));
    assert!(!stored.verifier.contains(minted.secret()));
    assert_eq!(minted.id.len(), 32);
    let auth = store_of(file).authenticate(&secret(&minted)).unwrap();
    assert_eq!(auth.id, minted.id);
    assert_eq!(auth.principal, "device:cockpit");
    assert_eq!(auth.scopes, [TERMINAL_CONTROL_SCOPE]);
    assert_eq!(auth.generation, 1);
}

#[test]
fn a_token_is_a_terminal_only_credential() {
    let mut file = CredentialFile::default();
    let token = mint_token(&mut file).unwrap();
    let id = file.credentials[0].id.clone();
    assert_eq!(file.credentials[0].principal, format!("remote-consumer:{id}"));
    let store = store_of(file);
    assert_eq!(store.len(), 1);
    assert!(!store.is_empty());
    let auth = store.authenticate(&hex::decode(token).unwrap()).unwrap();
    assert_eq!(auth.scopes, [TERMINAL_CONTROL_SCOPE]);
    assert!(!store.verify(&[0u8; TOKEN_LEN]));
    assert!(!store.verify(&[0u8; 31]));
}

#[test]
fn a_legacy_store_survives_explicit_migration() {
    let token = "ab".repeat(TOKEN_LEN);
    let raw = format!("# old\n{token}\r\n\n  {}  ", "CD".repeat(TOKEN_LEN));
    let decode = |_: &str| -> Result<CredentialFile, String> { Err("unreachable".to_owned()) };
    assert!(matches!(
        TokenStore::load(ReadOutcome::Text(raw.clone()), decode),
        Err(AuthError::LegacyMigrationRequired)
    ));
    let file = migrate_legacy_store(&raw).unwrap();
    assert_eq!(file.credentials.len(), 2);
    assert!(!file.credentials[0].verifier.contains(&token));
    assert!(file.credentials[0].principal.starts_with("legacy-remote-consumer:"));
    let store = store_of(file);
    assert!(store.verify(&hex::decode(&token).unwrap()));
    assert!(store.verify(&[0xcd; TOKEN_LEN]));
}

#[test]
fn migration_names_what_it_cannot_read() {
    let message = |raw: &str| match migrate_legacy_store(raw) {
        Err(AuthError::Malformed(m)) => m,
        _ => panic!("expected a malformed store"),
    };
    assert_eq!(message(" {}"), "credential store is already structured");
    assert_eq!(message("xyz"), "legacy token is not hex");
    assert_eq!(message("abc"), "legacy token is not hex");
    assert_eq!(message("abcd"), "legacy token has wrong length");
    assert!(migrate_legacy_store("# nothing\n").unwrap().credentials.is_empty());
}

#[test]
fn migration_under_given_ids_is_exact() {
    let at = Timestamp { secs: 5, nanos: 6 };
    let raw = "11".repeat(TOKEN_LEN);
    let file = match migrate_with(&raw, &vec!["one".to_owned()], at) {
        Ok(file) => file,
        Err(e) => panic!("{}", e.message()),
    };
    let r = &file.credentials[0];
    assert_eq!(r.id, "one");
    assert_eq!(r.principal, "legacy-remote-consumer:one");
    assert_eq!(r.verifier, encode_verifier(&[0x11; TOKEN_LEN]));
    assert_eq!(r.issued_at, at);
    assert_eq!(r.generation, 1);
}

#[test]
fn a_verifier_is_the_digest_in_hexadecimal() {
    let expected = "sha256:ba7816bf8f01cfea414140de5dae2223b00361a396177a9cb410ff61f20015ad";
    assert_eq!(encode_verifier(b"abc"), expected);
    let digest = decode_verifier(expected).unwrap();
    assert_eq!(digest[..4], [0xba, 0x78, 0x16, 0xbf]);
    assert_eq!(
        decode_verifier(&format!("sha256:{}", "AB".repeat(32))).unwrap(),
        vec![0xab; 32]
    );
    let message = |text: &str| match decode_verifier(text) {
        Err(AuthError::Malformed(m)) => m,
        _ => panic!("expected a malformed verifier"),
    };
    assert_eq!(message("md5:00"), "credential verifier must use sha256");
    assert_eq!(message("sha256:zz"), "credential verifier is not hex");
    assert_eq!(message("sha256:é"), "credential verifier is not hex");
    assert_eq!(message("sha256:00"), "credential verifier has wrong length");
    assert_eq!(decode_secret(&"0F".repeat(32)).unwrap(), vec![0x0f; 32]);
}

#[test]
fn a_file_is_checked_record_by_record() {
    let message = |file: &CredentialFile| match validate_file(file) {
        Err(AuthError::Malformed(m)) => m,
        Ok(()) => String::new(),
        _ => panic!("expected a malformed store"),
    };
    let at = Timestamp { secs: 0, nanos: 0 };
    let file = |credentials: Vec<CredentialRecord>| CredentialFile { version: 1, credentials };
    assert_eq!(message(&file(vec![record("a", b"x", at), record("b", b"x", at)])), "");
    assert_eq!(
        message(&CredentialFile { version: 12, credentials: Vec::new() }),
        "unsupported version 12 (expected 1)"
    );
    let mut blank = record("a", b"x", at);
    blank.principal = String::new();
    assert_eq!(
        message(&file(vec![blank])),
        "credential id, principal, and generation must be present"
    );
    let mut zeroth = record("a", b"x", at);
    zeroth.generation = 0;
    assert_eq!(
        message(&file(vec![zeroth])),
        "credential id, principal, and generation must be present"
    );
    let mut odd = record("b", b"x", at);
    odd.verifier = "sha256:0".to_owned();
    assert_eq!(
        message(&file(vec![record("a", b"x", at), record("a", b"y", at), odd])),
        "duplicate credential generation a:1"
    );
}

#[test]
fn loading_tells_stores_apart() {
    let decoded = |text: &str| -> Result<CredentialFile, String> { Err(format!("bad {text}")) };
    assert!(TokenStore::load(ReadOutcome::Missing, decoded).unwrap().is_empty());
    assert!(TokenStore::load(ReadOutcome::Text(" \n\t".to_owned()), decoded).unwrap().is_empty());
    match TokenStore::load(ReadOutcome::Failed("denied".to_owned()), decoded) {
        Err(AuthError::Io(why)) => assert_eq!(why, "denied"),
        _ => panic!("expected the read error"),
    }
    match TokenStore::load(ReadOutcome::Text("\n{broken".to_owned()), decoded) {
        Err(AuthError::Malformed(m)) => assert_eq!(m, "bad \n{broken"),
        _ => panic!("expected the decode error"),
    }
    let good = |_: &str| -> Result<CredentialFile, String> { Ok(CredentialFile::default()) };
    assert!(TokenStore::load(ReadOutcome::Text("{}".to_owned()), good).unwrap().is_empty());
}

#[test]
fn the_last_matching_record_wins() {
    let at = Timestamp { secs: 10, nanos: 0 };
    let token = [9u8; TOKEN_LEN];
    let mut second = record("b", &token, at);
    second.generation = 4;
    let store = TokenStore {
        file: CredentialFile { version: 1, credentials: vec![record("a", &token, at), second] },
    };
    assert_eq!(store.authenticate_at(&token, at).unwrap().id, "b");
    assert!(
        store.authenticate_at(&token, Timestamp { secs: 9, nanos: 999_999_999 }).is_none(),
        "not issued yet"
    );
}

#[test]
fn a_rotation_takes_the_latest_generation_over() {
    let at = Timestamp { secs: 100, nanos: 0 };
    let mut older = record("a", b"1", at);
    older.generation = 7;
    older.principal = "device:latest".to_owned();
    older.expires_at = Some(Timestamp { secs: 105, nanos: 0 });
    let mut revoked = record("a", b"2", at);
    revoked.revoked_at = Some(at);
    let mut file = CredentialFile {
        version: 1,
        credentials: vec![older, revoked, record("b", b"3", at)],
    };
    let until = Timestamp { secs: 110, nanos: 0 };
    let minted = match rotate_with(&mut file, "a", until, at, &vec![5u8; TOKEN_LEN]) {
        Ok(minted) => minted,
        Err(e) => panic!("{}", e.message()),
    };
    assert_eq!(minted.generation, 8);
    assert_eq!(minted.secret(), "05".repeat(TOKEN_LEN));
    assert_eq!(file.credentials.len(), 4);
    assert_eq!(file.credentials[0].expires_at, Some(Timestamp { secs: 105, nanos: 0 }));
    assert_eq!(file.credentials[1].expires_at, None, "a revoked record is left alone");
    assert_eq!(file.credentials[2].expires_at, None, "another credential is left alone");
    assert_eq!(file.credentials[3].principal, "device:latest");
    assert_eq!(file.credentials[3].generation, 8);
    assert_eq!(file.credentials[3].issued_at, at);
    match rotate_with(&mut file, "missing", until, at, &vec![5u8; TOKEN_LEN]) {
        Err(AuthError::CredentialNotFound(id)) => assert_eq!(id, "missing"),
        _ => panic!("expected a missing credential"),
    }
    assert_eq!(file.credentials.len(), 4);
}

#[test]
fn a_negative_overlap_ends_at_once_and_an_endless_one_is_refused() {
    let mut file = CredentialFile::default();
    let minted = mint_credential(&mut file, None, &scopes(), None).unwrap();
    let first = secret(&minted);
    let at = later(now(), 1);
    rotate_credential_at(&mut file, &minted.id, seconds(-5), at).unwrap();
    let store = store_of(copy_file(&file));
    assert!(store.authenticate_at(&first, at).is_none());
    assert!(matches!(
        rotate_credential(&mut file, &minted.id, seconds(LAST_SECOND)),
        Err(AuthError::OverlapOutOfRange)
    ));
    assert!(matches!(
        rotate_credential(&mut file, "missing", seconds(LAST_SECOND)),
        Err(AuthError::CredentialNotFound(_))
    ));
    assert_eq!(file.credentials.len(), 2);
    assert_eq!(rotate_credential(&mut file, &minted.id, seconds(0)).unwrap().generation, 3);
}

#[test]
fn a_revocation_covers_every_generation() {
    let at = Timestamp { secs: 100, nanos: 0 };
    let mut second = record("a", b"2", at);
    second.generation = 2;
    let mut file = CredentialFile {
        version: 1,
        credentials: vec![record("a", b"1", at), second, record("b", b"3", at)],
    };
    assert!(revoke_at(&mut file, "a", at).is_ok());
    assert_eq!(file.credentials[0].revoked_at, Some(at));
    assert_eq!(file.credentials[1].revoked_at, Some(at));
    assert_eq!(file.credentials[2].revoked_at, None);
    assert!(matches!(revoke_at(&mut file, "c", at), Err(AuthError::CredentialNotFound(_))));
}

#[test]
fn a_mint_with_given_values_is_exact() {
    let at = Timestamp { secs: 1, nanos: 2 };
    let mut file = CredentialFile::default();
    let minted = mint_with(
        &mut file,
        "id".to_owned(),
        &vec![0xff; TOKEN_LEN],
        None,
        &scopes(),
        Some(later(at, 9)),
        at,
    );
    assert_eq!(minted.secret(), "ff".repeat(TOKEN_LEN));
    assert_eq!(file.credentials[0].principal, "remote-consumer:id");
    assert_eq!(file.credentials[0].expires_at, Some(later(at, 9)));
    let store = store_of(file);
    assert!(store.authenticate_at(&[0xff; TOKEN_LEN], later(at, 8)).is_some());
    assert!(store.authenticate_at(&[0xff; TOKEN_LEN], later(at, 9)).is_none());
}

#[test]
fn a_changed_file_is_read_once_and_a_broken_one_is_ignored() {
    let mut file = CredentialFile::default();
    let first = mint_credential(&mut file, None, &scopes(), None).unwrap();
    let mut store = ReloadingTokenStore::new(
        "credentials".to_owned(),
        store_of(copy_file(&file)),
        stamp(1),
    );
    let second = mint_credential(&mut file, None, &scopes(), None).unwrap();
    assert!(store.verify(stamp(2), move || Ok(store_of(file)), &secret(&second)));
    assert_eq!(store.reloads(), 1);
    let broken = || Err(AuthError::Malformed("broken".to_owned()));
    assert!(store.verify(stamp(3), broken, &secret(&first)));
    assert_eq!(store.reloads(), 1, "failed reads do not commit a stamp");
    assert_eq!(store.len(stamp(2), unread), 2);
    // A file that cannot be identified is read every time.
    let empty = || Ok(TokenStore { file: CredentialFile::default() });
    assert!(!store.verify(None, empty, &secret(&first)));
    assert!(store.is_empty(None, empty));
    assert_eq!(store.reloads(), 3);
    assert_eq!(store.path(), "credentials");
}

#[test]
fn descriptions_leave_secrets_out() {
    let mut file = CredentialFile::default();
    let minted = mint_credential(&mut file, None, &scopes(), None).unwrap();
    let verifier = file.credentials[0].verifier.clone();
    let store = store_of(copy_file(&file));
    let live = ReloadingTokenStore::new("a\"b".to_owned(), store_of(file), None);
    let output = format!("{} {} {}", minted.redacted(), store.redacted(), live.redacted());
    assert!(!output.contains(minted.secret()));
    assert!(!output.contains(&verifier[7..]));
    assert!(output.contains("[REDACTED]"));
    assert_eq!(store.redacted(), "TokenStore { credentials: 1 }");
    assert_eq!(live.redacted(), "ReloadingTokenStore { path: \"a\\\"b\", credentials: 1 }");
    assert_eq!(
        minted.redacted(),
        format!(
            "MintedCredential {{ id: {:?}, generation: 1, secret: \"[REDACTED]\" }}",
            minted.id
        )
    );
}

#[test]
fn errors_read_as_sentences() {
    assert_eq!(AuthError::Io("x".to_owned()).message(), "credential store io: x");
    assert_eq!(AuthError::Malformed("x".to_owned()).message(), "malformed credential store: x");
    assert_eq!(
        AuthError::LegacyMigrationRequired.message(),
        "legacy token store requires explicit migration"
    );
    assert_eq!(
        AuthError::CredentialNotFound("x".to_owned()).message(),
        "credential x not found"
    );
    let random = AuthError::Random(getrandom::Error::UNSUPPORTED);
    assert_eq!(
        random.message(),
        format!("os random source unavailable: {}", getrandom::Error::UNSUPPORTED)
    );
}

#[test]
fn spans_add_up_across_seconds() {
    let t = Timestamp { secs: 10, nanos: 700_000_000 };
    let d = Span { secs: 2, nanos: 600_000_000 };
    assert_eq!(t.plus(d), Timestamp { secs: 13, nanos: 300_000_000 });
    assert_eq!(t.plus(Span { secs: -2, nanos: 1 }), t);
    assert!(t.can_add(d));
    assert!(!t.can_add(Span { secs: i64::MAX, nanos: 0 }));
    let last = Timestamp { secs: LAST_SECOND, nanos: 999_999_999 };
    assert!(last.can_add(Span { secs: 0, nanos: 0 }));
    assert!(!last.can_add(Span { secs: 0, nanos: 1 }));
    assert_eq!(chrono::DateTime::<chrono::Utc>::MAX_UTC.timestamp(), LAST_SECOND);
}

#[test]
fn the_default_store_is_below_the_state_directory() {
    assert_eq!(default_token_store_path("/var/phux"), "/var/phux/remote-tokens");
    assert_eq!(default_token_store_path("/"), "/remote-tokens");
    assert_eq!(default_token_store_path(""), "remote-tokens");
}

#[test]
fn temporary_names_are_hidden_and_unique() {
    assert_eq!(temp_name(Some("tokens"), &vec![0x0a, 0xff]), ".tokens.0aff.tmp");
    assert_eq!(temp_name(None, &vec![]), ".credentials..tmp");
    let a = draw_temp_name(Some("tokens")).unwrap();
    let b = draw_temp_name(Some("tokens")).unwrap();
    assert_eq!(a.len(), ".tokens.".len() + 16 + ".tmp".len());
    assert_ne!(a, b);
}

#[test]
fn a_replacement_renames_only_what_was_synced() {
    let mut step = WriteStep::CreateParent;
    let mut seen = Vec::new();
    while step != WriteStep::Done {
        seen.push(step);
        step = next_write_step(step, true);
    }
    assert_eq!(
        seen,
        vec![
            WriteStep::CreateParent,
            WriteStep::DrawName,
            WriteStep::CreateTemp,
            WriteStep::WriteDocument,
            WriteStep::SyncFile,
            WriteStep::Rename,
            WriteStep::SyncParent,
        ]
    );
    assert_eq!(next_write_step(WriteStep::CreateParent, false), WriteStep::Failed);
    assert_eq!(next_write_step(WriteStep::SyncFile, false), WriteStep::RemoveTemp);
    assert_eq!(next_write_step(WriteStep::RemoveTemp, true), WriteStep::Failed);
}

#[test]
fn the_last_generation_is_not_rotated() {
    let at = Timestamp { secs: 1_000, nanos: 0 };
    let mut last = record("a", &[7u8; TOKEN_LEN], at);
    last.generation = u64::MAX;
    let mut file = CredentialFile::default();
    file.credentials.push(record("a", &[6u8; TOKEN_LEN], at));
    file.credentials.push(last);
    let exhausted = |r: Result<MintedCredential, AuthError>| match r {
        Err(e) => {
            assert!(matches!(e, AuthError::GenerationsExhausted(_)));
            assert_eq!(e.message(), "credential a has no further generation");
        },
        Ok(_) => panic!("a generation was added"),
    };
    exhausted(rotate_with(&mut file, "a", at, at, &vec![5u8; TOKEN_LEN]));
    exhausted(rotate_credential_at(&mut file, "a", seconds(300), at));
    exhausted(rotate_credential(&mut file, "a", seconds(LAST_SECOND)));
    assert_eq!(file.credentials.len(), 2);
    assert!(file.credentials.iter().all(|r| r.expires_at.is_none()));
    let store = store_of(file);
    assert_eq!(store.authenticate_at(&[7u8; TOKEN_LEN], at).unwrap().generation, u64::MAX);
}

#[test]
fn the_last_but_one_generation_is_rotated_once_more() {
    let at = Timestamp { secs: 1_000, nanos: 0 };
    let mut before = record("a", &[7u8; TOKEN_LEN], at);
    before.generation = u64::MAX - 1;
    let mut file = CredentialFile::default();
    file.credentials.push(before);
    let minted = rotate_with(&mut file, "a", later(at, 9), at, &vec![5u8; TOKEN_LEN]).unwrap();
    assert_eq!(minted.generation, u64::MAX);
    assert!(validate_file(&file).is_ok());
}

#[test]
fn a_replacement_is_done_only_after_every_step() {
    for fails in 0..7 {
        let mut step = WriteStep::CreateParent;
        for i in 0..9 {
            step = next_write_step(step, i != fails);
            assert_ne!(step, WriteStep::Done);
        }
        assert_eq!(step, WriteStep::Failed);
    }
    let mut step = WriteStep::CreateParent;
    for _ in 0..7 {
        assert_ne!(step, WriteStep::Done);
        step = next_write_step(step, true);
    }
    assert_eq!(step, WriteStep::Done);
}

#[test]
fn leap_seconds_move_as_chrono_moves_them() {
    let instants = [
        Timestamp { secs: 1_483_228_799, nanos: 1_500_000_000 },
        Timestamp { secs: 1_483_228_799, nanos: 1_000_000_000 },
        Timestamp { secs: 1_483_228_799, nanos: 999_999_999 },
        Timestamp { secs: 59, nanos: 1_999_999_999 },
        Timestamp { secs: -1, nanos: 300_000_000 },
    ];
    let spans = [
        Span { secs: 0, nanos: 0 },
        Span { secs: 0, nanos: 400_000_000 },
        Span { secs: 0, nanos: 999_999_999 },
        Span { secs: 1, nanos: 0 },
        Span { secs: 60, nanos: 700_000_000 },
        Span { secs: 86_400, nanos: 1 },
    ];
    for t in instants {
        for d in spans {
            let from = chrono::DateTime::from_timestamp(t.secs, t.nanos).unwrap();
            let moved = from + chrono::TimeDelta::new(d.secs, d.nanos).unwrap();
            assert!(t.can_add(d));
            assert_eq!(
                t.plus(d),
                Timestamp { secs: moved.timestamp(), nanos: moved.timestamp_subsec_nanos() },
                "{t:?} + {d:?}"
            );
        }
    }
}

#[test]
fn a_rotation_within_a_leap_second_overlaps_by_its_span() {
    let at = Timestamp { secs: 1_483_228_799, nanos: 1_500_000_000 };
    let mut file = CredentialFile::default();
    file.credentials.push(record("a", &[7u8; TOKEN_LEN], Timestamp { secs: 100, nanos: 0 }));
    let minted = rotate_credential_at(&mut file, "a", seconds(60), at).unwrap();
    assert_eq!(minted.generation, 2);
    assert_eq!(
        file.credentials[0].expires_at,
        Some(Timestamp { secs: 1_483_228_859, nanos: 500_000_000 })
    );
    assert_eq!(file.credentials[1].issued_at, at);
}

#[test]
fn a_minted_token_comes_back_from_the_file() {
    let mut file = CredentialFile::default();
    let earlier = mint_credential(&mut file, Some("device:a"), &scopes(), None).unwrap();
    let token = mint_token(&mut file).unwrap();
    assert_eq!(token.len(), 64);
    let added = &file.credentials[1];
    assert_eq!(added.id.len(), 32);
    assert_eq!(hex::encode(hex::decode(&added.id).unwrap()), added.id);
    assert_ne!(added.id, earlier.id);
    assert!(!added.verifier.contains(&token));
    let id = added.id.clone();
    let store = store_of(file);
    assert_eq!(store.len(), 2);
    let admitted = store.authenticate(&hex::decode(&token).unwrap()).unwrap();
    assert_eq!(admitted.id, id);
    assert_eq!(admitted.generation, 1);
    assert_eq!(admitted.scopes, scopes());
    assert_eq!(admitted.principal, format!("remote-consumer:{id}"));
    assert!(admitted.expires_at.is_none());
}
