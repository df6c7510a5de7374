//! Structured bearer-credential authentication for remote consumers.
//!
//! The store holds only SHA-256 verifiers, never bearer secrets. Credentials
//! carry a stable identity and authorization metadata; enforcing scopes is the
//! caller's. Reading and writing files, and decoding them, is the caller's too:
//! this module is handed what was read and hands back what to write.
use vstd::prelude::*;
use vstd::string::*;

use crate::credentials::{
    active_at, empty_file, file_error, holds_digest, is_active, is_malformed, is_valid,
    record_views, validate_file, verifies, AuthError, CredentialFile, FileView, RecordView,
    TOKEN_LEN,
};
use crate::secrets::{clock_now, random_error_text, sha256, sha256_digest, ClockReading};
use crate::text::{
    copy_strings, debug_quoted, decimal, first_visible, push_decimal, quoted, texts, trim,
    trimmed, trimmed_start,
};
use crate::timestamp::Timestamp;

verus! {

/// The path of the credential store below the state directory.
pub open spec fn joined_path(dir: Seq<char>, name: Seq<char>) -> Seq<char> {
    if dir.len() == 0 || dir.last() == '/' {
        dir + name
    } else {
        dir.push('/') + name
    }
}

/// Default path of the remote-consumer credential store, below the state
/// directory.
pub fn default_token_store_path(state_dir: &str) -> (path: String)
    ensures
        path@ == joined_path(state_dir@, "remote-tokens"@),
{
    let n = state_dir.unicode_len();
    let mut path = state_dir.to_owned();
    if n > 0 && state_dir.get_char(n - 1) != '/' {
        path.push('/');
    }
    path.append("remote-tokens");
    path
}

/// Identity and policy metadata captured when a connection is established. It is
/// a snapshot: revocation and expiry apply to the next authentication.
#[derive(Debug, PartialEq, Eq)]
pub struct AuthenticatedCredential {
    /// Stable credential identifier, shared by its generations.
    pub id: String,
    /// Authority principal the credential represents.
    pub principal: String,
    /// Declared authorization scopes.
    pub scopes: Vec<String>,
    /// When this generation was issued.
    pub issued_at: Timestamp,
    /// When new authentication starts to fail, if ever.
    pub expires_at: Option<Timestamp>,
    /// The generation within the credential.
    pub generation: u64,
}

/// The mathematical content of an [`AuthenticatedCredential`].
#[verifier::ext_equal]
pub struct AttestationView {
    pub id: Seq<char>,
    pub principal: Seq<char>,
    pub scopes: Seq<Seq<char>>,
    pub issued_at: Timestamp,
    pub expires_at: Option<Timestamp>,
    pub generation: u64,
}

impl View for AuthenticatedCredential {
    type V = AttestationView;

    open spec fn view(&self) -> AttestationView {
        AttestationView {
            id: self.id@,
            principal: self.principal@,
            scopes: texts(self.scopes@),
            issued_at: self.issued_at,
            expires_at: self.expires_at,
            generation: self.generation,
        }
    }
}

/// What a record attests.
pub open spec fn attestation_of(r: RecordView) -> AttestationView {
    AttestationView {
        id: r.id,
        principal: r.principal,
        scopes: r.scopes,
        issued_at: r.issued_at,
        expires_at: r.expires_at,
        generation: r.generation,
    }
}

/// The last of the first `n` records that is active at `now` and verifies
/// `presented`.
pub open spec fn accepted(
    creds: Seq<RecordView>,
    presented: Seq<u8>,
    now: Timestamp,
    n: nat,
) -> Option<RecordView>
    decreases n,
{
    if n == 0 {
        None
    } else if is_active(creds[n - 1], now) && verifies(creds[n - 1], presented) {
        Some(creds[n - 1])
    } else {
        accepted(creds, presented, now, (n - 1) as nat)
    }
}

/// The outcome of presenting a secret at `now`: nothing for one of the wrong
/// length, else what the last matching active record attests.
pub open spec fn authentication(
    file: FileView,
    presented: Seq<u8>,
    now: Timestamp,
) -> Option<AttestationView> {
    if presented.len() != TOKEN_LEN {
        None
    } else {
        match accepted(file.credentials, presented, now, file.credentials.len()) {
            Some(r) => Some(attestation_of(r)),
            None => None,
        }
    }
}

pub open spec fn attested(a: Option<AuthenticatedCredential>) -> Option<AttestationView> {
    match a {
        Some(a) => Some(a@),
        None => None,
    }
}

impl AuthError {
    /// The error in words. A random-source error ends in the source's own words,
    /// of which nothing is said.
    pub fn message(&self) -> (text: String)
        ensures
            match *self {
                AuthError::Io(what) => text@ == "credential store io: "@ + what@,
                AuthError::Random(_) => exists|what: Seq<char>|
                    text@ == #[trigger] ("os random source unavailable: "@ + what),
                AuthError::Malformed(what) => text@ == "malformed credential store: "@ + what@,
                AuthError::LegacyMigrationRequired => text@
                    == "legacy token store requires explicit migration"@,
                AuthError::CredentialNotFound(id) => text@ == "credential "@ + id@ + " not found"@,
                AuthError::GenerationsExhausted(id) => text@ == "credential "@ + id@
                    + " has no further generation"@,
                AuthError::OverlapOutOfRange => text@
                    == "credential overlap ends after the calendar"@,
            },
    {
        match self {
            AuthError::Io(what) => {
                let mut text = "credential store io: ".to_owned();
                text.append(what.as_str());
                text
            },
            AuthError::Random(error) => {
                let mut text = "os random source unavailable: ".to_owned();
                let what = random_error_text(error);
                text.append(what.as_str());
                text
            },
            AuthError::Malformed(what) => {
                let mut text = "malformed credential store: ".to_owned();
                text.append(what.as_str());
                text
            },
            AuthError::LegacyMigrationRequired => {
                "legacy token store requires explicit migration".to_owned()
            },
            AuthError::CredentialNotFound(id) => {
                let mut text = "credential ".to_owned();
                text.append(id.as_str());
                text.append(" not found");
                text
            },
            AuthError::GenerationsExhausted(id) => {
                let mut text = "credential ".to_owned();
                text.append(id.as_str());
                text.append(" has no further generation");
                text
            },
            AuthError::OverlapOutOfRange => {
                "credential overlap ends after the calendar".to_owned()
            },
        }
    }
}

/// What reading the credential file gave.
#[derive(Debug)]
pub enum ReadOutcome {
    /// The file's text.
    Text(String),
    /// There is no such file.
    Missing,
    /// The file could not be read, and why.
    Failed(String),
}

/// The text of the file, an empty one for a missing file.
pub open spec fn text_read(read: ReadOutcome) -> Option<Seq<char>> {
    match read {
        ReadOutcome::Text(t) => Some(t@),
        ReadOutcome::Missing => Some(Seq::empty()),
        ReadOutcome::Failed(_) => None,
    }
}

/// The text is meant as a structured store: its first visible character opens an
/// object.
pub open spec fn looks_structured(raw: Seq<char>) -> bool {
    trimmed_start(raw).len() > 0 && trimmed_start(raw)[0] == '{'
}

/// Whether the text is meant as a structured store.
pub fn is_structured(raw: &str) -> (b: bool)
    ensures
        b == looks_structured(raw@),
{
    match first_visible(raw) {
        Some(c) => c == '{',
        None => false,
    }
}

/// `r` is the outcome of loading a decoded file: the store that holds it where
/// it obeys the rules, its first error where it does not.
pub open spec fn loads_decoded(
    decoded: Result<CredentialFile, String>,
    r: Result<TokenStore, AuthError>,
) -> bool {
    match decoded {
        Err(why) => r is Err && is_malformed(r->Err_0, why@),
        Ok(file) => if is_valid(file@) {
            r is Ok && r->Ok_0@ == file@
        } else {
            r is Err && is_malformed(r->Err_0, file_error(file@)->0)
        },
    }
}

/// A snapshot of a credential store.
pub struct TokenStore {
    pub file: CredentialFile,
}

impl View for TokenStore {
    type V = FileView;

    open spec fn view(&self) -> FileView {
        self.file@
    }
}

impl TokenStore {
    /// A store of what was decoded from the file.
    pub fn from_decoded(decoded: Result<CredentialFile, String>) -> (r: Result<
        TokenStore,
        AuthError,
    >)
        ensures
            loads_decoded(decoded, r),
    {
        match decoded {
            Err(why) => Err(AuthError::Malformed(why)),
            Ok(file) => match validate_file(&file) {
                Ok(_) => Ok(TokenStore { file }),
                Err(e) => Err(e),
            },
        }
    }

    /// Load a versioned store from what was read. A missing or blank file is an
    /// empty store; legacy token lines are refused until they are migrated;
    /// anything else is decoded by `decode` and checked against the rules.
    pub fn load<D: FnOnce(&str) -> Result<CredentialFile, String>>(
        read: ReadOutcome,
        decode: D,
    ) -> (r: Result<TokenStore, AuthError>)
        requires
            forall|raw: &str| call_requires(decode, (raw,)),
        ensures
            match read {
                ReadOutcome::Failed(why) => r matches Err(AuthError::Io(m)) && m == why,
                _ => {
                    let raw = text_read(read)->0;
                    if trimmed(raw).len() == 0 {
                        r is Ok && r->Ok_0@ == empty_file()
                    } else if !looks_structured(raw) {
                        r matches Err(AuthError::LegacyMigrationRequired)
                    } else {
                        exists|text: &str, decoded: Result<CredentialFile, String>|
                            text@ == raw && #[trigger] call_ensures(decode, (text,), decoded)
                                && loads_decoded(decoded, r)
                    }
                },
            },
    {
        let raw = match read {
            ReadOutcome::Text(t) => t,
            ReadOutcome::Missing => String::new(),
            ReadOutcome::Failed(why) => {
                return Err(AuthError::Io(why));
            },
        };
        let text = raw.as_str();
        proof {
            assert(text_read(read)->0 =~= text@);
        }
        let visible = trim(text);
        if visible.len() == 0 {
            return Ok(TokenStore { file: CredentialFile::default() });
        }
        if !is_structured(text) {
            return Err(AuthError::LegacyMigrationRequired);
        }
        let decoded = decode(text);
        let ghost d = decoded;
        let r = TokenStore::from_decoded(decoded);
        proof {
            assert(call_ensures(decode, (text,), d) && loads_decoded(d, r));
        }
        r
    }

    /// Number of credential generations in this snapshot.
    pub fn len(&self) -> (n: usize)
        ensures
            n == self@.credentials.len(),
    {
        self.file.credentials.len()
    }

    /// Whether this snapshot has no credentials.
    pub fn is_empty(&self) -> (b: bool)
        ensures
            b == (self@.credentials.len() == 0),
    {
        self.file.credentials.len() == 0
    }

    /// Authenticate a bearer secret at `now`.
    pub fn authenticate_at(&self, presented: &[u8], now: Timestamp) -> (a: Option<
        AuthenticatedCredential,
    >)
        ensures
            attested(a) == authentication(self@, presented@, now),
    {
        if presented.len() != TOKEN_LEN {
            return None;
        }
        let candidate = sha256_digest(presented);
        let ghost views = self@.credentials;
        let n = self.file.credentials.len();
        let mut matched: Option<AuthenticatedCredential> = None;
        let mut i: usize = 0;
        while i < n
            invariant
                i <= n,
                n == self.file.credentials@.len(),
                views == record_views(self.file.credentials@),
                candidate@ == sha256(presented@),
                attested(matched) == (match accepted(views, presented@, now, i as nat) {
                    Some(r) => Some(attestation_of(r)),
                    None => None,
                }),
            decreases n - i,
        {
            let record = &self.file.credentials[i];
            proof {
                assert(views[i as int] == record@);
            }
            let active = active_at(record, now);
            let is_match = holds_digest(record, &candidate);
            if active && is_match {
                let found = AuthenticatedCredential {
                    id: record.id.clone(),
                    principal: record.principal.clone(),
                    scopes: copy_strings(&record.scopes),
                    issued_at: record.issued_at,
                    expires_at: record.expires_at,
                    generation: record.generation,
                };
                proof {
                    assert(found@ == attestation_of(record@));
                }
                matched = Some(found);
            }
            i = i + 1;
        }
        matched
    }

    /// Authenticate a bearer secret at the current time: the outcome is that of
    /// [`TokenStore::authenticate_at`] at the time that the clock gave.
    pub fn authenticate(&self, presented: &[u8]) -> (a: Option<AuthenticatedCredential>)
        ensures
            exists|now: ClockReading|
                attested(a) == #[trigger] authentication(self@, presented@, now@),
    {
        let now = clock_now();
        self.authenticate_at(presented, now.time())
    }

    /// Whether a bearer secret authenticates at the current time.
    pub fn verify(&self, presented: &[u8]) -> (b: bool)
        ensures
            exists|now: ClockReading|
                b == (#[trigger] authentication(self@, presented@, now@) is Some),
    {
        self.authenticate(presented).is_some()
    }

    /// A description that leaves the verifiers out.
    pub fn redacted(&self) -> (text: String)
        ensures
            text@ == "TokenStore { credentials: "@ + decimal(self@.credentials.len()) + " }"@,
    {
        let mut text = "TokenStore { credentials: ".to_owned();
        push_decimal(&mut text, self.file.credentials.len() as u64);
        text.append(" }");
        text
    }
}

/// What identifies one generation of the credential file.
#[derive(Debug, Clone, Copy, PartialEq, Eq, Structural)]
pub struct Stamp {
    pub mtime: Option<Timestamp>,
    pub len: u64,
    pub dev: u64,
    pub ino: u64,
}

/// The file is read again: it cannot be identified, or it is another generation
/// than the one held.
pub open spec fn must_reread(held: Option<Stamp>, probed: Option<Stamp>) -> bool {
    probed is None || probed != held
}

/// A last-known-good snapshot that follows the generations of its file.
pub struct ReloadingTokenStore {
    path: String,
    stamp: Option<Stamp>,
    store: TokenStore,
    reloads: u64,
}

/// The mathematical content of a [`ReloadingTokenStore`].
#[verifier::ext_equal]
pub struct CacheView {
    pub path: Seq<char>,
    pub stamp: Option<Stamp>,
    pub file: FileView,
    pub reloads: u64,
}

impl View for ReloadingTokenStore {
    type V = CacheView;

    closed spec fn view(&self) -> CacheView {
        CacheView {
            path: self.path@,
            stamp: self.stamp,
            file: self.store@,
            reloads: self.reloads,
        }
    }
}

/// The cache after a refresh that found `probed` and, where it read the file
/// again, `got`: a readable generation is taken over and counted, an unreadable
/// one changes nothing.
pub open spec fn refreshed(
    cache: CacheView,
    probed: Option<Stamp>,
    got: Result<TokenStore, AuthError>,
) -> CacheView {
    if must_reread(cache.stamp, probed) {
        match got {
            Ok(store) => CacheView {
                stamp: probed,
                file: store@,
                reloads: if cache.reloads < u64::MAX {
                    (cache.reloads + 1) as u64
                } else {
                    cache.reloads
                },
                ..cache
            },
            Err(_) => cache,
        }
    } else {
        cache
    }
}

impl ReloadingTokenStore {
    /// Wrap an already-loaded snapshot and the file generation found now.
    pub fn new(path: String, initial: TokenStore, probed: Option<Stamp>) -> (s: ReloadingTokenStore)
        ensures
            s@ == (CacheView { path: path@, stamp: probed, file: initial@, reloads: 0 }),
    {
        ReloadingTokenStore { path, stamp: probed, store: initial, reloads: 0 }
    }

    /// Wrap the outcome of loading the file.
    pub fn load(path: String, loaded: Result<TokenStore, AuthError>, probed: Option<Stamp>) -> (r:
        Result<ReloadingTokenStore, AuthError>)
        ensures
            match loaded {
                Ok(store) => r is Ok && r->Ok_0@ == (CacheView {
                    path: path@,
                    stamp: probed,
                    file: store@,
                    reloads: 0,
                }),
                Err(e) => r == Err::<ReloadingTokenStore, AuthError>(e),
            },
    {
        match loaded {
            Ok(store) => Ok(ReloadingTokenStore::new(path, store, probed)),
            Err(e) => Err(e),
        }
    }

    /// Path of the tracked file.
    pub fn path(&self) -> (p: &str)
        ensures
            p@ == self@.path,
    {
        self.path.as_str()
    }

    /// How often another generation was taken over.
    pub fn reloads(&self) -> (n: u64)
        ensures
            n == self@.reloads,
    {
        self.reloads
    }

    /// Bring the snapshot up to date with the file generation `probed`, reading
    /// the file with `read` only where it must be.
    pub fn refresh<R: FnOnce() -> Result<TokenStore, AuthError>>(
        &mut self,
        probed: Option<Stamp>,
        read: R,
    )
        requires
            call_requires(read, ()),
        ensures
            !must_reread(old(self)@.stamp, probed) ==> final(self)@ == old(self)@,
            must_reread(old(self)@.stamp, probed) ==> exists|got: Result<TokenStore, AuthError>|
                #[trigger] call_ensures(read, (), got) && final(self)@ == refreshed(
                    old(self)@,
                    probed,
                    got,
                ),
    {
        let same = match (probed, self.stamp) {
            (Some(a), Some(b)) => a == b,
            _ => false,
        };
        if !same {
            let got = read();
            let ghost g = got;
            match got {
                Ok(store) => {
                    self.stamp = probed;
                    self.store = store;
                    self.reloads = self.reloads.saturating_add(1);
                },
                Err(_) => {},
            }
            proof {
                assert(call_ensures(read, (), g));
                assert(self@ == refreshed(old(self)@, probed, g));
            }
        }
    }

    /// The current snapshot.
    pub fn snapshot(&self) -> (s: &TokenStore)
        ensures
            s@ == self@.file,
    {
        &self.store
    }

    /// Refresh, then authenticate against the current readable generation.
    pub fn authenticate<R: FnOnce() -> Result<TokenStore, AuthError>>(
        &mut self,
        probed: Option<Stamp>,
        read: R,
        presented: &[u8],
    ) -> (a: Option<AuthenticatedCredential>)
        requires
            call_requires(read, ()),
        ensures
            !must_reread(old(self)@.stamp, probed) ==> final(self)@ == old(self)@,
            must_reread(old(self)@.stamp, probed) ==> exists|got: Result<TokenStore, AuthError>|
                #[trigger] call_ensures(read, (), got) && final(self)@ == refreshed(
                    old(self)@,
                    probed,
                    got,
                ),
            exists|now: ClockReading|
                attested(a) == #[trigger] authentication(final(self)@.file, presented@, now@),
    {
        self.refresh(probed, read);
        let a = self.store.authenticate(presented);
        proof {
            let now = choose|now: ClockReading|
                attested(a) == #[trigger] authentication(self.store@, presented@, now@);
            assert(attested(a) == authentication(self@.file, presented@, now@));
        }
        a
    }

    /// Refresh, then tell whether a bearer secret authenticates.
    pub fn verify<R: FnOnce() -> Result<TokenStore, AuthError>>(
        &mut self,
        probed: Option<Stamp>,
        read: R,
        presented: &[u8],
    ) -> (b: bool)
        requires
            call_requires(read, ()),
        ensures
            !must_reread(old(self)@.stamp, probed) ==> final(self)@ == old(self)@,
            must_reread(old(self)@.stamp, probed) ==> exists|got: Result<TokenStore, AuthError>|
                #[trigger] call_ensures(read, (), got) && final(self)@ == refreshed(
                    old(self)@,
                    probed,
                    got,
                ),
            exists|now: ClockReading|
                b == (#[trigger] authentication(final(self)@.file, presented@, now@) is Some),
    {
        self.refresh(probed, read);
        let b = self.store.verify(presented);
        proof {
            let now = choose|now: ClockReading|
                b == (#[trigger] authentication(self.store@, presented@, now@) is Some);
            assert(b == (authentication(self@.file, presented@, now@) is Some));
        }
        b
    }

    /// Refresh, then count the credential generations.
    pub fn len<R: FnOnce() -> Result<TokenStore, AuthError>>(
        &mut self,
        probed: Option<Stamp>,
        read: R,
    ) -> (n: usize)
        requires
            call_requires(read, ()),
        ensures
            !must_reread(old(self)@.stamp, probed) ==> final(self)@ == old(self)@,
            must_reread(old(self)@.stamp, probed) ==> exists|got: Result<TokenStore, AuthError>|
                #[trigger] call_ensures(read, (), got) && final(self)@ == refreshed(
                    old(self)@,
                    probed,
                    got,
                ),
            n == final(self)@.file.credentials.len(),
    {
        self.refresh(probed, read);
        self.store.len()
    }

    /// Refresh, then tell whether there are no credentials.
    pub fn is_empty<R: FnOnce() -> Result<TokenStore, AuthError>>(
        &mut self,
        probed: Option<Stamp>,
        read: R,
    ) -> (b: bool)
        requires
            call_requires(read, ()),
        ensures
            !must_reread(old(self)@.stamp, probed) ==> final(self)@ == old(self)@,
            must_reread(old(self)@.stamp, probed) ==> exists|got: Result<TokenStore, AuthError>|
                #[trigger] call_ensures(read, (), got) && final(self)@ == refreshed(
                    old(self)@,
                    probed,
                    got,
                ),
            b == (final(self)@.file.credentials.len() == 0),
    {
        self.refresh(probed, read);
        self.store.is_empty()
    }

    /// A description that leaves the verifiers out.
    pub fn redacted(&self) -> (text: String)
        ensures
            text@ == "ReloadingTokenStore { path: "@ + quoted(self@.path) + ", credentials: "@
                + decimal(self@.file.credentials.len()) + " }"@,
    {
        let mut text = "ReloadingTokenStore { path: ".to_owned();
        let path = debug_quoted(self.path.as_str());
        text.append(path.as_str());
        text.append(", credentials: ");
        push_decimal(&mut text, self.store.len() as u64);
        text.append(" }");
        text
    }
}

} // verus!
