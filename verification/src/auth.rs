//! The authentication gate: bearer-token credentials, the credential
//! store, and header validation.
//!
//! The store is built once at startup and never changes afterwards; every
//! request is checked against it before any protocol work happens.

use crate::text::{chars_of, is_char_prefix, starts_with_chars, str_eq};
use vstd::prelude::*;
use vstd::string::StrSliceExecFns;

verus! {

/// Why authentication failed.
#[derive(Clone, Copy, PartialEq, Eq, Structural, Debug)]
pub enum AuthError {
    /// No `authorization` header was present.
    MissingToken,
    /// The header was present but not of the form `Bearer <token>`.
    InvalidFormat,
    /// The token is not a key of the credential store.
    InvalidToken,
}

/// The values of a sequence of string pairs.
pub open spec fn pairs_view(s: Seq<(String, String)>) -> Seq<(Seq<char>, Seq<char>)>
    decreases s.len(),
{
    if s.len() == 0 {
        Seq::empty()
    } else {
        pairs_view(s.drop_last()).push((s.last().0@, s.last().1@))
    }
}

/// `pairs_view` maps the views over the sequence, element by element.
pub broadcast proof fn lemma_pairs_view(s: Seq<(String, String)>)
    ensures
        (#[trigger] pairs_view(s)).len() == s.len(),
        forall|i: int| 0 <= i < s.len() ==> pairs_view(s)[i] == (s[i].0@, s[i].1@),
    decreases s.len(),
{
    if s.len() > 0 {
        lemma_pairs_view(s.drop_last());
        assert forall|i: int| 0 <= i < s.len() implies pairs_view(s)[i] == (s[i].0@, s[i].1@) by {
            if i < s.len() - 1 {
                assert(s.drop_last()[i] == s[i]);
            } else {
                assert(s.last() == s[i]);
            }
        }
    }
}

/// The value bound to the first pair whose key is `k`, if any.
pub open spec fn pairs_get(pairs: Seq<(Seq<char>, Seq<char>)>, k: Seq<char>) -> Option<Seq<char>>
    decreases pairs.len(),
{
    if pairs.len() == 0 {
        None
    } else if pairs[0].0 == k {
        Some(pairs[0].1)
    } else {
        pairs_get(pairs.drop_first(), k)
    }
}

proof fn lemma_pairs_get_step(pairs: Seq<(Seq<char>, Seq<char>)>, i: int)
    requires
        0 <= i < pairs.len(),
        forall|m: int| 0 <= m < i ==> pairs[m].0 != pairs[i].0,
    ensures
        pairs_get(pairs, pairs[i].0) == Some(pairs[i].1),
    decreases i,
{
    if i > 0 {
        assert(forall|m: int| 0 <= m < i - 1 ==> pairs.drop_first()[m] == pairs[m + 1]);
        assert(pairs.drop_first()[i - 1] == pairs[i]);
        lemma_pairs_get_step(pairs.drop_first(), i - 1);
    }
}

proof fn lemma_pairs_get_none(pairs: Seq<(Seq<char>, Seq<char>)>, k: Seq<char>)
    requires
        forall|m: int| 0 <= m < pairs.len() ==> pairs[m].0 != k,
    ensures
        pairs_get(pairs, k) is None,
    decreases pairs.len(),
{
    if pairs.len() > 0 {
        assert(forall|m: int|
            0 <= m < pairs.len() - 1 ==> pairs.drop_first()[m] == pairs[m + 1]);
        lemma_pairs_get_none(pairs.drop_first(), k);
    }
}

/// Looks up `key` among string pairs: the first pair with that key.
fn pairs_lookup<'a>(pairs: &'a Vec<(String, String)>, key: &str) -> (r: Option<&'a String>)
    ensures
        match r {
            Some(v) => pairs_get(pairs_view(pairs@), key@) == Some(v@),
            None => pairs_get(pairs_view(pairs@), key@) is None,
        },
{
    proof {
        lemma_pairs_view(pairs@);
    }
    let n: usize = pairs.len();
    let mut i: usize = 0;
    while i < n
        invariant
            n == pairs@.len(),
            0 <= i <= n,
            forall|m: int| 0 <= m < i ==> (#[trigger] pairs@[m]).0@ != key@,
        decreases n - i,
    {
        if str_eq(pairs[i].0.as_str(), key) {
            proof {
                lemma_pairs_view(pairs@);
                lemma_pairs_get_step(pairs_view(pairs@), i as int);
            }
            return Some(&pairs[i].1);
        }
        i = i + 1;
    }
    proof {
        lemma_pairs_view(pairs@);
        lemma_pairs_get_none(pairs_view(pairs@), key@);
    }
    None
}

/// A user's credentials: the username, the API key the user presents,
/// and named keys for external services.
#[derive(Debug)]
pub struct UserCredentials {
    pub username: String,
    pub api_key: String,
    pub external_keys: Vec<(String, String)>,
}

/// The value of a `UserCredentials`.
pub struct CredentialsV {
    pub username: Seq<char>,
    pub api_key: Seq<char>,
    pub external_keys: Seq<(Seq<char>, Seq<char>)>,
}

impl View for UserCredentials {
    type V = CredentialsV;

    open spec fn view(&self) -> CredentialsV {
        CredentialsV {
            username: self.username@,
            api_key: self.api_key@,
            external_keys: pairs_view(self.external_keys@),
        }
    }
}

impl Clone for UserCredentials {
    /// A copy with the same value.
    fn clone(&self) -> (r: Self)
        ensures
            r@ == self@,
    {
        let mut keys: Vec<(String, String)> = Vec::new();
        let n: usize = self.external_keys.len();
        let mut i: usize = 0;
        while i < n
            invariant
                n == self.external_keys@.len(),
                0 <= i <= n,
                keys@.len() == i,
                forall|m: int|
                    0 <= m < i ==> (#[trigger] keys@[m]).0@ == self.external_keys@[m].0@
                        && keys@[m].1@ == self.external_keys@[m].1@,
            decreases n - i,
        {
            let k = self.external_keys[i].0.clone();
            let v = self.external_keys[i].1.clone();
            keys.push((k, v));
            i = i + 1;
        }
        proof {
            lemma_pairs_view(keys@);
            lemma_pairs_view(self.external_keys@);
            assert(pairs_view(keys@) =~= pairs_view(self.external_keys@));
        }
        UserCredentials {
            username: self.username.clone(),
            api_key: self.api_key.clone(),
            external_keys: keys,
        }
    }
}

impl UserCredentials {
    /// Bundles a user's credentials.
    pub fn new(username: String, api_key: String, external_keys: Vec<(String, String)>) -> (r:
        Self)
        ensures
            r@ == (CredentialsV {
                username: username@,
                api_key: api_key@,
                external_keys: pairs_view(external_keys@),
            }),
    {
        UserCredentials { username, api_key, external_keys }
    }

    /// Looks up a named external service key.
    pub fn get_external_key(&self, key: &str) -> (r: Option<&String>)
        ensures
            match r {
                Some(v) => pairs_get(self@.external_keys, key@) == Some(v@),
                None => pairs_get(self@.external_keys, key@) is None,
            },
    {
        pairs_lookup(&self.external_keys, key)
    }
}

/// The credentials of the caller of the current request, established by
/// the authentication gate.
#[derive(Debug)]
pub struct AuthenticatedUser(pub UserCredentials);

impl View for AuthenticatedUser {
    type V = CredentialsV;

    open spec fn view(&self) -> CredentialsV {
        self.0@
    }
}

impl Clone for AuthenticatedUser {
    /// A copy with the same value.
    fn clone(&self) -> (r: Self)
        ensures
            r@ == self@,
    {
        AuthenticatedUser(self.0.clone())
    }
}

impl AuthenticatedUser {
    /// The underlying credentials.
    pub fn credentials(&self) -> (r: &UserCredentials)
        ensures
            r@ == self@,
    {
        &self.0
    }

    /// Looks up a named external service key.
    pub fn get_external_key(&self, key: &str) -> (r: Option<&String>)
        ensures
            match r {
                Some(v) => pairs_get(self@.external_keys, key@) == Some(v@),
                None => pairs_get(self@.external_keys, key@) is None,
            },
    {
        self.0.get_external_key(key)
    }
}

/// The credential store: one entry per user, looked up by API key.
/// Built once at startup; read-only afterwards.
#[derive(Debug)]
pub struct CredentialsStore {
    entries: Vec<UserCredentials>,
}

/// The values of the store's entries.
pub open spec fn creds_view(s: Seq<UserCredentials>) -> Seq<CredentialsV>
    decreases s.len(),
{
    if s.len() == 0 {
        Seq::empty()
    } else {
        creds_view(s.drop_last()).push(s.last()@)
    }
}

/// `creds_view` maps the view over the sequence, element by element.
pub broadcast proof fn lemma_creds_view(s: Seq<UserCredentials>)
    ensures
        (#[trigger] creds_view(s)).len() == s.len(),
        forall|i: int| 0 <= i < s.len() ==> creds_view(s)[i] == s[i]@,
    decreases s.len(),
{
    if s.len() > 0 {
        lemma_creds_view(s.drop_last());
        assert forall|i: int| 0 <= i < s.len() implies creds_view(s)[i] == s[i]@ by {
            if i < s.len() - 1 {
                assert(s.drop_last()[i] == s[i]);
            } else {
                assert(s.last() == s[i]);
            }
        }
    }
}

impl View for CredentialsStore {
    type V = Seq<CredentialsV>;

    closed spec fn view(&self) -> Seq<CredentialsV> {
        creds_view(self.entries@)
    }
}


impl Clone for CredentialsStore {
    /// A copy with the same entries.
    fn clone(&self) -> (r: Self)
        ensures
            r@ == self@,
    {
        let mut entries: Vec<UserCredentials> = Vec::new();
        let n: usize = self.entries.len();
        let mut i: usize = 0;
        while i < n
            invariant
                n == self.entries@.len(),
                0 <= i <= n,
                entries@.len() == i,
                forall|m: int| 0 <= m < i ==> (#[trigger] entries@[m])@ == self.entries@[m]@,
            decreases n - i,
        {
            let c = self.entries[i].clone();
            entries.push(c);
            i = i + 1;
        }
        proof {
            lemma_creds_view(entries@);
            lemma_creds_view(self.entries@);
            assert(creds_view(entries@) =~= creds_view(self.entries@));
        }
        CredentialsStore { entries }
    }
}

/// The entry under the first matching API key, if any.
pub open spec fn spec_store_get(store: Seq<CredentialsV>, api_key: Seq<char>) -> Option<
    CredentialsV,
>
    decreases store.len(),
{
    if store.len() == 0 {
        None
    } else if store[0].api_key == api_key {
        Some(store[0])
    } else {
        spec_store_get(store.drop_first(), api_key)
    }
}

proof fn lemma_store_get_step(store: Seq<CredentialsV>, i: int)
    requires
        0 <= i < store.len(),
        forall|m: int| 0 <= m < i ==> store[m].api_key != store[i].api_key,
    ensures
        spec_store_get(store, store[i].api_key) == Some(store[i]),
    decreases i,
{
    if i > 0 {
        assert(forall|m: int| 0 <= m < i - 1 ==> store.drop_first()[m] == store[m + 1]);
        assert(store.drop_first()[i - 1] == store[i]);
        lemma_store_get_step(store.drop_first(), i - 1);
    }
}

proof fn lemma_store_get_none(store: Seq<CredentialsV>, api_key: Seq<char>)
    requires
        forall|m: int| 0 <= m < store.len() ==> store[m].api_key != api_key,
    ensures
        spec_store_get(store, api_key) is None,
    decreases store.len(),
{
    if store.len() > 0 {
        assert(forall|m: int|
            0 <= m < store.len() - 1 ==> store.drop_first()[m] == store[m + 1]);
        lemma_store_get_none(store.drop_first(), api_key);
    }
}

impl CredentialsStore {
    /// An empty store.
    pub fn new() -> (r: Self)
        ensures
            r@ =~= Seq::<CredentialsV>::empty(),
    {
        let r = CredentialsStore { entries: Vec::new() };
        r
    }

    /// Adds one user's credentials under their API key. Refuses (and
    /// leaves the store unchanged) when the key is already present.
    pub fn insert(&mut self, creds: UserCredentials) -> (r: bool)
        ensures
            r == (spec_store_get(old(self)@, creds@.api_key) is None),
            r ==> final(self)@ == old(self)@.push(creds@),
            !r ==> final(self)@ == old(self)@,
    {
        proof {
            lemma_creds_view(self.entries@);
        }
        let n: usize = self.entries.len();
        let mut i: usize = 0;
        while i < n
            invariant
                n == self.entries@.len(),
                0 <= i <= n,
                forall|m: int| 0 <= m < i ==> (#[trigger] self.entries@[m]).api_key@ != creds.api_key@,
            decreases n - i,
        {
            if str_eq(self.entries[i].api_key.as_str(), creds.api_key.as_str()) {
                proof {
                    lemma_creds_view(self.entries@);
                    lemma_store_get_step(creds_view(self.entries@), i as int);
                }
                return false;
            }
            i = i + 1;
        }
        proof {
            lemma_creds_view(self.entries@);
            lemma_store_get_none(creds_view(self.entries@), creds.api_key@);
        }
        let ghost prev = self.entries@;
        self.entries.push(creds);
        proof {
            assert(self.entries@.drop_last() =~= prev);
            assert(creds_view(self.entries@) =~= creds_view(prev).push(self.entries@.last()@));
        }
        true
    }

    /// How many users the store holds.
    pub fn len(&self) -> (r: usize)
        ensures
            r == self@.len(),
    {
        proof {
            lemma_creds_view(self.entries@);
        }
        self.entries.len()
    }
}

/// Looks an API key up in the store; a copy of the credentials when the
/// key is known, nothing otherwise.
pub fn validate_api_key(api_key: &str, store: &CredentialsStore) -> (r: Option<UserCredentials>)
    ensures
        match r {
            Some(c) => spec_store_get(store@, api_key@) == Some(c@),
            None => spec_store_get(store@, api_key@) is None,
        },
{
    proof {
        lemma_creds_view(store.entries@);
    }
    let n: usize = store.entries.len();
    let mut i: usize = 0;
    while i < n
        invariant
            n == store.entries@.len(),
            0 <= i <= n,
            forall|m: int| 0 <= m < i ==> (#[trigger] store.entries@[m]).api_key@ != api_key@,
        decreases n - i,
    {
        if str_eq(store.entries[i].api_key.as_str(), api_key) {
            proof {
                lemma_creds_view(store.entries@);
                lemma_store_get_step(creds_view(store.entries@), i as int);
            }
            return Some(store.entries[i].clone());
        }
        i = i + 1;
    }
    proof {
        lemma_creds_view(store.entries@);
        lemma_store_get_none(creds_view(store.entries@), api_key@);
    }
    None
}

/// What authenticating a request yields: the caller's credentials, or
/// why the request is refused. The header must read `Bearer <token>`
/// with the exact prefix `"Bearer "`, and the token must be a key of
/// the store.
pub open spec fn spec_authenticate(
    header: Option<Seq<char>>,
    store: Seq<CredentialsV>,
) -> Result<CredentialsV, AuthError> {
    match header {
        None => Err(AuthError::MissingToken),
        Some(h) => if !is_char_prefix("Bearer "@, h) {
            Err(AuthError::InvalidFormat)
        } else {
            match spec_store_get(store, h.skip("Bearer "@.len() as int)) {
                Some(c) => Ok(c),
                None => Err(AuthError::InvalidToken),
            }
        },
    }
}

/// The authentication gate: validates the `authorization` header value
/// against the store. Runs before any protocol parsing or dispatch.
pub fn authenticate(header: Option<&str>, store: &CredentialsStore) -> (r: Result<
    UserCredentials,
    AuthError,
>)
    ensures
        match r {
            Ok(c) => spec_authenticate(
                match header {
                    Some(h) => Some(h@),
                    None => None,
                },
                store@,
            ) == Ok::<CredentialsV, AuthError>(c@),
            Err(e) => spec_authenticate(
                match header {
                    Some(h) => Some(h@),
                    None => None,
                },
                store@,
            ) == Err::<CredentialsV, AuthError>(e),
        },
{
    match header {
        None => Err(AuthError::MissingToken),
        Some(h) => {
            let hchars = chars_of(h);
            let bchars = chars_of("Bearer ");
            proof {
                reveal_strlit("Bearer ");
            }
            if !starts_with_chars(&hchars, &bchars) {
                Err(AuthError::InvalidFormat)
            } else {
                let token = h.substring_char(7, h.unicode_len());
                proof {
                    assert(token@ =~= h@.skip("Bearer "@.len() as int));
                }
                match validate_api_key(token, store) {
                    Some(c) => Ok(c),
                    None => Err(AuthError::InvalidToken),
                }
            }
        },
    }
}

/// The fixed message for each authentication failure.
pub open spec fn spec_auth_error_message(e: AuthError) -> Seq<char> {
    match e {
        AuthError::MissingToken => "Missing Authorization header"@,
        AuthError::InvalidFormat => "Invalid Authorization header format. Expected: Bearer <token>"@,
        AuthError::InvalidToken => "Invalid or expired API key"@,
    }
}

/// The fixed message for an authentication failure.
pub fn auth_error_message(e: AuthError) -> (r: &'static str)
    ensures
        r@ == spec_auth_error_message(e),
{
    match e {
        AuthError::MissingToken => "Missing Authorization header",
        AuthError::InvalidFormat => "Invalid Authorization header format. Expected: Bearer <token>",
        AuthError::InvalidToken => "Invalid or expired API key",
    }
}

/// The authentication layer: holds the store that every request is
/// checked against. The transport wraps its request pipeline around it.
pub struct AuthLayer {
    credentials: CredentialsStore,
}

impl View for AuthLayer {
    type V = Seq<CredentialsV>;

    closed spec fn view(&self) -> Seq<CredentialsV> {
        self.credentials@
    }
}

impl AuthLayer {
    /// A layer over the given store.
    pub fn new(credentials: CredentialsStore) -> (r: Self)
        ensures
            r@ == credentials@,
    {
        AuthLayer { credentials }
    }

    /// The store the layer checks against.
    pub fn store(&self) -> (r: &CredentialsStore)
        ensures
            r@ == self@,
    {
        &self.credentials
    }
}

/// One user's entry in the startup configuration: the API key and any
/// external service keys.
#[derive(Debug)]
pub struct UserConfig {
    pub api_key: String,
    pub external_keys: Vec<(String, String)>,
}

/// The value of a `UserConfig`.
pub struct UserConfigV {
    pub api_key: Seq<char>,
    pub external_keys: Seq<(Seq<char>, Seq<char>)>,
}

impl View for UserConfig {
    type V = UserConfigV;

    open spec fn view(&self) -> UserConfigV {
        UserConfigV { api_key: self.api_key@, external_keys: pairs_view(self.external_keys@) }
    }
}

/// The startup configuration: usernames, each with their entry, in the
/// order the configuration source lists them.
#[derive(Debug)]
pub struct CredentialsConfig {
    pub users: Vec<(String, UserConfig)>,
}

/// The values of the configured users.
pub open spec fn users_view(s: Seq<(String, UserConfig)>) -> Seq<(Seq<char>, UserConfigV)>
    decreases s.len(),
{
    if s.len() == 0 {
        Seq::empty()
    } else {
        users_view(s.drop_last()).push((s.last().0@, s.last().1@))
    }
}

/// `users_view` maps the views over the sequence, element by element.
pub broadcast proof fn lemma_users_view(s: Seq<(String, UserConfig)>)
    ensures
        (#[trigger] users_view(s)).len() == s.len(),
        forall|i: int| 0 <= i < s.len() ==> users_view(s)[i] == (s[i].0@, s[i].1@),
    decreases s.len(),
{
    if s.len() > 0 {
        lemma_users_view(s.drop_last());
        assert forall|i: int| 0 <= i < s.len() implies users_view(s)[i] == (s[i].0@, s[i].1@) by {
            if i < s.len() - 1 {
                assert(s.drop_last()[i] == s[i]);
            } else {
                assert(s.last() == s[i]);
            }
        }
    }
}

impl View for CredentialsConfig {
    type V = Seq<(Seq<char>, UserConfigV)>;

    open spec fn view(&self) -> Seq<(Seq<char>, UserConfigV)> {
        users_view(self.users@)
    }
}

/// Building the store from the users at `i` on, given what is already in
/// it: each user is keyed by their API key; a key seen twice stops the
/// build with an error naming the user and the key.
pub open spec fn spec_build_entries(
    users: Seq<(Seq<char>, UserConfigV)>,
    i: int,
    acc: Seq<CredentialsV>,
) -> Result<Seq<CredentialsV>, Seq<char>>
    decreases users.len() - i,
{
    if i < 0 || users.len() <= i {
        Ok(acc)
    } else if spec_store_get(acc, users[i].1.api_key) is Some {
        Err("Duplicate API key found for user '"@ + users[i].0 + "': "@ + users[i].1.api_key)
    } else {
        spec_build_entries(
            users,
            i + 1,
            acc.push(
                CredentialsV {
                    username: users[i].0,
                    api_key: users[i].1.api_key,
                    external_keys: users[i].1.external_keys,
                },
            ),
        )
    }
}

/// What building the store from a configuration yields: a configuration
/// without users is refused, and so is a duplicate API key.
pub open spec fn spec_build_store(users: Seq<(Seq<char>, UserConfigV)>) -> Result<
    Seq<CredentialsV>,
    Seq<char>,
> {
    if users.len() == 0 {
        Err("No users found in credentials file"@)
    } else {
        spec_build_entries(users, 0, Seq::empty())
    }
}

/// Copies a list of string pairs.
fn clone_pairs(pairs: &Vec<(String, String)>) -> (r: Vec<(String, String)>)
    ensures
        pairs_view(r@) == pairs_view(pairs@),
{
    let mut out: Vec<(String, String)> = Vec::new();
    let n: usize = pairs.len();
    let mut i: usize = 0;
    while i < n
        invariant
            n == pairs@.len(),
            0 <= i <= n,
            out@.len() == i,
            forall|m: int|
                0 <= m < i ==> (#[trigger] out@[m]).0@ == pairs@[m].0@ && out@[m].1@
                    == pairs@[m].1@,
        decreases n - i,
    {
        let k = pairs[i].0.clone();
        let v = pairs[i].1.clone();
        out.push((k, v));
        i = i + 1;
    }
    proof {
        lemma_pairs_view(out@);
        lemma_pairs_view(pairs@);
        assert(pairs_view(out@) =~= pairs_view(pairs@));
    }
    out
}

/// Builds the credential store from the startup configuration, indexing
/// every user by their API key. Startup must not proceed when this
/// fails: the configuration names no user, or one API key serves two
/// users.
#[verifier::loop_isolation(false)]
pub fn build_credentials_store(config: &CredentialsConfig) -> (r: Result<CredentialsStore, String>)
    ensures
        match r {
            Ok(s) => spec_build_store(config@) == Ok::<Seq<CredentialsV>, Seq<char>>(s@),
            Err(m) => spec_build_store(config@) == Err::<Seq<CredentialsV>, Seq<char>>(m@),
        },
{
    proof {
        lemma_users_view(config.users@);
    }
    let n: usize = config.users.len();
    if n == 0 {
        return Err(String::from_str("No users found in credentials file"));
    }
    let mut store = CredentialsStore::new();
    let mut i: usize = 0;
    while i < n
        invariant
            0 <= i <= n,
            spec_build_entries(config@, 0, Seq::empty()) == spec_build_entries(
                config@,
                i as int,
                store@,
            ),
        decreases n - i,
    {
        let username = config.users[i].0.clone();
        let cfg = &config.users[i].1;
        let creds = UserCredentials {
            username,
            api_key: cfg.api_key.clone(),
            external_keys: clone_pairs(&cfg.external_keys),
        };
        let ghost credsv = creds@;
        if !store.insert(creds) {
            let mut msg = String::from_str("Duplicate API key found for user '");
            msg.append(config.users[i].0.as_str());
            msg.append("': ");
            msg.append(config.users[i].1.api_key.as_str());
            return Err(msg);
        }
        i = i + 1;
    }
    Ok(store)
}

/// An API key absent from the store is refused: presenting it as
/// `Bearer <key>` authenticates to `InvalidToken`, whose fixed message
/// is `Invalid or expired API key`.
pub proof fn lemma_unknown_key_rejected(store: Seq<CredentialsV>, key: Seq<char>)
    requires
        spec_store_get(store, key) is None,
    ensures
        spec_authenticate(Some("Bearer "@ + key), store) == Err::<CredentialsV, AuthError>(
            AuthError::InvalidToken,
        ),
        spec_auth_error_message(AuthError::InvalidToken) == "Invalid or expired API key"@,
{
    reveal_strlit("Bearer ");
    let h = "Bearer "@ + key;
    assert(h.subrange(0, "Bearer "@.len() as int) =~= "Bearer "@);
    assert(h.skip("Bearer "@.len() as int) =~= key);
}

} // verus!
