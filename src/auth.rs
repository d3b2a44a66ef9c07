//! The user store of the server and the tokens it issues.

use vstd::prelude::*;
use vstd::string::*;

verus! {

/// An opaque handle on a user known to the store.
#[derive(Debug, Clone, PartialEq, Eq, Hash)]
pub struct User(pub(crate) String);

/// What a user may do.
#[derive(Debug, Clone, Copy, PartialEq, Eq, Structural)]
pub enum AuthLevel {
    Admin,
    ReadOnly,
}

/// A user's credentials and rights.
#[derive(Debug, Clone)]
pub struct UserAuthorization {
    pub password: String,
    pub auth_level: AuthLevel,
}

/// Why a request for tokens is refused.
#[derive(Debug, Clone, Copy, PartialEq, Eq, Structural)]
pub enum FailureReason {
    /// No user of that name.
    NoUser,
    /// The password does not match.
    IncorrectPass,
    /// The refresh token is unknown or expired.
    NoToken,
}

/// The users, by name; no name occurs twice.
#[derive(Debug, Clone)]
pub struct AuthStore {
    pub(crate) users: Vec<(String, UserAuthorization)>,
}

/// A user's authorization as the contracts see it: password and level.
pub type AuthView = (Seq<char>, AuthLevel);

/// How the contracts see an authorization.
pub open spec fn auth_view(a: UserAuthorization) -> AuthView {
    (a.password@, a.auth_level)
}

/// The authorization recorded for `name`, if any.
pub open spec fn lookup(users: Seq<(Seq<char>, AuthView)>, name: Seq<char>) -> Option<AuthView>
    decreases users.len(),
{
    if users.len() == 0 {
        None
    } else if users.last().0 == name {
        Some(users.last().1)
    } else {
        lookup(users.drop_last(), name)
    }
}

/// No name occurs twice.
pub open spec fn unique_names(users: Seq<(Seq<char>, AuthView)>) -> bool {
    forall|i: int, j: int| 0 <= i < j < users.len() ==> users[i].0 != users[j].0
}

proof fn lemma_lookup_at(users: Seq<(Seq<char>, AuthView)>, i: int)
    requires
        unique_names(users),
        0 <= i < users.len(),
    ensures
        lookup(users, users[i].0) == Some(users[i].1),
    decreases users.len(),
{
    if i < users.len() - 1 {
        assert(users.drop_last()[i] == users[i]);
        lemma_lookup_at(users.drop_last(), i);
    }
}

proof fn lemma_lookup_absent(users: Seq<(Seq<char>, AuthView)>, name: Seq<char>)
    requires
        forall|i: int| 0 <= i < users.len() ==> users[i].0 != name,
    ensures
        lookup(users, name) is None,
    decreases users.len(),
{
    if users.len() > 0 {
        assert forall|i: int| 0 <= i < users.drop_last().len() implies users.drop_last()[i].0
            != name by {
            assert(users.drop_last()[i] == users[i]);
        }
        lemma_lookup_absent(users.drop_last(), name);
    }
}

impl View for AuthStore {
    type V = Seq<(Seq<char>, AuthView)>;

    closed spec fn view(&self) -> Seq<(Seq<char>, AuthView)> {
        self.users@.map_values(|e: (String, UserAuthorization)| (e.0@, auth_view(e.1)))
    }
}

impl User {
    /// The user's name.
    pub closed spec fn name(&self) -> Seq<char> {
        self.0@
    }

    /// Another handle on the same user.
    pub fn clone_user(&self) -> (r: User)
        ensures
            r.name() == self.name(),
    {
        User(self.0.clone())
    }

    /// The user's name.
    pub fn username(&self) -> (r: &String)
        ensures
            r@ == self.name(),
    {
        &self.0
    }
}

impl AuthStore {
    /// No name occurs twice.
    pub open spec fn wf(&self) -> bool {
        unique_names(self@)
    }

    /// The authorization recorded for `name`, if any.
    pub open spec fn spec_get(&self, name: Seq<char>) -> Option<AuthView> {
        lookup(self@, name)
    }

    /// A store without users.
    pub fn new() -> (r: Self)
        ensures
            r.wf(),
            r@ == Seq::<(Seq<char>, AuthView)>::empty(),
    {
        let r = AuthStore { users: Vec::new() };
        assert(r@ =~= Seq::<(Seq<char>, AuthView)>::empty());
        r
    }

    /// The users with their authorizations, in order of creation.
    pub fn entries(&self) -> (r: &Vec<(String, UserAuthorization)>)
        ensures
            r@.len() == self@.len(),
            forall|i: int| 0 <= i < r@.len() ==> (#[trigger] r@[i]).0@ == self@[i].0 && auth_view(r@[i].1) == self@[i].1,
    {
        &self.users
    }

    /// Checks a user's password: the user, or why they are refused.
    pub fn authorize(&self, username: &str, password: &str) -> (r: Result<User, FailureReason>)
        requires
            self.wf(),
        ensures
            self.spec_get(username@) is None ==> r == Err::<User, FailureReason>(
                FailureReason::NoUser,
            ),
            self.spec_get(username@) matches Some(a) ==> {
                &&& a.0 == password@ ==> (r matches Ok(u) && u.name() == username@)
                &&& a.0 != password@ ==> r == Err::<User, FailureReason>(FailureReason::IncorrectPass)
            },
    {
        let name = String::from_str(username);
        match self.position(&name) {
            None => Err(FailureReason::NoUser),
            Some(i) => {
                let given = String::from_str(password);
                if self.users[i].1.password == given {
                    Ok(User(name))
                } else {
                    Err(FailureReason::IncorrectPass)
                }
            },
        }
    }

    /// The store written out where none exists: one administrator.
    pub fn default_store() -> (r: Self)
        ensures
            r.wf(),
            r@ == seq![
                ("admin"@, ("mcmanager"@, AuthLevel::Admin)),
            ],
    {
        let mut users: Vec<(String, UserAuthorization)> = Vec::new();
        users.push(
            (
                String::from_str("admin"),
                UserAuthorization {
                    password: String::from_str("mcmanager"),
                    auth_level: AuthLevel::Admin,
                },
            ),
        );
        let r = AuthStore { users };
        assert(r@ =~= seq![
            ("admin"@, ("mcmanager"@, AuthLevel::Admin)),
        ]);
        r
    }

    /// The position of `name` in the store.
    fn position(&self, name: &String) -> (r: Option<usize>)
        requires
            self.wf(),
        ensures
            match r {
                Some(i) => i < self@.len() && self@[i as int].0 == name@ && self.spec_get(name@)
                    == Some(self@[i as int].1),
                None => self.spec_get(name@) is None && forall|i: int|
                    0 <= i < self@.len() ==> self@[i].0 != name@,
            },
    {
        let mut i: usize = 0;
        while i < self.users.len()
            invariant
                self.wf(),
                i <= self@.len(),
                self@.len() == self.users@.len(),
                forall|j: int| 0 <= j < i ==> self@[j].0 != name@,
            decreases self@.len() - i,
        {
            if self.users[i].0 == *name {
                proof {
                    lemma_lookup_at(self@, i as int);
                }
                return Some(i);
            }
            i = i + 1;
        }
        proof {
            lemma_lookup_absent(self@, name@);
        }
        None
    }

    /// The user of that name, if the store knows one.
    pub fn get_username(&self, username: &str) -> (r: Option<User>)
        requires
            self.wf(),
        ensures
            r is Some == self.spec_get(username@) is Some,
            r matches Some(u) ==> u.name() == username@,
    {
        let name = String::from_str(username);
        match self.position(&name) {
            Some(_) => Some(User(name)),
            None => None,
        }
    }

    /// The authorization of a user.
    pub fn get<'s, 'u>(&'s self, user: &'u User) -> (r: Option<&'s UserAuthorization>)
        requires
            self.wf(),
        ensures
            match r {
                Some(a) => self.spec_get(user.name()) == Some(auth_view(*a)),
                None => self.spec_get(user.name()) is None,
            },
    {
        match self.position(&user.0) {
            Some(i) => Some(&self.users[i].1),
            None => None,
        }
    }

    /// Replaces the authorization of a user the store knows; `false`, with
    /// the store unchanged, for one it does not.
    pub fn update<'s, 'u>(&'s mut self, user: &'u User, auth: UserAuthorization) -> (r: bool)
        requires
            old(self).wf(),
        ensures
            final(self).wf(),
            r == old(self).spec_get(user.name()) is Some,
            r ==> final(self).spec_get(user.name()) == Some(auth_view(auth)),
            !r ==> final(self)@ == old(self)@,
            forall|n: Seq<char>| n != user.name() ==> final(self).spec_get(n) == old(self).spec_get(n),
    {
        match self.position(&user.0) {
            Some(i) => {
                let ghost before = self@;
                let name = self.users[i].0.clone();
                self.users.set(i, (name, auth));
                assert(self@ =~= before.update(i as int, (before[i as int].0, auth_view(auth))));
                proof {
                    lemma_lookup_at(self@, i as int);
                    assert forall|n: Seq<char>| n != user.name() implies lookup(self@, n) == lookup(
                        before,
                        n,
                    ) by {
                        lemma_lookup_other(before, i as int, auth_view(auth), n);
                    }
                }
                true
            },
            None => false,
        }
    }

    /// Records a new user; `Err`, with the store unchanged, where the name
    /// is taken.
    pub fn create(&mut self, username: String, auth: UserAuthorization) -> (r: Result<
        &UserAuthorization,
        (),
    >)
        requires
            old(self).wf(),
        ensures
            final(self).wf(),
            old(self).spec_get(username@) is Some ==> r is Err && final(self)@ == old(self)@,
            old(self).spec_get(username@) is None ==> {
                &&& r matches Ok(a) && *a == auth
                &&& final(self)@ == old(self)@.push((username@, auth_view(auth)))
                &&& final(self).spec_get(username@) == Some(auth_view(auth))
            },
    {
        match self.position(&username) {
            Some(_) => Err(()),
            None => {
                let ghost before = self@;
                self.users.push((username, auth));
                assert(self@ =~= before.push((username@, auth_view(auth))));
                assert(self@.last() == (username@, auth_view(auth)));
                let i = self.users.len() - 1;
                Ok(&self.users[i].1)
            },
        }
    }
}

proof fn lemma_lookup_other(
    users: Seq<(Seq<char>, AuthView)>,
    i: int,
    auth: AuthView,
    n: Seq<char>,
)
    requires
        0 <= i < users.len(),
        n != users[i].0,
    ensures
        lookup(users.update(i, (users[i].0, auth)), n) == lookup(users, n),
    decreases users.len(),
{
    let updated = users.update(i, (users[i].0, auth));
    if i < users.len() - 1 {
        assert(updated.drop_last() =~= users.drop_last().update(i, (users[i].0, auth)));
        assert(users.drop_last()[i] == users[i]);
        lemma_lookup_other(users.drop_last(), i, auth, n);
    } else {
        assert(updated.drop_last() =~= users.drop_last());
    }
}

/// A system time, as std hands it out.
#[verifier::external_type_specification]
#[verifier::external_body]
pub struct ExSystemTime(std::time::SystemTime);

/// Relies on `SystemTime::now`; nothing is known of the time it reads.
#[verifier::external_body]
fn system_now() -> (r: std::time::SystemTime) {
    std::time::SystemTime::now()
}

/// Relies on `SystemTime::duration_since(UNIX_EPOCH)`: the time since the
/// epoch, or `None` for a time before it.
#[verifier::external_body]
fn since_epoch(t: std::time::SystemTime) -> (r: Option<core::time::Duration>) {
    t.duration_since(std::time::UNIX_EPOCH).ok()
}

/// Relies on `Duration::as_secs`: the whole seconds of a duration.
#[verifier::external_body]
fn whole_seconds(d: core::time::Duration) -> (r: u64) {
    d.as_secs()
}

/// How long an access token lives, in seconds.
pub const AUTH_LIFETIME_SECS: u64 = 300;

/// How long a refresh token lives, in seconds.
pub const REFRESH_LIFETIME_SECS: u64 = 7200;

/// The expiry of a token issued at `now` that lives `life` seconds, held at
/// the largest time where it would pass it.
pub open spec fn expiry_at(now: u64, life: u64) -> u64 {
    if now + life > u64::MAX {
        u64::MAX
    } else {
        (now + life) as u64
    }
}

/// The part of a token pair that grants access.
#[derive(Debug, Clone)]
pub struct AuthToken {
    pub username: String,
    pub expiry: u64,
}

/// The part of a token pair that renews it.
#[derive(Debug, Clone)]
pub struct RefreshToken {
    pub username: String,
    pub expiry: u64,
}

/// An access token and the refresh token that goes with it.
#[derive(Debug, Clone)]
pub struct TokenPair {
    pub auth: AuthToken,
    pub refresh: RefreshToken,
}

impl TokenPair {
    /// The tokens for `user`, issued at `now` (seconds since the epoch).
    pub fn for_user_at(user: &User, now: u64) -> (r: TokenPair)
        ensures
            r.auth.username@ == user.name(),
            r.refresh.username@ == user.name(),
            r.auth.expiry == expiry_at(now, AUTH_LIFETIME_SECS),
            r.refresh.expiry == expiry_at(now, REFRESH_LIFETIME_SECS),
    {
        let auth = AuthToken {
            username: user.0.clone(),
            expiry: now.saturating_add(AUTH_LIFETIME_SECS),
        };
        let refresh = RefreshToken {
            username: user.0.clone(),
            expiry: now.saturating_add(REFRESH_LIFETIME_SECS),
        };
        TokenPair { auth, refresh }
    }

    /// The tokens for `user`, issued now; `None` where the system clock
    /// reads a time before the epoch.
    pub fn for_user(user: &User) -> (r: Option<TokenPair>)
        ensures
            r matches Some(p) ==> {
                &&& p.auth.username@ == user.name()
                &&& p.refresh.username@ == user.name()
                &&& exists|now: u64|
                    p.auth.expiry == expiry_at(now, AUTH_LIFETIME_SECS) && p.refresh.expiry
                        == expiry_at(now, REFRESH_LIFETIME_SECS)
            },
    {
        match since_epoch(system_now()) {
            Some(d) => Some(Self::for_user_at(user, whole_seconds(d))),
            None => None,
        }
    }
}

/// Whether a token with this expiry may still be used at `now`.
pub fn token_valid(expiry: u64, now: u64) -> (r: bool)
    ensures
        r == (now < expiry),
{
    now < expiry
}

/// The refresh tokens issued, with the user and expiry of each; no token
/// occurs twice.
pub struct RefreshTokens {
    pub(crate) entries: Vec<(String, User, u64)>,
}

/// The user and expiry recorded for `token`, if any.
pub open spec fn find_token(entries: Seq<(Seq<char>, Seq<char>, u64)>, token: Seq<char>) -> Option<
    (Seq<char>, u64),
>
    decreases entries.len(),
{
    if entries.len() == 0 {
        None
    } else if entries.last().0 == token {
        Some((entries.last().1, entries.last().2))
    } else {
        find_token(entries.drop_last(), token)
    }
}

/// No token occurs twice.
pub open spec fn unique_tokens(entries: Seq<(Seq<char>, Seq<char>, u64)>) -> bool {
    forall|i: int, j: int| 0 <= i < j < entries.len() ==> entries[i].0 != entries[j].0
}

proof fn lemma_find_at(entries: Seq<(Seq<char>, Seq<char>, u64)>, i: int)
    requires
        unique_tokens(entries),
        0 <= i < entries.len(),
    ensures
        find_token(entries, entries[i].0) == Some((entries[i].1, entries[i].2)),
    decreases entries.len(),
{
    if i < entries.len() - 1 {
        assert(entries.drop_last()[i] == entries[i]);
        lemma_find_at(entries.drop_last(), i);
    }
}

proof fn lemma_find_absent(entries: Seq<(Seq<char>, Seq<char>, u64)>, token: Seq<char>)
    requires
        forall|i: int| 0 <= i < entries.len() ==> entries[i].0 != token,
    ensures
        find_token(entries, token) is None,
    decreases entries.len(),
{
    if entries.len() > 0 {
        assert forall|i: int| 0 <= i < entries.drop_last().len() implies entries.drop_last()[i].0
            != token by {
            assert(entries.drop_last()[i] == entries[i]);
        }
        lemma_find_absent(entries.drop_last(), token);
    }
}

proof fn lemma_find_without(entries: Seq<(Seq<char>, Seq<char>, u64)>, i: int, token: Seq<char>)
    requires
        unique_tokens(entries),
        0 <= i < entries.len(),
        token != entries[i].0,
    ensures
        find_token(entries.remove(i), token) == find_token(entries, token),
    decreases entries.len(),
{
    let rest = entries.remove(i);
    if i < entries.len() - 1 {
        assert(rest.drop_last() =~= entries.drop_last().remove(i));
        assert(rest.last() == entries.last());
        assert(entries.drop_last()[i] == entries[i]);
        lemma_find_without(entries.drop_last(), i, token);
    } else {
        assert(rest =~= entries.drop_last());
    }
}

proof fn lemma_find_absent_after_remove(entries: Seq<(Seq<char>, Seq<char>, u64)>, i: int)
    requires
        unique_tokens(entries),
        0 <= i < entries.len(),
    ensures
        find_token(entries.remove(i), entries[i].0) is None,
{
    let rest = entries.remove(i);
    assert forall|t: int| 0 <= t < rest.len() implies rest[t].0 != entries[i].0 by {
        if t < i {
            assert(rest[t] == entries[t]);
        } else {
            assert(rest[t] == entries[t + 1]);
        }
    }
    lemma_find_absent(rest, entries[i].0);
}

impl View for RefreshTokens {
    type V = Seq<(Seq<char>, Seq<char>, u64)>;

    closed spec fn view(&self) -> Seq<(Seq<char>, Seq<char>, u64)> {
        self.entries@.map_values(|e: (String, User, u64)| (e.0@, e.1.name(), e.2))
    }
}

impl RefreshTokens {
    /// No token occurs twice.
    pub open spec fn wf(&self) -> bool {
        unique_tokens(self@)
    }

    /// The user and expiry recorded for `token`, if any.
    pub open spec fn spec_find(&self, token: Seq<char>) -> Option<(Seq<char>, u64)> {
        find_token(self@, token)
    }

    /// No tokens.
    pub fn new() -> (r: Self)
        ensures
            r.wf(),
            forall|t: Seq<char>| r.spec_find(t) is None,
    {
        let r = RefreshTokens { entries: Vec::new() };
        assert(r@ =~= Seq::<(Seq<char>, Seq<char>, u64)>::empty());
        r
    }

    /// The position of `token`.
    fn position(&self, token: &String) -> (r: Option<usize>)
        requires
            self.wf(),
        ensures
            match r {
                Some(i) => i < self@.len() && self@[i as int].0 == token@,
                None => forall|i: int| 0 <= i < self@.len() ==> self@[i].0 != token@,
            },
    {
        let mut i: usize = 0;
        while i < self.entries.len()
            invariant
                i <= self@.len(),
                self@.len() == self.entries@.len(),
                forall|j: int| 0 <= j < i ==> self@[j].0 != token@,
            decreases self@.len() - i,
        {
            if self.entries[i].0 == *token {
                return Some(i);
            }
            i = i + 1;
        }
        None
    }

    /// Records a refresh token for `user`, replacing any earlier record of
    /// the same token.
    pub fn insert(&mut self, token: String, user: User, expiry: u64)
        requires
            old(self).wf(),
        ensures
            final(self).wf(),
            final(self).spec_find(token@) == Some((user.name(), expiry)),
            forall|t: Seq<char>| t != token@ ==> final(self).spec_find(t) == old(self).spec_find(t),
    {
        let ghost before = self@;
        match self.position(&token) {
            Some(i) => {
                self.entries.set(i, (token, user, expiry));
                assert(self@ =~= before.update(i as int, (token@, user.name(), expiry)));
                proof {
                    lemma_find_at(self@, i as int);
                    assert forall|t: Seq<char>| t != token@ implies find_token(self@, t)
                        == find_token(before, t) by {
                        lemma_find_replaced(before, i as int, (token@, user.name(), expiry), t);
                    }
                }
            },
            None => {
                self.entries.push((token, user, expiry));
                assert(self@ =~= before.push((token@, user.name(), expiry)));
                proof {
                    assert forall|t: Seq<char>| t != token@ implies find_token(self@, t)
                        == find_token(before, t) by {
                        assert(self@.drop_last() =~= before);
                    }
                }
            },
        }
    }

    /// Redeems a refresh token at `now`: its user while it is unexpired;
    /// `NoToken` for an unknown one, and for an expired one, which is then
    /// forgotten.
    pub fn redeem(&mut self, token: &str, now: u64) -> (r: Result<User, FailureReason>)
        requires
            old(self).wf(),
        ensures
            final(self).wf(),
            match old(self).spec_find(token@) {
                None => r == Err::<User, FailureReason>(FailureReason::NoToken) && final(self)@
                    == old(self)@,
                Some((name, expiry)) => if now < expiry {
                    &&& r matches Ok(u) && u.name() == name
                    &&& final(self)@ == old(self)@
                } else {
                    &&& r == Err::<User, FailureReason>(FailureReason::NoToken)
                    &&& final(self).spec_find(token@) is None
                    &&& forall|t: Seq<char>|
                        t != token@ ==> final(self).spec_find(t) == old(self).spec_find(t)
                },
            },
    {
        let key = String::from_str(token);
        match self.position(&key) {
            None => {
                proof {
                    lemma_find_absent(self@, token@);
                }
                Err(FailureReason::NoToken)
            },
            Some(i) => {
                proof {
                    lemma_find_at(self@, i as int);
                }
                if token_valid(self.entries[i].2, now) {
                    Ok(self.entries[i].1.clone_user())
                } else {
                    let ghost before = self@;
                    self.entries.remove(i);
                    assert(self@ =~= before.remove(i as int));
                    proof {
                        lemma_find_absent_after_remove(before, i as int);
                        assert forall|t: Seq<char>| t != token@ implies find_token(self@, t)
                            == find_token(before, t) by {
                            lemma_find_without(before, i as int, t);
                        }
                        assert forall|a: int, b: int|
                            0 <= a < b < self@.len() implies self@[a].0 != self@[b].0 by {
                            let (x, y) = (if a < i { a } else { a + 1 }, if b < i { b } else { b + 1 });
                            assert(self@[a] == before[x]);
                            assert(self@[b] == before[y]);
                        }
                    }
                    Err(FailureReason::NoToken)
                }
            },
        }
    }
}

proof fn lemma_find_replaced(
    entries: Seq<(Seq<char>, Seq<char>, u64)>,
    i: int,
    e: (Seq<char>, Seq<char>, u64),
    t: Seq<char>,
)
    requires
        0 <= i < entries.len(),
        e.0 == entries[i].0,
        t != e.0,
    ensures
        find_token(entries.update(i, e), t) == find_token(entries, t),
    decreases entries.len(),
{
    let updated = entries.update(i, e);
    if i < entries.len() - 1 {
        assert(updated.drop_last() =~= entries.drop_last().update(i, e));
        assert(entries.drop_last()[i] == entries[i]);
        lemma_find_replaced(entries.drop_last(), i, e, t);
    } else {
        assert(updated.drop_last() =~= entries.drop_last());
    }
}

/// The middleware that checks the tokens of incoming requests.
pub struct AuthMiddlewere {}

} // verus!
