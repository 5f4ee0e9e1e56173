//! Admin authentication: one account, made by the first login, and the
//! sessions that later logins open.

use vstd::prelude::*;
use crate::digest::{hash_with_salt, salted_hash};
use crate::fault::Fault;
use crate::ids::{generate_token, is_token};

verus! {

/// The length of a salt.
pub const SALT_LENGTH: usize = 16;

/// The length of a session token.
pub const TOKEN_LENGTH: usize = 48;

/// The admin's identity.
#[derive(Debug)]
pub struct AdminAccount {
    pub username: String,
    /// The salted digest of the password.
    pub password_hash: String,
    pub salt: String,
}

/// An account as contracts see it.
pub struct AccountView {
    pub username: Seq<char>,
    pub password_hash: Seq<char>,
    pub salt: Seq<char>,
}

impl View for AdminAccount {
    type V = AccountView;

    open spec fn view(&self) -> AccountView {
        AccountView {
            username: self.username@,
            password_hash: self.password_hash@,
            salt: self.salt@,
        }
    }
}

/// An open admin session.
#[derive(Debug)]
pub struct Session {
    /// The opaque token that stands for the session.
    pub token: String,
    /// The Unix time at which the session was opened.
    pub created_at: i64,
}

/// A session as contracts see it.
pub struct SessionView {
    pub token: Seq<char>,
    pub created_at: int,
}

impl View for Session {
    type V = SessionView;

    open spec fn view(&self) -> SessionView {
        SessionView { token: self.token@, created_at: self.created_at as int }
    }
}

/// Why a login or an admin request was refused.
#[derive(Clone, Copy, Debug, PartialEq, Eq, Structural)]
pub enum AuthError {
    /// The request named no user or no password.
    MissingCredentials,
    /// The user or the password is not the admin's.
    InvalidCredentials,
    /// The request carries no token of an open session.
    InvalidSession,
}

impl AuthError {
    /// Every refusal of the administration is the client's fault.
    pub open spec fn fault_of(&self) -> Fault {
        Fault::Client
    }

    /// Whose fault the refusal is.
    pub fn fault(&self) -> (f: Fault)
        ensures
            f == self.fault_of(),
    {
        Fault::Client
    }
}

/// The views of `sessions`, in order.
pub open spec fn session_views(sessions: Seq<Session>) -> Seq<SessionView> {
    Seq::new(sessions.len(), |i: int| sessions[i]@)
}

/// Some session of `sessions` has the token `token`.
pub open spec fn has_session(sessions: Seq<SessionView>, token: Seq<char>) -> bool {
    exists|i: int| 0 <= i < sessions.len() && (#[trigger] sessions[i]).token == token
}

/// No two sessions of `sessions` share a token.
pub open spec fn unique_tokens(sessions: Seq<SessionView>) -> bool {
    forall|i: int, j: int|
        0 <= i < sessions.len() && 0 <= j < sessions.len() && i != j ==> (
        #[trigger] sessions[i]).token != (#[trigger] sessions[j]).token
}

/// `sessions` with a session for `token`, opened at `now` unless one is
/// open already.
pub open spec fn with_session(sessions: Seq<SessionView>, token: Seq<char>, now: int) -> Seq<
    SessionView,
> {
    if has_session(sessions, token) {
        sessions
    } else {
        sessions.push(SessionView { token, created_at: now })
    }
}

/// `sessions` without the sessions whose token is `token`.
pub open spec fn without_session(sessions: Seq<SessionView>, token: Seq<char>) -> Seq<
    SessionView,
> {
    sessions.filter(|s: SessionView| s.token != token)
}

/// The account that the first login makes.
pub open spec fn first_account(username: Seq<char>, password: Seq<char>, salt: Seq<char>)
    -> AccountView {
    AccountView { username, password_hash: salted_hash(password, salt), salt }
}

/// The credentials are those of `account`: the same user, and a password
/// with the same digest under the account's salt.
pub open spec fn accepts(account: AccountView, username: Seq<char>, password: Seq<char>)
    -> bool {
    username == account.username && salted_hash(password, account.salt) == account.password_hash
}

/// Whether a login with these credentials succeeds: always while there is
/// no account, and then only with the account's own.
pub open spec fn login_succeeds(
    account: Option<AccountView>,
    username: Seq<char>,
    password: Seq<char>,
) -> bool {
    match account {
        None => true,
        Some(a) => accepts(a, username, password),
    }
}

/// The account after a login: the first login makes it, no later one
/// changes it.
pub open spec fn account_after_login(
    account: Option<AccountView>,
    username: Seq<char>,
    password: Seq<char>,
    salt: Seq<char>,
) -> Option<AccountView> {
    match account {
        None => Some(first_account(username, password, salt)),
        Some(a) => Some(a),
    }
}

/// The account and the sessions of the administration.
pub struct AdminAuth {
    account: Option<AdminAccount>,
    sessions: Vec<Session>,
}

impl AdminAuth {
    /// The admin's account, once the first login has made it.
    pub closed spec fn account(&self) -> Option<AccountView> {
        match self.account {
            Some(a) => Some(a@),
            None => None,
        }
    }

    /// The open sessions, oldest first.
    pub closed spec fn sessions(&self) -> Seq<SessionView> {
        session_views(self.sessions@)
    }

    /// The invariant: no token stands for two sessions.
    pub open spec fn wf(&self) -> bool {
        unique_tokens(self.sessions())
    }

    /// `token` stands for an open session.
    pub open spec fn is_authorized(&self, token: Seq<char>) -> bool {
        has_session(self.sessions(), token)
    }

    /// An administration without account or sessions.
    pub fn new() -> (auth: AdminAuth)
        ensures
            auth.wf(),
            auth.account() is None,
            auth.sessions() == Seq::<SessionView>::empty(),
    {
        let auth = AdminAuth { account: None, sessions: Vec::new() };
        proof {
            assert(auth.sessions() =~= Seq::<SessionView>::empty());
        }
        auth
    }

    /// An administration with the account and no sessions, as it is read
    /// back from where it was persisted.
    pub fn with_account(account: Option<AdminAccount>) -> (auth: AdminAuth)
        ensures
            auth.wf(),
            auth.account() == match account {
                Some(a) => Some(a@),
                None => None,
            },
            auth.sessions() == Seq::<SessionView>::empty(),
    {
        let auth = AdminAuth { account, sessions: Vec::new() };
        proof {
            assert(auth.sessions() =~= Seq::<SessionView>::empty());
        }
        auth
    }

    /// The admin's account, if the first login has been made.
    pub fn admin_account(&self) -> (r: Option<&AdminAccount>)
        ensures
            match r {
                Some(a) => self.account() == Some(a@),
                None => self.account() is None,
            },
    {
        self.account.as_ref()
    }

    /// The number of open sessions.
    pub fn session_count(&self) -> (n: usize)
        ensures
            n == self.sessions().len(),
    {
        self.sessions.len()
    }

    fn session_index(&self, token: &str) -> (r: Option<usize>)
        ensures
            match r {
                Some(i) => i < self.sessions().len() && self.sessions()[i as int].token == token@,
                None => !has_session(self.sessions(), token@),
            },
    {
        let key = String::from_str(token);
        let mut i: usize = 0;
        while i < self.sessions.len()
            invariant
                i <= self.sessions.len(),
                key@ == token@,
                self.sessions().len() == self.sessions.len(),
                forall|j: int| 0 <= j < i ==> (#[trigger] self.sessions()[j]).token != token@,
            decreases self.sessions.len() - i,
        {
            if self.sessions[i].token == key {
                proof {
                    assert(self.sessions()[i as int].token == token@);
                }
                return Some(i);
            }
            proof {
                assert(self.sessions()[i as int].token != token@);
            }
            i = i + 1;
        }
        None
    }

    /// Whether `token` stands for an open session. A request without a
    /// token is never authorized.
    pub fn authorize(&self, token: Option<&str>) -> (r: bool)
        ensures
            r == match token {
                Some(t) => self.is_authorized(t@),
                None => false,
            },
    {
        match token {
            Some(t) => self.session_index(t).is_some(),
            None => false,
        }
    }

    /// Lets a request pass that carries the token of an open session, and
    /// no other.
    pub fn check_session(&self, token: Option<&str>) -> (r: Result<(), AuthError>)
        ensures
            match r {
                Ok(()) => token matches Some(t) && self.is_authorized(t@),
                Err(e) => e == AuthError::InvalidSession && !(token matches Some(t)
                    && self.is_authorized(t@)),
            },
    {
        if self.authorize(token) {
            Ok(())
        } else {
            Err(AuthError::InvalidSession)
        }
    }

    /// Opens a session for `token`, unless one is open already.
    pub fn open_session(&mut self, token: &str, now: i64)
        requires
            old(self).wf(),
        ensures
            final(self).wf(),
            final(self).account() == old(self).account(),
            final(self).sessions() == with_session(old(self).sessions(), token@, now as int),
            final(self).is_authorized(token@),
    {
        if self.session_index(token).is_none() {
            let ghost before = self.sessions();
            self.sessions.push(Session { token: String::from_str(token), created_at: now });
            proof {
                let after = self.sessions();
                assert(after =~= before.push(SessionView { token: token@, created_at: now as int }));
                assert(after[after.len() - 1].token == token@);
                assert forall|i: int, j: int|
                    0 <= i < after.len() && 0 <= j < after.len() && i != j implies (
                #[trigger] after[i]).token != (#[trigger] after[j]).token by {
                    if i < before.len() {
                        assert(after[i] == before[i]);
                    }
                    if j < before.len() {
                        assert(after[j] == before[j]);
                    }
                }
            }
        }
    }

    /// Whether the credentials are the admin's. Without an account nobody
    /// is the admin.
    pub fn authenticate(&self, username: &str, password: &str) -> (r: bool)
        ensures
            r == match self.account() {
                Some(a) => accepts(a, username@, password@),
                None => false,
            },
    {
        match &self.account {
            None => false,
            Some(a) => {
                let user = String::from_str(username);
                if a.username != user {
                    return false;
                }
                let hash = hash_with_salt(password, a.salt.as_str());
                a.password_hash == hash
            },
        }
    }

    /// A login with the given salt and token. The first login makes the
    /// account from its credentials and `salt`, and succeeds. Every later
    /// login succeeds with the account's credentials and with no others. A
    /// login that succeeds opens a session for `token`; one that fails
    /// changes nothing.
    pub fn login_with(&mut self, username: &str, password: &str, salt: &str, token: &str, now: i64)
        -> (r: Result<(), AuthError>)
        requires
            old(self).wf(),
        ensures
            final(self).wf(),
            r is Ok <==> login_succeeds(old(self).account(), username@, password@),
            r is Ok ==> final(self).account() == account_after_login(
                old(self).account(),
                username@,
                password@,
                salt@,
            ) && final(self).sessions() == with_session(old(self).sessions(), token@, now as int)
                && final(self).is_authorized(token@),
            r is Err ==> r == Err::<(), AuthError>(AuthError::InvalidCredentials)
                && final(self).account() == old(self).account() && final(self).sessions() == old(self).sessions(),
    {
        if self.account.is_none() {
            let hash = hash_with_salt(password, salt);
            self.account = Some(
                AdminAccount {
                    username: String::from_str(username),
                    password_hash: hash,
                    salt: String::from_str(salt),
                },
            );
        }
        if !self.authenticate(username, password) {
            return Err(AuthError::InvalidCredentials);
        }
        self.open_session(token, now);
        Ok(())
    }

    /// A login. It draws a fresh salt where it makes the account, and a
    /// fresh token for the session, which it hands back.
    pub fn login(&mut self, username: &str, password: &str, now: i64) -> (r: Result<
        String,
        AuthError,
    >)
        requires
            old(self).wf(),
        ensures
            final(self).wf(),
            r is Ok <==> login_succeeds(old(self).account(), username@, password@),
            match r {
                Ok(token) => token@.len() == TOKEN_LENGTH && is_token(token@) && final(self).is_authorized(token@) && final(self).sessions() == with_session(
                    old(self).sessions(),
                    token@,
                    now as int,
                ) && exists|salt: Seq<char>|
                    salt.len() == SALT_LENGTH && is_token(salt) && final(self).account()
                        == #[trigger] account_after_login(
                        old(self).account(),
                        username@,
                        password@,
                        salt,
                    ),
                Err(e) => e == AuthError::InvalidCredentials && final(self).account() == old(self).account() && final(self).sessions() == old(self).sessions(),
            },
    {
        let salt = generate_token(SALT_LENGTH);
        let token = generate_token(TOKEN_LENGTH);
        match self.login_with(username, password, salt.as_str(), token.as_str(), now) {
            Ok(()) => {
                proof {
                    assert(final(self).account() == account_after_login(
                        old(self).account(),
                        username@,
                        password@,
                        salt@,
                    ));
                }
                Ok(token)
            },
            Err(e) => Err(e),
        }
    }

    /// Closes the session of `token`. Closing one that is not open, or
    /// none, changes nothing.
    pub fn logout(&mut self, token: Option<&str>)
        requires
            old(self).wf(),
        ensures
            final(self).wf(),
            final(self).account() == old(self).account(),
            match token {
                Some(t) => final(self).sessions() == without_session(old(self).sessions(), t@)
                    && !final(self).is_authorized(t@),
                None => final(self).sessions() == old(self).sessions(),
            },
    {
        let t = match token {
            Some(t) => t,
            None => {
                return ;
            },
        };
        let ghost before = self.sessions();
        proof {
            lemma_without_session(before, t@);
        }
        match self.session_index(t) {
            None => {
                proof {
                    lemma_filter_all(before, t@);
                }
            },
            Some(i) => {
                self.sessions.remove(i);
                proof {
                    assert(self.sessions() =~= before.remove(i as int));
                    lemma_filter_one(before, t@, i as int);
                }
            },
        }
    }
}

/// Taking out the sessions of a token leaves none of that token, leaves
/// every other session open, and keeps the tokens unique.
pub proof fn lemma_without_session(sessions: Seq<SessionView>, token: Seq<char>)
    requires
        unique_tokens(sessions),
    ensures
        !has_session(without_session(sessions, token), token),
        unique_tokens(without_session(sessions, token)),
        forall|other: Seq<char>|
            other != token ==> (#[trigger] has_session(without_session(sessions, token), other)
                <==> has_session(sessions, other)),
    decreases sessions.len(),
{
    reveal(Seq::filter);
    let keep = |s: SessionView| s.token != token;
    let rest = without_session(sessions, token);
    if sessions.len() > 0 {
        let init = sessions.drop_last();
        let last = sessions.last();
        assert forall|i: int, j: int|
            0 <= i < init.len() && 0 <= j < init.len() && i != j implies (
        #[trigger] init[i]).token != (#[trigger] init[j]).token by {
            assert(init[i] == sessions[i]);
            assert(init[j] == sessions[j]);
        }
        lemma_without_session(init, token);
        let head = without_session(init, token);
        assert(rest == if keep(last) {
            head.push(last)
        } else {
            head
        });
        if has_session(rest, token) {
            let i = choose|i: int| 0 <= i < rest.len() && (#[trigger] rest[i]).token == token;
            if i < head.len() {
                assert(head[i].token == token);
            }
            assert(false);
        }
        assert forall|other: Seq<char>| other != token implies (#[trigger] has_session(
            rest,
            other,
        ) <==> has_session(sessions, other)) by {
            if has_session(rest, other) {
                let i = choose|i: int| 0 <= i < rest.len() && (#[trigger] rest[i]).token == other;
                if i < head.len() {
                    assert(head[i].token == other);
                    assert(has_session(head, other));
                    let k = choose|k: int|
                        0 <= k < init.len() && (#[trigger] init[k]).token == other;
                    assert(sessions[k].token == other);
                } else {
                    assert(sessions[sessions.len() - 1].token == other);
                }
            }
            if has_session(sessions, other) {
                let k = choose|k: int|
                    0 <= k < sessions.len() && (#[trigger] sessions[k]).token == other;
                if k < init.len() {
                    assert(init[k].token == other);
                    assert(has_session(init, other));
                    assert(has_session(head, other));
                    let i = choose|i: int|
                        0 <= i < head.len() && (#[trigger] head[i]).token == other;
                    assert(rest[i].token == other);
                } else {
                    assert(rest[rest.len() - 1].token == other);
                }
            }
        }
        assert forall|i: int, j: int|
            0 <= i < rest.len() && 0 <= j < rest.len() && i != j implies (
        #[trigger] rest[i]).token != (#[trigger] rest[j]).token by {
            if i < head.len() && j < head.len() {
                assert(rest[i] == head[i]);
                assert(rest[j] == head[j]);
            } else {
                let k = if i < head.len() {
                    i
                } else {
                    j
                };
                assert(rest[k] == head[k]);
                if head[k].token == last.token {
                    assert(has_session(head, last.token));
                    assert(has_session(init, last.token));
                    let m = choose|m: int|
                        0 <= m < init.len() && (#[trigger] init[m]).token == last.token;
                    assert(sessions[m].token == sessions[sessions.len() - 1].token);
                    assert(false);
                }
            }
        }
    }
}

proof fn lemma_filter_all(sessions: Seq<SessionView>, token: Seq<char>)
    requires
        !has_session(sessions, token),
    ensures
        without_session(sessions, token) == sessions,
    decreases sessions.len(),
{
    reveal(Seq::filter);
    if sessions.len() > 0 {
        let init = sessions.drop_last();
        assert forall|i: int| 0 <= i < init.len() implies (#[trigger] init[i]).token != token by {
            assert(init[i] == sessions[i]);
        }
        lemma_filter_all(init, token);
        assert(sessions[sessions.len() - 1].token != token);
        assert(init.push(sessions.last()) =~= sessions);
    }
}

proof fn lemma_filter_one(sessions: Seq<SessionView>, token: Seq<char>, at: int)
    requires
        unique_tokens(sessions),
        0 <= at < sessions.len(),
        sessions[at].token == token,
    ensures
        without_session(sessions, token) == sessions.remove(at),
    decreases sessions.len(),
{
    reveal(Seq::filter);
    let init = sessions.drop_last();
    let last = sessions.last();
    if at == sessions.len() - 1 {
        assert forall|i: int| 0 <= i < init.len() implies (#[trigger] init[i]).token != token by {
            assert(init[i] == sessions[i]);
        }
        lemma_filter_all(init, token);
        assert(sessions.remove(at) =~= init);
    } else {
        assert forall|i: int, j: int|
            0 <= i < init.len() && 0 <= j < init.len() && i != j implies (
        #[trigger] init[i]).token != (#[trigger] init[j]).token by {
            assert(init[i] == sessions[i]);
            assert(init[j] == sessions[j]);
        }
        assert(init[at] == sessions[at]);
        lemma_filter_one(init, token, at);
        assert(sessions[sessions.len() - 1].token != sessions[at].token);
        assert(sessions.remove(at) =~= init.remove(at).push(last));
    }
}

/// A login with the credentials that made the account succeeds.
pub proof fn lemma_first_credentials_are_accepted(
    username: Seq<char>,
    password: Seq<char>,
    salt: Seq<char>,
)
    ensures
        accepts(first_account(username, password, salt), username, password),
        login_succeeds(
            account_after_login(None, username, password, salt),
            username,
            password,
        ),
{
}

/// The account from its first login on: the credentials that made it are
/// accepted; others are accepted only if they name the same user and their
/// password has the same digest under the account's salt; and no login
/// makes the account anew.
pub proof fn lemma_bootstrap_then_login(
    username: Seq<char>,
    password: Seq<char>,
    salt: Seq<char>,
    other_user: Seq<char>,
    other_password: Seq<char>,
    other_salt: Seq<char>,
)
    ensures
        login_succeeds(None, username, password),
        login_succeeds(
            account_after_login(None, username, password, salt),
            username,
            password,
        ),
        login_succeeds(
            account_after_login(None, username, password, salt),
            other_user,
            other_password,
        ) <==> other_user == username && salted_hash(other_password, salt) == salted_hash(
            password,
            salt,
        ),
        account_after_login(
            account_after_login(None, username, password, salt),
            other_user,
            other_password,
            other_salt,
        ) == account_after_login(None, username, password, salt),
{
}

/// Once there is an account, no login changes it, whatever its credentials.
pub proof fn lemma_account_is_made_once(
    account: AccountView,
    username: Seq<char>,
    password: Seq<char>,
    salt: Seq<char>,
)
    ensures
        account_after_login(Some(account), username, password, salt) == Some(account),
{
}

/// A session that was opened authorizes its token until it is closed, and
/// not after.
pub proof fn lemma_session_life(sessions: Seq<SessionView>, token: Seq<char>, now: int)
    requires
        unique_tokens(sessions),
    ensures
        has_session(with_session(sessions, token, now), token),
        !has_session(without_session(with_session(sessions, token, now), token), token),
{
    let opened = with_session(sessions, token, now);
    if !has_session(sessions, token) {
        assert(opened[opened.len() - 1].token == token);
        assert forall|i: int, j: int|
            0 <= i < opened.len() && 0 <= j < opened.len() && i != j implies (
        #[trigger] opened[i]).token != (#[trigger] opened[j]).token by {
            if i < sessions.len() {
                assert(opened[i] == sessions[i]);
            }
            if j < sessions.len() {
                assert(opened[j] == sessions[j]);
            }
        }
    }
    lemma_without_session(opened, token);
}

} // verus!
