//! Registered identities, keyed by email, and credential checks against them.

use crate::credential::{argon2_verdict, hash, hashable, is_argon2_digest, verify, CredentialError};
use crate::ident::random_uuid;
use vstd::prelude::*;

verus! {

/// A registered identity. The password is held only as its salted digest.
#[derive(Clone, Debug)]
pub struct User {
    pub id: u128,
    pub email: String,
    pub username: String,
    /// The salted argon2 digest of the password, as a PHC string.
    pub password: String,
}

/// The value of a `User`, as the contracts speak of it.
pub struct UserView {
    pub id: u128,
    pub email: Seq<char>,
    pub username: Seq<char>,
    pub digest: Seq<char>,
}

impl View for User {
    type V = UserView;

    open spec fn view(&self) -> UserView {
        UserView { id: self.id, email: self.email@, username: self.username@, digest: self.password@ }
    }
}

/// Why a signup or a login failed.
#[derive(Clone, Copy, Debug, PartialEq, Eq, Structural)]
pub enum UserError {
    /// No identity is registered under the email.
    NotFound,
    /// The identity exists and the password does not match its digest.
    Unauthorized,
    /// An identity is already registered under the email.
    DuplicateEmail,
    /// The password hashing primitive reported an error.
    HashingFailed,
    /// The freshly drawn identity id was already in use; the signup may be retried.
    IdCollision,
}

/// Why `UserStore::validate` refused a login.
#[derive(Clone, Copy, Debug, PartialEq, Eq, Structural)]
pub enum LoginError {
    InvalidPassword,
    InvalidUsername,
}

/// What a login form submits.
#[derive(Clone, Debug)]
pub struct Credentials {
    pub email: String,
    pub password: String,
}

/// What a signup form submits.
#[derive(Clone, Debug)]
pub struct Signup {
    pub email: String,
    pub password: String,
    pub username: String,
}

impl From<Signup> for Credentials {
    fn from(value: Signup) -> (r: Credentials) {
        Credentials { email: value.email, password: value.password }
    }
}

impl vstd::std_specs::convert::FromSpecImpl<Signup> for Credentials {
    open spec fn obeys_from_spec() -> bool {
        true
    }

    open spec fn from_spec(v: Signup) -> Credentials {
        Credentials { email: v.email, password: v.password }
    }
}

impl User {
    /// Hashes the password with a fresh salt and draws a random id. Only the
    /// digest is kept: an argon2 PHC string that verifies the password, and so
    /// differs from it unless the password itself has that form. Fails only
    /// when argon2 reports an error, never for a password of `hashable`
    /// length.
    pub fn new(username: String, email: String, password: &str) -> (r: Result<User, UserError>)
        ensures
            hashable(password@) ==> r is Ok,
            match r {
                Ok(u) => {
                    &&& u@.username == username@
                    &&& u@.email == email@
                    &&& argon2_verdict(password@, u@.digest) == Some(true)
                    &&& is_argon2_digest(u@.digest)
                    &&& !is_argon2_digest(password@) ==> u@.digest != password@
                },
                Err(e) => e == UserError::HashingFailed,
            },
    {
        match hash(password) {
            Ok(digest) => {
                let id = random_uuid();
                Ok(User { id, username, email, password: digest })
            },
            Err(_) => Err(UserError::HashingFailed),
        }
    }

    /// Checks `password` against this identity's digest.
    pub fn authenticate(&self, password: &str) -> (r: Result<(), UserError>)
        ensures
            r == login_outcome(argon2_verdict(password@, self@.digest)),
    {
        match verify(password, self.password.as_str()) {
            Ok(true) => Ok(()),
            Ok(false) => Err(UserError::Unauthorized),
            Err(CredentialError::HashingFailed) => Err(UserError::HashingFailed),
        }
    }

    /// The value bound into a session: the password digest, so that a change
    /// of password invalidates every session made before it.
    pub fn session_auth_hash(&self) -> (r: &str)
        ensures
            r@ == self@.digest,
    {
        self.password.as_str()
    }

    /// A copy of this identity.
    pub fn duplicate(&self) -> (r: User)
        ensures
            r@ == self@,
    {
        User {
            id: self.id,
            email: self.email.clone(),
            username: self.username.clone(),
            password: self.password.clone(),
        }
    }
}

/// How a password check ends, given argon2's verdict.
pub open spec fn login_outcome(verdict: Option<bool>) -> Result<(), UserError> {
    match verdict {
        Some(true) => Ok(()),
        Some(false) => Err(UserError::Unauthorized),
        None => Err(UserError::HashingFailed),
    }
}

/// No two identities share an email or an id.
pub open spec fn users_wf(s: Seq<UserView>) -> bool {
    &&& forall|i: int, j: int|
        0 <= i < s.len() && 0 <= j < s.len() && i != j ==> #[trigger] s[i].email != #[trigger] s[j].email
    &&& forall|i: int, j: int|
        0 <= i < s.len() && 0 <= j < s.len() && i != j ==> #[trigger] s[i].id != #[trigger] s[j].id
}

pub open spec fn has_email(s: Seq<UserView>, email: Seq<char>) -> bool {
    exists|i: int| 0 <= i < s.len() && #[trigger] s[i].email == email
}

pub open spec fn has_id(s: Seq<UserView>, id: u128) -> bool {
    exists|i: int| 0 <= i < s.len() && #[trigger] s[i].id == id
}

/// The identity registered under `email` (meaningful when `has_email`).
pub open spec fn user_with_email(s: Seq<UserView>, email: Seq<char>) -> UserView {
    s[choose|i: int| 0 <= i < s.len() && #[trigger] s[i].email == email]
}

/// The identity with id `id` (meaningful when `has_id`).
pub open spec fn user_with_id(s: Seq<UserView>, id: u128) -> UserView {
    s[choose|i: int| 0 <= i < s.len() && #[trigger] s[i].id == id]
}

/// What `UserStore::authenticate` returns on the identities `s`.
pub open spec fn authenticate_result(s: Seq<UserView>, email: Seq<char>, password: Seq<char>) -> Result<
    Option<UserView>,
    UserError,
> {
    if !has_email(s, email) {
        Err(UserError::NotFound)
    } else {
        match login_outcome(argon2_verdict(password, user_with_email(s, email).digest)) {
            Ok(()) => Ok(Some(user_with_email(s, email))),
            Err(e) => Err(e),
        }
    }
}

/// `after` is `before` with one identity appended for a signup of
/// `email` (not registered before), `username` and `password`: a digest that verifies the password,
/// and an id that no earlier identity has.
pub open spec fn signed_up(
    before: Seq<UserView>,
    after: Seq<UserView>,
    email: Seq<char>,
    username: Seq<char>,
    password: Seq<char>,
) -> bool {
    &&& !has_email(before, email)
    &&& after.len() == before.len() + 1
    &&& after.drop_last() == before
    &&& after.last().email == email
    &&& after.last().username == username
    &&& argon2_verdict(password, after.last().digest) == Some(true)
    &&& !has_id(before, after.last().id)
}

/// All registered identities.
pub struct UserStore {
    users: Vec<User>,
}

impl View for UserStore {
    type V = Seq<UserView>;

    closed spec fn view(&self) -> Seq<UserView> {
        self.users@.map_values(|u: User| u@)
    }
}

impl UserStore {
    #[verifier::type_invariant]
    spec fn inv(&self) -> bool {
        users_wf(self@)
    }

    pub fn new() -> (r: UserStore)
        ensures
            r@ == Seq::<UserView>::empty(),
            users_wf(r@),
    {
        let r = UserStore { users: Vec::new() };
        assert(r@ =~= Seq::<UserView>::empty());
        r
    }

    fn position_of_email(&self, email: &str) -> (r: Option<usize>)
        ensures
            match r {
                Some(i) => i < self@.len() && self@[i as int].email == email@,
                None => !has_email(self@, email@),
            },
    {
        let key = email.to_owned();
        let mut i: usize = 0;
        while i < self.users.len()
            invariant
                i <= self.users@.len(),
                self@.len() == self.users@.len(),
                key@ == email@,
                forall|k: int| 0 <= k < i ==> #[trigger] self@[k].email != email@,
            decreases self.users@.len() - i,
        {
            assert(self@[i as int] == self.users@[i as int]@);
            if self.users[i].email == key {
                return Some(i);
            }
            i = i + 1;
        }
        None
    }

    fn position_of_id(&self, id: u128) -> (r: Option<usize>)
        ensures
            match r {
                Some(i) => i < self@.len() && self@[i as int].id == id,
                None => !has_id(self@, id),
            },
    {
        let mut i: usize = 0;
        while i < self.users.len()
            invariant
                i <= self.users@.len(),
                self@.len() == self.users@.len(),
                forall|k: int| 0 <= k < i ==> #[trigger] self@[k].id != id,
            decreases self.users@.len() - i,
        {
            assert(self@[i as int] == self.users@[i as int]@);
            if self.users[i].id == id {
                return Some(i);
            }
            i = i + 1;
        }
        None
    }

    /// Looks an identity up by email.
    pub fn find_by_email(&self, email: &str) -> (r: Option<User>)
        ensures
            match r {
                Some(u) => has_email(self@, email@) && u@ == user_with_email(self@, email@),
                None => !has_email(self@, email@),
            },
            users_wf(self@),
    {
        proof {
            use_type_invariant(self);
        }
        match self.position_of_email(email) {
            Some(i) => {
                assert(self@[i as int] == self.users@[i as int]@);
                proof {
                    let k = choose|k: int| 0 <= k < self@.len() && #[trigger] self@[k].email == email@;
                    assert(k == i);
                }
                Some(self.users[i].duplicate())
            },
            None => None,
        }
    }

    /// Looks an identity up by id.
    pub fn find_by_id(&self, id: u128) -> (r: Option<User>)
        ensures
            match r {
                Some(u) => has_id(self@, id) && u@ == user_with_id(self@, id),
                None => !has_id(self@, id),
            },
            users_wf(self@),
    {
        proof {
            use_type_invariant(self);
        }
        match self.position_of_id(id) {
            Some(i) => {
                assert(self@[i as int] == self.users@[i as int]@);
                proof {
                    let k = choose|k: int| 0 <= k < self@.len() && #[trigger] self@[k].id == id;
                    assert(k == i);
                }
                Some(self.users[i].duplicate())
            },
            None => None,
        }
    }

    /// Appends an identity made elsewhere. Fails, changing nothing, with
    /// `DuplicateEmail` when its email is registered, and otherwise with
    /// `IdCollision` when its id is taken.
    pub fn insert_user(&mut self, user: User) -> (r: Result<(), UserError>)
        ensures
            users_wf(final(self)@),
            (r == Err::<(), UserError>(UserError::DuplicateEmail)) == has_email(
                old(self)@,
                user@.email,
            ),
            (r == Err::<(), UserError>(UserError::IdCollision)) == (!has_email(
                old(self)@,
                user@.email,
            ) && has_id(old(self)@, user.id)),
            r is Ok <==> !has_email(old(self)@, user@.email) && !has_id(old(self)@, user.id),
            r is Ok ==> final(self)@ == old(self)@.push(user@),
            r is Err ==> final(self)@ == old(self)@,
    {
        proof {
            use_type_invariant(&*self);
        }
        if self.position_of_email(user.email.as_str()).is_some() {
            return Err(UserError::DuplicateEmail);
        }
        if self.position_of_id(user.id).is_some() {
            return Err(UserError::IdCollision);
        }
        let ghost before = self@;
        let ghost u = user@;
        let mut users = Vec::new();
        std::mem::swap(&mut users, &mut self.users);
        users.push(user);
        proof {
            assert(users@.map_values(|x: User| x@) =~= before.push(u));
            assert forall|i: int, j: int|
                0 <= i < before.push(u).len() && 0 <= j < before.push(u).len() && i != j
                    implies #[trigger] before.push(u)[i].email != #[trigger] before.push(u)[j].email
                    && before.push(u)[i].id != before.push(u)[j].id by {
                if i < before.len() && j < before.len() {
                    assert(before.push(u)[i] == before[i]);
                    assert(before.push(u)[j] == before[j]);
                } else if i < before.len() {
                    assert(before.push(u)[i] == before[i]);
                } else {
                    assert(before.push(u)[j] == before[j]);
                }
            }
        }
        self.users = users;
        Ok(())
    }

    /// Registers a new identity: hashes the password with a fresh salt and
    /// draws a random id. Fails with `DuplicateEmail` exactly when the email
    /// is already registered. For a new email and a password of `hashable`
    /// length it succeeds unless the drawn id happens to be taken.
    pub fn add(&mut self, signup: Signup) -> (r: Result<(), UserError>)
        ensures
            users_wf(final(self)@),
            (r == Err::<(), UserError>(UserError::DuplicateEmail)) == has_email(
                old(self)@,
                signup.email@,
            ),
            !has_email(old(self)@, signup.email@) && hashable(signup.password@) ==> (r is Ok || r
                == Err::<(), UserError>(UserError::IdCollision)),
            r is Err ==> final(self)@ == old(self)@,
            r is Err ==> r == Err::<(), UserError>(UserError::DuplicateEmail) || r == Err::<
                (),
                UserError,
            >(UserError::HashingFailed) || r == Err::<(), UserError>(UserError::IdCollision),
            r is Ok ==> signed_up(
                old(self)@,
                final(self)@,
                signup.email@,
                signup.username@,
                signup.password@,
            ),
    {
        proof {
            use_type_invariant(&*self);
        }
        if self.position_of_email(signup.email.as_str()).is_some() {
            return Err(UserError::DuplicateEmail);
        }
        let user = match User::new(signup.username, signup.email, signup.password.as_str()) {
            Ok(u) => u,
            Err(e) => {
                return Err(e);
            },
        };
        let ghost before = self@;
        let ghost u = user@;
        let r = self.insert_user(user);
        proof {
            if r is Ok {
                assert(before.push(u).drop_last() =~= before);
                assert(self@.last() == u);
            }
        }
        r
    }

    /// Checks credentials: `NotFound` when no identity has the email,
    /// `Unauthorized` when argon2 rejects the password, the identity when it
    /// accepts.
    pub fn authenticate(&self, creds: Credentials) -> (r: Result<Option<User>, UserError>)
        ensures
            match r {
                Ok(Some(u)) => authenticate_result(self@, creds.email@, creds.password@) == Ok::<
                    Option<UserView>,
                    UserError,
                >(Some(u@)),
                Ok(None) => false,
                Err(e) => authenticate_result(self@, creds.email@, creds.password@) == Err::<
                    Option<UserView>,
                    UserError,
                >(e),
            },
    {
        let user = match self.find_by_email(creds.email.as_str()) {
            Some(u) => u,
            None => {
                return Err(UserError::NotFound);
            },
        };
        match user.authenticate(creds.password.as_str()) {
            Ok(()) => Ok(Some(user)),
            Err(e) => Err(e),
        }
    }

    /// Checks that `username` (the email the identity is registered under)
    /// exists and that `password` verifies against its digest.
    pub fn validate(&self, username: String, password: String) -> (r: Result<(), LoginError>)
        ensures
            !has_email(self@, username@) ==> r == Err::<(), LoginError>(LoginError::InvalidUsername),
            has_email(self@, username@) ==> (r == Ok::<(), LoginError>(())) == (argon2_verdict(
                password@,
                user_with_email(self@, username@).digest,
            ) == Some(true)),
            has_email(self@, username@) && r is Err ==> r == Err::<(), LoginError>(
                LoginError::InvalidPassword,
            ),
    {
        let Some(stored_user) = self.find_by_email(username.as_str()) else {
            return Err(LoginError::InvalidUsername);
        };
        match stored_user.authenticate(password.as_str()) {
            Ok(()) => Ok(()),
            Err(_) => Err(LoginError::InvalidPassword),
        }
    }
}

/// Once a signup has been registered, authenticating with its email and its
/// password yields exactly the new identity, while every identity registered
/// before it authenticates as it did before.
pub proof fn lemma_signup_then_authenticate(
    before: Seq<UserView>,
    after: Seq<UserView>,
    email: Seq<char>,
    username: Seq<char>,
    password: Seq<char>,
)
    requires
        users_wf(before),
        users_wf(after),
        signed_up(before, after, email, username, password),
    ensures
        authenticate_result(after, email, password) == Ok::<Option<UserView>, UserError>(
            Some(after.last()),
        ),
        after.last().email == email && after.last().username == username,
        forall|other_email: Seq<char>, other_password: Seq<char>|
            other_email != email && has_email(before, other_email) ==> authenticate_result(
                after,
                other_email,
                other_password,
            ) == authenticate_result(before, other_email, other_password),
{
    let n = before.len() as int;
    assert(after[n] == after.last());
    assert(has_email(after, email));
    let k = choose|k: int| 0 <= k < after.len() && #[trigger] after[k].email == email;
    assert(k == n);
    assert forall|other_email: Seq<char>, other_password: Seq<char>|
        other_email != email && has_email(before, other_email) implies authenticate_result(
            after,
            other_email,
            other_password,
        ) == authenticate_result(before, other_email, other_password) by {
        let i = choose|i: int| 0 <= i < before.len() && #[trigger] before[i].email == other_email;
        assert(after[i] == after.drop_last()[i]);
        assert(has_email(after, other_email));
        let a = choose|a: int| 0 <= a < after.len() && #[trigger] after[a].email == other_email;
        assert(a == i);
    }
}

/// `s` holds exactly the identities made by a run of successful signups, in
/// order: the `k`-th has the `k`-th email and username and a digest that
/// verifies the `k`-th password.
pub open spec fn built_by_signups(
    s: Seq<UserView>,
    emails: Seq<Seq<char>>,
    usernames: Seq<Seq<char>>,
    passwords: Seq<Seq<char>>,
) -> bool {
    &&& s.len() == emails.len()
    &&& s.len() == usernames.len()
    &&& s.len() == passwords.len()
    &&& forall|k: int|
        0 <= k < s.len() ==> #[trigger] s[k].email == emails[k] && s[k].username == usernames[k]
            && argon2_verdict(passwords[k], s[k].digest) == Some(true)
}

/// Each successful signup extends the run that built the store.
pub proof fn lemma_signup_extends(
    before: Seq<UserView>,
    after: Seq<UserView>,
    emails: Seq<Seq<char>>,
    usernames: Seq<Seq<char>>,
    passwords: Seq<Seq<char>>,
    email: Seq<char>,
    username: Seq<char>,
    password: Seq<char>,
)
    requires
        built_by_signups(before, emails, usernames, passwords),
        signed_up(before, after, email, username, password),
    ensures
        built_by_signups(after, emails.push(email), usernames.push(username), passwords.push(password)),
{
    assert forall|k: int| 0 <= k < after.len() implies #[trigger] after[k].email == emails.push(
        email,
    )[k] && after[k].username == usernames.push(username)[k] && argon2_verdict(
        passwords.push(password)[k],
        after[k].digest,
    ) == Some(true) by {
        if k < before.len() {
            assert(after[k] == after.drop_last()[k]);
            assert(before[k].email == emails[k]);
        }
    }
}

/// In a store built by signups, every signup's email and password
/// authenticate as exactly the identity that signup made, and a password that
/// argon2 rejects for it is reported as `Unauthorized`.
pub proof fn lemma_signups_authenticate(
    s: Seq<UserView>,
    emails: Seq<Seq<char>>,
    usernames: Seq<Seq<char>>,
    passwords: Seq<Seq<char>>,
    k: int,
    other_password: Seq<char>,
)
    requires
        users_wf(s),
        built_by_signups(s, emails, usernames, passwords),
        0 <= k < s.len(),
    ensures
        authenticate_result(s, emails[k], passwords[k]) == Ok::<Option<UserView>, UserError>(
            Some(s[k]),
        ),
        s[k].email == emails[k] && s[k].username == usernames[k],
        argon2_verdict(other_password, s[k].digest) == Some(false) ==> authenticate_result(
            s,
            emails[k],
            other_password,
        ) == Err::<Option<UserView>, UserError>(UserError::Unauthorized),
{
    assert(s[k].email == emails[k]);
    assert(has_email(s, emails[k]));
    let j = choose|j: int| 0 <= j < s.len() && #[trigger] s[j].email == emails[k];
    assert(j == k);
}

/// A digest made from a password verifies it: `User::authenticate` with the
/// password an identity was made with succeeds, whichever salt was drawn.
pub proof fn lemma_new_user_round_trip(password: Seq<char>, digest: Seq<char>)
    requires
        argon2_verdict(password, digest) == Some(true),
    ensures
        login_outcome(argon2_verdict(password, digest)) == Ok::<(), UserError>(()),
{
}

} // verus!
