//! Sessions: each cookie-carried token is bound to no identity or to one.

use crate::account::{
    authenticate_result, has_id, user_with_id, users_wf, Credentials, User, UserError, UserStore,
    UserView,
};
use std::collections::HashMap;
use vstd::prelude::*;

verus! {

broadcast use vstd::std_specs::hash::group_hash_axioms;

/// What a session holds once its owner has logged in: the identity's id and
/// the digest it had at login.
#[derive(Clone, Debug)]
pub struct SessionBinding {
    pub user_id: u128,
    pub auth_hash: String,
}

/// The live sessions, by token. A token without an entry is anonymous.
pub struct SessionStore {
    sessions: HashMap<u128, SessionBinding>,
}

impl View for SessionStore {
    type V = Map<u128, (u128, Seq<char>)>;

    closed spec fn view(&self) -> Map<u128, (u128, Seq<char>)> {
        self.sessions@.map_values(|b: SessionBinding| (b.user_id, b.auth_hash@))
    }
}

/// The identity that `token` stands for: the one it was bound to at login,
/// as long as that identity is still registered with the same digest.
pub open spec fn resolve(sessions: Map<u128, (u128, Seq<char>)>, users: Seq<UserView>, token: u128) -> Option<
    UserView,
> {
    if sessions.contains_key(token) {
        let (id, auth_hash) = sessions[token];
        if has_id(users, id) && user_with_id(users, id).digest == auth_hash {
            Some(user_with_id(users, id))
        } else {
            None
        }
    } else {
        None
    }
}

impl SessionStore {
    pub fn new() -> (r: SessionStore)
        ensures
            r@ == Map::<u128, (u128, Seq<char>)>::empty(),
    {
        let r = SessionStore { sessions: HashMap::new() };
        assert(r@ =~= Map::<u128, (u128, Seq<char>)>::empty());
        r
    }

    /// Binds `token` to `user`.
    pub fn login(&mut self, token: u128, user: &User)
        ensures
            final(self)@ == old(self)@.insert(token, (user.id, user@.digest)),
    {
        let binding = SessionBinding {
            user_id: user.id,
            auth_hash: user.session_auth_hash().to_owned(),
        };
        self.sessions.insert(token, binding);
        assert(self@ =~= old(self)@.insert(token, (user.id, user@.digest)));
    }

    /// Ends the session: `token` no longer stands for anyone.
    pub fn logout(&mut self, token: u128)
        ensures
            final(self)@ == old(self)@.remove(token),
    {
        self.sessions.remove(&token);
        assert(self@ =~= old(self)@.remove(token));
    }

    /// The identity that `token` stands for, if any.
    pub fn current_identity(&self, token: u128, users: &UserStore) -> (r: Option<User>)
        ensures
            match r {
                Some(u) => resolve(self@, users@, token) == Some(u@),
                None => resolve(self@, users@, token) is None,
            },
    {
        match self.sessions.get(&token) {
            Some(binding) => {
                match users.find_by_id(binding.user_id) {
                    Some(u) => {
                        if u.password == binding.auth_hash {
                            Some(u)
                        } else {
                            None
                        }
                    },
                    None => None,
                }
            },
            None => None,
        }
    }

    /// Checks the credentials and, when they hold, binds `token` to the
    /// identity found. The session is left as it was on any failure.
    pub fn authenticate(&mut self, token: u128, users: &UserStore, creds: Credentials) -> (r: Result<
        Option<User>,
        UserError,
    >)
        ensures
            match r {
                Ok(Some(u)) => {
                    &&& authenticate_result(users@, creds.email@, creds.password@) == Ok::<
                        Option<UserView>,
                        UserError,
                    >(Some(u@))
                    &&& final(self)@ == old(self)@.insert(token, (u.id, u@.digest))
                },
                Ok(None) => false,
                Err(e) => {
                    &&& authenticate_result(users@, creds.email@, creds.password@) == Err::<
                        Option<UserView>,
                        UserError,
                    >(e)
                    &&& final(self)@ == old(self)@
                },
            },
    {
        match users.authenticate(creds) {
            Ok(Some(u)) => {
                self.login(token, &u);
                Ok(Some(u))
            },
            Ok(None) => Ok(None),
            Err(e) => Err(e),
        }
    }
}

/// After logout, the token stands for no identity, whoever it stood for
/// before and whatever identities are registered.
pub proof fn lemma_logout_invalidates(
    sessions: Map<u128, (u128, Seq<char>)>,
    users: Seq<UserView>,
    token: u128,
)
    ensures
        resolve(sessions.remove(token), users, token) is None,
{
}

/// After a login as a registered identity, the token stands for exactly that
/// identity.
pub proof fn lemma_login_resolves(
    sessions: Map<u128, (u128, Seq<char>)>,
    users: Seq<UserView>,
    token: u128,
    i: int,
)
    requires
        users_wf(users),
        0 <= i < users.len(),
    ensures
        resolve(sessions.insert(token, (users[i].id, users[i].digest)), users, token) == Some(
            users[i],
        ),
{
    assert(has_id(users, users[i].id));
    let k = choose|k: int| 0 <= k < users.len() && #[trigger] users[k].id == users[i].id;
    assert(k == i);
}

} // verus!
