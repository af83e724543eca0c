//! The signed-in session: who the user is, which of the user's views is
//! active, and the views the user may switch between. The site keeps it in a
//! signed token in a cookie; these functions decide what the session holds.
use vstd::prelude::*;

use crate::error::BowtieError;

verus! {

/// The claims carried in a session token.
#[derive(Debug)]
pub struct SessionClaims {
    pub id: Option<i32>,
    pub view: i32,
    pub views: Vec<(i32, String)>,
    pub username: String,
}

/// A signed-in session. `views` lists the user's views as (id, name) pairs;
/// `view` and `username` are the id and name of the active one.
#[derive(Debug)]
pub struct Session {
    pub id: Option<i32>,
    pub view: i32,
    pub views: Vec<(i32, String)>,
    pub username: String,
}

/// Why a request that needs a signed-in user was turned back.
#[derive(PartialEq, Eq, Structural, Debug, Clone, Copy)]
pub enum SignInFailure {
    /// There is no valid session.
    NotLoggedIn,
    /// The session names no user.
    UserNotFound,
}

/// The message shown for each failure.
pub open spec fn failure_message(f: SignInFailure) -> Seq<char> {
    match f {
        SignInFailure::NotLoggedIn => "Not logged in"@,
        SignInFailure::UserNotFound => "User not found"@,
    }
}

impl SignInFailure {
    /// The message that tells the user why the request was turned back.
    pub fn message(&self) -> (r: String)
        ensures
            r@ == failure_message(*self),
    {
        match self {
            SignInFailure::NotLoggedIn => "Not logged in".to_owned(),
            SignInFailure::UserNotFound => "User not found".to_owned(),
        }
    }
}

/// The fields of a session, as plain values.
pub open spec fn session_fields(s: Session) -> (Option<i32>, i32, Seq<(i32, String)>, Seq<char>) {
    (s.id, s.view, s.views@, s.username@)
}

/// The fields of a token's claims, as plain values.
pub open spec fn claims_fields(c: SessionClaims) -> (Option<i32>, i32, Seq<(i32, String)>, Seq<
    char,
>) {
    (c.id, c.view, c.views@, c.username@)
}

/// The first entry of `views` whose id is `view`, if any.
pub open spec fn find_view(views: Seq<(i32, String)>, view: i32) -> Option<(i32, String)>
    decreases views.len(),
{
    if views.len() == 0 {
        None
    } else if views[0].0 == view {
        Some(views[0])
    } else {
        find_view(views.drop_first(), view)
    }
}

/// `views` without the entries whose id is `view`, the others kept in order.
pub open spec fn without_view(views: Seq<(i32, String)>, view: i32) -> Seq<(i32, String)>
    decreases views.len(),
{
    if views.len() == 0 {
        views
    } else if views.last().0 == view {
        without_view(views.drop_last(), view)
    } else {
        without_view(views.drop_last(), view).push(views.last())
    }
}

/// Copies a list of views, entry by entry.
fn clone_views(views: &Vec<(i32, String)>) -> (r: Vec<(i32, String)>)
    ensures
        r@ == views@,
{
    let mut out: Vec<(i32, String)> = Vec::new();
    let mut i: usize = 0;
    while i < views.len()
        invariant
            i <= views.len(),
            out@ == views@.subrange(0, i as int),
        decreases views.len() - i,
    {
        let entry = (views[i].0, views[i].1.clone());
        out.push(entry);
        assert(out@ =~= views@.subrange(0, i + 1));
        i = i + 1;
    }
    assert(views@.subrange(0, views.len() as int) =~= views@);
    out
}

impl Default for SessionClaims {
    fn default() -> (r: Self)
        ensures
            r.id.is_none(),
            r.view == 0,
            r.views@.len() == 0,
            r.username@.len() == 0,
    {
        SessionClaims { id: None, view: 0, views: Vec::new(), username: String::new() }
    }
}

impl Default for Session {
    fn default() -> (r: Self)
        ensures
            r.id.is_none(),
            r.view == 0,
            r.views@.len() == 0,
            r.username@.len() == 0,
    {
        Session { id: None, view: 0, views: Vec::new(), username: String::new() }
    }
}

impl<'a> From<&'a Session> for SessionClaims {
    /// The claims that a token for `session` carries: the same fields.
    fn from(session: &'a Session) -> (r: SessionClaims)
        ensures
            claims_fields(r) == session_fields(*session),
    {
        SessionClaims::from_session(session)
    }
}

impl<'a> vstd::std_specs::convert::FromSpecImpl<&'a Session> for SessionClaims {
    /// Equality of the copied list of views as values is not provable here,
    /// so the conversion's exact result is given by the `ensures` of `from`,
    /// field by field, and not through `from_spec`.
    open spec fn obeys_from_spec() -> bool {
        false
    }

    open spec fn from_spec(session: &'a Session) -> SessionClaims {
        SessionClaims {
            id: session.id,
            view: session.view,
            views: session.views,
            username: session.username,
        }
    }
}

impl<'a> From<&'a SessionClaims> for Session {
    /// The session that a token's claims describe: the same fields.
    fn from(claims: &'a SessionClaims) -> (r: Session)
        ensures
            session_fields(r) == claims_fields(*claims),
    {
        Session::from_claims(claims)
    }
}

impl<'a> vstd::std_specs::convert::FromSpecImpl<&'a SessionClaims> for Session {
    /// Equality of the copied list of views as values is not provable here,
    /// so the conversion's exact result is given by the `ensures` of `from`,
    /// field by field, and not through `from_spec`.
    open spec fn obeys_from_spec() -> bool {
        false
    }

    open spec fn from_spec(claims: &'a SessionClaims) -> Session {
        Session { id: claims.id, view: claims.view, views: claims.views, username: claims.username }
    }
}

impl SessionClaims {
    /// The claims that a token for `session` carries: the same fields.
    pub fn from_session(session: &Session) -> (r: SessionClaims)
        ensures
            r.id == session.id,
            r.view == session.view,
            r.views@ == session.views@,
            r.username == session.username,
            claims_fields(r) == session_fields(*session),
    {
        SessionClaims {
            id: session.id,
            view: session.view,
            views: clone_views(&session.views),
            username: session.username.clone(),
        }
    }
}

impl Session {
    /// The session that a token's claims describe: the same fields.
    pub fn from_claims(claims: &SessionClaims) -> (r: Session)
        ensures
            r.id == claims.id,
            r.view == claims.view,
            r.views@ == claims.views@,
            r.username == claims.username,
            session_fields(r) == claims_fields(*claims),
    {
        Session {
            id: claims.id,
            view: claims.view,
            views: clone_views(&claims.views),
            username: claims.username.clone(),
        }
    }

    /// A new session for the user `user_id` whose views, as (id, name)
    /// pairs, are `views`: the first view is the active one. A user without
    /// an id, or without views, gets no session.
    pub fn for_user(user_id: Option<i32>, views: Vec<(i32, String)>) -> (r: Result<
        Session,
        BowtieError,
    >)
        ensures
            user_id.is_none() || views@.len() == 0 <==> r == Err::<Session, BowtieError>(
                BowtieError::RecordNotFound,
            ),
            user_id.is_some() && views@.len() > 0 ==> r is Ok,
            r matches Ok(s) ==> {
                &&& s.id == user_id
                &&& s.view == views@[0].0
                &&& s.username == views@[0].1
                &&& s.views@ == views@
            },
    {
        let id = match user_id {
            Some(id) => id,
            None => {
                return Err(BowtieError::RecordNotFound);
            },
        };
        if views.len() == 0 {
            return Err(BowtieError::RecordNotFound);
        }
        let view = views[0].0;
        let username = views[0].1.clone();
        Ok(Session { id: Some(id), view, views, username })
    }

    /// The id of the signed-in user; a session without one is an error.
    pub fn user_id(&self) -> (r: Result<i32, BowtieError>)
        ensures
            match self.id {
                Some(id) => r == Ok::<i32, BowtieError>(id),
                None => r == Err::<i32, BowtieError>(BowtieError::NoId),
            },
    {
        match self.id {
            Some(id) => Ok(id),
            None => Err(BowtieError::NoId),
        }
    }

    /// Adds the view `view`, named `name`, to the views the user may switch
    /// to. The active view stays as it was.
    pub fn add_view(&mut self, view: i32, name: String)
        ensures
            final(self).views@ == old(self).views@.push((view, name)),
            final(self).id == old(self).id,
            final(self).view == old(self).view,
            final(self).username == old(self).username,
    {
        self.views.push((view, name));
    }

    /// Takes every entry of the view `view` out of the views the user may
    /// switch to; the other entries stay in order, the active view as it was.
    pub fn remove_view(&mut self, view: i32)
        ensures
            final(self).views@ == without_view(old(self).views@, view),
            final(self).id == old(self).id,
            final(self).view == old(self).view,
            final(self).username == old(self).username,
    {
        let mut kept: Vec<(i32, String)> = Vec::new();
        let n = self.views.len();
        let mut i: usize = 0;
        while i < n
            invariant
                i <= n,
                n == self.views@.len(),
                kept@ == without_view(self.views@.subrange(0, i as int), view),
            decreases n - i,
        {
            let ghost next = self.views@.subrange(0, i + 1);
            assert(next.drop_last() =~= self.views@.subrange(0, i as int));
            if self.views[i].0 != view {
                kept.push((self.views[i].0, self.views[i].1.clone()));
            }
            i = i + 1;
        }
        assert(self.views@.subrange(0, n as int) =~= self.views@);
        self.views = kept;
    }

    /// Makes the view `view` the active one, taking its name from the first
    /// entry with that id. A view that is not among the session's views is
    /// not found, and the session stays as it was.
    pub fn set_view(&mut self, view: i32) -> (r: Result<(), BowtieError>)
        ensures
            match find_view(old(self).views@, view) {
                Some(entry) => {
                    &&& r == Ok::<(), BowtieError>(())
                    &&& final(self).view == entry.0
                    &&& final(self).username == entry.1
                    &&& final(self).views@ == old(self).views@
                    &&& final(self).id == old(self).id
                },
                None => {
                    &&& r == Err::<(), BowtieError>(BowtieError::RecordNotFound)
                    &&& final(self).view == old(self).view
                    &&& final(self).username == old(self).username
                    &&& final(self).views@ == old(self).views@
                    &&& final(self).id == old(self).id
                },
            },
    {
        let n = self.views.len();
        let mut i: usize = 0;
        assert(self.views@.skip(0) =~= self.views@);
        while i < n
            invariant
                i <= n,
                n == self.views@.len(),
                self.views@ == old(self).views@,
                self.view == old(self).view,
                self.username == old(self).username,
                self.id == old(self).id,
                find_view(self.views@, view) == find_view(self.views@.skip(i as int), view),
            decreases n - i,
        {
            let ghost rest = self.views@.skip(i as int);
            assert(rest[0] == self.views@[i as int]);
            if self.views[i].0 == view {
                self.username = self.views[i].1.clone();
                self.view = view;
                return Ok(());
            }
            assert(rest.drop_first() =~= self.views@.skip(i + 1));
            i = i + 1;
        }
        assert(self.views@.skip(n as int) =~= Seq::<(i32, String)>::empty());
        Err(BowtieError::RecordNotFound)
    }

    /// The user id and active view of the session a request carries: no
    /// valid session is `NotLoggedIn`, a session without a user id is
    /// `UserNotFound`.
    pub fn identity(session: &Result<Session, BowtieError>) -> (r: Result<(i32, i32), SignInFailure>)
        ensures
            match session {
                Err(_) => r == Err::<(i32, i32), SignInFailure>(SignInFailure::NotLoggedIn),
                Ok(s) => match s.id {
                    Some(u) => r == Ok::<(i32, i32), SignInFailure>((u, s.view)),
                    None => r == Err::<(i32, i32), SignInFailure>(SignInFailure::UserNotFound),
                },
            },
    {
        match session {
            Err(_) => Err(SignInFailure::NotLoggedIn),
            Ok(s) => match s.id {
                Some(u) => Ok((u, s.view)),
                None => Err(SignInFailure::UserNotFound),
            },
        }
    }

    /// Whether the signed-in view may send a friend request to `view`: not
    /// to itself.
    pub fn may_befriend(&self, view: i32) -> (r: bool)
        ensures
            r == (view != self.view),
    {
        view != self.view
    }

    /// Whether the view `view` may be deleted: not while it is the active one.
    pub fn may_delete_view(&self, view: i32) -> (r: bool)
        ensures
            r == (view != self.view),
    {
        view != self.view
    }

    /// The session that a token gives: a token that does not parse is
    /// `FailedToParse`; one whose signature cannot be verified (`verified` is
    /// `None`), does not hold (`Some(false)`), or that carries no claims is
    /// `TokenNotVerified`; otherwise the session of its claims.
    pub fn from_token_parts(parsed: bool, verified: Option<bool>, claims: Option<SessionClaims>) -> (r:
        Result<Session, BowtieError>)
        ensures
            !parsed ==> r == Err::<Session, BowtieError>(BowtieError::FailedToParse),
            parsed && (verified != Some(true) || claims.is_none()) ==> r == Err::<
                Session,
                BowtieError,
            >(BowtieError::TokenNotVerified),
            parsed && verified == Some(true) && claims.is_some() ==> (r matches Ok(s) && {
                let c = claims.unwrap();
                &&& s.id == c.id
                &&& s.view == c.view
                &&& s.views@ == c.views@
                &&& s.username == c.username
            }),
    {
        if !parsed {
            return Err(BowtieError::FailedToParse);
        }
        match verified {
            Some(ok) => match claims {
                Some(c) if ok => Ok(Session::from_claims(&c)),
                _ => Err(BowtieError::TokenNotVerified),
            },
            None => Err(BowtieError::TokenNotVerified),
        }
    }
}

/// Looking a view up in a list with one more entry at the end finds what the
/// shorter list gives, or else the new entry when its id matches.
pub proof fn lemma_find_view_push(views: Seq<(i32, String)>, entry: (i32, String), view: i32)
    ensures
        find_view(views.push(entry), view) == match find_view(views, view) {
            Some(e) => Some(e),
            None => if entry.0 == view {
                Some(entry)
            } else {
                None
            },
        },
    decreases views.len(),
{
    if views.len() > 0 {
        assert(views.push(entry).drop_first() =~= views.drop_first().push(entry));
        assert(views.push(entry)[0] == views[0]);
        lemma_find_view_push(views.drop_first(), entry, view);
    } else {
        assert(views.push(entry).drop_first() =~= Seq::<(i32, String)>::empty());
        assert(views.push(entry)[0] == entry);
        assert(find_view(Seq::<(i32, String)>::empty(), view) == None::<(i32, String)>);
        assert(find_view(views, view) == None::<(i32, String)>);
        assert(find_view(views.push(entry), view) == if entry.0 == view { Some(entry) } else { None });
    }
}

/// After a view is removed from a session, switching to it finds nothing.
pub proof fn law_removed_view_not_found(views: Seq<(i32, String)>, view: i32)
    ensures
        find_view(without_view(views, view), view) == None::<(i32, String)>,
    decreases views.len(),
{
    if views.len() > 0 {
        law_removed_view_not_found(views.drop_last(), view);
        if views.last().0 != view {
            lemma_find_view_push(without_view(views.drop_last(), view), views.last(), view);
        }
    }
}

/// Removing a view leaves switching to any other view as it was.
pub proof fn law_remove_keeps_other_views(views: Seq<(i32, String)>, view: i32, other: i32)
    requires
        other != view,
    ensures
        find_view(without_view(views, view), other) == find_view(views, other),
    decreases views.len(),
{
    if views.len() > 0 {
        let init = views.drop_last();
        let last = views.last();
        law_remove_keeps_other_views(init, view, other);
        assert(init.push(last) =~= views);
        lemma_find_view_push(init, last, other);
        if last.0 != view {
            lemma_find_view_push(without_view(init, view), last, other);
        }
    }
}

/// Removing the same view twice is removing it once.
pub proof fn law_remove_view_idempotent(views: Seq<(i32, String)>, view: i32)
    ensures
        without_view(without_view(views, view), view) == without_view(views, view),
    decreases views.len(),
{
    if views.len() > 0 {
        law_remove_view_idempotent(views.drop_last(), view);
        let w = without_view(views.drop_last(), view);
        if views.last().0 != view {
            assert(w.push(views.last()).drop_last() =~= w);
        }
    }
}

/// After a view that the session did not list is added, switching to it
/// finds it, with the name it was added under.
pub proof fn law_added_view_found(views: Seq<(i32, String)>, view: i32, name: String)
    requires
        find_view(views, view) == None::<(i32, String)>,
    ensures
        find_view(views.push((view, name)), view) == Some((view, name)),
{
    lemma_find_view_push(views, (view, name), view);
}

/// Claims made from a session made from claims are the claims it started
/// from: both conversions copy the id, the active view, the views and the
/// user name unchanged.
pub proof fn law_claims_round_trip(claims: SessionClaims, session: Session, back: SessionClaims)
    requires
        call_ensures(<Session as From<&SessionClaims>>::from, (&claims,), session),
        call_ensures(<SessionClaims as From<&Session>>::from, (&session,), back),
    ensures
        claims_fields(back) == claims_fields(claims),
{
}

/// A session written into claims and read back has the fields it had.
pub proof fn law_session_round_trip(session: Session, claims: SessionClaims, back: Session)
    requires
        call_ensures(<SessionClaims as From<&Session>>::from, (&session,), claims),
        call_ensures(<Session as From<&SessionClaims>>::from, (&claims,), back),
    ensures
        session_fields(back) == session_fields(session),
{
}

} // verus!
