//! Client-side authentication state and response handling.
//!
//! The browser client keeps the bearer token it earned, attaches it to
//! every API request, and sorts response statuses into an error
//! taxonomy. The decisions live here; storage and transport stay with
//! the caller.

use vstd::prelude::*;
use vstd::string::StringExecFns;
use crate::gate::bearer_token;

verus! {

/// What an API call can fail with on the client side.
#[derive(Debug, Clone)]
pub enum ApiError {
    /// The request never completed.
    NetworkError(String),
    /// The response body did not parse.
    DeserializationError(String),
    /// The server answered with an unexpected status.
    ApiError { status: u16, message: String },
    /// The server answered 401.
    Unauthorized,
    /// The server answered 404.
    NotFound,
}

/// Sorts a response into the error taxonomy: 200 and 201 succeed, 401
/// and 404 map to their variants, anything else keeps its status and
/// the body text.
pub fn classify_status(status: u16, error_text: String) -> (r: Result<(), ApiError>)
    ensures
        r is Ok <==> (status == 200 || status == 201),
        status == 401 ==> r == Err::<(), ApiError>(ApiError::Unauthorized),
        status == 404 ==> r == Err::<(), ApiError>(ApiError::NotFound),
        !(status == 200 || status == 201 || status == 401 || status == 404) ==> r == Err::<
            (),
            ApiError,
        >(ApiError::ApiError { status, message: error_text }),
{
    if status == 200 || status == 201 {
        Ok(())
    } else if status == 401 {
        Err(ApiError::Unauthorized)
    } else if status == 404 {
        Err(ApiError::NotFound)
    } else {
        Err(ApiError::ApiError { status, message: error_text })
    }
}

/// The authorization header a request carries: the bearer scheme around
/// the stored token, or nothing when no token is stored.
pub fn bearer_header(token: &Option<String>) -> (r: Option<String>)
    ensures
        match token {
            Some(t) => r matches Some(h) && h@ == "Bearer "@ + t@,
            None => r is None,
        },
{
    match token {
        Some(t) => {
            let mut h = String::from_str("Bearer ");
            h.append(t.as_str());
            Some(h)
        },
        None => None,
    }
}

/// The client and the request gate agree on the bearer scheme: a header built
/// around a token parses back to exactly that token.
pub proof fn lemma_bearer_round_trip(t: Seq<char>)
    ensures
        bearer_token("Bearer "@ + t) == Some(t),
{
    reveal_strlit("Bearer ");
    let h = "Bearer "@ + t;
    assert(h.subrange(0, 7) =~= "Bearer "@);
    assert(h.skip(7) =~= t);
}

/// The client's routes.
#[derive(Debug, Clone, PartialEq, Eq)]
pub enum Route {
    Home,
    Login,
    MealList,
    NewMeal,
    MealDetail { id: String },
    Reports,
    Profile,
    NotFound,
}

/// Whether a route sits behind the login guard: everything but the
/// login page and the not-found page.
pub fn is_protected(route: &Route) -> (r: bool)
    ensures
        r == !(route is Login || route is NotFound),
{
    match route {
        Route::Login | Route::NotFound => false,
        _ => true,
    }
}

/// Whether a user is logged in: a token is stored.
pub fn is_logged_in(token: &Option<String>) -> (r: bool)
    ensures
        r == (token is Some),
{
    token.is_some()
}

/// The client's view of who is signed in. `is_authenticated` always
/// tracks whether a token is held.
#[derive(Debug, Clone)]
pub struct AuthState {
    pub token: Option<String>,
    pub is_authenticated: bool,
    pub user_id: Option<String>,
}

impl AuthState {
    /// The state is coherent: authenticated exactly when a token is
    /// held.
    pub open spec fn wf(&self) -> bool {
        self.is_authenticated == (self.token is Some)
    }

    /// The state read back from whatever token storage held.
    pub fn new(stored: Option<String>) -> (r: AuthState)
        ensures
            r.token == stored,
            r.is_authenticated == (stored is Some),
            r.user_id is None,
            r.wf(),
    {
        let is_authenticated = is_logged_in(&stored);
        AuthState { token: stored, is_authenticated, user_id: None }
    }

    /// Records a fresh token; the caller persists it.
    pub fn login(&mut self, token: String)
        ensures
            final(self).token == Some(token),
            final(self).is_authenticated,
            final(self).user_id == old(self).user_id,
            final(self).wf(),
    {
        self.token = Some(token);
        self.is_authenticated = true;
    }

    /// Forgets the session; the caller clears the persisted token.
    pub fn logout(&mut self)
        ensures
            final(self).token is None,
            !final(self).is_authenticated,
            final(self).user_id is None,
            final(self).wf(),
    {
        self.token = None;
        self.is_authenticated = false;
        self.user_id = None;
    }
}

} // verus!
