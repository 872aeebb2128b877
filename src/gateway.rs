//! The login path: what is sent to the identity provider, how its reply is
//! classified, and what the client gets back.
use vstd::prelude::*;
use crate::error::{HttpError, status_of};
use crate::models::Root;

verus! {

/// The identity provider's authentication endpoint.
pub const AUTH_ENDPOINT: &'static str = "https://api-uae-test.ujin.tech/api/auth/authenticate/";

/// The credentials that a client submits.
pub struct UserLogin {
    pub username: String,
    pub password: String,
}

/// What a successful login answers with.
pub struct LoginResponse {
    pub phone: String,
    pub token: String,
}

/// The fields of the provider's reply that the gateway keeps.
pub struct NormalizedSession {
    pub user_id: String,
    pub phone: String,
    pub token: String,
}

/// Why the provider did not yield a session. The text is a cause for the log only.
pub enum UpstreamFailure {
    /// The request did not complete: connection, TLS, timeout or reading the body.
    Transport(String),
    /// The provider answered with a status outside `200..300`.
    Status(u16),
    /// The body was not the expected document.
    Malformed(String),
    /// The document held no session token.
    NoSession,
}

/// What one attempt to reach the provider came to.
pub enum UpstreamReply {
    /// The request did not complete, for the reason given.
    Unreachable(String),
    /// The provider answered with `status`; `body` is the parsed document, or why it did not parse.
    Answered { status: u16, body: Result<Root, String> },
}

/// Whether an HTTP status is in `200..300`.
pub open spec fn is_success(status: u16) -> bool {
    200 <= status < 300
}

/// The session that a reply yields, or why it yields none.
pub open spec fn session_of(reply: UpstreamReply) -> Result<NormalizedSession, UpstreamFailure> {
    match reply {
        UpstreamReply::Unreachable(cause) => Err(UpstreamFailure::Transport(cause)),
        UpstreamReply::Answered { status, body } => {
            if !is_success(status) {
                Err(UpstreamFailure::Status(status))
            } else {
                match body {
                    Err(cause) => Err(UpstreamFailure::Malformed(cause)),
                    Ok(root) => if root.data.user.token@.len() == 0 {
                        Err(UpstreamFailure::NoSession)
                    } else {
                        Ok(NormalizedSession {
                            user_id: root.data.user.user_id,
                            phone: root.data.user.user_phone,
                            token: root.data.user.token,
                        })
                    },
                }
            }
        },
    }
}

/// What the client gets for an attempt: the session's phone and token, or
/// `Unauthorized` whatever the cause.
pub open spec fn answer_of(outcome: Result<NormalizedSession, UpstreamFailure>) -> Result<LoginResponse, HttpError> {
    match outcome {
        Ok(s) => Ok(LoginResponse { phone: s.phone, token: s.token }),
        Err(_) => Err(HttpError::Unauthorized),
    }
}

/// The multipart form fields sent to the provider: `login` and `password`.
pub fn login_form(creds: &UserLogin) -> (r: Vec<(String, String)>)
    ensures
        r@.len() == 2,
        r@[0].0@ == "login"@,
        r@[0].1@ == creds.username@,
        r@[1].0@ == "password"@,
        r@[1].1@ == creds.password@,
{
    let mut form: Vec<(String, String)> = Vec::new();
    form.push(("login".to_owned(), creds.username.clone()));
    form.push(("password".to_owned(), creds.password.clone()));
    form
}

/// Classifies the provider's reply: a session only for a `2xx` answer whose
/// document parsed and holds a non-empty token.
pub fn session_from_reply(reply: UpstreamReply) -> (r: Result<NormalizedSession, UpstreamFailure>)
    ensures
        r == session_of(reply),
{
    match reply {
        UpstreamReply::Unreachable(cause) => Err(UpstreamFailure::Transport(cause)),
        UpstreamReply::Answered { status, body } => {
            if status < 200 || status >= 300 {
                Err(UpstreamFailure::Status(status))
            } else {
                match body {
                    Err(cause) => Err(UpstreamFailure::Malformed(cause)),
                    Ok(root) => {
                        let user = root.data.user;
                        if user.token.as_str().is_empty() {
                            Err(UpstreamFailure::NoSession)
                        } else {
                            Ok(NormalizedSession {
                                user_id: user.user_id,
                                phone: user.user_phone,
                                token: user.token,
                            })
                        }
                    },
                }
            }
        },
    }
}

/// The answer to a login: the session's phone and token, or `Unauthorized`
/// for every failure, so that no cause is told apart to the client.
pub fn login_response(outcome: Result<NormalizedSession, UpstreamFailure>) -> (r: Result<LoginResponse, HttpError>)
    ensures
        r == answer_of(outcome),
{
    match outcome {
        Ok(s) => Ok(LoginResponse { phone: s.phone, token: s.token }),
        Err(_) => Err(HttpError::Unauthorized),
    }
}

/// A `2xx` reply whose document holds a non-empty token is answered with
/// exactly the provider's `user_phone` and `token`. The answer is made from the
/// reply alone, so no submitted credential can appear in it.
pub proof fn lemma_session_is_answered(status: u16, root: Root)
    requires
        is_success(status),
        root.data.user.token@.len() > 0,
    ensures
        answer_of(session_of(UpstreamReply::Answered { status, body: Ok(root) })) == Ok::<LoginResponse, HttpError>(
            LoginResponse { phone: root.data.user.user_phone, token: root.data.user.token },
        ),
{
}

/// Every reply that fails (no answer, a status outside `2xx`, a document that
/// did not parse or holds no token) is answered with `401` and a bearer
/// challenge, whatever the cause.
pub proof fn lemma_failure_is_unauthorized(reply: UpstreamReply)
    requires
        match reply {
            UpstreamReply::Unreachable(_) => true,
            UpstreamReply::Answered { status, body } => !is_success(status) || body is Err || body->Ok_0.data.user.token@.len() == 0,
        },
    ensures
        answer_of(session_of(reply)) matches Err(e) && e is Unauthorized && status_of(&e) == 401,
{
}

} // verus!
