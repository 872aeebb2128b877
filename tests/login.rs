use auth_gateway::error::HttpError;
use auth_gateway::gateway::{
    login_form, login_response, session_from_reply, UpstreamFailure, UpstreamReply, UserLogin, AUTH_ENDPOINT,
};
use auth_gateway::models::{Connection, Data, Front, Root, User};

fn user(phone: &str, token: &str) -> User {
    User {
        user_id: "42".to_string(),
        user_fullname: String::new(),
        user_name: String::new(),
        user_surname: String::new(),
        user_patronymic: String::new(),
        user_mail: String::new(),
        user_phone: phone.to_string(),
        user_avatar: String::new(),
        user_balance: 0,
        user_type: 0,
        user_status: 0,
        user_role_id: 0,
        user_gender: 0,
        user_birthday: serde_json::Value::Null,
        user_search_disable: String::new(),
        user_search_disable_text: String::new(),
        user_search_disable_fulltext: String::new(),
        token: token.to_string(),
        ghost_token: String::new(),
        user_uid: String::new(),
        auth_key: String::new(),
        is_demo: 0,
        show_tabbar: false,
        apartment: Vec::new(),
        stage: 0,
    }
}

fn root(phone: &str, token: &str) -> Root {
    Root {
        command: String::new(),
        error: 0,
        message: String::new(),
        data: Data {
            user_fullname: String::new(),
            user: user(phone, token),
            front: Front::default(),
        },
        connection: Connection::default(),
        token: String::new(),
        fromdomain: String::new(),
        worktime: String::new(),
    }
}

fn answered(status: u16, body: Result<Root, String>) -> UpstreamReply {
    UpstreamReply::Answered { status, body }
}

#[test]
fn well_formed_session_answers_with_phone_and_token() {
    let creds = UserLogin { username: "bob".to_string(), password: "secret".to_string() };
    let form = login_form(&creds);
    assert_eq!(
        form,
        vec![
            ("login".to_string(), "bob".to_string()),
            ("password".to_string(), "secret".to_string()),
        ]
    );
    let outcome = session_from_reply(answered(200, Ok(root("+1555", "abc123"))));
    match login_response(outcome) {
        Ok(r) => {
            assert_eq!(r.phone, "+1555");
            assert_eq!(r.token, "abc123");
            assert_ne!(r.phone, creds.password);
            assert_ne!(r.token, creds.password);
        }
        Err(_) => panic!("expected a session"),
    }
}

#[test]
fn session_keeps_the_user_id() {
    match session_from_reply(answered(201, Ok(root("+7", "t")))) {
        Ok(s) => {
            assert_eq!(s.user_id, "42");
            assert_eq!(s.phone, "+7");
            assert_eq!(s.token, "t");
        }
        Err(_) => panic!("expected a session"),
    }
}

#[test]
fn timeout_is_unauthorized_without_cause() {
    let outcome = session_from_reply(UpstreamReply::Unreachable("operation timed out".to_string()));
    assert!(matches!(outcome, Err(UpstreamFailure::Transport(ref c)) if c == "operation timed out"));
    match login_response(outcome) {
        Err(e) => {
            let r = e.into_response();
            assert_eq!(r.status, 401);
            assert!(r.bearer_challenge);
            match r.body {
                auth_gateway::error::ResponseBody::Text(t) => {
                    assert_eq!(t, "authentication required");
                    assert!(!t.contains("timed out"));
                }
                _ => panic!("expected text"),
            }
        }
        Ok(_) => panic!("expected a failure"),
    }
}

#[test]
fn non_success_status_is_unauthorized() {
    let outcome = session_from_reply(answered(403, Ok(root("+1555", "abc123"))));
    assert!(matches!(outcome, Err(UpstreamFailure::Status(403))));
    assert!(matches!(login_response(outcome), Err(HttpError::Unauthorized)));
    let outcome = session_from_reply(answered(300, Ok(root("+1555", "abc123"))));
    assert!(matches!(outcome, Err(UpstreamFailure::Status(300))));
    let outcome = session_from_reply(answered(199, Ok(root("+1555", "abc123"))));
    assert!(matches!(outcome, Err(UpstreamFailure::Status(199))));
}

#[test]
fn malformed_body_is_unauthorized() {
    let outcome = session_from_reply(answered(200, Err("expected value at line 1".to_string())));
    assert!(matches!(outcome, Err(UpstreamFailure::Malformed(_))));
    assert!(matches!(login_response(outcome), Err(HttpError::Unauthorized)));
}

#[test]
fn empty_token_is_no_session() {
    let outcome = session_from_reply(answered(200, Ok(root("+1555", ""))));
    assert!(matches!(outcome, Err(UpstreamFailure::NoSession)));
    assert!(matches!(login_response(outcome), Err(HttpError::Unauthorized)));
}

#[test]
fn endpoint_is_https() {
    assert!(AUTH_ENDPOINT.starts_with("https://"));
}
