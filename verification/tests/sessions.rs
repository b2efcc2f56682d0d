use ipcmanview::auth::AuthParam;
use ipcmanview::rpc::{
    Error, LoginError, Response, ResponseError, ResponseKind, ResponseResult, ResponseSession,
    RpcParams,
};
use ipcmanview::session::{Client, KeepAliveVerdict, State};

fn challenge_response(code: i32, encryption: &str) -> Response<AuthParam> {
    Response {
        id: 1,
        session: ResponseSession::Str("2f58ba01".to_string()),
        error: Some(ResponseError {
            code,
            message: "Component error: login challenge!".to_string(),
            kind: ResponseKind::Unknown,
        }),
        params: Some(AuthParam {
            encryption: encryption.to_string(),
            random: "1172275829".to_string(),
            realm: "Login to a0c50bcd05b2f03d067e530d9bf069af".to_string(),
        }),
        result: ResponseResult::Bool(false),
    }
}

#[test]
fn login_flow_classifies_credential_failure_and_blocks() {
    let mut client = Client::new("192.0.2.1".to_string(), "admin".to_string(), "123".to_string());

    // From Logout there is nothing to log out first.
    assert!(matches!(client.login_precheck(), Ok(None)));

    // First login: the device wants credentials (code 401) and sends the
    // challenge; the session echo is adopted.
    let b = client.first_login_request();
    assert_eq!(b.req.method, "global.login");
    let challenge = client
        .first_login_apply(Ok(challenge_response(401, "Default")))
        .unwrap();
    assert_eq!(challenge.encryption, "Default");

    // Second login: the Default digest scheme and login type "Direct".
    let b = client.second_login_request(&challenge);
    match &b.req.params {
        RpcParams::SecondLogin { password, login_type, .. } => {
            assert_eq!(password, "2E9AD6D2DB08E0882F376A622BC76B9A");
            assert_eq!(login_type, "Direct");
        },
        other => panic!("unexpected params: {:?}", other),
    }

    // The device rejects the credentials: blocked, and it stays blocked.
    let failure = Error::Response(ResponseError {
        code: 268632085,
        message: "UserOrPasswordNotValid".to_string(),
        kind: ResponseKind::Unknown,
    });
    let res = client.second_login_apply(Some(failure), 1_000);
    assert!(matches!(res, Err(Error::Login(LoginError::UserOrPasswordNotValid))));
    assert!(matches!(client.state, State::Error(LoginError::UserOrPasswordNotValid)));
    assert!(matches!(
        client.login_precheck(),
        Err(Error::Login(LoginError::UserOrPasswordNotValid))
    ));
}

#[test]
fn login_flow_succeeds_and_keep_alive_gates_on_time() {
    let mut client = Client::new("192.0.2.1".to_string(), "admin".to_string(), "123".to_string());
    assert!(matches!(client.login_precheck(), Ok(None)));
    let challenge = client
        .first_login_apply(Ok(challenge_response(268632079, "WatchNet")))
        .unwrap();
    let b = client.second_login_request(&challenge);
    match &b.req.params {
        RpcParams::SecondLogin { login_type, .. } => assert_eq!(login_type, "WatchNet"),
        other => panic!("unexpected params: {:?}", other),
    }
    client.second_login_apply(None, 1_000).unwrap();
    assert!(matches!(client.state, State::Login(1_000)));
    assert_eq!(client.connection.session, "2f58ba01");

    // Within 60 seconds of the last success: no network call, plain success.
    assert!(matches!(client.keep_alive_check(1_059), Ok(None)));

    // Past the timeout: a keep-alive request is handed out.
    let b = client.keep_alive_check(1_060).unwrap().unwrap();
    assert_eq!(b.req.method, "global.keepAlive");
    assert_eq!(b.req.session, "2f58ba01");

    // Success refreshes the keep-alive time.
    assert!(matches!(client.keep_alive_apply(None, 1_061), KeepAliveVerdict::Done));
    assert!(matches!(client.state, State::Login(1_061)));

    // A transport failure leaves the session alone.
    let v = client.keep_alive_apply(Some(Error::Request("timed out".to_string())), 1_200);
    assert!(matches!(v, KeepAliveVerdict::Unreachable(_)));
    assert!(matches!(client.state, State::Login(1_061)));

    // Any other failure resets for a single relogin.
    let v = client.keep_alive_apply(Some(Error::Session("expired".to_string())), 1_200);
    assert!(matches!(v, KeepAliveVerdict::Relogin));
    assert!(matches!(client.state, State::Logout));
    assert_eq!(client.connection.session, "");
}

#[test]
fn rpc_needs_a_live_session() {
    let mut client = Client::new("192.0.2.1".to_string(), "admin".to_string(), "123".to_string());
    // Logged out: no session-dependent request can be issued.
    assert!(matches!(client.rpc(), Err(Error::Session(_))));
    assert!(matches!(client.keep_alive_check(5), Err(Error::Session(_))));

    client
        .first_login_apply(Ok(challenge_response(401, "Default")))
        .unwrap();
    client.second_login_apply(None, 7).unwrap();
    let b = client.rpc().unwrap();
    assert!(b.require_session);
    assert_eq!(b.req.session, "2f58ba01");
    assert_eq!(b.url, "http://192.0.2.1/RPC2");
    assert!(b.session_guard().is_ok());

    // Logging out resets unconditionally and hands the logout request back.
    let out = client.logout_request().unwrap();
    assert_eq!(out.req.method, "global.logout");
    assert!(matches!(client.state, State::Logout));
}

#[test]
fn first_login_rejects_unexpected_answers() {
    // An unexpected error code means the device does not support the flow.
    let mut client = Client::new("h".to_string(), "u".to_string(), "p".to_string());
    let res = client.first_login_apply(Ok(challenge_response(500, "Default")));
    assert!(matches!(res, Err(Error::Response(e)) if e.code == 500));

    // No error field at all is a protocol error.
    let mut ok_resp = challenge_response(401, "Default");
    ok_resp.error = None;
    assert!(matches!(client.first_login_apply(Ok(ok_resp)), Err(Error::Parse(_))));

    // An empty session echo cannot be logged into.
    let mut no_session = challenge_response(401, "Default");
    no_session.session = ResponseSession::Absent;
    assert!(matches!(client.first_login_apply(Ok(no_session)), Err(Error::Session(_))));
}

#[test]
fn response_normalization() {
    let r: Response<AuthParam> = Response {
        id: 3,
        session: ResponseSession::Num(4321),
        error: None,
        params: None,
        result: ResponseResult::Num(17),
    };
    assert_eq!(r.session(), "4321");
    assert!(r.result());

    let r: Response<AuthParam> = Response {
        id: 3,
        session: ResponseSession::Absent,
        error: None,
        params: None,
        result: ResponseResult::Bool(true),
    };
    assert_eq!(r.session(), "");
    assert_eq!(r.result_number(), 1);

    let session_err = Error::from_response_error(ResponseError {
        code: 287637505,
        message: "stale".to_string(),
        kind: ResponseKind::Unknown,
    });
    assert!(matches!(session_err, Error::Session(m) if m == "stale"));

    let no_data = Error::from_response_error(ResponseError {
        code: 285409284,
        message: String::new(),
        kind: ResponseKind::Unknown,
    });
    assert!(matches!(no_data, Error::Response(e) if e.kind == ResponseKind::NoData));
}
