//! The RPC envelope: requests, responses, error classification and the
//! per-connection bookkeeping (auto-incrementing request id, session token).
//!
//! The wire format is JSON over HTTP; turning bytes into the plain values
//! below and back is the transport's concern. Everything here — normalizing
//! the ambiguous `result` and `session` shapes, classifying device error
//! codes, building requests — is pure and verified.

use vstd::prelude::*;

use crate::strutil::{push_dec_i64, spec_dec_i64, string_push};

verus! {

use vstd::string::StringExecFns;

/// Classification of a device-reported error code.
#[derive(Clone, Copy, Debug, PartialEq, Eq, Structural)]
pub enum ResponseKind {
    InvalidRequest,
    MethodNotFound,
    InterfaceNotFound,
    NoData,
    Unknown,
}

impl Default for ResponseKind {
    fn default() -> (r: Self)
        ensures
            r == ResponseKind::Unknown,
    {
        ResponseKind::Unknown
    }
}

/// The `error` field of a response envelope.
#[derive(Clone, Debug)]
pub struct ResponseError {
    pub code: i32,
    pub message: String,
    pub kind: ResponseKind,
}

/// A credential or account-state failure of the second login call. Such a
/// failure blocks further login attempts so that retries cannot lock the
/// account.
#[derive(Clone, Copy, Debug, PartialEq, Eq, Structural)]
pub enum LoginError {
    Closed,
    Blocked,
    UserOrPasswordNotValid,
    UserNotValid,
    PasswordNotValid,
    InBlackList,
    HasBeedUsed,
    HasBeenLocked,
}

/// The error taxonomy of the protocol layer.
///
/// `Login` only occurs on login requests; `Request` means the call could not
/// be made at all (transport failure — never treated as a session problem);
/// `Parse` means the response did not have the expected shape (treated as
/// session-invalidating); `Response` carries a structured device error;
/// `Session` means there was no session or the device rejected it.
#[derive(Clone, Debug)]
pub enum Error {
    Login(LoginError),
    Request(String),
    Parse(String),
    Response(ResponseError),
    Session(String),
}

impl Error {
    pub fn no_params() -> (r: Error)
        ensures
            r matches Error::Parse(m) && m@ == "No 'params' field"@,
    {
        Error::Parse(String::from_str("No 'params' field"))
    }

    pub fn no_session() -> (r: Error)
        ensures
            r matches Error::Session(m) && m@ == "No session"@,
    {
        Error::Session(String::from_str("No session"))
    }

    /// Classifies an error code from the device: two specific codes mean the
    /// session is invalid; a handful of others carry a known meaning; the
    /// rest are unknown.
    pub fn from_response_error(error: ResponseError) -> (r: Error)
        ensures
            (error.code == 287637505 || error.code == 287637504) ==> (r matches Error::Session(m)
                && m == error.message),
            !(error.code == 287637505 || error.code == 287637504) ==> (r matches Error::Response(e)
                && e.code == error.code && e.message == error.message && e.kind
                == spec_kind_of_code(error.code)),
    {
        let code = error.code;
        if code == 287637505 || code == 287637504 {
            Error::Session(error.message)
        } else {
            Error::Response(
                ResponseError { code: error.code, message: error.message, kind: kind_of_code(code) },
            )
        }
    }
}

/// The meaning of a device error code that is not a session error.
pub open spec fn spec_kind_of_code(code: i32) -> ResponseKind {
    if code == 268894209 {
        ResponseKind::InvalidRequest
    } else if code == 268894210 {
        ResponseKind::MethodNotFound
    } else if code == 268632064 {
        ResponseKind::InterfaceNotFound
    } else if code == 285409284 {
        ResponseKind::NoData
    } else {
        ResponseKind::Unknown
    }
}

pub fn kind_of_code(code: i32) -> (r: ResponseKind)
    ensures
        r == spec_kind_of_code(code),
{
    if code == 268894209 {
        ResponseKind::InvalidRequest
    } else if code == 268894210 {
        ResponseKind::MethodNotFound
    } else if code == 268632064 {
        ResponseKind::InterfaceNotFound
    } else if code == 285409284 {
        ResponseKind::NoData
    } else {
        ResponseKind::Unknown
    }
}

/// The `result` field of a response is either a boolean or a number; both
/// shapes mean "ok / handle value".
#[derive(Clone, Debug)]
pub enum ResponseResult {
    Bool(bool),
    Num(i64),
}

/// The `session` field of a response is a string, a number, or absent.
#[derive(Clone, Debug)]
pub enum ResponseSession {
    Str(String),
    Num(i64),
    Absent,
}

/// What `Response::session` normalizes each shape to.
pub open spec fn spec_session_string(s: ResponseSession) -> Seq<char> {
    match s {
        ResponseSession::Str(t) => t@,
        ResponseSession::Num(n) => spec_dec_i64(n as int),
        ResponseSession::Absent => Seq::empty(),
    }
}

/// A decoded response envelope; `T` is the shape of the `params` field.
#[derive(Debug)]
pub struct Response<T> {
    pub id: i32,
    pub session: ResponseSession,
    pub error: Option<ResponseError>,
    pub params: Option<T>,
    pub result: ResponseResult,
}

impl<T> Response<T> {
    /// The decoded params, or a parse error when the field was absent.
    pub fn params(self) -> (r: Result<T, Error>)
        ensures
            self.params matches Some(p) ==> (r matches Ok(q) && q == p),
            self.params is None ==> (r matches Err(e) && e matches Error::Parse(m) && m@
                == "No 'params' field"@),
    {
        match self.params {
            Some(p) => Ok(p),
            None => Err(Error::no_params()),
        }
    }

    /// The session echo normalized to a string: numbers are rendered in
    /// decimal, an absent field becomes the empty string.
    pub fn session(&self) -> (r: String)
        ensures
            r@ == spec_session_string(self.session),
    {
        match &self.session {
            ResponseSession::Str(s) => s.clone(),
            ResponseSession::Num(n) => {
                let mut s = String::new();
                push_dec_i64(&mut s, *n);
                s
            },
            ResponseSession::Absent => String::new(),
        }
    }

    /// The result as a boolean: a number counts as true when nonzero.
    pub fn result(self) -> (r: bool)
        ensures
            r == spec_result_bool(self.result),
    {
        match self.result {
            ResponseResult::Bool(b) => b,
            ResponseResult::Num(n) => n != 0,
        }
    }

    /// The result as a number: a boolean counts as 1 or 0.
    pub fn result_number(self) -> (r: i64)
        ensures
            r == spec_result_number(self.result),
    {
        match self.result {
            ResponseResult::Bool(b) => if b {
                1
            } else {
                0
            },
            ResponseResult::Num(n) => n,
        }
    }

    /// The error branch of a completed call: a response that carries an
    /// `error` field becomes the classified error, any other passes through.
    pub fn into_result(self) -> (r: Result<Response<T>, Error>)
        ensures
            self.error matches Some(e) ==> (r matches Err(err) && err == spec_classified_error(e)),
            self.error is None ==> (r matches Ok(res) && res == self),
    {
        let Response { id, session, error, params, result } = self;
        match error {
            Some(e) => Err(Error::from_response_error(e)),
            None => Ok(Response { id, session, error: None, params, result }),
        }
    }
}

pub open spec fn spec_result_bool(r: ResponseResult) -> bool {
    match r {
        ResponseResult::Bool(b) => b,
        ResponseResult::Num(n) => n != 0,
    }
}

pub open spec fn spec_result_number(r: ResponseResult) -> int {
    match r {
        ResponseResult::Bool(b) => if b {
            1
        } else {
            0
        },
        ResponseResult::Num(n) => n as int,
    }
}

/// The typed parameter payloads of the fixed method surface this client
/// uses. The transport serializes each variant to its JSON shape.
#[derive(Clone, Debug)]
pub enum RpcParams {
    Empty,
    FirstLogin { username: String, password: String, login_type: String, client_type: String },
    SecondLogin {
        username: String,
        password: String,
        login_type: String,
        authority_type: String,
        client_type: String,
    },
    KeepAlive { timeout: i64, active: bool },
    FindFile(crate::mediafile::Condition),
    FindNextFile { count: i32 },
}

/// A request envelope, ready for the transport to serialize and post.
#[derive(Clone, Debug)]
pub struct Request {
    pub id: i32,
    pub session: String,
    pub method: String,
    pub params: RpcParams,
    pub object: Option<i64>,
}

/// A request under construction, bound to a target URL and, for
/// session-bearing calls, to the session token it must carry.
#[derive(Clone, Debug)]
pub struct RequestBuilder {
    pub req: Request,
    pub url: String,
    pub require_session: bool,
}

impl RequestBuilder {
    pub fn new(id: i32, url: String, session: String) -> (r: RequestBuilder)
        ensures
            r.req.id == id,
            r.req.session == session,
            r.req.method@ == Seq::<char>::empty(),
            r.req.params is Empty,
            r.req.object is None,
            r.url == url,
            !r.require_session,
    {
        RequestBuilder {
            req: Request {
                id,
                session,
                method: String::new(),
                params: RpcParams::Empty,
                object: None,
            },
            url,
            require_session: false,
        }
    }

    pub fn require_session(self) -> (r: RequestBuilder)
        ensures
            r == (RequestBuilder { require_session: true, ..self }),
    {
        RequestBuilder { require_session: true, ..self }
    }

    pub fn params(self, params: RpcParams) -> (r: RequestBuilder)
        ensures
            r.req == (Request { params: params, ..self.req }),
            r.url == self.url,
            r.require_session == self.require_session,
    {
        RequestBuilder { req: Request { params, ..self.req }, ..self }
    }

    pub fn object(self, object: i64) -> (r: RequestBuilder)
        ensures
            r.req == (Request { object: Some(object), ..self.req }),
            r.url == self.url,
            r.require_session == self.require_session,
    {
        RequestBuilder { req: Request { object: Some(object), ..self.req }, ..self }
    }

    pub fn method(self, method: &str) -> (r: RequestBuilder)
        ensures
            r.req.id == self.req.id,
            r.req.session == self.req.session,
            r.req.method@ == method@,
            r.req.params == self.req.params,
            r.req.object == self.req.object,
            r.url == self.url,
            r.require_session == self.require_session,
    {
        RequestBuilder { req: Request { method: String::from_str(method), ..self.req }, ..self }
    }

    /// The guard the transport runs before posting: a session-bearing
    /// request with no session token is refused without a network call.
    pub fn session_guard(&self) -> (r: Result<(), Error>)
        ensures
            r is Ok <==> !(self.require_session && self.req.session@.len() == 0),
            r matches Err(e) ==> e matches Error::Session(m) && m@ == "No session"@,
    {
        if self.require_session && self.req.session.as_str().unicode_len() == 0 {
            Err(Error::no_session())
        } else {
            Ok(())
        }
    }
}

/// Per-connection state: the auto-incrementing request id and the session
/// token the device issued.
#[derive(Clone, Debug)]
pub struct Connection {
    pub last_id: i32,
    pub session: String,
}

impl Default for Connection {
    fn default() -> (r: Self)
        ensures
            r.last_id == 0,
            r.session@ == Seq::<char>::empty(),
    {
        Connection { last_id: 0, session: String::new() }
    }
}

impl Connection {
    /// The next request id; wraps around at the end of the `i32` range.
    pub fn next_id(&mut self) -> (r: i32)
        ensures
            old(self).last_id < i32::MAX ==> final(self).last_id == old(self).last_id + 1,
            old(self).last_id == i32::MAX ==> final(self).last_id == i32::MIN,
            r == final(self).last_id,
            final(self).session == old(self).session,
    {
        self.last_id = self.last_id.wrapping_add(1);
        self.last_id
    }
}

/// Connection state in the variant that also remembers when the last
/// successful login happened (a monotonic-clock reading in seconds).
#[derive(Clone, Debug)]
pub struct Config {
    pub last_id: i32,
    pub session: String,
    pub last_login: Option<i64>,
}

impl Default for Config {
    fn default() -> (r: Self)
        ensures
            r.last_id == 0,
            r.session@ == Seq::<char>::empty(),
            r.last_login is None,
    {
        Config { last_id: 0, session: String::new(), last_login: None }
    }
}

impl Config {
    /// The next request id; wraps around at the end of the `i32` range.
    pub fn next_id(&mut self) -> (r: i32)
        ensures
            old(self).last_id < i32::MAX ==> final(self).last_id == old(self).last_id + 1,
            old(self).last_id == i32::MAX ==> final(self).last_id == i32::MIN,
            r == final(self).last_id,
            final(self).session == old(self).session,
            final(self).last_login == old(self).last_login,
    {
        self.last_id = self.last_id.wrapping_add(1);
        self.last_id
    }
}

/// What `Error::from_response_error` returns.
pub open spec fn spec_classified_error(e: ResponseError) -> Error {
    if e.code == 287637505 || e.code == 287637504 {
        Error::Session(e.message)
    } else {
        Error::Response(
            ResponseError { code: e.code, message: e.message, kind: spec_kind_of_code(e.code) },
        )
    }
}

} // verus!
