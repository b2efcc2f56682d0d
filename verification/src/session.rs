//! The per-device session state machine.
//!
//! A client is `Logout` (no session), `Login` (a session token plus the time
//! of the last successful keep-alive), or `Error` (blocked after a
//! credential failure, so that retries cannot lock the account). The
//! transport performs the calls; the functions here build each request and
//! decide what every outcome means, so the whole login, keep-alive and
//! logout logic is verified:
//!
//! - a logged-in client always holds a non-empty session token (`wf`), and
//! - a session-bearing request is only handed out in the `Login` state
//!   (`rpc` returns an error in every other state).
//!
//! Time is a monotonic clock reading in seconds, supplied by the caller.

use vstd::prelude::*;

use crate::auth::{get_auth, spec_get_auth, AuthParam};
use crate::rpc::{Connection, Error, LoginError, RequestBuilder, Response, RpcParams};
use crate::strutil::str_eq;

verus! {

use vstd::string::StringExecFns;

/// A keep-alive issued earlier than this many seconds after the last
/// success is answered locally, without a network call.
pub const KEEP_ALIVE_TIMEOUT_SECS: i64 = 60;

/// The session state: logged out, logged in since some keep-alive time, or
/// blocked by a credential failure.
#[derive(Clone, Copy, Debug, PartialEq, Eq, Structural)]
pub enum State {
    Logout,
    Login(i64),
    Error(LoginError),
}

impl Default for State {
    fn default() -> (r: Self)
        ensures
            r is Logout,
    {
        State::Logout
    }
}

/// What `keep_alive_apply` tells the caller to do next.
#[derive(Debug)]
pub enum KeepAliveVerdict {
    /// The keep-alive succeeded; the session stays.
    Done,
    /// The request could not be made: the device is presumed unreachable and
    /// the session is left untouched.
    Unreachable(Error),
    /// Any other failure: the session is presumed invalid, the state has
    /// been reset, and the caller should run the login flow once — on a
    /// fresh connection, since some devices reset the connection when a
    /// keep-alive and a login follow each other on one.
    Relogin,
}

/// One device's client: its address, credentials, connection bookkeeping
/// and session state.
#[derive(Debug)]
pub struct Client {
    pub ip: String,
    pub username: String,
    pub password: String,
    pub connection: Connection,
    pub state: State,
}

/// Appends `tail` to `"http://" + ip`.
fn device_url(ip: &str, tail: &str) -> (r: String)
    ensures
        r@ == "http://"@ + ip@ + tail@,
{
    let mut s = String::from_str("http://");
    s.append(ip);
    s.append(tail);
    assert(s@ =~= "http://"@ + ip@ + tail@);
    s
}

/// The login-type string the second login call carries: the challenge's own
/// mode for `"WatchNet"`, `"Direct"` for everything else.
pub open spec fn spec_login_type(encryption: Seq<char>) -> Seq<char> {
    if encryption == "WatchNet"@ {
        "WatchNet"@
    } else {
        "Direct"@
    }
}

/// The fixed table classifying second-login failures into credential
/// errors. Anything it does not list is a retryable failure.
pub open spec fn spec_classify_login_failure(code: i32, message: Seq<char>) -> Option<LoginError> {
    if code == 268632085 {
        Some(LoginError::UserOrPasswordNotValid)
    } else if code == 268632081 {
        Some(LoginError::HasBeenLocked)
    } else if message == "UserNotValidt"@ {
        Some(LoginError::UserNotValid)
    } else if message == "PasswordNotValid"@ {
        Some(LoginError::PasswordNotValid)
    } else if message == "InBlackList"@ {
        Some(LoginError::InBlackList)
    } else if message == "HasBeedUsed"@ {
        Some(LoginError::HasBeedUsed)
    } else if message == "HasBeenLocked"@ {
        Some(LoginError::HasBeenLocked)
    } else {
        None
    }
}

/// Classifies a second-login failure by the device's code and message.
pub fn classify_login_failure(code: i32, message: &str) -> (r: Option<LoginError>)
    ensures
        r == spec_classify_login_failure(code, message@),
{
    if code == 268632085 {
        Some(LoginError::UserOrPasswordNotValid)
    } else if code == 268632081 {
        Some(LoginError::HasBeenLocked)
    } else if str_eq(message, "UserNotValidt") {
        Some(LoginError::UserNotValid)
    } else if str_eq(message, "PasswordNotValid") {
        Some(LoginError::PasswordNotValid)
    } else if str_eq(message, "InBlackList") {
        Some(LoginError::InBlackList)
    } else if str_eq(message, "HasBeedUsed") {
        Some(LoginError::HasBeedUsed)
    } else if str_eq(message, "HasBeenLocked") {
        Some(LoginError::HasBeenLocked)
    } else {
        None
    }
}

impl Client {
    /// A client in the `Login` state always holds a session token.
    pub open spec fn wf(self) -> bool {
        self.state matches State::Login(_) ==> self.connection.session@.len() > 0
    }

    /// The identity and credentials are untouched.
    pub open spec fn same_device(self, other: Client) -> bool {
        &&& self.ip == other.ip
        &&& self.username == other.username
        &&& self.password == other.password
    }

    pub fn new(ip: String, username: String, password: String) -> (r: Client)
        ensures
            r.ip == ip,
            r.username == username,
            r.password == password,
            r.state is Logout,
            r.connection.last_id == 0,
            r.connection.session@ == Seq::<char>::empty(),
            r.wf(),
    {
        Client { ip, username, password, connection: Connection::default(), state: State::Logout }
    }

    /// A logged-in client is never observed with an empty session token.
    pub proof fn lemma_logged_in_has_token(self)
        requires
            self.wf(),
            self.state matches State::Login(_),
        ensures
            self.connection.session@.len() > 0,
    {
    }

    /// A session-bearing request, handed out only in the `Login` state: in
    /// `Logout` or `Error` no session-dependent call can be issued.
    pub fn rpc(&mut self) -> (r: Result<RequestBuilder, Error>)
        ensures
            final(self).state == old(self).state,
            final(self).connection.session == old(self).connection.session,
            final(self).same_device(*old(self)),
            old(self).wf() ==> final(self).wf(),
            r is Ok <==> old(self).state matches State::Login(_),
            r matches Ok(b) ==> {
                &&& b.require_session
                &&& b.req.session == old(self).connection.session
                &&& b.req.method@ == Seq::<char>::empty()
                &&& b.req.params is Empty
                &&& b.req.object is None
                &&& b.url@ == "http://"@ + old(self).ip@ + "/RPC2"@
                &&& (old(self).wf() ==> b.req.session@.len() > 0)
            },
            r matches Err(e) ==> (e matches Error::Session(m) && m@ == "No session"@),
    {
        match self.state {
            State::Login(_) => {
                let id = self.connection.next_id();
                let url = device_url(self.ip.as_str(), "/RPC2");
                Ok(RequestBuilder::new(id, url, self.connection.session.clone()).require_session())
            },
            _ => Err(Error::no_session()),
        }
    }

    /// A request to the login endpoint, carrying whatever session exists.
    fn rpc_login(&mut self) -> (b: RequestBuilder)
        ensures
            final(self).state == old(self).state,
            final(self).connection.session == old(self).connection.session,
            final(self).same_device(*old(self)),
            old(self).wf() ==> final(self).wf(),
            b.req.session == old(self).connection.session,
            b.req.method@ == Seq::<char>::empty(),
            b.req.params is Empty,
            b.req.object is None,
            !b.require_session,
            b.url@ == "http://"@ + old(self).ip@ + "/RPC2_Login"@,
    {
        let id = self.connection.next_id();
        let url = device_url(self.ip.as_str(), "/RPC2_Login");
        RequestBuilder::new(id, url, self.connection.session.clone())
    }

    /// Begins the login flow. From `Error` the attempt fails at once with
    /// the blocking reason. From `Login` the session is dropped and a
    /// best-effort logout request is handed back for the caller to send
    /// (its outcome is ignored). From `Logout` there is nothing to do.
    pub fn login_precheck(&mut self) -> (r: Result<Option<RequestBuilder>, Error>)
        ensures
            final(self).same_device(*old(self)),
            final(self).wf(),
            old(self).state matches State::Error(e) ==> {
                &&& r matches Err(err) && err matches Error::Login(le) && le == e
                &&& *final(self) == *old(self)
            },
            old(self).state matches State::Login(_) ==> {
                &&& r matches Ok(b) && b matches Some(builder) && builder.req.method@
                    == "global.logout"@ && builder.req.session == old(self).connection.session
                &&& final(self).state is Logout
                &&& final(self).connection.session@ == Seq::<char>::empty()
                &&& final(self).connection.last_id == 0
            },
            old(self).state is Logout ==> {
                &&& r matches Ok(b) && b is None
                &&& *final(self) == *old(self)
            },
    {
        match self.state {
            State::Error(e) => Err(Error::Login(e)),
            State::Login(_) => {
                let b = match self.rpc() {
                    Ok(b) => b,
                    Err(_) => {
                        proof {
                            assert(false);
                        }
                        unreached()
                    },
                };
                let b = b.method("global.logout");
                self.connection = Connection::default();
                self.state = State::Logout;
                Ok(Some(b))
            },
            State::Logout => Ok(None),
        }
    }

    /// The first, unauthenticated login call: it asks the device for a
    /// session id and a challenge.
    pub fn first_login_request(&mut self) -> (b: RequestBuilder)
        requires
            old(self).state is Logout,
        ensures
            final(self).state == old(self).state,
            final(self).connection.session == old(self).connection.session,
            final(self).same_device(*old(self)),
            final(self).wf(),
            b.req.method@ == "global.login"@,
            b.req.params matches RpcParams::FirstLogin { username, password, login_type, client_type }
                && username == old(self).username && password@ == Seq::<char>::empty()
                && login_type@ == "Direct"@ && client_type@ == "Web3.0"@,
            b.url@ == "http://"@ + old(self).ip@ + "/RPC2_Login"@,
    {
        let username = self.username.clone();
        let b = self.rpc_login();
        b.method("global.login").params(
            RpcParams::FirstLogin {
                username,
                password: String::new(),
                login_type: String::from_str("Direct"),
                client_type: String::from_str("Web3.0"),
            },
        )
    }

    /// Digests the outcome of the first login call. The device must answer
    /// with a session id, a challenge, and one of the two "credentials
    /// required" codes (268632079 or 401); anything else means it does not
    /// support this login flow, the connection is reset and the attempt
    /// fails. On success the echoed session is adopted and the challenge
    /// handed back.
    pub fn first_login_apply(&mut self, res: Result<Response<AuthParam>, Error>) -> (r: Result<
        AuthParam,
        Error,
    >)
        requires
            old(self).state is Logout,
        ensures
            final(self).state is Logout,
            final(self).same_device(*old(self)),
            final(self).wf(),
            res matches Err(e) ==> (r matches Err(e2) && e2 == e && final(self).connection.session@
                == Seq::<char>::empty()),
            res matches Ok(resp) ==> {
                &&& (resp.params is None ==> (r matches Err(e) && e matches Error::Parse(m) && m@
                    == "No 'params' field"@))
                &&& (resp.params matches Some(challenge) ==> {
                    &&& (resp.error is None ==> (r matches Err(e) && e matches Error::Parse(m) && m@
                        == "No error field in first login"@))
                    &&& (resp.error matches Some(err) ==> {
                        &&& (!(err.code == 268632079 || err.code == 401) ==> (r matches Err(e) && e
                            matches Error::Response(e2) && e2 == err))
                        &&& ((err.code == 268632079 || err.code == 401) ==> {
                            let sess = crate::rpc::spec_session_string(resp.session);
                            &&& (sess.len() == 0 ==> (r matches Err(e) && e matches Error::Session(
                                m,
                            ) && m@ == "No session"@))
                            &&& (sess.len() > 0 ==> {
                                &&& r matches Ok(c) && c == challenge
                                &&& final(self).connection.session@ == sess
                            })
                        })
                    })
                })
            },
            r is Err ==> final(self).connection.session@ == Seq::<char>::empty(),
    {
        let resp = match res {
            Ok(resp) => resp,
            Err(e) => {
                self.connection = Connection::default();
                return Err(e);
            },
        };
        let sess = resp.session();
        let has_session = sess.as_str().unicode_len() > 0;
        let error = resp.error;
        let challenge = match resp.params {
            Some(c) => c,
            None => {
                self.connection = Connection::default();
                return Err(Error::no_params());
            },
        };
        let err = match error {
            Some(err) => err,
            None => {
                self.connection = Connection::default();
                return Err(Error::Parse(String::from_str("No error field in first login")));
            },
        };
        if !(err.code == 268632079 || err.code == 401) {
            self.connection = Connection::default();
            return Err(Error::Response(err));
        }
        if !has_session {
            self.connection = Connection::default();
            return Err(Error::no_session());
        }
        self.connection.session = sess;
        Ok(challenge)
    }

    /// The second login call: the credential digest derived from the
    /// challenge, and the login type it selects (`"WatchNet"` only for that
    /// encryption mode, `"Direct"` otherwise).
    pub fn second_login_request(&mut self, challenge: &AuthParam) -> (b: RequestBuilder)
        requires
            old(self).state is Logout,
        ensures
            final(self).state == old(self).state,
            final(self).connection.session == old(self).connection.session,
            final(self).same_device(*old(self)),
            final(self).wf(),
            b.req.method@ == "global.login"@,
            b.req.session == old(self).connection.session,
            b.url@ == "http://"@ + old(self).ip@ + "/RPC2_Login"@,
            b.req.params matches RpcParams::SecondLogin {
                username,
                password,
                login_type,
                authority_type,
                client_type,
            } && username == old(self).username && password@ == spec_get_auth(
                old(self).username@,
                old(self).password@,
                *challenge,
            ) && login_type@ == spec_login_type(challenge.encryption@) && authority_type
                == challenge.encryption && client_type@ == "Web3.0"@,
    {
        let digest = get_auth(self.username.as_str(), self.password.as_str(), challenge);
        let login_type = if str_eq(challenge.encryption.as_str(), "WatchNet") {
            String::from_str("WatchNet")
        } else {
            String::from_str("Direct")
        };
        let username = self.username.clone();
        let authority_type = challenge.encryption.clone();
        let b = self.rpc_login();
        b.method("global.login").params(
            RpcParams::SecondLogin {
                username,
                password: digest,
                login_type,
                authority_type,
                client_type: String::from_str("Web3.0"),
            },
        )
    }

    /// Digests the outcome of the second login call (`None` is success).
    /// Success moves the client to `Login(now)`. A failure the fixed table
    /// classifies as a credential error blocks the client (`Error`); any
    /// other failure resets it to `Logout` so a later attempt may retry.
    pub fn second_login_apply(&mut self, outcome: Option<Error>, now: i64) -> (r: Result<(), Error>)
        requires
            old(self).state is Logout,
            old(self).connection.session@.len() > 0,
        ensures
            final(self).same_device(*old(self)),
            final(self).wf(),
            outcome is None ==> {
                &&& r is Ok
                &&& final(self).state == State::Login(now)
                &&& final(self).connection.session == old(self).connection.session
            },
            outcome matches Some(e) ==> {
                &&& final(self).connection.session@ == Seq::<char>::empty()
                &&& (if (e matches Error::Response(re) && spec_classify_login_failure(
                    re.code,
                    re.message@,
                ) is Some) {
                    let le = spec_classify_login_failure(
                        (e->Response_0).code,
                        (e->Response_0).message@,
                    )->0;
                    &&& final(self).state == State::Error(le)
                    &&& r matches Err(err) && err matches Error::Login(le2) && le2 == le
                } else {
                    &&& final(self).state is Logout
                    &&& r matches Err(err) && err == e
                })
            },
    {
        match outcome {
            None => {
                self.state = State::Login(now);
                Ok(())
            },
            Some(e) => {
                self.connection = Connection::default();
                let classified = match &e {
                    Error::Response(re) => classify_login_failure(re.code, re.message.as_str()),
                    _ => None,
                };
                match classified {
                    Some(le) => {
                        self.state = State::Error(le);
                        Err(Error::Login(le))
                    },
                    None => {
                        self.state = State::Logout;
                        Err(e)
                    },
                }
            },
        }
    }

    /// The keep-alive gate: not logged in means the caller must log in; a
    /// keep-alive within the timeout of the last success is answered
    /// locally, with no network call; past the timeout the keep-alive
    /// request is handed back to send.
    pub fn keep_alive_check(&mut self, now: i64) -> (r: Result<Option<RequestBuilder>, Error>)
        ensures
            final(self).state == old(self).state,
            final(self).connection.session == old(self).connection.session,
            final(self).same_device(*old(self)),
            old(self).wf() ==> final(self).wf(),
            !(old(self).state matches State::Login(_)) ==> (r matches Err(e) && e
                matches Error::Session(m) && m@ == "No session"@),
            old(self).state matches State::Login(t) ==> {
                &&& (now - t < KEEP_ALIVE_TIMEOUT_SECS ==> (r matches Ok(b) && b is None))
                &&& (now - t >= KEEP_ALIVE_TIMEOUT_SECS ==> (r matches Ok(b) && b matches Some(
                    builder,
                ) && builder.req.method@ == "global.keepAlive"@ && (builder.req.params
                    matches RpcParams::KeepAlive { timeout, active } && timeout == 300 && active)
                    && builder.req.session == old(self).connection.session
                    && builder.require_session))
            },
    {
        match self.state {
            State::Login(t) => {
                if (now as i128) - (t as i128) < KEEP_ALIVE_TIMEOUT_SECS as i128 {
                    Ok(None)
                } else {
                    let b = match self.rpc() {
                        Ok(b) => b,
                        Err(_) => {
                            proof {
                                assert(false);
                            }
                            unreached()
                        },
                    };
                    Ok(
                        Some(
                            b.method("global.keepAlive").params(
                                RpcParams::KeepAlive { timeout: 300, active: true },
                            ),
                        ),
                    )
                }
            },
            _ => Err(Error::no_session()),
        }
    }

    /// Digests a keep-alive outcome (`None` is success). Success refreshes
    /// the keep-alive time. A transport failure leaves the session alone —
    /// the device is presumed unreachable, not the session invalid. Any
    /// other failure resets the client; the caller should then run the
    /// login flow once, on a fresh connection.
    pub fn keep_alive_apply(&mut self, outcome: Option<Error>, now: i64) -> (r: KeepAliveVerdict)
        requires
            old(self).state matches State::Login(_),
        ensures
            final(self).same_device(*old(self)),
            old(self).wf() ==> final(self).wf(),
            outcome is None ==> {
                &&& r is Done
                &&& final(self).state == State::Login(now)
                &&& final(self).connection.session == old(self).connection.session
            },
            outcome matches Some(e) ==> (if e matches Error::Request(_) {
                &&& r matches KeepAliveVerdict::Unreachable(e2) && e2 == e
                &&& *final(self) == *old(self)
            } else {
                &&& r is Relogin
                &&& final(self).state is Logout
                &&& final(self).connection.session@ == Seq::<char>::empty()
            }),
    {
        match outcome {
            None => {
                self.state = State::Login(now);
                KeepAliveVerdict::Done
            },
            Some(e) => {
                let transport = matches!(&e, Error::Request(_));
                if transport {
                    KeepAliveVerdict::Unreachable(e)
                } else {
                    self.connection = Connection::default();
                    self.state = State::Logout;
                    KeepAliveVerdict::Relogin
                }
            },
        }
    }

    /// Ends the session: when logged in, the logout request is handed back
    /// for a best-effort send (its outcome is ignored) and the client is
    /// reset unconditionally; otherwise nothing happens.
    pub fn logout_request(&mut self) -> (r: Option<RequestBuilder>)
        ensures
            final(self).same_device(*old(self)),
            final(self).wf(),
            old(self).state matches State::Login(_) ==> {
                &&& r matches Some(b) && b.req.method@ == "global.logout"@ && b.req.session
                    == old(self).connection.session
                &&& final(self).state is Logout
                &&& final(self).connection.session@ == Seq::<char>::empty()
            },
            !(old(self).state matches State::Login(_)) ==> (r is None && *final(self)
                == *old(self)),
    {
        match self.state {
            State::Login(_) => {
                let b = match self.rpc() {
                    Ok(b) => b,
                    Err(_) => {
                        proof {
                            assert(false);
                        }
                        unreached()
                    },
                };
                let b = b.method("global.logout");
                self.connection = Connection::default();
                self.state = State::Logout;
                Some(b)
            },
            _ => None,
        }
    }

    /// Marks the client closed: no further use is possible.
    pub fn close(&mut self)
        ensures
            final(self).same_device(*old(self)),
            final(self).state == State::Error(LoginError::Closed),
            final(self).connection == old(self).connection,
            final(self).wf(),
    {
        self.state = State::Error(LoginError::Closed);
    }

    /// The session cookie an external downloader must present.
    pub fn cookie(&self) -> (r: String)
        ensures
            r@ == "WebClientSessionID="@ + self.connection.session@ + "; DWebClientSessionID="@
                + self.connection.session@ + "; DhWebClientSessionID="@
                + self.connection.session@,
    {
        let mut s = String::from_str("WebClientSessionID=");
        s.append(self.connection.session.as_str());
        s.append("; DWebClientSessionID=");
        s.append(self.connection.session.as_str());
        s.append("; DhWebClientSessionID=");
        s.append(self.connection.session.as_str());
        assert(s@ =~= "WebClientSessionID="@ + self.connection.session@
            + "; DWebClientSessionID="@ + self.connection.session@ + "; DhWebClientSessionID="@
            + self.connection.session@);
        s
    }

    /// The URL an external downloader fetches a device file from.
    pub fn file_url(&self, file_path: &str) -> (r: String)
        ensures
            r@ == "http://"@ + self.ip@ + "/RPC_Loadfile"@ + file_path@,
    {
        let mut s = String::from_str("http://");
        s.append(self.ip.as_str());
        s.append("/RPC_Loadfile");
        s.append(file_path);
        assert(s@ =~= "http://"@ + self.ip@ + "/RPC_Loadfile"@ + file_path@);
        s
    }
}

} // verus!
