// SPDX-License-Identifier: GPL-3.0-or-later
//! The FortiGate SSL VPN provider.

pub mod auth;
pub mod http;
pub mod status;
pub mod xml;

use crate::cli::Config;
use crate::fortinet::auth::SVPNCOOKIE;
use crate::fortinet::http::{is_success, success};
use crate::fortinet::xml::{document_nodes, params_of, parse_tunnel_params, ParamsError};
use crate::path::{lossy_text, text_lossy};
use crate::provider::{Session, TunnelParams};
use crate::text::{chars_of, starts_with, string_of, trim, trimmed};
use crate::transport::framing::FortiFramer;
use vstd::prelude::*;
use vstd::slice::slice_subrange;
use vstd::string::StringExecFns;

verus! {

/// Requests that make the gateway allocate the tunnel; only their effect matters.
pub const ALLOCATION_PATHS: [&'static str; 2] = ["/remote/index", "/remote/fortisslvpn"];

/// Where the tunnel parameters are.
pub const CONFIG_PATH: &'static str = "/remote/fortisslvpn_xml";

/// Where a session ends.
pub const LOGOUT_PATH: &'static str = "/remote/logout";

/// How to come by a session.
pub enum AuthPlan {
    /// Read the cookie from standard input.
    ReadCookie,
    /// There is a session already.
    Have(Session),
    /// Log in through the browser, with a local server on this port.
    Saml(u16),
    /// Log in with username and password.
    Password,
}

/// A cookie line that holds no cookie.
#[derive(Debug, Clone, Copy, PartialEq, Eq, Structural)]
pub struct EmptyCookie;

/// Why there are no tunnel parameters.
#[derive(Debug)]
pub enum FetchError {
    /// The request was answered with this status.
    Status(u16),
    /// The answer makes no sense.
    Params(ParamsError),
}

/// What a session cookie is written with where its name is written, too.
pub const COOKIE_PREFIX: &'static str = "SVPNCOOKIE=";

/// The value of a configured session cookie, which may be written with its name,
/// `SVPNCOOKIE=value`, or without.
pub open spec fn cookie_value(s: Seq<char>) -> Seq<char> {
    if COOKIE_PREFIX@.is_prefix_of(s) {
        s.skip(COOKIE_PREFIX@.len() as int)
    } else {
        s
    }
}

/// The value of a configured session cookie.
fn value_of_cookie(s: &[char]) -> (r: String)
    ensures
        r@ == cookie_value(s@),
{
    let prefix = chars_of(COOKIE_PREFIX);
    if starts_with(s, prefix.as_slice()) {
        let rest = slice_subrange(s, prefix.len(), s.len());
        assert(rest@ =~= s@.skip(COOKIE_PREFIX@.len() as int));
        string_of(rest)
    } else {
        string_of(s)
    }
}

/// The request that turns a connection into the tunnel, for the session that a
/// cookie value stands for.
pub open spec fn tunnel_request_of(cookie: Seq<char>) -> Seq<char> {
    "GET /remote/sslvpn-tunnel HTTP/1.1\r\nHost: sslvpn\r\nCookie: "@ + SVPNCOOKIE@ + "="@ + cookie
        + "\r\n\r\n"@
}

/// A session cookie may be configured with its name or without: the gateway gets to
/// see `SVPNCOOKIE=value` either way.
pub proof fn law_cookie_name_is_optional(value: Seq<char>)
    ensures
        cookie_value("SVPNCOOKIE="@ + value) == value,
        !"SVPNCOOKIE="@.is_prefix_of(value) ==> cookie_value(value) == value,
        tunnel_request_of(cookie_value("SVPNCOOKIE="@ + value))
            == "GET /remote/sslvpn-tunnel HTTP/1.1\r\nHost: sslvpn\r\nCookie: "@ + "SVPNCOOKIE="@
            + value + "\r\n\r\n"@,
{
    let named = "SVPNCOOKIE="@ + value;
    assert(named.take("SVPNCOOKIE="@.len() as int) =~= "SVPNCOOKIE="@);
    assert(named.skip("SVPNCOOKIE="@.len() as int) =~= value);
    let head = "GET /remote/sslvpn-tunnel HTTP/1.1\r\nHost: sslvpn\r\nCookie: "@;
    assert("SVPNCOOKIE"@ + "="@ =~= "SVPNCOOKIE="@) by {
        reveal_strlit("SVPNCOOKIE");
        reveal_strlit("=");
        reveal_strlit("SVPNCOOKIE=");
    }
    assert(head + "SVPNCOOKIE"@ + "="@ + value + "\r\n\r\n"@ =~= head + ("SVPNCOOKIE"@ + "="@)
        + value + "\r\n\r\n"@);
}

/// The FortiGate provider.
pub struct Fortinet;

impl Fortinet {
    /// The name of the provider, for logs.
    pub fn name(&self) -> (r: &'static str)
        ensures
            r@ == "fortinet"@,
    {
        "fortinet"
    }

    /// How to come by a session: a cookie on standard input spares the login, or
    /// one in the configuration, with its name or without; else the browser, else
    /// a password.
    pub fn auth_plan(&self, config: &Config) -> (r: AuthPlan)
        ensures
            if config@.cookie_on_stdin {
                r is ReadCookie
            } else if config@.cookie is Some {
                r matches AuthPlan::Have(s) && s.cookie@ == cookie_value(config@.cookie->0)
            } else if config@.saml_port is Some {
                r matches AuthPlan::Saml(port) && Some(port) == config@.saml_port
            } else {
                r is Password
            },
    {
        if config.cookie_on_stdin {
            return AuthPlan::ReadCookie;
        }
        if let Some(cookie) = &config.cookie {
            let chars = chars_of(cookie.as_str());
            return AuthPlan::Have(Session { cookie: value_of_cookie(chars.as_slice()) });
        }
        match config.saml_port {
            Some(port) => AuthPlan::Saml(port),
            None => AuthPlan::Password,
        }
    }

    /// The session that a line from standard input stands for: all of it, white
    /// space around it aside, is the value of the cookie.
    pub fn session_from_line(&self, line: &str) -> (r: Result<Session, EmptyCookie>)
        ensures
            match r {
                Ok(s) => s.cookie@ == trimmed(line@) && s.cookie@.len() > 0,
                Err(_) => trimmed(line@).len() == 0,
            },
    {
        let chars = chars_of(line);
        let cookie = trim(chars.as_slice());
        if cookie.len() == 0 {
            Err(EmptyCookie)
        } else {
            Ok(Session { cookie: string_of(cookie) })
        }
    }

    /// The session that a cookie of the gateway stands for; without one, there is
    /// none.
    pub fn session(&self, cookie: Option<String>) -> (r: Option<Session>)
        ensures
            match r {
                Some(s) => cookie.deep_view() == Some(s.cookie@),
                None => cookie is None,
            },
    {
        match cookie {
            Some(cookie) => Some(Session { cookie }),
            None => None,
        }
    }

    /// The tunnel parameters that the gateway answered with.
    pub fn params(&self, status: u16, body: &[u8]) -> (r: Result<TunnelParams, FetchError>)
        ensures
            if !success(status) {
                r matches Err(FetchError::Status(s)) && s == status
            } else {
                match document_nodes(lossy_text(body@)) {
                    None => r matches Err(FetchError::Params(ParamsError::BadXml(_))),
                    Some(nodes) => match params_of(nodes) {
                        Ok(params) => r matches Ok(p) && p@ == params,
                        Err(e) => r matches Err(FetchError::Params(ParamsError::BadMask(x))) && x
                            == e,
                    },
                }
            },
    {
        if !is_success(status) {
            return Err(FetchError::Status(status));
        }
        let text = text_lossy(body);
        match parse_tunnel_params(text.as_str()) {
            Ok(params) => Ok(params),
            Err(e) => Err(FetchError::Params(e)),
        }
    }

    /// The request that turns a connection into the tunnel.
    pub fn tunnel_request(&self, session: &Session) -> (r: String)
        ensures
            r@ == tunnel_request_of(session.cookie@),
    {
        let mut r =
            "GET /remote/sslvpn-tunnel HTTP/1.1\r\nHost: sslvpn\r\nCookie: ".to_owned();
        r.append(SVPNCOOKIE);
        r.append("=");
        r.append(session.cookie.as_str());
        r.append("\r\n\r\n");
        r
    }

    /// The framer for the gateway side of the tunnel.
    pub fn transport_framer(&self) -> (r: FortiFramer)
        ensures
            r == FortiFramer,
    {
        FortiFramer
    }
}

} // verus!
