// SPDX-License-Identifier: GPL-3.0-or-later
//! Logging in: username and password, two-factor challenges, and SAML.
//!
//! A [`Login`] decides what to send next from what the gateway answered. Whoever
//! drives it posts each body to [`LOGIN_PATH`], prompts where it is told to, and
//! hands back the answer.

use crate::cli::{Config, ConfigView};
use crate::fortinet::http::{authority, is_redirection, is_success, redirection, success};
use crate::number::push_decimal;
use crate::seqs::{index_where, lemma_index_where, lemma_index_where_is};
use crate::text::{
    chars_of, find, found_at, is_whitespace, str_same, string_of, trim, trimmed, white,
};
use vstd::prelude::*;
use vstd::slice::slice_subrange;
use vstd::string::StringExecFns;
use vstd::utf8::encode_utf8;

verus! {

/// The cookie that stands for a session.
pub const SVPNCOOKIE: &'static str = "SVPNCOOKIE";

/// Where credentials and codes are posted.
pub const LOGIN_PATH: &'static str = "/remote/logincheck";

/// Recognises the characters that end a value.
pub open spec fn ends_value() -> spec_fn(char) -> bool {
    |c: char| c == '&' || c == ',' || white(c)
}

/// The value that `key=` introduces in a response: from its first occurrence up
/// to an ampersand, a comma or white space.
pub open spec fn response_value(body: Seq<char>, key: Seq<char>) -> Option<Seq<char>> {
    let pat = key.push('=');
    match found_at(body, pat) {
        Some(i) => {
            let rest = body.skip(i + pat.len());
            Some(rest.take(index_where(rest, ends_value())))
        },
        None => None,
    }
}

/// Extract `key=value` from a gateway response body. Values end at `&`, `,` or
/// white space.
pub fn parse_response_value(body: &str, key: &str) -> (r: Option<String>)
    ensures
        r.deep_view() == response_value(body@, key@),
{
    let text = chars_of(body);
    let mut pat = chars_of(key);
    pat.push('=');
    let n: usize = text.len();
    let at: usize = match find(text.as_slice(), pat.as_slice()) {
        Some(i) => i,
        None => {
            return None;
        },
    };
    let start: usize = at + pat.len();
    let rest = slice_subrange(text.as_slice(), start, n);
    assert(rest@ =~= body@.skip(at + key@.push('=').len()));
    let mut end: usize = 0;
    while end < rest.len() && rest[end] != '&' && rest[end] != ',' && !is_whitespace(rest[end])
        invariant
            end <= rest@.len(),
            forall|j: int| 0 <= j < end ==> !ends_value()(#[trigger] rest@[j]),
        decreases rest@.len() - end,
    {
        end = end + 1;
    }
    proof {
        lemma_index_where_is(rest@, ends_value(), end as int);
        assert(rest@.take(end as int) =~= rest@.subrange(0, end as int));
    }
    Some(string_of(slice_subrange(rest, 0, end)))
}

/// A value never holds what ends one.
pub proof fn law_value_is_clean(body: Seq<char>, key: Seq<char>, i: int)
    ensures
        response_value(body, key) matches Some(v) ==> (0 <= i < v.len() ==> v[i] != '&' && v[i]
            != ',' && !white(v[i])),
{
    if let Some(at) = found_at(body, key.push('=')) {
        let rest = body.skip(at + key.push('=').len());
        lemma_index_where(rest, ends_value());
        if 0 <= i < index_where(rest, ends_value()) {
            assert(!ends_value()(rest[i]));
        }
    }
}

/// Whether a byte stands for itself in a form: letters, digits and `-._~`.
pub open spec fn unreserved(b: u8) -> bool {
    ||| 0x30 <= b <= 0x39
    ||| 0x41 <= b <= 0x5a
    ||| 0x61 <= b <= 0x7a
    ||| b == 0x2d
    ||| b == 0x2e
    ||| b == 0x5f
    ||| b == 0x7e
}

/// The uppercase hex digit of a value below sixteen.
pub open spec fn upper_hex(d: int) -> char {
    if d < 10 {
        (48 + d) as char
    } else {
        (55 + d) as char
    }
}

/// A byte as a form carries it.
pub open spec fn percent_byte(b: u8) -> Seq<char> {
    if unreserved(b) {
        seq![b as char]
    } else {
        seq!['%', upper_hex(b as int / 16), upper_hex(b as int % 16)]
    }
}

/// Bytes as a form carries them.
pub open spec fn percent_bytes(bytes: Seq<u8>) -> Seq<char>
    decreases bytes.len(),
{
    if bytes.len() == 0 {
        Seq::empty()
    } else {
        percent_bytes(bytes.drop_last()) + percent_byte(bytes.last())
    }
}

/// A text as a form carries it: its UTF-8 bytes.
pub open spec fn percent_encoded(s: Seq<char>) -> Seq<char> {
    percent_bytes(encode_utf8(s))
}

/// `urlencoding::encode` percent-encodes every byte of the text's UTF-8 encoding
/// except letters, digits and `-._~`, with uppercase hex digits.
#[verifier::external_body]
fn url_encode(s: &str) -> (r: String)
    ensures
        r@ == percent_encoded(s@),
{
    urlencoding::encode(s).into_owned()
}

/// A form field, where there is a value for it.
pub open spec fn field(name: Seq<char>, value: Option<Seq<char>>) -> Seq<char> {
    match value {
        Some(v) => name + percent_encoded(v),
        None => Seq::empty(),
    }
}

/// The form that carries the credentials.
pub open spec fn credentials_form(c: ConfigView) -> Seq<char> {
    "ajax=1"@ + field("&username="@, c.username) + field("&credential="@, c.password) + field(
        "&realm="@,
        c.realm,
    )
}

/// A value of the challenge, or nothing.
pub open spec fn value_or_empty(challenge: Seq<char>, key: Seq<char>) -> Seq<char> {
    match response_value(challenge, key) {
        Some(v) => v,
        None => Seq::empty(),
    }
}

/// The form that answers a challenge.
pub open spec fn challenge_form(c: ConfigView, challenge: Seq<char>, extra: Seq<char>) -> Seq<
    char,
> {
    "ajax=1"@ + field("&username="@, c.username) + field("&realm="@, c.realm) + "&reqid="@
        + value_or_empty(challenge, "reqid"@) + "&polid="@ + value_or_empty(challenge, "polid"@)
        + "&grp="@ + value_or_empty(challenge, "grp"@) + "&magic="@ + value_or_empty(
        challenge,
        "magic"@,
    ) + extra
}

/// The part of the form that asks for a push.
pub open spec fn push_fields() -> Seq<char> {
    "&code=&code2=&ftmpush=1"@
}

/// The part of the form that carries a one-time password.
pub open spec fn code_fields(code: Seq<char>) -> Seq<char> {
    "&code="@ + percent_encoded(trimmed(code)) + "&code2="@
}

fn push_field(out: &mut String, name: &str, value: &Option<String>)
    ensures
        final(out)@ == old(out)@ + field(name@, value.deep_view()),
{
    if let Some(v) = value {
        out.append(name);
        out.append(url_encode(v.as_str()).as_str());
        assert(out@ =~= old(out)@ + (name@ + percent_encoded(v@)));
    } else {
        assert(out@ =~= old(out)@ + Seq::<char>::empty());
    }
}

/// The form that carries the credentials.
pub fn credentials_body(config: &Config) -> (r: String)
    ensures
        r@ == credentials_form(config@),
{
    let mut body = "ajax=1".to_owned();
    push_field(&mut body, "&username=", &config.username);
    push_field(&mut body, "&credential=", &config.password);
    push_field(&mut body, "&realm=", &config.realm);
    body
}

fn push_value(out: &mut String, name: &str, challenge: &str, key: &str)
    ensures
        final(out)@ == old(out)@ + name@ + value_or_empty(challenge@, key@),
{
    out.append(name);
    match parse_response_value(challenge, key) {
        Some(v) => {
            out.append(v.as_str());
        },
        None => {
            assert(out@ =~= out@ + Seq::<char>::empty());
        },
    }
}

/// The form that answers a challenge.
fn challenge_body(config: &Config, challenge: &str, extra: &str) -> (r: String)
    ensures
        r@ == challenge_form(config@, challenge@, extra@),
{
    let mut body = "ajax=1".to_owned();
    push_field(&mut body, "&username=", &config.username);
    push_field(&mut body, "&realm=", &config.realm);
    push_value(&mut body, "&reqid=", challenge, "reqid");
    push_value(&mut body, "&polid=", challenge, "polid");
    push_value(&mut body, "&grp=", challenge, "grp");
    push_value(&mut body, "&magic=", challenge, "magic");
    body.append(extra);
    body
}

/// The form that sends a one-time password.
fn code_body(config: &Config, challenge: &str, code: &str) -> (r: String)
    ensures
        r@ == challenge_form(config@, challenge@, code_fields(code@)),
{
    let chars = chars_of(code);
    let code = string_of(trim(chars.as_slice()));
    let mut extra = "&code=".to_owned();
    extra.append(url_encode(code.as_str()).as_str());
    extra.append("&code2=");
    challenge_body(config, challenge, extra.as_str())
}

/// Why a login failed.
#[derive(Debug)]
pub enum LoginError {
    /// The gateway said no, with this code or with none.
    Refused { ret: Option<String> },
    /// The second factor was not accepted.
    TwoFactor,
    /// The gateway said yes and set no session cookie.
    NoCookie,
}

/// Why a login failed, as plain values.
#[verifier::ext_equal]
pub enum LoginErrorView {
    Refused { ret: Option<Seq<char>> },
    TwoFactor,
    NoCookie,
}

impl View for LoginError {
    type V = LoginErrorView;

    open spec fn view(&self) -> LoginErrorView {
        match self {
            LoginError::Refused { ret } => LoginErrorView::Refused { ret: ret.deep_view() },
            LoginError::TwoFactor => LoginErrorView::TwoFactor,
            LoginError::NoCookie => LoginErrorView::NoCookie,
        }
    }
}

impl LoginError {
    /// What to tell the user.
    pub fn message(&self) -> (r: String)
        ensures
            r@ == match self@ {
                LoginErrorView::Refused { ret } => "Authentication failed (ret="@ + match ret {
                    Some(v) => v,
                    None => "<missing>"@,
                } + ")"@,
                LoginErrorView::TwoFactor => "Two-factor authentication failed"@,
                LoginErrorView::NoCookie => "Login succeeded but no SVPNCOOKIE cookie was returned"@,
            },
    {
        match self {
            LoginError::Refused { ret } => {
                let mut r = "Authentication failed (ret=".to_owned();
                match ret {
                    Some(v) => r.append(v.as_str()),
                    None => r.append("<missing>"),
                }
                r.append(")");
                r
            },
            LoginError::TwoFactor => "Two-factor authentication failed".to_owned(),
            LoginError::NoCookie => {
                "Login succeeded but no SVPNCOOKIE cookie was returned".to_owned()
            },
        }
    }
}

/// What a login waits for.
enum Awaiting {
    /// The answer to the credentials.
    Check,
    /// The answer to a push request, made for this challenge.
    Push(String),
    /// A one-time password from the user, for this challenge.
    Secret(String),
    /// The answer to a one-time password.
    Code,
    /// Nothing: it is over.
    Nothing,
}

/// What a login waits for, as plain values.
#[verifier::ext_equal]
pub enum LoginView {
    Check,
    Push { challenge: Seq<char> },
    Secret { challenge: Seq<char> },
    Code,
    Over,
}

/// What to do next.
pub enum Next {
    /// Post `body` after `delay` seconds, and hand in the answer.
    Post { delay: u64, body: String },
    /// Prompt for a one-time password, and hand it in.
    Ask { prompt: String },
    /// The session has its cookie.
    LoggedIn,
    /// It has not, and never will.
    Failed(LoginError),
}

/// What to do next, as plain values.
#[verifier::ext_equal]
pub enum NextView {
    Post { delay: u64, body: Seq<char> },
    Ask { prompt: Seq<char> },
    LoggedIn,
    Failed { error: LoginErrorView },
}

impl View for Next {
    type V = NextView;

    open spec fn view(&self) -> NextView {
        match self {
            Next::Post { delay, body } => NextView::Post { delay: *delay, body: body@ },
            Next::Ask { prompt } => NextView::Ask { prompt: prompt@ },
            Next::LoggedIn => NextView::LoggedIn,
            Next::Failed(e) => NextView::Failed { error: e@ },
        }
    }
}

/// Whether a response says that all went well.
pub open spec fn granted(text: Seq<char>) -> bool {
    response_value(text, "ret"@) == Some("1"@)
}

/// The end of a login that the gateway granted.
pub open spec fn finished(has_cookie: bool) -> (LoginView, NextView) {
    (
        LoginView::Over,
        if has_cookie {
            NextView::LoggedIn
        } else {
            NextView::Failed { error: LoginErrorView::NoCookie }
        },
    )
}

/// Answering a challenge with a one-time password: the configured one, else one
/// to ask for.
pub open spec fn code_wanted(c: ConfigView, challenge: Seq<char>) -> (LoginView, NextView) {
    match c.otp {
        Some(code) => code_sent(c, challenge, code),
        None => (
            LoginView::Secret { challenge },
            NextView::Ask {
                prompt: match c.otp_prompt {
                    Some(p) => p,
                    None => "Two-factor token: "@,
                },
            },
        ),
    }
}

/// Sending a one-time password.
pub open spec fn code_sent(c: ConfigView, challenge: Seq<char>, code: Seq<char>) -> (
    LoginView,
    NextView,
) {
    (
        LoginView::Code,
        NextView::Post {
            delay: c.otp_delay,
            body: challenge_form(c, challenge, code_fields(code)),
        },
    )
}

/// Answering a challenge: by a push, unless a one-time password is configured or
/// pushes are not wanted.
pub open spec fn challenged(c: ConfigView, challenge: Seq<char>) -> (LoginView, NextView) {
    if c.otp is None && !c.no_ftm_push {
        (
            LoginView::Push { challenge },
            NextView::Post { delay: 0, body: challenge_form(c, challenge, push_fields()) },
        )
    } else {
        code_wanted(c, challenge)
    }
}

/// What an answer of the gateway leads to. `has_cookie` says whether the session
/// cookie is set by now.
pub open spec fn after_answer(c: ConfigView, s: LoginView, text: Seq<char>, has_cookie: bool) -> (
    LoginView,
    NextView,
) {
    match s {
        LoginView::Check => if response_value(text, "tokeninfo"@) is Some && !has_cookie {
            challenged(c, text)
        } else if granted(text) {
            finished(has_cookie)
        } else {
            (
                LoginView::Over,
                NextView::Failed {
                    error: LoginErrorView::Refused { ret: response_value(text, "ret"@) },
                },
            )
        },
        LoginView::Push { challenge } => if granted(text) || has_cookie {
            finished(has_cookie)
        } else {
            code_wanted(c, challenge)
        },
        LoginView::Code => if granted(text) || has_cookie {
            finished(has_cookie)
        } else {
            (LoginView::Over, NextView::Failed { error: LoginErrorView::TwoFactor })
        },
        _ => (s, NextView::Failed { error: LoginErrorView::NoCookie }),
    }
}

impl LoginView {
    /// Whether the gateway is to answer.
    pub open spec fn awaits_answer(&self) -> bool {
        self is Check || self is Push || self is Code
    }

    /// How many more steps there can be.
    pub open spec fn steps_left(&self) -> int {
        match self {
            LoginView::Check => 4,
            LoginView::Push { .. } => 3,
            LoginView::Secret { .. } => 2,
            LoginView::Code => 1,
            LoginView::Over => 0,
        }
    }
}

/// A login under way.
pub struct Login {
    awaiting: Awaiting,
}

impl View for Login {
    type V = LoginView;

    closed spec fn view(&self) -> LoginView {
        match self.awaiting {
            Awaiting::Check => LoginView::Check,
            Awaiting::Push(c) => LoginView::Push { challenge: c@ },
            Awaiting::Secret(c) => LoginView::Secret { challenge: c@ },
            Awaiting::Code => LoginView::Code,
            Awaiting::Nothing => LoginView::Over,
        }
    }
}

fn is_granted(text: &str) -> (r: bool)
    ensures
        r == granted(text@),
{
    match parse_response_value(text, "ret") {
        Some(v) => str_same(v.as_str(), "1"),
        None => false,
    }
}

impl Login {
    /// Start a login. Returns the form to post first.
    pub fn start(config: &Config) -> (r: (Login, String))
        ensures
            r.0@ is Check,
            r.1@ == credentials_form(config@),
    {
        (Login { awaiting: Awaiting::Check }, credentials_body(config))
    }

    fn finish(&mut self, has_cookie: bool) -> (r: Next)
        ensures
            (final(self)@, r@) == finished(has_cookie),
    {
        self.awaiting = Awaiting::Nothing;
        if has_cookie {
            Next::LoggedIn
        } else {
            Next::Failed(LoginError::NoCookie)
        }
    }

    fn send_code(&mut self, config: &Config, challenge: &str, code: &str) -> (r: Next)
        ensures
            (final(self)@, r@) == code_sent(config@, challenge@, code@),
    {
        self.awaiting = Awaiting::Code;
        Next::Post { delay: config.otp_delay, body: code_body(config, challenge, code) }
    }

    fn want_code(&mut self, config: &Config, challenge: &str) -> (r: Next)
        ensures
            (final(self)@, r@) == code_wanted(config@, challenge@),
    {
        match &config.otp {
            Some(code) => self.send_code(config, challenge, code.as_str()),
            None => {
                self.awaiting = Awaiting::Secret(challenge.to_owned());
                Next::Ask {
                    prompt: match &config.otp_prompt {
                        Some(p) => p.clone(),
                        None => "Two-factor token: ".to_owned(),
                    },
                }
            },
        }
    }

    /// Drive the two-factor challenge: a FortiToken Mobile push, or a code.
    fn handle_challenge(&mut self, config: &Config, challenge: &str) -> (r: Next)
        ensures
            (final(self)@, r@) == challenged(config@, challenge@),
    {
        if config.otp.is_none() && !config.no_ftm_push {
            self.awaiting = Awaiting::Push(challenge.to_owned());
            Next::Post {
                delay: 0,
                body: challenge_body(config, challenge, "&code=&code2=&ftmpush=1"),
            }
        } else {
            self.want_code(config, challenge)
        }
    }

    /// The gateway has answered with `text`; `has_cookie` says whether it has set
    /// the session cookie by now.
    pub fn answered(&mut self, config: &Config, text: &str, has_cookie: bool) -> (r: Next)
        requires
            old(self)@.awaits_answer(),
        ensures
            (final(self)@, r@) == after_answer(config@, old(self)@, text@, has_cookie),
    {
        match &self.awaiting {
            Awaiting::Check => {
                if !has_cookie && parse_response_value(text, "tokeninfo").is_some() {
                    self.handle_challenge(config, text)
                } else if is_granted(text) {
                    self.finish(has_cookie)
                } else {
                    self.awaiting = Awaiting::Nothing;
                    Next::Failed(LoginError::Refused { ret: parse_response_value(text, "ret") })
                }
            },
            Awaiting::Push(challenge) => {
                if has_cookie || is_granted(text) {
                    self.finish(has_cookie)
                } else {
                    let challenge = challenge.clone();
                    self.want_code(config, challenge.as_str())
                }
            },
            _ => {
                if has_cookie || is_granted(text) {
                    self.finish(has_cookie)
                } else {
                    self.awaiting = Awaiting::Nothing;
                    Next::Failed(LoginError::TwoFactor)
                }
            },
        }
    }

    /// The user has entered a one-time password.
    pub fn entered(&mut self, config: &Config, code: &str) -> (r: Next)
        requires
            old(self)@ is Secret,
        ensures
            (final(self)@, r@) == code_sent(config@, old(self)@->Secret_challenge, code@),
    {
        let challenge = match &self.awaiting {
            Awaiting::Secret(c) => c.clone(),
            _ => String::new(),
        };
        self.send_code(config, challenge.as_str(), code)
    }
}

/// Nobody is logged in without a session cookie, whatever the gateway answers;
/// and a cookie that is there when the gateway grants the login is enough.
pub proof fn law_login_needs_cookie(c: ConfigView, s: LoginView, text: Seq<char>, has_cookie: bool)
    requires
        s.awaits_answer(),
    ensures
        after_answer(c, s, text, has_cookie).1 is LoggedIn ==> has_cookie,
        has_cookie && granted(text) ==> after_answer(c, s, text, has_cookie).1 is LoggedIn,
        after_answer(c, s, text, has_cookie).1 is LoggedIn || after_answer(
            c,
            s,
            text,
            has_cookie,
        ).1 is Failed <==> after_answer(c, s, text, has_cookie).0 is Over,
{
}

/// A login comes to an end: every answer and every code entered leaves fewer
/// steps than before, and there are four at most.
pub proof fn law_login_ends(c: ConfigView, s: LoginView, text: Seq<char>, has_cookie: bool)
    ensures
        0 <= s.steps_left() <= 4,
        s.awaits_answer() ==> after_answer(c, s, text, has_cookie).0.steps_left()
            < s.steps_left(),
        s is Secret ==> code_sent(c, s->Secret_challenge, text).0.steps_left() < s.steps_left(),
{
}

/// No push is asked for when a one-time password is configured or pushes are not
/// wanted, and a configured one-time password is never prompted for.
pub proof fn law_configured_code_is_used(
    c: ConfigView,
    s: LoginView,
    text: Seq<char>,
    has_cookie: bool,
)
    requires
        s.awaits_answer(),
    ensures
        c.otp is Some || c.no_ftm_push ==> !(after_answer(c, s, text, has_cookie).0 is Push),
        c.otp is Some ==> !(after_answer(c, s, text, has_cookie).1 is Ask),
{
}

/// Where a browser starts a SAML login.
pub open spec fn sso_address(host: Seq<char>, port: u16) -> Seq<char> {
    "https://"@ + authority(host, port) + "/remote/saml/start?redirect=1"@
}

/// Where a browser starts a SAML login.
pub fn sso_url(host: &str, port: u16) -> (r: String)
    ensures
        r@ == sso_address(host@, port),
{
    let mut r = "https://".to_owned();
    r.append(host);
    r.push(':');
    push_decimal(&mut r, port as u64);
    r.append("/remote/saml/start?redirect=1");
    assert(r@ =~= sso_address(host@, port));
    r
}

/// Where a SAML session id is exchanged for a session cookie.
pub fn auth_id_uri(session_id: &str) -> (r: String)
    ensures
        r@ == "/remote/saml/auth_id?id="@ + percent_encoded(session_id@),
{
    let mut r = "/remote/saml/auth_id?id=".to_owned();
    r.append(url_encode(session_id).as_str());
    r
}

/// Why a SAML login failed.
#[derive(Debug, Clone, Copy, PartialEq, Eq, Structural)]
pub enum SamlError {
    /// The exchange was answered with this status.
    Exchange { status: u16 },
    /// The exchange went well and set no session cookie.
    NoCookie,
}

/// How the exchange of a SAML session id came out: its status must say success
/// or redirect, and the session cookie must be set.
pub fn saml_outcome(status: u16, has_cookie: bool) -> (r: Result<(), SamlError>)
    ensures
        r == if !success(status) && !redirection(status) {
            Err(SamlError::Exchange { status })
        } else if !has_cookie {
            Err(SamlError::NoCookie)
        } else {
            Ok(())
        },
{
    if !is_success(status) && !is_redirection(status) {
        return Err(SamlError::Exchange { status });
    }
    if !has_cookie {
        return Err(SamlError::NoCookie);
    }
    Ok(())
}

} // verus!
