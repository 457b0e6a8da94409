// SPDX-License-Identifier: GPL-3.0-or-later
//! Logging in: what the gateway is sent for what it answered.

use crate::cli::ConfigView;
use crate::fortinet::auth::{
    after_answer, code_sent, credentials_form, ends_value, percent_bytes, percent_encoded,
    response_value, LoginErrorView, LoginView, NextView,
};
use crate::laws::text::{law_found, law_found_first};
use crate::seqs::{index_where, lemma_index_where_is};
use crate::text::{occurs, trimmed, white};
use vstd::prelude::*;
use vstd::utf8::encode_utf8;

verus! {

/// Whether a character ends a value.
pub open spec fn ends(c: char) -> bool {
    c == '&' || c == ',' || white(c)
}

/// The value of a key is what stands behind the first place where the key and an
/// equals sign stand, up to an ampersand, a comma, white space or the end; without
/// such a place there is none.
pub proof fn law_response_value(
    before: Seq<char>,
    key: Seq<char>,
    value: Seq<char>,
    rest: Seq<char>,
)
    requires
        forall|i: int| 0 <= i < value.len() ==> !ends(#[trigger] value[i]),
        rest.len() > 0 ==> ends(rest[0]),
        forall|j: int|
            0 <= j < before.len() ==> #[trigger] (before + key.push('=') + value + rest).subrange(
                j,
                j + key.len() + 1,
            ) != key.push('='),
    ensures
        response_value(before + key.push('=') + value + rest, key) == Some(value),
{
    let pat = key.push('=');
    let body = before + pat + value + rest;
    let n = before.len() as int;
    assert(body.subrange(n, n + pat.len()) =~= pat);
    assert forall|j: int| 0 <= j < n implies #[trigger] body.subrange(j, j + pat.len()) != pat by {
        assert(body.subrange(j, j + key.len() + 1) != pat);
    }
    law_found_first(body, pat, n);
    assert(body.skip(n + pat.len()) =~= value + rest);
    lemma_value_ends(value, rest);
}

proof fn lemma_value_ends(value: Seq<char>, rest: Seq<char>)
    requires
        forall|i: int| 0 <= i < value.len() ==> !ends(#[trigger] value[i]),
        rest.len() > 0 ==> ends(rest[0]),
    ensures
        (value + rest).take(index_where(value + rest, ends_value())) == value,
{
    let tail = value + rest;
    assert forall|j: int| 0 <= j < value.len() implies !ends_value()(#[trigger] tail[j]) by {
        assert(!ends(value[j]));
    }
    if rest.len() > 0 {
        assert(tail[value.len() as int] == rest[0]);
    }
    lemma_index_where_is(tail, ends_value(), value.len() as int);
    assert(tail.take(value.len() as int) =~= value);
}

/// A key that does not stand in front of an equals sign anywhere has no value.
pub proof fn law_no_response_value(body: Seq<char>, key: Seq<char>)
    requires
        forall|j: int|
            0 <= j <= body.len() - key.len() - 1 ==> #[trigger] body.subrange(
                j,
                j + key.len() + 1,
            ) != key.push('='),
    ensures
        response_value(body, key) is None,
{
    let pat = key.push('=');
    law_found(body, pat);
    if occurs(body, pat) {
        let i = choose|i: int|
            0 <= i <= body.len() - pat.len() && #[trigger] body.subrange(i, i + pat.len()) == pat;
        assert(body.subrange(i, i + key.len() + 1) == pat);
    }
}

/// In a form, letters, digits and `-`, `.`, `_`, `~` stand for themselves; every
/// other byte of the text's encoding becomes a percent sign and its two hex
/// digits, in upper case.
pub proof fn law_form_bytes(bytes: Seq<u8>, b: u8)
    ensures
        percent_bytes(Seq::empty()) == Seq::<char>::empty(),
        percent_bytes(bytes.push(b)) == percent_bytes(bytes) + if ('0' as u8 <= b && b <= '9' as u8)
            || ('A' as u8 <= b && b <= 'Z' as u8) || ('a' as u8 <= b && b <= 'z' as u8) || b
            == '-' as u8 || b == '.' as u8 || b == '_' as u8 || b == '~' as u8 {
            seq![b as char]
        } else {
            seq![
                '%',
                "0123456789ABCDEF"@[b as int / 16],
                "0123456789ABCDEF"@[b as int % 16],
            ]
        },
{
    reveal_strlit("0123456789ABCDEF");
    assert(bytes.push(b).drop_last() =~= bytes);
    assert(bytes.push(b).last() == b);
}

/// A form carries the UTF-8 bytes of a text.
pub proof fn law_form_text(s: Seq<char>)
    ensures
        percent_encoded(s) == percent_bytes(encode_utf8(s)),
{
}

/// The credentials go in one form: who logs in, the password and the realm, each
/// encoded, as far as they are configured.
pub proof fn law_credentials(c: ConfigView)
    ensures
        ({
            let user = match c.username {
                Some(v) => "&username="@ + percent_encoded(v),
                None => Seq::empty(),
            };
            let password = match c.password {
                Some(v) => "&credential="@ + percent_encoded(v),
                None => Seq::empty(),
            };
            let realm = match c.realm {
                Some(v) => "&realm="@ + percent_encoded(v),
                None => Seq::empty(),
            };
            credentials_form(c) == "ajax=1"@ + user + password + realm
        }),
{
}

/// The value that the gateway gave for a key, or nothing.
pub open spec fn given(text: Seq<char>, key: Seq<char>) -> Seq<char> {
    match response_value(text, key) {
        Some(v) => v,
        None => Seq::empty(),
    }
}

/// What an answer to `challenge` starts with: who logs in, and the values that the
/// challenge itself gave.
pub open spec fn answer_to(c: ConfigView, challenge: Seq<char>) -> Seq<char> {
    let user = match c.username {
        Some(v) => "&username="@ + percent_encoded(v),
        None => Seq::empty(),
    };
    let realm = match c.realm {
        Some(v) => "&realm="@ + percent_encoded(v),
        None => Seq::empty(),
    };
    "ajax=1"@ + user + realm + "&reqid="@ + given(challenge, "reqid"@) + "&polid="@ + given(
        challenge,
        "polid"@,
    ) + "&grp="@ + given(challenge, "grp"@) + "&magic="@ + given(challenge, "magic"@)
}

/// A challenge is answered with its own values: at once by asking for a push, or
/// with the configured code; or, where there is no code and no push is wanted, by
/// asking the user for one.
pub proof fn law_challenge_is_answered(c: ConfigView, text: Seq<char>)
    requires
        response_value(text, "tokeninfo"@) is Some,
    ensures
        ({
            let next = after_answer(c, LoginView::Check, text, false).1;
            match c.otp {
                Some(code) => next == (NextView::Post {
                    delay: c.otp_delay,
                    body: answer_to(c, text) + ("&code="@ + percent_encoded(trimmed(code))
                        + "&code2="@),
                }),
                None => if c.no_ftm_push {
                    next == (NextView::Ask {
                        prompt: match c.otp_prompt {
                            Some(p) => p,
                            None => "Two-factor token: "@,
                        },
                    })
                } else {
                    next == (NextView::Post {
                        delay: 0,
                        body: answer_to(c, text) + "&code=&code2=&ftmpush=1"@,
                    })
                },
            }
        }),
{
}

/// A code that the user enters answers the challenge that it was asked for, whether
/// that was asked at once or after a push that nobody approved.
pub proof fn law_entered_code_answers_the_challenge(
    c: ConfigView,
    text: Seq<char>,
    refused: Seq<char>,
    code: Seq<char>,
)
    requires
        response_value(text, "tokeninfo"@) is Some,
        response_value(refused, "ret"@) != Some("1"@),
        c.otp is None,
    ensures
        ({
            let first = after_answer(c, LoginView::Check, text, false).0;
            let asked = if c.no_ftm_push {
                first
            } else {
                after_answer(c, first, refused, false).0
            };
            &&& asked is Secret
            &&& code_sent(c, asked->Secret_challenge, code).1 == (NextView::Post {
                delay: c.otp_delay,
                body: answer_to(c, text) + ("&code="@ + percent_encoded(trimmed(code))
                    + "&code2="@),
            })
            &&& !c.no_ftm_push ==> after_answer(c, first, refused, false).1 is Ask
        }),
{
}

/// How a login ends: well, if the gateway answers `ret=1` or has set the session
/// cookie in answer to a second factor, and the cookie is there; else with an error
/// that says what went wrong. A challenge counts only as long as there is no cookie.
pub proof fn law_login_outcome(c: ConfigView, challenge: Seq<char>, text: Seq<char>)
    ensures
        ({
            let ret = response_value(text, "ret"@);
            let yes = ret == Some("1"@);
            let refused = NextView::Failed { error: LoginErrorView::Refused { ret } };
            let no_cookie = NextView::Failed { error: LoginErrorView::NoCookie };
            let push = LoginView::Push { challenge };
            &&& after_answer(c, LoginView::Check, text, true).1 == if yes {
                NextView::LoggedIn
            } else {
                refused
            }
            &&& response_value(text, "tokeninfo"@) is None ==> after_answer(
                c,
                LoginView::Check,
                text,
                false,
            ).1 == if yes {
                no_cookie
            } else {
                refused
            }
            &&& after_answer(c, push, text, true).1 is LoggedIn
            &&& yes ==> after_answer(c, push, text, false).1 == no_cookie
            &&& after_answer(c, LoginView::Code, text, true).1 is LoggedIn
            &&& after_answer(c, LoginView::Code, text, false).1 == if yes {
                no_cookie
            } else {
                NextView::Failed { error: LoginErrorView::TwoFactor }
            }
        }),
{
}

} // verus!
