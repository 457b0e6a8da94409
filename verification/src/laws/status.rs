// SPDX-License-Identifier: GPL-3.0-or-later
//! What the user is shown, and what the user enters.

use crate::laws::text::{all_are, bare, law_joined, law_stripped, law_words};
use crate::progress::{one_line_of, Status};
use crate::secret::{pin_line, pin_outcome, typed_of, PinLine, PinOutcome};
use crate::text::{drop_end_while, is_white, joined, white, words};
use vstd::prelude::*;

verus! {

/// The page is told of success when the tunnel is up, of an error when it failed,
/// and is over then and only then.
pub proof fn law_status_kind(s: Status)
    ensures
        s.kind() == if s is Up {
            "success"@
        } else if s is Failed {
            "error"@
        } else {
            "loading"@
        },
        s.terminal() <==> s is Up || s is Failed,
{
}

/// What is shown in each phase.
pub proof fn law_status_message(why: String)
    ensures
        Status::Authenticating.message() == "Completing sign-in…"@,
        Status::Authenticated.message() == "Signed in. Preparing connection…"@,
        Status::FetchingConfig.message() == "Fetching VPN configuration…"@,
        Status::StartingTunnel.message() == "Establishing secure tunnel…"@,
        Status::ConfiguringNetwork.message() == "Configuring routes and DNS…"@,
        Status::Up.message() == "Connected. You're all set."@,
        Status::Failed(why).message() == "Connection failed: "@ + one_line_of(why@),
{
}

/// Whether a text is a word: not empty, and without white space.
pub open spec fn is_word(s: Seq<char>) -> bool {
    s.len() > 0 && all_are(s, |c: char| !white(c))
}

/// Bringing a text onto one line keeps every word of it, in order.
pub proof fn law_words_are_kept(s: Seq<char>)
    ensures
        words(one_line_of(s)) == words(s),
{
    assert forall|i: int| 0 <= i < words(s).len() implies is_word(#[trigger] words(s)[i]) by {
        lemma_is_word(s, i);
    }
    lemma_words_joined(words(s));
}

proof fn lemma_is_word(s: Seq<char>, k: int)
    requires
        0 <= k < words(s).len(),
    ensures
        is_word(words(s)[k]),
{
    assert forall|j: int| 0 <= j < words(s)[k].len() implies (|c: char| !white(c))(
        #[trigger] words(s)[k][j],
    ) by {
        crate::progress::lemma_words_are_clean(s, k, j);
    }
    crate::progress::lemma_words_are_not_empty(s, k);
}

proof fn lemma_words_joined(ws: Seq<Seq<char>>)
    requires
        forall|i: int| 0 <= i < ws.len() ==> is_word(#[trigger] ws[i]),
    ensures
        words(joined(ws, " "@)) == ws,
    decreases ws.len(),
{
    reveal_strlit(" ");
    assert(" "@ =~= seq![' ']);
    if ws.len() == 0 {
        law_words(seq!['a'], ' ', Seq::empty());
    } else {
        law_words(ws[0], ' ', Seq::empty());
        if ws.len() == 1 {
            assert(ws =~= seq![ws[0]]);
        } else {
            lemma_joined_front(ws, " "@);
            let rest = ws.drop_first();
            assert forall|i: int| 0 <= i < rest.len() implies is_word(#[trigger] rest[i]) by {
                assert(is_word(ws[i + 1]));
            }
            lemma_words_joined(rest);
            law_words(ws[0], ' ', joined(rest, " "@));
            assert(seq![ws[0]] + rest =~= ws);
        }
    }
}

proof fn lemma_joined_front(ws: Seq<Seq<char>>, sep: Seq<char>)
    requires
        ws.len() >= 2,
    ensures
        joined(ws, sep) == ws[0] + sep + joined(ws.drop_first(), sep),
    decreases ws.len(),
{
    let front = ws.drop_last();
    law_joined(front, ws.last(), sep);
    assert(front.push(ws.last()) =~= ws);
    let rest = ws.drop_first();
    if ws.len() == 2 {
        law_joined(Seq::empty(), ws[0], sep);
        law_joined(Seq::empty(), ws[1], sep);
        assert(front =~= seq![ws[0]]);
        assert(rest =~= seq![ws[1]]);
    } else {
        lemma_joined_front(front, sep);
        assert(front.drop_first() =~= rest.drop_last());
        law_joined(rest.drop_last(), rest.last(), sep);
        assert(rest.drop_last().push(rest.last()) =~= rest);
        assert(joined(ws, sep) =~= ws[0] + sep + joined(rest, sep));
    }
}

/// White space, as what ends a line.
pub open spec fn blank() -> spec_fn(char) -> bool {
    |c: char| white(c)
}

/// pinentry's data line holds the secret, all of it: inner and leading blanks
/// belong to it, only what ends the line does not.
pub proof fn law_pin_data(secret: Seq<char>, end: Seq<char>)
    requires
        secret.len() > 0,
        !white(secret[secret.len() - 1]),
        all_are(end, blank()),
    ensures
        pin_line("D "@ + secret + end) == (PinLine::Secret { pin: secret }),
{
    reveal_strlit("D ");
    assert("D "@.len() == 2 && "D "@[0] == 'D' && "D "@[1] == ' ');
    let s = "D "@ + secret;
    lemma_line_end(s, end);
    assert("D "@.is_prefix_of(s));
    assert(s.skip(2) =~= secret);
}

proof fn lemma_line_end(s: Seq<char>, end: Seq<char>)
    requires
        s.len() > 0,
        !white(s[0]),
        !white(s[s.len() - 1]),
        all_are(end, blank()),
    ensures
        drop_end_while(s + end, is_white()) == s,
{
    assert forall|i: int| 0 <= i < end.len() implies is_white()(#[trigger] end[i]) by {
        assert(blank()(end[i]));
    }
    let none = Seq::<char>::empty();
    law_stripped(none, s, end, is_white());
    assert(none + s + end =~= s + end);
    assert(none + s =~= s);
}

/// `OK` ends the dialog, with or without a comment; `ERR` says that it failed, and
/// the whole line is kept; a line that begins with neither of these words, nor with
/// the data mark, says nothing.
pub proof fn law_pin_words(comment: Seq<char>, end: Seq<char>, other: Seq<char>)
    requires
        bare(comment, blank()),
        all_are(end, blank()),
        other.len() > 0,
        !white(other[0]),
        !white(other[other.len() - 1]),
        !(other.len() >= 2 && other[0] == 'D' && other[1] == ' '),
        !(other.len() >= 2 && other[0] == 'O' && other[1] == 'K' && (other.len() == 2 || other[2]
            == ' ')),
        !(other.len() >= 3 && other[0] == 'E' && other[1] == 'R' && other[2] == 'R'),
    ensures
        pin_line("OK"@ + end) is Done,
        comment.len() > 0 ==> pin_line("OK "@ + comment + end) is Done,
        pin_line("ERR"@ + end) == (PinLine::Error { line: "ERR"@ }),
        comment.len() > 0 ==> pin_line("ERR "@ + comment + end) == (PinLine::Error {
            line: "ERR "@ + comment,
        }),
        pin_line(other + end) is Noise,
{
    reveal_strlit("D ");
    reveal_strlit("OK");
    reveal_strlit("OK ");
    reveal_strlit("ERR");
    reveal_strlit("ERR ");
    assert("D "@.len() == 2 && "D "@[0] == 'D' && "D "@[1] == ' ');
    assert("OK"@.len() == 2 && "OK"@[0] == 'O' && "OK"@[1] == 'K');
    assert("OK "@.len() == 3 && "OK "@[0] == 'O' && "OK "@[1] == 'K' && "OK "@[2] == ' ');
    assert("ERR"@.len() == 3 && "ERR"@[0] == 'E' && "ERR"@[1] == 'R' && "ERR"@[2] == 'R');
    assert("ERR "@.len() == 4 && "ERR "@[0] == 'E' && "ERR "@[1] == 'R' && "ERR "@[2] == 'R'
        && "ERR "@[3] == ' ');
    lemma_line_end("OK"@, end);
    lemma_line_end("ERR"@, end);
    lemma_line_end(other, end);
    if "D "@.is_prefix_of(other) {
        assert(other[0] == "D "@[0] && other[1] == "D "@[1]);
    }
    if "OK "@.is_prefix_of(other) {
        assert(other[0] == "OK "@[0] && other[1] == "OK "@[1] && other[2] == "OK "@[2]);
    }
    if "ERR"@.is_prefix_of(other) {
        assert(other[0] == "ERR"@[0] && other[1] == "ERR"@[1] && other[2] == "ERR"@[2]);
    }
    assert(!"D "@.is_prefix_of("OK"@)) by {
        assert("OK"@[0] != "D "@[0]);
    }
    assert("ERR"@.is_prefix_of("ERR"@));
    assert("ERR"@ != "OK"@);
    if comment.len() > 0 {
        assert(!blank()(comment[comment.len() - 1]));
        lemma_line_end("OK "@ + comment, end);
        lemma_line_end("ERR "@ + comment, end);
        assert("OK "@.is_prefix_of("OK "@ + comment));
        assert("ERR"@.is_prefix_of("ERR "@ + comment));
        assert(("OK "@ + comment)[0] == 'O');
        assert(("ERR "@ + comment)[0] == 'E');
    }
}

/// The last secret that was given before the dialog ended is the one that was
/// entered; lines behind the end no longer count.
pub proof fn law_pin_entered(said: Seq<Seq<char>>, line: Seq<char>)
    ensures
        pin_outcome(Seq::empty()) == (PinOutcome::Open { pin: None }),
        pin_outcome(said) matches PinOutcome::Open { pin } ==> {
            &&& pin_line(line) matches PinLine::Secret { pin } ==> pin_outcome(said.push(line)) == (
            PinOutcome::Open { pin: Some(pin) })
            &&& pin_line(line) is Done ==> pin_outcome(said.push(line)) == (PinOutcome::Over {
                pin,
            })
            &&& pin_line(line) matches PinLine::Error { line: l } ==> pin_outcome(said.push(line))
                == (PinOutcome::Failed { line: l })
            &&& pin_line(line) is Noise ==> pin_outcome(said.push(line)) == pin_outcome(said)
        },
        !(pin_outcome(said) is Open) ==> pin_outcome(said.push(line)) == pin_outcome(said),
{
    assert(said.push(line).drop_last() =~= said);
}

/// What is typed up to a line feed or a carriage return is the secret, every byte
/// of it; nothing typed behind that is.
pub proof fn law_typed(before: Seq<char>, secret: Seq<u8>, rest: Seq<u8>)
    requires
        forall|i: int| 0 <= i < secret.len() ==> #[trigger] secret[i] != 10 && secret[i] != 13,
    ensures
        ({
            let entered = before + secret.map_values(|b: u8| b as char);
            &&& typed_of(before, secret + seq![10u8] + rest) == entered
            &&& typed_of(before, secret + seq![13u8] + rest) == entered
            &&& typed_of(before, secret) == entered
        }),
    decreases secret.len(),
{
    let f = |b: u8| b as char;
    let entered = before + secret.map_values(f);
    if secret.len() == 0 {
        assert((secret + seq![10u8] + rest)[0] == 10);
        assert((secret + seq![13u8] + rest)[0] == 13);
        assert(entered =~= before);
    } else {
        let tail = secret.drop_first();
        let next = before.push(secret[0] as char);
        law_typed(next, tail, rest);
        assert((secret + seq![10u8] + rest)[0] == secret[0]);
        assert((secret + seq![13u8] + rest)[0] == secret[0]);
        assert((secret + seq![10u8] + rest).drop_first() =~= tail + seq![10u8] + rest);
        assert((secret + seq![13u8] + rest).drop_first() =~= tail + seq![13u8] + rest);
        assert(next + tail.map_values(f) =~= entered);
    }
}

} // verus!
