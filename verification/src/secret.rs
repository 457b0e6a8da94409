// SPDX-License-Identifier: GPL-3.0-or-later
//! Prompting for a secret, through an external `pinentry` program or on the
//! terminal without echo.

use crate::path::FilePath;
use crate::seqs::{index_where, lemma_index_where};
use crate::text::{
    chars_of, drop_end_while, is_white, reads, starts_with, string_of, trim_end,
};
use vstd::prelude::*;
use vstd::slice::slice_subrange;
use vstd::string::StringExecFns;

verus! {

/// Where a secret comes from.
pub enum SecretSource {
    /// This program, prompting like this.
    Pinentry { program: FilePath, prompt: String },
    /// The controlling terminal, prompting like this.
    Tty { prompt: String },
}

/// Where to obtain a secret from: `pinentry` when provided, otherwise the
/// controlling terminal with echo disabled.
pub fn read_secret(prompt: &str, pinentry: &Option<FilePath>) -> (r: SecretSource)
    ensures
        match pinentry {
            Some(path) => r matches SecretSource::Pinentry { program, prompt: p } && program@
                == path@ && p@ == prompt@,
            None => r matches SecretSource::Tty { prompt: p } && p@ == prompt@,
        },
{
    match pinentry {
        Some(path) => SecretSource::Pinentry { program: path.clone(), prompt: prompt.to_owned() },
        None => SecretSource::Tty { prompt: prompt.to_owned() },
    }
}

/// What a line from pinentry says.
#[verifier::ext_equal]
pub enum PinLine {
    /// Here is the secret.
    Secret { pin: Seq<char> },
    /// That is all.
    Done,
    /// It went wrong.
    Error { line: Seq<char> },
    /// Nothing that matters.
    Noise,
}

/// What a line from pinentry says, white space at its end aside.
pub open spec fn pin_line(line: Seq<char>) -> PinLine {
    let l = drop_end_while(line, is_white());
    if "D "@.is_prefix_of(l) {
        PinLine::Secret { pin: l.skip(2) }
    } else if l == "OK"@ || "OK "@.is_prefix_of(l) {
        PinLine::Done
    } else if "ERR"@.is_prefix_of(l) {
        PinLine::Error { line: l }
    } else {
        PinLine::Noise
    }
}

/// What becomes of a dialog.
#[verifier::ext_equal]
pub enum PinOutcome {
    /// More lines are needed; the secret so far.
    Open { pin: Option<Seq<char>> },
    /// It is over; the secret, if there was one.
    Over { pin: Option<Seq<char>> },
    /// It went wrong.
    Failed { line: Seq<char> },
}

/// What becomes of a dialog in which pinentry says these lines.
pub open spec fn pin_outcome(said: Seq<Seq<char>>) -> PinOutcome
    decreases said.len(),
{
    if said.len() == 0 {
        PinOutcome::Open { pin: None }
    } else {
        match pin_outcome(said.drop_last()) {
            PinOutcome::Open { pin } => match pin_line(said.last()) {
                PinLine::Secret { pin } => PinOutcome::Open { pin: Some(pin) },
                PinLine::Done => PinOutcome::Over { pin },
                PinLine::Error { line } => PinOutcome::Failed { line },
                PinLine::Noise => PinOutcome::Open { pin },
            },
            over => over,
        }
    }
}

/// How to go on with a dialog.
pub enum PinStep {
    /// Read another line.
    More,
    /// Stop reading.
    Over,
    /// Stop: pinentry reported this error.
    Failed(String),
}

/// The request that sets the prompt.
pub fn set_prompt(prompt: &str) -> (r: String)
    ensures
        r@ == "SETPROMPT "@ + prompt@,
{
    "SETPROMPT ".to_owned().concat(prompt)
}

/// The request for the secret.
pub const GET_PIN: &'static str = "GETPIN";

/// The dialog with pinentry, from the request for the secret on.
pub struct Pinentry {
    pin: Option<String>,
}

impl Pinentry {
    /// The secret so far.
    pub closed spec fn so_far(&self) -> Option<Seq<char>> {
        self.pin.deep_view()
    }

    pub fn new() -> (r: Self)
        ensures
            r.so_far() is None,
            pin_outcome(Seq::empty()) == (PinOutcome::Open { pin: r.so_far() }),
    {
        Pinentry { pin: None }
    }

    /// Pinentry has said a line.
    pub fn hear(&mut self, line: &str) -> (r: PinStep)
        ensures
            match pin_line(line@) {
                PinLine::Secret { pin } => r is More && final(self).so_far() == Some(pin),
                PinLine::Done => r is Over && final(self).so_far() == old(self).so_far(),
                PinLine::Error { line } => {
                    &&& r matches PinStep::Failed(l) && l@ == line
                    &&& final(self).so_far() == old(self).so_far()
                },
                PinLine::Noise => r is More && final(self).so_far() == old(self).so_far(),
            },
            forall|said: Seq<Seq<char>>| #[trigger]
                pin_outcome(said) == (PinOutcome::Open { pin: old(self).so_far() })
                    ==> pin_outcome(said.push(line@)) == match r {
                    PinStep::More => PinOutcome::Open { pin: final(self).so_far() },
                    PinStep::Over => PinOutcome::Over { pin: final(self).so_far() },
                    PinStep::Failed(l) => PinOutcome::Failed { line: l@ },
                },
    {
        proof {
            assert forall|said: Seq<Seq<char>>| #[trigger]
                pin_outcome(said) == (PinOutcome::Open { pin: self.so_far() }) implies said.push(
                line@,
            ).drop_last() == said by {
                assert(said.push(line@).drop_last() =~= said);
            }
        }
        let chars = chars_of(line);
        let l = trim_end(chars.as_slice());
        let data = chars_of("D ");
        let ok = chars_of("OK ");
        let err = chars_of("ERR");
        if starts_with(l, data.as_slice()) {
            proof {
                reveal_strlit("D ");
                assert(l@.subrange(2, l@.len() as int) =~= l@.skip(2));
            }
            self.pin = Some(string_of(slice_subrange(l, 2, l.len())));
            PinStep::More
        } else if reads(l, "OK") || starts_with(l, ok.as_slice()) {
            PinStep::Over
        } else if starts_with(l, err.as_slice()) {
            PinStep::Failed(string_of(l))
        } else {
            PinStep::More
        }
    }

    /// The secret, once the dialog is over or pinentry has fallen silent.
    pub fn secret(self) -> (r: Option<String>)
        ensures
            r.deep_view() == self.so_far(),
    {
        self.pin
    }
}

/// However long the dialog, its outcome follows from what was heard before and the
/// line heard last; once it is over, nothing heard later changes it.
pub proof fn law_pin_dialog(said: Seq<Seq<char>>, line: Seq<char>)
    ensures
        match (pin_outcome(said), pin_line(line)) {
            (PinOutcome::Open { pin }, PinLine::Secret { pin: new }) => pin_outcome(said.push(line))
                == (PinOutcome::Open { pin: Some(new) }),
            (PinOutcome::Open { pin }, PinLine::Done) => pin_outcome(said.push(line)) == (
            PinOutcome::Over { pin }),
            (PinOutcome::Open { pin }, PinLine::Error { line: l }) => pin_outcome(said.push(line))
                == (PinOutcome::Failed { line: l }),
            (over, _) => pin_outcome(said.push(line)) == over,
        },
{
    assert(said.push(line).drop_last() =~= said);
}

/// Recognises the bytes that end a line.
pub open spec fn ends_line() -> spec_fn(u8) -> bool {
    |b: u8| b == 0x0a || b == 0x0d
}

/// A secret being typed, byte by byte.
pub struct TtySecret {
    secret: String,
}

impl TtySecret {
    /// What has been typed.
    pub closed spec fn typed(&self) -> Seq<char> {
        self.secret@
    }

    pub fn new() -> (r: Self)
        ensures
            r.typed() == Seq::<char>::empty(),
    {
        TtySecret { secret: String::new() }
    }

    /// A byte has been typed. Returns whether to read another: not after the end
    /// of the line, which is no part of the secret.
    pub fn key(&mut self, byte: u8) -> (more: bool)
        ensures
            more == !ends_line()(byte),
            final(self).typed() == if more {
                old(self).typed().push(byte as char)
            } else {
                old(self).typed()
            },
    {
        if byte == 0x0a || byte == 0x0d {
            return false;
        }
        self.secret.push(byte as char);
        true
    }

    /// The secret.
    pub fn finish(self) -> (r: String)
        ensures
            r@ == self.typed(),
    {
        self.secret
    }
}

/// What has been typed once `bytes` have, reading as long as there is more to read.
pub open spec fn typed_of(before: Seq<char>, bytes: Seq<u8>) -> Seq<char>
    decreases bytes.len(),
{
    if bytes.len() == 0 || ends_line()(bytes[0]) {
        before
    } else {
        typed_of(before.push(bytes[0] as char), bytes.drop_first())
    }
}

/// The secret is what was typed up to the end of the line, each byte a character,
/// and nothing typed after it.
pub proof fn law_tty_secret(before: Seq<char>, bytes: Seq<u8>)
    ensures
        typed_of(before, bytes) == before + bytes.take(
            index_where(bytes, ends_line()),
        ).map_values(|b: u8| b as char),
    decreases bytes.len(),
{
    let f = |b: u8| b as char;
    lemma_index_where(bytes, ends_line());
    let n = index_where(bytes, ends_line());
    if bytes.len() == 0 || ends_line()(bytes[0]) {
        assert(before + bytes.take(0).map_values(f) =~= before);
    } else {
        let rest = bytes.drop_first();
        let next = before.push(bytes[0] as char);
        law_tty_secret(next, rest);
        lemma_index_where(rest, ends_line());
        assert(next + rest.take(n - 1).map_values(f) =~= before + bytes.take(n).map_values(f));
    }
}

} // verus!
