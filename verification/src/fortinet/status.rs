// SPDX-License-Identifier: GPL-3.0-or-later
//! When the local SAML callback and status server takes a session id, and when
//! it stops.
//!
//! The page that the callback returns stays open and follows the connection. The
//! server outlives the sign-in and stops a few seconds after a terminal status,
//! or at once when nobody can report a status any more.

use crate::progress::Status;
use vstd::prelude::*;

verus! {

/// How many seconds the status server lingers after a terminal status, giving the
/// page time to render the badge and run its own close timer.
pub const TERMINAL_GRACE_SECS: u64 = 5;

/// What the status server does next.
#[derive(Debug, Clone, Copy, PartialEq, Eq, Structural)]
pub enum Serving {
    /// Go on until the status changes.
    Continue,
    /// Stop after so many seconds.
    StopAfter { secs: u64 },
    /// Stop now.
    StopNow,
}

/// What the status server does, given the current status and whether anybody is
/// left to report another one.
pub fn serving(status: &Status, reporters_gone: bool) -> (r: Serving)
    ensures
        r == if status.terminal() {
            Serving::StopAfter { secs: TERMINAL_GRACE_SECS }
        } else if reporters_gone {
            Serving::StopNow
        } else {
            Serving::Continue
        },
{
    if status.is_terminal() {
        Serving::StopAfter { secs: TERMINAL_GRACE_SECS }
    } else if reporters_gone {
        Serving::StopNow
    } else {
        Serving::Continue
    }
}

/// Takes the session id of the first callback and of no other.
pub struct IdCapture {
    open: bool,
}

impl IdCapture {
    /// Whether no id has been taken yet.
    pub closed spec fn waiting(&self) -> bool {
        self.open
    }

    pub fn new() -> (r: Self)
        ensures
            r.waiting(),
    {
        IdCapture { open: true }
    }

    /// A callback has brought an id. Returns it if it is the first one.
    pub fn offer(&mut self, id: String) -> (r: Option<String>)
        ensures
            r == if old(self).waiting() {
                Some(id)
            } else {
                None
            },
            !final(self).waiting(),
    {
        if self.open {
            self.open = false;
            Some(id)
        } else {
            None
        }
    }
}

} // verus!
