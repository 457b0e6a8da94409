// SPDX-License-Identifier: GPL-3.0-or-later
//! What the operations of this crate are for, said of what goes in and what comes
//! out.
//!
//! Each law is about every input of a kind: text that is put together from known
//! pieces is taken apart into those, whatever the sender's choices; what is
//! configured is what is done. A reader can take them as the crate's promises.

pub mod daemon;
pub mod exchange;
pub mod framing;
pub mod login;
pub mod params;
pub mod pins;
pub mod plans;
pub mod session;
pub mod settings;
pub mod status;
pub mod system;
pub mod text;
