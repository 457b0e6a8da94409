// SPDX-License-Identifier: GPL-3.0-or-later
//! Everything between the gateway's TLS stream and the PPP daemon.

pub mod buffer;
pub mod fcs;
pub mod framing;
pub mod ppp;
pub mod roundtrip;
pub mod tls;
