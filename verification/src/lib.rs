// SPDX-License-Identifier: GPL-3.0-or-later
//! A verified core for a PPP-over-TLS VPN client.

pub mod address;
pub mod cli;
pub mod engine;
pub mod fortinet;
pub mod framer;
pub mod io;
pub mod laws;
pub mod net;
pub mod number;
pub mod path;
pub mod progress;
pub mod provider;
pub mod secret;
pub mod seqs;
pub mod text;
pub mod transport;
