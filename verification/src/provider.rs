// SPDX-License-Identifier: GPL-3.0-or-later
//! What every provider deals in: sessions, routes and tunnel parameters.

use crate::address::{address_text, Ipv4};
use crate::cli::Config;
use crate::number::{decimal, push_decimal};
use crate::transport::tls::TlsFactory;
use std::sync::Arc;
use vstd::prelude::*;

verus! {

/// An authenticated session, typically a cookie or a token.
#[derive(Debug)]
pub struct Session {
    pub cookie: String,
}

/// One routing-table entry to install through the tunnel.
#[derive(Debug, Clone, Copy, PartialEq, Eq, Structural)]
pub struct Route {
    pub dest: Ipv4,
    pub prefix: u8,
}

/// Network parameters returned by the gateway after authentication.
#[derive(Debug, PartialEq, Eq)]
pub struct TunnelParams {
    pub assigned_addr: Option<Ipv4>,
    pub dns: Vec<Ipv4>,
    pub dns_suffix: Option<String>,
    /// Split-tunnel routes. Empty means full-tunnel: the default route goes
    /// through the VPN.
    pub routes: Vec<Route>,
    pub mtu: Option<u32>,
}

/// Tunnel parameters as plain values.
#[verifier::ext_equal]
pub struct ParamsView {
    pub assigned_addr: Option<Ipv4>,
    pub dns: Seq<Ipv4>,
    pub dns_suffix: Option<Seq<char>>,
    pub routes: Seq<Route>,
    pub mtu: Option<u32>,
}

impl View for TunnelParams {
    type V = ParamsView;

    open spec fn view(&self) -> ParamsView {
        ParamsView {
            assigned_addr: self.assigned_addr,
            dns: self.dns@,
            dns_suffix: self.dns_suffix.deep_view(),
            routes: self.routes@,
            mtu: self.mtu,
        }
    }
}

impl Default for TunnelParams {
    fn default() -> (r: Self)
        ensures
            r@ == (ParamsView {
                assigned_addr: None,
                dns: Seq::empty(),
                dns_suffix: None,
                routes: Seq::empty(),
                mtu: None,
            }),
    {
        TunnelParams {
            assigned_addr: None,
            dns: Vec::new(),
            dns_suffix: None,
            routes: Vec::new(),
            mtu: None,
        }
    }
}

/// An address range in CIDR notation.
pub open spec fn cidr_text(dest: Ipv4, prefix: u8) -> Seq<char> {
    address_text(dest) + seq!['/'] + decimal(prefix as nat)
}

/// An address range in CIDR notation.
pub fn cidr(dest: Ipv4, prefix: u8) -> (r: String)
    ensures
        r@ == cidr_text(dest, prefix),
{
    let mut r = dest.text();
    r.push('/');
    push_decimal(&mut r, prefix as u64);
    assert(r@ =~= cidr_text(dest, prefix));
    r
}

/// Shared context handed to a provider: the configuration and a TLS factory.
pub struct ProviderContext {
    pub config: Arc<Config>,
    tls: TlsFactory,
}

impl ProviderContext {
    /// The configuration, as a value to reason about.
    pub closed spec fn settings(&self) -> Config {
        *self.config
    }

    /// The factory, as a value to reason about.
    pub closed spec fn factory(&self) -> TlsFactory {
        self.tls
    }

    pub fn new(config: Arc<Config>, tls: TlsFactory) -> (r: Self)
        ensures
            r.settings() == *config,
            r.factory() == tls,
    {
        Self { config, tls }
    }

    pub fn tls(&self) -> (r: &TlsFactory)
        ensures
            *r == self.factory(),
    {
        &self.tls
    }
}

} // verus!
