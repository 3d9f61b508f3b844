//! One VM's network attachment: none, user-mode, or a tap device, with the
//! variant-aware merge used by the configuration layering.

use vstd::prelude::*;

verus! {

use crate::errors::Error;
use crate::ip::{ip_ok, ipv4_ok, ipv6_ok, ip_check, ipv4_check, ipv6_check};
use crate::merge::opt_first;
use crate::text::{clone_opt_string, clone_opt_vec_string, split_seq, split_char};

#[derive(Debug)]
pub enum ConfigNet {
    NoNet,
    Tap {
        address: Option<String>,
        gateway: Option<String>,
        nameservers: Option<Vec<String>>,
        tap: Option<String>,
    },
    User,
}

/// The mathematical model of a `ConfigNet`.
pub enum ConfigNetV {
    NoNet,
    Tap {
        address: Option<Seq<char>>,
        gateway: Option<Seq<char>>,
        nameservers: Option<Seq<Seq<char>>>,
        tap: Option<Seq<char>>,
    },
    User,
}

impl View for ConfigNet {
    type V = ConfigNetV;

    open spec fn view(&self) -> ConfigNetV {
        match self {
            ConfigNet::NoNet => ConfigNetV::NoNet,
            ConfigNet::Tap { address, gateway, nameservers, tap } => ConfigNetV::Tap {
                address: address.deep_view(),
                gateway: gateway.deep_view(),
                nameservers: nameservers.deep_view(),
                tap: tap.deep_view(),
            },
            ConfigNet::User => ConfigNetV::User,
        }
    }
}

impl DeepView for ConfigNet {
    type V = ConfigNetV;

    open spec fn deep_view(&self) -> ConfigNetV {
        self@
    }
}

/// The merge of a higher-priority network spec over a lower-priority one.
/// An explicit `NoNet` above lets the lower value win outright; two `Tap`
/// values merge field by field, the higher side's field winning when
/// present; otherwise the higher value wins whole.
pub open spec fn net_merged(high: ConfigNetV, low: ConfigNetV) -> ConfigNetV {
    match (high, low) {
        (ConfigNetV::NoNet, _) => low,
        (
            ConfigNetV::Tap { address: ha, gateway: hg, nameservers: hn, tap: ht },
            ConfigNetV::Tap { address: la, gateway: lg, nameservers: ln, tap: lt },
        ) => ConfigNetV::Tap {
            address: opt_first(ha, la),
            gateway: opt_first(hg, lg),
            nameservers: opt_first(hn, ln),
            tap: opt_first(ht, lt),
        },
        _ => high,
    }
}

/// Merging a network spec with itself changes nothing.
pub proof fn lemma_net_merged_idem(n: ConfigNetV)
    ensures
        net_merged(n, n) == n,
{
}

impl ConfigNet {
    /// The merge of `self`, the higher-priority spec, over `other`.
    pub fn updated(&self, other: &Self) -> (r: ConfigNet)
        ensures
            r@ == net_merged(self@, other@),
    {
        match (self, other) {
            (ConfigNet::NoNet, _) => other.clone(),
            (
                ConfigNet::Tap { address: ha, gateway: hg, nameservers: hn, tap: ht },
                ConfigNet::Tap { address: la, gateway: lg, nameservers: ln, tap: lt },
            ) => {
                let address = if ha.is_some() {
                    clone_opt_string(ha)
                } else {
                    clone_opt_string(la)
                };
                let gateway = if hg.is_some() {
                    clone_opt_string(hg)
                } else {
                    clone_opt_string(lg)
                };
                let nameservers = if hn.is_some() {
                    clone_opt_vec_string(hn)
                } else {
                    clone_opt_vec_string(ln)
                };
                let tap = if ht.is_some() {
                    clone_opt_string(ht)
                } else {
                    clone_opt_string(lt)
                };
                ConfigNet::Tap { address, gateway, nameservers, tap }
            },
            _ => self.clone(),
        }
    }

    pub fn is_none(&self) -> (r: bool)
        ensures
            r == (self@ is NoNet),
    {
        matches!(self, ConfigNet::NoNet)
    }

    pub fn is_tap(&self) -> (r: bool)
        ensures
            r == (self@ is Tap),
    {
        matches!(self, ConfigNet::Tap { .. })
    }

    pub fn is_user(&self) -> (r: bool)
        ensures
            r == (self@ is User),
    {
        matches!(self, ConfigNet::User)
    }
}

impl Clone for ConfigNet {
    fn clone(&self) -> (r: Self)
        ensures
            r@ == self@,
    {
        match self {
            ConfigNet::NoNet => ConfigNet::NoNet,
            ConfigNet::Tap { address, gateway, nameservers, tap } => ConfigNet::Tap {
                address: clone_opt_string(address),
                gateway: clone_opt_string(gateway),
                nameservers: clone_opt_vec_string(nameservers),
                tap: clone_opt_string(tap),
            },
            ConfigNet::User => ConfigNet::User,
        }
    }
}

/// Clones an optional `ConfigNet`; the model is preserved.
pub fn clone_opt_net(o: &Option<ConfigNet>) -> (r: Option<ConfigNet>)
    ensures
        r.deep_view() == o.deep_view(),
{
    match o {
        None => None,
        Some(n) => Some(n.clone()),
    }
}

/// A fully resolved network attachment: a tap attachment always names its
/// tap device.
#[derive(Debug)]
pub enum Net {
    Tap {
        address: Option<String>,
        gateway: Option<String>,
        nameservers: Option<Vec<String>>,
        tap: String,
    },
    User,
}

/// The mathematical model of a `Net`.
pub enum NetV {
    Tap {
        address: Option<Seq<char>>,
        gateway: Option<Seq<char>>,
        nameservers: Option<Seq<Seq<char>>>,
        tap: Seq<char>,
    },
    User,
}

impl View for Net {
    type V = NetV;

    open spec fn view(&self) -> NetV {
        match self {
            Net::Tap { address, gateway, nameservers, tap } => NetV::Tap {
                address: address.deep_view(),
                gateway: gateway.deep_view(),
                nameservers: nameservers.deep_view(),
                tap: tap@,
            },
            Net::User => NetV::User,
        }
    }
}

impl Net {
    /// Resolves a network spec: no spec resolves to no attachment, a tap
    /// spec must name its tap device, and a user spec resolves as it is.
    pub fn new(config: &ConfigNet) -> (r: Result<Option<Net>, Error>)
        ensures
            config@ is NoNet ==> (r matches Ok(o) && o is None),
            config@ matches ConfigNetV::Tap { address, gateway, nameservers, tap } ==> match tap {
                None => r == Err::<Option<Net>, Error>(Error::TapNetworkTapUnset),
                Some(t) => r matches Ok(o) && o matches Some(n) && n@ == (NetV::Tap {
                    address,
                    gateway,
                    nameservers,
                    tap: t,
                }),
            },
            config@ is User ==> (r matches Ok(o) && o matches Some(n) && n@ is User),
    {
        match config {
            ConfigNet::NoNet => Ok(None),
            ConfigNet::Tap { address, gateway, nameservers, tap } => {
                match tap {
                    None => Err(Error::TapNetworkTapUnset),
                    Some(t) => Ok(Some(Net::Tap {
                        address: clone_opt_string(address),
                        gateway: clone_opt_string(gateway),
                        nameservers: clone_opt_vec_string(nameservers),
                        tap: t.clone(),
                    })),
                }
            },
            ConfigNet::User => Ok(Some(Net::User)),
        }
    }

    /// The gateway, when it is written as an IPv4 text.
    pub fn gateway4(&self) -> (r: Option<String>)
        ensures
            match r {
                Some(g) => {
                    &&& self@ matches NetV::Tap { gateway: Some(gw), .. }
                    &&& g@ == gw
                    &&& ipv4_ok(gw)
                },
                None => self@ matches NetV::Tap { gateway: Some(gw), .. } ==> !ipv4_ok(gw),
            },
    {
        if let Net::Tap { gateway: Some(gateway), .. } = self {
            if ipv4_check(gateway.as_str()) {
                return Some(gateway.clone());
            }
        }
        None
    }

    /// The gateway, when it is written as an IPv6 text.
    pub fn gateway6(&self) -> (r: Option<String>)
        ensures
            match r {
                Some(g) => {
                    &&& self@ matches NetV::Tap { gateway: Some(gw), .. }
                    &&& g@ == gw
                    &&& ipv6_ok(gw)
                },
                None => self@ matches NetV::Tap { gateway: Some(gw), .. } ==> !ipv6_ok(gw),
            },
    {
        if let Net::Tap { gateway: Some(gateway), .. } = self {
            if ipv6_check(gateway.as_str()) {
                return Some(gateway.clone());
            }
        }
        None
    }
}

/// The address piece of a CIDR text: everything before an optional `/`,
/// accepted only when it is a well-formed IP address.
#[verifier::opaque]
pub open spec fn cidr_address(s: Seq<char>) -> Option<Seq<char>> {
    let parts = split_seq(s, '/');
    if (parts.len() == 1 || parts.len() == 2) && ip_ok(parts[0]) {
        Some(parts[0])
    } else {
        None
    }
}

/// Whether `s` is a CIDR text: an IP address, one `/`, and a network part.
pub open spec fn cidr_ok(s: Seq<char>) -> bool {
    let parts = split_seq(s, '/');
    parts.len() == 2 && ip_ok(parts[0])
}

/// The address piece of a CIDR text, if it is a well-formed IP address.
pub fn address(cidr: &str) -> (r: Option<String>)
    ensures
        r.deep_view() == cidr_address(cidr@),
{
    proof {
        reveal(cidr_address);
    }
    let parts = split_char(cidr, '/');
    proof {
        assert(parts.deep_view().len() == parts.len());
    }
    if parts.len() == 1 || parts.len() == 2 {
        if ip_check(parts[0].as_str()) {
            return Some(parts[0].clone());
        }
    }
    None
}

/// Whether `cidr` is an IP address followed by `/` and a network part.
pub fn is_cidr(cidr: &str) -> (r: bool)
    ensures
        r == cidr_ok(cidr@),
{
    let parts = split_char(cidr, '/');
    proof {
        assert(parts.deep_view().len() == parts.len());
    }
    parts.len() == 2 && ip_check(parts[0].as_str())
}

} // verus!
