//! SSH connection parameters: the per-layer spec with its field-wise merge,
//! and the fully resolved connection settings derived from a spec and the
//! VM's network attachment.

use vstd::prelude::*;

verus! {

use crate::errors::Error;
use crate::merge::opt_first;
use crate::net::{cidr_address, ConfigNet, ConfigNetV};
use crate::string_like::{clone_opt_sou, text_of, StringOrUint, StringOrUintV};
use crate::text::{
    ascii_lower, clone_opt_string, clone_opt_vec_string, clone_vec_string, eq_ignore_case,
    trim_end, trim_end_ws,
};
use vstd::string::StringExecFns;

#[derive(Debug)]
pub struct ConfigSsh {
    pub authorized_keys: Option<Vec<String>>,
    pub key: Option<String>,
    pub options: Option<Vec<String>>,
    pub port: Option<StringOrUint>,
    pub port_user_network: Option<StringOrUint>,
    pub host_user_network: Option<String>,
    pub user: Option<String>,
}

/// The mathematical model of a `ConfigSsh`.
pub struct ConfigSshV {
    pub authorized_keys: Option<Seq<Seq<char>>>,
    pub key: Option<Seq<char>>,
    pub options: Option<Seq<Seq<char>>>,
    pub port: Option<StringOrUintV>,
    pub port_user_network: Option<StringOrUintV>,
    pub host_user_network: Option<Seq<char>>,
    pub user: Option<Seq<char>>,
}

impl View for ConfigSsh {
    type V = ConfigSshV;

    open spec fn view(&self) -> ConfigSshV {
        ConfigSshV {
            authorized_keys: self.authorized_keys.deep_view(),
            key: self.key.deep_view(),
            options: self.options.deep_view(),
            port: self.port.deep_view(),
            port_user_network: self.port_user_network.deep_view(),
            host_user_network: self.host_user_network.deep_view(),
            user: self.user.deep_view(),
        }
    }
}

impl DeepView for ConfigSsh {
    type V = ConfigSshV;

    open spec fn deep_view(&self) -> ConfigSshV {
        self@
    }
}

/// The merge of a higher-priority SSH spec over a lower-priority one: each
/// field independently keeps the higher side's value when present and falls
/// back to the lower side's otherwise.
pub open spec fn ssh_merged(high: ConfigSshV, low: ConfigSshV) -> ConfigSshV {
    ConfigSshV {
        authorized_keys: opt_first(high.authorized_keys, low.authorized_keys),
        key: opt_first(high.key, low.key),
        options: opt_first(high.options, low.options),
        port: opt_first(high.port, low.port),
        port_user_network: opt_first(high.port_user_network, low.port_user_network),
        host_user_network: opt_first(high.host_user_network, low.host_user_network),
        user: opt_first(high.user, low.user),
    }
}

/// Merging an SSH spec with itself changes nothing.
pub proof fn lemma_ssh_merged_idem(s: ConfigSshV)
    ensures
        ssh_merged(s, s) == s,
{
}

impl ConfigSsh {
    /// The merge of `self`, the higher-priority spec, over `other`.
    pub fn updated(&self, other: &Self) -> (r: ConfigSsh)
        ensures
            r@ == ssh_merged(self@, other@),
    {
        ConfigSsh {
            authorized_keys: if self.authorized_keys.is_some() {
                clone_opt_vec_string(&self.authorized_keys)
            } else {
                clone_opt_vec_string(&other.authorized_keys)
            },
            key: if self.key.is_some() {
                clone_opt_string(&self.key)
            } else {
                clone_opt_string(&other.key)
            },
            options: if self.options.is_some() {
                clone_opt_vec_string(&self.options)
            } else {
                clone_opt_vec_string(&other.options)
            },
            port: if self.port.is_some() {
                clone_opt_sou(&self.port)
            } else {
                clone_opt_sou(&other.port)
            },
            port_user_network: if self.port_user_network.is_some() {
                clone_opt_sou(&self.port_user_network)
            } else {
                clone_opt_sou(&other.port_user_network)
            },
            host_user_network: if self.host_user_network.is_some() {
                clone_opt_string(&self.host_user_network)
            } else {
                clone_opt_string(&other.host_user_network)
            },
            user: if self.user.is_some() {
                clone_opt_string(&self.user)
            } else {
                clone_opt_string(&other.user)
            },
        }
    }
}

impl Clone for ConfigSsh {
    fn clone(&self) -> (r: Self)
        ensures
            r@ == self@,
    {
        ConfigSsh {
            authorized_keys: clone_opt_vec_string(&self.authorized_keys),
            key: clone_opt_string(&self.key),
            options: clone_opt_vec_string(&self.options),
            port: clone_opt_sou(&self.port),
            port_user_network: clone_opt_sou(&self.port_user_network),
            host_user_network: clone_opt_string(&self.host_user_network),
            user: clone_opt_string(&self.user),
        }
    }
}

/// The file that holds the public half of a private key: the private key's
/// path with `.pub` appended.
pub fn public(pvt_key: &str) -> (r: String)
    ensures
        r@ == pvt_key@ + ".pub"@,
{
    let mut r = pvt_key.to_owned();
    r.append(".pub");
    r
}

/// Key material resolved for one VM: the optional private key path and the
/// keys authorized to log in.
#[derive(Debug)]
pub struct Keys {
    authorized_keys: Vec<String>,
    key: Option<String>,
}

/// The mathematical model of a `Keys`.
pub struct KeysV {
    pub authorized_keys: Seq<Seq<char>>,
    pub key: Option<Seq<char>>,
}

impl View for Keys {
    type V = KeysV;

    closed spec fn view(&self) -> KeysV {
        KeysV { authorized_keys: self.authorized_keys.deep_view(), key: self.key.deep_view() }
    }
}

impl Keys {
    /// The private key path, if one is set.
    pub fn private(&self) -> (r: Option<String>)
        ensures
            r.deep_view() == self@.key,
    {
        clone_opt_string(&self.key)
    }

    /// The authorized keys, with the trimmed text of the public key file
    /// appended when a private key is set.  The caller reads that file and
    /// hands its contents over.
    pub fn authorized_keys(&self, public_key_text: Option<&str>) -> (r: Vec<String>)
        requires
            self@.key is Some ==> public_key_text is Some,
        ensures
            self@.key is Some ==> r.deep_view() == self@.authorized_keys.push(
                trim_end_ws(public_key_text->Some_0@),
            ),
            self@.key is None ==> r.deep_view() == self@.authorized_keys,
    {
        let mut r = clone_vec_string(&self.authorized_keys);
        if self.key.is_some() {
            let text = match public_key_text {
                Some(t) => t,
                None => "",
            };
            r.push(trim_end(text));
        }
        r
    }
}

/// Fully resolved SSH connection settings for one VM.
#[derive(Debug)]
pub struct Ssh {
    host: String,
    authorized_keys: Vec<String>,
    key: Option<String>,
    options: Vec<String>,
    port: String,
    user: Option<String>,
}

/// The mathematical model of an `Ssh`.
pub struct SshV {
    pub host: Seq<char>,
    pub authorized_keys: Seq<Seq<char>>,
    pub key: Option<Seq<char>>,
    pub options: Seq<Seq<char>>,
    pub port: Seq<char>,
    pub user: Option<Seq<char>>,
}

impl View for Ssh {
    type V = SshV;

    closed spec fn view(&self) -> SshV {
        SshV {
            host: self.host@,
            authorized_keys: self.authorized_keys.deep_view(),
            key: self.key.deep_view(),
            options: self.options.deep_view(),
            port: self.port@,
            user: self.user.deep_view(),
        }
    }
}

impl DeepView for Ssh {
    type V = SshV;

    open spec fn deep_view(&self) -> SshV {
        self@
    }
}

/// The host the connection goes to: the address piece of a tap attachment's
/// CIDR, or the configured (else loopback) host on a user-mode network.
/// Other attachments offer no host.
pub open spec fn ssh_host_of(config: ConfigSshV, net: ConfigNetV) -> Option<Seq<char>> {
    match net {
        ConfigNetV::Tap { address, .. } => match address {
            Some(a) => cidr_address(a),
            None => None,
        },
        ConfigNetV::User => match config.host_user_network {
            Some(h) => Some(h),
            None => Some("127.0.0.1"@),
        },
        ConfigNetV::NoNet => None,
    }
}

/// The port field that applies to the given network attachment.
pub open spec fn ssh_port_of(config: ConfigSshV, net: ConfigNetV) -> Option<StringOrUintV> {
    if net is User {
        config.port_user_network
    } else {
        config.port
    }
}

/// The configured key, with the explicit text `none` (in any ASCII case)
/// standing for no key.
pub open spec fn ssh_key_of(config: ConfigSshV) -> Option<Seq<char>> {
    match config.key {
        Some(k) => if ascii_lower(k) == ascii_lower("none"@) {
            None
        } else {
            Some(k)
        },
        None => None,
    }
}

/// The resolved settings, when the spec and the attachment yield both a host
/// and a port.
#[verifier::opaque]
pub open spec fn ssh_new_spec(config: ConfigSshV, net: ConfigNetV) -> Option<SshV> {
    match ssh_host_of(config, net) {
        None => None,
        Some(host) => match ssh_port_of(config, net) {
            None => None,
            Some(p) => Some(
                SshV {
                    host,
                    authorized_keys: match config.authorized_keys {
                        Some(aks) => aks,
                        None => Seq::empty(),
                    },
                    key: ssh_key_of(config),
                    options: match config.options {
                        Some(os) => os,
                        None => Seq::empty(),
                    },
                    port: text_of(p),
                    user: config.user,
                },
            ),
        },
    }
}

/// The option list rendered as command-line flags: `-o` before each option.
pub open spec fn ssh_option_flags(os: Seq<Seq<char>>) -> Seq<Seq<char>>
    decreases os.len(),
{
    if os.len() == 0 {
        Seq::empty()
    } else {
        ssh_option_flags(os.drop_last()) + seq!["-o"@, os.last()]
    }
}

impl Ssh {
    /// Resolves the SSH settings for one VM from its merged SSH spec and its
    /// network attachment.
    pub fn new(config: &ConfigSsh, config_net: &ConfigNet) -> (r: Option<Ssh>)
        ensures
            r.deep_view() == ssh_new_spec(config@, config_net@),
    {
        proof {
            reveal(ssh_new_spec);
        }
        let host: String = match config_net {
            ConfigNet::Tap { address, .. } => {
                match address {
                    Some(a) => match crate::net::address(a.as_str()) {
                        Some(h) => h,
                        None => {
                            return None;
                        },
                    },
                    None => {
                        return None;
                    },
                }
            },
            ConfigNet::User => match &config.host_user_network {
                Some(h) => h.clone(),
                None => "127.0.0.1".to_owned(),
            },
            ConfigNet::NoNet => {
                return None;
            },
        };

        let authorized_keys = match &config.authorized_keys {
            Some(aks) => clone_vec_string(aks),
            None => Vec::new(),
        };
        proof {
            if config@.authorized_keys is None {
                assert(authorized_keys.deep_view() =~= Seq::<Seq<char>>::empty());
            }
        }

        let key = match &config.key {
            Some(k) => if eq_ignore_case(k.as_str(), "none") {
                None
            } else {
                Some(k.clone())
            },
            None => None,
        };

        let port_field = if config_net.is_user() {
            &config.port_user_network
        } else {
            &config.port
        };
        let port = match port_field {
            Some(p) => p.to_text(),
            None => {
                return None;
            },
        };

        let options = match &config.options {
            Some(os) => clone_vec_string(os),
            None => Vec::new(),
        };
        proof {
            if config@.options is None {
                assert(options.deep_view() =~= Seq::<Seq<char>>::empty());
            }
        }
        let user = clone_opt_string(&config.user);

        Some(Ssh { host, authorized_keys, key, options, port, user })
    }

    /// The configured private key path, if one is set.
    pub fn key(&self) -> (r: &Option<String>)
        ensures
            r.deep_view() == self@.key,
    {
        &self.key
    }

    /// Whether a private key is set.
    pub fn has_key(&self) -> (r: bool)
        ensures
            r == (self@.key is Some),
    {
        self.key.is_some()
    }

    /// Resolves the key material.  A key written as `create` (in any ASCII
    /// case) is replaced by a key the caller generated; any other key must
    /// already exist on disk as a private and a public file, which the
    /// caller has checked for.
    pub fn ensure_keys(
        &self,
        public_key_exists: bool,
        private_key_exists: bool,
        created_key: Option<String>,
    ) -> (r: Result<Keys, Error>)
        requires
            (self@.key matches Some(k) && ascii_lower(k) == ascii_lower("create"@))
                ==> created_key is Some,
        ensures
            match self@.key {
                None => r matches Ok(keys) && keys@ == (KeysV {
                    authorized_keys: self@.authorized_keys,
                    key: None::<Seq<char>>,
                }),
                Some(k) => {
                    if ascii_lower(k) == ascii_lower("create"@) {
                        r matches Ok(keys) && keys@ == (KeysV {
                            authorized_keys: self@.authorized_keys,
                            key: created_key.deep_view(),
                        })
                    } else if !public_key_exists {
                        // the error names the public key file that was looked for
                        &&& r matches Err(e)
                        &&& e matches Error::SshPublicKeyDoesNotExists(p)
                        &&& p@ == k + ".pub"@
                    } else if !private_key_exists {
                        // the error names the private key file itself
                        &&& r matches Err(e)
                        &&& e matches Error::SshPrivateKeyDoesNotExists(p)
                        &&& p@ == k
                    } else {
                        r matches Ok(keys) && keys@ == (KeysV {
                            authorized_keys: self@.authorized_keys,
                            key: Some(k),
                        })
                    }
                },
            },
    {
        let authorized_keys = clone_vec_string(&self.authorized_keys);
        match &self.key {
            None => Ok(Keys { authorized_keys, key: None }),
            Some(k) => {
                if eq_ignore_case(k.as_str(), "create") {
                    Ok(Keys { authorized_keys, key: created_key })
                } else {
                    if !public_key_exists {
                        Err(Error::SshPublicKeyDoesNotExists(public(k.as_str())))
                    } else if !private_key_exists {
                        Err(Error::SshPrivateKeyDoesNotExists(k.clone()))
                    } else {
                        Ok(Keys { authorized_keys, key: Some(k.clone()) })
                    }
                }
            },
        }
    }

    /// The user to connect as, if one is set.
    pub fn user(&self) -> (r: Option<String>)
        ensures
            r.deep_view() == self@.user,
    {
        clone_opt_string(&self.user)
    }

    /// The `user@host` target: an explicit user wins over the configured
    /// one; with neither, the bare host.
    pub fn user_host(&self, user: &Option<String>) -> (r: String)
        ensures
            match opt_first(user.deep_view(), self@.user) {
                Some(u) => r@ == u + "@"@ + self@.host,
                None => r@ == self@.host,
            },
    {
        match user {
            Some(u) => {
                let mut r = u.clone();
                r.append("@");
                r.append(self.host.as_str());
                r
            },
            None => match &self.user {
                Some(u) => {
                    let mut r = u.clone();
                    r.append("@");
                    r.append(self.host.as_str());
                    r
                },
                None => self.host.clone(),
            },
        }
    }

    /// The host the connection goes to.
    pub fn host(&self) -> (r: &str)
        ensures
            r@ == self@.host,
    {
        self.host.as_str()
    }

    /// The configured options as a flag list: `-o` before each option.
    pub fn options(&self) -> (r: Vec<String>)
        ensures
            r.deep_view() == ssh_option_flags(self@.options),
    {
        let mut r: Vec<String> = Vec::new();
        proof {
            assert(r.deep_view() =~= ssh_option_flags(self.options.deep_view().take(0)));
        }
        let mut i: usize = 0;
        while i < self.options.len()
            invariant
                0 <= i <= self.options.len(),
                r.deep_view() == ssh_option_flags(self.options.deep_view().take(i as int)),
            decreases self.options.len() - i,
        {
            let ghost r0 = r;
            r.push("-o".to_owned());
            r.push(self.options[i].clone());
            proof {
                let os = self.options.deep_view();
                assert(os.take(i + 1).drop_last() =~= os.take(i as int));
                assert(r.deep_view() =~= r0.deep_view() + seq!["-o"@, os[i as int]]);
                assert(r.deep_view() =~= ssh_option_flags(os.take(i + 1)));
            }
            i += 1;
        }
        proof {
            assert(self.options.deep_view().take(self.options.len() as int)
                =~= self.options.deep_view());
        }
        r
    }

    /// The port to connect to.
    pub fn port(&self) -> (r: &str)
        ensures
            r@ == self@.port,
    {
        self.port.as_str()
    }
}

} // verus!
