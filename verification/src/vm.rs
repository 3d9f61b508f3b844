//! One resolved VM: the merged record, the defaults, and every derived
//! field a subcommand consumes — disk path, monitor socket, network and SSH
//! settings, hierarchical name, and the specificity of how it was selected.

use vstd::prelude::*;

verus! {

use crate::cache::Cache;
use crate::config::Config;
use crate::errors::Error;
use crate::gui::{clone_opt_gui, ConfigGui, ConfigGuiV};
use crate::merge::opt_first;
use crate::net::{net_merged, ConfigNet, ConfigNetV, Net, NetV};
use crate::specified_by::{specificity_cmp, SpecifiedBy, SpecifiedByV};
use crate::ssh::{ssh_merged, ssh_new_spec, Ssh, SshV};
use crate::string_like::text_of;
use crate::text::{
    clone_opt_string, clone_opt_vec_string, clone_vec_pairs, clone_vec_string, join_with,
    seq_has_str, split_char, split_seq, str_eq,
};
use crate::vm_config::{resolve_chain, VMConfig, VMConfigV};
use vstd::string::StringExecFns;

/// The mathematical model of a `VM`.
pub struct VMV {
    pub cache: Seq<char>,
    pub cloud_init: bool,
    pub cloud_init_image: Option<Seq<char>>,
    pub cpu_model: Seq<char>,
    pub data: Seq<(Seq<char>, Seq<char>)>,
    pub directory: Seq<char>,
    pub disk: Seq<char>,
    pub display: Option<Seq<char>>,
    pub gui: Option<ConfigGuiV>,
    pub memory: Seq<char>,
    pub monitor: Seq<char>,
    pub minimum_disk_size: Option<u64>,
    pub image_name: Option<Seq<char>>,
    pub name: Seq<char>,
    pub names: Seq<Seq<char>>,
    pub net: Option<NetV>,
    pub nic_model: Seq<char>,
    pub nproc: Seq<char>,
    pub specified_by: SpecifiedByV,
    pub pid: Option<i32>,
    pub openssh_config: Seq<char>,
    pub qemu_binary: Seq<char>,
    pub qemu_arch_options: Seq<Seq<char>>,
    pub qemu_bios_options: Seq<Seq<char>>,
    pub ssh: Option<SshV>,
    pub tags: Seq<Seq<char>>,
    pub vml_directory: Seq<char>,
}

#[derive(Debug)]
pub struct VM {
    cache: Cache,
    cloud_init: bool,
    cloud_init_image: Option<String>,
    cpu_model: String,
    data: Vec<(String, String)>,
    directory: String,
    disk: String,
    display: Option<String>,
    gui: Option<ConfigGui>,
    memory: String,
    monitor: String,
    minimum_disk_size: Option<u64>,
    image_name: Option<String>,
    pub name: String,
    names: Vec<String>,
    net: Option<Net>,
    nic_model: String,
    nproc: String,
    specified_by: SpecifiedBy,
    pid: Option<i32>,
    openssh_config: String,
    qemu_binary: String,
    qemu_arch_options: Vec<String>,
    qemu_bios_options: Vec<String>,
    ssh: Option<Ssh>,
    tags: Vec<String>,
    vml_directory: String,
}

impl View for VM {
    type V = VMV;

    closed spec fn view(&self) -> VMV {
        VMV {
            cache: self.cache@,
            cloud_init: self.cloud_init,
            cloud_init_image: self.cloud_init_image.deep_view(),
            cpu_model: self.cpu_model@,
            data: self.data.deep_view(),
            directory: self.directory@,
            disk: self.disk@,
            display: self.display.deep_view(),
            gui: self.gui.deep_view(),
            memory: self.memory@,
            monitor: self.monitor@,
            minimum_disk_size: self.minimum_disk_size,
            image_name: self.image_name.deep_view(),
            name: self.name@,
            names: self.names.deep_view(),
            net: match &self.net {
                Some(n) => Some(n@),
                None => None,
            },
            nic_model: self.nic_model@,
            nproc: self.nproc@,
            specified_by: self.specified_by@,
            pid: self.pid,
            openssh_config: self.openssh_config@,
            qemu_binary: self.qemu_binary@,
            qemu_arch_options: self.qemu_arch_options.deep_view(),
            qemu_bios_options: self.qemu_bios_options.deep_view(),
            ssh: match &self.ssh {
                Some(s) => Some(s@),
                None => None,
            },
            tags: self.tags.deep_view(),
            vml_directory: self.vml_directory@,
        }
    }
}

impl DeepView for VM {
    type V = VMV;

    open spec fn deep_view(&self) -> VMV {
        self@
    }
}

/// The name the VM answers to: the record's override, else the name of its
/// directory under the VMs root.
pub open spec fn resolved_name(name: Seq<char>, c: VMConfigV) -> Seq<char> {
    match c.name {
        Some(n) => n,
        None => name,
    }
}

/// The VM's directory under the VMs root.
pub open spec fn vm_directory(config: &Config, name: Seq<char>) -> Seq<char> {
    config.vms_dir@ + "/"@ + name
}

/// The backing disk the record resolves to: an absolute override is taken
/// as it is, a relative one lives under the VM's directory, and without an
/// override the conventional disk file is used.
pub open spec fn resolved_disk(config: &Config, name: Seq<char>, c: VMConfigV) -> Seq<char> {
    let dir = vm_directory(config, name);
    match c.disk {
        Some(d) => if d.len() > 0 && d[0] == '/' {
            d
        } else {
            dir + "/"@ + d
        },
        None => dir + "/disk.qcow2"@,
    }
}

/// The network spec after layering the record over the defaults and filling
/// absent tap nameservers from the global list.
pub open spec fn resolved_net_config(config: &Config, c: VMConfigV) -> ConfigNetV {
    let merged = match c.net {
        None => config.default.net@,
        Some(n) => net_merged(n, config.default.net@),
    };
    match merged {
        ConfigNetV::Tap { address, gateway, nameservers, tap } => {
            if nameservers is None {
                ConfigNetV::Tap { address, gateway, nameservers: config.nameservers.deep_view(), tap }
            } else {
                merged
            }
        },
        _ => merged,
    }
}

/// The SSH spec after layering the record over the defaults.
pub open spec fn resolved_ssh_config(config: &Config, c: VMConfigV) -> ConfigSshV {
    match c.ssh {
        None => config.default.ssh@,
        Some(s) => ssh_merged(s, config.default.ssh@),
    }
}

use crate::ssh::ConfigSshV;

/// The properties the record carries, if any.
pub open spec fn resolved_properties(c: VMConfigV) -> Seq<Seq<char>> {
    match c.properties {
        Some(p) => p,
        None => Seq::empty(),
    }
}

/// The extra hypervisor options that select the firmware: none on a
/// non-aarch64 host without EFI, else the firmware flag and path.
pub open spec fn bios_opts(bios: Seq<char>, efi: bool, arch: Seq<char>) -> Seq<Seq<char>> {
    if arch != "aarch64"@ && !efi {
        Seq::empty()
    } else {
        seq!["-bios"@, bios]
    }
}

fn bios_options(bios: &str, efi: bool, arch: &str) -> (r: Vec<String>)
    ensures
        r.deep_view() == bios_opts(bios@, efi, arch@),
{
    if !str_eq(arch, "aarch64") && !efi {
        let r: Vec<String> = Vec::new();
        proof {
            assert(r.deep_view() =~= Seq::<Seq<char>>::empty());
        }
        r
    } else {
        let mut r: Vec<String> = Vec::new();
        r.push("-bios".to_owned());
        r.push(bios.to_owned());
        proof {
            assert(r.deep_view() =~= seq!["-bios"@, bios@]);
        }
        r
    }
}

/// The fully resolved view of one VM, from its record, the global defaults
/// and the host architecture.
pub open spec fn resolve_vm(config: &Config, name: Seq<char>, c: VMConfigV, arch: Seq<char>) -> VMV {
    let directory = vm_directory(config, name);
    let vml_directory = directory + "/.vml"@;
    let the_name = resolved_name(name, c);
    let properties = resolved_properties(c);
    let gui_prop = seq_has_str(properties, "gui"@);
    let net_config = resolved_net_config(config, c);
    let ssh_config = resolved_ssh_config(config, c);
    VMV {
        cache: vml_directory + "/cache"@,
        cloud_init: match c.cloud_init {
            Some(b) => b,
            None => config.default.cloud_init,
        },
        cloud_init_image: opt_first(c.cloud_init_image, config.default.cloud_init_image.deep_view()),
        cpu_model: match c.cpu_model {
            Some(m) => m,
            None => config.default.cpu_model@,
        },
        data: match c.data {
            Some(d) => d,
            None => Seq::empty(),
        },
        directory,
        disk: resolved_disk(config, name, c),
        display: opt_first(
            c.display,
            if gui_prop {
                Some("gtk"@)
            } else {
                config.default.display.deep_view()
            },
        ),
        gui: opt_first(
            c.gui,
            if gui_prop {
                config.default.gui.deep_view()
            } else {
                None
            },
        ),
        memory: match c.memory {
            Some(m) => m,
            None => config.default.memory@,
        },
        monitor: vml_directory + "/monitor.socket"@,
        minimum_disk_size: opt_first(c.minimum_disk_size, config.default.minimum_disk_size),
        image_name: c.image_name,
        name: the_name,
        names: split_seq(the_name, '/'),
        net: match net_config {
            ConfigNetV::NoNet => None,
            ConfigNetV::Tap { address, gateway, nameservers, tap } => Some(
                NetV::Tap { address, gateway, nameservers, tap: tap->Some_0 },
            ),
            ConfigNetV::User => Some(NetV::User),
        },
        nic_model: match c.nic_model {
            Some(m) => m,
            None => config.default.nic_model@,
        },
        nproc: match c.nproc {
            Some(p) => text_of(p),
            None => text_of(config.default.nproc@),
        },
        specified_by: SpecifiedByV::All,
        pid: None,
        openssh_config: config.openssh_config.vm_configs_dir@ + "/"@ + the_name,
        qemu_binary: match c.qemu_binary {
            Some(b) => b,
            None => config.default.qemu_binary@,
        },
        qemu_arch_options: match c.qemu_arch_options {
            Some(o) => o,
            None => config.default.qemu_arch_options.deep_view(),
        },
        qemu_bios_options: bios_opts(
            match c.qemu_bios {
                Some(b) => b,
                None => config.default.qemu_bios@,
            },
            seq_has_str(properties, "efi"@),
            arch,
        ),
        ssh: ssh_new_spec(ssh_config, resolved_net_config(config, c)),
        tags: match c.tags {
            Some(t) => t,
            None => Seq::empty(),
        },
        vml_directory,
    }
}

fn make_net_config(config: &Config, vm_config: &VMConfig) -> (r: ConfigNet)
    ensures
        r@ == resolved_net_config(config, vm_config@),
{
    let merged_net = match &vm_config.net {
        None => config.default.net.clone(),
        Some(n) => n.updated(&config.default.net),
    };
    match merged_net {
        ConfigNet::Tap { address, gateway, nameservers, tap } => {
            if nameservers.is_none() {
                ConfigNet::Tap {
                    address,
                    gateway,
                    nameservers: clone_opt_vec_string(&config.nameservers),
                    tap,
                }
            } else {
                ConfigNet::Tap { address, gateway, nameservers, tap }
            }
        },
        other => other,
    }
}

fn make_ssh_config(config: &Config, vm_config: &VMConfig) -> (r: crate::ssh::ConfigSsh)
    ensures
        r@ == resolved_ssh_config(config, vm_config@),
{
    match &vm_config.ssh {
        None => config.default.ssh.clone(),
        Some(s) => s.updated(&config.default.ssh),
    }
}

/// The disk path a record resolves to, for the caller to test before
/// resolving the VM.
pub fn resolved_disk_path(config: &Config, name: &str, vm_config: &VMConfig) -> (r: String)
    ensures
        r@ == resolved_disk(config, name@, vm_config@),
{
    let mut directory = config.vms_dir.clone();
    directory.append("/");
    directory.append(name);
    match &vm_config.disk {
        Some(d) => {
            if d.as_str().unicode_len() > 0 && d.as_str().get_char(0) == '/' {
                d.clone()
            } else {
                let mut p = directory;
                p.append("/");
                p.append(d.as_str());
                p
            }
        },
        None => {
            let mut p = directory;
            p.append("/disk.qcow2");
            p
        },
    }
}

struct ResolvedParts {
    cloud_init: bool,
    cloud_init_image: Option<String>,
    cpu_model: String,
    data: Vec<(String, String)>,
    display: Option<String>,
    gui: Option<ConfigGui>,
    memory: String,
    minimum_disk_size: Option<u64>,
    image_name: Option<String>,
    nic_model: String,
    nproc: String,
    properties: Vec<String>,
    qemu_binary: String,
    qemu_arch_options: Vec<String>,
    qemu_bios_options: Vec<String>,
    tags: Vec<String>,
}

#[verifier::rlimit(100)]
fn resolve_scalars(config: &Config, vm_config: &VMConfig, arch: &str) -> (r: ResolvedParts)
    ensures
        r.cloud_init == (match vm_config@.cloud_init {
            Some(b) => b,
            None => config.default.cloud_init,
        }),
        r.cloud_init_image.deep_view() == opt_first(
            vm_config@.cloud_init_image,
            config.default.cloud_init_image.deep_view(),
        ),
        r.cpu_model@ == (match vm_config@.cpu_model {
            Some(m) => m,
            None => config.default.cpu_model@,
        }),
        r.data.deep_view() == (match vm_config@.data {
            Some(d) => d,
            None => Seq::<(Seq<char>, Seq<char>)>::empty(),
        }),
        r.properties.deep_view() == resolved_properties(vm_config@),
        r.display.deep_view() == opt_first(
            vm_config@.display,
            if seq_has_str(resolved_properties(vm_config@), "gui"@) {
                Some("gtk"@)
            } else {
                config.default.display.deep_view()
            },
        ),
        r.gui.deep_view() == opt_first(
            vm_config@.gui,
            if seq_has_str(resolved_properties(vm_config@), "gui"@) {
                config.default.gui.deep_view()
            } else {
                None
            },
        ),
        r.memory@ == (match vm_config@.memory {
            Some(m) => m,
            None => config.default.memory@,
        }),
        r.minimum_disk_size == opt_first(
            vm_config@.minimum_disk_size,
            config.default.minimum_disk_size,
        ),
        r.image_name.deep_view() == vm_config@.image_name,
        r.nic_model@ == (match vm_config@.nic_model {
            Some(m) => m,
            None => config.default.nic_model@,
        }),
        r.nproc@ == (match vm_config@.nproc {
            Some(p) => text_of(p),
            None => text_of(config.default.nproc@),
        }),
        r.qemu_binary@ == (match vm_config@.qemu_binary {
            Some(b) => b,
            None => config.default.qemu_binary@,
        }),
        r.qemu_arch_options.deep_view() == (match vm_config@.qemu_arch_options {
            Some(o) => o,
            None => config.default.qemu_arch_options.deep_view(),
        }),
        r.qemu_bios_options.deep_view() == bios_opts(
            match vm_config@.qemu_bios {
                Some(b) => b,
                None => config.default.qemu_bios@,
            },
            seq_has_str(resolved_properties(vm_config@), "efi"@),
            arch@,
        ),
        r.tags.deep_view() == (match vm_config@.tags {
            Some(t) => t,
            None => Seq::<Seq<char>>::empty(),
        }),
{
    let cloud_init = match vm_config.cloud_init {
        Some(b) => b,
        None => config.default.cloud_init,
    };
    let cloud_init_image = match &vm_config.cloud_init_image {
        Some(i) => Some(i.clone()),
        None => clone_opt_string(&config.default.cloud_init_image),
    };
    let cpu_model = match &vm_config.cpu_model {
        Some(m) => m.clone(),
        None => config.default.cpu_model.clone(),
    };
    let data = match &vm_config.data {
        Some(d) => clone_vec_pairs(d),
        None => Vec::new(),
    };
    proof {
        if vm_config@.data is None {
            assert(data.deep_view() =~= Seq::<(Seq<char>, Seq<char>)>::empty());
        }
    }
    let properties = match &vm_config.properties {
        Some(p) => clone_vec_string(p),
        None => Vec::new(),
    };
    proof {
        if vm_config@.properties is None {
            assert(properties.deep_view() =~= Seq::<Seq<char>>::empty());
        }
    }
    let gui_prop = crate::text::contains_str(&properties, "gui");
    let display = match &vm_config.display {
        Some(d) => Some(d.clone()),
        None => {
            if gui_prop {
                Some("gtk".to_owned())
            } else {
                clone_opt_string(&config.default.display)
            }
        },
    };
    let gui = match &vm_config.gui {
        Some(g) => Some(g.clone()),
        None => {
            if gui_prop {
                clone_opt_gui(&config.default.gui)
            } else {
                None
            }
        },
    };
    let memory = match &vm_config.memory {
        Some(m) => m.clone(),
        None => config.default.memory.clone(),
    };
    let minimum_disk_size = match vm_config.minimum_disk_size {
        Some(s) => Some(s),
        None => config.default.minimum_disk_size,
    };
    let image_name = clone_opt_string(&vm_config.image_name);
    let nic_model = match &vm_config.nic_model {
        Some(m) => m.clone(),
        None => config.default.nic_model.clone(),
    };
    let nproc = match &vm_config.nproc {
        Some(p) => p.to_text(),
        None => config.default.nproc.to_text(),
    };
    let qemu_binary = match &vm_config.qemu_binary {
        Some(b) => b.clone(),
        None => config.default.qemu_binary.clone(),
    };
    let qemu_arch_options = match &vm_config.qemu_arch_options {
        Some(o) => clone_vec_string(o),
        None => clone_vec_string(&config.default.qemu_arch_options),
    };
    let qemu_bios = match &vm_config.qemu_bios {
        Some(b) => b.clone(),
        None => config.default.qemu_bios.clone(),
    };
    let efi_prop = crate::text::contains_str(&properties, "efi");
    let qemu_bios_options = bios_options(qemu_bios.as_str(), efi_prop, arch);
    let tags = match &vm_config.tags {
        Some(t) => clone_vec_string(t),
        None => Vec::new(),
    };
    proof {
        if vm_config@.tags is None {
            assert(tags.deep_view() =~= Seq::<Seq<char>>::empty());
        }
    }
    ResolvedParts {
        cloud_init,
        cloud_init_image,
        cpu_model,
        data,
        display,
        gui,
        memory,
        minimum_disk_size,
        image_name,
        nic_model,
        nproc,
        properties,
        qemu_binary,
        qemu_arch_options,
        qemu_bios_options,
        tags,
    }
}

#[verifier::rlimit(100)]
fn build_vm(config: &Config, name: &str, vm_config: &VMConfig, arch: &str) -> (r: VM)
    requires
        !(resolved_net_config(config, vm_config@) matches ConfigNetV::Tap { tap: None, .. }),
    ensures
        r@ == resolve_vm(config, name@, vm_config@, arch@),
{
    let mut directory = config.vms_dir.clone();
    directory.append("/");
    directory.append(name);
    let mut vml_directory = directory.clone();
    vml_directory.append("/.vml");

    let the_name = match &vm_config.name {
        Some(n) => n.clone(),
        None => name.to_owned(),
    };
    let names = split_char(the_name.as_str(), '/');
    let mut cache_dir = vml_directory.clone();
    cache_dir.append("/cache");
    let cache = Cache::new(cache_dir.as_str());
    let mut monitor = vml_directory.clone();
    monitor.append("/monitor.socket");
    let disk = resolved_disk_path(config, name, vm_config);

    let parts = resolve_scalars(config, vm_config, arch);

    let net_config = make_net_config(config, vm_config);
    let net = match Net::new(&net_config) {
        Ok(n) => n,
        Err(_) => {
            // the precondition rules a tap without a device out
            proof {
                assert(false);
            }
            None
        },
    };
    let ssh_config = make_ssh_config(config, vm_config);
    let ssh = Ssh::new(&ssh_config, &net_config);

    let mut openssh_config = config.openssh_config.vm_configs_dir.clone();
    openssh_config.append("/");
    openssh_config.append(the_name.as_str());

    VM {
        cache,
        cloud_init: parts.cloud_init,
        cloud_init_image: parts.cloud_init_image,
        cpu_model: parts.cpu_model,
        data: parts.data,
        directory,
        disk,
        display: parts.display,
        gui: parts.gui,
        memory: parts.memory,
        monitor,
        minimum_disk_size: parts.minimum_disk_size,
        image_name: parts.image_name,
        name: the_name,
        names,
        net,
        nic_model: parts.nic_model,
        nproc: parts.nproc,
        specified_by: SpecifiedBy::All,
        pid: None,
        openssh_config,
        qemu_binary: parts.qemu_binary,
        qemu_arch_options: parts.qemu_arch_options,
        qemu_bios_options: parts.qemu_bios_options,
        ssh,
        tags: parts.tags,
        vml_directory,
    }
}

impl VM {
    /// Resolves one VM from its record and the global defaults.  The caller
    /// says whether the resolved disk file exists; resolution fails on a
    /// missing disk, or on a tap network that names no tap device.
    pub fn from_config_vm_config(
        config: &Config,
        name: &str,
        vm_config: &VMConfig,
        disk_exists: bool,
        arch: &str,
    ) -> (r: Result<VM, Error>)
        ensures
            !disk_exists ==> {
                &&& r matches Err(e)
                &&& e matches Error::DiskDoesNotExists { disk_path, vm_name }
                &&& disk_path@ == resolved_disk(config, name@, vm_config@)
                &&& vm_name@ == resolved_name(name@, vm_config@)
            },
            disk_exists && (resolved_net_config(config, vm_config@) matches ConfigNetV::Tap {
                tap: None,
                ..
            }) ==> r == Err::<VM, Error>(Error::TapNetworkTapUnset),
            disk_exists && !(resolved_net_config(config, vm_config@) matches ConfigNetV::Tap {
                tap: None,
                ..
            }) ==> (r matches Ok(vm) && vm@ == resolve_vm(config, name@, vm_config@, arch@)),
    {
        if !disk_exists {
            let disk = resolved_disk_path(config, name, vm_config);
            let the_name = match &vm_config.name {
                Some(n) => n.clone(),
                None => name.to_owned(),
            };
            return Err(Error::DiskDoesNotExists { disk_path: disk, vm_name: the_name });
        }
        let net_config = make_net_config(config, vm_config);
        let tap_unset = match &net_config {
            ConfigNet::Tap { tap: None, .. } => true,
            _ => false,
        };
        if tap_unset {
            return Err(Error::TapNetworkTapUnset);
        }
        Ok(build_vm(config, name, vm_config, arch))
    }

    /// Resolves one VM from its record and, when the hierarchy is enabled,
    /// its ancestor records from nearest to farthest.
    pub fn from_config(
        config: &Config,
        name: &str,
        instance: VMConfig,
        ancestors: &Vec<VMConfig>,
        disk_exists: bool,
        arch: &str,
    ) -> (r: Result<VM, Error>)
        ensures
            ({
                let effective = if config.config_hierarchy {
                    resolve_chain(instance@, ancestors.deep_view())
                } else {
                    instance@
                };
                &&& (!disk_exists ==> {
                    &&& r matches Err(e)
                    &&& e matches Error::DiskDoesNotExists { disk_path, vm_name }
                    &&& disk_path@ == resolved_disk(config, name@, effective)
                    &&& vm_name@ == resolved_name(name@, effective)
                })
                &&& (disk_exists && (resolved_net_config(config, effective)
                    matches ConfigNetV::Tap { tap: None, .. }) ==> r == Err::<VM, Error>(
                    Error::TapNetworkTapUnset,
                ))
                &&& (disk_exists && !(resolved_net_config(config, effective)
                    matches ConfigNetV::Tap { tap: None, .. }) ==> (r matches Ok(vm) && vm@
                    == resolve_vm(config, name@, effective, arch@)))
            }),
    {
        let effective = if config.config_hierarchy {
            instance.resolved(ancestors)
        } else {
            instance
        };
        VM::from_config_vm_config(config, name, &effective, disk_exists, arch)
    }

    /// The hierarchical name with its segments joined by hyphens.
    pub fn hyphenized(&self) -> (r: String)
        ensures
            r@ == join_with(self@.names, "-"@),
    {
        crate::text::join_strings(&self.names, "-")
    }

    /// The name the VM answers to.
    pub fn get_name(&self) -> (r: &String)
        ensures
            r@ == self@.name,
    {
        &self.name
    }

    /// The backing disk path.
    pub fn get_disk(&self) -> (r: &String)
        ensures
            r@ == self@.disk,
    {
        &self.disk
    }

    /// Attaches the id of the running hypervisor process.
    pub fn set_pid(&mut self, pid: i32)
        ensures
            final(self)@ == (VMV { pid: Some(pid), ..old(self)@ }),
    {
        self.pid = Some(pid);
    }

    /// Whether a running process is attached.
    pub fn has_pid(&self) -> (r: bool)
        ensures
            r == (self@.pid is Some),
    {
        self.pid.is_some()
    }

    /// The attached process id, if any.
    pub fn pid(&self) -> (r: Option<i32>)
        ensures
            r == self@.pid,
    {
        self.pid
    }

    /// Whether the given path, ignoring trailing slashes, is a segmentwise
    /// prefix of the VM's hierarchical name.
    pub fn has_parent(&self, parent: &str) -> (r: bool)
        ensures
            r == path_has_parent(self@.names, parent@),
    {
        let trimmed = crate::text::trim_char_end(parent, '/');
        let pcs = split_char(trimmed.as_str(), '/');
        proof {
            assert(pcs.deep_view().len() == pcs.len());
            assert(self.names.deep_view().len() == self.names.len());
        }
        if pcs.len() > self.names.len() {
            return false;
        }
        let mut i: usize = 0;
        while i < pcs.len()
            invariant
                0 <= i <= pcs.len(),
                pcs.len() <= self.names.len(),
                pcs.deep_view() == split_seq(trim_trailing(parent@, '/'), '/'),
                forall|j: int| 0 <= j < i ==> self.names.deep_view()[j] == pcs.deep_view()[j],
            decreases pcs.len() - i,
        {
            if !str_eq(self.names[i].as_str(), pcs[i].as_str()) {
                proof {
                    assert(self.names.deep_view()[i as int] != pcs.deep_view()[i as int]);
                }
                return false;
            }
            i += 1;
        }
        true
    }

    /// Whether the VM carries the tag.
    pub fn has_tag(&self, tag: &str) -> (r: bool)
        ensures
            r == seq_has_str(self@.tags, tag@),
    {
        crate::text::contains_str(&self.tags, tag)
    }

    /// Whether the VM carries any of the given tags.
    pub fn has_common_tags(&self, tags: &Vec<String>) -> (r: bool)
        ensures
            r == exists|i: int|
                0 <= i < tags.deep_view().len() && seq_has_str(
                    self@.tags,
                    #[trigger] tags.deep_view()[i],
                ),
    {
        let mut i: usize = 0;
        while i < tags.len()
            invariant
                0 <= i <= tags.len(),
                forall|j: int|
                    0 <= j < i ==> !seq_has_str(self.tags.deep_view(), #[trigger] tags.deep_view()[j]),
            decreases tags.len() - i,
        {
            if crate::text::contains_str(&self.tags, tags[i].as_str()) {
                proof {
                    assert(seq_has_str(self@.tags, tags.deep_view()[i as int]));
                }
                return true;
            }
            i += 1;
        }
        false
    }

    /// Raises the recorded specificity to the given rank when that rank is
    /// strictly higher.
    pub fn specify(&mut self, specified_by: SpecifiedBy)
        ensures
            final(self)@ == (VMV {
                specified_by: if specificity_cmp(old(self)@.specified_by, specified_by@)
                    is Less {
                    specified_by@
                } else {
                    old(self)@.specified_by
                },
                ..old(self)@
            }),
    {
        if self.specified_by.lt(&specified_by) {
            self.specified_by = specified_by;
        }
    }

    /// The recorded specificity.
    pub fn specified_by(&self) -> (r: &SpecifiedBy)
        ensures
            r@ == self@.specified_by,
    {
        &self.specified_by
    }

    /// The display name the listing shows, folded according to how the VM
    /// was selected: a name selection shows the full name; an ancestor-path
    /// selection folds every strict descendant of the matched prefix to the
    /// prefix; a tag or catch-all selection folds to the top-level segment.
    pub fn folded_name(&self) -> (r: String)
        ensures
            r@ == folded_name_of(self@),
    {
        match &self.specified_by {
            SpecifiedBy::All | SpecifiedBy::Tag => {
                if self.names.len() >= 2 {
                    let mut r = self.names[0].clone();
                    r.append("/");
                    r
                } else {
                    self.name.clone()
                }
            },
            SpecifiedBy::Parent(parent) => {
                if str_eq(self.name.as_str(), parent.as_str()) {
                    self.name.clone()
                } else {
                    let mut r = parent.clone();
                    r.append("/");
                    r
                }
            },
            SpecifiedBy::Name => self.name.clone(),
        }
    }

    /// The resolved private key, if the SSH settings name one.  The caller
    /// reports whether the key files exist and hands over any key it was
    /// asked to create.
    pub fn get_ssh_private_key(
        &self,
        public_key_exists: bool,
        private_key_exists: bool,
        created_key: Option<String>,
    ) -> (r: Result<Option<String>, Error>)
        requires
            (self@.ssh matches Some(s) && s.key matches Some(k) && crate::text::ascii_lower(k)
                == crate::text::ascii_lower("create"@)) ==> created_key is Some,
        ensures
            match self@.ssh {
                None => r matches Ok(o) && o is None,
                Some(s) => match s.key {
                    None => r matches Ok(o) && o is None,
                    Some(k) => {
                        if crate::text::ascii_lower(k) == crate::text::ascii_lower("create"@) {
                            r matches Ok(o) && o.deep_view() == created_key.deep_view()
                        } else if !public_key_exists {
                            &&& r matches Err(e)
                            &&& e matches Error::SshPublicKeyDoesNotExists(p)
                            &&& p@ == k + ".pub"@
                        } else if !private_key_exists {
                            &&& r matches Err(e)
                            &&& e matches Error::SshPrivateKeyDoesNotExists(p)
                            &&& p@ == k
                        } else {
                            r matches Ok(o) && o.deep_view() == Some(k)
                        }
                    },
                },
            },
    {
        match &self.ssh {
            Some(s) => {
                if s.has_key() {
                    match s.ensure_keys(public_key_exists, private_key_exists, created_key) {
                        Ok(keys) => Ok(keys.private()),
                        Err(e) => Err(e),
                    }
                } else {
                    Ok(None)
                }
            },
            None => Ok(None),
        }
    }

    /// The port an SSH connection uses: the resolved port, with the text
    /// `random` standing for whatever port was recorded in the cache.
    pub fn get_ssh_port(&self, cached_port: Option<String>) -> (r: Option<String>)
        ensures
            match self@.ssh {
                None => r is None,
                Some(s) => if s.port == "random"@ {
                    r.deep_view() == cached_port.deep_view()
                } else {
                    r.deep_view() == Some(s.port)
                },
            },
    {
        match &self.ssh {
            None => None,
            Some(s) => {
                if str_eq(s.port(), "random") {
                    cached_port
                } else {
                    Some(s.port().to_owned())
                }
            },
        }
    }

    /// What of a monitor reply is worth handing back: the whole reply, when
    /// it is more than an echo and a prompt.
    pub fn monitor_command(&self, reply: &str) -> (r: Option<String>)
        ensures
            r.deep_view() == (if line_count(reply@) > 3 && reply@.len() > 0 {
                Some(reply@)
            } else {
                None::<Seq<char>>
            }),
    {
        let parts = split_char(reply, '\n');
        proof {
            crate::text::lemma_split_len(reply@, '\n');
            assert(parts.deep_view().len() == parts.len());
            assert(parts.deep_view().last() == parts.deep_view()[parts.len() - 1]);
        }
        let last_empty = parts[parts.len() - 1].as_str().unicode_len() == 0;
        let count = if last_empty {
            parts.len() - 1
        } else {
            parts.len()
        };
        if count > 3 && reply.unicode_len() > 0 {
            Some(reply.to_owned())
        } else {
            None
        }
    }

    /// What running a program inside the VM takes: the files to copy over,
    /// and the path of the program on the guest.  A program path without a
    /// usable file name is rejected.
    pub fn run_program_with_context(
        &self,
        program: &str,
        copy_host_dir: &Option<String>,
        guest_working_dir: &Option<String>,
    ) -> (r: Result<(Vec<String>, String), Error>)
        ensures
            match r {
                Ok(plan) => {
                    &&& file_name_of(program@) matches Some(n)
                    &&& plan.0.deep_view() == seq![program@] + (match copy_host_dir.deep_view() {
                        Some(d) => seq![d],
                        None => Seq::<Seq<char>>::empty(),
                    })
                    &&& plan.1@ == (match guest_working_dir.deep_view() {
                        Some(d) => d + "/"@ + n,
                        None => "./"@ + n,
                    })
                },
                Err(e) => {
                    &&& file_name_of(program@) is None
                    &&& e matches Error::BadProgramFilename(p)
                    &&& p@ == program@
                },
            },
    {
        let trimmed = crate::text::trim_char_end(program, '/');
        let comps = split_char(trimmed.as_str(), '/');
        proof {
            crate::text::lemma_split_len(trimmed@, '/');
            assert(comps.deep_view().len() == comps.len());
            assert(comps.deep_view().last() == comps.deep_view()[comps.len() - 1]);
        }
        let last = &comps[comps.len() - 1];
        if last.as_str().unicode_len() == 0 || str_eq(last.as_str(), "..") {
            return Err(Error::BadProgramFilename(program.to_owned()));
        }
        let mut sources: Vec<String> = Vec::new();
        sources.push(program.to_owned());
        if let Some(d) = copy_host_dir {
            sources.push(d.clone());
        }
        proof {
            match copy_host_dir.deep_view() {
                Some(d) => {
                    assert(sources.deep_view() =~= seq![program@] + seq![d]);
                },
                None => {
                    assert(sources.deep_view() =~= seq![program@]
                        + Seq::<Seq<char>>::empty());
                },
            }
        }
        let guest_program_path = match guest_working_dir {
            Some(d) => {
                let mut p = d.clone();
                p.append("/");
                p.append(last.as_str());
                p
            },
            None => {
                let mut p = "./".to_owned();
                p.append(last.as_str());
                p
            },
        };
        Ok((sources, guest_program_path))
    }

    /// What cleaning the VM takes: the cleanup program copied to the guest's
    /// working directory and run there.
    pub fn clean(&self, cleanup_program: &str) -> (r: Result<(Vec<String>, String), Error>)
        ensures
            match r {
                Ok(plan) => {
                    &&& file_name_of(cleanup_program@) matches Some(n)
                    &&& plan.0.deep_view() == seq![cleanup_program@]
                    &&& plan.1@ == "."@ + "/"@ + n
                },
                Err(e) => {
                    &&& file_name_of(cleanup_program@) is None
                    &&& e matches Error::BadProgramFilename(p)
                    &&& p@ == cleanup_program@
                },
            },
    {
        let guest_working_dir = Some(".".to_owned());
        let r = self.run_program_with_context(cleanup_program, &None, &guest_working_dir);
        proof {
            if r is Ok {
                assert(r->Ok_0.0.deep_view() =~= seq![cleanup_program@]);
            }
        }
        r
    }
}

/// The facts a listing shows of one VM, as labelled pairs in a fixed
/// order: the scalars, then the attached process, the source image, the
/// network attachment, and the SSH settings the caller resolved.
pub open spec fn info_pairs(
    v: VMV,
    cached_port: Option<Seq<char>>,
    private_key: Option<Seq<char>>,
) -> Seq<(Seq<char>, Seq<char>)> {
    let base = seq![
        ("memory"@, v.memory),
        ("name"@, v.name),
        ("nproc"@, v.nproc),
        ("openssh_config"@, v.openssh_config),
    ];
    let with_pid = match v.pid {
        Some(p) => base.push(("pid"@, crate::text::int_dec_of(p as int))),
        None => base,
    };
    let with_image = with_pid.push(
        (
            "image"@,
            match v.image_name {
                Some(n) => n,
                None => Seq::empty(),
            },
        ),
    );
    let with_net = match v.net {
        Some(NetV::User) => with_image.push(("network"@, "user"@)),
        Some(NetV::Tap { address, tap, .. }) => {
            let named = with_image.push(("network"@, "tap:"@ + tap));
            match address {
                Some(a) => named.push(("network_address"@, a)),
                None => named,
            }
        },
        None => with_image,
    };
    match v.ssh {
        Some(s) => {
            let with_host = with_net.push(("ssh_host"@, s.host));
            let port = if s.port == "random"@ {
                cached_port
            } else {
                Some(s.port)
            };
            let with_port = match port {
                Some(p) => with_host.push(("ssh_port"@, p)),
                None => with_host,
            };
            let with_key = match private_key {
                Some(k) => with_port.push(("ssh_key"@, k)),
                None => with_port,
            };
            let with_user = match s.user {
                Some(u) => with_key.push(("ssh_user"@, u)),
                None => with_key,
            };
            let opts = (if private_key is Some {
                " -o IdentitiesOnly=yes"@
            } else {
                Seq::empty()
            }) + " "@ + join_with(crate::ssh::ssh_option_flags(s.options), " "@);
            with_user.push(("ssh_options"@, opts))
        },
        None => with_net,
    }
}

impl VM {
    /// The facts a listing shows: labelled pairs over the resolved fields,
    /// the cached port and the private key the caller resolved.
    pub fn info(&self, cached_port: Option<String>, private_key: Option<String>) -> (r: Vec<
        (String, String),
    >)
        ensures
            r.deep_view() == info_pairs(self@, cached_port.deep_view(), private_key.deep_view()),
    {
        let mut r: Vec<(String, String)> = Vec::new();
        r.push(("memory".to_owned(), self.memory.clone()));
        r.push(("name".to_owned(), self.name.clone()));
        r.push(("nproc".to_owned(), self.nproc.clone()));
        r.push(("openssh_config".to_owned(), self.openssh_config.clone()));
        match self.pid {
            Some(p) => {
                r.push(("pid".to_owned(), crate::text::i32_to_string(p)));
            },
            None => {},
        }
        match &self.image_name {
            Some(n) => {
                r.push(("image".to_owned(), n.clone()));
            },
            None => {
                r.push(("image".to_owned(), String::new()));
            },
        }
        match &self.net {
            Some(Net::User) => {
                r.push(("network".to_owned(), "user".to_owned()));
            },
            Some(Net::Tap { address, tap, .. }) => {
                let mut t = "tap:".to_owned();
                t.append(tap.as_str());
                r.push(("network".to_owned(), t));
                match address {
                    Some(a) => {
                        r.push(("network_address".to_owned(), a.clone()));
                    },
                    None => {},
                }
            },
            None => {},
        }
        match &self.ssh {
            Some(s) => {
                r.push(("ssh_host".to_owned(), s.host().to_owned()));
                let port = if str_eq(s.port(), "random") {
                    cached_port
                } else {
                    Some(s.port().to_owned())
                };
                match port {
                    Some(p) => {
                        r.push(("ssh_port".to_owned(), p));
                    },
                    None => {},
                }
                let has_key = private_key.is_some();
                match private_key {
                    Some(k) => {
                        r.push(("ssh_key".to_owned(), k));
                    },
                    None => {},
                }
                match s.user() {
                    Some(u) => {
                        r.push(("ssh_user".to_owned(), u));
                    },
                    None => {},
                }
                let flags = s.options();
                let joined = crate::text::join_strings(&flags, " ");
                let mut opts = if has_key {
                    " -o IdentitiesOnly=yes".to_owned()
                } else {
                    String::new()
                };
                opts.append(" ");
                opts.append(joined.as_str());
                r.push(("ssh_options".to_owned(), opts));
            },
            None => {},
        }
        proof {
            assert(r.deep_view() =~= info_pairs(
                self@,
                cached_port.deep_view(),
                private_key.deep_view(),
            ));
        }
        r
    }
}

/// Whether the path, ignoring trailing slashes, is a segmentwise prefix of
/// the hierarchical name's segments.
pub open spec fn path_has_parent(names: Seq<Seq<char>>, parent: Seq<char>) -> bool {
    let pcs = split_seq(trim_trailing(parent, '/'), '/');
    pcs.len() <= names.len() && forall|i: int| 0 <= i < pcs.len() ==> names[i] == #[trigger] pcs[i]
}

use crate::text::trim_trailing;

/// The folded display name of a VM, by how it was selected.
pub open spec fn folded_name_of(v: VMV) -> Seq<char> {
    match v.specified_by {
        SpecifiedByV::All | SpecifiedByV::Tag => if v.names.len() >= 2 {
            v.names[0] + "/"@
        } else {
            v.name
        },
        SpecifiedByV::Parent(p) => if v.name == p {
            v.name
        } else {
            p + "/"@
        },
        SpecifiedByV::Name => v.name,
    }
}

/// How many lines a reply holds: its newline-separated pieces, not counting
/// the empty piece a trailing newline leaves.
pub open spec fn line_count(s: Seq<char>) -> int {
    let pieces = split_seq(s, '\n');
    if pieces.last().len() == 0 {
        pieces.len() - 1
    } else {
        pieces.len() as int
    }
}

/// The file name a path ends in: its last segment, ignoring trailing
/// slashes; a path without one (empty, a root, or ending in `..`) has none.
pub open spec fn file_name_of(p: Seq<char>) -> Option<Seq<char>> {
    let comps = split_seq(trim_trailing(p, '/'), '/');
    if comps.last().len() == 0 || comps.last() == ".."@ {
        None
    } else {
        Some(comps.last())
    }
}

/// Resolving a record against itself as its sole ancestor yields the same
/// resolved VM as resolving the record alone: instance values always win.
pub proof fn lemma_resolve_idem(config: &Config, name: Seq<char>, c: VMConfigV, arch: Seq<char>)
    ensures
        resolve_vm(config, name, resolve_chain(c, seq![c]), arch) == resolve_vm(
            config,
            name,
            c,
            arch,
        ),
{
    assert(seq![c].drop_first() =~= Seq::<VMConfigV>::empty());
    assert(resolve_chain(c, seq![c]) == resolve_chain(
        crate::vm_config::config_merged(c, c),
        seq![c].drop_first(),
    ));
    crate::vm_config::lemma_config_merged_idem(c);
}

/// One step of stopping a VM: what the caller performs next.
#[derive(Clone, Copy, Debug, PartialEq, Eq, Structural)]
pub enum StopStep {
    /// Kill the attached process.
    Kill,
    /// Ask the monitor for a graceful powerdown.
    Powerdown,
    /// Wait a beat before polling the process again.
    Sleep,
    /// The process is gone; stopping is over.
    Done,
}

/// Where stopping a VM stands: the process, the polls left before a
/// graceful stop is given up and the process killed, and whether it was
/// killed already.
#[derive(Clone, Copy, Debug, PartialEq, Eq, Structural)]
pub struct StopState {
    pub pid: i32,
    pub remaining: u64,
    pub killed: bool,
}

/// How many polls a graceful stop gets before the process is killed.
pub open spec fn stop_poll_budget() -> u64 {
    900
}

/// One step of starting a VM: what the caller performs next.
#[derive(Clone, Copy, Debug, PartialEq, Eq, Structural)]
pub enum StartStep {
    /// Launch the hypervisor.
    Launch,
    /// The VM already runs and the policy leaves it be.
    Skip,
    /// Stop the running VM first, then launch it anew.
    StopThenLaunch,
}

/// What the wait-for-SSH retry does next.
#[derive(Clone, Copy, Debug, PartialEq, Eq, Structural)]
pub enum WaitSshAction {
    /// The connection answered.
    Ready,
    /// The attempts are spent.
    GiveUp,
    /// Sleep the configured pause, then probe again.
    RetryAfterSleep,
}

/// Decides what starting an already-addressed VM does under the
/// running-VM policy.
pub fn start_running_step(
    has_pid: bool,
    policy: crate::config::StartRunningAction,
    vm_name: &str,
) -> (r: Result<StartStep, Error>)
    ensures
        !has_pid ==> r == Ok::<StartStep, Error>(StartStep::Launch),
        has_pid && policy is Fail ==> (r matches Err(e) && e matches Error::StartRunningVM(n)
            && n@ == vm_name@),
        has_pid && policy is Ignore ==> r == Ok::<StartStep, Error>(StartStep::Skip),
        has_pid && policy is Restart ==> r == Ok::<StartStep, Error>(StartStep::StopThenLaunch),
{
    if !has_pid {
        Ok(StartStep::Launch)
    } else {
        match policy {
            crate::config::StartRunningAction::Fail => {
                Err(Error::StartRunningVM(vm_name.to_owned()))
            },
            crate::config::StartRunningAction::Ignore => Ok(StartStep::Skip),
            crate::config::StartRunningAction::Restart => Ok(StartStep::StopThenLaunch),
        }
    }
}

/// One step of the bounded wait-for-SSH retry: ready on a successful
/// probe, given up when the attempts are spent, else another sleep and
/// probe.
pub fn wait_ssh_step(attempts_left: u64, probe_ok: bool) -> (r: WaitSshAction)
    ensures
        probe_ok ==> r == WaitSshAction::Ready,
        !probe_ok && attempts_left == 0 ==> r == WaitSshAction::GiveUp,
        !probe_ok && attempts_left > 0 ==> r == WaitSshAction::RetryAfterSleep,
{
    if probe_ok {
        WaitSshAction::Ready
    } else if attempts_left == 0 {
        WaitSshAction::GiveUp
    } else {
        WaitSshAction::RetryAfterSleep
    }
}

impl VM {
    /// Decides whether the VM may be removed: never while a process is
    /// attached.
    pub fn remove(&self) -> (r: Result<(), Error>)
        ensures
            match self@.pid {
                Some(_) => r matches Err(e) && e matches Error::RemoveRunningVM(n) && n@
                    == self@.name,
                None => r == Ok::<(), Error>(()),
            },
    {
        if self.pid.is_some() {
            Err(Error::RemoveRunningVM(self.name.clone()))
        } else {
            Ok(())
        }
    }

    /// Decides whether the VM's disk may be stored to the target: never
    /// while a process is attached, and never over an existing target
    /// unless forced.
    pub fn store_disk(&self, to: &str, target_exists: bool, force: bool) -> (r: Result<
        (),
        Error,
    >)
        ensures
            self@.pid is Some ==> (r matches Err(e) && e matches Error::StoreRunningVM(n) && n@
                == self@.name),
            self@.pid is None && target_exists && !force ==> (r matches Err(e)
                && e matches Error::RewriteExistsPath(p) && p@ == to@),
            self@.pid is None && (!target_exists || force) ==> r == Ok::<(), Error>(()),
    {
        if self.pid.is_some() {
            Err(Error::StoreRunningVM(self.name.clone()))
        } else if target_exists && !force {
            Err(Error::RewriteExistsPath(to.to_owned()))
        } else {
            Ok(())
        }
    }

    /// The resolved SSH settings, or the error naming the VM that has
    /// none.
    pub fn get_ssh(&self) -> (r: Result<&Ssh, Error>)
        ensures
            match r {
                Ok(s) => self@.ssh == Some(s@),
                Err(e) => {
                    &&& self@.ssh is None
                    &&& e matches Error::VMHasNoSsh(n)
                    &&& n@ == self@.name
                },
            },
    {
        match &self.ssh {
            Some(s) => Ok(s),
            None => Err(Error::VMHasNoSsh(self.name.clone())),
        }
    }

    /// Begins stopping the VM: without an attached process there is
    /// nothing to stop; otherwise the first step kills the process when
    /// forced and asks for a graceful powerdown when not.
    pub fn stop(&self, force: bool) -> (r: Result<(StopState, StopStep), Error>)
        ensures
            match self@.pid {
                None => r matches Err(e) && e matches Error::VMHasNoPid(n) && n@ == self@.name,
                Some(p) => r == Ok::<(StopState, StopStep), Error>(
                    (
                        StopState { pid: p, remaining: stop_poll_budget(), killed: force },
                        if force {
                            StopStep::Kill
                        } else {
                            StopStep::Powerdown
                        },
                    ),
                ),
            },
    {
        match self.pid {
            None => Err(Error::VMHasNoPid(self.name.clone())),
            Some(p) => {
                let state = StopState { pid: p, remaining: 900, killed: force };
                let step = if force {
                    StopStep::Kill
                } else {
                    StopStep::Powerdown
                };
                Ok((state, step))
            },
        }
    }

    /// The resolved memory size text.
    pub fn memory(&self) -> (r: &String)
        ensures
            r@ == self@.memory,
    {
        &self.memory
    }

    /// The resolved CPU model.
    pub fn cpu_model(&self) -> (r: &String)
        ensures
            r@ == self@.cpu_model,
    {
        &self.cpu_model
    }

    /// The resolved CPU count text.
    pub fn nproc(&self) -> (r: &String)
        ensures
            r@ == self@.nproc,
    {
        &self.nproc
    }

    /// The resolved display mode, if one applies.
    pub fn display(&self) -> (r: &Option<String>)
        ensures
            r.deep_view() == self@.display,
    {
        &self.display
    }

    /// The resolved hypervisor binary.
    pub fn qemu_binary(&self) -> (r: &String)
        ensures
            r@ == self@.qemu_binary,
    {
        &self.qemu_binary
    }

    /// The resolved extra hypervisor options.
    pub fn qemu_arch_options(&self) -> (r: &Vec<String>)
        ensures
            r.deep_view() == self@.qemu_arch_options,
    {
        &self.qemu_arch_options
    }

    /// The resolved firmware options.
    pub fn qemu_bios_options(&self) -> (r: &Vec<String>)
        ensures
            r.deep_view() == self@.qemu_bios_options,
    {
        &self.qemu_bios_options
    }

    /// The resolved NIC model.
    pub fn nic_model(&self) -> (r: &String)
        ensures
            r@ == self@.nic_model,
    {
        &self.nic_model
    }

    /// The monitor socket path.
    pub fn monitor(&self) -> (r: &String)
        ensures
            r@ == self@.monitor,
    {
        &self.monitor
    }

    /// The VM's directory.
    pub fn directory(&self) -> (r: &String)
        ensures
            r@ == self@.directory,
    {
        &self.directory
    }

    /// The VM's working directory.
    pub fn vml_directory(&self) -> (r: &String)
        ensures
            r@ == self@.vml_directory,
    {
        &self.vml_directory
    }

    /// The path the generated OpenSSH configuration lives at.
    pub fn openssh_config(&self) -> (r: &String)
        ensures
            r@ == self@.openssh_config,
    {
        &self.openssh_config
    }

    /// Whether cloud-init data is wanted at start.
    pub fn cloud_init(&self) -> (r: bool)
        ensures
            r == self@.cloud_init,
    {
        self.cloud_init
    }

    /// The prebuilt cloud-init image, if one is set.
    pub fn cloud_init_image(&self) -> (r: &Option<String>)
        ensures
            r.deep_view() == self@.cloud_init_image,
    {
        &self.cloud_init_image
    }

    /// The resolved network attachment, if any.
    pub fn get_net(&self) -> (r: &Option<Net>)
        ensures
            (r matches Some(n) ==> self@.net == Some(n@)),
            (r is None <==> self@.net is None),
    {
        &self.net
    }

    /// The source image the VM was created from, if recorded.
    pub fn image_name(&self) -> (r: &Option<String>)
        ensures
            r.deep_view() == self@.image_name,
    {
        &self.image_name
    }

    /// The free-form data map the templates see.
    pub fn data(&self) -> (r: &Vec<(String, String)>)
        ensures
            r.deep_view() == self@.data,
    {
        &self.data
    }

    /// The per-VM cache.
    pub fn cache(&self) -> (r: &Cache)
        ensures
            r@ == self@.cache,
    {
        &self.cache
    }

    /// Detaches the recorded process id, once the process is gone.
    pub fn clear_pid(&mut self)
        ensures
            final(self)@ == (VMV { pid: None::<i32>, ..old(self)@ }),
    {
        self.pid = None;
    }
}

/// The next step of stopping: done once the process is gone; a kill once a
/// graceful stop has used up its polls; else another poll after a sleep.
pub fn stop_next(state: StopState, process_alive: bool) -> (r: (StopState, StopStep))
    ensures
        !process_alive ==> r == (state, StopStep::Done),
        process_alive && !state.killed && state.remaining == 0 ==> r == (
            StopState { killed: true, ..state },
            StopStep::Kill,
        ),
        process_alive && (state.killed || state.remaining > 0) ==> r == (
            StopState {
                remaining: if state.remaining > 0 {
                    (state.remaining - 1) as u64
                } else {
                    0
                },
                ..state
            },
            StopStep::Sleep,
        ),
{
    if !process_alive {
        (state, StopStep::Done)
    } else if !state.killed && state.remaining == 0 {
        (StopState { killed: true, ..state }, StopStep::Kill)
    } else {
        let remaining = if state.remaining > 0 {
            state.remaining - 1
        } else {
            0
        };
        (StopState { remaining, ..state }, StopStep::Sleep)
    }
}

/// What creating a VM goes on to do once its preconditions are decided.
#[derive(Debug)]
pub enum CreatePlan {
    /// The VM exists and the policy says to leave it alone.
    Skip,
    /// Copy the image at the given path in; pull or refresh it first when
    /// asked to.
    Proceed { image_path: String, pull: bool, update: bool },
}

/// Decides what creating a VM does.  An existing VM is skipped, replaced or
/// rejected by policy; an absolute image name is used as a path directly; a
/// found image may be refreshed when it is outdated and refreshing on
/// creation is on; a missing image is pulled when the pull policy allows
/// and the catalog knows it, and rejected otherwise.
pub fn create(
    name: &str,
    already_exists: bool,
    exists_action: crate::config::CreateExistsAction,
    image_name: &str,
    found_path: &Option<String>,
    image_in_catalog: bool,
    image_outdated: bool,
    update_on_create: bool,
    pull_on_missing: bool,
    images_directory: &str,
) -> (r: Result<CreatePlan, Error>)
    ensures
        already_exists && exists_action is Ignore ==> (r matches Ok(p) && p is Skip),
        already_exists && exists_action is Fail ==> {
            &&& r matches Err(e)
            &&& e matches Error::CreateExistingVM(n)
            &&& n@ == name@
        },
        (!already_exists || exists_action is Replace) ==> {
            if image_name@.len() > 0 && image_name@[0] == '/' {
                r matches Ok(p) && p matches CreatePlan::Proceed { image_path, pull, update }
                    && image_path@ == image_name@ && !pull && !update
            } else {
                match found_path.deep_view() {
                    Some(fp) => r matches Ok(p) && p matches CreatePlan::Proceed {
                        image_path,
                        pull,
                        update,
                    } && image_path@ == fp && !pull && update == (update_on_create
                        && image_in_catalog && image_outdated),
                    None => {
                        if pull_on_missing && image_in_catalog {
                            r matches Ok(p) && p matches CreatePlan::Proceed {
                                image_path,
                                pull,
                                update,
                            } && image_path@ == images_directory@ + "/"@ + image_name@ && pull
                                && !update
                        } else if pull_on_missing {
                            &&& r matches Err(e)
                            &&& e matches Error::UnknownImage(n)
                            &&& n@ == image_name@
                        } else {
                            &&& r matches Err(e)
                            &&& e matches Error::ImageDoesNotExists(n)
                            &&& n@ == image_name@
                        }
                    },
                }
            }
        },
{
    if already_exists {
        match exists_action {
            crate::config::CreateExistsAction::Ignore => {
                return Ok(CreatePlan::Skip);
            },
            crate::config::CreateExistsAction::Fail => {
                return Err(Error::CreateExistingVM(name.to_owned()));
            },
            crate::config::CreateExistsAction::Replace => {},
        }
    }
    if image_name.unicode_len() > 0 && image_name.get_char(0) == '/' {
        return Ok(
            CreatePlan::Proceed { image_path: image_name.to_owned(), pull: false, update: false },
        );
    }
    match found_path {
        Some(fp) => Ok(
            CreatePlan::Proceed {
                image_path: fp.clone(),
                pull: false,
                update: update_on_create && image_in_catalog && image_outdated,
            },
        ),
        None => {
            if pull_on_missing && image_in_catalog {
                let mut p = images_directory.to_owned();
                p.append("/");
                p.append(image_name);
                Ok(CreatePlan::Proceed { image_path: p, pull: true, update: false })
            } else if pull_on_missing {
                Err(Error::UnknownImage(image_name.to_owned()))
            } else {
                Err(Error::ImageDoesNotExists(image_name.to_owned()))
            }
        },
    }
}

/// The record written next to a fresh VM: the caller's record, with the
/// image's properties filled in when the record has none, and the image's
/// name recorded.
pub fn creation_record(
    vm_config: VMConfig,
    image_name: Option<&String>,
    image_properties: Option<&Vec<String>>,
) -> (r: VMConfig)
    ensures
        image_name.deep_view() is None ==> r@ == vm_config@,
        image_name.deep_view() matches Some(n) ==> r@ == (crate::vm_config::VMConfigV {
            image_name: Some(n),
            properties: if vm_config@.properties is None && (image_properties.deep_view()
                matches Some(p) && p.len() > 0) {
                Some(image_properties.deep_view()->Some_0)
            } else {
                vm_config@.properties
            },
            ..vm_config@
        }),
{
    let mut r = vm_config;
    match image_name {
        None => r,
        Some(n) => {
            match image_properties {
                Some(props) => {
                    if r.properties.is_none() && props.len() > 0 {
                        r.properties = Some(clone_vec_string(props));
                    }
                },
                None => {},
            }
            r.image_name = Some(n.clone());
            r
        },
    }
}

/// One hexadecimal digit.
pub open spec fn hex_char(d: nat) -> char {
    if d < 10 {
        crate::text::digit_char(d)
    } else if d == 10 {
        'a'
    } else if d == 11 {
        'b'
    } else if d == 12 {
        'c'
    } else if d == 13 {
        'd'
    } else if d == 14 {
        'e'
    } else {
        'f'
    }
}

/// A byte as two hexadecimal digits.
pub open spec fn hex_byte(b: u8) -> Seq<char> {
    seq![hex_char(b as nat / 16), hex_char(b as nat % 16)]
}

/// The MAC address text built over five random bytes: a fixed local prefix
/// and the bytes in hexadecimal, colon-separated.
pub open spec fn mac_text(b1: u8, b2: u8, b3: u8, b4: u8, b5: u8) -> Seq<char> {
    "fe:"@ + hex_byte(b1) + ":"@ + hex_byte(b2) + ":"@ + hex_byte(b3) + ":"@ + hex_byte(b4)
        + ":"@ + hex_byte(b5)
}

fn hex_digit_str(d: u8) -> (r: &'static str)
    requires
        d < 16,
    ensures
        r@ =~= seq![hex_char(d as nat)],
{
    proof {
        reveal_strlit("0");
        reveal_strlit("1");
        reveal_strlit("2");
        reveal_strlit("3");
        reveal_strlit("4");
        reveal_strlit("5");
        reveal_strlit("6");
        reveal_strlit("7");
        reveal_strlit("8");
        reveal_strlit("9");
        reveal_strlit("a");
        reveal_strlit("b");
        reveal_strlit("c");
        reveal_strlit("d");
        reveal_strlit("e");
        reveal_strlit("f");
    }
    if d == 0 {
        "0"
    } else if d == 1 {
        "1"
    } else if d == 2 {
        "2"
    } else if d == 3 {
        "3"
    } else if d == 4 {
        "4"
    } else if d == 5 {
        "5"
    } else if d == 6 {
        "6"
    } else if d == 7 {
        "7"
    } else if d == 8 {
        "8"
    } else if d == 9 {
        "9"
    } else if d == 10 {
        "a"
    } else if d == 11 {
        "b"
    } else if d == 12 {
        "c"
    } else if d == 13 {
        "d"
    } else if d == 14 {
        "e"
    } else {
        "f"
    }
}

fn hex_byte_string(b: u8) -> (r: String)
    ensures
        r@ == hex_byte(b),
{
    let hi = b / 16;
    let lo = b % 16;
    let mut r = hex_digit_str(hi).to_owned();
    r.append(hex_digit_str(lo));
    proof {
        assert(r@ =~= hex_byte(b));
    }
    r
}

/// Relies on rand::random: a uniformly random value; nothing is promised of
/// which one comes back.
pub assume_specification<T>[ rand::random::<T> ]() -> (r: T)
    where
        rand::distributions::Standard: rand::distributions::Distribution<T>,
;

/// A randomly drawn MAC address under the fixed local prefix.
pub fn get_random_mac() -> (r: String)
    ensures
        exists|b1: u8, b2: u8, b3: u8, b4: u8, b5: u8| r@ == mac_text(b1, b2, b3, b4, b5),
{
    let b1: u8 = rand::random();
    let b2: u8 = rand::random();
    let b3: u8 = rand::random();
    let b4: u8 = rand::random();
    let b5: u8 = rand::random();
    let mut r = "fe:".to_owned();
    r.append(hex_byte_string(b1).as_str());
    r.append(":");
    r.append(hex_byte_string(b2).as_str());
    r.append(":");
    r.append(hex_byte_string(b3).as_str());
    r.append(":");
    r.append(hex_byte_string(b4).as_str());
    r.append(":");
    r.append(hex_byte_string(b5).as_str());
    proof {
        assert(r@ =~= mac_text(b1, b2, b3, b4, b5));
    }
    r
}

} // verus!
