//! The process-wide configuration: global defaults for resolving VMs and
//! the per-subcommand behavioural settings.  It is built once from the
//! settings file and read everywhere else.

use vstd::prelude::*;

verus! {

use crate::gui::ConfigGui;
use crate::net::ConfigNet;
use crate::ssh::ConfigSsh;
use crate::string_like::StringOrUint;
use crate::text::str_eq;
use vstd::string::StringExecFns;

/// Global defaults applied to every VM whose record leaves a field unset.
#[derive(Debug)]
pub struct VMsDefault {
    pub memory: String,
    pub display: Option<String>,
    pub cpu_model: String,
    pub net: ConfigNet,
    pub nic_model: String,
    pub nproc: StringOrUint,
    pub gui: Option<ConfigGui>,
    pub ssh: ConfigSsh,
    pub qemu_binary: String,
    pub qemu_arch_options: Vec<String>,
    pub qemu_bios: String,
    pub minimum_disk_size: Option<u64>,
    pub cloud_init: bool,
    pub cloud_init_image: Option<String>,
}

/// The default CPU model for a host architecture.
pub fn default_cpu_model(arch: &str) -> (r: String)
    ensures
        arch@ == "aarch64"@ ==> r@ == "host,pmu=off"@,
        arch@ != "aarch64"@ ==> r@ == "host"@,
{
    if str_eq(arch, "aarch64") {
        "host,pmu=off".to_owned()
    } else {
        "host".to_owned()
    }
}

pub fn default_nic_model() -> (r: String)
    ensures
        r@ == "virtio-net-pci"@,
{
    "virtio-net-pci".to_owned()
}

/// The default extra hypervisor options for a host architecture.
pub fn default_qemu_arch_options(arch: &str) -> (r: Vec<String>)
    ensures
        arch@ == "aarch64"@ ==> r.deep_view() == seq![
            "-M"@,
            "virt,gic-version=3"@,
            "-bios"@,
            "/usr/share/AAVMF/AAVMF_CODE.fd"@,
        ],
        arch@ != "aarch64"@ ==> r.deep_view() == Seq::<Seq<char>>::empty(),
{
    if str_eq(arch, "aarch64") {
        let mut r: Vec<String> = Vec::new();
        r.push("-M".to_owned());
        r.push("virt,gic-version=3".to_owned());
        r.push("-bios".to_owned());
        r.push("/usr/share/AAVMF/AAVMF_CODE.fd".to_owned());
        proof {
            assert(r.deep_view() =~= seq![
                "-M"@,
                "virt,gic-version=3"@,
                "-bios"@,
                "/usr/share/AAVMF/AAVMF_CODE.fd"@,
            ]);
        }
        r
    } else {
        let r: Vec<String> = Vec::new();
        proof {
            assert(r.deep_view() =~= Seq::<Seq<char>>::empty());
        }
        r
    }
}

/// The default hypervisor binary for a host architecture.
pub fn default_qemu_binary(arch: &str) -> (r: String)
    ensures
        r@ == "qemu-system-"@ + arch@,
{
    let mut r = "qemu-system-".to_owned();
    r.append(arch);
    r
}

pub fn default_clean_program() -> (r: String)
    ensures
        r@ == "~/.config/vml/scripts/cleanup.sh"@,
{
    "~/.config/vml/scripts/cleanup.sh".to_owned()
}

/// Settings of the clean subcommand.
#[derive(Debug)]
pub struct CleanCommand {
    pub program: String,
}

impl Default for CleanCommand {
    fn default() -> (r: CleanCommand)
        ensures
            r.program@ == "~/.config/vml/scripts/cleanup.sh"@,
    {
        CleanCommand { program: default_clean_program() }
    }
}

/// What creating a VM does when one of the same name exists.
#[derive(Copy, Clone, Debug)]
pub enum CreateExistsAction {
    Fail,
    Ignore,
    Replace,
}

/// Settings of the create subcommand.
#[derive(Debug)]
pub struct CreateCommand {
    pub pull: bool,
    pub exists: CreateExistsAction,
}

/// Settings of the list subcommand.
#[derive(Debug)]
pub struct ListCommand {
    pub all: bool,
    pub fold: bool,
}

pub fn default_remove_interactive() -> (r: bool)
    ensures
        r == true,
{
    true
}

pub fn default_remove_verbose() -> (r: bool)
    ensures
        r == true,
{
    true
}

/// Settings of the remove subcommand.
#[derive(Debug)]
pub struct RemoveCommand {
    pub interactive: bool,
    pub verbose: bool,
}

impl Default for RemoveCommand {
    fn default() -> (r: RemoveCommand)
        ensures
            r.interactive == true,
            r.verbose == true,
    {
        RemoveCommand {
            interactive: default_remove_interactive(),
            verbose: default_remove_verbose(),
        }
    }
}

pub fn default_rsync_check() -> (r: bool)
    ensures
        r == true,
{
    true
}

/// Settings of the rsync subcommands.
#[derive(Debug)]
pub struct RsyncCommand {
    pub check: bool,
}

impl Default for RsyncCommand {
    fn default() -> (r: RsyncCommand)
        ensures
            r.check == true,
    {
        RsyncCommand { check: default_rsync_check() }
    }
}

pub fn default_wait_ssh_timeout() -> (r: u64)
    ensures
        r == 1,
{
    1
}

pub fn default_wait_ssh_repeat() -> (r: u64)
    ensures
        r == 1,
{
    1
}

pub fn default_wait_ssh_sleep() -> (r: u64)
    ensures
        r == 60,
{
    60
}

pub fn default_wait_ssh_attempts() -> (r: u64)
    ensures
        r == 60,
{
    60
}

pub fn default_wait_ssh_on() -> (r: bool)
    ensures
        r == false,
{
    false
}

/// The bounded retry settings for waiting until SSH answers.
#[derive(Debug)]
pub struct WaitSsh {
    pub on: bool,
    pub attempts: u64,
    pub repeat: u64,
    pub sleep: u64,
    pub timeout: u64,
}

impl Default for WaitSsh {
    fn default() -> (r: WaitSsh)
        ensures
            r.on == false,
            r.attempts == 60,
            r.repeat == 1,
            r.sleep == 60,
            r.timeout == 1,
    {
        WaitSsh {
            on: default_wait_ssh_on(),
            attempts: default_wait_ssh_attempts(),
            repeat: default_wait_ssh_repeat(),
            sleep: default_wait_ssh_sleep(),
            timeout: default_wait_ssh_timeout(),
        }
    }
}

pub fn default_start_ssh() -> (r: bool)
    ensures
        r == false,
{
    false
}

/// What starting a VM does when it is already running.
#[derive(Copy, Clone, Debug)]
pub enum StartRunningAction {
    Fail,
    Ignore,
    Restart,
}

pub fn default_start_running_action() -> (r: StartRunningAction)
    ensures
        r is Fail,
{
    StartRunningAction::Fail
}

/// Settings of the start subcommand.
#[derive(Debug)]
pub struct StrartCommand {
    pub wait_ssh: WaitSsh,
    pub ssh: bool,
    pub running: StartRunningAction,
}

/// The per-subcommand settings, together.
#[derive(Debug)]
pub struct Commands {
    pub clean: CleanCommand,
    pub create: CreateCommand,
    pub list: ListCommand,
    pub remove: RemoveCommand,
    pub rsync: RsyncCommand,
    pub start: StrartCommand,
}

/// Where images live and how the catalog behaves.
#[derive(Debug)]
pub struct Images {
    pub directory: String,
    pub other_directories_ro: Vec<String>,
    pub default: String,
    pub update_on_create: bool,
    pub update_after_days: Option<u64>,
}

pub fn default_openssh_config_main_config() -> (r: String)
    ensures
        r@ == "~/.local/share/vml/openssh/main-config"@,
{
    "~/.local/share/vml/openssh/main-config".to_owned()
}

pub fn default_openssh_config_vm_configs_dir() -> (r: String)
    ensures
        r@ == "~/.local/share/vml/openssh/vm-configs"@,
{
    "~/.local/share/vml/openssh/vm-configs".to_owned()
}

/// Where the generated OpenSSH client configuration lives.
#[derive(Debug)]
pub struct OpensshConfig {
    pub main_config: String,
    pub vm_configs_dir: String,
}

impl Default for OpensshConfig {
    fn default() -> (r: OpensshConfig)
        ensures
            r.main_config@ == "~/.local/share/vml/openssh/main-config"@,
            r.vm_configs_dir@ == "~/.local/share/vml/openssh/vm-configs"@,
    {
        OpensshConfig {
            main_config: default_openssh_config_main_config(),
            vm_configs_dir: default_openssh_config_vm_configs_dir(),
        }
    }
}

/// The whole settings file, parsed and path-expanded.
#[derive(Debug)]
pub struct Config {
    pub vms_dir: String,
    pub config_hierarchy: bool,
    pub commands: Commands,
    pub openssh_config: OpensshConfig,
    pub default: VMsDefault,
    pub images: Images,
    pub nameservers: Option<Vec<String>>,
}

} // verus!
