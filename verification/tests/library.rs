use vml::cache::Cache;
use vml::config::{
    default_cpu_model, default_nic_model, default_qemu_binary, CleanCommand, Commands, Config,
    CreateCommand, CreateExistsAction, Images as ConfigImages, ListCommand, OpensshConfig,
    RemoveCommand, RsyncCommand, StartRunningAction, StrartCommand, VMsDefault, WaitSsh,
};
use vml::errors::Error;
use vml::gui::ConfigGui;
use vml::images::{
    add, available, find, path, update_images, Image, ImageBuilder, ImageEntry, Images,
};
use vml::net::{address, is_cidr, ConfigNet, Net};
use vml::openssh_config::{encode, str_to_options};
use vml::specified_by::SpecifiedBy;
use vml::ssh::{ConfigSsh, Ssh};
use vml::string_like::StringOrUint;
use vml::vm::{
    create, start_running_step, stop_next, wait_ssh_step, CreatePlan, StartStep, StopStep,
    WaitSshAction, VM,
};
use vml::vm_config::VMConfig;
use vml::vms_creator::{ProcessInfo, VMsCreator, WithPid};

fn test_config() -> Config {
    Config {
        vms_dir: "/vms".to_owned(),
        config_hierarchy: true,
        commands: Commands {
            clean: CleanCommand::default(),
            create: CreateCommand { pull: false, exists: CreateExistsAction::Fail },
            list: ListCommand { all: false, fold: true },
            remove: RemoveCommand::default(),
            rsync: RsyncCommand::default(),
            start: StrartCommand {
                wait_ssh: WaitSsh::default(),
                ssh: false,
                running: StartRunningAction::Fail,
            },
        },
        openssh_config: OpensshConfig::default(),
        default: VMsDefault {
            memory: "1G".to_owned(),
            display: None,
            cpu_model: default_cpu_model("x86_64"),
            net: ConfigNet::User,
            nic_model: default_nic_model(),
            nproc: StringOrUint::I(2),
            gui: None,
            ssh: ConfigSsh {
                authorized_keys: None,
                key: None,
                options: None,
                port: Some(StringOrUint::I(22)),
                port_user_network: Some(StringOrUint::S("2222".to_owned())),
                host_user_network: None,
                user: Some("root".to_owned()),
            },
            qemu_binary: default_qemu_binary("x86_64"),
            qemu_arch_options: Vec::new(),
            qemu_bios: "bios.bin".to_owned(),
            minimum_disk_size: None,
            cloud_init: false,
            cloud_init_image: None,
        },
        images: ConfigImages {
            directory: "/images".to_owned(),
            other_directories_ro: Vec::new(),
            default: "alpine".to_owned(),
            update_on_create: false,
            update_after_days: None,
        },
        nameservers: None,
    }
}

fn resolve(config: &Config, name: &str, vm_config: &VMConfig) -> VM {
    VM::from_config_vm_config(config, name, vm_config, true, "x86_64").expect("resolution")
}

fn entry(url: &str, change: &[&str]) -> ImageEntry {
    ImageEntry {
        description: Some("desc".to_owned()),
        url: url.to_owned(),
        get_url_prog: None,
        change: change.iter().map(|c| c.to_string()).collect(),
        properties: vec!["prop".to_owned()],
        update_after_days: Some(3),
        arch_mapping: None,
    }
}

// Merge idempotence: a record resolved against itself as its sole ancestor
// equals the record alone.
#[test]
fn merge_idempotence() {
    let mut a = VMConfig::empty();
    a.memory = Some("2G".to_owned());
    a.name = Some("n".to_owned());
    a.cloud_init = Some(true);
    let mut same = VMConfig::empty();
    same.memory = Some("2G".to_owned());
    same.name = Some("n".to_owned());
    same.cloud_init = Some(true);
    let resolved = a.resolved(&vec![{
        let mut c = VMConfig::empty();
        c.memory = Some("2G".to_owned());
        c.name = Some("n".to_owned());
        c.cloud_init = Some(true);
        c
    }]);
    assert_eq!(resolved.memory, same.memory);
    assert_eq!(resolved.name, same.name);
    assert_eq!(resolved.cloud_init, same.cloud_init);
    assert_eq!(resolved.cpu_model, None);
}

// First-present-wins: a present instance value hides every ancestor; an
// absent one takes the nearest ancestor's value over farther ones.
#[test]
fn first_present_wins() {
    let mut instance = VMConfig::empty();
    instance.memory = Some("4G".to_owned());
    let mut near = VMConfig::empty();
    near.memory = Some("2G".to_owned());
    near.display = Some("gtk".to_owned());
    let mut far = VMConfig::empty();
    far.memory = Some("1G".to_owned());
    far.display = Some("none".to_owned());
    far.cpu_model = Some("host".to_owned());
    let resolved = instance.resolved(&vec![near, far]);
    assert_eq!(resolved.memory.as_deref(), Some("4G"));
    assert_eq!(resolved.display.as_deref(), Some("gtk"));
    assert_eq!(resolved.cpu_model.as_deref(), Some("host"));
}

// Network merge variant rule: tap fields merge independently; an explicit
// absent network above lets the lower value win.
#[test]
fn network_merge_variant_rule() {
    let higher = ConfigNet::Tap {
        address: Some("10.0.0.2".to_owned()),
        gateway: None,
        nameservers: None,
        tap: None,
    };
    let lower = ConfigNet::Tap {
        address: None,
        gateway: Some("10.0.0.1".to_owned()),
        nameservers: None,
        tap: None,
    };
    match higher.updated(&lower) {
        ConfigNet::Tap { address, gateway, .. } => {
            assert_eq!(address.as_deref(), Some("10.0.0.2"));
            assert_eq!(gateway.as_deref(), Some("10.0.0.1"));
        }
        _ => panic!("expected a tap merge"),
    }
    let merged = ConfigNet::NoNet.updated(&ConfigNet::User);
    assert!(merged.is_user());
}

// Specificity ordering: All < Tag < Parent < Name, parents by length; a VM
// matched by name is never displayed as if matched by the catch-all.
#[test]
fn specificity_ordering() {
    assert!(SpecifiedBy::All < SpecifiedBy::Tag);
    assert!(SpecifiedBy::Tag < SpecifiedBy::Parent("a".to_owned()));
    assert!(SpecifiedBy::Parent("a".to_owned()) < SpecifiedBy::Parent("ab".to_owned()));
    assert!(SpecifiedBy::Parent("zz".to_owned()) < SpecifiedBy::Name);
    let config = test_config();
    let mut vm = resolve(&config, "deep/vm", &VMConfig::empty());
    vm.specify(SpecifiedBy::Name);
    vm.specify(SpecifiedBy::All);
    // the higher rank is kept, so the full name is shown
    assert_eq!(vm.folded_name(), "deep/vm");
}

// Catalog reconciliation is directive-respecting: no directives keep the
// on-disk entry whole; update-url takes only the embedded URL.
#[test]
fn catalog_reconciliation_directives() {
    let embedded = vec![("img".to_owned(), entry("https://new", &[]))];
    let disk = vec![("img".to_owned(), entry("https://old", &[]))];
    let merged = update_images(&embedded, &disk);
    assert_eq!(merged.len(), 1);
    assert_eq!(merged[0].1.url, "https://old");
    assert_eq!(merged[0].1.description.as_deref(), Some("desc"));

    let disk2 = vec![("img".to_owned(), entry("https://old", &["update-url"]))];
    let mut embedded2 = vec![("img".to_owned(), entry("https://new", &[]))];
    embedded2[0].1.description = Some("new desc".to_owned());
    let merged2 = update_images(&embedded2, &disk2);
    assert_eq!(merged2[0].1.url, "https://new");
    assert_eq!(merged2[0].1.description.as_deref(), Some("desc"));
    assert_eq!(merged2[0].1.change, vec!["update-url".to_owned()]);
}

// Catalog merge key coverage: every key of either input appears unless it
// was on-disk-only and marked deleted.
#[test]
fn catalog_merge_key_coverage() {
    let embedded = vec![
        ("alpha".to_owned(), entry("https://a", &[])),
        ("gamma".to_owned(), entry("https://c", &[])),
    ];
    let disk = vec![
        ("beta".to_owned(), entry("https://b", &[])),
        ("delta".to_owned(), entry("https://d", &["delete"])),
        ("gamma".to_owned(), entry("https://cc", &["delete"])),
    ];
    let merged = update_images(&embedded, &disk);
    let keys: Vec<&str> = merged.iter().map(|(k, _)| k.as_str()).collect();
    assert!(keys.contains(&"alpha"));
    assert!(keys.contains(&"beta"));
    // a key in both stays even when the on-disk entry is marked deleted
    assert!(keys.contains(&"gamma"));
    // an on-disk-only key marked deleted is suppressed
    assert!(!keys.contains(&"delta"));
    assert_eq!(merged.len(), 3);
}

// Scenario: creating with a missing image and pulling disabled fails with
// the image-not-found error; no plan to create anything is produced.
#[test]
fn create_with_missing_image() {
    let r = create(
        "myvm",
        false,
        CreateExistsAction::Fail,
        "nonexistent",
        &None,
        false,
        false,
        false,
        false,
        "/images",
    );
    match r {
        Err(Error::ImageDoesNotExists(n)) => assert_eq!(n, "nonexistent"),
        other => panic!("expected the image-not-found error, got {:?}", other),
    }
}

// Scenario: an existing VM with the failing policy is a create error.
#[test]
fn create_existing_vm_fails() {
    let r = create(
        "vm1",
        true,
        CreateExistsAction::Fail,
        "img",
        &None,
        false,
        false,
        false,
        false,
        "/images",
    );
    match r {
        Err(Error::CreateExistingVM(n)) => assert_eq!(n, "vm1"),
        other => panic!("expected the existing-vm error, got {:?}", other),
    }
    let skip = create(
        "vm1",
        true,
        CreateExistsAction::Ignore,
        "img",
        &None,
        false,
        false,
        false,
        false,
        "/images",
    );
    assert!(matches!(skip, Ok(CreatePlan::Skip)));
}

// Scenario: selection precedence — an ancestor prefix selects itself and
// its descendants, not its own parent; descendants fold to the prefix.
#[test]
fn selection_precedence() {
    let config = test_config();
    let a = resolve(&config, "a", &VMConfig::empty());
    let ab = resolve(&config, "a/b", &VMConfig::empty());
    let abc = resolve(&config, "a/b/c", &VMConfig::empty());
    let mut vmc = VMsCreator::new(test_config());
    vmc.parents(&vec!["a/b".to_owned()]);
    let selected = vmc.create(vec![a, ab, abc], &None).expect("selection");
    // the set comes out ordered by resolved disk path
    let names: Vec<String> = selected.iter().map(|v| v.get_name().clone()).collect();
    assert_eq!(names, vec!["a/b/c".to_owned(), "a/b".to_owned()]);
    let folded: Vec<String> = selected.iter().map(|v| v.folded_name()).collect();
    assert_eq!(folded, vec!["a/b/".to_owned(), "a/b".to_owned()]);
}

// Scenario: pid cross-reference — a hypervisor process holding the disk
// open attaches its id; the filtering policy keeps only such VMs.
#[test]
fn pid_cross_reference() {
    let config = test_config();
    let mut x = VMConfig::empty();
    x.disk = Some("/vms/x/disk.qcow2".to_owned());
    let vm_x = resolve(&config, "x", &x);
    let vm_y = resolve(&config, "y", &VMConfig::empty());
    let procs = vec![ProcessInfo {
        pid: 4242,
        exe_name: "qemu-system-x86_64".to_owned(),
        fd_paths: vec!["/vms/x/disk.qcow2".to_owned()],
    }];
    let mut vmc = VMsCreator::new(test_config());
    vmc.all();
    vmc.with_pid(WithPid::Filter);
    let selected = vmc.create(vec![vm_x, vm_y], &Some(procs)).expect("selection");
    assert_eq!(selected.len(), 1);
    assert!(selected[0].has_pid());
    assert_eq!(selected[0].pid(), Some(4242));
    assert_eq!(selected[0].get_name(), "x");
}

// Scenario: the erroring policy rejects a selected VM without a process.
#[test]
fn pid_policy_error() {
    let config = test_config();
    let vm = resolve(&config, "lonely", &VMConfig::empty());
    let mut vmc = VMsCreator::new(test_config());
    vmc.all();
    vmc.with_pid(WithPid::Error);
    match vmc.create(vec![vm], &Some(Vec::new())) {
        Err(Error::VMHasNoPid(n)) => assert_eq!(n, "lonely"),
        other => panic!("expected the no-pid error, got {:?}", other),
    }
}

// An empty selection errors only when asked to.
#[test]
fn empty_selection() {
    let mut vmc = VMsCreator::new(test_config());
    vmc.name("ghost");
    assert_eq!(vmc.create(Vec::new(), &None).expect("empty is fine").len(), 0);
    let mut vmc2 = VMsCreator::new(test_config());
    vmc2.name("ghost");
    vmc2.error_on_empty();
    assert!(matches!(vmc2.create(Vec::new(), &None), Err(Error::EmptyVMsList)));
}

// Scenario: stale image check — an old file with a short interval is
// outdated; without any interval nothing ever is.
#[test]
fn stale_image_check() {
    let config = test_config();
    let mut e = entry("https://img", &[]);
    e.update_after_days = Some(7);
    let image = Image::from_deserialize(&e, "img", "https://img".to_owned(), &config.images);
    let ten_days = 10 * 24 * 60 * 60;
    assert!(image.outdate(Some(ten_days)));
    assert!(!image.outdate(Some(7 * 24 * 60 * 60)));
    assert!(!image.outdate(None));

    let mut none_entry = entry("https://img", &[]);
    none_entry.update_after_days = None;
    let plain = Image::from_deserialize(&none_entry, "img", "https://img".to_owned(), &config.images);
    assert!(!plain.outdate(Some(ten_days)));
}

#[test]
fn image_catalog_lookup() {
    let config = test_config();
    let entries = vec![
        ("alpine".to_owned(), entry("https://a", &[])),
        ("debian".to_owned(), entry("https://d", &[])),
    ];
    let urls = vec!["https://a".to_owned(), "https://d".to_owned()];
    let images = available(&entries, &urls, &config.images);
    assert_eq!(images.len(), 2);
    assert_eq!(images.names(), vec!["alpine".to_owned(), "debian".to_owned()]);
    assert!(images.get("alpine").is_some());
    assert!(images.get("missing").is_none());
    match images.get_result("missing") {
        Err(Error::UnknownImage(n)) => assert_eq!(n, "missing"),
        other => panic!("expected the unknown-image error, got {:?}", other),
    }
    let img = images.get("alpine").unwrap();
    assert_eq!(img.path(), "/images/alpine");
    assert!(img.file_exists(&vec!["/images/alpine".to_owned()]));
    assert!(!img.file_exists(&vec!["/images/debian".to_owned()]));
}

#[test]
fn image_add_and_find() {
    let entries = vec![("b".to_owned(), entry("https://b", &[]))];
    let mut builder = ImageBuilder::new("a", "https://a");
    builder.description("fresh");
    builder.update_after_days(5);
    let out = add(&entries, &builder).expect("insert");
    assert_eq!(out.len(), 2);
    assert_eq!(out[0].0, "a");
    assert_eq!(out[0].1.url, "https://a");
    assert_eq!(out[0].1.description.as_deref(), Some("fresh"));
    assert_eq!(out[1].0, "b");

    let bad = ImageBuilder::new("a", "ftp://a");
    match add(&entries, &bad) {
        Err(Error::BadUrl(u)) => assert_eq!(u, "ftp://a"),
        other => panic!("expected the bad-url error, got {:?}", other),
    }

    let dirs = vec!["/one".to_owned(), "/two".to_owned()];
    assert_eq!(
        find(&dirs, "img", &vec![false, true]).expect("found"),
        "/two/img"
    );
    assert_eq!(
        find(&dirs, "img", &vec![true, true]).expect("found"),
        "/one/img"
    );
    match find(&dirs, "img", &vec![false, false]) {
        Err(Error::ImageDoesNotExists(n)) => assert_eq!(n, "img"),
        other => panic!("expected the missing-image error, got {:?}", other),
    }
    assert_eq!(path("/one", "img", true).expect("present"), "/one/img");
    assert!(path("/one", "img", false).is_err());
}

#[test]
fn resolution_errors() {
    let config = test_config();
    match VM::from_config_vm_config(&config, "vm", &VMConfig::empty(), false, "x86_64") {
        Err(Error::DiskDoesNotExists { disk_path, vm_name }) => {
            assert_eq!(disk_path, "/vms/vm/disk.qcow2");
            assert_eq!(vm_name, "vm");
        }
        other => panic!("expected the missing-disk error, got {:?}", other),
    }
    let mut tapless = VMConfig::empty();
    tapless.net = Some(ConfigNet::Tap {
        address: None,
        gateway: None,
        nameservers: None,
        tap: None,
    });
    match VM::from_config_vm_config(&config, "vm", &tapless, true, "x86_64") {
        Err(Error::TapNetworkTapUnset) => {}
        other => panic!("expected the unset-tap error, got {:?}", other),
    }
}

#[test]
fn resolved_vm_fields() {
    let config = test_config();
    let mut c = VMConfig::empty();
    c.memory = Some("8G".to_owned());
    c.nproc = Some(StringOrUint::S("4".to_owned()));
    let vm = resolve(&config, "box", &c);
    assert_eq!(vm.get_name(), "box");
    assert_eq!(vm.get_disk(), "/vms/box/disk.qcow2");
    assert_eq!(vm.hyphenized(), "box");
    let nested = resolve(&config, "a/b", &VMConfig::empty());
    assert_eq!(nested.hyphenized(), "a-b");
    assert!(nested.has_parent("a"));
    assert!(nested.has_parent("a/"));
    assert!(!nested.has_parent("b"));
}

#[test]
fn vm_tags_and_ssh() {
    let config = test_config();
    let mut c = VMConfig::empty();
    c.tags = Some(vec!["web".to_owned(), "db".to_owned()]);
    let vm = resolve(&config, "t", &c);
    assert!(vm.has_tag("web"));
    assert!(!vm.has_tag("mail"));
    assert!(vm.has_common_tags(&vec!["mail".to_owned(), "db".to_owned()]));
    assert!(!vm.has_common_tags(&vec!["mail".to_owned()]));
    // the default config uses a user network with a port, so SSH resolves
    assert_eq!(vm.get_ssh_port(None).as_deref(), Some("2222"));
    let key = vm
        .get_ssh_private_key(false, false, None)
        .expect("no key configured");
    assert!(key.is_none());
}

#[test]
fn ssh_resolution() {
    let cfg = ConfigSsh {
        authorized_keys: Some(vec!["ssh-ed25519 AAA".to_owned()]),
        key: Some("NONE".to_owned()),
        options: Some(vec!["StrictHostKeyChecking=no".to_owned()]),
        port: Some(StringOrUint::I(22)),
        port_user_network: None,
        host_user_network: None,
        user: Some("admin".to_owned()),
    };
    let net = ConfigNet::Tap {
        address: Some("192.168.1.5/24".to_owned()),
        gateway: None,
        nameservers: None,
        tap: Some("tap0".to_owned()),
    };
    let ssh = Ssh::new(&cfg, &net).expect("resolves");
    assert_eq!(ssh.host(), "192.168.1.5");
    assert_eq!(ssh.port(), "22");
    // a key written `none` in any case means no key
    assert!(!ssh.has_key());
    assert_eq!(ssh.user_host(&None), "admin@192.168.1.5");
    assert_eq!(ssh.user_host(&Some("guest".to_owned())), "guest@192.168.1.5");
    assert_eq!(
        ssh.options(),
        vec!["-o".to_owned(), "StrictHostKeyChecking=no".to_owned()]
    );

    // a tap network whose address is not a well-formed CIDR offers no host
    let bad_net = ConfigNet::Tap {
        address: Some("not-an-ip".to_owned()),
        gateway: None,
        nameservers: None,
        tap: Some("tap0".to_owned()),
    };
    assert!(Ssh::new(&cfg, &bad_net).is_none());
}

#[test]
fn ssh_key_material() {
    let cfg = ConfigSsh {
        authorized_keys: None,
        key: Some("/keys/id".to_owned()),
        options: None,
        port: Some(StringOrUint::I(22)),
        port_user_network: Some(StringOrUint::I(2022)),
        host_user_network: None,
        user: None,
    };
    let ssh = Ssh::new(&cfg, &ConfigNet::User).expect("resolves");
    assert!(ssh.has_key());
    match ssh.ensure_keys(false, false, None) {
        Err(Error::SshPublicKeyDoesNotExists(p)) => assert_eq!(p, "/keys/id.pub"),
        other => panic!("expected the missing-public-key error, got {:?}", other),
    }
    match ssh.ensure_keys(true, false, None) {
        Err(Error::SshPrivateKeyDoesNotExists(p)) => assert_eq!(p, "/keys/id"),
        other => panic!("expected the missing-private-key error, got {:?}", other),
    }
    let keys = ssh.ensure_keys(true, true, None).expect("both files exist");
    assert_eq!(keys.private().as_deref(), Some("/keys/id"));
    let aks = keys.authorized_keys(Some("ssh-ed25519 BBB root@host\n"));
    assert_eq!(aks, vec!["ssh-ed25519 BBB root@host".to_owned()]);
}

#[test]
fn net_helpers() {
    assert_eq!(address("10.0.0.2/24").as_deref(), Some("10.0.0.2"));
    assert_eq!(address("10.0.0.2").as_deref(), Some("10.0.0.2"));
    assert_eq!(address("999.0.0.2/24"), None);
    assert!(is_cidr("10.0.0.2/24"));
    assert!(!is_cidr("10.0.0.2"));
    assert!(is_cidr("fe80::1/64"));
    assert!(!is_cidr("fe80::1::2/64"));

    let net = Net::new(&ConfigNet::Tap {
        address: None,
        gateway: Some("10.0.0.1".to_owned()),
        nameservers: None,
        tap: Some("tap0".to_owned()),
    })
    .expect("tap set")
    .expect("an attachment");
    assert_eq!(net.gateway4().as_deref(), Some("10.0.0.1"));
    assert_eq!(net.gateway6(), None);
    let net6 = Net::new(&ConfigNet::Tap {
        address: None,
        gateway: Some("fd00::1".to_owned()),
        nameservers: None,
        tap: Some("tap0".to_owned()),
    })
    .expect("tap set")
    .expect("an attachment");
    assert_eq!(net6.gateway6().as_deref(), Some("fd00::1"));
    assert_eq!(net6.gateway4(), None);
}

#[test]
fn program_plans() {
    let config = test_config();
    let vm = resolve(&config, "p", &VMConfig::empty());
    let (sources, guest) = vm
        .run_program_with_context("/usr/bin/setup.sh", &None, &None)
        .expect("a usable program name");
    assert_eq!(sources, vec!["/usr/bin/setup.sh".to_owned()]);
    assert_eq!(guest, "./setup.sh");
    let (sources2, guest2) = vm
        .run_program_with_context(
            "tool",
            &Some("/data".to_owned()),
            &Some("/work".to_owned()),
        )
        .expect("a usable program name");
    assert_eq!(sources2, vec!["tool".to_owned(), "/data".to_owned()]);
    assert_eq!(guest2, "/work/tool");
    match vm.run_program_with_context("/", &None, &None) {
        Err(Error::BadProgramFilename(p)) => assert_eq!(p, "/"),
        other => panic!("expected the bad-filename error, got {:?}", other),
    }
    let (csources, cguest) = vm.clean("/scripts/cleanup.sh").expect("plan");
    assert_eq!(csources, vec!["/scripts/cleanup.sh".to_owned()]);
    assert_eq!(cguest, "./cleanup.sh");
}

#[test]
fn monitor_replies() {
    let config = test_config();
    let vm = resolve(&config, "m", &VMConfig::empty());
    assert_eq!(vm.monitor_command(""), None);
    assert_eq!(vm.monitor_command("a\nb\n"), None);
    let reply = "QEMU monitor\n(qemu) info\nanswer line\n(qemu) ";
    assert_eq!(vm.monitor_command(reply).as_deref(), Some(reply));
}

#[test]
fn text_helpers() {
    assert_eq!(vml::text::u64_to_string(0), "0");
    assert_eq!(vml::text::u64_to_string(12345), "12345");
    assert_eq!(vml::text::i32_to_string(-42), "-42");
    assert_eq!(vml::text::trim_end("abc \n\t"), "abc");
    assert!(vml::text::str_starts_with("https://x", "https://"));
    assert!(!vml::text::str_starts_with("http://x", "https://"));
    assert!(vml::text::eq_ignore_case("CrEaTe", "create"));
    assert!(!vml::text::eq_ignore_case("created", "create"));
    assert_eq!(
        vml::text::split_char("a/b//c", '/'),
        vec!["a".to_owned(), "b".to_owned(), "".to_owned(), "c".to_owned()]
    );
    assert_eq!(
        vml::text::join_strings(&vec!["a".to_owned(), "b".to_owned()], "-"),
        "a-b"
    );
}

#[test]
fn ip_checks() {
    assert!(vml::ip::ipv4_check("192.168.0.1"));
    assert!(!vml::ip::ipv4_check("192.168.0.256"));
    assert!(!vml::ip::ipv4_check("192.168.0.01"));
    assert!(!vml::ip::ipv4_check("192.168.0"));
    assert!(vml::ip::ipv6_check("::1"));
    assert!(vml::ip::ipv6_check("fe80::"));
    assert!(vml::ip::ipv6_check("::"));
    assert!(vml::ip::ipv6_check("1:2:3:4:5:6:7:8"));
    assert!(vml::ip::ipv6_check("::ffff:192.168.0.1"));
    assert!(!vml::ip::ipv6_check("1:2:3:4:5:6:7:8:9"));
    assert!(!vml::ip::ipv6_check(":"));
    assert!(!vml::ip::ipv6_check("1::2::3"));
}

#[test]
fn openssh_helpers() {
    // the real urlencoding crate answers here
    assert_eq!(encode("a b/c"), "a%20b%2Fc");
    assert_eq!(encode("plain-name"), "plain-name");
    assert_eq!(
        vml::openssh_config::vm_config_path("/configs", "a/b"),
        "/configs/a%2Fb"
    );
    assert_eq!(
        str_to_options(" -o IdentitiesOnly=yes -o Compression=no"),
        vec!["IdentitiesOnly yes".to_owned(), "Compression no".to_owned()]
    );
}

#[test]
fn misc_library_pieces() {
    let cache = Cache::new("/vms/x/.vml/cache");
    assert_eq!(cache.path_for("port"), "/vms/x/.vml/cache/port");

    let mac = vml::vm::get_random_mac();
    assert_eq!(mac.len(), 17);
    assert!(mac.starts_with("fe:"));

    assert_eq!(
        vml::images::mapped_arch(
            &Some(vec![("x86_64".to_owned(), "amd64".to_owned())]),
            "x86_64"
        ),
        "amd64"
    );
    assert_eq!(vml::images::mapped_arch(&None, "x86_64"), "x86_64");

    assert_eq!(default_qemu_binary("x86_64"), "qemu-system-x86_64");
    assert_eq!(default_cpu_model("aarch64"), "host,pmu=off");
    assert_eq!(default_cpu_model("x86_64"), "host");
}

#[test]
fn vm_info_pairs() {
    let config = test_config();
    let mut c = VMConfig::empty();
    c.image_name = Some("alpine".to_owned());
    let mut vm = resolve(&config, "i", &c);
    vm.set_pid(7);
    let info = vm.info(None, None);
    let get = |key: &str| -> Option<String> {
        info.iter()
            .find(|(k, _)| k == key)
            .map(|(_, v)| v.clone())
    };
    assert_eq!(get("memory").as_deref(), Some("1G"));
    assert_eq!(get("name").as_deref(), Some("i"));
    assert_eq!(get("nproc").as_deref(), Some("2"));
    assert_eq!(get("pid").as_deref(), Some("7"));
    assert_eq!(get("image").as_deref(), Some("alpine"));
    assert_eq!(get("network").as_deref(), Some("user"));
    assert_eq!(get("ssh_host").as_deref(), Some("127.0.0.1"));
    assert_eq!(get("ssh_port").as_deref(), Some("2222"));
    assert_eq!(get("ssh_user").as_deref(), Some("root"));
    assert_eq!(get("ssh_key"), None);
}

// Resolving through the hierarchy with the record itself as the one
// ancestor changes nothing.
#[test]
fn hierarchy_resolution() {
    let config = test_config();
    let mut instance = VMConfig::empty();
    instance.memory = Some("3G".to_owned());
    let mut ancestor = VMConfig::empty();
    ancestor.memory = Some("3G".to_owned());
    let with_ancestor =
        VM::from_config(&config, "h", instance, &vec![ancestor], true, "x86_64").expect("resolves");
    let mut alone_cfg = VMConfig::empty();
    alone_cfg.memory = Some("3G".to_owned());
    let alone = resolve(&config, "h", &alone_cfg);
    assert_eq!(with_ancestor.get_name(), alone.get_name());
    assert_eq!(with_ancestor.get_disk(), alone.get_disk());
    assert_eq!(with_ancestor.info(None, None), alone.info(None, None));
}

// The recorded ancestor-path rank carries the longest matching prefix,
// whatever order the criteria were given in.
#[test]
fn longest_parent_wins() {
    let config = test_config();
    let abc = resolve(&config, "a/b/c", &VMConfig::empty());
    let mut vmc = VMsCreator::new(test_config());
    vmc.parents(&vec!["a".to_owned(), "a/b".to_owned()]);
    match vmc.specification_of(&abc) {
        Some(SpecifiedBy::Parent(p)) => assert_eq!(p, "a/b"),
        other => panic!("expected an ancestor-path rank, got {:?}", other),
    }
    let selected = vmc.create(vec![abc], &None).expect("selection");
    assert_eq!(selected[0].folded_name(), "a/b/");

    let abc2 = resolve(&config, "a/b/c", &VMConfig::empty());
    let mut vmc2 = VMsCreator::new(test_config());
    vmc2.parents(&vec!["a/b".to_owned(), "a".to_owned()]);
    match vmc2.specification_of(&abc2) {
        Some(SpecifiedBy::Parent(p)) => assert_eq!(p, "a/b"),
        other => panic!("expected an ancestor-path rank, got {:?}", other),
    }
}

// The working set comes out keyed and ordered by resolved disk path.
#[test]
fn working_set_disk_order() {
    let config = test_config();
    let b = resolve(&config, "b", &VMConfig::empty());
    let a = resolve(&config, "a", &VMConfig::empty());
    let mut vmc = VMsCreator::new(test_config());
    vmc.all();
    let selected = vmc.create(vec![b, a], &None).expect("selection");
    let disks: Vec<String> = selected.iter().map(|v| v.get_disk().clone()).collect();
    assert_eq!(disks, vec!["/vms/a/disk.qcow2".to_owned(), "/vms/b/disk.qcow2".to_owned()]);

    // two candidates backed by the same disk collapse to the later one
    let mut shared1 = VMConfig::empty();
    shared1.disk = Some("/shared/disk.qcow2".to_owned());
    shared1.name = Some("first".to_owned());
    let mut shared2 = VMConfig::empty();
    shared2.disk = Some("/shared/disk.qcow2".to_owned());
    shared2.name = Some("second".to_owned());
    let v1 = resolve(&config, "one", &shared1);
    let v2 = resolve(&config, "two", &shared2);
    let mut vmc2 = VMsCreator::new(test_config());
    vmc2.all();
    let collapsed = vmc2.create(vec![v1, v2], &None).expect("selection");
    assert_eq!(collapsed.len(), 1);
    assert_eq!(collapsed[0].get_name(), "second");
}

// The lifecycle guards: no removing, storing over, or double-starting a
// running VM, and no stopping or ssh-ing where nothing is there.
#[test]
fn lifecycle_guards() {
    let config = test_config();
    let mut vm = resolve(&config, "g", &VMConfig::empty());
    assert!(vm.remove().is_ok());
    assert!(vm.store_disk("/backup.qcow2", false, false).is_ok());
    match vm.stop(false) {
        Err(Error::VMHasNoPid(n)) => assert_eq!(n, "g"),
        other => panic!("expected the no-pid error, got {:?}", other),
    }
    vm.set_pid(9);
    match vm.remove() {
        Err(Error::RemoveRunningVM(n)) => assert_eq!(n, "g"),
        other => panic!("expected the running-vm error, got {:?}", other),
    }
    match vm.store_disk("/backup.qcow2", false, false) {
        Err(Error::StoreRunningVM(n)) => assert_eq!(n, "g"),
        other => panic!("expected the running-vm error, got {:?}", other),
    }
    vm.clear_pid();
    match vm.store_disk("/backup.qcow2", true, false) {
        Err(Error::RewriteExistsPath(p)) => assert_eq!(p, "/backup.qcow2"),
        other => panic!("expected the existing-target error, got {:?}", other),
    }
    assert!(vm.store_disk("/backup.qcow2", true, true).is_ok());
    assert!(vm.get_ssh().is_ok());
}

// The stop state machine: graceful first, a kill once the polls are
// spent, done as soon as the process is gone.
#[test]
fn stop_state_machine() {
    let config = test_config();
    let mut vm = resolve(&config, "s", &VMConfig::empty());
    vm.set_pid(11);
    let (mut state, first) = vm.stop(false).expect("a process is attached");
    assert_eq!(first, StopStep::Powerdown);
    assert_eq!(state.pid, 11);
    assert!(!state.killed);
    let (s2, step2) = stop_next(state, true);
    assert_eq!(step2, StopStep::Sleep);
    assert_eq!(s2.remaining, state.remaining - 1);
    state = s2;
    state.remaining = 0;
    let (s3, step3) = stop_next(state, true);
    assert_eq!(step3, StopStep::Kill);
    assert!(s3.killed);
    let (_, step4) = stop_next(s3, false);
    assert_eq!(step4, StopStep::Done);
    let (_, forced) = vm.stop(true).expect("a process is attached");
    assert_eq!(forced, StopStep::Kill);
}

// The start decisions: the running-VM policy and the bounded SSH wait.
#[test]
fn start_decisions() {
    assert_eq!(
        start_running_step(false, StartRunningAction::Fail, "v").expect("not running"),
        StartStep::Launch
    );
    match start_running_step(true, StartRunningAction::Fail, "v") {
        Err(Error::StartRunningVM(n)) => assert_eq!(n, "v"),
        other => panic!("expected the running-vm error, got {:?}", other),
    }
    assert_eq!(
        start_running_step(true, StartRunningAction::Ignore, "v").expect("ignored"),
        StartStep::Skip
    );
    assert_eq!(
        start_running_step(true, StartRunningAction::Restart, "v").expect("restarted"),
        StartStep::StopThenLaunch
    );
    assert_eq!(wait_ssh_step(5, true), WaitSshAction::Ready);
    assert_eq!(wait_ssh_step(0, false), WaitSshAction::GiveUp);
    assert_eq!(wait_ssh_step(3, false), WaitSshAction::RetryAfterSleep);
}
