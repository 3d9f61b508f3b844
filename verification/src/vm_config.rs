//! The per-VM override record and the layered merge that resolves it.
//!
//! Every field is optional: absence means "inherit from the next layer",
//! presence means "override at this level".  Resolution merges the instance
//! record over its ancestor records, nearest first, and the result over the
//! global defaults.  Scalar fields are first-present-wins; the network and
//! SSH fields merge with their own variant- and field-aware rules.

use vstd::prelude::*;

verus! {

use crate::gui::{clone_opt_gui, ConfigGui, ConfigGuiV};
use crate::merge::opt_first;
use crate::net::{clone_opt_net, net_merged, ConfigNet, ConfigNetV};
use crate::ssh::{ssh_merged, ConfigSsh, ConfigSshV};
use crate::string_like::{clone_opt_sou, StringOrUint, StringOrUintV};
use crate::text::{clone_opt_string, clone_opt_vec_pairs, clone_opt_vec_string};

#[derive(Debug)]
pub struct VMConfig {
    pub cloud_init: Option<bool>,
    pub cloud_init_image: Option<String>,
    pub cpu_model: Option<String>,
    pub data: Option<Vec<(String, String)>>,
    pub disk: Option<String>,
    pub display: Option<String>,
    pub name: Option<String>,
    pub image_name: Option<String>,
    pub memory: Option<String>,
    pub minimum_disk_size: Option<u64>,
    pub nic_model: Option<String>,
    pub nproc: Option<StringOrUint>,
    pub properties: Option<Vec<String>>,
    pub qemu_arch_options: Option<Vec<String>>,
    pub qemu_binary: Option<String>,
    pub qemu_bios: Option<String>,
    pub tags: Option<Vec<String>>,
    pub gui: Option<ConfigGui>,
    pub ssh: Option<ConfigSsh>,
    pub net: Option<ConfigNet>,
}

/// The mathematical model of a `VMConfig`.
pub struct VMConfigV {
    pub cloud_init: Option<bool>,
    pub cloud_init_image: Option<Seq<char>>,
    pub cpu_model: Option<Seq<char>>,
    pub data: Option<Seq<(Seq<char>, Seq<char>)>>,
    pub disk: Option<Seq<char>>,
    pub display: Option<Seq<char>>,
    pub name: Option<Seq<char>>,
    pub image_name: Option<Seq<char>>,
    pub memory: Option<Seq<char>>,
    pub minimum_disk_size: Option<u64>,
    pub nic_model: Option<Seq<char>>,
    pub nproc: Option<StringOrUintV>,
    pub properties: Option<Seq<Seq<char>>>,
    pub qemu_arch_options: Option<Seq<Seq<char>>>,
    pub qemu_binary: Option<Seq<char>>,
    pub qemu_bios: Option<Seq<char>>,
    pub tags: Option<Seq<Seq<char>>>,
    pub gui: Option<ConfigGuiV>,
    pub ssh: Option<ConfigSshV>,
    pub net: Option<ConfigNetV>,
}

impl View for VMConfig {
    type V = VMConfigV;

    open spec fn view(&self) -> VMConfigV {
        VMConfigV {
            cloud_init: self.cloud_init,
            cloud_init_image: self.cloud_init_image.deep_view(),
            cpu_model: self.cpu_model.deep_view(),
            data: self.data.deep_view(),
            disk: self.disk.deep_view(),
            display: self.display.deep_view(),
            name: self.name.deep_view(),
            image_name: self.image_name.deep_view(),
            memory: self.memory.deep_view(),
            minimum_disk_size: self.minimum_disk_size,
            nic_model: self.nic_model.deep_view(),
            nproc: self.nproc.deep_view(),
            properties: self.properties.deep_view(),
            qemu_arch_options: self.qemu_arch_options.deep_view(),
            qemu_binary: self.qemu_binary.deep_view(),
            qemu_bios: self.qemu_bios.deep_view(),
            tags: self.tags.deep_view(),
            gui: self.gui.deep_view(),
            ssh: self.ssh.deep_view(),
            net: self.net.deep_view(),
        }
    }
}

impl DeepView for VMConfig {
    type V = VMConfigV;

    open spec fn deep_view(&self) -> VMConfigV {
        self@
    }
}

/// The merge of the higher-priority network field over the lower one: when
/// both layers carry a network spec the specs merge variant-aware, otherwise
/// the present one is kept.
pub open spec fn net_field_merged(
    high: Option<ConfigNetV>,
    low: Option<ConfigNetV>,
) -> Option<ConfigNetV> {
    match (high, low) {
        (Some(h), Some(l)) => Some(net_merged(h, l)),
        _ => opt_first(high, low),
    }
}

/// The merge of the higher-priority SSH field over the lower one: when both
/// layers carry an SSH spec the specs merge field by field, otherwise the
/// present one is kept.
pub open spec fn ssh_field_merged(
    high: Option<ConfigSshV>,
    low: Option<ConfigSshV>,
) -> Option<ConfigSshV> {
    match (high, low) {
        (Some(h), Some(l)) => Some(ssh_merged(h, l)),
        _ => opt_first(high, low),
    }
}

/// The merge of a higher-priority record over a lower-priority one: every
/// scalar field is first-present-wins; the network and SSH fields merge with
/// their own rules.
pub open spec fn config_merged(high: VMConfigV, low: VMConfigV) -> VMConfigV {
    VMConfigV {
        cloud_init: opt_first(high.cloud_init, low.cloud_init),
        cloud_init_image: opt_first(high.cloud_init_image, low.cloud_init_image),
        cpu_model: opt_first(high.cpu_model, low.cpu_model),
        data: opt_first(high.data, low.data),
        disk: opt_first(high.disk, low.disk),
        display: opt_first(high.display, low.display),
        name: opt_first(high.name, low.name),
        image_name: opt_first(high.image_name, low.image_name),
        memory: opt_first(high.memory, low.memory),
        minimum_disk_size: opt_first(high.minimum_disk_size, low.minimum_disk_size),
        nic_model: opt_first(high.nic_model, low.nic_model),
        nproc: opt_first(high.nproc, low.nproc),
        properties: opt_first(high.properties, low.properties),
        qemu_arch_options: opt_first(high.qemu_arch_options, low.qemu_arch_options),
        qemu_binary: opt_first(high.qemu_binary, low.qemu_binary),
        qemu_bios: opt_first(high.qemu_bios, low.qemu_bios),
        tags: opt_first(high.tags, low.tags),
        gui: opt_first(high.gui, low.gui),
        ssh: ssh_field_merged(high.ssh, low.ssh),
        net: net_field_merged(high.net, low.net),
    }
}

/// The record resolved against a chain of ancestor records, nearest first.
pub open spec fn resolve_chain(instance: VMConfigV, ancestors: Seq<VMConfigV>) -> VMConfigV
    decreases ancestors.len(),
{
    if ancestors.len() == 0 {
        instance
    } else {
        resolve_chain(config_merged(instance, ancestors[0]), ancestors.drop_first())
    }
}

/// The text of the minimal record: a templated name, disk and data map.
pub open spec fn minimal_config_text() -> Seq<char> {
    "\n        name = \"{{name}}\"\n        disk = \"{{disk}}\"\n        [data]\n        net = \"{{net}}\"\n        "@
}

/// The minimal record, as template text for the record override.
pub fn minimal_config_string() -> (r: String)
    ensures
        r@ == minimal_config_text(),
{
    "\n        name = \"{{name}}\"\n        disk = \"{{disk}}\"\n        [data]\n        net = \"{{net}}\"\n        ".to_owned()
}

impl VMConfig {
    /// A record with every field left to inherit.
    pub fn empty() -> (r: VMConfig)
        ensures
            r@.cloud_init is None,
            r@.cloud_init_image is None,
            r@.cpu_model is None,
            r@.data is None,
            r@.disk is None,
            r@.display is None,
            r@.name is None,
            r@.image_name is None,
            r@.memory is None,
            r@.minimum_disk_size is None,
            r@.nic_model is None,
            r@.nproc is None,
            r@.properties is None,
            r@.qemu_arch_options is None,
            r@.qemu_binary is None,
            r@.qemu_bios is None,
            r@.tags is None,
            r@.gui is None,
            r@.ssh is None,
            r@.net is None,
    {
        VMConfig {
            cloud_init: None,
            cloud_init_image: None,
            cpu_model: None,
            data: None,
            disk: None,
            display: None,
            name: None,
            image_name: None,
            memory: None,
            minimum_disk_size: None,
            nic_model: None,
            nproc: None,
            properties: None,
            qemu_arch_options: None,
            qemu_binary: None,
            qemu_bios: None,
            tags: None,
            gui: None,
            ssh: None,
            net: None,
        }
    }

    /// Fills every absent field of `self` from `other`, the next lower
    /// layer.  The network and SSH fields merge with their own rules.
    pub fn update(&mut self, other: &Self)
        ensures
            final(self)@ == config_merged(old(self)@, other@),
    {
        let ssh = match (&self.ssh, &other.ssh) {
            (Some(h), Some(l)) => Some(h.updated(l)),
            (Some(h), None) => Some(h.clone()),
            (None, Some(l)) => Some(l.clone()),
            (None, None) => None,
        };
        let net = match (&self.net, &other.net) {
            (Some(h), Some(l)) => Some(h.updated(l)),
            (Some(h), None) => Some(h.clone()),
            (None, l) => clone_opt_net(l),
        };
        let merged = VMConfig {
            cloud_init: if self.cloud_init.is_some() {
                self.cloud_init
            } else {
                other.cloud_init
            },
            cloud_init_image: if self.cloud_init_image.is_some() {
                clone_opt_string(&self.cloud_init_image)
            } else {
                clone_opt_string(&other.cloud_init_image)
            },
            cpu_model: if self.cpu_model.is_some() {
                clone_opt_string(&self.cpu_model)
            } else {
                clone_opt_string(&other.cpu_model)
            },
            data: if self.data.is_some() {
                clone_opt_vec_pairs(&self.data)
            } else {
                clone_opt_vec_pairs(&other.data)
            },
            disk: if self.disk.is_some() {
                clone_opt_string(&self.disk)
            } else {
                clone_opt_string(&other.disk)
            },
            display: if self.display.is_some() {
                clone_opt_string(&self.display)
            } else {
                clone_opt_string(&other.display)
            },
            name: if self.name.is_some() {
                clone_opt_string(&self.name)
            } else {
                clone_opt_string(&other.name)
            },
            image_name: if self.image_name.is_some() {
                clone_opt_string(&self.image_name)
            } else {
                clone_opt_string(&other.image_name)
            },
            memory: if self.memory.is_some() {
                clone_opt_string(&self.memory)
            } else {
                clone_opt_string(&other.memory)
            },
            minimum_disk_size: if self.minimum_disk_size.is_some() {
                self.minimum_disk_size
            } else {
                other.minimum_disk_size
            },
            nic_model: if self.nic_model.is_some() {
                clone_opt_string(&self.nic_model)
            } else {
                clone_opt_string(&other.nic_model)
            },
            nproc: if self.nproc.is_some() {
                clone_opt_sou(&self.nproc)
            } else {
                clone_opt_sou(&other.nproc)
            },
            properties: if self.properties.is_some() {
                clone_opt_vec_string(&self.properties)
            } else {
                clone_opt_vec_string(&other.properties)
            },
            qemu_arch_options: if self.qemu_arch_options.is_some() {
                clone_opt_vec_string(&self.qemu_arch_options)
            } else {
                clone_opt_vec_string(&other.qemu_arch_options)
            },
            qemu_binary: if self.qemu_binary.is_some() {
                clone_opt_string(&self.qemu_binary)
            } else {
                clone_opt_string(&other.qemu_binary)
            },
            qemu_bios: if self.qemu_bios.is_some() {
                clone_opt_string(&self.qemu_bios)
            } else {
                clone_opt_string(&other.qemu_bios)
            },
            tags: if self.tags.is_some() {
                clone_opt_vec_string(&self.tags)
            } else {
                clone_opt_vec_string(&other.tags)
            },
            gui: if self.gui.is_some() {
                clone_opt_gui(&self.gui)
            } else {
                clone_opt_gui(&other.gui)
            },
            ssh,
            net,
        };
        *self = merged;
    }

    /// Resolves the record against its ancestor records, nearest first.
    pub fn resolved(self, ancestors: &Vec<VMConfig>) -> (r: VMConfig)
        ensures
            r@ == resolve_chain(self@, ancestors.deep_view()),
    {
        let ghost orig = self@;
        let mut r = self;
        let mut i: usize = 0;
        proof {
            assert(ancestors.deep_view().skip(0) =~= ancestors.deep_view());
        }
        while i < ancestors.len()
            invariant
                0 <= i <= ancestors.len(),
                resolve_chain(r@, ancestors.deep_view().skip(i as int)) == resolve_chain(
                    orig,
                    ancestors.deep_view(),
                ),
            decreases ancestors.len() - i,
        {
            r.update(&ancestors[i]);
            proof {
                assert(ancestors.deep_view().skip(i as int).drop_first() =~= ancestors.deep_view()
                    .skip(i + 1));
                assert(ancestors.deep_view().skip(i as int)[0] == ancestors.deep_view()[i as int]);
            }
            i += 1;
        }
        proof {
            assert(ancestors.deep_view().skip(ancestors.len() as int)
                =~= Seq::<VMConfigV>::empty());
        }
        r
    }
}

/// Merging a record with itself changes nothing: a record resolved against
/// itself as its sole ancestor equals the record alone.
pub proof fn lemma_config_merged_idem(c: VMConfigV)
    ensures
        config_merged(c, c) == c,
{
    if c.net is Some {
        crate::net::lemma_net_merged_idem(c.net->Some_0);
    }
    if c.ssh is Some {
        crate::ssh::lemma_ssh_merged_idem(c.ssh->Some_0);
    }
}

/// The layers a resolution walks: the instance record first, then the
/// ancestors from nearest to farthest.
pub open spec fn layers(instance: VMConfigV, ancestors: Seq<VMConfigV>) -> Seq<VMConfigV> {
    seq![instance] + ancestors
}

/// First-present-wins, generically: any field projection that merges by
/// `opt_first` resolves to the value of the nearest layer where it is
/// present.
pub proof fn lemma_chain_first_present<T>(
    instance: VMConfigV,
    ancestors: Seq<VMConfigV>,
    proj: spec_fn(VMConfigV) -> Option<T>,
    k: int,
)
    requires
        forall|h: VMConfigV, l: VMConfigV|
            #[trigger] proj(config_merged(h, l)) == opt_first(proj(h), proj(l)),
        0 <= k < layers(instance, ancestors).len(),
        proj(layers(instance, ancestors)[k]) is Some,
        forall|j: int| 0 <= j < k ==> proj(#[trigger] layers(instance, ancestors)[j]) is None,
    ensures
        proj(resolve_chain(instance, ancestors)) == proj(layers(instance, ancestors)[k]),
    decreases ancestors.len(),
{
    if ancestors.len() == 0 {
        assert(layers(instance, ancestors)[0] == instance);
    } else {
        let merged = config_merged(instance, ancestors[0]);
        let rest = ancestors.drop_first();
        assert(layers(instance, ancestors)[0] == instance);
        assert(layers(instance, ancestors)[1] == ancestors[0]);
        if k == 0 {
            assert(proj(merged) == opt_first(proj(instance), proj(ancestors[0])));
            lemma_chain_first_present(merged, rest, proj, 0);
            assert(layers(merged, rest)[0] == merged);
        } else if k == 1 {
            assert(proj(instance) is None);
            assert(proj(merged) == proj(ancestors[0]));
            lemma_chain_first_present(merged, rest, proj, 0);
            assert(layers(merged, rest)[0] == merged);
        } else {
            assert(proj(instance) is None);
            assert(proj(ancestors[0]) is None);
            assert(proj(merged) is None);
            assert forall|j: int| 0 <= j < k - 1 implies proj(
                #[trigger] layers(merged, rest)[j],
            ) is None by {
                if j == 0 {
                } else {
                    assert(layers(merged, rest)[j] == rest[j - 1]);
                    assert(rest[j - 1] == ancestors[j]);
                    assert(layers(instance, ancestors)[j + 1] == ancestors[j]);
                }
            }
            assert(layers(merged, rest)[k - 1] == rest[k - 2]);
            assert(rest[k - 2] == ancestors[k - 1]);
            assert(layers(instance, ancestors)[k] == ancestors[k - 1]);
            lemma_chain_first_present(merged, rest, proj, k - 1);
        }
    }
}

/// First-present-wins for the memory field: the resolved memory is the
/// nearest present one.
pub proof fn lemma_memory_first_present(instance: VMConfigV, ancestors: Seq<VMConfigV>, k: int)
    requires
        0 <= k < layers(instance, ancestors).len(),
        layers(instance, ancestors)[k].memory is Some,
        forall|j: int| 0 <= j < k ==> (#[trigger] layers(instance, ancestors)[j]).memory is None,
    ensures
        resolve_chain(instance, ancestors).memory == layers(instance, ancestors)[k].memory,
{
    let proj = |v: VMConfigV| v.memory;
    assert forall|h: VMConfigV, l: VMConfigV|
        #[trigger] proj(config_merged(h, l)) == opt_first(proj(h), proj(l)) by {}
    lemma_chain_first_present(instance, ancestors, proj, k);
}


/// First-present-wins for the `cloud_init` field: the resolved value is the
/// nearest present one.
pub proof fn lemma_cloud_init_first_present(instance: VMConfigV, ancestors: Seq<VMConfigV>, k: int)
    requires
        0 <= k < layers(instance, ancestors).len(),
        layers(instance, ancestors)[k].cloud_init is Some,
        forall|j: int| 0 <= j < k ==> (#[trigger] layers(instance, ancestors)[j]).cloud_init is None,
    ensures
        resolve_chain(instance, ancestors).cloud_init == layers(instance, ancestors)[k].cloud_init,
{
    let proj = |v: VMConfigV| v.cloud_init;
    assert forall|h: VMConfigV, l: VMConfigV|
        #[trigger] proj(config_merged(h, l)) == opt_first(proj(h), proj(l)) by {}
    lemma_chain_first_present(instance, ancestors, proj, k);
}

/// First-present-wins for the `cloud_init_image` field: the resolved value is the
/// nearest present one.
pub proof fn lemma_cloud_init_image_first_present(instance: VMConfigV, ancestors: Seq<VMConfigV>, k: int)
    requires
        0 <= k < layers(instance, ancestors).len(),
        layers(instance, ancestors)[k].cloud_init_image is Some,
        forall|j: int| 0 <= j < k ==> (#[trigger] layers(instance, ancestors)[j]).cloud_init_image is None,
    ensures
        resolve_chain(instance, ancestors).cloud_init_image == layers(instance, ancestors)[k].cloud_init_image,
{
    let proj = |v: VMConfigV| v.cloud_init_image;
    assert forall|h: VMConfigV, l: VMConfigV|
        #[trigger] proj(config_merged(h, l)) == opt_first(proj(h), proj(l)) by {}
    lemma_chain_first_present(instance, ancestors, proj, k);
}

/// First-present-wins for the `cpu_model` field: the resolved value is the
/// nearest present one.
pub proof fn lemma_cpu_model_first_present(instance: VMConfigV, ancestors: Seq<VMConfigV>, k: int)
    requires
        0 <= k < layers(instance, ancestors).len(),
        layers(instance, ancestors)[k].cpu_model is Some,
        forall|j: int| 0 <= j < k ==> (#[trigger] layers(instance, ancestors)[j]).cpu_model is None,
    ensures
        resolve_chain(instance, ancestors).cpu_model == layers(instance, ancestors)[k].cpu_model,
{
    let proj = |v: VMConfigV| v.cpu_model;
    assert forall|h: VMConfigV, l: VMConfigV|
        #[trigger] proj(config_merged(h, l)) == opt_first(proj(h), proj(l)) by {}
    lemma_chain_first_present(instance, ancestors, proj, k);
}

/// First-present-wins for the `data` field: the resolved value is the
/// nearest present one.
pub proof fn lemma_data_first_present(instance: VMConfigV, ancestors: Seq<VMConfigV>, k: int)
    requires
        0 <= k < layers(instance, ancestors).len(),
        layers(instance, ancestors)[k].data is Some,
        forall|j: int| 0 <= j < k ==> (#[trigger] layers(instance, ancestors)[j]).data is None,
    ensures
        resolve_chain(instance, ancestors).data == layers(instance, ancestors)[k].data,
{
    let proj = |v: VMConfigV| v.data;
    assert forall|h: VMConfigV, l: VMConfigV|
        #[trigger] proj(config_merged(h, l)) == opt_first(proj(h), proj(l)) by {}
    lemma_chain_first_present(instance, ancestors, proj, k);
}

/// First-present-wins for the `disk` field: the resolved value is the
/// nearest present one.
pub proof fn lemma_disk_first_present(instance: VMConfigV, ancestors: Seq<VMConfigV>, k: int)
    requires
        0 <= k < layers(instance, ancestors).len(),
        layers(instance, ancestors)[k].disk is Some,
        forall|j: int| 0 <= j < k ==> (#[trigger] layers(instance, ancestors)[j]).disk is None,
    ensures
        resolve_chain(instance, ancestors).disk == layers(instance, ancestors)[k].disk,
{
    let proj = |v: VMConfigV| v.disk;
    assert forall|h: VMConfigV, l: VMConfigV|
        #[trigger] proj(config_merged(h, l)) == opt_first(proj(h), proj(l)) by {}
    lemma_chain_first_present(instance, ancestors, proj, k);
}

/// First-present-wins for the `display` field: the resolved value is the
/// nearest present one.
pub proof fn lemma_display_first_present(instance: VMConfigV, ancestors: Seq<VMConfigV>, k: int)
    requires
        0 <= k < layers(instance, ancestors).len(),
        layers(instance, ancestors)[k].display is Some,
        forall|j: int| 0 <= j < k ==> (#[trigger] layers(instance, ancestors)[j]).display is None,
    ensures
        resolve_chain(instance, ancestors).display == layers(instance, ancestors)[k].display,
{
    let proj = |v: VMConfigV| v.display;
    assert forall|h: VMConfigV, l: VMConfigV|
        #[trigger] proj(config_merged(h, l)) == opt_first(proj(h), proj(l)) by {}
    lemma_chain_first_present(instance, ancestors, proj, k);
}

/// First-present-wins for the `name` field: the resolved value is the
/// nearest present one.
pub proof fn lemma_name_first_present(instance: VMConfigV, ancestors: Seq<VMConfigV>, k: int)
    requires
        0 <= k < layers(instance, ancestors).len(),
        layers(instance, ancestors)[k].name is Some,
        forall|j: int| 0 <= j < k ==> (#[trigger] layers(instance, ancestors)[j]).name is None,
    ensures
        resolve_chain(instance, ancestors).name == layers(instance, ancestors)[k].name,
{
    let proj = |v: VMConfigV| v.name;
    assert forall|h: VMConfigV, l: VMConfigV|
        #[trigger] proj(config_merged(h, l)) == opt_first(proj(h), proj(l)) by {}
    lemma_chain_first_present(instance, ancestors, proj, k);
}

/// First-present-wins for the `image_name` field: the resolved value is the
/// nearest present one.
pub proof fn lemma_image_name_first_present(instance: VMConfigV, ancestors: Seq<VMConfigV>, k: int)
    requires
        0 <= k < layers(instance, ancestors).len(),
        layers(instance, ancestors)[k].image_name is Some,
        forall|j: int| 0 <= j < k ==> (#[trigger] layers(instance, ancestors)[j]).image_name is None,
    ensures
        resolve_chain(instance, ancestors).image_name == layers(instance, ancestors)[k].image_name,
{
    let proj = |v: VMConfigV| v.image_name;
    assert forall|h: VMConfigV, l: VMConfigV|
        #[trigger] proj(config_merged(h, l)) == opt_first(proj(h), proj(l)) by {}
    lemma_chain_first_present(instance, ancestors, proj, k);
}

/// First-present-wins for the `minimum_disk_size` field: the resolved value is the
/// nearest present one.
pub proof fn lemma_minimum_disk_size_first_present(instance: VMConfigV, ancestors: Seq<VMConfigV>, k: int)
    requires
        0 <= k < layers(instance, ancestors).len(),
        layers(instance, ancestors)[k].minimum_disk_size is Some,
        forall|j: int| 0 <= j < k ==> (#[trigger] layers(instance, ancestors)[j]).minimum_disk_size is None,
    ensures
        resolve_chain(instance, ancestors).minimum_disk_size == layers(instance, ancestors)[k].minimum_disk_size,
{
    let proj = |v: VMConfigV| v.minimum_disk_size;
    assert forall|h: VMConfigV, l: VMConfigV|
        #[trigger] proj(config_merged(h, l)) == opt_first(proj(h), proj(l)) by {}
    lemma_chain_first_present(instance, ancestors, proj, k);
}

/// First-present-wins for the `nic_model` field: the resolved value is the
/// nearest present one.
pub proof fn lemma_nic_model_first_present(instance: VMConfigV, ancestors: Seq<VMConfigV>, k: int)
    requires
        0 <= k < layers(instance, ancestors).len(),
        layers(instance, ancestors)[k].nic_model is Some,
        forall|j: int| 0 <= j < k ==> (#[trigger] layers(instance, ancestors)[j]).nic_model is None,
    ensures
        resolve_chain(instance, ancestors).nic_model == layers(instance, ancestors)[k].nic_model,
{
    let proj = |v: VMConfigV| v.nic_model;
    assert forall|h: VMConfigV, l: VMConfigV|
        #[trigger] proj(config_merged(h, l)) == opt_first(proj(h), proj(l)) by {}
    lemma_chain_first_present(instance, ancestors, proj, k);
}

/// First-present-wins for the `nproc` field: the resolved value is the
/// nearest present one.
pub proof fn lemma_nproc_first_present(instance: VMConfigV, ancestors: Seq<VMConfigV>, k: int)
    requires
        0 <= k < layers(instance, ancestors).len(),
        layers(instance, ancestors)[k].nproc is Some,
        forall|j: int| 0 <= j < k ==> (#[trigger] layers(instance, ancestors)[j]).nproc is None,
    ensures
        resolve_chain(instance, ancestors).nproc == layers(instance, ancestors)[k].nproc,
{
    let proj = |v: VMConfigV| v.nproc;
    assert forall|h: VMConfigV, l: VMConfigV|
        #[trigger] proj(config_merged(h, l)) == opt_first(proj(h), proj(l)) by {}
    lemma_chain_first_present(instance, ancestors, proj, k);
}

/// First-present-wins for the `properties` field: the resolved value is the
/// nearest present one.
pub proof fn lemma_properties_first_present(instance: VMConfigV, ancestors: Seq<VMConfigV>, k: int)
    requires
        0 <= k < layers(instance, ancestors).len(),
        layers(instance, ancestors)[k].properties is Some,
        forall|j: int| 0 <= j < k ==> (#[trigger] layers(instance, ancestors)[j]).properties is None,
    ensures
        resolve_chain(instance, ancestors).properties == layers(instance, ancestors)[k].properties,
{
    let proj = |v: VMConfigV| v.properties;
    assert forall|h: VMConfigV, l: VMConfigV|
        #[trigger] proj(config_merged(h, l)) == opt_first(proj(h), proj(l)) by {}
    lemma_chain_first_present(instance, ancestors, proj, k);
}

/// First-present-wins for the `qemu_arch_options` field: the resolved value is the
/// nearest present one.
pub proof fn lemma_qemu_arch_options_first_present(instance: VMConfigV, ancestors: Seq<VMConfigV>, k: int)
    requires
        0 <= k < layers(instance, ancestors).len(),
        layers(instance, ancestors)[k].qemu_arch_options is Some,
        forall|j: int| 0 <= j < k ==> (#[trigger] layers(instance, ancestors)[j]).qemu_arch_options is None,
    ensures
        resolve_chain(instance, ancestors).qemu_arch_options == layers(instance, ancestors)[k].qemu_arch_options,
{
    let proj = |v: VMConfigV| v.qemu_arch_options;
    assert forall|h: VMConfigV, l: VMConfigV|
        #[trigger] proj(config_merged(h, l)) == opt_first(proj(h), proj(l)) by {}
    lemma_chain_first_present(instance, ancestors, proj, k);
}

/// First-present-wins for the `qemu_binary` field: the resolved value is the
/// nearest present one.
pub proof fn lemma_qemu_binary_first_present(instance: VMConfigV, ancestors: Seq<VMConfigV>, k: int)
    requires
        0 <= k < layers(instance, ancestors).len(),
        layers(instance, ancestors)[k].qemu_binary is Some,
        forall|j: int| 0 <= j < k ==> (#[trigger] layers(instance, ancestors)[j]).qemu_binary is None,
    ensures
        resolve_chain(instance, ancestors).qemu_binary == layers(instance, ancestors)[k].qemu_binary,
{
    let proj = |v: VMConfigV| v.qemu_binary;
    assert forall|h: VMConfigV, l: VMConfigV|
        #[trigger] proj(config_merged(h, l)) == opt_first(proj(h), proj(l)) by {}
    lemma_chain_first_present(instance, ancestors, proj, k);
}

/// First-present-wins for the `qemu_bios` field: the resolved value is the
/// nearest present one.
pub proof fn lemma_qemu_bios_first_present(instance: VMConfigV, ancestors: Seq<VMConfigV>, k: int)
    requires
        0 <= k < layers(instance, ancestors).len(),
        layers(instance, ancestors)[k].qemu_bios is Some,
        forall|j: int| 0 <= j < k ==> (#[trigger] layers(instance, ancestors)[j]).qemu_bios is None,
    ensures
        resolve_chain(instance, ancestors).qemu_bios == layers(instance, ancestors)[k].qemu_bios,
{
    let proj = |v: VMConfigV| v.qemu_bios;
    assert forall|h: VMConfigV, l: VMConfigV|
        #[trigger] proj(config_merged(h, l)) == opt_first(proj(h), proj(l)) by {}
    lemma_chain_first_present(instance, ancestors, proj, k);
}

/// First-present-wins for the `tags` field: the resolved value is the
/// nearest present one.
pub proof fn lemma_tags_first_present(instance: VMConfigV, ancestors: Seq<VMConfigV>, k: int)
    requires
        0 <= k < layers(instance, ancestors).len(),
        layers(instance, ancestors)[k].tags is Some,
        forall|j: int| 0 <= j < k ==> (#[trigger] layers(instance, ancestors)[j]).tags is None,
    ensures
        resolve_chain(instance, ancestors).tags == layers(instance, ancestors)[k].tags,
{
    let proj = |v: VMConfigV| v.tags;
    assert forall|h: VMConfigV, l: VMConfigV|
        #[trigger] proj(config_merged(h, l)) == opt_first(proj(h), proj(l)) by {}
    lemma_chain_first_present(instance, ancestors, proj, k);
}

/// First-present-wins for the `gui` field: the resolved value is the
/// nearest present one.
pub proof fn lemma_gui_first_present(instance: VMConfigV, ancestors: Seq<VMConfigV>, k: int)
    requires
        0 <= k < layers(instance, ancestors).len(),
        layers(instance, ancestors)[k].gui is Some,
        forall|j: int| 0 <= j < k ==> (#[trigger] layers(instance, ancestors)[j]).gui is None,
    ensures
        resolve_chain(instance, ancestors).gui == layers(instance, ancestors)[k].gui,
{
    let proj = |v: VMConfigV| v.gui;
    assert forall|h: VMConfigV, l: VMConfigV|
        #[trigger] proj(config_merged(h, l)) == opt_first(proj(h), proj(l)) by {}
    lemma_chain_first_present(instance, ancestors, proj, k);
}

} // verus!
