//! Building the working set of VMs for one invocation: matching candidates
//! against the selection criteria, ranking how each was addressed, keying
//! the set by backing disk, cross-referencing live processes by the files
//! they hold open, and applying the requested process policy.

use vstd::prelude::*;

verus! {

use crate::config::Config;
use crate::errors::Error;
use crate::specified_by::{specificity_cmp, SpecifiedBy, SpecifiedByV};
use crate::text::{
    clone_vec_string, contains_str, seq_has_str, split_seq, starts_with_seq, str_eq, str_lt,
    str_starts_with, trim_trailing, trim_char_end,
};
use crate::vm::{path_has_parent, VM, VMV};
use vstd::string::StringExecFns;

/// What the process cross-reference does to the selected set.
#[derive(Debug)]
pub enum WithPid {
    Attach,
    Error,
    Filter,
    Without,
}

impl Clone for WithPid {
    fn clone(&self) -> (r: Self)
        ensures
            r == *self,
    {
        match self {
            WithPid::Attach => WithPid::Attach,
            WithPid::Error => WithPid::Error,
            WithPid::Filter => WithPid::Filter,
            WithPid::Without => WithPid::Without,
        }
    }
}

/// One live process as the caller read it from the process tables: its id,
/// its executable's file name, and the paths its open descriptors point to.
#[derive(Debug)]
pub struct ProcessInfo {
    pub pid: i32,
    pub exe_name: String,
    pub fd_paths: Vec<String>,
}

/// The mathematical model of a `ProcessInfo`.
pub struct ProcessInfoV {
    pub pid: i32,
    pub exe_name: Seq<char>,
    pub fd_paths: Seq<Seq<char>>,
}

impl View for ProcessInfo {
    type V = ProcessInfoV;

    open spec fn view(&self) -> ProcessInfoV {
        ProcessInfoV {
            pid: self.pid,
            exe_name: self.exe_name@,
            fd_paths: self.fd_paths.deep_view(),
        }
    }
}

impl DeepView for ProcessInfo {
    type V = ProcessInfoV;

    open spec fn deep_view(&self) -> ProcessInfoV {
        self@
    }
}

/// The selection criteria of one invocation.
#[derive(Debug)]
pub struct VMsCreator {
    pub config: Config,
    pub all: bool,
    pub error_on_empty: bool,
    pub names: Vec<String>,
    pub parents: Vec<String>,
    pub tags: Vec<String>,
    pub vm_config: Option<String>,
    pub with_pid: Option<WithPid>,
}

/// The mathematical model of a `VMsCreator`'s criteria.
pub struct VMsCreatorV {
    pub all: bool,
    pub error_on_empty: bool,
    pub names: Seq<Seq<char>>,
    pub parents: Seq<Seq<char>>,
    pub tags: Seq<Seq<char>>,
    pub vm_config: Option<Seq<char>>,
    pub with_pid: Option<WithPid>,
}

impl View for VMsCreator {
    type V = VMsCreatorV;

    open spec fn view(&self) -> VMsCreatorV {
        VMsCreatorV {
            all: self.all,
            error_on_empty: self.error_on_empty,
            names: self.names.deep_view(),
            parents: self.parents.deep_view(),
            tags: self.tags.deep_view(),
            vm_config: self.vm_config.deep_view(),
            with_pid: match &self.with_pid {
                Some(w) => Some(match w {
                    WithPid::Attach => WithPid::Attach,
                    WithPid::Error => WithPid::Error,
                    WithPid::Filter => WithPid::Filter,
                    WithPid::Without => WithPid::Without,
                }),
                None => None,
            },
        }
    }
}

/// The longest ancestor path of the list that is a prefix of the name:
/// among the matching entries the one whose trimmed form has the most
/// characters, the earliest of them on a tie.
pub open spec fn longest_matching_parent(
    parents: Seq<Seq<char>>,
    names: Seq<Seq<char>>,
) -> Option<Seq<char>>
    decreases parents.len(),
{
    if parents.len() == 0 {
        None
    } else {
        let rest = longest_matching_parent(parents.drop_last(), names);
        if !path_has_parent(names, parents.last()) {
            rest
        } else {
            match rest {
                None => Some(parents.last()),
                Some(p) => if trim_trailing(parents.last(), '/').len() > trim_trailing(
                    p,
                    '/',
                ).len() {
                    Some(parents.last())
                } else {
                    Some(p)
                },
            }
        }
    }
}

/// How a VM matches the criteria, ranked: an explicit name outranks an
/// ancestor path, which outranks a tag, which outranks the catch-all; a
/// matching ancestor path carries the longest matching prefix; a VM
/// matching nothing yields no rank.
pub open spec fn match_rank(c: VMsCreatorV, v: VMV) -> Option<SpecifiedByV> {
    if seq_has_str(c.names, v.name) {
        Some(SpecifiedByV::Name)
    } else {
        match longest_matching_parent(c.parents, v.names) {
            Some(p) => Some(SpecifiedByV::Parent(trim_trailing(p, '/'))),
            None => if exists|i: int|
                0 <= i < c.tags.len() && seq_has_str(v.tags, #[trigger] c.tags[i]) {
                Some(SpecifiedByV::Tag)
            } else if c.all {
                Some(SpecifiedByV::All)
            } else {
                None
            },
        }
    }
}

/// The VM with its specificity raised to the given rank when that rank is
/// strictly higher.
pub open spec fn specified_as(v: VMV, rank: SpecifiedByV) -> VMV {
    VMV {
        specified_by: if specificity_cmp(v.specified_by, rank) is Less {
            rank
        } else {
            v.specified_by
        },
        ..v
    }
}

/// The set with one VM written under its backing disk, the set kept in
/// ascending disk order: an existing entry of the same disk is replaced,
/// a new disk takes its ordered place.
pub open spec fn upsert_by_disk(s: Seq<VMV>, v: VMV) -> Seq<VMV>
    decreases s.len(),
{
    if s.len() == 0 {
        seq![v]
    } else if str_lt(s[0].disk, v.disk) {
        seq![s[0]] + upsert_by_disk(s.drop_first(), v)
    } else if s[0].disk == v.disk {
        seq![v] + s.drop_first()
    } else {
        seq![v] + s
    }
}

/// Whether the set's backing disks are strictly ascending (so also unique).
pub open spec fn disks_sorted(s: Seq<VMV>) -> bool {
    crate::merge::sorted_by(s, |v: VMV| v.disk)
}

/// Every entry of an upsert is the written VM or one of the old entries.
proof fn lemma_upsert_member(s: Seq<VMV>, v: VMV)
    ensures
        forall|i: int|
            0 <= i < upsert_by_disk(s, v).len() ==> (#[trigger] upsert_by_disk(s, v)[i] == v
                || s.contains(upsert_by_disk(s, v)[i])),
    decreases s.len(),
{
    let res = upsert_by_disk(s, v);
    if s.len() == 0 {
    } else if str_lt(s[0].disk, v.disk) {
        let tail = s.drop_first();
        assert(tail.len() == s.len() - 1);
        lemma_upsert_member(tail, v);
        assert forall|i: int| 0 <= i < res.len() implies (#[trigger] res[i] == v || s.contains(
            res[i],
        )) by {
            if i == 0 {
                assert(res[0] == s[0]);
                assert(s.contains(s[0]));
            } else {
                assert(res[i] == upsert_by_disk(tail, v)[i - 1]);
                if upsert_by_disk(tail, v)[i - 1] != v {
                    assert(tail.contains(upsert_by_disk(tail, v)[i - 1]));
                    let j = choose|j: int|
                        0 <= j < tail.len() && tail[j] == upsert_by_disk(tail, v)[i - 1];
                    assert(tail[j] == s[j + 1]);
                    assert(s.contains(s[j + 1]));
                }
            }
        }
    } else if s[0].disk == v.disk {
        let tail = s.drop_first();
        assert(tail.len() == s.len() - 1);
        assert forall|i: int| 0 <= i < res.len() implies (#[trigger] res[i] == v || s.contains(
            res[i],
        )) by {
            if i > 0 {
                assert(res[i] == tail[i - 1]);
                assert(tail[i - 1] == s[i]);
                assert(s.contains(s[i]));
            }
        }
    } else {
        assert forall|i: int| 0 <= i < res.len() implies (#[trigger] res[i] == v || s.contains(
            res[i],
        )) by {
            if i > 0 {
                assert(res[i] == s[i - 1]);
                assert(s.contains(s[i - 1]));
            }
        }
    }
}

/// An upsert keeps the set's disks strictly ascending.
proof fn lemma_upsert_sorted(s: Seq<VMV>, v: VMV)
    requires
        disks_sorted(s),
    ensures
        disks_sorted(upsert_by_disk(s, v)),
    decreases s.len(),
{
    let key = |vm: VMV| vm.disk;
    let res = upsert_by_disk(s, v);
    if s.len() == 0 {
    } else {
        let tail = s.drop_first();
        assert(tail.len() == s.len() - 1);
        assert forall|i: int, j: int| 0 <= i < j < tail.len() implies str_lt(
            key(#[trigger] tail[i]),
            key(#[trigger] tail[j]),
        ) by {
            assert(tail[i] == s[i + 1]);
            assert(tail[j] == s[j + 1]);
        }
        if str_lt(s[0].disk, v.disk) {
            lemma_upsert_sorted(tail, v);
            lemma_upsert_member(tail, v);
            assert forall|i: int, j: int| 0 <= i < j < res.len() implies str_lt(
                key(#[trigger] res[i]),
                key(#[trigger] res[j]),
            ) by {
                if i == 0 {
                    assert(res[0] == s[0]);
                    assert(res[j] == upsert_by_disk(tail, v)[j - 1]);
                    if upsert_by_disk(tail, v)[j - 1] == v {
                    } else {
                        assert(tail.contains(upsert_by_disk(tail, v)[j - 1]));
                        let k = choose|k: int|
                            0 <= k < tail.len() && tail[k] == upsert_by_disk(tail, v)[j - 1];
                        assert(tail[k] == s[k + 1]);
                    }
                } else {
                    assert(res[i] == upsert_by_disk(tail, v)[i - 1]);
                    assert(res[j] == upsert_by_disk(tail, v)[j - 1]);
                }
            }
        } else if s[0].disk == v.disk {
            assert forall|i: int, j: int| 0 <= i < j < res.len() implies str_lt(
                key(#[trigger] res[i]),
                key(#[trigger] res[j]),
            ) by {
                if i == 0 {
                    assert(res[0] == v);
                    assert(res[j] == tail[j - 1]);
                    assert(tail[j - 1] == s[j]);
                } else {
                    assert(res[i] == tail[i - 1]);
                    assert(res[j] == tail[j - 1]);
                    assert(tail[i - 1] == s[i]);
                    assert(tail[j - 1] == s[j]);
                }
            }
        } else {
            crate::text::lemma_str_cmp_total(s[0].disk, v.disk);
            assert(str_lt(v.disk, s[0].disk));
            assert forall|i: int, j: int| 0 <= i < j < res.len() implies str_lt(
                key(#[trigger] res[i]),
                key(#[trigger] res[j]),
            ) by {
                if i == 0 {
                    assert(res[0] == v);
                    assert(res[j] == s[j - 1]);
                    if j - 1 > 0 {
                        crate::text::lemma_str_lt_trans(v.disk, s[0].disk, s[j - 1].disk);
                    }
                } else {
                    assert(res[i] == s[i - 1]);
                    assert(res[j] == s[j - 1]);
                }
            }
        }
    }
}

/// The selected set's disks are strictly ascending.
pub proof fn lemma_select_vms_sorted(c: VMsCreatorV, vms: Seq<VMV>)
    ensures
        disks_sorted(select_vms(c, vms)),
    decreases vms.len(),
{
    if vms.len() == 0 {
    } else {
        lemma_select_vms_sorted(c, vms.drop_last());
        match match_rank(c, vms.last()) {
            None => {},
            Some(rank) => {
                lemma_upsert_sorted(
                    select_vms(c, vms.drop_last()),
                    specified_as(vms.last(), rank),
                );
            },
        }
    }
}

/// The selected set: each matching candidate keyed into the set under its
/// backing disk with its specificity raised to its rank; the set stays in
/// ascending disk order, a later candidate of an already-seen disk
/// replacing the earlier one.
pub open spec fn select_vms(c: VMsCreatorV, vms: Seq<VMV>) -> Seq<VMV>
    decreases vms.len(),
{
    if vms.len() == 0 {
        Seq::empty()
    } else {
        let rest = select_vms(c, vms.drop_last());
        match match_rank(c, vms.last()) {
            None => rest,
            Some(rank) => upsert_by_disk(rest, specified_as(vms.last(), rank)),
        }
    }
}

/// The set with the process id attached to the first VM whose disk is the
/// given open path.
pub open spec fn set_pid_at(s: Seq<VMV>, path: Seq<char>, pid: i32) -> Seq<VMV>
    decreases s.len(),
{
    if s.len() == 0 {
        s
    } else if s[0].disk == path {
        seq![VMV { pid: Some(pid), ..s[0] }] + s.drop_first()
    } else {
        seq![s[0]] + set_pid_at(s.drop_first(), path, pid)
    }
}

/// The file-name prefix identifying the hypervisor's processes.
pub open spec fn hypervisor_prefix() -> Seq<char> {
    "qemu-system-x86_64"@
}

/// The set after one process's open paths are cross-referenced: only a
/// process of the hypervisor attaches its id, to every VM whose disk one of
/// its descriptors holds open.
pub open spec fn apply_proc(s: Seq<VMV>, p: ProcessInfoV) -> Seq<VMV>
    decreases p.fd_paths.len(),
{
    if !starts_with_seq(p.exe_name, hypervisor_prefix()) {
        s
    } else if p.fd_paths.len() == 0 {
        s
    } else {
        set_pid_at(apply_proc(s, ProcessInfoV { fd_paths: p.fd_paths.drop_last(), ..p }), p.fd_paths.last(), p.pid)
    }
}

/// The set after every process is cross-referenced, in order.
pub open spec fn apply_procs(s: Seq<VMV>, procs: Seq<ProcessInfoV>) -> Seq<VMV>
    decreases procs.len(),
{
    if procs.len() == 0 {
        s
    } else {
        apply_proc(apply_procs(s, procs.drop_last()), procs.last())
    }
}

/// Attaching a process id changes no entry's backing disk.
proof fn lemma_set_pid_at_disks(s: Seq<VMV>, path: Seq<char>, pid: i32)
    ensures
        set_pid_at(s, path, pid).len() == s.len(),
        forall|i: int|
            0 <= i < s.len() ==> (#[trigger] set_pid_at(s, path, pid)[i]).disk == s[i].disk,
    decreases s.len(),
{
    if s.len() > 0 {
        let tail = s.drop_first();
        assert(tail.len() == s.len() - 1);
        lemma_set_pid_at_disks(tail, path, pid);
        let res = set_pid_at(s, path, pid);
        if s[0].disk == path {
            assert forall|i: int| 0 <= i < s.len() implies (#[trigger] res[i]).disk
                == s[i].disk by {
                if i > 0 {
                    assert(res[i] == tail[i - 1]);
                    assert(tail[i - 1] == s[i]);
                }
            }
        } else {
            assert forall|i: int| 0 <= i < s.len() implies (#[trigger] res[i]).disk
                == s[i].disk by {
                if i > 0 {
                    assert(res[i] == set_pid_at(tail, path, pid)[i - 1]);
                    assert(tail[i - 1] == s[i]);
                }
            }
        }
    }
}

/// Cross-referencing one process changes no entry's backing disk.
proof fn lemma_apply_proc_disks(s: Seq<VMV>, p: ProcessInfoV)
    ensures
        apply_proc(s, p).len() == s.len(),
        forall|i: int| 0 <= i < s.len() ==> (#[trigger] apply_proc(s, p)[i]).disk == s[i].disk,
    decreases p.fd_paths.len(),
{
    if starts_with_seq(p.exe_name, hypervisor_prefix()) && p.fd_paths.len() > 0 {
        let shorter = ProcessInfoV { fd_paths: p.fd_paths.drop_last(), ..p };
        lemma_apply_proc_disks(s, shorter);
        lemma_set_pid_at_disks(apply_proc(s, shorter), p.fd_paths.last(), p.pid);
    }
}

/// Cross-referencing the processes changes no entry's backing disk.
proof fn lemma_apply_procs_disks(s: Seq<VMV>, procs: Seq<ProcessInfoV>)
    ensures
        apply_procs(s, procs).len() == s.len(),
        forall|i: int|
            0 <= i < s.len() ==> (#[trigger] apply_procs(s, procs)[i]).disk == s[i].disk,
    decreases procs.len(),
{
    if procs.len() > 0 {
        lemma_apply_procs_disks(s, procs.drop_last());
        lemma_apply_proc_disks(apply_procs(s, procs.drop_last()), procs.last());
    }
}

/// The entries of the set the process policy keeps.
pub open spec fn policy_kept(s: Seq<VMV>, policy: WithPid) -> Seq<VMV> {
    match policy {
        WithPid::Attach => s,
        WithPid::Error => s,
        WithPid::Filter => crate::merge::mask_filter(
            s,
            Seq::new(s.len(), |i: int| s[i].pid is Some),
        ),
        WithPid::Without => crate::merge::mask_filter(
            s,
            Seq::new(s.len(), |i: int| s[i].pid is None),
        ),
    }
}

/// The first entry without an attached process, if any.
pub open spec fn first_without_pid(s: Seq<VMV>) -> Option<VMV>
    decreases s.len(),
{
    if s.len() == 0 {
        None
    } else if s[0].pid is None {
        Some(s[0])
    } else {
        first_without_pid(s.drop_first())
    }
}

impl VMsCreator {
    /// Criteria that select nothing, over the given configuration.
    pub fn new(config: Config) -> (r: VMsCreator)
        ensures
            r.config == config,
            r@.all == false,
            r@.error_on_empty == false,
            r@.names == Seq::<Seq<char>>::empty(),
            r@.parents == Seq::<Seq<char>>::empty(),
            r@.tags == Seq::<Seq<char>>::empty(),
            r@.vm_config is None,
            r@.with_pid is None,
    {
        let names: Vec<String> = Vec::new();
        let parents: Vec<String> = Vec::new();
        let tags: Vec<String> = Vec::new();
        proof {
            assert(names.deep_view() =~= Seq::<Seq<char>>::empty());
            assert(parents.deep_view() =~= Seq::<Seq<char>>::empty());
            assert(tags.deep_view() =~= Seq::<Seq<char>>::empty());
        }
        VMsCreator {
            config,
            all: false,
            error_on_empty: false,
            names,
            parents,
            tags,
            vm_config: None,
            with_pid: None,
        }
    }

    /// Overrides every candidate's record with the given record text.
    pub fn vm_config(&mut self, vm_config: &str)
        ensures
            final(self)@ == (VMsCreatorV { vm_config: Some(vm_config@), ..old(self)@ }),
            final(self).config == old(self).config,
    {
        self.vm_config = Some(vm_config.to_owned());
    }

    /// Overrides every candidate's record with the minimal record text.
    pub fn minimal_vm_config(&mut self)
        ensures
            final(self)@ == (VMsCreatorV {
                vm_config: Some(crate::vm_config::minimal_config_text()),
                ..old(self)@
            }),
            final(self).config == old(self).config,
    {
        let text = crate::vm_config::minimal_config_string();
        self.vm_config = Some(text);
    }

    /// The record text override, if one is set.
    pub fn get_vm_config(&self) -> (r: Option<&String>)
        ensures
            r.deep_view() == self@.vm_config,
    {
        self.vm_config.as_ref()
    }

    /// Selects every VM; any specific criterion set before is cleared.
    pub fn all(&mut self)
        ensures
            final(self)@ == (VMsCreatorV {
                all: true,
                names: Seq::<Seq<char>>::empty(),
                parents: Seq::<Seq<char>>::empty(),
                tags: Seq::<Seq<char>>::empty(),
                ..old(self)@
            }),
            final(self).config == old(self).config,
    {
        self.all = true;
        let names: Vec<String> = Vec::new();
        let parents: Vec<String> = Vec::new();
        let tags: Vec<String> = Vec::new();
        proof {
            assert(names.deep_view() =~= Seq::<Seq<char>>::empty());
            assert(parents.deep_view() =~= Seq::<Seq<char>>::empty());
            assert(tags.deep_view() =~= Seq::<Seq<char>>::empty());
        }
        self.names = names;
        self.parents = parents;
        self.tags = tags;
    }

    /// Whether the catch-all is set.
    pub fn is_all(&self) -> (r: bool)
        ensures
            r == self@.all,
    {
        self.all
    }

    /// Makes an empty selection an error rather than a silent no-op.
    pub fn error_on_empty(&mut self)
        ensures
            final(self)@ == (VMsCreatorV { error_on_empty: true, ..old(self)@ }),
            final(self).config == old(self).config,
    {
        self.error_on_empty = true;
    }

    /// Adds one explicit name; the catch-all is cleared.
    pub fn name(&mut self, name: &str)
        ensures
            final(self)@ == (VMsCreatorV {
                all: false,
                names: old(self)@.names.push(name@),
                ..old(self)@
            }),
            final(self).config == old(self).config,
    {
        self.all = false;
        self.names.push(name.to_owned());
        proof {
            assert(self.names.deep_view() =~= old(self).names.deep_view().push(name@));
        }
    }

    /// Adds explicit names; the catch-all is cleared.
    pub fn names(&mut self, names: &Vec<String>)
        ensures
            final(self)@ == (VMsCreatorV {
                all: false,
                names: old(self)@.names + names.deep_view(),
                ..old(self)@
            }),
            final(self).config == old(self).config,
    {
        self.all = false;
        let mut more = clone_vec_string(names);
        self.names.append(&mut more);
        proof {
            assert(self.names.deep_view() =~= old(self).names.deep_view() + names.deep_view());
        }
    }

    /// Adds one ancestor path; the catch-all is cleared.
    pub fn parent(&mut self, parent: &str)
        ensures
            final(self)@ == (VMsCreatorV {
                all: false,
                parents: old(self)@.parents.push(parent@),
                ..old(self)@
            }),
            final(self).config == old(self).config,
    {
        self.all = false;
        self.parents.push(parent.to_owned());
        proof {
            assert(self.parents.deep_view() =~= old(self).parents.deep_view().push(parent@));
        }
    }

    /// Adds ancestor paths; the catch-all is cleared.
    pub fn parents(&mut self, parents: &Vec<String>)
        ensures
            final(self)@ == (VMsCreatorV {
                all: false,
                parents: old(self)@.parents + parents.deep_view(),
                ..old(self)@
            }),
            final(self).config == old(self).config,
    {
        self.all = false;
        let mut more = clone_vec_string(parents);
        self.parents.append(&mut more);
        proof {
            assert(self.parents.deep_view() =~= old(self).parents.deep_view() + parents.deep_view());
        }
    }

    /// Adds one tag; the catch-all is cleared.
    pub fn tag(&mut self, tag: &str)
        ensures
            final(self)@ == (VMsCreatorV {
                all: false,
                tags: old(self)@.tags.push(tag@),
                ..old(self)@
            }),
            final(self).config == old(self).config,
    {
        self.all = false;
        self.tags.push(tag.to_owned());
        proof {
            assert(self.tags.deep_view() =~= old(self).tags.deep_view().push(tag@));
        }
    }

    /// Adds tags; the catch-all is cleared.
    pub fn tags(&mut self, tags: &Vec<String>)
        ensures
            final(self)@ == (VMsCreatorV {
                all: false,
                tags: old(self)@.tags + tags.deep_view(),
                ..old(self)@
            }),
            final(self).config == old(self).config,
    {
        self.all = false;
        let mut more = clone_vec_string(tags);
        self.tags.append(&mut more);
        proof {
            assert(self.tags.deep_view() =~= old(self).tags.deep_view() + tags.deep_view());
        }
    }

    /// Asks for the process cross-reference with the given policy.
    pub fn with_pid(&mut self, with_pid: WithPid)
        ensures
            final(self)@ == (VMsCreatorV { with_pid: Some(with_pid), ..old(self)@ }),
            final(self).config == old(self).config,
    {
        self.with_pid = Some(with_pid);
    }

    /// The rank under which a candidate matches the criteria, if it does.
    #[verifier::loop_isolation(false)]
    pub fn specification_of(&self, vm: &VM) -> (r: Option<SpecifiedBy>)
        ensures
            r.deep_view() == match_rank(self@, vm@),
    {
        if contains_str(&self.names, vm.get_name().as_str()) {
            return Some(SpecifiedBy::Name);
        }
        // keep the longest matching ancestor path, the earliest on a tie
        let mut best: Option<String> = None;
        let mut i: usize = 0;
        proof {
            assert(self.parents.deep_view().take(0) =~= Seq::<Seq<char>>::empty());
        }
        while i < self.parents.len()
            invariant
                0 <= i <= self.parents.len(),
                match (
                    best,
                    longest_matching_parent(self@.parents.take(i as int), vm@.names),
                ) {
                    (Some(b), Some(p)) => b@ == trim_trailing(p, '/'),
                    (None, None) => true,
                    _ => false,
                },
            decreases self.parents.len() - i,
        {
            proof {
                assert(self@.parents.take(i + 1).drop_last() =~= self@.parents.take(i as int));
                assert(self@.parents.take(i + 1).last() == self@.parents[i as int]);
            }
            if vm.has_parent(self.parents[i].as_str()) {
                let trimmed = trim_char_end(self.parents[i].as_str(), '/');
                best = match best {
                    None => Some(trimmed),
                    Some(b) => {
                        if trimmed.as_str().unicode_len() > b.as_str().unicode_len() {
                            Some(trimmed)
                        } else {
                            Some(b)
                        }
                    },
                };
            }
            i += 1;
        }
        proof {
            assert(self@.parents.take(self.parents.len() as int) =~= self@.parents);
        }
        if let Some(b) = best {
            return Some(SpecifiedBy::Parent(b));
        }
        if vm.has_common_tags(&self.tags) {
            proof {
                let w = choose|i: int|
                    0 <= i < self.tags.deep_view().len() && seq_has_str(
                        vm@.tags,
                        #[trigger] self.tags.deep_view()[i],
                    );
                assert(0 <= w < self@.tags.len() && seq_has_str(vm@.tags, self@.tags[w]));
            }
            return Some(SpecifiedBy::Tag);
        }
        if self.all {
            return Some(SpecifiedBy::All);
        }
        None
    }
}

/// Writes a VM into the set under its backing disk: an entry of the same
/// disk is replaced, else the VM takes its place in ascending disk order.
#[verifier::loop_isolation(false)]
fn upsert_vm(acc: &mut Vec<VM>, vm: VM)
    ensures
        final(acc).deep_view() == upsert_by_disk(old(acc).deep_view(), vm@),
{
    let ghost orig = acc.deep_view();
    let ghost vmv = vm@;
    let mut i: usize = 0;
    while i < acc.len()
        invariant
            0 <= i <= acc.len(),
            acc.deep_view() == orig,
            forall|j: int| 0 <= j < i ==> str_lt((#[trigger] orig[j]).disk, vmv.disk),
            vmv == vm@,
        decreases acc.len() - i,
    {
        match crate::text::cmp_str(acc[i].get_disk().as_str(), vm.get_disk().as_str()) {
            core::cmp::Ordering::Less => {
                i += 1;
            },
            core::cmp::Ordering::Equal => {
                let ghost eb = acc@;
                acc.remove(i);
                acc.insert(i, vm);
                proof {
                    assert(acc@ =~= eb.update(i as int, vm));
                    assert(acc.deep_view() =~= orig.update(i as int, vmv));
                    lemma_upsert_at(orig, vmv, i as int);
                }
                return;
            },
            core::cmp::Ordering::Greater => {
                let ghost eb = acc@;
                acc.insert(i, vm);
                proof {
                    assert(acc@ =~= eb.insert(i as int, vm));
                    assert(acc.deep_view() =~= orig.take(i as int) + seq![vmv] + orig.skip(
                        i as int,
                    ));
                    crate::text::lemma_str_lt_asym(vmv.disk, orig[i as int].disk);
                    lemma_upsert_insert(orig, vmv, i as int);
                }
                return;
            },
        }
    }
    acc.push(vm);
    proof {
        assert(acc.deep_view() =~= orig.push(vmv));
        lemma_upsert_append(orig, vmv);
    }
}

/// Replacing the entry of the same disk is what the upsert does there.
proof fn lemma_upsert_at(s: Seq<VMV>, v: VMV, i: int)
    requires
        0 <= i < s.len(),
        s[i].disk == v.disk,
        forall|j: int| 0 <= j < i ==> str_lt((#[trigger] s[j]).disk, v.disk),
    ensures
        upsert_by_disk(s, v) =~= s.update(i, v),
    decreases i,
{
    assert(s.drop_first().len() == s.len() - 1);
    if i == 0 {
        crate::text::lemma_str_lt_asym(s[0].disk, v.disk);
        assert(!str_lt(s[0].disk, v.disk));
        assert(seq![v] + s.drop_first() =~= s.update(0, v));
    } else {
        assert(str_lt(s[0].disk, v.disk));
        assert forall|j: int| 0 <= j < i - 1 implies str_lt(
            (#[trigger] s.drop_first()[j]).disk,
            v.disk,
        ) by {
            assert(s.drop_first()[j] == s[j + 1]);
        }
        assert(s.drop_first()[i - 1] == s[i]);
        lemma_upsert_at(s.drop_first(), v, i - 1);
        assert(s.drop_first().update(i - 1, v) =~= s.update(i, v).drop_first());
        assert(seq![s[0]] + s.update(i, v).drop_first() =~= s.update(i, v));
    }
}

/// Inserting before the first entry at or above the disk is what the
/// upsert does when no entry shares it.
proof fn lemma_upsert_insert(s: Seq<VMV>, v: VMV, i: int)
    requires
        0 <= i < s.len(),
        !str_lt(s[i].disk, v.disk),
        s[i].disk != v.disk,
        forall|j: int| 0 <= j < i ==> str_lt((#[trigger] s[j]).disk, v.disk),
    ensures
        upsert_by_disk(s, v) =~= s.take(i) + seq![v] + s.skip(i),
    decreases i,
{
    assert(s.drop_first().len() == s.len() - 1);
    if i == 0 {
        assert(seq![v] + s =~= s.take(0) + seq![v] + s.skip(0));
    } else {
        assert(str_lt(s[0].disk, v.disk));
        assert forall|j: int| 0 <= j < i - 1 implies str_lt(
            (#[trigger] s.drop_first()[j]).disk,
            v.disk,
        ) by {
            assert(s.drop_first()[j] == s[j + 1]);
        }
        assert(s.drop_first()[i - 1] == s[i]);
        lemma_upsert_insert(s.drop_first(), v, i - 1);
        assert(s.drop_first().take(i - 1) =~= s.take(i).drop_first());
        assert(s.drop_first().skip(i - 1) =~= s.skip(i));
        assert(seq![s[0]] + (s.take(i).drop_first() + seq![v] + s.skip(i)) =~= s.take(i)
            + seq![v] + s.skip(i));
    }
}

/// Appending is what the upsert does when every disk is below.
proof fn lemma_upsert_append(s: Seq<VMV>, v: VMV)
    requires
        forall|j: int| 0 <= j < s.len() ==> str_lt((#[trigger] s[j]).disk, v.disk),
    ensures
        upsert_by_disk(s, v) =~= s.push(v),
    decreases s.len(),
{
    if s.len() == 0 {
        assert(s.push(v) =~= seq![v]);
    } else {
        assert(s.drop_first().len() == s.len() - 1);
        assert forall|j: int| 0 <= j < s.drop_first().len() implies str_lt(
            (#[trigger] s.drop_first()[j]).disk,
            v.disk,
        ) by {
            assert(s.drop_first()[j] == s[j + 1]);
        }
        lemma_upsert_append(s.drop_first(), v);
        assert(seq![s[0]] + s.drop_first().push(v) =~= s.push(v));
    }
}

/// Attaches a process id to the first VM whose disk is the open path.
#[verifier::loop_isolation(false)]
fn attach_pid_at(acc: &mut Vec<VM>, path: &str, pid: i32)
    ensures
        final(acc).deep_view() == set_pid_at(old(acc).deep_view(), path@, pid),
{
    let ghost orig = acc.deep_view();
    let mut i: usize = 0;
    while i < acc.len()
        invariant
            0 <= i <= acc.len(),
            acc.deep_view() == orig,
            forall|j: int| 0 <= j < i ==> orig[j].disk != path@,
        decreases acc.len() - i,
    {
        if str_eq(acc[i].get_disk().as_str(), path) {
            let ghost before = acc.deep_view();
            let ghost eb = acc@;
            let mut vm = acc.remove(i);
            vm.set_pid(pid);
            acc.insert(i, vm);
            proof {
                assert(acc@ =~= eb.update(i as int, vm));
                assert(acc.deep_view() =~= before.update(
                    i as int,
                    VMV { pid: Some(pid), ..before[i as int] },
                ));
                lemma_set_pid_at(orig, path@, pid, i as int);
            }
            return;
        }
        i += 1;
    }
    proof {
        lemma_set_pid_missing(orig, path@, pid);
    }
}

proof fn lemma_set_pid_at(s: Seq<VMV>, path: Seq<char>, pid: i32, i: int)
    requires
        0 <= i < s.len(),
        s[i].disk == path,
        forall|j: int| 0 <= j < i ==> s[j].disk != path,
    ensures
        set_pid_at(s, path, pid) =~= s.update(i, VMV { pid: Some(pid), ..s[i] }),
    decreases i,
{
    assert(s.drop_first().len() == s.len() - 1);
    if i == 0 {
        assert(seq![VMV { pid: Some(pid), ..s[0] }] + s.drop_first() =~= s.update(
            0,
            VMV { pid: Some(pid), ..s[0] },
        ));
    } else {
        lemma_set_pid_at(s.drop_first(), path, pid, i - 1);
        assert(s.drop_first()[i - 1] == s[i]);
        assert(s.drop_first().update(i - 1, VMV { pid: Some(pid), ..s[i] }) =~= s.update(
            i,
            VMV { pid: Some(pid), ..s[i] },
        ).drop_first());
        assert(seq![s[0]] + s.update(i, VMV { pid: Some(pid), ..s[i] }).drop_first() =~= s.update(
            i,
            VMV { pid: Some(pid), ..s[i] },
        ));
    }
}

proof fn lemma_set_pid_missing(s: Seq<VMV>, path: Seq<char>, pid: i32)
    requires
        forall|j: int| 0 <= j < s.len() ==> s[j].disk != path,
    ensures
        set_pid_at(s, path, pid) =~= s,
    decreases s.len(),
{
    if s.len() > 0 {
        assert(s.drop_first().len() == s.len() - 1);
        lemma_set_pid_missing(s.drop_first(), path, pid);
        assert(seq![s[0]] + s.drop_first() =~= s);
    }
}

impl VMsCreator {
    /// Builds the working set: every candidate matching the criteria joins
    /// the set under its backing disk with its rank recorded, the set kept
    /// in ascending disk order; the given processes are cross-referenced by
    /// the files they hold open; the process policy then prunes the set or,
    /// under the erroring policy, rejects the first VM without a process;
    /// an empty result is an error when the criteria asked for that.
    #[verifier::loop_isolation(false)]
    pub fn create(&self, candidates: Vec<VM>, procs: &Option<Vec<ProcessInfo>>) -> (r: Result<
        Vec<VM>,
        Error,
    >)
        ensures
            ({
                let selected = select_vms(self@, candidates.deep_view());
                let attached = match (self@.with_pid, procs.deep_view()) {
                    (Some(_), Some(ps)) => apply_procs(selected, ps),
                    _ => selected,
                };
                match r {
                    Ok(v) => {
                        &&& (self@.with_pid matches Some(WithPid::Error)
                            ==> first_without_pid(attached) is None)
                        &&& v.deep_view() == (match self@.with_pid {
                            Some(p) => policy_kept(attached, p),
                            None => attached,
                        })
                        &&& disks_sorted(v.deep_view())
                        &&& (self@.error_on_empty ==> v.deep_view().len() > 0)
                    },
                    Err(e) => {
                        ||| {
                            &&& self@.with_pid matches Some(WithPid::Error)
                            &&& first_without_pid(attached) matches Some(vm)
                            &&& e matches Error::VMHasNoPid(n)
                            &&& n@ == vm.name
                        }
                        ||| {
                            &&& self@.error_on_empty
                            &&& e == Error::EmptyVMsList
                            &&& (match self@.with_pid {
                                Some(p) => policy_kept(attached, p),
                                None => attached,
                            }).len() == 0
                            &&& !(self@.with_pid matches Some(WithPid::Error)
                                && first_without_pid(attached) is Some)
                        }
                    },
                }
            }),
    {
        let ghost cdv = candidates.deep_view();
        let ghost n0 = candidates.len();
        let mut rest = candidates;
        let mut acc: Vec<VM> = Vec::new();
        let mut i: usize = 0;
        proof {
            assert(cdv.take(0) =~= Seq::<VMV>::empty());
            assert(acc.deep_view() =~= select_vms(self@, cdv.take(0)));
            assert(rest.deep_view() =~= cdv.skip(0));
        }
        while rest.len() > 0
            invariant
                0 <= i <= cdv.len(),
                cdv.len() == n0,
                rest.deep_view() == cdv.skip(i as int),
                acc.deep_view() == select_vms(self@, cdv.take(i as int)),
            decreases rest.len(),
        {
            proof {
                assert(cdv.skip(i as int).len() == cdv.len() - i);
            }
            let mut vm = rest.remove(0);
            proof {
                assert(cdv.skip(i as int)[0] == cdv[i as int]);
                assert(cdv.skip(i as int).drop_first() =~= cdv.skip(i + 1));
                assert(cdv.take(i + 1).drop_last() =~= cdv.take(i as int));
                assert(cdv.take(i + 1).last() == cdv[i as int]);
            }
            match self.specification_of(&vm) {
                Some(rank) => {
                    let ghost vm0 = vm@;
                    vm.specify(rank);
                    proof {
                        assert(vm@ == specified_as(vm0, rank@));
                    }
                    upsert_vm(&mut acc, vm);
                },
                None => {},
            }
            i += 1;
        }
        proof {
            assert(cdv.skip(i as int).len() == cdv.len() - i);
            assert(i == cdv.len());
            assert(cdv.take(i as int) =~= cdv);
        }

        let use_pids = self.with_pid.is_some();
        if use_pids {
            if let Some(ps) = procs {
                let ghost pdv = ps.deep_view();
                let ghost base = acc.deep_view();
                let mut j: usize = 0;
                proof {
                    assert(pdv.take(0) =~= Seq::<ProcessInfoV>::empty());
                    assert(acc.deep_view() =~= apply_procs(base, pdv.take(0)));
                }
                while j < ps.len()
                    invariant
                        0 <= j <= ps.len(),
                        pdv == ps.deep_view(),
                        acc.deep_view() == apply_procs(base, pdv.take(j as int)),
                    decreases ps.len() - j,
                {
                    proof {
                        assert(pdv.take(j + 1).drop_last() =~= pdv.take(j as int));
                        assert(pdv.take(j + 1).last() == pdv[j as int]);
                    }
                    let p = &ps[j];
                    if str_starts_with(p.exe_name.as_str(), "qemu-system-x86_64") {
                        let ghost fdv = p.fd_paths.deep_view();
                        let ghost mid = acc.deep_view();
                        let mut k: usize = 0;
                        proof {
                            assert(fdv.take(0) =~= Seq::<Seq<char>>::empty());
                            assert(apply_proc(mid, ProcessInfoV { fd_paths: fdv.take(0), ..pdv[j as int] }) =~= mid);
                        }
                        while k < p.fd_paths.len()
                            invariant
                                0 <= k <= p.fd_paths.len(),
                                fdv == p.fd_paths.deep_view(),
                                acc.deep_view() == apply_proc(
                                    mid,
                                    ProcessInfoV { fd_paths: fdv.take(k as int), ..pdv[j as int] },
                                ),
                            decreases p.fd_paths.len() - k,
                        {
                            proof {
                                assert(fdv.take(k + 1).drop_last() =~= fdv.take(k as int));
                                assert(fdv.take(k + 1).last() == fdv[k as int]);
                            }
                            attach_pid_at(&mut acc, p.fd_paths[k].as_str(), p.pid);
                            k += 1;
                        }
                        proof {
                            assert(fdv.take(p.fd_paths.len() as int) =~= fdv);
                            assert(pdv[j as int] == (ProcessInfoV { fd_paths: fdv, ..pdv[j as int] }));
                            assert(acc.deep_view() =~= apply_proc(mid, pdv[j as int]));
                        }
                    } else {
                        proof {
                            assert(acc.deep_view() =~= apply_proc(acc.deep_view(), pdv[j as int]));
                        }
                    }
                    j += 1;
                }
                proof {
                    assert(pdv.take(ps.len() as int) =~= pdv);
                }
            }
        }

        // apply the process policy
        let ghost attached = acc.deep_view();
        let mut result: Vec<VM> = acc;
        match &self.with_pid {
            Some(WithPid::Error) => {
                let mut k: usize = 0;
                proof {
                    assert(attached.skip(0) =~= attached);
                }
                while k < result.len()
                    invariant
                        0 <= k <= result.len(),
                        result.deep_view() == attached,
                        first_without_pid(attached) == first_without_pid(
                            attached.skip(k as int),
                        ),
                    decreases result.len() - k,
                {
                    proof {
                        assert(attached.skip(k as int).len() == attached.len() - k);
                        assert(attached.skip(k as int)[0] == attached[k as int]);
                        assert(attached.skip(k as int).drop_first() =~= attached.skip(k + 1));
                    }
                    if !result[k].has_pid() {
                        return Err(Error::VMHasNoPid(result[k].get_name().clone()));
                    }
                    k += 1;
                }
                proof {
                    assert(attached.skip(result.len() as int) =~= Seq::<VMV>::empty());
                }
            },
            Some(WithPid::Filter) => {
                result = filter_by_pid(result, true);
            },
            Some(WithPid::Without) => {
                result = filter_by_pid(result, false);
            },
            _ => {},
        }

        proof {
            lemma_select_vms_sorted(self@, cdv);
            assert(disks_sorted(attached)) by {
                let selected = select_vms(self@, cdv);
                match (self@.with_pid, procs.deep_view()) {
                    (Some(_), Some(ps)) => {
                        lemma_apply_procs_disks(selected, ps);
                        assert forall|a: int, b: int|
                            0 <= a < b < attached.len() implies str_lt(
                            (#[trigger] attached[a]).disk,
                            (#[trigger] attached[b]).disk,
                        ) by {
                            assert(attached[a].disk == selected[a].disk);
                            assert(attached[b].disk == selected[b].disk);
                        }
                    },
                    _ => {},
                }
            }
            match self@.with_pid {
                Some(WithPid::Filter) => {
                    crate::merge::lemma_mask_filter_sorted(
                        attached,
                        Seq::new(attached.len(), |i: int| attached[i].pid is Some),
                        |v: VMV| v.disk,
                    );
                },
                Some(WithPid::Without) => {
                    crate::merge::lemma_mask_filter_sorted(
                        attached,
                        Seq::new(attached.len(), |i: int| attached[i].pid is None),
                        |v: VMV| v.disk,
                    );
                },
                _ => {},
            }
        }
        if self.error_on_empty && result.len() == 0 {
            return Err(Error::EmptyVMsList);
        }
        Ok(result)
    }
}

/// The VMs that have (or lack) an attached process.
fn filter_by_pid(vms: Vec<VM>, want_pid: bool) -> (r: Vec<VM>)
    ensures
        want_pid ==> r.deep_view() == crate::merge::mask_filter(
            vms.deep_view(),
            Seq::new(vms.deep_view().len(), |i: int| vms.deep_view()[i].pid is Some),
        ),
        !want_pid ==> r.deep_view() == crate::merge::mask_filter(
            vms.deep_view(),
            Seq::new(vms.deep_view().len(), |i: int| vms.deep_view()[i].pid is None),
        ),
{
    let ghost dv = vms.deep_view();
    let ghost n0 = vms.len();
    let ghost mask = if want_pid {
        Seq::new(dv.len(), |i: int| dv[i].pid is Some)
    } else {
        Seq::new(dv.len(), |i: int| dv[i].pid is None)
    };
    let mut rest = vms;
    let mut out: Vec<VM> = Vec::new();
    let mut i: usize = 0;
    proof {
        assert(out.deep_view() =~= crate::merge::mask_filter(dv.take(0), mask.take(0)));
        assert(rest.deep_view() =~= dv.skip(0));
    }
    while rest.len() > 0
        invariant
            0 <= i <= dv.len(),
            dv.len() == n0,
            rest.deep_view() == dv.skip(i as int),
            out.deep_view() == crate::merge::mask_filter(dv.take(i as int), mask.take(i as int)),
            mask == (if want_pid {
                Seq::new(dv.len(), |i: int| dv[i].pid is Some)
            } else {
                Seq::new(dv.len(), |i: int| dv[i].pid is None)
            }),
        decreases rest.len(),
    {
        proof {
            assert(dv.skip(i as int).len() == dv.len() - i);
            assert(dv.skip(i as int)[0] == dv[i as int]);
            assert(dv.skip(i as int).drop_first() =~= dv.skip(i + 1));
        }
        let vm = rest.remove(0);
        let ghost out0 = out.deep_view();
        let keep = if want_pid {
            vm.has_pid()
        } else {
            !vm.has_pid()
        };
        if keep {
            out.push(vm);
        }
        proof {
            crate::merge::lemma_mask_filter_push(
                dv.take(i as int),
                mask.take(i as int),
                dv[i as int],
                mask[i as int],
            );
            assert(dv.take(i as int).push(dv[i as int]) =~= dv.take(i + 1));
            assert(mask.take(i as int).push(mask[i as int]) =~= mask.take(i + 1));
            if keep {
                assert(out.deep_view() =~= out0 + seq![dv[i as int]]);
            } else {
                assert(out.deep_view() =~= out0);
                assert(out0 + Seq::<VMV>::empty() =~= out0);
            }
        }
        i += 1;
    }
    proof {
        assert(dv.take(dv.len() as int) =~= dv);
        assert(mask.take(dv.len() as int) =~= mask);
        assert(i == dv.len());
    }
    out
}

} // verus!
