//! The plugin manager: registry, staging counter and unload quarantine.
//!
//! The manager owns every loaded module handle.  A *registry* maps each
//! loaded group name to its handle (one load per name); the *quarantine*
//! retains handles removed from the registry until an explicit flush, so a
//! dispatch call that captured a descriptor before removal is never left
//! with a dangling reference.  A monotonic counter yields a fresh staged
//! file name for every load attempt.
//!
//! All loader I/O stays with the caller: a load is begun with
//! [`PluginManager::begin_load`], which hands back the staged path to copy
//! the canonical module to, and committed with
//! [`PluginManager::load_group`], which receives the opened module and
//! decides registration.

use vstd::prelude::*;

use crate::descriptor::CommandGroupDescriptor;
use crate::descriptor::DescriptorView;
use crate::errors::PluginError;
use crate::handle::GroupLib;
use crate::handle::LoadedModule;
use crate::staging::staged_lib_path;
use crate::staging::staged_path;

verus! {

/// True if some element of `s` is a descriptor named `name`.
pub open spec fn contains_named(s: Seq<DescriptorView>, name: Seq<char>) -> bool {
    exists|i: int| 0 <= i < s.len() && s[i].name == name
}

/// The first descriptor in `s` named `name`; meaningful only under
/// [`contains_named`].
pub open spec fn first_named(s: Seq<DescriptorView>, name: Seq<char>) -> DescriptorView
    decreases s.len(),
{
    if s.len() == 0 {
        DescriptorView {
            name: name,
            prefixes: Seq::empty(),
            default_command: None,
            required_role: None,
            commands: Seq::empty(),
        }
    } else if s[0].name == name {
        s[0]
    } else {
        first_named(s.skip(1), name)
    }
}

/// If `s[i]` is the first element named `name`, then [`first_named`] picks it.
pub proof fn lemma_first_named_at(s: Seq<DescriptorView>, name: Seq<char>, i: int)
    requires
        0 <= i < s.len(),
        s[i].name == name,
        forall|j: int| 0 <= j < i ==> s[j].name != name,
    ensures
        first_named(s, name) == s[i],
    decreases s.len(),
{
    if i == 0 {
    } else {
        assert(s.skip(1)[i - 1] == s[i]);
        assert(forall|j: int| 0 <= j < i - 1 ==> s.skip(1)[j] == s[j + 1]);
        lemma_first_named_at(s.skip(1), name, i - 1);
    }
}

/// The mathematical state of a [`PluginManager`].
#[verifier::ext_equal]
pub ghost struct ManagerView {
    /// Path of the canonical module file.
    pub lib_path: Seq<char>,
    /// Directory that staged copies are placed in.
    pub temp_dir: Seq<char>,
    /// Number of load attempts begun so far.
    pub counter: nat,
    /// Descriptors of the loaded groups, in registration order.
    pub groups: Seq<DescriptorView>,
    /// Descriptors whose handles await an explicit flush.
    pub quarantine: Seq<DescriptorView>,
}

impl ManagerView {
    /// The registry's keys, in registration order.
    pub open spec fn group_names(self) -> Seq<Seq<char>> {
        self.groups.map_values(|d: DescriptorView| d.name)
    }

    /// True if a group named `name` is registered.
    pub open spec fn is_loaded(self, name: Seq<char>) -> bool {
        exists|i: int| 0 <= i < self.groups.len() && self.groups[i].name == name
    }

    /// Registered group names are pairwise distinct.
    pub open spec fn wf(self) -> bool {
        forall|i: int, j: int|
            0 <= i < j < self.groups.len() ==> self.groups[i].name != self.groups[j].name
    }

    /// The registry position of the group named `name`; meaningful only
    /// under [`ManagerView::is_loaded`], and unique under [`ManagerView::wf`].
    pub open spec fn loaded_index(self, name: Seq<char>) -> int {
        choose|i: int| 0 <= i < self.groups.len() && self.groups[i].name == name
    }

    /// The registered descriptor of the group named `name`.
    pub open spec fn loaded_descriptor(self, name: Seq<char>) -> DescriptorView {
        self.groups[self.loaded_index(name)]
    }

    /// One load attempt begun: the staging counter advances, nothing else.
    pub open spec fn bump(self) -> ManagerView {
        ManagerView { counter: self.counter + 1, ..self }
    }

    /// A new group registered at the end of the registry.
    pub open spec fn register(self, d: DescriptorView) -> ManagerView {
        ManagerView { groups: self.groups.push(d), ..self }
    }

    /// The group named `name` moved from the registry to the quarantine.
    pub open spec fn unload(self, name: Seq<char>) -> ManagerView {
        ManagerView {
            groups: self.groups.remove(self.loaded_index(name)),
            quarantine: self.quarantine.push(self.loaded_descriptor(name)),
            ..self
        }
    }

    /// Every quarantined handle destroyed.
    pub open spec fn flush(self) -> ManagerView {
        ManagerView { quarantine: Seq::empty(), ..self }
    }
}

/// Registering a name that is not yet loaded keeps names pairwise distinct.
pub proof fn lemma_register_preserves_wf(v: ManagerView, d: DescriptorView)
    requires
        v.wf(),
        !v.is_loaded(d.name),
    ensures
        v.register(d).wf(),
{
    let w = v.register(d);
    assert forall|i: int, j: int| 0 <= i < j < w.groups.len() implies w.groups[i].name
        != w.groups[j].name by {
        if j < v.groups.len() {
        } else {
            assert(w.groups[j] == d);
            assert(0 <= i < v.groups.len() && v.groups[i].name == d.name ==> v.is_loaded(d.name));
        }
    }
}

/// Unloading a group keeps the remaining names pairwise distinct, and the
/// unloaded name is no longer registered.
pub proof fn lemma_unload_preserves_wf(v: ManagerView, name: Seq<char>)
    requires
        v.wf(),
        v.is_loaded(name),
    ensures
        v.unload(name).wf(),
        !v.unload(name).is_loaded(name),
{
    let k = v.loaded_index(name);
    let w = v.unload(name);
    assert(0 <= k < v.groups.len() && v.groups[k].name == name);
    assert forall|i: int, j: int| 0 <= i < j < w.groups.len() implies w.groups[i].name
        != w.groups[j].name by {
        let oi = if i < k {
            i
        } else {
            i + 1
        };
        let oj = if j < k {
            j
        } else {
            j + 1
        };
        assert(w.groups[i] == v.groups[oi]);
        assert(w.groups[j] == v.groups[oj]);
    }
    assert forall|i: int| 0 <= i < w.groups.len() implies w.groups[i].name != name by {
        let oi = if i < k {
            i
        } else {
            i + 1
        };
        assert(w.groups[i] == v.groups[oi]);
        if v.groups[oi].name == name {
            assert(oi != k);
        }
    }
}

/// The plugin manager: canonical module path, staging directory, load
/// counter, group registry and unload quarantine.
pub struct PluginManager {
    lib_path: String,
    temp_dir: String,
    lib_load_counter: u64,
    groups: Vec<GroupLib>,
    unload_buffer: Vec<GroupLib>,
}

impl View for PluginManager {
    type V = ManagerView;

    closed spec fn view(&self) -> ManagerView {
        ManagerView {
            lib_path: self.lib_path@,
            temp_dir: self.temp_dir@,
            counter: self.lib_load_counter as nat,
            groups: self.groups.deep_view(),
            quarantine: self.unload_buffer.deep_view(),
        }
    }
}

impl Default for PluginManager {
    /// An empty manager with empty paths, as if no load was ever attempted.
    fn default() -> (r: Self)
        ensures
            r@ == (ManagerView {
                lib_path: Seq::empty(),
                temp_dir: Seq::empty(),
                counter: 0,
                groups: Seq::empty(),
                quarantine: Seq::empty(),
            }),
            r@.wf(),
    {
        let r = PluginManager {
            lib_path: String::new(),
            temp_dir: String::new(),
            lib_load_counter: 0,
            groups: Vec::new(),
            unload_buffer: Vec::new(),
        };
        proof {
            assert(r@ =~= ManagerView {
                lib_path: Seq::empty(),
                temp_dir: Seq::empty(),
                counter: 0,
                groups: Seq::empty(),
                quarantine: Seq::empty(),
            });
        }
        r
    }
}

impl PluginManager {
    /// A fresh manager for the canonical module at `lib_path`, staging into
    /// `temp_dir`.  Whether the paths exist on disk is the calling side's
    /// concern, checked where the I/O happens.
    pub fn new(lib_path: String, temp_dir: String) -> (r: Self)
        ensures
            r@ == (ManagerView {
                lib_path: lib_path@,
                temp_dir: temp_dir@,
                counter: 0,
                groups: Seq::empty(),
                quarantine: Seq::empty(),
            }),
            r@.wf(),
    {
        let mut r = Self::default();
        r.set_lib_path(lib_path);
        r.set_temp_dir(temp_dir);
        proof {
            assert(r@ =~= ManagerView {
                lib_path: lib_path@,
                temp_dir: temp_dir@,
                counter: 0,
                groups: Seq::empty(),
                quarantine: Seq::empty(),
            });
        }
        r
    }

    /// Points the manager at a new canonical module file.
    pub fn set_lib_path(&mut self, lib_path: String)
        ensures
            final(self)@ == (ManagerView { lib_path: lib_path@, ..old(self)@ }),
    {
        self.lib_path = lib_path;
        proof {
            assert(final(self)@ =~= ManagerView { lib_path: lib_path@, ..old(self)@ });
        }
    }

    /// Points the manager at a new staging directory.
    pub fn set_temp_dir(&mut self, temp_dir: String)
        ensures
            final(self)@ == (ManagerView { temp_dir: temp_dir@, ..old(self)@ }),
    {
        self.temp_dir = temp_dir;
        proof {
            assert(final(self)@ =~= ManagerView { temp_dir: temp_dir@, ..old(self)@ });
        }
    }

    /// A snapshot of the registered group names, in registration order.
    pub fn list_groups(&self) -> (r: Vec<String>)
        ensures
            r.deep_view() == self@.group_names(),
    {
        let mut r: Vec<String> = Vec::new();
        let mut i: usize = 0;
        while i < self.groups.len()
            invariant
                i <= self.groups.len(),
                r.deep_view() =~= self@.group_names().take(i as int),
            decreases self.groups.len() - i,
        {
            let ghost prev = r.deep_view();
            r.push(self.groups[i].group.name.clone());
            proof {
                assert(r.deep_view() =~= prev.push(self@.groups[i as int].name));
                assert(r.deep_view() =~= self@.group_names().take(i as int + 1));
            }
            i += 1;
        }
        proof {
            assert(r.deep_view() =~= self@.group_names());
        }
        r
    }

    /// True if a group named `group_name` is currently registered.
    pub fn is_group_loaded(&self, group_name: &String) -> (r: bool)
        ensures
            r == self@.is_loaded(group_name@),
    {
        let mut i: usize = 0;
        while i < self.groups.len()
            invariant
                i <= self.groups.len(),
                forall|j: int| 0 <= j < i ==> self@.groups[j].name != group_name@,
            decreases self.groups.len() - i,
        {
            if self.groups[i].group.name.eq(group_name) {
                proof {
                    assert(self@.groups[i as int].name == group_name@);
                }
                return true;
            }
            i += 1;
        }
        false
    }

    /// How many load attempts have been begun so far.
    pub fn load_count(&self) -> (r: u64)
        ensures
            r as nat == self@.counter,
    {
        self.lib_load_counter
    }

    /// How many unloaded handles currently await a flush.
    pub fn quarantine_len(&self) -> (r: usize)
        ensures
            r == self@.quarantine.len(),
    {
        self.unload_buffer.len()
    }

    /// Copies of the registered descriptors, in registration order.  The
    /// live dispatch table is rebuilt from these after a bulk load.
    pub fn descriptors(&self) -> (r: Vec<CommandGroupDescriptor>)
        ensures
            r.deep_view() == self@.groups,
    {
        let mut r: Vec<CommandGroupDescriptor> = Vec::new();
        let mut i: usize = 0;
        while i < self.groups.len()
            invariant
                i <= self.groups.len(),
                r.deep_view() =~= self@.groups.take(i as int),
            decreases self.groups.len() - i,
        {
            let ghost prev = r.deep_view();
            r.push(self.groups[i].group.clone());
            proof {
                assert(r.deep_view() =~= prev.push(self@.groups[i as int]));
                assert(r.deep_view() =~= self@.groups.take(i as int + 1));
            }
            i += 1;
        }
        proof {
            assert(r.deep_view() =~= self@.groups);
        }
        r
    }

    /// Begins a load attempt of `group_name`: rejects a name that is already
    /// registered; otherwise draws a fresh counter value and returns the
    /// staged path the caller must copy the canonical module file to before
    /// opening it.  The counter advances even if the caller's copy or open
    /// later fails — gaps are acceptable, reuse is not.
    pub fn begin_load(&mut self, group_name: &String) -> (r: Result<String, PluginError>)
        requires
            old(self)@.counter < u64::MAX,
        ensures
            old(self)@.is_loaded(group_name@) ==> final(self)@ == old(self)@ && (r matches Err(e)
                && e == PluginError::AlreadyLoaded),
            !old(self)@.is_loaded(group_name@) ==> final(self)@ == old(self)@.bump() && (r matches
            Ok(p) && p@ == staged_path(old(self)@.temp_dir, group_name@, old(self)@.counter + 1)),
    {
        if self.is_group_loaded(group_name) {
            return Err(PluginError::AlreadyLoaded);
        }
        let ghost pre = *self;
        self.lib_load_counter = self.lib_load_counter + 1;
        let p = staged_lib_path(&self.temp_dir, group_name, self.lib_load_counter);
        proof {
            assert(self@ =~= pre@.bump());
        }
        Ok(p)
    }

    /// Commits a load attempt: registers the group named `group_name` out of
    /// the opened module and takes ownership of the module's mapping.  A name
    /// that is already registered and a module that does not export the name
    /// are rejected; in both cases the module — mapping included — is dropped
    /// and the manager is unchanged.  Registry and dispatch view change in
    /// one step: either the entry is registered, or nothing is.
    pub fn load_group(&mut self, group_name: &String, module: LoadedModule) -> (r: Result<
        CommandGroupDescriptor,
        PluginError,
    >)
        requires
            old(self)@.wf(),
        ensures
            final(self)@.wf(),
            r is Ok <==> !old(self)@.is_loaded(group_name@) && contains_named(
                module@,
                group_name@,
            ),
            old(self)@.is_loaded(group_name@) ==> final(self)@ == old(self)@ && (r matches Err(e)
                && e == PluginError::AlreadyLoaded),
            !old(self)@.is_loaded(group_name@) && !contains_named(module@, group_name@)
                ==> final(self)@ == old(self)@ && (r matches Err(e) && e
                == PluginError::GroupNotFound),
            r matches Ok(d) ==> d@ == first_named(module@, group_name@) && d@.name == group_name@
                && final(self)@ == old(self)@.register(d@),
    {
        if self.is_group_loaded(group_name) {
            return Err(PluginError::AlreadyLoaded);
        }
        let ghost pre = *self;
        let ghost mv = module@;
        match find_first_descriptor(&module.groups, group_name) {
            None => Err(PluginError::GroupNotFound),
            Some(i) => {
                let LoadedModule { mapping, groups } = module;
                let d = groups[i].clone();
                let registered = d.clone();
                proof {
                    lemma_first_named_at(mv, group_name@, i as int);
                    assert(d@ == first_named(mv, group_name@));
                }
                self.groups.push(GroupLib { group: d, lib: mapping });
                proof {
                    assert(self@.groups =~= pre@.groups.push(registered@));
                    assert(self@ =~= pre@.register(registered@));
                    lemma_register_preserves_wf(pre@, registered@);
                }
                Ok(registered)
            },
        }
    }

    /// Removes the group named `group_name` from the registry and parks its
    /// handle in the quarantine; the handle's mapping stays open, so a
    /// dispatch call that captured the group's descriptor before the removal
    /// keeps reading valid memory.  Returns a copy of the removed group's
    /// descriptor.
    pub fn unload_group(&mut self, group_name: &String) -> (r: Result<
        CommandGroupDescriptor,
        PluginError,
    >)
        requires
            old(self)@.wf(),
        ensures
            final(self)@.wf(),
            r is Ok <==> old(self)@.is_loaded(group_name@),
            !old(self)@.is_loaded(group_name@) ==> final(self)@ == old(self)@ && (r matches Err(e)
                && e == PluginError::NotLoaded),
            r matches Ok(d) ==> d@ == old(self)@.loaded_descriptor(group_name@) && d@.name
                == group_name@ && final(self)@ == old(self)@.unload(group_name@),
    {
        let ghost pre = *self;
        match find_handle(&self.groups, group_name) {
            None => Err(PluginError::NotLoaded),
            Some(i) => {
                let handle = self.groups.remove(i);
                let d = handle.group.clone();
                self.unload_buffer.push(handle);
                proof {
                    assert(pre@.groups[i as int].name == group_name@);
                    let k = pre@.loaded_index(group_name@);
                    assert(0 <= k < pre@.groups.len() && pre@.groups[k].name == group_name@);
                    assert(k == i as int);
                    assert(self@.groups =~= pre@.groups.remove(i as int));
                    assert(self@.quarantine =~= pre@.quarantine.push(pre@.groups[i as int]));
                    assert(self@ =~= pre@.unload(group_name@));
                    lemma_unload_preserves_wf(pre@, group_name@);
                }
                Ok(d)
            },
        }
    }

    /// Destroys every quarantined handle, finally closing their module
    /// mappings.  Flushing while a handler from a quarantined group is still
    /// executing is the operator's responsibility to avoid; the manager does
    /// not detect in-flight use.
    pub fn flush_unload_buffer(&mut self)
        ensures
            final(self)@ == old(self)@.flush(),
    {
        let ghost pre = *self;
        self.unload_buffer.clear();
        proof {
            assert(self@ =~= pre@.flush());
        }
    }
}

/// The mathematical value of a [`GroupLoadOutcome`].
pub ghost struct OutcomeView {
    pub name: Seq<char>,
    pub module: Result<Seq<DescriptorView>, PluginError>,
}

/// One group's share of a bulk load: the group's name, and either the
/// module opened for it or the error its copy or open step produced.
pub struct GroupLoadOutcome {
    /// The name of the group this outcome is for.
    pub name: String,
    /// The opened module, or the error that prevented opening one.
    pub module: Result<LoadedModule, PluginError>,
}

impl View for GroupLoadOutcome {
    type V = OutcomeView;

    open spec fn view(&self) -> OutcomeView {
        OutcomeView {
            name: self.name@,
            module: match self.module {
                Ok(m) => Ok(m@),
                Err(e) => Err(e),
            },
        }
    }
}

impl DeepView for GroupLoadOutcome {
    type V = OutcomeView;

    open spec fn deep_view(&self) -> OutcomeView {
        self.view()
    }
}

/// True if applying `o` to `v` registers a group: the module was opened,
/// the name is free, and the module exports it.
pub open spec fn load_step_ok(v: ManagerView, o: OutcomeView) -> bool {
    o.module matches Ok(groups) && !v.is_loaded(o.name) && contains_named(groups, o.name)
}

/// The manager state after attempting one outcome of a bulk load.
pub open spec fn load_step(v: ManagerView, o: OutcomeView) -> ManagerView {
    match o.module {
        Ok(groups) => if !v.is_loaded(o.name) && contains_named(groups, o.name) {
            v.register(first_named(groups, o.name))
        } else {
            v
        },
        Err(_) => v,
    }
}

/// The manager state after attempting every outcome in order.
pub open spec fn load_all(v: ManagerView, outs: Seq<OutcomeView>) -> ManagerView
    decreases outs.len(),
{
    if outs.len() == 0 {
        v
    } else {
        load_all(load_step(v, outs[0]), outs.skip(1))
    }
}

/// The names a bulk load registers, in attempt order.
pub open spec fn load_all_loaded(v: ManagerView, outs: Seq<OutcomeView>) -> Seq<Seq<char>>
    decreases outs.len(),
{
    if outs.len() == 0 {
        Seq::empty()
    } else {
        let rest = load_all_loaded(load_step(v, outs[0]), outs.skip(1));
        if load_step_ok(v, outs[0]) {
            seq![outs[0].name] + rest
        } else {
            rest
        }
    }
}

/// The names a bulk load fails on, in attempt order.
pub open spec fn load_all_failed(v: ManagerView, outs: Seq<OutcomeView>) -> Seq<Seq<char>>
    decreases outs.len(),
{
    if outs.len() == 0 {
        Seq::empty()
    } else {
        let rest = load_all_failed(load_step(v, outs[0]), outs.skip(1));
        if load_step_ok(v, outs[0]) {
            rest
        } else {
            seq![outs[0].name] + rest
        }
    }
}

/// What a bulk load did: which groups were registered and which failed.
pub struct LoadReport {
    /// Names registered, in attempt order.
    pub loaded: Vec<String>,
    /// Names whose load failed, in attempt order.
    pub failed: Vec<String>,
}

impl PluginManager {
    /// Attempts one load per outcome, in order, continuing past failures —
    /// a failed group never stops the remaining ones — and reports which
    /// names were registered and which failed.
    pub fn load_all_groups(&mut self, outcomes: Vec<GroupLoadOutcome>) -> (report: LoadReport)
        requires
            old(self)@.wf(),
        ensures
            final(self)@.wf(),
            final(self)@ == load_all(old(self)@, outcomes.deep_view()),
            report.loaded.deep_view() == load_all_loaded(old(self)@, outcomes.deep_view()),
            report.failed.deep_view() == load_all_failed(old(self)@, outcomes.deep_view()),
    {
        let mut outs = outcomes;
        let mut loaded: Vec<String> = Vec::new();
        let mut failed: Vec<String> = Vec::new();
        let ghost v0 = self@;
        let ghost o0 = outs.deep_view();
        while outs.len() > 0
            invariant
                self@.wf(),
                load_all(self@, outs.deep_view()) == load_all(v0, o0),
                load_all_loaded(v0, o0) =~= loaded.deep_view() + load_all_loaded(
                    self@,
                    outs.deep_view(),
                ),
                load_all_failed(v0, o0) =~= failed.deep_view() + load_all_failed(
                    self@,
                    outs.deep_view(),
                ),
            decreases outs.len(),
        {
            let ghost vpre = self@;
            let ghost opre = outs.deep_view();
            let o = outs.remove(0);
            let ghost ov = o@;
            proof {
                assert(ov == opre[0]);
                assert(outs.deep_view() =~= opre.skip(1));
            }
            let GroupLoadOutcome { name, module } = o;
            let ok: bool = match module {
                Ok(m) => {
                    match self.load_group(&name, m) {
                        Ok(_) => true,
                        Err(_) => false,
                    }
                },
                Err(_) => false,
            };
            proof {
                assert(ok == load_step_ok(vpre, ov));
                assert(self@ == load_step(vpre, ov));
            }
            if ok {
                let ghost prev = loaded.deep_view();
                loaded.push(name);
                proof {
                    assert(loaded.deep_view() =~= prev.push(ov.name));
                    assert(loaded.deep_view() =~= prev + seq![ov.name]);
                }
            } else {
                let ghost prev = failed.deep_view();
                failed.push(name);
                proof {
                    assert(failed.deep_view() =~= prev.push(ov.name));
                    assert(failed.deep_view() =~= prev + seq![ov.name]);
                }
            }
            proof {
                assert(load_all_loaded(vpre, opre) == if load_step_ok(vpre, ov) {
                    seq![ov.name] + load_all_loaded(self@, outs.deep_view())
                } else {
                    load_all_loaded(self@, outs.deep_view())
                });
                assert(load_all_loaded(v0, o0) =~= loaded.deep_view() + load_all_loaded(
                    self@,
                    outs.deep_view(),
                ));
                assert(load_all_failed(v0, o0) =~= failed.deep_view() + load_all_failed(
                    self@,
                    outs.deep_view(),
                ));
            }
        }
        proof {
            assert(loaded.deep_view() =~= load_all_loaded(v0, o0));
            assert(failed.deep_view() =~= load_all_failed(v0, o0));
        }
        LoadReport { loaded, failed }
    }
}

/// The index of the first descriptor in `groups` named `name`, if any.
pub(crate) fn find_first_descriptor(groups: &Vec<CommandGroupDescriptor>, name: &String) -> (r:
    Option<usize>)
    ensures
        r matches Some(i) ==> i < groups.len() && groups.deep_view()[i as int].name == name@
            && forall|j: int| 0 <= j < i ==> groups.deep_view()[j].name != name@,
        r is None ==> !contains_named(groups.deep_view(), name@),
{
    let mut i: usize = 0;
    while i < groups.len()
        invariant
            i <= groups.len(),
            forall|j: int| 0 <= j < i ==> groups.deep_view()[j].name != name@,
        decreases groups.len() - i,
    {
        if groups[i].name.eq(name) {
            proof {
                assert(groups.deep_view()[i as int].name == name@);
            }
            return Some(i);
        }
        i += 1;
    }
    None
}

/// The index of the handle in `groups` whose group is named `name`, if any.
fn find_handle(groups: &Vec<GroupLib>, name: &String) -> (r: Option<usize>)
    ensures
        r matches Some(i) ==> i < groups.len() && groups.deep_view()[i as int].name == name@,
        r is None ==> !contains_named(groups.deep_view(), name@),
{
    let mut i: usize = 0;
    while i < groups.len()
        invariant
            i <= groups.len(),
            forall|j: int| 0 <= j < i ==> groups.deep_view()[j].name != name@,
        decreases groups.len() - i,
    {
        if groups[i].group.name.eq(name) {
            proof {
                assert(groups.deep_view()[i as int].name == name@);
            }
            return Some(i);
        }
        i += 1;
    }
    None
}

} // verus!
