//! The framework facade: the live dispatch table over the plugin manager.
//!
//! The dispatcher walks the table of command-group descriptors on every
//! inbound event; all registry mutations funnel through this facade so the
//! table always reflects exactly the set of groups registered in the
//! manager.  Every operation here changes registry and table as one unit:
//! either both gain (or lose) an entry, or neither does.

use vstd::prelude::*;

use crate::descriptor::CommandGroupDescriptor;
use crate::descriptor::DescriptorView;
use crate::dispatch::dispatch_match;
use crate::dispatch::find_command;
use crate::dispatch::CommandHit;
use crate::errors::PluginError;
use crate::handle::LoadedModule;
use crate::manager::contains_named;
use crate::manager::find_first_descriptor;
use crate::manager::first_named;
use crate::manager::load_all;
use crate::manager::load_all_failed;
use crate::manager::load_all_loaded;
use crate::manager::GroupLoadOutcome;
use crate::manager::LoadReport;
use crate::manager::ManagerView;
use crate::manager::PluginManager;
use crate::staging::staged_path;

verus! {

/// The mathematical state of a [`ToasterFramework`].
#[verifier::ext_equal]
pub ghost struct FrameworkView {
    /// The framework-level command prefix, e.g. `t>`.
    pub prefix: Seq<char>,
    /// The plugin manager's state.
    pub manager: ManagerView,
    /// The live dispatch table the dispatcher walks.
    pub table: Seq<DescriptorView>,
}

impl FrameworkView {
    /// The manager's registry is well-formed and the live dispatch table
    /// reflects it exactly: the two never diverge.
    pub open spec fn wf(self) -> bool {
        self.manager.wf() && self.table == self.manager.groups
    }
}

/// The dispatch framework: the command prefix, the plugin manager and the
/// live dispatch table.
pub struct ToasterFramework {
    prefix: String,
    plugin_manager: PluginManager,
    inner: Vec<CommandGroupDescriptor>,
}

impl View for ToasterFramework {
    type V = FrameworkView;

    closed spec fn view(&self) -> FrameworkView {
        FrameworkView {
            prefix: self.prefix@,
            manager: self.plugin_manager@,
            table: self.inner.deep_view(),
        }
    }
}

impl ToasterFramework {
    /// Wraps a freshly constructed manager; the dispatch table starts empty,
    /// matching the manager's empty registry.
    pub fn new(plugin_manager: PluginManager, prefix: String) -> (r: Self)
        requires
            plugin_manager@.groups == Seq::<DescriptorView>::empty(),
        ensures
            r@ == (FrameworkView {
                prefix: prefix@,
                manager: plugin_manager@,
                table: Seq::empty(),
            }),
            r@.wf(),
    {
        let r = ToasterFramework { prefix, plugin_manager, inner: Vec::new() };
        proof {
            assert(r@.table =~= Seq::<DescriptorView>::empty());
        }
        r
    }

    /// The current framework-level command prefix.
    pub fn prefix(&self) -> (r: &String)
        ensures
            r@ == self@.prefix,
    {
        &self.prefix
    }

    /// Changes the framework-level command prefix; groups are unaffected.
    pub fn set_prefix(&mut self, prefix: String)
        ensures
            final(self)@ == (FrameworkView { prefix: prefix@, ..old(self)@ }),
    {
        self.prefix = prefix;
        proof {
            assert(self@ =~= FrameworkView { prefix: prefix@, ..old(self)@ });
        }
    }

    /// Begins a load attempt: delegates to the manager's staging step.  The
    /// table is untouched; the returned staged path is where the caller must
    /// copy the canonical module before opening it.
    pub fn begin_add_group(&mut self, group_name: &String) -> (r: Result<String, PluginError>)
        requires
            old(self)@.manager.counter < u64::MAX,
        ensures
            final(self)@.wf() == old(self)@.wf(),
            final(self)@.prefix == old(self)@.prefix,
            final(self)@.table == old(self)@.table,
            old(self)@.manager.is_loaded(group_name@) ==> final(self)@ == old(self)@ && (r matches
            Err(e) && e == PluginError::AlreadyLoaded),
            !old(self)@.manager.is_loaded(group_name@) ==> final(self)@.manager == old(
                self,
            )@.manager.bump() && (r matches Ok(p) && p@ == staged_path(
                old(self)@.manager.temp_dir,
                group_name@,
                old(self)@.manager.counter + 1,
            )),
    {
        let ghost pre = *self;
        let r = self.plugin_manager.begin_load(group_name);
        proof {
            if pre@.manager.is_loaded(group_name@) {
                assert(self@ =~= pre@);
            }
        }
        r
    }

    /// Adds a group as one unit: registers it in the manager out of the
    /// opened module and appends its descriptor to the dispatch table, or —
    /// if the name is taken or the module does not export it — changes
    /// nothing at all.
    pub fn add_group(&mut self, group_name: &String, module: LoadedModule) -> (r: Result<
        (),
        PluginError,
    >)
        requires
            old(self)@.wf(),
        ensures
            final(self)@.wf(),
            final(self)@.prefix == old(self)@.prefix,
            r is Ok <==> !old(self)@.manager.is_loaded(group_name@) && contains_named(
                module@,
                group_name@,
            ),
            r is Ok ==> final(self)@.manager == old(self)@.manager.register(
                first_named(module@, group_name@),
            ),
            r is Err ==> final(self)@ == old(self)@,
            old(self)@.manager.is_loaded(group_name@) ==> (r matches Err(e) && e
                == PluginError::AlreadyLoaded),
            !old(self)@.manager.is_loaded(group_name@) && !contains_named(module@, group_name@)
                ==> (r matches Err(e) && e == PluginError::GroupNotFound),
    {
        let ghost pre = *self;
        match self.plugin_manager.load_group(group_name, module) {
            Ok(d) => {
                let ghost dv = d@;
                self.inner.push(d);
                proof {
                    assert(self@.table =~= pre@.table.push(dv));
                    assert(self@.table == self@.manager.groups);
                }
                Ok(())
            },
            Err(e) => {
                proof {
                    assert(self@ =~= pre@);
                }
                Err(e)
            },
        }
    }

    /// Attempts one load per outcome in order, continuing past failures,
    /// then rebuilds the dispatch table to match the registry.  Reports
    /// which groups were registered and which failed.
    pub fn add_all_groups(&mut self, outcomes: Vec<GroupLoadOutcome>) -> (report: LoadReport)
        requires
            old(self)@.wf(),
        ensures
            final(self)@.wf(),
            final(self)@.prefix == old(self)@.prefix,
            final(self)@.manager == load_all(old(self)@.manager, outcomes.deep_view()),
            report.loaded.deep_view() == load_all_loaded(old(self)@.manager, outcomes.deep_view()),
            report.failed.deep_view() == load_all_failed(old(self)@.manager, outcomes.deep_view()),
    {
        let report = self.plugin_manager.load_all_groups(outcomes);
        self.inner = self.plugin_manager.descriptors();
        report
    }

    /// Removes a group as one unit: moves its handle from the registry to
    /// the quarantine and deletes its descriptor from the dispatch table, or
    /// — if the name is not loaded — changes nothing at all.
    pub fn remove_group(&mut self, group_name: &String) -> (r: Result<(), PluginError>)
        requires
            old(self)@.wf(),
        ensures
            final(self)@.wf(),
            final(self)@.prefix == old(self)@.prefix,
            r is Ok <==> old(self)@.manager.is_loaded(group_name@),
            r is Ok ==> final(self)@.manager == old(self)@.manager.unload(group_name@),
            r is Err ==> final(self)@ == old(self)@ && (r matches Err(e) && e
                == PluginError::NotLoaded),
    {
        let ghost pre = *self;
        match self.plugin_manager.unload_group(group_name) {
            Err(e) => {
                proof {
                    assert(self@ =~= pre@);
                }
                Err(e)
            },
            Ok(d) => {
                proof {
                    assert(d.name@ == group_name@);
                }
                match find_first_descriptor(&self.inner, &d.name) {
                    None => {
                        proof {
                            assert(contains_named(pre@.table, group_name@));
                            assert(false);
                        }
                        Err(PluginError::NotLoaded)
                    },
                    Some(i) => {
                        proof {
                            let k = pre@.manager.loaded_index(group_name@);
                            assert(pre@.table[i as int].name == group_name@);
                            assert(0 <= k < pre@.manager.groups.len()
                                && pre@.manager.groups[k].name == group_name@);
                            assert(k == i as int);
                        }
                        self.inner.remove(i);
                        proof {
                            assert(self@.table =~= pre@.table.remove(i as int));
                            assert(self@.table == self@.manager.groups);
                        }
                        Ok(())
                    },
                }
            },
        }
    }

    /// Destroys every quarantined handle; registry and table are untouched.
    pub fn flush_lib_buffer(&mut self)
        ensures
            final(self)@ == (FrameworkView {
                manager: old(self)@.manager.flush(),
                ..old(self)@
            }),
            final(self)@.wf() == old(self)@.wf(),
    {
        self.plugin_manager.flush_unload_buffer();
        proof {
            assert(self@ =~= FrameworkView { manager: old(self)@.manager.flush(), ..old(self)@ });
        }
    }

    /// The dispatch decision for a tokenized message body (the framework
    /// prefix already stripped): the first group in table order whose
    /// prefix and command words match the tokens.  The returned hit copies
    /// the matched descriptor out of the table, so the handler can run
    /// without the table being held.
    pub fn dispatch(&self, tokens: &Vec<String>) -> (r: Option<CommandHit>)
        ensures
            match r {
                Some(hit) => dispatch_match(self@.table, tokens.deep_view()) == Some(
                    (hit.group@, hit.command@),
                ),
                None => dispatch_match(self@.table, tokens.deep_view()) is None,
            },
    {
        find_command(&self.inner, tokens)
    }

    /// The commit step of a reload, entered after the group was removed
    /// (and its old handle quarantined) and the external build step ran.
    /// A failed build or reopen leaves the group exactly as the removal
    /// left it — unloaded, with no rollback to the superseded handle — and
    /// reports the step's error; a successful one proceeds as an ordinary
    /// add of the rebuilt module.
    pub fn finish_reload(&mut self, group_name: &String, rebuilt: Result<
        LoadedModule,
        PluginError,
    >) -> (r: Result<(), PluginError>)
        requires
            old(self)@.wf(),
        ensures
            final(self)@.wf(),
            final(self)@.prefix == old(self)@.prefix,
            rebuilt matches Err(e) ==> final(self)@ == old(self)@ && (r matches Err(e2) && e2
                == e),
            rebuilt matches Ok(m) ==> {
                &&& (r is Ok <==> !old(self)@.manager.is_loaded(group_name@) && contains_named(
                    m@,
                    group_name@,
                ))
                &&& (r is Ok ==> final(self)@.manager == old(self)@.manager.register(
                    first_named(m@, group_name@),
                ))
                &&& (r is Err ==> final(self)@ == old(self)@)
            },
    {
        match rebuilt {
            Err(e) => Err(e),
            Ok(m) => self.add_group(group_name, m),
        }
    }

    /// How many load attempts the manager has begun so far.
    pub fn load_count(&self) -> (r: u64)
        ensures
            r as nat == self@.manager.counter,
    {
        self.plugin_manager.load_count()
    }

    /// A snapshot of the registered group names, in registration order.
    pub fn get_group_list(&self) -> (r: Vec<String>)
        ensures
            r.deep_view() == self@.manager.group_names(),
    {
        self.plugin_manager.list_groups()
    }
}

} // verus!
