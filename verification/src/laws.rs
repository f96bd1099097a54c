//! Guarantees of the plugin manager, stated and proved over its state
//! model.  Each law speaks about the transitions that the manager's
//! operations are specified against, so it covers every reachable state.

use vstd::prelude::*;

use crate::descriptor::DescriptorView;
use crate::manager::lemma_register_preserves_wf;
use crate::manager::lemma_unload_preserves_wf;
use crate::manager::ManagerView;

verus! {

/// Loading a group that is not currently loaded makes it listed: after the
/// registration the group list contains its name and the name reports as
/// loaded — which is exactly the condition under which a second
/// `load_group` of the same name returns `AlreadyLoaded`.
pub proof fn lemma_load_then_listed(v: ManagerView, d: DescriptorView)
    requires
        v.wf(),
        !v.is_loaded(d.name),
    ensures
        v.register(d).wf(),
        v.register(d).is_loaded(d.name),
        v.register(d).group_names().contains(d.name),
{
    lemma_register_preserves_wf(v, d);
    let w = v.register(d);
    let k = w.groups.len() - 1;
    assert(w.groups[k] == d);
    assert(w.group_names()[k] == d.name);
}

/// Unloading a loaded group delists it: afterwards its name is absent from
/// the group list and no longer reports as loaded — which is exactly the
/// condition under which a second `unload_group` of the same name returns
/// `NotLoaded`.
pub proof fn lemma_unload_then_delisted(v: ManagerView, name: Seq<char>)
    requires
        v.wf(),
        v.is_loaded(name),
    ensures
        v.unload(name).wf(),
        !v.unload(name).is_loaded(name),
        !v.unload(name).group_names().contains(name),
{
    lemma_unload_preserves_wf(v, name);
    let w = v.unload(name);
    if w.group_names().contains(name) {
        let i = choose|i: int| 0 <= i < w.group_names().len() && w.group_names()[i] == name;
        assert(w.groups[i].name == name);
        assert(w.is_loaded(name));
    }
}

/// An unload parks the removed handle in the quarantine instead of
/// destroying it: the unloaded group's registered descriptor — the data a
/// dispatch call may have captured before the removal — is still owned
/// after the unload, and stays owned until an explicit flush.
pub proof fn lemma_unload_retains_descriptor(v: ManagerView, name: Seq<char>)
    requires
        v.wf(),
        v.is_loaded(name),
    ensures
        v.loaded_descriptor(name).name == name,
        v.unload(name).quarantine == v.quarantine.push(v.loaded_descriptor(name)),
        v.unload(name).quarantine.contains(v.loaded_descriptor(name)),
{
    let w = v.unload(name);
    let k = v.loaded_index(name);
    assert(0 <= k < v.groups.len() && v.groups[k].name == name);
    assert(w.quarantine.last() == v.loaded_descriptor(name));
}

/// Flushing the quarantine is idempotent: a second flush immediately after
/// a first changes nothing.
pub proof fn lemma_flush_idempotent(v: ManagerView)
    ensures
        v.flush().flush() == v.flush(),
{
    assert(v.flush().flush() =~= v.flush());
}

} // verus!
