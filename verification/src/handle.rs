//! Owning module handles.
//!
//! A handle couples one open native-library mapping with the command-group
//! descriptor resolved from it.  The descriptor data lives in the mapping's
//! static memory, so it is valid exactly as long as the mapping is open;
//! the manager therefore never destroys a handle on unload, but parks it in
//! the quarantine until an explicit flush.

use vstd::prelude::*;

use crate::descriptor::CommandGroupDescriptor;
use crate::descriptor::DescriptorView;

verus! {

/// Relies on libloading's `Library`: a value owns one open shared-library
/// mapping and closes it (`dlclose`) when dropped.  The crate never calls
/// into the type — opening a mapping and resolving symbols is the loader's
/// I/O, done by the caller — it only owns values of it so that a mapping
/// stays open exactly as long as its handle lives.
#[verifier::external_type_specification]
#[verifier::external_body]
pub struct ExLibrary(libloading::Library);

/// The owning wrapper around an open module mapping and the descriptor
/// resolved from it.
pub struct GroupLib {
    /// The command group this handle carries.
    pub group: CommandGroupDescriptor,
    /// The open mapping that keeps `group`'s backing memory valid.
    pub lib: libloading::Library,
}

impl View for GroupLib {
    type V = DescriptorView;

    open spec fn view(&self) -> DescriptorView {
        self.group@
    }
}

impl DeepView for GroupLib {
    type V = DescriptorView;

    open spec fn deep_view(&self) -> DescriptorView {
        self.group@
    }
}

/// A freshly opened module, as the loader hands it to the manager: the
/// mapping itself plus the descriptor slice obtained by invoking the
/// module's well-known entry point.
pub struct LoadedModule {
    /// The open mapping of the staged module copy.
    pub mapping: libloading::Library,
    /// The command groups the module exports.
    pub groups: Vec<CommandGroupDescriptor>,
}

impl View for LoadedModule {
    type V = Seq<DescriptorView>;

    open spec fn view(&self) -> Seq<DescriptorView> {
        self.groups.deep_view()
    }
}

} // verus!
