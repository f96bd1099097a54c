//! Command-group descriptors.
//!
//! A loadable module exports a slice of these: each names a group, its
//! option set (prefixes, required role, default sub-command) and the
//! commands it contains.  A descriptor is immutable for the lifetime of the
//! module mapping that exports it; the manager only ever copies it around.

use vstd::prelude::*;

verus! {

/// The mathematical value of a [`CommandGroupDescriptor`].
pub ghost struct DescriptorView {
    pub name: Seq<char>,
    pub prefixes: Seq<Seq<char>>,
    pub default_command: Option<Seq<char>>,
    pub required_role: Option<Seq<char>>,
    pub commands: Seq<Seq<char>>,
}

/// A command group exported by a module: its name, options and commands.
pub struct CommandGroupDescriptor {
    /// The group's unique name within the registry.
    pub name: String,
    /// Prefix words that select this group; empty for prefix-less groups.
    pub prefixes: Vec<String>,
    /// The command used when a prefix matches but no command word does.
    pub default_command: Option<String>,
    /// A role the caller must hold; enforcement is the dispatcher's caller's job.
    pub required_role: Option<String>,
    /// The names of the commands this group contains.
    pub commands: Vec<String>,
}

impl View for CommandGroupDescriptor {
    type V = DescriptorView;

    open spec fn view(&self) -> DescriptorView {
        DescriptorView {
            name: self.name@,
            prefixes: self.prefixes.deep_view(),
            default_command: self.default_command.deep_view(),
            required_role: self.required_role.deep_view(),
            commands: self.commands.deep_view(),
        }
    }
}

impl DeepView for CommandGroupDescriptor {
    type V = DescriptorView;

    open spec fn deep_view(&self) -> DescriptorView {
        self.view()
    }
}

fn clone_string_vec(v: &Vec<String>) -> (r: Vec<String>)
    ensures
        r.deep_view() == v.deep_view(),
{
    let mut r: Vec<String> = Vec::new();
    let mut i: usize = 0;
    while i < v.len()
        invariant
            i <= v.len(),
            r.deep_view() =~= v.deep_view().take(i as int),
        decreases v.len() - i,
    {
        let ghost prev = r.deep_view();
        let c = v[i].clone();
        proof {
            assert(c == v@[i as int]);
        }
        r.push(c);
        proof {
            assert(r.deep_view() =~= prev.push(v@[i as int].deep_view()));
            assert(r.deep_view() =~= v.deep_view().take(i as int + 1));
        }
        i += 1;
    }
    proof {
        assert(r.deep_view() =~= v.deep_view());
    }
    r
}

fn clone_string_option(v: &Option<String>) -> (r: Option<String>)
    ensures
        r.deep_view() == v.deep_view(),
{
    match v {
        Some(s) => Some(s.clone()),
        None => None,
    }
}

impl Clone for CommandGroupDescriptor {
    /// Copies every field; the copy denotes the same descriptor value.
    fn clone(&self) -> (r: Self)
        ensures
            r@ == self@,
    {
        let r = CommandGroupDescriptor {
            name: self.name.clone(),
            prefixes: clone_string_vec(&self.prefixes),
            default_command: clone_string_option(&self.default_command),
            required_role: clone_string_option(&self.required_role),
            commands: clone_string_vec(&self.commands),
        };
        proof {
            assert(r@ == self@);
        }
        r
    }
}

} // verus!
