//! Decisions of the administrative command surface.
//!
//! The chat-facing `plugin add/remove/list/reload/flush` commands are thin
//! callers into the framework facade; what they decide beyond that is
//! here: the safety guards around the group that implements those commands
//! itself, and the rendering of the group list.

use vstd::prelude::*;

verus! {

/// True if `a` equals the literal `lit`.
fn text_is(a: &String, lit: &str) -> (r: bool)
    ensures
        r == (a@ == lit@),
{
    let s = lit.to_owned();
    a.eq(&s)
}

/// Whether an add of `group_name` may be preceded by the customary
/// quarantine flush.  Adding the administrative group right after its own
/// removal must not flush: its quarantined old handle may still be
/// executing the very command frame that performs the add.
pub fn flush_before_add(group_name: &String) -> (r: bool)
    ensures
        r == (group_name@ != "plugins"@),
{
    !text_is(group_name, "plugins")
}

/// Whether a reload of `group_name` demands explicit confirmation.
/// Reloading the administrative group replaces the code of the command
/// that performs the reload, so it is never done on a bare request.
pub fn reload_requires_confirmation(group_name: &String) -> (r: bool)
    ensures
        r == (group_name@ == "plugins"@),
{
    text_is(group_name, "plugins")
}

/// One rendered line per group name: `- {name}\n`, in list order.
pub open spec fn group_lines(names: Seq<Seq<char>>) -> Seq<char>
    decreases names.len(),
{
    if names.len() == 0 {
        Seq::empty()
    } else {
        group_lines(names.drop_last()) + "- "@ + names.last() + "\n"@
    }
}

/// The rendered group list: a code block holding one line per group.
pub open spec fn group_list_text(names: Seq<Seq<char>>) -> Seq<char> {
    "```Groups found:\n\n"@ + group_lines(names) + "```"@
}

/// Renders the group list as the `plugin list` command reports it.
pub fn format_group_list(groups: &Vec<String>) -> (r: String)
    ensures
        r@ == group_list_text(groups.deep_view()),
{
    let ghost names = groups.deep_view();
    let mut s = String::from_str("```Groups found:\n\n");
    let mut i: usize = 0;
    while i < groups.len()
        invariant
            i <= groups.len(),
            names == groups.deep_view(),
            s@ == "```Groups found:\n\n"@ + group_lines(names.take(i as int)),
        decreases groups.len() - i,
    {
        s.append("- ");
        s.append(groups[i].as_str());
        s.append("\n");
        proof {
            assert(names.take(i as int + 1).drop_last() =~= names.take(i as int));
            assert(names.take(i as int + 1).last() == names[i as int]);
            assert(s@ =~= "```Groups found:\n\n"@ + group_lines(names.take(i as int + 1)));
        }
        i += 1;
    }
    s.append("```");
    proof {
        assert(names.take(names.len() as int) =~= names);
        assert(s@ =~= group_list_text(names));
    }
    s
}

} // verus!
