//! Dispatch matching.
//!
//! On every inbound event the dispatcher scans the live dispatch table for
//! a matching command: a group with prefixes is selected by its prefix word
//! and then by a command word (falling back to the group's default
//! command), a group without prefixes directly by a command word.  The
//! first match in table order wins.  The returned hit carries a copy of the
//! matched descriptor, so the handler can run outside the table's lock —
//! the reason unloaded handles are quarantined rather than destroyed.

use vstd::prelude::*;

use crate::descriptor::CommandGroupDescriptor;
use crate::descriptor::DescriptorView;

verus! {

/// True if some element of `ss` equals `s`.
pub open spec fn contains_str(ss: Seq<Seq<char>>, s: Seq<char>) -> bool {
    exists|i: int| 0 <= i < ss.len() && ss[i] == s
}

/// The command, if any, that group `g` yields for the token list `tokens`.
pub open spec fn group_hit(g: DescriptorView, tokens: Seq<Seq<char>>) -> Option<Seq<char>> {
    if g.prefixes.len() > 0 {
        if tokens.len() >= 1 && contains_str(g.prefixes, tokens[0]) {
            if tokens.len() >= 2 && contains_str(g.commands, tokens[1]) {
                Some(tokens[1])
            } else {
                g.default_command
            }
        } else {
            None
        }
    } else {
        if tokens.len() >= 1 && contains_str(g.commands, tokens[0]) {
            Some(tokens[0])
        } else {
            None
        }
    }
}

/// The first group in `table` order that yields a command for `tokens`,
/// together with that command.
pub open spec fn dispatch_match(table: Seq<DescriptorView>, tokens: Seq<Seq<char>>) -> Option<
    (DescriptorView, Seq<char>),
>
    decreases table.len(),
{
    if table.len() == 0 {
        None
    } else {
        match group_hit(table[0], tokens) {
            Some(c) => Some((table[0], c)),
            None => dispatch_match(table.skip(1), tokens),
        }
    }
}

/// A dispatch hit always comes from the table: the matched descriptor is
/// one of the table's entries, and it yields the matched command.  So what
/// a dispatch call captures is a registered group's data, which the
/// quarantine keeps valid across a later unload.
pub proof fn lemma_dispatch_hit_from_table(table: Seq<DescriptorView>, tokens: Seq<Seq<char>>)
    ensures
        dispatch_match(table, tokens) matches Some(hit) ==> table.contains(hit.0) && group_hit(
            hit.0,
            tokens,
        ) == Some(hit.1),
    decreases table.len(),
{
    if table.len() > 0 {
        match group_hit(table[0], tokens) {
            Some(_) => {
                assert(table.contains(table[0]));
            },
            None => {
                lemma_dispatch_hit_from_table(table.skip(1), tokens);
                match dispatch_match(table.skip(1), tokens) {
                    Some(hit) => {
                        let i = choose|i: int|
                            0 <= i < table.skip(1).len() && table.skip(1)[i] == hit.0;
                        assert(table[i + 1] == hit.0);
                    },
                    None => {},
                }
            },
        }
    }
}

/// A matched command: a copy of the matched group's descriptor — the data
/// a dispatch call captures and keeps while the handler runs — and the
/// command word within that group.
pub struct CommandHit {
    /// A copy of the matched group's descriptor.
    pub group: CommandGroupDescriptor,
    /// The matched command's name.
    pub command: String,
}

/// True if some element of `v` equals `s`.
fn vec_contains_str(v: &Vec<String>, s: &String) -> (r: bool)
    ensures
        r == contains_str(v.deep_view(), s@),
{
    let mut i: usize = 0;
    while i < v.len()
        invariant
            i <= v.len(),
            forall|j: int| 0 <= j < i ==> v.deep_view()[j] != s@,
        decreases v.len() - i,
    {
        if v[i].eq(s) {
            proof {
                assert(v.deep_view()[i as int] == s@);
            }
            return true;
        }
        i += 1;
    }
    false
}

/// The command, if any, that one group yields for a token list.
fn group_hit_exec(g: &CommandGroupDescriptor, tokens: &Vec<String>) -> (r: Option<String>)
    ensures
        match r {
            Some(c) => group_hit(g@, tokens.deep_view()) == Some(c@),
            None => group_hit(g@, tokens.deep_view()) is None,
        },
{
    let ghost tv = tokens.deep_view();
    if g.prefixes.len() > 0 {
        if tokens.len() >= 1 && vec_contains_str(&g.prefixes, &tokens[0]) {
            proof {
                assert(tv[0] == tokens@[0]@);
            }
            if tokens.len() >= 2 && vec_contains_str(&g.commands, &tokens[1]) {
                proof {
                    assert(tv[1] == tokens@[1]@);
                }
                Some(tokens[1].clone())
            } else {
                match &g.default_command {
                    Some(d) => Some(d.clone()),
                    None => None,
                }
            }
        } else {
            None
        }
    } else {
        if tokens.len() >= 1 && vec_contains_str(&g.commands, &tokens[0]) {
            proof {
                assert(tv[0] == tokens@[0]@);
            }
            Some(tokens[0].clone())
        } else {
            None
        }
    }
}

/// Scans `table` in order for the first group that yields a command for
/// `tokens`; the returned hit copies the matched descriptor out of the
/// table.
pub fn find_command(table: &Vec<CommandGroupDescriptor>, tokens: &Vec<String>) -> (r: Option<
    CommandHit,
>)
    ensures
        match r {
            Some(hit) => dispatch_match(table.deep_view(), tokens.deep_view()) == Some(
                (hit.group@, hit.command@),
            ),
            None => dispatch_match(table.deep_view(), tokens.deep_view()) is None,
        },
{
    let ghost tbl = table.deep_view();
    let ghost tv = tokens.deep_view();
    let mut i: usize = 0;
    proof {
        assert(tbl.skip(0) =~= tbl);
    }
    while i < table.len()
        invariant
            i <= table.len(),
            tbl == table.deep_view(),
            tv == tokens.deep_view(),
            dispatch_match(tbl, tv) == dispatch_match(tbl.skip(i as int), tv),
        decreases table.len() - i,
    {
        let hit = group_hit_exec(&table[i], tokens);
        proof {
            assert(tbl.skip(i as int)[0] == tbl[i as int]);
            assert(tbl.skip(i as int).skip(1) =~= tbl.skip(i as int + 1));
        }
        match hit {
            Some(c) => {
                return Some(CommandHit { group: table[i].clone(), command: c });
            },
            None => {},
        }
        i += 1;
    }
    proof {
        assert(tbl.skip(table.len() as int) =~= Seq::<DescriptorView>::empty());
    }
    None
}

/// Strips `prefix` from the front of `message`: the remainder if the
/// message starts with the prefix, nothing otherwise.
pub fn strip_prefix(message: &String, prefix: &String) -> (r: Option<String>)
    ensures
        r is Some <==> message@.len() >= prefix@.len() && message@.take(prefix@.len() as int)
            == prefix@,
        r matches Some(rest) ==> rest@ == message@.skip(prefix@.len() as int),
{
    let plen = prefix.as_str().unicode_len();
    let mlen = message.as_str().unicode_len();
    if mlen < plen {
        return None;
    }
    let head = message.as_str().substring_char(0, plen);
    let owned_head = head.to_owned();
    if owned_head.eq(prefix) {
        let rest = message.as_str().substring_char(plen, mlen);
        proof {
            assert(rest@ =~= message@.skip(plen as int));
        }
        Some(rest.to_owned())
    } else {
        None
    }
}

} // verus!
