//! Roster normalization: the canonical order of a run's roster and its
//! projection to the cached shape.
//!
//! The sort key is the role priority tank, healer, everything else; the
//! sort is stable, so entries of equal priority keep the order the remote
//! payload gave them. The result is pinned exactly: the entries of
//! priority 0, in source order, then those of priority 1, then the rest.

use vstd::prelude::*;
use crate::response::key::Roster;
use crate::summary::{role_of_string, RosterEntry, RosterEntryView};
use crate::text::str_eq;

verus! {

/// Sort priority of a role string: tank first, healer second, everything
/// else (dps included) last.
pub open spec fn role_priority(role: Seq<char>) -> int {
    if role == "tank"@ {
        0
    } else if role == "healer"@ {
        1
    } else {
        2
    }
}

/// The members of `s` whose role has priority `p`, in source order.
pub open spec fn keep_pri(s: Seq<Roster>, p: int) -> Seq<Roster>
    decreases s.len(),
{
    if s.len() == 0 {
        Seq::empty()
    } else {
        let front = keep_pri(s.drop_last(), p);
        if role_priority(s.last().role@) == p {
            front.push(s.last())
        } else {
            front
        }
    }
}

/// The normalized order of a raw roster.
pub open spec fn sorted_roster(s: Seq<Roster>) -> Seq<Roster> {
    keep_pri(s, 0) + keep_pri(s, 1) + keep_pri(s, 2)
}

fn priority_of(role: &String) -> (p: u64)
    ensures
        p as int == role_priority(role@),
{
    if str_eq(role.as_str(), "tank") {
        0
    } else if str_eq(role.as_str(), "healer") {
        1
    } else {
        2
    }
}

/// Appends to `out` every member of `src` whose role has priority `p`,
/// keeping their relative order.
#[verifier::loop_isolation(false)]
fn push_pri(src: &Vec<Roster>, out: &mut Vec<Roster>, p: u64)
    ensures
        final(out)@ == old(out)@ + keep_pri(src@, p as int),
{
    let ghost s = src@;
    let mut i: usize = 0;
    while i < src.len()
        invariant
            0 <= i <= s.len(),
            out@ == old(out)@ + keep_pri(s.take(i as int), p as int),
        decreases s.len() - i,
    {
        proof {
            assert(s.take(i + 1).drop_last() =~= s.take(i as int));
            assert(s.take(i + 1).last() == s[i as int]);
        }
        if priority_of(&src[i].role) == p {
            out.push(src[i].clone());
        }
        i += 1;
    }
    proof {
        assert(s.take(s.len() as int) =~= s);
    }
}

/// Stable three-way sort of a raw roster by role priority. The result is
/// exactly the priority-0 members in source order, then the priority-1
/// members, then the rest.
pub fn sort_roster(roster: &mut Vec<Roster>)
    ensures
        final(roster)@ == sorted_roster(old(roster)@),
{
    let mut out: Vec<Roster> = Vec::new();
    push_pri(roster, &mut out, 0);
    push_pri(roster, &mut out, 1);
    push_pri(roster, &mut out, 2);
    proof {
        assert(out@ =~= sorted_roster(roster@));
    }
    *roster = out;
}

/// The cached shape of one raw roster member: a field projection.
pub open spec fn entry_of(r: Roster) -> RosterEntryView {
    RosterEntryView {
        role: r.role@,
        item_level: r.items.item_level_equipped as int,
        character_name: r.character.name@,
    }
}

/// Each member projected to its cached shape, order preserved.
pub open spec fn project_spec(s: Seq<Roster>) -> Seq<RosterEntryView> {
    s.map_values(|r: Roster| entry_of(r))
}

/// What normalization leaves of a raw roster: sorted, then projected,
/// one output entry per input member, no filtering.
pub open spec fn normalize_spec(s: Seq<Roster>) -> Seq<RosterEntryView> {
    project_spec(sorted_roster(s))
}

/// Projects each member to its cached shape, preserving order.
#[verifier::loop_isolation(false)]
pub fn project_roster(roster: &Vec<Roster>) -> (out: Vec<RosterEntry>)
    ensures
        out.deep_view() == project_spec(roster@),
{
    let mut out: Vec<RosterEntry> = Vec::new();
    let mut i: usize = 0;
    while i < roster.len()
        invariant
            0 <= i <= roster@.len(),
            out@.len() == i,
            forall|j: int| 0 <= j < i ==> (#[trigger] out@[j])@ == entry_of(roster@[j]),
        decreases roster@.len() - i,
    {
        let m = &roster[i];
        let e = RosterEntry {
            role: role_of_string(m.role.clone()),
            item_level: m.items.item_level_equipped,
            character_name: m.character.name.clone(),
        };
        proof {
            assert(e@ =~= entry_of(roster@[i as int]));
        }
        let ghost o0 = out@;
        out.push(e);
        proof {
            assert forall|j: int| 0 <= j <= i implies (#[trigger] out@[j])@ == entry_of(
                roster@[j],
            ) by {
                if j < i {
                    assert(out@[j] == o0[j]);
                } else {
                    assert(out@[j] == e);
                }
            }
        }
        i += 1;
    }
    proof {
        assert(out.deep_view() =~= project_spec(roster@));
    }
    out
}

} // verus!
