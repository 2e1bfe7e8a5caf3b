//! The persisted unit of the cache: a run summary with its normalized
//! roster, together with the mathematical views the contracts speak of.

use vstd::prelude::*;
use crate::text::str_eq;
use vstd::string::StringExecFns;

verus! {

/// The role a roster member plays in a run. The remote field is free text;
/// roles other than "tank" and "healer" are preserved verbatim in `Other`,
/// so nothing is lost in normalization.
#[derive(Debug, PartialEq, Eq)]
pub enum Role {
    Tank,
    Healer,
    Other(String),
}

/// A role is viewed as the role string it came from.
impl View for Role {
    type V = Seq<char>;

    open spec fn view(&self) -> Seq<char> {
        match self {
            Role::Tank => "tank"@,
            Role::Healer => "healer"@,
            Role::Other(s) => s@,
        }
    }
}

impl DeepView for Role {
    type V = Seq<char>;

    open spec fn deep_view(&self) -> Seq<char> {
        self.view()
    }
}

/// The named variants own their strings: an `Other` never holds the text of
/// a named role, so a role's view determines the role.
pub open spec fn role_wf(r: Role) -> bool {
    match r {
        Role::Other(s) => s@ != "tank"@ && s@ != "healer"@,
        _ => true,
    }
}

impl Clone for Role {
    fn clone(&self) -> (r: Self)
        ensures
            r == *self,
    {
        match self {
            Role::Tank => Role::Tank,
            Role::Healer => Role::Healer,
            Role::Other(s) => Role::Other(s.clone()),
        }
    }
}

/// Classifies a free-text role, keeping unrecognized text verbatim.
pub fn role_of_string(s: String) -> (r: Role)
    ensures
        r@ == s@,
        role_wf(r),
{
    if str_eq(s.as_str(), "tank") {
        Role::Tank
    } else if str_eq(s.as_str(), "healer") {
        Role::Healer
    } else {
        Role::Other(s)
    }
}

/// The role's original text, for rendering and persisting.
pub fn role_string(r: &Role) -> (out: String)
    ensures
        out@ == r@,
{
    match r {
        Role::Tank => String::from_str("tank"),
        Role::Healer => String::from_str("healer"),
        Role::Other(s) => s.clone(),
    }
}

/// One member of a normalized roster.
#[derive(Debug, PartialEq, Eq)]
pub struct RosterEntry {
    pub role: Role,
    pub item_level: i64,
    pub character_name: String,
}

#[verifier::ext_equal]
pub ghost struct RosterEntryView {
    pub role: Seq<char>,
    pub item_level: int,
    pub character_name: Seq<char>,
}

impl View for RosterEntry {
    type V = RosterEntryView;

    open spec fn view(&self) -> RosterEntryView {
        RosterEntryView {
            role: self.role@,
            item_level: self.item_level as int,
            character_name: self.character_name@,
        }
    }
}

impl DeepView for RosterEntry {
    type V = RosterEntryView;

    open spec fn deep_view(&self) -> RosterEntryView {
        self.view()
    }
}

impl Clone for RosterEntry {
    fn clone(&self) -> (r: Self)
        ensures
            r == *self,
    {
        RosterEntry {
            role: self.role.clone(),
            item_level: self.item_level,
            character_name: self.character_name.clone(),
        }
    }
}

/// One cached run: immutable once created, keyed by its id.
#[derive(Debug, PartialEq, Eq)]
pub struct RunSummary {
    pub id: i64,
    pub num_chests: i64,
    pub level: i64,
    pub dungeon_name: String,
    pub roster: Vec<RosterEntry>,
}

#[verifier::ext_equal]
pub ghost struct RunSummaryView {
    pub id: int,
    pub num_chests: int,
    pub level: int,
    pub dungeon_name: Seq<char>,
    pub roster: Seq<RosterEntryView>,
}

impl View for RunSummary {
    type V = RunSummaryView;

    open spec fn view(&self) -> RunSummaryView {
        RunSummaryView {
            id: self.id as int,
            num_chests: self.num_chests as int,
            level: self.level as int,
            dungeon_name: self.dungeon_name@,
            roster: self.roster.deep_view(),
        }
    }
}

impl DeepView for RunSummary {
    type V = RunSummaryView;

    open spec fn deep_view(&self) -> RunSummaryView {
        self.view()
    }
}

impl Clone for RunSummary {
    fn clone(&self) -> (r: Self)
        ensures
            r@ == self@,
    {
        let mut roster: Vec<RosterEntry> = Vec::new();
        let mut i: usize = 0;
        while i < self.roster.len()
            invariant
                0 <= i <= self.roster.len(),
                roster@.len() == i,
                forall|j: int| 0 <= j < i ==> roster@[j] == self.roster@[j],
            decreases self.roster.len() - i,
        {
            roster.push(self.roster[i].clone());
            i += 1;
        }
        proof {
            assert(roster.deep_view() =~= self.roster.deep_view());
        }
        let r = RunSummary {
            id: self.id,
            num_chests: self.num_chests,
            level: self.level,
            dungeon_name: self.dungeon_name.clone(),
            roster,
        };
        proof {
            assert(r@ =~= self@);
        }
        r
    }
}

/// Machine-range bounds on a summary view: every integer field fits an
/// `i64`, and every length fits a `u64`. A view of an in-memory
/// `RunSummary` satisfies them by construction.
pub open spec fn entry_view_bounded(e: RosterEntryView) -> bool {
    &&& i64::MIN <= e.item_level <= i64::MAX
    &&& e.role.len() <= u64::MAX
    &&& e.character_name.len() <= u64::MAX
}

pub open spec fn summary_view_bounded(s: RunSummaryView) -> bool {
    &&& i64::MIN <= s.id <= i64::MAX
    &&& i64::MIN <= s.num_chests <= i64::MAX
    &&& i64::MIN <= s.level <= i64::MAX
    &&& s.dungeon_name.len() <= u64::MAX
    &&& s.roster.len() <= u64::MAX
    &&& forall|i: int| 0 <= i < s.roster.len() ==> entry_view_bounded(#[trigger] s.roster[i])
}

pub open spec fn cache_view_bounded(c: Seq<RunSummaryView>) -> bool {
    &&& c.len() <= u64::MAX
    &&& forall|i: int| 0 <= i < c.len() ==> summary_view_bounded(#[trigger] c[i])
}

} // verus!
