//! The run-details response shape: one dungeon run with its roster.

use vstd::prelude::*;

verus! {

/// A single run-details response.
pub struct KeyResponse {
    pub season: String,
    pub status: String,
    pub dungeon: Dungeon,
    pub keystone_run_id: i64,
    pub mythic_level: i64,
    pub num_chests: i64,
    pub roster: Vec<Roster>,
}

/// The dungeon a run took place in.
pub struct Dungeon {
    pub name: String,
    pub short_name: String,
}

/// One member of a run's roster as the remote API reports it: the role is
/// free text.
pub struct Roster {
    pub character: Character,
    pub items: Items,
    pub role: String,
}

/// Gear information of a roster member.
pub struct Items {
    pub item_level_equipped: i64,
}

/// Identity of a roster member.
pub struct Character {
    pub name: String,
}

impl Clone for Character {
    fn clone(&self) -> (r: Self)
        ensures
            r == *self,
    {
        Character { name: self.name.clone() }
    }
}

impl Clone for Items {
    fn clone(&self) -> (r: Self)
        ensures
            r == *self,
    {
        Items { item_level_equipped: self.item_level_equipped }
    }
}

impl Clone for Roster {
    fn clone(&self) -> (r: Self)
        ensures
            r == *self,
    {
        Roster {
            character: self.character.clone(),
            items: self.items.clone(),
            role: self.role.clone(),
        }
    }
}

} // verus!
