//! Simulation-wide resources: gravity, the per-tick candidate pair list and
//! the two per-tick contact lists.

use crate::fx::Vec2;
use vstd::prelude::*;

verus! {

/// The gravitational acceleration applied to every dynamic body, in raw
/// units per second per second.
#[derive(Clone, Copy, Debug, PartialEq, Eq)]
pub struct Gravity(pub Vec2);

impl Default for Gravity {
    /// Defaults to 9.81 units per second squared, straight down.
    fn default() -> (g: Gravity)
        ensures
            g.0 == (Vec2 { x: 0i64, y: -9_810_000i64 }),
    {
        Gravity(Vec2 { x: 0, y: -9_810_000 })
    }
}

/// Candidate dynamic/dynamic pairs collected by the broad phase, rebuilt
/// from scratch every tick.  Each entry holds two distinct body indices,
/// smaller first.
#[derive(Debug)]
pub struct CollisionPairs(pub Vec<(usize, usize)>);

/// Dynamic/dynamic contacts recorded by the positional solver: the two body
/// indices and the unit contact normal pointing from the first body to the
/// second.  Rebuilt every tick, consumed by the restitution pass.
#[derive(Debug)]
pub struct Contacts(pub Vec<(usize, usize, Vec2)>);

/// Dynamic/static contacts: the dynamic body index, the static obstacle
/// index and the unit contact normal pointing from the body to the obstacle.
#[derive(Debug)]
pub struct StaticContacts(pub Vec<(usize, usize, Vec2)>);

impl Default for CollisionPairs {
    fn default() -> (c: CollisionPairs)
        ensures
            c.0@.len() == 0,
    {
        CollisionPairs(Vec::new())
    }
}

impl Default for Contacts {
    fn default() -> (c: Contacts)
        ensures
            c.0@.len() == 0,
    {
        Contacts(Vec::new())
    }
}

impl Default for StaticContacts {
    fn default() -> (c: StaticContacts)
        ensures
            c.0@.len() == 0,
    {
        StaticContacts(Vec::new())
    }
}

/// Empty both contact lists; the start of every tick's solving phase.
pub fn clear_contacts(contacts: &mut Contacts, static_contacts: &mut StaticContacts)
    ensures
        final(contacts).0@.len() == 0,
        final(static_contacts).0@.len() == 0,
{
    contacts.0.clear();
    static_contacts.0.clear();
}

} // verus!
