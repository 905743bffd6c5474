//! The table of sources whose traffic is inspected. The control plane
//! fills it; the classifier only looks addresses up.

use std::collections::HashMap;
use vstd::prelude::*;

verus! {

broadcast use vstd::std_specs::hash::group_hash_axioms;

/// The usual capacity of the table, in entries.
pub const BLOCKLIST_MAX_ENTRIES: u32 = 1024;

/// An insertion of a new key into a table that is full.
#[derive(Debug, Clone, Copy, PartialEq, Eq)]
pub struct TableFull;

/// The table of source addresses whose traffic is inspected: a map of fixed
/// capacity from an IPv4 address, as a number whose most significant byte is
/// the first octet, to a marker that nothing reads.
pub struct Blocklist {
    entries: HashMap<u32, u32>,
    max_entries: u32,
}

impl View for Blocklist {
    type V = Map<u32, u32>;

    closed spec fn view(&self) -> Map<u32, u32> {
        self.entries@
    }
}

impl Blocklist {
    #[verifier::type_invariant]
    spec fn within_capacity(self) -> bool {
        self.entries@.dom().finite() && self.entries@.len() <= self.max_entries
    }

    /// The number of entries that the table can hold.
    pub closed spec fn capacity(self) -> nat {
        self.max_entries as nat
    }

    /// An empty table that can hold `max_entries` entries.
    pub fn with_max_entries(max_entries: u32) -> (table: Self)
        ensures
            table@ == Map::<u32, u32>::empty(),
            table.capacity() == max_entries,
    {
        Blocklist { entries: HashMap::new(), max_entries }
    }

    /// The number of entries, which never exceeds the capacity.
    pub fn len(&self) -> (count: usize)
        ensures
            count == self@.len(),
            self@.dom().finite(),
            count <= self.capacity(),
    {
        proof {
            use_type_invariant(self);
        }
        self.entries.len()
    }

    /// The marker stored for `address`, if the address is listed.
    pub fn get(&self, address: u32) -> (marker: Option<u32>)
        ensures
            marker == (if self@.contains_key(address) {
                Some(self@[address])
            } else {
                None
            }),
    {
        match self.entries.get(&address) {
            Some(value) => Some(*value),
            None => None,
        }
    }

    /// Lists `address`, or replaces its marker if it is listed already. A new
    /// address is refused once the table is full.
    pub fn insert(&mut self, address: u32, marker: u32) -> (outcome: Result<(), TableFull>)
        ensures
            final(self).capacity() == old(self).capacity(),
            outcome is Ok <==> old(self)@.contains_key(address) || old(self)@.len() < old(
                self,
            ).capacity(),
            outcome is Ok ==> final(self)@ == old(self)@.insert(address, marker),
            outcome is Err ==> final(self)@ == old(self)@,
            final(self)@.len() <= final(self).capacity(),
    {
        proof {
            use_type_invariant(&*self);
        }
        if !self.entries.contains_key(&address) && self.entries.len() >= self.max_entries as usize {
            return Err(TableFull);
        }
        // the map is taken out while it changes and put back within capacity
        let mut entries = HashMap::new();
        core::mem::swap(&mut self.entries, &mut entries);
        entries.insert(address, marker);
        core::mem::swap(&mut self.entries, &mut entries);
        Ok(())
    }

    /// Takes `address` off the list and returns its marker, if it was listed.
    pub fn remove(&mut self, address: u32) -> (marker: Option<u32>)
        ensures
            final(self).capacity() == old(self).capacity(),
            final(self)@ == old(self)@.remove(address),
            marker == (if old(self)@.contains_key(address) {
                Some(old(self)@[address])
            } else {
                None
            }),
    {
        proof {
            use_type_invariant(&*self);
        }
        let mut entries = HashMap::new();
        core::mem::swap(&mut self.entries, &mut entries);
        let marker = entries.remove(&address);
        core::mem::swap(&mut self.entries, &mut entries);
        marker
    }
}

/// Whether `address` is listed.
#[inline(always)]
pub fn block_ip(blocklist: &Blocklist, address: u32) -> (listed: bool)
    ensures
        listed == blocklist@.contains_key(address),
{
    blocklist.get(address).is_some()
}

} // verus!
