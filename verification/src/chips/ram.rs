//! The state of the read-write memory between two rows: for every byte that
//! was accessed, the value and the timestamp that the latest access left.

use vstd::prelude::*;
use std::collections::HashMap;

verus! {

broadcast use vstd::std_specs::hash::group_hash_axioms;

/// One access to a byte of memory: the value that the byte holds after it,
/// and the time at which it happened.
pub struct RamAccess {
    pub address: u32,
    pub value: u8,
    pub timestamp: u32,
}

/// The latest access to `address` among `history`, if there is one.
pub open spec fn last_ram_access(history: Seq<RamAccess>, address: u32) -> Option<RamAccess>
    decreases history.len(),
{
    if history.len() == 0 {
        None
    } else if history.last().address == address {
        Some(history.last())
    } else {
        last_ram_access(history.drop_last(), address)
    }
}

/// The value that the byte at `address` holds after the accesses of
/// `history`; memory starts out as zeros.
pub open spec fn byte_in(history: Seq<RamAccess>, address: u32) -> u8 {
    match last_ram_access(history, address) {
        Some(access) => access.value,
        None => 0,
    }
}

/// The timestamp of the latest access to `address` in `history`, zero if
/// there is none.
pub open spec fn ram_timestamp_in(history: Seq<RamAccess>, address: u32) -> u32 {
    match last_ram_access(history, address) {
        Some(access) => access.timestamp,
        None => 0,
    }
}

/// Whether `address` was accessed in `history`.
pub open spec fn touched_in(history: Seq<RamAccess>, address: u32) -> bool {
    last_ram_access(history, address) is Some
}

/// Whether no access of `history` happened after `limit`.
pub open spec fn not_after(history: Seq<RamAccess>, limit: nat) -> bool {
    forall|i: int| 0 <= i < history.len() ==> (#[trigger] history[i]).timestamp <= limit
}

/// The latest access to an address is one of the accesses.
pub proof fn lemma_last_ram_access(history: Seq<RamAccess>, address: u32)
    ensures
        match last_ram_access(history, address) {
            Some(access) => access.address == address && history.contains(access),
            None => forall|i: int| 0 <= i < history.len() ==> (#[trigger] history[i]).address
                != address,
        },
    decreases history.len(),
{
    if history.len() > 0 {
        let earlier = history.drop_last();
        if history.last().address == address {
            assert(history[history.len() - 1] == history.last());
        } else {
            lemma_last_ram_access(earlier, address);
            match last_ram_access(earlier, address) {
                Some(access) => {
                    let k = choose|k: int| 0 <= k < earlier.len() && earlier[k] == access;
                    assert(history[k] == access);
                },
                None => {
                    assert forall|i: int| 0 <= i < history.len() implies (
                    #[trigger] history[i]).address != address by {
                        if i < earlier.len() {
                            assert(earlier[i] == history[i]);
                        }
                    }
                },
            }
        }
    }
}

/// The value and the timestamp of the latest access to each byte of memory
/// that was accessed, and those bytes in the order of their first access.
pub struct RamSideNote {
    last: HashMap<u32, (u8, u32)>,
    touched: Vec<u32>,
    history: Ghost<Seq<RamAccess>>,
}

impl RamSideNote {
    /// All accesses so far, in the order in which they happened.
    pub closed spec fn history(&self) -> Seq<RamAccess> {
        self.history@
    }

    /// The addresses that were accessed, in the order of their first access.
    pub closed spec fn touched(&self) -> Seq<u32> {
        self.touched@
    }

    /// The recorded state, by address.
    pub closed spec fn state(&self) -> Map<u32, (u8, u32)> {
        self.last@
    }

    /// The recorded values and timestamps are those of the latest access to
    /// each byte, and `touched` lists the bytes that were accessed, each once.
    pub open spec fn wf(&self) -> bool {
        &&& forall|address: u32|
            #[trigger] self.state().contains_key(address) <==> touched_in(self.history(), address)
        &&& forall|address: u32|
            #[trigger] self.state().contains_key(address) ==> self.state()[address] == (
                byte_in(self.history(), address),
                ram_timestamp_in(self.history(), address),
            )
        &&& forall|i: int|
            0 <= i < self.touched().len() ==> self.state().contains_key(#[trigger] self.touched()[i])
        &&& forall|address: u32|
            #[trigger] self.state().contains_key(address) ==> self.touched().contains(address)
        &&& forall|i: int, j: int|
            0 <= i < j < self.touched().len() ==> #[trigger] self.touched()[i]
                != #[trigger] self.touched()[j]
    }

    /// The state before any access.
    pub fn new() -> (note: Self)
        ensures
            note.wf(),
            note.history() == Seq::<RamAccess>::empty(),
            note.touched() == Seq::<u32>::empty(),
    {
        RamSideNote { last: HashMap::new(), touched: Vec::new(), history: Ghost(Seq::empty()) }
    }

    /// Number of bytes that were accessed.
    pub fn num_touched(&self) -> (n: usize)
        ensures
            n == self.touched().len(),
    {
        self.touched.len()
    }

    /// The address that was accessed as the `index`-th, with the value and
    /// the timestamp that its latest access left.
    pub fn final_state(&self, index: usize) -> (out: (u32, u8, u32))
        requires
            self.wf(),
            index < self.touched().len(),
        ensures
            out.0 == self.touched()[index as int],
            out.1 == byte_in(self.history(), out.0),
            out.2 == ram_timestamp_in(self.history(), out.0),
    {
        let address = self.touched[index];
        assert(self.state().contains_key(self.touched()[index as int]));
        match self.last.get(&address) {
            Some(entry) => (address, entry.0, entry.1),
            None => (address, 0, 0),
        }
    }

    /// The value of the byte at `address` and the timestamp of its latest
    /// access; zeros if it was never accessed.
    pub fn peek(&self, address: u32) -> (out: (u8, u32))
        requires
            self.wf(),
        ensures
            out == (byte_in(self.history(), address), ram_timestamp_in(self.history(), address)),
    {
        match self.last.get(&address) {
            Some(entry) => {
                assert(self.state().contains_key(address));
                (entry.0, entry.1)
            },
            None => {
                assert(!self.state().contains_key(address));
                (0, 0)
            },
        }
    }

    /// Records an access to the byte at `address` at `timestamp`. A write
    /// leaves `write` in the byte, a read what was there. Returns the value
    /// and the timestamp of the access before.
    pub fn access(&mut self, address: u32, write: Option<u8>, timestamp: u32) -> (prev: (u8, u32))
        requires
            old(self).wf(),
        ensures
            final(self).wf(),
            prev == (
                byte_in(old(self).history(), address),
                ram_timestamp_in(old(self).history(), address),
            ),
            final(self).history() == old(self).history().push(
                RamAccess {
                    address,
                    value: match write {
                        Some(value) => value,
                        None => prev.0,
                    },
                    timestamp,
                },
            ),
            final(self).touched() == if touched_in(old(self).history(), address) {
                old(self).touched()
            } else {
                old(self).touched().push(address)
            },
    {
        let prev = self.peek(address);
        let known = self.last.contains_key(&address);
        let value = match write {
            Some(value) => value,
            None => prev.0,
        };
        let ghost before = self.history@;
        let ghost access = RamAccess { address, value, timestamp };
        let ghost listed = self.touched@;
        proof {
            assert(known == old(self).state().contains_key(address));
        }
        self.last.insert(address, (value, timestamp));
        if !known {
            self.touched.push(address);
        }
        self.history = Ghost(before.push(access));
        proof {
            let after = before.push(access);
            assert(after.drop_last() =~= before);
            assert(after.last() == access);
            assert forall|other: u32| other != address implies last_ram_access(after, other)
                == last_ram_access(before, other) by {}
            assert forall|other: u32|
                #[trigger] self.state().contains_key(other) <==> touched_in(after, other) by {
                if other != address {
                    assert(old(self).state().contains_key(other) <==> touched_in(before, other));
                }
            }
            assert forall|other: u32| #[trigger] self.state().contains_key(other) implies self.state()[other]
                == (byte_in(after, other), ram_timestamp_in(after, other)) by {
                if other != address {
                    assert(old(self).state().contains_key(other));
                }
            }
            assert forall|i: int| 0 <= i < self.touched().len() implies self.state().contains_key(
                #[trigger] self.touched()[i],
            ) by {
                if i < listed.len() {
                    assert(listed == old(self).touched());
                    assert(old(self).state().contains_key(old(self).touched()[i]));
                    assert(self.touched()[i] == listed[i]);
                } else {
                    assert(self.touched()[i] == address);
                }
            }
            assert forall|other: u32|
                #[trigger] self.state().contains_key(other) implies self.touched().contains(
                other,
            ) by {
                if other == address {
                    if known {
                        assert(old(self).state().contains_key(address));
                        let k = choose|k: int| 0 <= k < listed.len() && listed[k] == address;
                        assert(self.touched()[k] == address);
                    } else {
                        assert(self.touched()[listed.len() as int] == address);
                    }
                } else {
                    assert(old(self).state().contains_key(other));
                    let k = choose|k: int| 0 <= k < listed.len() && listed[k] == other;
                    assert(self.touched()[k] == other);
                }
            }
            assert forall|i: int, j: int| 0 <= i < j < self.touched().len() implies #[trigger] self.touched()[i]
                != #[trigger] self.touched()[j] by {
                if j == listed.len() {
                    assert(old(self).state().contains_key(listed[i]));
                }
            }
        }
        prev
    }
}

} // verus!
