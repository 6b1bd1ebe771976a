//! Bounded, insertion-ordered set of discovered byte offsets with
//! deduplication: used for the unique waveform data addresses and for the
//! output mode table slots. Exceeding the capacity is a fatal condition,
//! never a silent truncation.

use vstd::prelude::*;

use crate::errors::{CapacityError, WbfError};

verus! {

/// What `add_addr` did with an address.
#[derive(Clone, Copy, Debug, PartialEq, Eq, Structural)]
pub enum AddOutcome {
    /// The address was not in the set and was appended.
    NewlyAdded,
    /// The address was already in the set; nothing changed.
    AlreadyKnown,
}

/// Dedup-or-append on a sequence bounded by `cap`: `None` is the capacity
/// failure.
pub open spec fn spec_add(s: Seq<u32>, addr: u32, cap: nat) -> Option<Seq<u32>> {
    if s.contains(addr) {
        Some(s)
    } else if s.len() < cap {
        Some(s.push(addr))
    } else {
        None
    }
}

/// The byte span from `addr` to the entry after it, if `addr` is present,
/// is not last, and the entry after it is not below it.
pub open spec fn spec_length_of(s: Seq<u32>, addr: u32) -> Option<u32> {
    if !s.contains(addr) {
        None
    } else {
        let i = s.index_of(addr);
        if i + 1 >= s.len() {
            None
        } else if s[i + 1] < addr {
            None
        } else {
            Some((s[i + 1] - addr) as u32)
        }
    }
}

/// A fixed-capacity, insertion-ordered set of 32-bit file offsets.
pub struct AddressSet {
    addrs: Vec<u32>,
    capacity: usize,
    kind: CapacityError,
}

impl View for AddressSet {
    type V = Seq<u32>;

    closed spec fn view(&self) -> Seq<u32> {
        self.addrs@
    }
}

impl AddressSet {
    /// No entry occurs twice and the set fits its capacity.
    pub closed spec fn wf(self) -> bool {
        (forall|p: int, q: int| 0 <= p < q < self@.len() ==> self@[p] != self@[q])
            && self@.len() <= self.capacity
    }

    /// The hard maximum this set was created with.
    pub closed spec fn spec_capacity(self) -> nat {
        self.capacity as nat
    }

    /// The capacity failure this set reports when full.
    pub closed spec fn spec_kind(self) -> CapacityError {
        self.kind
    }

    /// An empty set that may grow to `capacity` entries and fails with
    /// `kind` beyond that.
    pub fn new(capacity: usize, kind: CapacityError) -> (r: AddressSet)
        ensures
            r@ == Seq::<u32>::empty(),
            r.wf(),
            r.spec_capacity() == capacity,
            r.spec_kind() == kind,
    {
        AddressSet { addrs: Vec::new(), capacity, kind }
    }

    pub fn len(&self) -> (r: usize)
        ensures
            r == self@.len(),
    {
        self.addrs.len()
    }

    /// The entries, in insertion order.
    pub fn as_slice(&self) -> (r: &[u32])
        ensures
            r@ == self@,
    {
        self.addrs.as_slice()
    }

    /// The entry at position `i`, in insertion order.
    pub fn index(&self, i: usize) -> (r: u32)
        requires
            i < self@.len(),
        ensures
            r == self@[i as int],
    {
        self.addrs[i]
    }

    /// Dedup-or-append: an address already present is reported
    /// `AlreadyKnown` and the set does not grow; a new address is appended
    /// while a free slot exists; a full set fails with this set's
    /// `CapacityError`.
    pub fn add_addr(&mut self, addr: u32) -> (r: Result<AddOutcome, WbfError>)
        requires
            old(self).wf(),
        ensures
            final(self).wf(),
            final(self).spec_capacity() == old(self).spec_capacity(),
            final(self).spec_kind() == old(self).spec_kind(),
            match spec_add(old(self)@, addr, old(self).spec_capacity()) {
                Some(s) => {
                    &&& final(self)@ == s
                    &&& r == Ok::<_, WbfError>(
                        if old(self)@.contains(addr) {
                            AddOutcome::AlreadyKnown
                        } else {
                            AddOutcome::NewlyAdded
                        },
                    )
                },
                None => {
                    &&& final(self)@ == old(self)@
                    &&& r == Err::<AddOutcome, _>(
                        WbfError::Capacity(old(self).spec_kind()),
                    )
                },
            },
    {
        let n = self.addrs.len();
        let mut i: usize = 0;
        while i < n
            invariant
                n == self.addrs.len(),
                0 <= i <= n,
                forall|j: int| 0 <= j < i ==> self@[j] != addr,
                self == old(self),
                self.wf(),
            decreases n - i,
        {
            if self.addrs[i] == addr {
                return Ok(AddOutcome::AlreadyKnown);
            }
            i = i + 1;
        }
        assert(!self@.contains(addr));
        if n < self.capacity {
            self.addrs.push(addr);
            Ok(AddOutcome::NewlyAdded)
        } else {
            Err(WbfError::Capacity(self.kind))
        }
    }

    /// Computes a waveform's byte span: the difference between the next
    /// entry's offset and `addr`. Returns `None` when `addr` is absent,
    /// is the last entry with nothing after it, or the next entry lies
    /// below it (addresses were not discovered in increasing order).
    pub fn get_waveform_length(&self, addr: u32) -> (r: Option<u32>)
        requires
            self.wf(),
        ensures
            r == spec_length_of(self@, addr),
    {
        let n = self.addrs.len();
        let mut i: usize = 0;
        while i < n
            invariant
                n == self.addrs.len(),
                0 <= i <= n,
                forall|j: int| 0 <= j < i ==> self@[j] != addr,
                self.wf(),
            decreases n - i,
        {
            if self.addrs[i] == addr {
                proof {
                    let k = self@.index_of(addr);
                    assert(self@.contains(addr));
                    assert(0 <= k < self@.len() && self@[k] == addr);
                    assert(k == i);
                }
                if i + 1 >= n {
                    return None;
                }
                let next = self.addrs[i + 1];
                if next < addr {
                    return None;
                }
                return Some(next - addr);
            }
            i = i + 1;
        }
        assert(!self@.contains(addr));
        None
    }
}

/// On a strictly increasing, sentinel-terminated set, the span of every
/// entry but the last is exactly the next entry's offset minus its own.
pub proof fn lemma_length_of_monotonic(s: Seq<u32>, i: int)
    requires
        forall|p: int, q: int| 0 <= p < q < s.len() ==> s[p] < s[q],
        0 <= i < s.len() - 1,
    ensures
        spec_length_of(s, s[i]) == Some((s[i + 1] - s[i]) as u32),
{
    assert(s.contains(s[i]));
    let k = s.index_of(s[i]);
    assert(0 <= k < s.len() && s[k] == s[i]);
    if k < i {
        assert(s[k] < s[i]);
    } else if k > i {
        assert(s[i] < s[k]);
    }
    assert(k == i);
    assert(s[i] < s[i + 1]);
}

} // verus!
