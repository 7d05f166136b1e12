//! The packet-identifier pool: a bounded, reusable space of non-zero 16-bit
//! identifiers. `reserve` hands out the lowest free identifier at or after a
//! moving cursor (wrapping once), `discard` reclaims one, and reuse is only
//! possible after a discard.

use vstd::prelude::*;

verus! {

/// Number of slots in the identifier space; slot 0 is never handed out.
pub const IDENTIFIER_SLOTS: usize = 65536;

/// Returned by `PacketIdentifiers::reserve` when all 65,535 identifiers are
/// outstanding. New QoS >= 1 work must wait until an identifier is discarded.
#[derive(Clone, Copy, PartialEq, Eq, Structural, Debug)]
pub struct ExhaustedPool;

/// The index of the first free slot in `s` within `[lo, hi)`, if any.
pub open spec fn first_free_in_range(s: Seq<bool>, lo: int, hi: int) -> Option<int>
    decreases hi - lo,
{
    if lo < 0 || lo >= hi {
        None
    } else if !s[lo] {
        Some(lo)
    } else {
        first_free_in_range(s, lo + 1, hi)
    }
}

/// The identifier `reserve` must yield: the lowest free slot at or after the
/// cursor, or, failing that, the lowest free slot from 1 up to the cursor.
pub open spec fn next_free(s: Seq<bool>, cursor: int) -> Option<int> {
    match first_free_in_range(s, cursor, IDENTIFIER_SLOTS as int) {
        Some(i) => Some(i),
        None => first_free_in_range(s, 1, cursor),
    }
}

/// Allocates and reclaims 16-bit packet identifiers.
pub struct PacketIdentifiers {
    in_use: Vec<bool>,
    cursor: u16,
}

impl PacketIdentifiers {
    /// Which slots are currently reserved; index 0 is a permanent dummy.
    pub closed spec fn in_use(self) -> Seq<bool> {
        self.in_use@
    }

    /// Where the next search for a free identifier starts.
    pub closed spec fn cursor(self) -> int {
        self.cursor as int
    }

    /// Shorthand: identifier `id` is currently outstanding.
    pub open spec fn holds(self, id: int) -> bool {
        0 <= id < IDENTIFIER_SLOTS && self.in_use()[id]
    }

    /// Structural validity: a full slot vector, slot 0 never free to hand
    /// out, and a cursor inside the identifier space.
    pub open spec fn wf(self) -> bool {
        &&& self.in_use().len() == IDENTIFIER_SLOTS
        &&& !self.in_use()[0]
        &&& 1 <= self.cursor() < IDENTIFIER_SLOTS
    }

    /// An empty pool: no identifier outstanding, search starting at 1.
    pub fn new() -> (r: Self)
        ensures
            r.wf(),
            r.cursor() == 1,
            forall|id: int| !r.holds(id),
    {
        let mut in_use: Vec<bool> = Vec::new();
        let mut i: usize = 0;
        while i < IDENTIFIER_SLOTS
            invariant
                i == in_use.len() <= IDENTIFIER_SLOTS,
                forall|j: int| 0 <= j < i ==> !in_use@[j],
            decreases IDENTIFIER_SLOTS - i,
        {
            in_use.push(false);
            i = i + 1;
        }
        PacketIdentifiers { in_use, cursor: 1 }
    }

    /// Reserves the lowest free identifier at or after the cursor, wrapping
    /// once through the space; fails with `ExhaustedPool` if and only if all
    /// 65,535 identifiers are outstanding.
    pub fn reserve(&mut self) -> (r: Result<u16, ExhaustedPool>)
        requires
            old(self).wf(),
        ensures
            final(self).wf(),
            match next_free(old(self).in_use(), old(self).cursor()) {
                Some(id) => {
                    &&& r == Ok::<u16, ExhaustedPool>(id as u16)
                    &&& 1 <= id < IDENTIFIER_SLOTS
                    &&& !old(self).holds(id)
                    &&& final(self).in_use() == old(self).in_use().update(id, true)
                    &&& final(self).cursor() == if id + 1 < IDENTIFIER_SLOTS {
                        id + 1
                    } else {
                        1int
                    }
                },
                None => {
                    &&& r == Err::<u16, ExhaustedPool>(ExhaustedPool)
                    &&& *final(self) == *old(self)
                },
            },
            r is Err <==> (forall|id: int| 1 <= id < IDENTIFIER_SLOTS ==> old(self).holds(id)),
    {
        let ghost s = self.in_use@;
        let start: usize = self.cursor as usize;
        let mut found: Option<u16> = None;
        let mut i: usize = start;
        while i < IDENTIFIER_SLOTS && found.is_none()
            invariant
                self.in_use@ == s,
                s.len() == IDENTIFIER_SLOTS,
                start <= i <= IDENTIFIER_SLOTS,
                match found {
                    Some(id) => first_free_in_range(s, start as int, IDENTIFIER_SLOTS as int)
                        == Some(id as int) && id == i && i < IDENTIFIER_SLOTS && !s[id as int],
                    None => first_free_in_range(s, start as int, IDENTIFIER_SLOTS as int)
                        == first_free_in_range(s, i as int, IDENTIFIER_SLOTS as int),
                },
            decreases IDENTIFIER_SLOTS - i, (if found.is_none() { 1int } else { 0int }),
        {
            if !self.in_use[i] {
                found = Some(i as u16);
            } else {
                i = i + 1;
            }
        }
        if found.is_none() {
            let mut j: usize = 1;
            while j < start && found.is_none()
                invariant
                    self.in_use@ == s,
                    s.len() == IDENTIFIER_SLOTS,
                    start < IDENTIFIER_SLOTS,
                    1 <= j <= start,
                    first_free_in_range(s, start as int, IDENTIFIER_SLOTS as int) is None,
                    match found {
                        Some(id) => first_free_in_range(s, 1, start as int) == Some(id as int)
                            && id == j && j < start && !s[id as int],
                        None => first_free_in_range(s, 1, start as int)
                            == first_free_in_range(s, j as int, start as int),
                    },
                decreases start - j, (if found.is_none() { 1int } else { 0int }),
            {
                if !self.in_use[j] {
                    found = Some(j as u16);
                } else {
                    j = j + 1;
                }
            }
        }
        match found {
            Some(id) => {
                self.in_use.set(id as usize, true);
                self.cursor = if (id as usize) + 1 < IDENTIFIER_SLOTS { id + 1 } else { 1 };
                proof {
                    assert(next_free(s, start as int) == Some(id as int));
                    assert(!old(self).holds(id as int));
                }
                Ok(id)
            },
            None => {
                proof {
                    assert(next_free(s, start as int) is None);
                    assert forall|id: int| 1 <= id < IDENTIFIER_SLOTS implies old(self).holds(id)
                    by {
                        if id >= start as int {
                            lemma_no_free_means_all_used(
                                s,
                                start as int,
                                IDENTIFIER_SLOTS as int,
                                id,
                            );
                        } else {
                            lemma_no_free_means_all_used(s, 1, start as int, id);
                        }
                    }
                }
                Err(ExhaustedPool)
            },
        }
    }

    /// Reclaims an outstanding identifier so it can be reserved again.
    /// Calling this on an identifier that is not outstanding is a logic
    /// error, so the contract excludes it.
    pub fn discard(&mut self, id: u16)
        requires
            old(self).wf(),
            old(self).holds(id as int),
        ensures
            final(self).wf(),
            final(self).in_use() == old(self).in_use().update(id as int, false),
            final(self).cursor() == old(self).cursor(),
    {
        self.in_use.set(id as usize, false);
        proof {
            assert(final(self).in_use()[0] == old(self).in_use()[0]);
        }
    }

    /// Whether an identifier is currently outstanding.
    pub fn is_reserved(&self, id: u16) -> (r: bool)
        requires
            self.wf(),
        ensures
            r == self.holds(id as int),
    {
        self.in_use[id as usize]
    }
}

/// A slot the scan finds is inside the scanned range and actually free.
pub proof fn lemma_first_free_is_free(s: Seq<bool>, lo: int, hi: int, id: int)
    requires
        first_free_in_range(s, lo, hi) == Some(id),
    ensures
        lo <= id < hi,
        !s[id],
    decreases hi - lo,
{
    if lo < 0 || lo >= hi {
    } else if !s[lo] {
    } else {
        lemma_first_free_is_free(s, lo + 1, hi, id);
    }
}

/// The pool never yields two outstanding identical identifiers: what
/// `reserve` yields was not outstanding, and once it is marked, a second
/// `reserve` — from any cursor, with no intervening discard — yields
/// something else.
pub proof fn lemma_no_duplicate_identifiers(s: Seq<bool>, c1: int, c2: int, id1: int, id2: int)
    requires
        next_free(s, c1) == Some(id1),
        next_free(s.update(id1, true), c2) == Some(id2),
        s.len() == IDENTIFIER_SLOTS,
        1 <= c1 < IDENTIFIER_SLOTS,
        1 <= c2 < IDENTIFIER_SLOTS,
    ensures
        0 <= id1 < IDENTIFIER_SLOTS,
        !s[id1],
        id2 != id1,
{
    if first_free_in_range(s, c1, IDENTIFIER_SLOTS as int) == Some(id1) {
        lemma_first_free_is_free(s, c1, IDENTIFIER_SLOTS as int, id1);
    } else {
        lemma_first_free_is_free(s, 1, c1, id1);
    }
    let s2 = s.update(id1, true);
    if first_free_in_range(s2, c2, IDENTIFIER_SLOTS as int) == Some(id2) {
        lemma_first_free_is_free(s2, c2, IDENTIFIER_SLOTS as int, id2);
    } else {
        lemma_first_free_is_free(s2, 1, c2, id2);
    }
}

/// If a scan of `[lo, hi)` found no free slot, every slot in it is in use.
pub proof fn lemma_no_free_means_all_used(s: Seq<bool>, lo: int, hi: int, k: int)
    requires
        first_free_in_range(s, lo, hi) is None,
        lo <= k < hi,
        0 <= lo,
    ensures
        s[k],
    decreases k - lo,
{
    if lo < k {
        lemma_no_free_means_all_used(s, lo + 1, hi, k);
    }
}

} // verus!
