//! A page frame allocator that hands out the frames of the usable memory
//! regions one after the other.
use vstd::prelude::*;
use crate::generic::memory::{MemoryMapEntry, ENTRY_USABLE};

verus! {

/// Lowest address above which usable memory is handed out.
pub const LOW_MEMORY_LIMIT: u64 = 0x1_0000;

/// A region that the allocator takes frames from: usable memory, at least one
/// frame long, above the first 64 KiB.
pub open spec fn usable(e: MemoryMapEntry, pfsize: nat) -> bool {
    &&& e.entry_type == ENTRY_USABLE
    &&& e.length >= pfsize
    &&& e.base > LOW_MEMORY_LIMIT
}

/// Number of frames that start in a region: its length divided by the frame
/// size, rounded up.
pub open spec fn frame_count(e: MemoryMapEntry, pfsize: nat) -> nat
    recommends
        pfsize > 0,
{
    ((e.length as nat) / pfsize + if (e.length as nat) % pfsize == 0 {
        0nat
    } else {
        1nat
    }) as nat
}

/// The start addresses of the frames of a region, every `pfsize` bytes from its base.
pub open spec fn region_frames(e: MemoryMapEntry, pfsize: nat) -> Seq<u64> {
    Seq::new(frame_count(e, pfsize), |i: int| (e.base + i * pfsize) as u64)
}

/// The frames of all usable regions of `entries`, region by region, in map order.
pub open spec fn frames(entries: Seq<MemoryMapEntry>, pfsize: nat) -> Seq<u64>
    decreases entries.len(),
{
    if entries.len() == 0 {
        Seq::empty()
    } else {
        frames(entries.drop_last(), pfsize) + if usable(entries.last(), pfsize) {
            region_frames(entries.last(), pfsize)
        } else {
            Seq::empty()
        }
    }
}

/// A memory map and frame size that the allocator can work with: frames have a
/// size, no usable region runs past the end of the address space, and the
/// total size of the frames can be counted in a `usize`.
pub open spec fn map_ok(entries: Seq<MemoryMapEntry>, pfsize: nat) -> bool {
    &&& pfsize > 0
    &&& usable_in_address_space(entries, pfsize)
    &&& frames(entries, pfsize).len() * pfsize <= usize::MAX
}

pub struct PageFrameAllocator {
    memory_map: Vec<MemoryMapEntry>,
    pfsize: usize,
    head: usize,
}

proof fn lemma_frames_take(entries: Seq<MemoryMapEntry>, pfsize: nat, i: int)
    requires
        0 <= i < entries.len(),
    ensures
        frames(entries.take(i + 1), pfsize) == frames(entries.take(i), pfsize) + if usable(
            entries[i],
            pfsize,
        ) {
            region_frames(entries[i], pfsize)
        } else {
            Seq::empty()
        },
{
    assert(entries.take(i + 1).drop_last() =~= entries.take(i));
    assert(entries.take(i + 1).last() == entries[i]);
}

/// The frames of a prefix of the map are a prefix of the frames of the map.
proof fn lemma_frames_prefix(entries: Seq<MemoryMapEntry>, pfsize: nat, j: int)
    requires
        0 <= j <= entries.len(),
    ensures
        frames(entries.take(j), pfsize).len() <= frames(entries, pfsize).len(),
        forall|k: int|
            0 <= k < frames(entries.take(j), pfsize).len() ==> #[trigger] frames(
                entries.take(j),
                pfsize,
            )[k] == frames(entries, pfsize)[k],
    decreases entries.len() - j,
{
    if j == entries.len() {
        assert(entries.take(j) =~= entries);
    } else {
        lemma_frames_prefix(entries, pfsize, j + 1);
        lemma_frames_take(entries, pfsize, j);
        let shorter = frames(entries.take(j), pfsize);
        let longer = frames(entries.take(j + 1), pfsize);
        assert forall|k: int| 0 <= k < shorter.len() implies #[trigger] shorter[k] == frames(
            entries,
            pfsize,
        )[k] by {
            assert(longer[k] == shorter[k]);
        }
    }
}

/// Frame `k` of a region lies inside it.
proof fn lemma_frame_in_region(len: nat, pfsize: nat, k: int)
    requires
        pfsize > 0,
        0 <= k < (len / pfsize + if len % pfsize == 0 {
            0nat
        } else {
            1nat
        }),
    ensures
        0 <= k * pfsize < len,
{
    vstd::arithmetic::div_mod::lemma_fundamental_div_mod(len as int, pfsize as int);
    let q = len / pfsize;
    let r = len % pfsize;
    assert(0 <= k * pfsize < len) by (nonlinear_arith)
        requires
            len == pfsize * q + r,
            0 <= r < pfsize,
            pfsize > 0,
            0 <= k,
            (r == 0 && k < q) || (r != 0 && k <= q),
    ;
}

/// Frame `f` starts inside region `e`, a whole number of frames from its base.
pub open spec fn frame_in_region(f: u64, e: MemoryMapEntry, pfsize: nat) -> bool {
    &&& e.base <= f < e.base + e.length
    &&& (f - e.base) % (pfsize as int) == 0
}

/// No usable region of the map ends past the end of the address space.
pub open spec fn usable_in_address_space(entries: Seq<MemoryMapEntry>, pfsize: nat) -> bool {
    forall|i: int|
        0 <= i < entries.len() && usable(#[trigger] entries[i], pfsize) ==> entries[i].base
            + entries[i].length <= u64::MAX
}

/// No two usable regions of the map overlap.
pub open spec fn usable_regions_disjoint(entries: Seq<MemoryMapEntry>, pfsize: nat) -> bool {
    forall|i: int, j: int|
        0 <= i < j < entries.len() && usable(#[trigger] entries[i], pfsize) && usable(
            #[trigger] entries[j],
            pfsize,
        ) ==> entries[i].base + entries[i].length <= entries[j].base || entries[j].base
            + entries[j].length <= entries[i].base
}

/// Every frame the allocator can hand out lies in a usable region of the map,
/// a whole number of frames from the region's base: a region whose type is
/// `ENTRY_USABLE`, that starts above the first 64 KiB (0x1_0000) and that is
/// at least one frame long.
pub proof fn lemma_frames_in_usable_memory(entries: Seq<MemoryMapEntry>, pfsize: nat, k: int)
    requires
        pfsize > 0,
        usable_in_address_space(entries, pfsize),
        0 <= k < frames(entries, pfsize).len(),
    ensures
        exists|j: int|
            0 <= j < entries.len() && usable(entries[j], pfsize) && frame_in_region(
                #[trigger] frames(entries, pfsize)[k],
                entries[j],
                pfsize,
            ),
        exists|j: int|
            {
                &&& 0 <= j < entries.len()
                &&& entries[j].entry_type == ENTRY_USABLE
                &&& entries[j].base > 0x1_0000
                &&& entries[j].length >= pfsize
                &&& entries[j].base <= #[trigger] frames(entries, pfsize)[k] < entries[j].base
                    + entries[j].length
            },
    decreases entries.len(),
{
    let init = entries.drop_last();
    let prev = frames(init, pfsize);
    let f = frames(entries, pfsize)[k];
    if k < prev.len() {
        assert forall|i: int|
            0 <= i < init.len() && usable(#[trigger] init[i], pfsize) implies init[i].base
            + init[i].length <= u64::MAX by {
            assert(init[i] == entries[i]);
        }
        lemma_frames_in_usable_memory(init, pfsize, k);
        let j = choose|j: int|
            0 <= j < init.len() && usable(init[j], pfsize) && frame_in_region(
                #[trigger] prev[k],
                init[j],
                pfsize,
            );
        assert(entries[j] == init[j]);
        assert(frame_in_region(f, entries[j], pfsize));
    } else {
        let last = entries.last();
        let i = k - prev.len();
        assert(usable(entries[entries.len() - 1], pfsize));
        lemma_frame_in_region(last.length as nat, pfsize, i);
        vstd::arithmetic::mul::lemma_mul_nonnegative(i, pfsize as int);
        assert(f == last.base + i * pfsize);
        vstd::arithmetic::div_mod::lemma_mod_multiples_basic(i, pfsize as int);
        assert(frame_in_region(f, entries[entries.len() - 1], pfsize));
    }
}

/// When the usable regions of the map do not overlap, the allocator never
/// holds the same frame twice in its sequence, so no frame is handed out twice.
pub proof fn lemma_frames_distinct(entries: Seq<MemoryMapEntry>, pfsize: nat)
    requires
        pfsize > 0,
        usable_in_address_space(entries, pfsize),
        usable_regions_disjoint(entries, pfsize),
    ensures
        frames(entries, pfsize).no_duplicates(),
    decreases entries.len(),
{
    if entries.len() > 0 {
        let init = entries.drop_last();
        let prev = frames(init, pfsize);
        let all = frames(entries, pfsize);
        let last = entries.last();
        let n = entries.len() - 1;
        assert forall|i: int|
            0 <= i < init.len() && usable(#[trigger] init[i], pfsize) implies init[i].base
            + init[i].length <= u64::MAX by {
            assert(init[i] == entries[i]);
        }
        assert forall|i: int, j: int|
            0 <= i < j < init.len() && usable(#[trigger] init[i], pfsize) && usable(
                #[trigger] init[j],
                pfsize,
            ) implies init[i].base + init[i].length <= init[j].base || init[j].base + init[j].length
            <= init[i].base by {
            assert(init[i] == entries[i] && init[j] == entries[j]);
        }
        lemma_frames_distinct(init, pfsize);
        assert forall|a: int, b: int|
            0 <= a < all.len() && 0 <= b < all.len() && a != b implies all[a] != all[b] by {
            if a < prev.len() && b < prev.len() {
                assert(all[a] == prev[a] && all[b] == prev[b]);
            } else if a >= prev.len() && b >= prev.len() {
                let ia = a - prev.len();
                let ib = b - prev.len();
                lemma_frame_in_region(last.length as nat, pfsize, ia);
                lemma_frame_in_region(last.length as nat, pfsize, ib);
                assert(all[a] == last.base + ia * pfsize);
                assert(all[b] == last.base + ib * pfsize);
                assert(ia * pfsize != ib * pfsize) by (nonlinear_arith)
                    requires
                        ia != ib,
                        pfsize > 0,
                ;
            } else {
                let (p, q) = if a < prev.len() {
                    (a, b)
                } else {
                    (b, a)
                };
                lemma_frames_in_usable_memory(init, pfsize, p);
                let j = choose|j: int|
                    0 <= j < init.len() && usable(init[j], pfsize) && frame_in_region(
                        #[trigger] prev[p],
                        init[j],
                        pfsize,
                    );
                let iq = q - prev.len();
                lemma_frame_in_region(last.length as nat, pfsize, iq);
                assert(all[q] == last.base + iq * pfsize);
                assert(entries[j] == init[j]);
                assert(usable(entries[n], pfsize));
                assert(all[p] == prev[p]);
            }
        }
    }
}

/// `x` frames of `pfsize` bytes fit in `m` bytes exactly when `x` is at most `m / pfsize`.
proof fn lemma_fits(x: nat, pfsize: nat, m: nat)
    requires
        pfsize > 0,
    ensures
        x * pfsize <= m <==> x <= m / pfsize,
{
    vstd::arithmetic::div_mod::lemma_fundamental_div_mod(m as int, pfsize as int);
    let q = m / pfsize;
    let r = m % pfsize;
    assert(x * pfsize <= m <==> x <= q) by (nonlinear_arith)
        requires
            m == pfsize * q + r,
            0 <= r < pfsize,
            pfsize > 0,
            0 <= x,
            0 <= q,
    ;
}

impl PageFrameAllocator {
    #[verifier::type_invariant]
    spec fn inv(&self) -> bool {
        &&& map_ok(self.memory_map@, self.pfsize as nat)
        &&& self.head <= frames(self.memory_map@, self.pfsize as nat).len()
    }

    /// The memory map the allocator takes frames from.
    pub closed spec fn memory_map(&self) -> Seq<MemoryMapEntry> {
        self.memory_map@
    }

    /// The frame size in bytes.
    pub closed spec fn frame_size(&self) -> nat {
        self.pfsize as nat
    }

    /// How many frames have been handed out.
    pub closed spec fn allocated(&self) -> nat {
        self.head as nat
    }

    /// All frames the allocator can hand out, in the order it hands them out.
    pub open spec fn frames(&self) -> Seq<u64> {
        frames(self.memory_map(), self.frame_size())
    }

    /// An allocator over `memory_map` with frames of `pfsize` bytes, none handed out yet.
    pub fn new(memory_map: Vec<MemoryMapEntry>, pfsize: usize) -> (pfa: Self)
        requires
            map_ok(memory_map@, pfsize as nat),
        ensures
            pfa.memory_map() == memory_map@,
            pfa.frame_size() == pfsize,
            pfa.allocated() == 0,
    {
        Self { memory_map, pfsize, head: 0 }
    }

    /// Total size in bytes of the frames the allocator can hand out.
    pub fn size(&self) -> (bytes: usize)
        ensures
            bytes == self.frames().len() * self.frame_size(),
            forall|k: int|
                #![trigger self.frames()[k]]
                0 <= k < self.frames().len() ==> self.frames()[k] > 0x1_0000 && exists|j: int|
                    {
                        &&& 0 <= j < self.memory_map().len()
                        &&& #[trigger] self.memory_map()[j].entry_type == ENTRY_USABLE
                        &&& self.memory_map()[j].base > 0x1_0000
                        &&& self.memory_map()[j].length >= self.frame_size()
                        &&& self.memory_map()[j].base <= self.frames()[k]
                            < self.memory_map()[j].base + self.memory_map()[j].length
                    },
    {
        proof {
            use_type_invariant(self);
        }
        let pfsize = self.pfsize;
        let n = self.memory_map.len();
        let mut total: usize = 0;
        let mut i: usize = 0;
        while i < n
            invariant
                n == self.memory_map@.len(),
                pfsize == self.pfsize,
                map_ok(self.memory_map@, pfsize as nat),
                i <= n,
                total == frames(self.memory_map@.take(i as int), pfsize as nat).len(),
            decreases n - i,
        {
            let e = self.memory_map[i];
            proof {
                lemma_frames_take(self.memory_map@, pfsize as nat, i as int);
                lemma_frames_prefix(self.memory_map@, pfsize as nat, i as int + 1);
                lemma_fits(
                    frames(self.memory_map@, pfsize as nat).len(),
                    pfsize as nat,
                    usize::MAX as nat,
                );
            }
            if e.entry_type == ENTRY_USABLE && e.length >= pfsize as u64 && e.base > LOW_MEMORY_LIMIT {
                let count: u64 = e.length / pfsize as u64 + if e.length % pfsize as u64 == 0 {
                    0
                } else {
                    1
                };
                total = total + count as usize;
            }
            i = i + 1;
        }
        assert(self.memory_map@.take(n as int) =~= self.memory_map@);
        proof {
            assert forall|k: int|
                #![trigger self.frames()[k]]
                0 <= k < self.frames().len() implies self.frames()[k] > 0x1_0000 && exists|j: int|
                {
                    &&& 0 <= j < self.memory_map().len()
                    &&& #[trigger] self.memory_map()[j].entry_type == ENTRY_USABLE
                    &&& self.memory_map()[j].base > 0x1_0000
                    &&& self.memory_map()[j].length >= self.frame_size()
                    &&& self.memory_map()[j].base <= self.frames()[k]
                        < self.memory_map()[j].base + self.memory_map()[j].length
                } by {
                lemma_frames_in_usable_memory(self.memory_map@, self.pfsize as nat, k);
                let j = choose|j: int|
                    {
                        &&& 0 <= j < self.memory_map@.len()
                        &&& self.memory_map@[j].entry_type == ENTRY_USABLE
                        &&& self.memory_map@[j].base > 0x1_0000
                        &&& self.memory_map@[j].length >= self.pfsize
                        &&& self.memory_map@[j].base <= #[trigger] frames(
                            self.memory_map@,
                            self.pfsize as nat,
                        )[k] < self.memory_map@[j].base + self.memory_map@[j].length
                    };
                assert(self.memory_map()[j] == self.memory_map@[j]);
            }
        }
        total * pfsize
    }

    /// Hands out the next frame and returns its start address.
    pub fn allocate(&mut self) -> (frame: u64)
        requires
            old(self).allocated() < old(self).frames().len(),
        ensures
            frame == old(self).frames()[old(self).allocated() as int],
            final(self).allocated() == old(self).allocated() + 1,
            final(self).memory_map() == old(self).memory_map(),
            final(self).frame_size() == old(self).frame_size(),
            exists|j: int|
                {
                    &&& 0 <= j < old(self).memory_map().len()
                    &&& #[trigger] old(self).memory_map()[j].entry_type == ENTRY_USABLE
                    &&& old(self).memory_map()[j].base > 0x1_0000
                    &&& old(self).memory_map()[j].length >= old(self).frame_size()
                    &&& old(self).memory_map()[j].base <= frame < old(self).memory_map()[j].base
                        + old(self).memory_map()[j].length
                },
    {
        proof {
            use_type_invariant(&*self);
        }
        let head = self.head;
        let pfsize = self.pfsize;
        let n = self.memory_map.len();
        let ghost all = frames(self.memory_map@, pfsize as nat);
        let mut rem: usize = head;
        let mut i: usize = 0;
        while i < n
            invariant
                n == self.memory_map@.len(),
                pfsize == self.pfsize,
                head == self.head,
                *self == *old(self),
                all == frames(self.memory_map@, pfsize as nat),
                map_ok(self.memory_map@, pfsize as nat),
                head < all.len(),
                i <= n,
                rem + frames(self.memory_map@.take(i as int), pfsize as nat).len() == head,
            decreases n - i,
        {
            let e = self.memory_map[i];
            proof {
                lemma_frames_take(self.memory_map@, pfsize as nat, i as int);
                lemma_frames_prefix(self.memory_map@, pfsize as nat, i as int + 1);
            }
            if e.entry_type == ENTRY_USABLE && e.length >= pfsize as u64 && e.base > LOW_MEMORY_LIMIT {
                let count: u64 = e.length / pfsize as u64 + if e.length % pfsize as u64 == 0 {
                    0
                } else {
                    1
                };
                if (rem as u64) < count {
                    proof {
                        lemma_frame_in_region(e.length as nat, pfsize as nat, rem as int);
                        assert(usable(self.memory_map@[i as int], pfsize as nat));
                        let before = frames(self.memory_map@.take(i as int), pfsize as nat);
                        let upto = frames(self.memory_map@.take(i as int + 1), pfsize as nat);
                        assert(upto[head as int] == region_frames(e, pfsize as nat)[rem as int]);
                        assert(all[head as int] == upto[head as int]);
                        lemma_fits(all.len(), pfsize as nat, usize::MAX as nat);
                        vstd::arithmetic::div_mod::lemma_div_is_ordered_by_denominator(
                            usize::MAX as int,
                            1,
                            pfsize as int,
                        );
                    }
                    let frame = e.base + (rem as u64) * (pfsize as u64);
                    proof {
                        assert(old(self).memory_map()[i as int] == e);
                    }
                    self.head = self.head + 1;
                    return frame;
                }
                rem = rem - count as usize;
            }
            i = i + 1;
        }
        proof {
            assert(self.memory_map@.take(n as int) =~= self.memory_map@);
        }
        // The loop always finds the frame: `head` is below the number of frames.
        0
    }

    /// Whether an allocator can be made over `memory_map` with frames of `pfsize` bytes.
    pub fn accepts(memory_map: &Vec<MemoryMapEntry>, pfsize: usize) -> (ok: bool)
        ensures
            ok == map_ok(memory_map@, pfsize as nat),
    {
        if pfsize == 0 {
            return false;
        }
        let n = memory_map.len();
        let mut total: usize = 0;
        let mut i: usize = 0;
        while i < n
            invariant
                n == memory_map@.len(),
                pfsize > 0,
                i <= n,
                forall|k: int|
                    0 <= k < i && usable(#[trigger] memory_map@[k], pfsize as nat)
                        ==> memory_map@[k].base + memory_map@[k].length <= u64::MAX,
                total == frames(memory_map@.take(i as int), pfsize as nat).len(),
                total * pfsize <= usize::MAX,
            decreases n - i,
        {
            let e = memory_map[i];
            proof {
                lemma_frames_take(memory_map@, pfsize as nat, i as int);
                lemma_frames_prefix(memory_map@, pfsize as nat, i as int + 1);
            }
            if e.entry_type == ENTRY_USABLE && e.length >= pfsize as u64 && e.base > LOW_MEMORY_LIMIT {
                if e.base > u64::MAX - e.length {
                    return false;
                }
                let count: u64 = e.length / pfsize as u64 + if e.length % pfsize as u64 == 0 {
                    0
                } else {
                    1
                };
                proof {
                    lemma_fits(total as nat, pfsize as nat, usize::MAX as nat);
                }
                let room: usize = usize::MAX / pfsize - total;
                if count > room as u64 {
                    proof {
                        lemma_fits(
                            frames(memory_map@, pfsize as nat).len(),
                            pfsize as nat,
                            usize::MAX as nat,
                        );
                    }
                    return false;
                }
                total = total + count as usize;
                proof {
                    lemma_fits(total as nat, pfsize as nat, usize::MAX as nat);
                }
            }
            i = i + 1;
        }
        assert(memory_map@.take(n as int) =~= memory_map@);
        true
    }
}

} // verus!
