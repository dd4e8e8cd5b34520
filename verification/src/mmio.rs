//! The map of guest-physical address windows to device slots.

use vstd::prelude::*;

verus! {

/// A window of guest-physical addresses.
#[derive(Clone, Copy, PartialEq, Eq, Structural, Debug)]
pub struct MmioRegion {
    pub start: usize,
    pub len: usize,
}

/// Why a window cannot be registered.
#[derive(Clone, Copy, PartialEq, Eq, Structural, Debug)]
pub enum RegisterError {
    /// The window is empty or runs past the last address.
    OutOfRange,
    /// The window overlaps one that is registered already.
    Conflict,
}

impl MmioRegion {
    /// Whether the window holds an address and ends within the address space.
    pub open spec fn in_range(self) -> bool {
        0 < self.len && self.start + self.len <= usize::MAX
    }

    /// Whether `addr` lies in the window.
    pub open spec fn contains(self, addr: int) -> bool {
        self.start <= addr < self.start + self.len
    }

    /// Whether the two windows share an address.
    pub open spec fn overlaps(self, other: MmioRegion) -> bool {
        self.start < other.start + other.len && other.start < self.start + self.len
    }
}

/// Whether every window is in range and no two of them share an address.
pub open spec fn disjoint_regions(regions: Seq<MmioRegion>) -> bool {
    &&& forall|i: int| 0 <= i < regions.len() ==> (#[trigger] regions[i]).in_range()
    &&& forall|i: int, j: int|
        0 <= i < j < regions.len() ==> !(#[trigger] regions[i]).overlaps(#[trigger] regions[j])
}

/// Whether `region` shares an address with one of `regions`.
pub open spec fn conflicts(regions: Seq<MmioRegion>, region: MmioRegion) -> bool {
    exists|i: int| 0 <= i < regions.len() && (#[trigger] regions[i]).overlaps(region)
}

/// Whether `addr` lies at `offset` in the window of `slot`.
pub open spec fn resolves_to(
    regions: Seq<MmioRegion>,
    addr: int,
    slot: int,
    offset: int,
) -> bool {
    &&& 0 <= slot < regions.len()
    &&& regions[slot].contains(addr)
    &&& offset == addr - regions[slot].start
}

/// The registered windows. The slot of a window is its place in the order of
/// registration.
pub struct MmioBus {
    regions: Vec<MmioRegion>,
}

impl View for MmioBus {
    type V = Seq<MmioRegion>;

    closed spec fn view(&self) -> Seq<MmioRegion> {
        self.regions@
    }
}

impl MmioBus {
    #[verifier::type_invariant]
    spec fn inv(self) -> bool {
        disjoint_regions(self.regions@)
    }

    /// A map without windows.
    pub fn new() -> (bus: MmioBus)
        ensures
            bus@ == Seq::<MmioRegion>::empty(),
            disjoint_regions(bus@),
    {
        MmioBus { regions: Vec::new() }
    }

    /// Registers the window of `len` addresses from `start` on, and returns
    /// its slot.
    pub fn register(&mut self, start: usize, len: usize) -> (slot: Result<usize, RegisterError>)
        ensures
            disjoint_regions(final(self)@),
            ({
                let region = MmioRegion { start, len };
                match slot {
                    Ok(slot) => {
                        &&& region.in_range()
                        &&& !conflicts(old(self)@, region)
                        &&& slot == old(self)@.len()
                        &&& final(self)@ == old(self)@.push(region)
                    },
                    Err(RegisterError::OutOfRange) => {
                        &&& !region.in_range()
                        &&& final(self)@ == old(self)@
                    },
                    Err(RegisterError::Conflict) => {
                        &&& region.in_range()
                        &&& conflicts(old(self)@, region)
                        &&& final(self)@ == old(self)@
                    },
                }
            }),
    {
        proof {
            use_type_invariant(&*self);
        }
        if len == 0 || start > usize::MAX - len {
            return Err(RegisterError::OutOfRange);
        }
        if self.conflicts_with(start, len) {
            return Err(RegisterError::Conflict);
        }
        let slot: usize = self.regions.len();
        let mut regions: Vec<MmioRegion> = Vec::new();
        std::mem::swap(&mut regions, &mut self.regions);
        regions.push(MmioRegion { start, len });
        self.regions = regions;
        Ok(slot)
    }

    /// Whether the window of `len` addresses from `start` on shares an address
    /// with one that is registered.
    pub fn conflicts_with(&self, start: usize, len: usize) -> (conflict: bool)
        ensures
            conflict == conflicts(self@, MmioRegion { start, len }),
    {
        let ghost region = MmioRegion { start, len };
        let mut i: usize = 0;
        while i < self.regions.len()
            invariant
                i <= self.regions@.len(),
                region == (MmioRegion { start, len }),
                forall|j: int| 0 <= j < i ==> !(#[trigger] self.regions@[j]).overlaps(region),
            decreases self.regions@.len() - i,
        {
            let other = self.regions[i];
            let below_end: bool = other.start < start || other.start - start < len;
            let above_start: bool = start < other.start || start - other.start < other.len;
            if below_end && above_start {
                assert(self.regions@[i as int].overlaps(region));
                return true;
            }
            i = i + 1;
        }
        false
    }

    /// The slot of the window that holds `addr`, and the offset of `addr` in
    /// it.
    pub fn find(&self, addr: usize) -> (found: Option<(usize, usize)>)
        ensures
            disjoint_regions(self@),
            match found {
                Some((slot, offset)) => resolves_to(
                    self@,
                    addr as int,
                    slot as int,
                    offset as int,
                ),
                None => forall|slot: int, offset: int|
                    !resolves_to(self@, addr as int, slot, offset),
            },
    {
        proof {
            use_type_invariant(self);
        }
        let mut i: usize = 0;
        while i < self.regions.len()
            invariant
                i <= self.regions@.len(),
                disjoint_regions(self.regions@),
                forall|j: int| 0 <= j < i ==> !(#[trigger] self.regions@[j]).contains(addr as int),
            decreases self.regions@.len() - i,
        {
            let region = self.regions[i];
            assert(self.regions@[i as int].in_range());
            if region.start <= addr && addr < region.start + region.len {
                return Some((i, addr - region.start));
            }
            i = i + 1;
        }
        None
    }
}

/// An address resolves to at most one place.
pub proof fn law_resolution_is_unique(
    regions: Seq<MmioRegion>,
    addr: int,
    slot_a: int,
    offset_a: int,
    slot_b: int,
    offset_b: int,
)
    requires
        disjoint_regions(regions),
        resolves_to(regions, addr, slot_a, offset_a),
        resolves_to(regions, addr, slot_b, offset_b),
    ensures
        slot_a == slot_b,
        offset_a == offset_b,
{
    if slot_a < slot_b {
        assert(regions[slot_a].overlaps(regions[slot_b]));
    } else if slot_b < slot_a {
        assert(regions[slot_b].overlaps(regions[slot_a]));
    }
}

/// Registering a window changes nothing for the windows registered before.
pub proof fn law_registration_keeps_resolution(
    regions: Seq<MmioRegion>,
    region: MmioRegion,
    addr: int,
    slot: int,
    offset: int,
)
    requires
        resolves_to(regions, addr, slot, offset),
    ensures
        resolves_to(regions.push(region), addr, slot, offset),
{
}

/// Two windows that hold addresses overlap where, and only where, one address
/// lies in both.
pub proof fn law_overlap_is_a_shared_address(a: MmioRegion, b: MmioRegion)
    ensures
        a.overlaps(b) <==> a.start < b.start + b.len && b.start < a.start + a.len,
        a.len > 0 && b.len > 0 ==> (a.overlaps(b) <==> exists|addr: int|
            {
                &&& a.start <= addr < a.start + a.len
                &&& #[trigger] b.contains(addr)
            }),
        forall|addr: int| #[trigger]
            b.contains(addr) <==> b.start <= addr < b.start + b.len,
{
    let first = if a.start < b.start {
        b.start as int
    } else {
        a.start as int
    };
    assert(b.contains(first) <==> b.start <= first < b.start + b.len);
}

/// A window can be registered where it holds an address, ends within the address
/// space, and shares no address with a registered one.
pub proof fn law_registrable_windows(regions: Seq<MmioRegion>, region: MmioRegion)
    ensures
        region.in_range() <==> region.len > 0 && region.start + region.len <= usize::MAX,
        conflicts(regions, region) <==> exists|i: int|
            {
                &&& 0 <= i < regions.len()
                &&& (#[trigger] regions[i]).start < region.start + region.len
                &&& region.start < regions[i].start + regions[i].len
            },
{
}

/// Registered windows hold addresses, end within the address space, and share
/// none.
pub proof fn law_registered_windows(regions: Seq<MmioRegion>)
    ensures
        disjoint_regions(regions) <==> {
            &&& forall|i: int|
                0 <= i < regions.len() ==> (#[trigger] regions[i]).len > 0 && regions[i].start
                    + regions[i].len <= usize::MAX
            &&& forall|i: int, j: int|
                0 <= i < j < regions.len() ==> (#[trigger] regions[i]).start + regions[i].len
                    <= (#[trigger] regions[j]).start || regions[j].start + regions[j].len
                    <= regions[i].start
        },
{
    if forall|i: int, j: int|
        0 <= i < j < regions.len() ==> (#[trigger] regions[i]).start + regions[i].len
            <= (#[trigger] regions[j]).start || regions[j].start + regions[j].len
            <= regions[i].start {
        assert forall|i: int, j: int| 0 <= i < j < regions.len() implies !(
        #[trigger] regions[i]).overlaps(#[trigger] regions[j]) by {}
    }
    if disjoint_regions(regions) {
        assert forall|i: int, j: int| 0 <= i < j < regions.len() implies (
        #[trigger] regions[i]).start + regions[i].len <= (#[trigger] regions[j]).start
            || regions[j].start + regions[j].len <= regions[i].start by {
            assert(!regions[i].overlaps(regions[j]));
        }
    }
}

/// An address lies at `offset` in the window of `slot` where, and only where, it
/// is the window's start plus `offset`, and `offset` is within the window.
pub proof fn law_resolution_is_an_offset(
    regions: Seq<MmioRegion>,
    addr: int,
    slot: int,
    offset: int,
)
    ensures
        resolves_to(regions, addr, slot, offset) <==> {
            &&& 0 <= slot < regions.len()
            &&& 0 <= offset < regions[slot].len
            &&& addr == regions[slot].start + offset
        },
{
}

} // verus!
