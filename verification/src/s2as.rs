//! The second-stage address space: which guest-physical pages are mapped, onto
//! which host frames, with which permissions, and what the loader put in them.
use vstd::prelude::*;
use crate::arch::{page_aligned, page_base, page_of, MapPolicy, PAGE_SIZE};

verus! {

/// Permission bits of one mapped page.
#[derive(Clone, Copy, Debug, PartialEq, Eq, Structural)]
pub struct Perms {
    pub read: bool,
    pub write: bool,
    pub execute: bool,
    pub user: bool,
}

/// What one guest-physical page is mapped onto.
#[derive(Clone, Copy, Debug, PartialEq, Eq, Structural)]
pub struct Mapping {
    /// Base of the host frame behind the page.
    pub hpa: u64,
    /// Permissions of the page.
    pub perms: Perms,
    /// Whether the frame is the host frame of the same address or one taken
    /// for this page alone.
    pub backing: MapPolicy,
}

/// Why a mapping could not be installed.
#[derive(Clone, Copy, Debug, PartialEq, Eq, Structural)]
pub enum MapError {
    /// The address or the length is not a multiple of the page size.
    Misaligned,
    /// The range does not lie inside the region of the address space.
    OutOfRange,
    /// Fewer host frames were offered than the range has pages.
    OutOfFrames,
    /// A frame offered for a page is not page-aligned, already backs a page,
    /// or was offered twice. Passthrough mappings never fail in this way.
    FrameInUse,
}

/// Why guest memory could not be read or written through the address space.
#[derive(Clone, Copy, Debug, PartialEq, Eq, Structural)]
pub enum MemError {
    /// Some byte of the range lies in no mapped page.
    Unmapped,
    /// Every byte of the range lies in a mapped page, but some in a
    /// passthrough page. Such a page is the host's own memory or a device at
    /// that address: the address space keeps no copy of it, so it can neither
    /// hand its bytes out nor take bytes for it. The loader never meets this
    /// case, because it maps the pages it writes onto frames of their own.
    HostOwned,
}

/// One mapped page with the bytes that the address space keeps for it.
struct PageEntry {
    gpa: u64,
    map: Mapping,
    data: Vec<u8>,
}

/// A region of guest-physical addresses and the pages mapped in it.
pub struct SecondStage {
    base: u64,
    size: u64,
    root: u64,
    stale: bool,
    entries: Vec<PageEntry>,
}

impl Perms {
    /// Read, write, execute and user: the permissions of every page that the
    /// loader or a page fault maps.
    pub open spec fn spec_all() -> Perms {
        Perms { read: true, write: true, execute: true, user: true }
    }

    /// Read, write, execute and user.
    #[verifier::when_used_as_spec(spec_all)]
    pub fn all() -> (p: Perms)
        ensures
            p == Perms::spec_all(),
    {
        Perms { read: true, write: true, execute: true, user: true }
    }

    /// The permissions as a bit set: read 1, write 2, execute 4, user 8.
    pub open spec fn spec_bits(self) -> u8 {
        ((if self.read { 1int } else { 0 }) + (if self.write { 2int } else { 0 })
            + (if self.execute { 4int } else { 0 }) + (if self.user { 8int } else { 0 })) as u8
    }

    /// The permissions as a bit set: read 1, write 2, execute 4, user 8.
    #[verifier::when_used_as_spec(spec_bits)]
    pub fn bits(self) -> (b: u8)
        ensures
            b == self.spec_bits(),
    {
        let mut b: u8 = 0;
        if self.read {
            b = b + 1;
        }
        if self.write {
            b = b + 2;
        }
        if self.execute {
            b = b + 4;
        }
        if self.user {
            b = b + 8;
        }
        b
    }
}

/// Whether some entry of `entries` describes the page at `gpa`.
spec fn has_page(entries: Seq<PageEntry>, gpa: u64) -> bool {
    exists|i: int| 0 <= i < entries.len() && (#[trigger] entries[i]).gpa == gpa
}

/// The position of the entry that describes the page at `gpa`.
spec fn index_of(entries: Seq<PageEntry>, gpa: u64) -> int {
    choose|i: int| 0 <= i < entries.len() && (#[trigger] entries[i]).gpa == gpa
}

/// Whether some entry of `entries` is backed by the frame at `hpa`.
spec fn has_frame(entries: Seq<PageEntry>, hpa: u64) -> bool {
    exists|i: int| 0 <= i < entries.len() && (#[trigger] entries[i]).map.hpa == hpa
}

/// Whether the bytes `[addr, addr + len)` lie inside `[base, base + size)`.
pub open spec fn within(base: u64, size: u64, addr: u64, len: u64) -> bool {
    base <= addr && addr + len <= base + size
}

/// Whether `g` is the base of one of the pages of `[gpa, gpa + len)`.
pub open spec fn page_in(gpa: u64, len: u64, g: u64) -> bool {
    page_aligned(g) && gpa <= g && g < gpa + len
}

/// The mappings after the unmapped pages of `[gpa, gpa + len)` were mapped
/// onto the host frames of their own addresses.
pub open spec fn passthrough_onto(m: Map<u64, Mapping>, gpa: u64, len: u64, perms: Perms) -> Map<
    u64,
    Mapping,
> {
    Map::new(
        |g: u64| m.contains_key(g) || page_in(gpa, len, g),
        |g: u64|
            if m.contains_key(g) {
                m[g]
            } else {
                Mapping { hpa: g, perms, backing: MapPolicy::Passthrough }
            },
    )
}

/// The mappings after the unmapped pages of `[gpa, gpa + len)` were mapped
/// onto frames of their own: the page number `k` of the range onto `frames[k]`.
pub open spec fn allocated_onto(
    m: Map<u64, Mapping>,
    gpa: u64,
    len: u64,
    perms: Perms,
    frames: Seq<u64>,
) -> Map<u64, Mapping> {
    Map::new(
        |g: u64| m.contains_key(g) || page_in(gpa, len, g),
        |g: u64|
            if m.contains_key(g) {
                m[g]
            } else {
                Mapping { hpa: frames[(g - gpa) / 0x1000], perms, backing: MapPolicy::Allocated }
            },
    )
}

/// The kept bytes after the pages of `[gpa, gpa + len)` that `m` does not map
/// got frames of their own, which start out zeroed.
pub open spec fn zeroed_onto(mem: Map<u64, u8>, m: Map<u64, Mapping>, gpa: u64, len: u64) -> Map<
    u64,
    u8,
> {
    Map::new(
        |a: u64|
            mem.contains_key(a) || (page_in(gpa, len, page_base(a)) && !m.contains_key(
                page_base(a),
            )),
        |a: u64|
            if mem.contains_key(a) {
                mem[a]
            } else {
                0u8
            },
    )
}

/// The pages among the first `n` of the range at `gpa` that `m` does not
/// map, in ascending order.
pub open spec fn fresh_pages(m: Map<u64, Mapping>, gpa: u64, n: int) -> Seq<u64>
    decreases n,
{
    if n <= 0 {
        Seq::empty()
    } else {
        let rest = fresh_pages(m, gpa, n - 1);
        let g = (gpa + (n - 1) * 0x1000) as u64;
        if m.contains_key(g) {
            rest
        } else {
            rest.push(g)
        }
    }
}

/// The guest-physical addresses of the pages that `entries` describe.
spec fn gpas_of(entries: Seq<PageEntry>) -> Seq<u64> {
    Seq::new(entries.len(), |i: int| entries[i].gpa)
}

/// Whether the frame at `hpa` backs some page of `m`.
pub open spec fn frame_in_use(m: Map<u64, Mapping>, hpa: u64) -> bool {
    exists|g: u64| m.contains_key(g) && (#[trigger] m[g]).hpa == hpa
}

/// The kept bytes after `bytes` were written at `gpa`.
pub open spec fn written(mem: Map<u64, u8>, gpa: u64, bytes: Seq<u8>) -> Map<u64, u8> {
    Map::new(
        |a: u64| mem.contains_key(a),
        |a: u64|
            if gpa <= a < gpa + bytes.len() {
                bytes[a - gpa]
            } else {
                mem[a]
            },
    )
}

/// Whether some entry of `entries` is backed by the frame at `hpa`.
fn any_frame(entries: &Vec<PageEntry>, hpa: u64) -> (r: bool)
    ensures
        r == has_frame(entries@, hpa),
{
    let mut i: usize = 0;
    while i < entries.len()
        invariant
            i <= entries@.len(),
            forall|k: int| 0 <= k < i ==> (#[trigger] entries@[k]).map.hpa != hpa,
        decreases entries@.len() - i,
    {
        if entries[i].map.hpa == hpa {
            return true;
        }
        i = i + 1;
    }
    false
}

/// A page of zero bytes.
fn zero_page() -> (v: Vec<u8>)
    ensures
        v@.len() == 0x1000,
        forall|i: int| 0 <= i < 0x1000 ==> v@[i] == 0,
{
    let mut v: Vec<u8> = Vec::new();
    let mut i: usize = 0;
    while i < 4096
        invariant
            i <= 4096,
            v@.len() == i,
            forall|k: int| 0 <= k < i ==> v@[k] == 0,
        decreases 4096 - i,
    {
        v.push(0u8);
        i = i + 1;
    }
    v
}

impl SecondStage {
    /// The invariant of the address space.
    pub closed spec fn wf(&self) -> bool {
        &&& self.base + self.size <= u64::MAX
        &&& forall|i: int|
            0 <= i < self.entries@.len() ==> {
                let e = #[trigger] self.entries@[i];
                &&& page_aligned(e.gpa)
                &&& page_aligned(e.map.hpa)
                &&& self.base <= e.gpa
                &&& e.gpa + 0x1000 <= self.base + self.size
                &&& e.map.backing == MapPolicy::Passthrough ==> e.map.hpa == e.gpa && e.data@.len()
                    == 0
                &&& e.map.backing == MapPolicy::Allocated ==> e.data@.len() == 0x1000
            }
        &&& forall|i: int, j: int|
            0 <= i < j < self.entries@.len() ==> (#[trigger] self.entries@[i]).gpa != (
            #[trigger] self.entries@[j]).gpa
        &&& forall|i: int, j: int|
            0 <= i < j < self.entries@.len() && (#[trigger] self.entries@[i]).map.backing
                == MapPolicy::Allocated && (#[trigger] self.entries@[j]).map.backing
                == MapPolicy::Allocated ==> self.entries@[i].map.hpa != self.entries@[j].map.hpa
    }

    /// First address of the region.
    pub closed spec fn spec_base(&self) -> u64 {
        self.base
    }

    /// Length of the region in bytes.
    pub closed spec fn spec_size(&self) -> u64 {
        self.size
    }

    /// Host-physical address of the top-level page table.
    pub closed spec fn spec_root(&self) -> u64 {
        self.root
    }

    /// Whether a mapping was added since the last shootdown.
    pub closed spec fn spec_stale(&self) -> bool {
        self.stale
    }

    /// The mapped pages, by the guest-physical address of their first byte.
    pub closed spec fn mappings(&self) -> Map<u64, Mapping> {
        Map::new(
            |g: u64| has_page(self.entries@, g),
            |g: u64| self.entries@[index_of(self.entries@, g)].map,
        )
    }

    /// The bytes that the address space keeps, by guest-physical address: the
    /// contents of the pages with a frame of their own.
    pub closed spec fn memory(&self) -> Map<u64, u8> {
        Map::new(
            |a: u64|
                has_page(self.entries@, page_base(a)) && self.entries@[index_of(
                    self.entries@,
                    page_base(a),
                )].map.backing == MapPolicy::Allocated,
            |a: u64| self.entries@[index_of(self.entries@, page_base(a))].data@[(a % 0x1000) as int],
        )
    }

    /// The mapped pages in the order in which they were mapped.
    pub closed spec fn order(&self) -> Seq<u64> {
        gpas_of(self.entries@)
    }

    /// Whether the page that holds `gpa` is mapped.
    pub open spec fn spec_is_mapped(&self, gpa: u64) -> bool {
        self.mappings().contains_key(page_base(gpa))
    }

    /// Whether `gpa` lies inside the region.
    pub open spec fn spec_contains(&self, gpa: u64) -> bool {
        self.spec_base() <= gpa < self.spec_base() + self.spec_size()
    }

    /// The host-physical address that `gpa` translates to, if its page is mapped.
    pub open spec fn spec_translate(&self, gpa: u64) -> Option<u64> {
        if self.spec_is_mapped(gpa) {
            Some((self.mappings()[page_base(gpa)].hpa + gpa % 0x1000) as u64)
        } else {
            None
        }
    }

    /// What holds of every well-formed address space: pages and frames are
    /// page-aligned, pages lie inside the region, a passthrough page is backed
    /// by the frame of its own address, no two pages with a frame of their own
    /// share it, and the kept bytes are those of the pages with a frame of
    /// their own.
    pub proof fn lemma_wf(&self)
        requires
            self.wf(),
        ensures
            self.spec_base() + self.spec_size() <= u64::MAX,
            forall|g: u64| #[trigger]
                self.mappings().contains_key(g) ==> page_aligned(g) && self.spec_base() <= g && g
                    + 0x1000 <= self.spec_base() + self.spec_size() && page_aligned(
                    self.mappings()[g].hpa,
                ),
            forall|g: u64|
                self.mappings().contains_key(g) && (#[trigger] self.mappings()[g]).backing
                    == MapPolicy::Passthrough ==> self.mappings()[g].hpa == g,
            forall|g: u64, h: u64|
                self.mappings().contains_key(g) && self.mappings().contains_key(h) && g != h && (
                #[trigger] self.mappings()[g]).backing == MapPolicy::Allocated && (
                #[trigger] self.mappings()[h]).backing == MapPolicy::Allocated
                    ==> self.mappings()[g].hpa != self.mappings()[h].hpa,
            forall|a: u64| #[trigger]
                self.memory().contains_key(a) <==> self.mappings().contains_key(page_base(a))
                    && self.mappings()[page_base(a)].backing == MapPolicy::Allocated,
    {
    }

    /// If entry `i` describes the page at `g`, it is the entry that `index_of` picks.
    proof fn lemma_index(&self, i: int, g: u64)
        requires
            self.wf(),
            0 <= i < self.entries@.len(),
            self.entries@[i].gpa == g,
        ensures
            has_page(self.entries@, g),
            index_of(self.entries@, g) == i,
            self.mappings().contains_key(g),
            self.mappings()[g] == self.entries@[i].map,
    {
    }

    /// An address space over `[base, base + size)` with no page mapped, whose
    /// top-level table lies at `root`. `None` if the region would run past the
    /// end of the address range of the machine.
    pub fn new_empty(base: u64, size: u64, root: u64) -> (r: Option<SecondStage>)
        ensures
            r is Some <==> base + size <= u64::MAX,
            r matches Some(s) ==> {
                &&& s.wf()
                &&& s.spec_base() == base
                &&& s.spec_size() == size
                &&& s.spec_root() == root
                &&& !s.spec_stale()
                &&& s.mappings() == Map::<u64, Mapping>::empty()
                &&& s.memory() == Map::<u64, u8>::empty()
                &&& s.order() == Seq::<u64>::empty()
            },
    {
        if size > u64::MAX - base {
            return None;
        }
        let s = SecondStage { base, size, root, stale: false, entries: Vec::new() };
        assert(s.mappings() =~= Map::<u64, Mapping>::empty());
        assert(s.memory() =~= Map::<u64, u8>::empty());
        assert(s.order() =~= Seq::<u64>::empty());
        Some(s)
    }

    /// First address of the region.
    #[verifier::when_used_as_spec(spec_base)]
    pub fn base(&self) -> (r: u64)
        ensures
            r == self.spec_base(),
    {
        self.base
    }

    /// Length of the region in bytes.
    #[verifier::when_used_as_spec(spec_size)]
    pub fn size(&self) -> (r: u64)
        ensures
            r == self.spec_size(),
    {
        self.size
    }

    /// Host-physical address of the top-level page table, to be programmed
    /// into `hgatp`, `ttbr0_el1` or the nested CR3 of the VMCB.
    pub fn root_physical(&self) -> (r: u64)
        ensures
            r == self.spec_root(),
    {
        self.root
    }

    /// Whether a mapping was added since the last shootdown.
    #[verifier::when_used_as_spec(spec_stale)]
    pub fn stale(&self) -> (r: bool)
        ensures
            r == self.spec_stale(),
    {
        self.stale
    }

    /// Records that the shootdown owed for the mappings added so far was done.
    pub fn note_shootdown(&mut self)
        requires
            old(self).wf(),
        ensures
            final(self).wf(),
            !final(self).spec_stale(),
            final(self).spec_base() == old(self).spec_base(),
            final(self).spec_size() == old(self).spec_size(),
            final(self).spec_root() == old(self).spec_root(),
            final(self).mappings() == old(self).mappings(),
            final(self).memory() == old(self).memory(),
            final(self).order() == old(self).order(),
    {
        self.stale = false;
    }

    /// Whether `gpa` lies inside the region.
    #[verifier::when_used_as_spec(spec_contains)]
    pub fn contains(&self, gpa: u64) -> (r: bool)
        requires
            self.wf(),
        ensures
            r == self.spec_contains(gpa),
    {
        self.base <= gpa && gpa - self.base < self.size
    }

    /// The position of the entry for the page at `page`, if it is mapped.
    fn find(&self, page: u64) -> (r: Option<usize>)
        requires
            self.wf(),
        ensures
            r matches Some(i) ==> i < self.entries@.len() && self.entries@[i as int].gpa == page
                && self.mappings().contains_key(page) && self.mappings()[page]
                == self.entries@[i as int].map && index_of(self.entries@, page) == i,
            r is None ==> !self.mappings().contains_key(page),
    {
        let mut i: usize = 0;
        while i < self.entries.len()
            invariant
                self.wf(),
                i <= self.entries@.len(),
                forall|k: int| 0 <= k < i ==> (#[trigger] self.entries@[k]).gpa != page,
            decreases self.entries@.len() - i,
        {
            if self.entries[i].gpa == page {
                proof {
                    self.lemma_index(i as int, page);
                }
                return Some(i);
            }
            i = i + 1;
        }
        None
    }

    /// Whether the page that holds `gpa` is mapped.
    #[verifier::when_used_as_spec(spec_is_mapped)]
    pub fn is_mapped(&self, gpa: u64) -> (r: bool)
        requires
            self.wf(),
        ensures
            r == self.spec_is_mapped(gpa),
    {
        self.find(page_of(gpa)).is_some()
    }

    /// What the page that holds `gpa` is mapped onto, if it is mapped.
    pub fn lookup(&self, gpa: u64) -> (r: Option<Mapping>)
        requires
            self.wf(),
        ensures
            r is Some <==> self.spec_is_mapped(gpa),
            r matches Some(m) ==> m == self.mappings()[page_base(gpa)],
    {
        match self.find(page_of(gpa)) {
            Some(i) => Some(self.entries[i].map),
            None => None,
        }
    }

    /// The host-physical address that a guest access to `gpa` reaches, or
    /// `None` where the access would fault because the page is not mapped.
    #[verifier::when_used_as_spec(spec_translate)]
    pub fn translate(&self, gpa: u64) -> (r: Option<u64>)
        requires
            self.wf(),
        ensures
            r == self.spec_translate(gpa),
    {
        match self.find(page_of(gpa)) {
            Some(i) => {
                let hpa = self.entries[i].map.hpa;
                let off = gpa % PAGE_SIZE;
                proof {
                    assert(page_aligned(hpa));
                    assert(hpa + off <= u64::MAX);
                }
                Some(hpa + off)
            },
            None => None,
        }
    }
}

impl SecondStage {
    /// Whether the frame at `hpa` backs some mapped page.
    pub open spec fn spec_frame_in_use(&self, hpa: u64) -> bool {
        frame_in_use(self.mappings(), hpa)
    }

    /// Whether page number `k` of the range at `gpa` needs a frame and
    /// `frames[k]` cannot be it: the frame is not page-aligned, backs a page
    /// already, or was offered for an earlier page of the range that needs one.
    pub open spec fn frame_unusable(&self, gpa: u64, frames: Seq<u64>, k: int) -> bool {
        &&& !self.mappings().contains_key((gpa + k * 0x1000) as u64)
        &&& {
            ||| !page_aligned(frames[k])
            ||| self.spec_frame_in_use(frames[k])
            ||| exists|j: int|
                0 <= j < k && !self.mappings().contains_key((gpa + j * 0x1000) as u64)
                    && #[trigger] frames[j] == frames[k]
        }
    }

    /// Whether some page of `[gpa, gpa + len)` needs a frame and cannot use
    /// the one offered for it.
    pub open spec fn allocated_conflict(&self, gpa: u64, len: u64, frames: Seq<u64>) -> bool {
        exists|k: int| 0 <= k < len / 0x1000 && #[trigger] self.frame_unusable(gpa, frames, k)
    }

    /// How mapping `[gpa, gpa + len)` passthrough ends: the first of the
    /// failures that applies, or success.
    pub open spec fn passthrough_outcome(&self, gpa: u64, len: u64) -> Result<(), MapError> {
        if !page_aligned(gpa) || !page_aligned(len) {
            Err(MapError::Misaligned)
        } else if !within(self.spec_base(), self.spec_size(), gpa, len) {
            Err(MapError::OutOfRange)
        } else {
            Ok(())
        }
    }

    /// How mapping `[gpa, gpa + len)` onto the frames offered ends: the first
    /// of the failures that applies, or success.
    pub open spec fn allocated_outcome(&self, gpa: u64, len: u64, frames: Seq<u64>) -> Result<
        (),
        MapError,
    > {
        if !page_aligned(gpa) || !page_aligned(len) {
            Err(MapError::Misaligned)
        } else if !within(self.spec_base(), self.spec_size(), gpa, len) {
            Err(MapError::OutOfRange)
        } else if frames.len() < len / 0x1000 {
            Err(MapError::OutOfFrames)
        } else if self.allocated_conflict(gpa, len, frames) {
            Err(MapError::FrameInUse)
        } else {
            Ok(())
        }
    }

    /// Whether every page of `[gpa, gpa + len)` is mapped.
    pub open spec fn covers(&self, gpa: u64, len: u64) -> bool {
        forall|g: u64| page_in(gpa, len, g) ==> #[trigger] self.mappings().contains_key(g)
    }

    /// A frame backs an entry exactly if it backs a mapped page.
    proof fn lemma_frames(&self, hpa: u64)
        requires
            self.wf(),
        ensures
            has_frame(self.entries@, hpa) == self.spec_frame_in_use(hpa),
    {
        if has_frame(self.entries@, hpa) {
            let i = choose|i: int|
                0 <= i < self.entries@.len() && (#[trigger] self.entries@[i]).map.hpa == hpa;
            self.lemma_index(i, self.entries@[i].gpa);
        }
        if self.spec_frame_in_use(hpa) {
            let g = choose|g: u64|
                self.mappings().contains_key(g) && (#[trigger] self.mappings()[g]).hpa == hpa;
            let i = index_of(self.entries@, g);
            assert(self.entries@[i].map.hpa == hpa);
        }
    }

    /// Whether the entries of `fresh` can join those of the address space.
    spec fn fresh_fits(&self, fresh: Seq<PageEntry>) -> bool {
        &&& forall|j: int|
            0 <= j < fresh.len() ==> {
                let e = #[trigger] fresh[j];
                &&& page_aligned(e.gpa)
                &&& page_aligned(e.map.hpa)
                &&& self.base <= e.gpa
                &&& e.gpa + 0x1000 <= self.base + self.size
                &&& e.map.backing == MapPolicy::Passthrough ==> e.map.hpa == e.gpa && e.data@.len()
                    == 0
                &&& e.map.backing == MapPolicy::Allocated ==> e.data@.len() == 0x1000
                &&& !has_page(self.entries@, e.gpa)
                &&& e.map.backing == MapPolicy::Allocated ==> !has_frame(self.entries@, e.map.hpa)
            }
        &&& forall|i: int, j: int|
            0 <= i < j < fresh.len() ==> (#[trigger] fresh[i]).gpa != (#[trigger] fresh[j]).gpa
        &&& forall|i: int, j: int|
            0 <= i < j < fresh.len() && (#[trigger] fresh[i]).map.backing == MapPolicy::Allocated
                && (#[trigger] fresh[j]).map.backing == MapPolicy::Allocated ==> fresh[i].map.hpa
                != fresh[j].map.hpa
    }

    /// What an address space maps and keeps after `added` joined its entries.
    proof fn lemma_joined(&self, new: &SecondStage, added: Seq<PageEntry>)
        requires
            self.wf(),
            new.wf(),
            self.fresh_fits(added),
            new.entries@ == self.entries@ + added,
        ensures
            new.order() == self.order() + gpas_of(added),
            forall|g: u64| #[trigger]
                new.mappings().contains_key(g) <==> self.mappings().contains_key(g) || has_page(
                    added,
                    g,
                ),
            forall|g: u64|
                self.mappings().contains_key(g) ==> #[trigger] new.mappings()[g]
                    == self.mappings()[g],
            forall|j: int|
                0 <= j < added.len() ==> new.mappings().contains_key((#[trigger] added[j]).gpa)
                    && new.mappings()[added[j].gpa] == added[j].map
                    && !self.mappings().contains_key(added[j].gpa),
            forall|a: u64| #[trigger]
                new.memory().contains_key(a) <==> self.memory().contains_key(a) || (
                new.mappings().contains_key(page_base(a)) && !self.mappings().contains_key(
                    page_base(a),
                ) && new.mappings()[page_base(a)].backing == MapPolicy::Allocated),
            forall|a: u64|
                self.memory().contains_key(a) ==> #[trigger] new.memory()[a] == self.memory()[a],
            forall|j: int, a: u64|
                0 <= j < added.len() && page_base(a) == (#[trigger] added[j]).gpa
                    && added[j].map.backing == MapPolicy::Allocated ==> #[trigger] new.memory()[a]
                    == added[j].data@[(a % 0x1000) as int],
    {
        let n = self.entries@.len() as int;
        assert(new.order() =~= self.order() + gpas_of(added));
        assert forall|g: u64| self.mappings().contains_key(g) implies new.mappings().contains_key(g)
            && #[trigger] new.mappings()[g] == self.mappings()[g] && index_of(new.entries@, g)
            == index_of(self.entries@, g) by {
            let i = index_of(self.entries@, g);
            assert(new.entries@[i] == self.entries@[i]);
            new.lemma_index(i, g);
        }
        assert forall|j: int| 0 <= j < added.len() implies new.mappings().contains_key(
            (#[trigger] added[j]).gpa,
        ) && new.mappings()[added[j].gpa] == added[j].map && !self.mappings().contains_key(
            added[j].gpa,
        ) && index_of(new.entries@, added[j].gpa) == n + j by {
            assert(new.entries@[n + j] == added[j]);
            new.lemma_index(n + j, added[j].gpa);
        }
        assert forall|g: u64| #[trigger]
            new.mappings().contains_key(g) <==> self.mappings().contains_key(g) || has_page(
                added,
                g,
            ) by {
            if new.mappings().contains_key(g) {
                let i = index_of(new.entries@, g);
                if i < n {
                    assert(self.entries@[i] == new.entries@[i]);
                } else {
                    assert(added[i - n] == new.entries@[i]);
                }
            }
            if has_page(added, g) {
                let j = choose|j: int| 0 <= j < added.len() && (#[trigger] added[j]).gpa == g;
                assert(new.mappings().contains_key(added[j].gpa));
            }
            if self.mappings().contains_key(g) {
                let i = index_of(self.entries@, g);
                assert(new.entries@[i] == self.entries@[i]);
                new.lemma_index(i, g);
            }
        }
        assert forall|a: u64| #[trigger]
            new.memory().contains_key(a) <==> self.memory().contains_key(a) || (
            new.mappings().contains_key(page_base(a)) && !self.mappings().contains_key(
                page_base(a),
            ) && new.mappings()[page_base(a)].backing == MapPolicy::Allocated) by {
            let g = page_base(a);
            if self.mappings().contains_key(g) {
                assert(new.mappings().contains_key(g));
                assert(new.mappings()[g] == self.mappings()[g]);
            }
        }
        assert forall|a: u64| self.memory().contains_key(a) implies #[trigger] new.memory()[a]
            == self.memory()[a] by {
            let g = page_base(a);
            assert(new.mappings().contains_key(g));
            assert(new.mappings()[g] == self.mappings()[g]);
            let i = index_of(self.entries@, g);
            assert(new.entries@[i] == self.entries@[i]);
        }
        assert forall|j: int, a: u64|
            0 <= j < added.len() && page_base(a) == (#[trigger] added[j]).gpa
                && added[j].map.backing == MapPolicy::Allocated implies #[trigger] new.memory()[a]
            == added[j].data@[(a % 0x1000) as int] by {
            assert(new.entries@[n + j] == added[j]);
            assert(index_of(new.entries@, added[j].gpa) == n + j);
        }
    }

    /// Adds the entries of `fresh` to the address space.
    fn append_fresh(&mut self, fresh: Vec<PageEntry>)
        requires
            old(self).wf(),
            old(self).fresh_fits(fresh@),
        ensures
            final(self).wf(),
            final(self).entries@ == old(self).entries@ + fresh@,
            final(self).base == old(self).base,
            final(self).size == old(self).size,
            final(self).root == old(self).root,
            final(self).stale == (old(self).stale || fresh@.len() > 0),
    {
        let ghost before = self.entries@;
        let mut fresh = fresh;
        if fresh.len() > 0 {
            self.stale = true;
        }
        self.entries.append(&mut fresh);
        proof {
            let n = before.len() as int;
            assert forall|i: int, j: int| 0 <= i < j < self.entries@.len() implies (
            #[trigger] self.entries@[i]).gpa != (#[trigger] self.entries@[j]).gpa by {
                if j >= n && i < n {
                    assert(!has_page(before, self.entries@[j].gpa));
                    assert(before[i].gpa != self.entries@[j].gpa);
                }
            }
            assert forall|i: int, j: int|
                0 <= i < j < self.entries@.len() && (#[trigger] self.entries@[i]).map.backing
                    == MapPolicy::Allocated && (#[trigger] self.entries@[j]).map.backing
                    == MapPolicy::Allocated implies self.entries@[i].map.hpa
                != self.entries@[j].map.hpa by {
                if j >= n && i < n {
                    assert(!has_frame(before, self.entries@[j].map.hpa));
                    assert(before[i].map.hpa != self.entries@[j].map.hpa);
                }
            }
        }
    }

    /// Maps every page of `[gpa, gpa + len)` that is not mapped yet onto the
    /// host frame of the same address, whatever else that frame backs. Pages
    /// that are mapped stay as they are. The only failures are a range that
    /// is not page-aligned or not inside the region; they leave the address
    /// space unchanged.
    pub fn map_passthrough(&mut self, gpa: u64, len: u64, perms: Perms) -> (r: Result<
        (),
        MapError,
    >)
        requires
            old(self).wf(),
        ensures
            final(self).wf(),
            final(self).spec_base() == old(self).spec_base(),
            final(self).spec_size() == old(self).spec_size(),
            final(self).spec_root() == old(self).spec_root(),
            final(self).memory() == old(self).memory(),
            r == old(self).passthrough_outcome(gpa, len),
            r is Ok ==> final(self).mappings() == passthrough_onto(
                old(self).mappings(),
                gpa,
                len,
                perms,
            ) && final(self).spec_stale() == (old(self).spec_stale() || !old(self).covers(
                gpa,
                len,
            )) && final(self).covers(gpa, len) && final(self).order() == old(self).order()
                + fresh_pages(old(self).mappings(), gpa, len as int / 0x1000),
            r is Err ==> final(self).mappings() == old(self).mappings() && final(self).spec_stale()
                == old(self).spec_stale() && final(self).order() == old(self).order(),
    {
        if gpa % PAGE_SIZE != 0 || len % PAGE_SIZE != 0 {
            return Err(MapError::Misaligned);
        }
        if gpa < self.base || gpa - self.base > self.size || len > self.size - (gpa - self.base) {
            return Err(MapError::OutOfRange);
        }
        let n: u64 = len / PAGE_SIZE;
        let mut fresh: Vec<PageEntry> = Vec::new();
        let mut k: u64 = 0;
        while k < n
            invariant
                self.wf(),
                *self == *old(self),
                page_aligned(gpa),
                page_aligned(len),
                within(self.base, self.size, gpa, len),
                n == len / 0x1000,
                k <= n,
                self.fresh_fits(fresh@),
                forall|j: int|
                    0 <= j < fresh@.len() ==> {
                        let e = #[trigger] fresh@[j];
                        &&& page_in(gpa, (k * 0x1000) as u64, e.gpa)
                        &&& e.map == Mapping {
                            hpa: e.gpa,
                            perms,
                            backing: MapPolicy::Passthrough,
                        }
                    },
                forall|g: u64|
                    page_in(gpa, (k * 0x1000) as u64, g) && !self.mappings().contains_key(g)
                        ==> #[trigger] has_page(fresh@, g),
                gpas_of(fresh@) == fresh_pages(self.mappings(), gpa, k as int),
            decreases n - k,
        {
            let page: u64 = gpa + k * PAGE_SIZE;
            let ghost grown = fresh_pages(self.mappings(), gpa, k + 1);
            if self.find(page).is_none() {
                let ghost prev = fresh@;
                fresh.push(
                    PageEntry {
                        gpa: page,
                        map: Mapping { hpa: page, perms, backing: MapPolicy::Passthrough },
                        data: Vec::new(),
                    },
                );
                proof {
                    let last = prev.len() as int;
                    assert(fresh@[last].gpa == page);
                    assert forall|j: int| 0 <= j < prev.len() implies (#[trigger] fresh@[j]).gpa
                        != page by {
                        assert(fresh@[j] == prev[j]);
                    }
                    assert forall|g: u64|
                        page_in(gpa, ((k + 1) * 0x1000) as u64, g) && !self.mappings().contains_key(
                            g,
                        ) implies #[trigger] has_page(fresh@, g) by {
                        if g == page {
                            assert(fresh@[last].gpa == g);
                        } else {
                            assert(page_in(gpa, (k * 0x1000) as u64, g));
                            assert(has_page(prev, g));
                            let w = choose|w: int|
                                0 <= w < prev.len() && (#[trigger] prev[w]).gpa == g;
                            assert(fresh@[w] == prev[w]);
                        }
                    }
                    assert(gpas_of(fresh@) =~= gpas_of(prev).push(page));
                }
            }
            assert(gpas_of(fresh@) == grown);
            k = k + 1;
        }
        let ghost added = fresh@;
        self.append_fresh(fresh);
        proof {
            old(self).lemma_joined(self, added);
            assert(n * 0x1000 == len);
            assert forall|g: u64| #[trigger]
                self.mappings().contains_key(g) implies old(self).mappings().contains_key(g)
                || page_in(gpa, len, g) by {
                if has_page(added, g) {
                    let j = choose|j: int| 0 <= j < added.len() && (#[trigger] added[j]).gpa == g;
                }
            }
            assert forall|g: u64|
                !old(self).mappings().contains_key(g) && page_in(
                    gpa,
                    len,
                    g,
                ) implies #[trigger] self.mappings()[g] == (Mapping {
                hpa: g,
                perms,
                backing: MapPolicy::Passthrough,
            }) by {
                assert(has_page(added, g));
                let j = choose|j: int| 0 <= j < added.len() && (#[trigger] added[j]).gpa == g;
            }
            assert(self.mappings() =~= passthrough_onto(old(self).mappings(), gpa, len, perms));
            assert(self.memory() =~= old(self).memory());
            if added.len() > 0 {
                assert(page_in(gpa, len, added[0].gpa));
                assert(!old(self).mappings().contains_key(added[0].gpa));
            }
            if !old(self).covers(gpa, len) {
                let g = choose|g: u64|
                    page_in(gpa, len, g) && !#[trigger] old(self).mappings().contains_key(g);
                assert(has_page(added, g));
            }
        }
        Ok(())
    }

    /// What holds of the entries made so far for the first `k` pages of a
    /// range that gets frames of its own.
    #[verifier::opaque]
    spec fn alloc_progress(
        &self,
        fresh: Seq<PageEntry>,
        gpa: u64,
        perms: Perms,
        frames: Seq<u64>,
        k: int,
    ) -> bool {
        &&& self.fresh_fits(fresh)
        &&& forall|j: int|
            0 <= j < fresh.len() ==> {
                let e = #[trigger] fresh[j];
                &&& page_in(gpa, (k * 0x1000) as u64, e.gpa)
                &&& e.map == Mapping {
                    hpa: frames[(e.gpa - gpa) / 0x1000],
                    perms,
                    backing: MapPolicy::Allocated,
                }
                &&& forall|i: int| 0 <= i < 0x1000 ==> e.data@[i] == 0
            }
        &&& forall|g: u64|
            page_in(gpa, (k * 0x1000) as u64, g) && !self.mappings().contains_key(g)
                ==> #[trigger] has_page(fresh, g)
        &&& forall|j: int|
            0 <= j < k && !self.mappings().contains_key((gpa + j * 0x1000) as u64) ==> has_frame(
                fresh,
                #[trigger] frames[j],
            )
        &&& forall|j: int| 0 <= j < k ==> !#[trigger] self.frame_unusable(gpa, frames, j)
        &&& gpas_of(fresh) == fresh_pages(self.mappings(), gpa, k)
    }

    /// Nothing has to be made for the first zero pages of a range.
    proof fn lemma_alloc_start(&self, gpa: u64, perms: Perms, frames: Seq<u64>)
        requires
            self.wf(),
        ensures
            self.alloc_progress(Seq::<PageEntry>::empty(), gpa, perms, frames, 0),
    {
        reveal(SecondStage::alloc_progress);
        assert(gpas_of(Seq::<PageEntry>::empty()) =~= fresh_pages(self.mappings(), gpa, 0));
    }

    /// A page that is mapped already needs no entry.
    proof fn lemma_alloc_skip(
        &self,
        fresh: Seq<PageEntry>,
        gpa: u64,
        perms: Perms,
        frames: Seq<u64>,
        k: int,
    )
        requires
            self.wf(),
            page_aligned(gpa),
            0 <= k,
            gpa + (k + 1) * 0x1000 <= u64::MAX,
            self.alloc_progress(fresh, gpa, perms, frames, k),
            self.mappings().contains_key((gpa + k * 0x1000) as u64),
        ensures
            self.alloc_progress(fresh, gpa, perms, frames, k + 1),
    {
        reveal(SecondStage::alloc_progress);
        let page = (gpa + k * 0x1000) as u64;
        assert forall|g: u64|
            page_in(gpa, ((k + 1) * 0x1000) as u64, g) && !self.mappings().contains_key(
                g,
            ) implies #[trigger] has_page(fresh, g) by {
            assert(g != page);
            assert(page_in(gpa, (k * 0x1000) as u64, g));
        }
    }

    /// A frame that fails one of the three tests cannot be used for page `k`.
    proof fn lemma_alloc_reject(
        &self,
        fresh: Seq<PageEntry>,
        gpa: u64,
        perms: Perms,
        frames: Seq<u64>,
        k: int,
    )
        requires
            self.wf(),
            page_aligned(gpa),
            0 <= k < frames.len(),
            gpa + (k + 1) * 0x1000 <= u64::MAX,
            self.alloc_progress(fresh, gpa, perms, frames, k),
            !self.mappings().contains_key((gpa + k * 0x1000) as u64),
            !page_aligned(frames[k]) || has_frame(self.entries@, frames[k]) || has_frame(
                fresh,
                frames[k],
            ),
        ensures
            self.frame_unusable(gpa, frames, k),
    {
        reveal(SecondStage::alloc_progress);
        self.lemma_frames(frames[k]);
        if has_frame(fresh, frames[k]) {
            let i = choose|i: int|
                0 <= i < fresh.len() && (#[trigger] fresh[i]).map.hpa == frames[k];
            let j = (fresh[i].gpa - gpa) / 0x1000;
            assert(fresh[i].gpa == gpa + j * 0x1000);
            assert(!has_page(self.entries@, fresh[i].gpa));
            assert(0 <= j < k);
            assert(frames[j] == frames[k]);
        }
    }

    /// A frame that passes the three tests makes the entry for page `k`.
    proof fn lemma_alloc_take(
        &self,
        prev: Seq<PageEntry>,
        entry: PageEntry,
        gpa: u64,
        perms: Perms,
        frames: Seq<u64>,
        k: int,
    )
        requires
            self.wf(),
            page_aligned(gpa),
            0 <= k < frames.len(),
            self.base <= gpa,
            gpa + (k + 1) * 0x1000 <= self.base + self.size,
            self.alloc_progress(prev, gpa, perms, frames, k),
            !self.mappings().contains_key((gpa + k * 0x1000) as u64),
            page_aligned(frames[k]),
            !has_frame(self.entries@, frames[k]),
            !has_frame(prev, frames[k]),
            entry.gpa == gpa + k * 0x1000,
            entry.map == (Mapping { hpa: frames[k], perms, backing: MapPolicy::Allocated }),
            entry.data@.len() == 0x1000,
            forall|i: int| 0 <= i < 0x1000 ==> entry.data@[i] == 0,
        ensures
            self.alloc_progress(prev.push(entry), gpa, perms, frames, k + 1),
    {
        reveal(SecondStage::alloc_progress);
        let fresh = prev.push(entry);
        let page = entry.gpa;
        let last = prev.len() as int;
        assert(gpas_of(fresh) =~= gpas_of(prev).push(page));
        self.lemma_frames(frames[k]);
        assert(fresh[last] == entry);
        assert((page - gpa) / 0x1000 == k);
        assert forall|j: int| 0 <= j < prev.len() implies (#[trigger] fresh[j]).gpa != page
            && fresh[j].map.hpa != frames[k] by {
            assert(fresh[j] == prev[j]);
        }
        assert(self.fresh_fits(fresh)) by {
            assert forall|j: int| 0 <= j < fresh.len() implies !has_page(
                self.entries@,
                (#[trigger] fresh[j]).gpa,
            ) && !has_frame(self.entries@, fresh[j].map.hpa) by {
                if j < last {
                    assert(fresh[j] == prev[j]);
                }
            }
        }
        assert forall|g: u64|
            page_in(gpa, ((k + 1) * 0x1000) as u64, g) && !self.mappings().contains_key(
                g,
            ) implies #[trigger] has_page(fresh, g) by {
            if g == page {
                assert(fresh[last].gpa == g);
            } else {
                assert(page_in(gpa, (k * 0x1000) as u64, g));
                assert(has_page(prev, g));
                let w = choose|w: int| 0 <= w < prev.len() && (#[trigger] prev[w]).gpa == g;
                assert(fresh[w] == prev[w]);
            }
        }
        assert forall|j: int|
            0 <= j < k + 1 && !self.mappings().contains_key(
                (gpa + j * 0x1000) as u64,
            ) implies has_frame(fresh, #[trigger] frames[j]) by {
            if j == k {
                assert(fresh[last].map.hpa == frames[j]);
            } else {
                assert(has_frame(prev, frames[j]));
                let w = choose|w: int|
                    0 <= w < prev.len() && (#[trigger] prev[w]).map.hpa == frames[j];
                assert(fresh[w] == prev[w]);
            }
        }
        assert(!self.frame_unusable(gpa, frames, k)) by {
            if exists|j: int|
                0 <= j < k && !self.mappings().contains_key((gpa + j * 0x1000) as u64)
                    && #[trigger] frames[j] == frames[k] {
                let j = choose|j: int|
                    0 <= j < k && !self.mappings().contains_key((gpa + j * 0x1000) as u64)
                        && #[trigger] frames[j] == frames[k];
                assert(has_frame(prev, frames[j]));
            }
        }
        assert forall|j: int| 0 <= j < fresh.len() implies {
            let e = #[trigger] fresh[j];
            &&& page_in(gpa, ((k + 1) * 0x1000) as u64, e.gpa)
            &&& e.map == Mapping {
                hpa: frames[(e.gpa - gpa) / 0x1000],
                perms,
                backing: MapPolicy::Allocated,
            }
            &&& forall|i: int| 0 <= i < 0x1000 ==> e.data@[i] == 0
        } by {
            if j < last {
                assert(fresh[j] == prev[j]);
            }
        }
    }

    /// What the address space maps and keeps once the entries for all pages
    /// of the range have joined it.
    proof fn lemma_alloc_done(
        &self,
        new: &SecondStage,
        added: Seq<PageEntry>,
        gpa: u64,
        len: u64,
        perms: Perms,
        frames: Seq<u64>,
    )
        requires
            self.wf(),
            new.wf(),
            page_aligned(gpa),
            page_aligned(len),
            new.entries@ == self.entries@ + added,
            self.alloc_progress(added, gpa, perms, frames, len as int / 0x1000),
        ensures
            new.mappings() == allocated_onto(self.mappings(), gpa, len, perms, frames),
            new.memory() == zeroed_onto(self.memory(), self.mappings(), gpa, len),
            added.len() > 0 <==> !self.covers(gpa, len),
            !self.allocated_conflict(gpa, len, frames),
            new.order() == self.order() + fresh_pages(self.mappings(), gpa, len as int / 0x1000),
    {
        reveal(SecondStage::alloc_progress);
        let n = len as int / 0x1000;
        assert(n * 0x1000 == len);
        self.lemma_joined(new, added);
        assert forall|g: u64| #[trigger] new.mappings().contains_key(g) implies self.mappings().contains_key(
            g,
        ) || page_in(gpa, len, g) by {
            if has_page(added, g) {
                let j = choose|j: int| 0 <= j < added.len() && (#[trigger] added[j]).gpa == g;
            }
        }
        assert forall|g: u64|
            !self.mappings().contains_key(g) && page_in(
                gpa,
                len,
                g,
            ) implies #[trigger] new.mappings()[g] == (Mapping {
            hpa: frames[(g - gpa) / 0x1000],
            perms,
            backing: MapPolicy::Allocated,
        }) by {
            assert(has_page(added, g));
            let j = choose|j: int| 0 <= j < added.len() && (#[trigger] added[j]).gpa == g;
        }
        assert(new.mappings() =~= allocated_onto(self.mappings(), gpa, len, perms, frames));
        let target = zeroed_onto(self.memory(), self.mappings(), gpa, len);
        assert forall|a: u64| #[trigger] new.memory().contains_key(a) <==> target.contains_key(
            a,
        ) by {
            let g = page_base(a);
            if page_in(gpa, len, g) && !self.mappings().contains_key(g) {
                assert(new.mappings().contains_key(g));
                assert(new.mappings()[g].backing == MapPolicy::Allocated);
            }
        }
        assert forall|a: u64| new.memory().contains_key(a) implies #[trigger] new.memory()[a]
            == target[a] by {
            let g = page_base(a);
            if !self.memory().contains_key(a) {
                self.lemma_wf();
                assert(has_page(added, g));
                let j = choose|j: int| 0 <= j < added.len() && (#[trigger] added[j]).gpa == g;
                assert(new.memory()[a] == added[j].data@[(a % 0x1000) as int]);
            }
        }
        assert(new.memory() =~= target);
        if added.len() > 0 {
            assert(page_in(gpa, len, added[0].gpa));
            assert(!self.mappings().contains_key(added[0].gpa));
        }
        if !self.covers(gpa, len) {
            let g = choose|g: u64|
                page_in(gpa, len, g) && !#[trigger] self.mappings().contains_key(g);
            assert(has_page(added, g));
        }
    }

    /// Maps every page of `[gpa, gpa + len)` that is not mapped yet onto a
    /// frame of its own, zeroed: page number `k` of the range onto
    /// `frames[k]`. Pages that are mapped stay as they are, and the frames
    /// offered for them stay unused. An error leaves the address space
    /// unchanged.
    pub fn map_allocated(&mut self, gpa: u64, len: u64, perms: Perms, frames: &Vec<u64>) -> (r:
        Result<(), MapError>)
        requires
            old(self).wf(),
        ensures
            final(self).wf(),
            final(self).spec_base() == old(self).spec_base(),
            final(self).spec_size() == old(self).spec_size(),
            final(self).spec_root() == old(self).spec_root(),
            r == old(self).allocated_outcome(gpa, len, frames@),
            r is Ok ==> final(self).mappings() == allocated_onto(
                old(self).mappings(),
                gpa,
                len,
                perms,
                frames@,
            ) && final(self).memory() == zeroed_onto(
                old(self).memory(),
                old(self).mappings(),
                gpa,
                len,
            ) && final(self).spec_stale() == (old(self).spec_stale() || !old(self).covers(
                gpa,
                len,
            )) && final(self).covers(gpa, len) && final(self).order() == old(self).order()
                + fresh_pages(old(self).mappings(), gpa, len as int / 0x1000),
            r is Err ==> final(self).mappings() == old(self).mappings() && final(self).memory()
                == old(self).memory() && final(self).spec_stale() == old(self).spec_stale()
                && final(self).order() == old(self).order(),
    {
        if gpa % PAGE_SIZE != 0 || len % PAGE_SIZE != 0 {
            return Err(MapError::Misaligned);
        }
        if gpa < self.base || gpa - self.base > self.size || len > self.size - (gpa - self.base) {
            return Err(MapError::OutOfRange);
        }
        let n: u64 = len / PAGE_SIZE;
        if (frames.len() as u64) < n {
            return Err(MapError::OutOfFrames);
        }
        let mut fresh: Vec<PageEntry> = Vec::new();
        let mut k: u64 = 0;
        proof {
            self.lemma_alloc_start(gpa, perms, frames@);
        }
        while k < n
            invariant
                self.wf(),
                *self == *old(self),
                page_aligned(gpa),
                page_aligned(len),
                within(self.base, self.size, gpa, len),
                n == len / 0x1000,
                n <= frames@.len() <= usize::MAX,
                k <= n,
                self.alloc_progress(fresh@, gpa, perms, frames@, k as int),
            decreases n - k,
        {
            let page: u64 = gpa + k * PAGE_SIZE;
            if self.find(page).is_none() {
                let slot: usize = k as usize;
                let frame = frames[slot];
                let in_old = any_frame(&self.entries, frame);
                let in_new = any_frame(&fresh, frame);
                if frame % PAGE_SIZE != 0 || in_old || in_new {
                    proof {
                        self.lemma_alloc_reject(fresh@, gpa, perms, frames@, k as int);
                    }
                    return Err(MapError::FrameInUse);
                }
                let entry = PageEntry {
                    gpa: page,
                    map: Mapping { hpa: frame, perms, backing: MapPolicy::Allocated },
                    data: zero_page(),
                };
                proof {
                    self.lemma_alloc_take(fresh@, entry, gpa, perms, frames@, k as int);
                }
                fresh.push(entry);
            } else {
                proof {
                    self.lemma_alloc_skip(fresh@, gpa, perms, frames@, k as int);
                }
            }
            k = k + 1;
        }
        let ghost added = fresh@;
        proof {
            reveal(SecondStage::alloc_progress);
        }
        self.append_fresh(fresh);
        proof {
            old(self).lemma_alloc_done(self, added, gpa, len, perms, frames@);
        }
        Ok(())
    }
    /// Whether every byte of `[gpa, gpa + len)` lies in a mapped page.
    pub open spec fn range_mapped(&self, gpa: u64, len: int) -> bool {
        &&& gpa + len <= u64::MAX + 1
        &&& forall|i: int| 0 <= i < len ==> #[trigger] self.spec_is_mapped((gpa + i) as u64)
    }

    /// Whether the address space keeps every byte of `[gpa, gpa + len)`.
    pub open spec fn keeps(&self, gpa: u64, len: int) -> bool {
        &&& gpa + len <= u64::MAX + 1
        &&& forall|i: int| 0 <= i < len ==> #[trigger] self.memory().contains_key((gpa + i) as u64)
    }

    /// Whether guest memory at `[gpa, gpa + len)` can be read and written
    /// through the address space, and if not, why.
    pub open spec fn access_outcome(&self, gpa: u64, len: int) -> Result<(), MemError> {
        if !self.range_mapped(gpa, len) {
            Err(MemError::Unmapped)
        } else if !self.keeps(gpa, len) {
            Err(MemError::HostOwned)
        } else {
            Ok(())
        }
    }

    /// Bytes that the address space keeps lie in mapped pages, so a range that
    /// is kept can be read and written.
    pub proof fn lemma_kept_is_accessible(&self, gpa: u64, len: int)
        requires
            self.wf(),
            self.keeps(gpa, len),
        ensures
            self.range_mapped(gpa, len),
            self.access_outcome(gpa, len) == Ok::<(), MemError>(()),
    {
        self.lemma_wf();
        assert forall|i: int| 0 <= i < len implies #[trigger] self.spec_is_mapped(
            (gpa + i) as u64,
        ) by {
            assert(self.memory().contains_key((gpa + i) as u64));
        }
    }

    /// The kept bytes of `[gpa, gpa + len)`, in address order.
    pub open spec fn bytes_at(&self, gpa: u64, len: int) -> Seq<u8> {
        Seq::new(len as nat, |i: int| self.memory()[(gpa + i) as u64])
    }

    /// Whether two address spaces differ at most in the bytes they keep.
    spec fn same_shape(&self, other: &SecondStage) -> bool {
        &&& self.base == other.base
        &&& self.size == other.size
        &&& self.root == other.root
        &&& self.stale == other.stale
        &&& self.entries@.len() == other.entries@.len()
        &&& forall|j: int|
            0 <= j < self.entries@.len() ==> {
                &&& (#[trigger] self.entries@[j]).gpa == other.entries@[j].gpa
                &&& self.entries@[j].map == other.entries@[j].map
                &&& self.entries@[j].data@.len() == other.entries@[j].data@.len()
            }
    }

    /// Address spaces of the same shape map the same pages and keep bytes at
    /// the same addresses, in entries at the same positions.
    proof fn lemma_same_shape(&self, other: &SecondStage)
        requires
            other.wf(),
            self.same_shape(other),
        ensures
            self.wf(),
            self.mappings() == other.mappings(),
            self.order() == other.order(),
            self.memory().dom() == other.memory().dom(),
            forall|g: u64|
                other.mappings().contains_key(g) ==> #[trigger] index_of(self.entries@, g)
                    == index_of(other.entries@, g),
    {
        assert(self.wf());
        assert forall|g: u64| #[trigger] has_page(self.entries@, g) == has_page(
            other.entries@,
            g,
        ) by {
            if has_page(self.entries@, g) {
                let i = index_of(self.entries@, g);
                assert(other.entries@[i].gpa == g);
            }
            if has_page(other.entries@, g) {
                let i = index_of(other.entries@, g);
                assert(self.entries@[i].gpa == g);
            }
        }
        assert forall|g: u64| other.mappings().contains_key(g) implies #[trigger] index_of(
            self.entries@,
            g,
        ) == index_of(other.entries@, g) by {
            let i = index_of(other.entries@, g);
            self.lemma_index(i, g);
        }
        assert(self.mappings() =~= other.mappings());
        assert(self.order() =~= other.order());
        assert(self.memory().dom() =~= other.memory().dom());
    }

    /// The position of the entry for the page at `page`, looked for first at
    /// position `hint`.
    fn find_near(&self, page: u64, hint: usize) -> (r: Option<usize>)
        requires
            self.wf(),
        ensures
            r matches Some(i) ==> i < self.entries@.len() && self.entries@[i as int].gpa == page
                && self.mappings().contains_key(page) && self.mappings()[page]
                == self.entries@[i as int].map && index_of(self.entries@, page) == i,
            r is None ==> !self.mappings().contains_key(page),
    {
        if hint < self.entries.len() && self.entries[hint].gpa == page {
            proof {
                self.lemma_index(hint as int, page);
            }
            Some(hint)
        } else {
            self.find(page)
        }
    }

    /// Whether guest memory at `[gpa, gpa + len)` can be read and written
    /// through the address space, and if not, why.
    pub fn check_range(&self, gpa: u64, len: usize) -> (r: Result<(), MemError>)
        requires
            self.wf(),
        ensures
            r == self.access_outcome(gpa, len as int),
    {
        let mut host_owned = false;
        let mut hint: usize = 0;
        let mut i: usize = 0;
        while i < len
            invariant
                self.wf(),
                i <= len,
                self.range_mapped(gpa, i as int),
                host_owned == !self.keeps(gpa, i as int),
            decreases len - i,
        {
            if i as u64 > u64::MAX - gpa {
                return Err(MemError::Unmapped);
            }
            let addr: u64 = gpa + i as u64;
            match self.find_near(page_of(addr), hint) {
                None => {
                    proof {
                        assert(!self.spec_is_mapped((gpa + i) as u64));
                        assert(!self.memory().contains_key((gpa + i) as u64));
                    }
                    return Err(MemError::Unmapped);
                },
                Some(idx) => {
                    hint = idx;
                    let owned = match self.entries[idx].map.backing {
                        MapPolicy::Passthrough => true,
                        MapPolicy::Allocated => false,
                    };
                    proof {
                        assert(owned == !self.memory().contains_key((gpa + i) as u64));
                        assert(self.spec_is_mapped((gpa + i) as u64));
                        if owned {
                            assert(!self.keeps(gpa, i + 1));
                        }
                        if !self.keeps(gpa, i + 1) && !owned {
                            assert(!self.keeps(gpa, i as int));
                        }
                    }
                    if owned {
                        host_owned = true;
                    }
                },
            }
            i = i + 1;
        }
        if host_owned {
            Err(MemError::HostOwned)
        } else {
            Ok(())
        }
    }

    /// Copies `bytes` into guest memory at `gpa`. It fails with `Unmapped`
    /// where a page touched is not mapped already. It fails with `HostOwned`
    /// where every page is mapped but one of them passthrough: what lies
    /// behind such a page is host memory or a device, which only the caller
    /// can reach. An error leaves the address space unchanged.
    pub fn write_bytes(&mut self, gpa: u64, bytes: &[u8]) -> (r: Result<(), MemError>)
        requires
            old(self).wf(),
        ensures
            final(self).wf(),
            final(self).spec_base() == old(self).spec_base(),
            final(self).spec_size() == old(self).spec_size(),
            final(self).spec_root() == old(self).spec_root(),
            final(self).spec_stale() == old(self).spec_stale(),
            final(self).mappings() == old(self).mappings(),
            final(self).order() == old(self).order(),
            r == old(self).access_outcome(gpa, bytes@.len() as int),
            r is Ok ==> final(self).memory() == written(old(self).memory(), gpa, bytes@)
                && final(self).bytes_at(gpa, bytes@.len() as int) == bytes@,
            r is Err ==> final(self).memory() == old(self).memory(),
    {
        match self.check_range(gpa, bytes.len()) {
            Err(e) => {
                return Err(e);
            },
            Ok(()) => {},
        }
        let mut hint: usize = 0;
        let mut i: usize = 0;
        while i < bytes.len()
            invariant
                old(self).wf(),
                old(self).keeps(gpa, bytes@.len() as int),
                self.same_shape(old(self)),
                i <= bytes@.len(),
                forall|j: int, o: int|
                    0 <= j < self.entries@.len() && 0 <= o < self.entries@[j].data@.len()
                        ==> #[trigger] self.entries@[j].data@[o] == if gpa <= self.entries@[j].gpa
                        + o < gpa + i {
                        bytes@[self.entries@[j].gpa + o - gpa]
                    } else {
                        old(self).entries@[j].data@[o]
                    },
            decreases bytes@.len() - i,
        {
            proof {
                self.lemma_same_shape(old(self));
                assert(old(self).memory().contains_key((gpa + i) as u64));
                assert(self.memory().dom().contains((gpa + i) as u64));
            }
            let addr: u64 = gpa + i as u64;
            let found = self.find_near(page_of(addr), hint);
            let idx = found.unwrap();
            let off = (addr % PAGE_SIZE) as usize;
            hint = idx;
            self.entries[idx].data[off] = bytes[i];
            i = i + 1;
        }
        proof {
            self.lemma_same_shape(old(self));
            let target = written(old(self).memory(), gpa, bytes@);
            assert forall|a: u64| self.memory().contains_key(a) implies #[trigger] self.memory()[a]
                == target[a] by {
                let g = page_base(a);
                let j = index_of(self.entries@, g);
                assert(index_of(old(self).entries@, g) == j);
                assert(self.entries@[j].gpa + a % 0x1000 == a);
            }
            assert(self.memory() =~= target);
            assert(self.bytes_at(gpa, bytes@.len() as int) =~= bytes@);
        }
        Ok(())
    }

    /// Reads `len` bytes of guest memory at `gpa`, with the same two failures
    /// as writing: `Unmapped` for a page that is not mapped, `HostOwned` for
    /// a passthrough page, whose bytes the address space does not keep.
    pub fn read_bytes(&self, gpa: u64, len: usize) -> (r: Result<Vec<u8>, MemError>)
        requires
            self.wf(),
        ensures
            r matches Err(e) ==> self.access_outcome(gpa, len as int) == Err::<(), MemError>(e),
            r is Ok <==> self.access_outcome(gpa, len as int) is Ok,
            r matches Ok(v) ==> v@ == self.bytes_at(gpa, len as int),
    {
        match self.check_range(gpa, len) {
            Err(e) => {
                return Err(e);
            },
            Ok(()) => {},
        }
        let mut out: Vec<u8> = Vec::new();
        let mut hint: usize = 0;
        let mut i: usize = 0;
        while i < len
            invariant
                self.wf(),
                self.keeps(gpa, len as int),
                i <= len,
                out@.len() == i,
                forall|k: int| 0 <= k < i ==> #[trigger] out@[k] == self.memory()[(gpa + k) as u64],
            decreases len - i,
        {
            proof {
                assert(self.memory().contains_key((gpa + i) as u64));
            }
            let addr: u64 = gpa + i as u64;
            let found = self.find_near(page_of(addr), hint);
            let idx = found.unwrap();
            let off = (addr % PAGE_SIZE) as usize;
            hint = idx;
            out.push(self.entries[idx].data[off]);
            i = i + 1;
        }
        proof {
            assert(out@ =~= self.bytes_at(gpa, len as int));
        }
        Ok(out)
    }
    /// A range of one unmapped page is not covered, and its one page is the
    /// one that a mapping of the range adds.
    pub proof fn lemma_one_page_fresh(&self, page: u64)
        requires
            page_aligned(page),
            !self.mappings().contains_key(page),
        ensures
            !self.covers(page, 0x1000),
            fresh_pages(self.mappings(), page, 1) == seq![page],
    {
        assert(page_in(page, 0x1000, page));
        assert(fresh_pages(self.mappings(), page, 0) =~= Seq::<u64>::empty());
        assert(fresh_pages(self.mappings(), page, 1) =~= seq![page]);
    }

    /// For one unmapped page and one frame offered, the frame cannot be used
    /// exactly if it is not page-aligned or backs a page already.
    pub proof fn lemma_one_frame_conflict(&self, page: u64, frames: Seq<u64>)
        requires
            page_aligned(page),
            !self.mappings().contains_key(page),
            frames.len() == 1,
        ensures
            self.allocated_conflict(page, 0x1000, frames) == (!page_aligned(frames[0])
                || self.spec_frame_in_use(frames[0])),
            !self.covers(page, 0x1000),
            fresh_pages(self.mappings(), page, 1) == seq![page],
    {
        self.lemma_one_page_fresh(page);
        assert(page_in(page, 0x1000, page));
        assert(0x1000u64 / 0x1000 == 1);
        if self.allocated_conflict(page, 0x1000, frames) {
            let k = choose|k: int|
                0 <= k < 0x1000u64 / 0x1000 && #[trigger] self.frame_unusable(page, frames, k);
            assert(k == 0);
        }
        if !page_aligned(frames[0]) || self.spec_frame_in_use(frames[0]) {
            assert(self.frame_unusable(page, frames, 0));
        }
    }
    /// Where nothing is mapped, frames for a range conflict exactly if one of
    /// them is not page-aligned or two of them are the same.
    pub proof fn lemma_empty_conflict(&self, gpa: u64, len: u64, frames: Seq<u64>)
        requires
            self.mappings() == Map::<u64, Mapping>::empty(),
        ensures
            self.allocated_conflict(gpa, len, frames) <==> !({
                &&& forall|k: int| 0 <= k < len / 0x1000 ==> page_aligned(#[trigger] frames[k])
                &&& forall|j: int, k: int|
                    0 <= j < k < len / 0x1000 ==> #[trigger] frames[j] != #[trigger] frames[k]
            }),
    {
        let n = len as int / 0x1000;
        let distinct = {
            &&& forall|k: int| 0 <= k < n ==> page_aligned(#[trigger] frames[k])
            &&& forall|j: int, k: int| 0 <= j < k < n ==> #[trigger] frames[j] != #[trigger] frames[k]
        };
        assert forall|h: u64| !self.spec_frame_in_use(h) by {}
        if self.allocated_conflict(gpa, len, frames) {
            let k = choose|k: int| 0 <= k < n && #[trigger] self.frame_unusable(gpa, frames, k);
            if page_aligned(frames[k]) {
                let j = choose|j: int|
                    0 <= j < k && !self.mappings().contains_key((gpa + j * 0x1000) as u64)
                        && #[trigger] frames[j] == frames[k];
                assert(frames[j] == frames[k]);
            }
            assert(!distinct);
        }
        if !distinct {
            if exists|k: int| 0 <= k < n && !page_aligned(#[trigger] frames[k]) {
                let k = choose|k: int| 0 <= k < n && !page_aligned(#[trigger] frames[k]);
                assert(self.frame_unusable(gpa, frames, k));
            } else {
                let (j, k) = choose|j: int, k: int|
                    0 <= j < k < n && #[trigger] frames[j] == #[trigger] frames[k];
                assert(self.frame_unusable(gpa, frames, k));
            }
        }
    }
    /// The order of mapping names every mapped page once and nothing else, so
    /// the mapped pages are finitely many.
    pub proof fn lemma_order(&self)
        requires
            self.wf(),
        ensures
            forall|g: u64| self.mappings().contains_key(g) <==> #[trigger] self.order().contains(g),
            self.order().no_duplicates(),
            self.mappings().dom() == self.order().to_set(),
            self.mappings().dom().finite(),
            self.mappings().dom().len() == self.order().len(),
    {
        let order = self.order();
        assert forall|g: u64| self.mappings().contains_key(g) <==> #[trigger] order.contains(
            g,
        ) by {
            if self.mappings().contains_key(g) {
                let k = index_of(self.entries@, g);
                assert(order[k] == g);
            }
            if order.contains(g) {
                let k = choose|k: int| 0 <= k < order.len() && order[k] == g;
                self.lemma_index(k, g);
            }
        }
        assert(self.mappings().dom() =~= order.to_set());
        vstd::seq_lib::seq_to_set_is_finite(order);
        order.unique_seq_to_set();
    }

    /// The guest-physical addresses of the mapped pages, in the order in
    /// which they were mapped.
    pub fn mapped_pages(&self) -> (pages: Vec<u64>)
        requires
            self.wf(),
        ensures
            pages@ == self.order(),
    {
        let mut pages: Vec<u64> = Vec::new();
        let mut i: usize = 0;
        while i < self.entries.len()
            invariant
                self.wf(),
                i <= self.entries@.len(),
                pages@.len() == i,
                forall|k: int| 0 <= k < i ==> #[trigger] pages@[k] == self.entries@[k].gpa,
            decreases self.entries@.len() - i,
        {
            pages.push(self.entries[i].gpa);
            i = i + 1;
        }
        assert(pages@ =~= self.order());
        pages
    }
}

} // verus!
