//! A model of the code memory that probes patch: a map from address to byte
//! holding the mapped bytes, and a free area from which the out-of-line slots
//! and return trampolines of probes are taken.
use vstd::prelude::*;
use std::collections::BTreeMap;

verus! {

broadcast use {vstd::laws_cmp::group_laws_cmp, vstd::std_specs::btree::group_btree_axioms};

/// `m` with the bytes of `s` stored from `addr` on.
pub open spec fn stored(m: Map<usize, u8>, addr: int, s: Seq<u8>) -> Map<usize, u8> {
    Map::new(
        |a: usize| m.contains_key(a) || (addr <= a < addr + s.len()),
        |a: usize|
            if addr <= a < addr + s.len() {
                s[a - addr]
            } else {
                m[a]
            },
    )
}

/// Whether the `len` bytes from `addr` on are all mapped in `m`.
pub open spec fn mapped(m: Map<usize, u8>, addr: int, len: int) -> bool {
    &&& 0 <= addr
    &&& addr + len <= usize::MAX
    &&& forall|a: usize| addr <= a < addr + len ==> #[trigger] m.contains_key(a)
}

/// The `len` bytes of `m` from `addr` on.
pub open spec fn bytes_at(m: Map<usize, u8>, addr: int, len: nat) -> Seq<u8> {
    Seq::new(len, |i: int| m[(addr + i) as usize])
}

/// An address space of code: its mapped bytes, and the free area
/// `[next_free, free_end)` that `take_free` hands out from, none of it mapped yet.
pub struct CodeMemory {
    pub bytes: BTreeMap<usize, u8>,
    pub next_free: usize,
    pub free_end: usize,
}

impl CodeMemory {
    pub open spec fn wf(&self) -> bool {
        &&& self.next_free <= self.free_end
        &&& forall|a: usize| self.next_free <= a < self.free_end ==> !#[trigger] self.bytes@.contains_key(a)
    }

    pub open spec fn mem(&self) -> Map<usize, u8> {
        self.bytes@
    }

    /// An empty address space whose free area is `[free_start, free_end)`.
    pub fn new(free_start: usize, free_end: usize) -> (r: Self)
        requires
            free_start <= free_end,
        ensures
            r.wf(),
            r.mem() == Map::<usize, u8>::empty(),
            r.next_free == free_start,
            r.free_end == free_end,
    {
        CodeMemory { bytes: BTreeMap::new(), next_free: free_start, free_end }
    }

    /// Maps `data` at `addr`, outside the free area.
    pub fn load(&mut self, addr: usize, data: &[u8])
        requires
            old(self).wf(),
            addr + data@.len() <= usize::MAX,
            addr + data@.len() <= old(self).next_free || old(self).free_end <= addr,
        ensures
            final(self).wf(),
            final(self).mem() == stored(old(self).mem(), addr as int, data@),
            final(self).next_free == old(self).next_free,
            final(self).free_end == old(self).free_end,
    {
        let mut i: usize = 0;
        while i < data.len()
            invariant
                i <= data@.len(),
                addr + data@.len() <= usize::MAX,
                addr + data@.len() <= self.next_free || self.free_end <= addr,
                self.next_free == old(self).next_free,
                self.free_end == old(self).free_end,
                self.wf(),
                self.mem() == stored(old(self).mem(), addr as int, data@.take(i as int)),
            decreases data@.len() - i,
        {
            self.bytes.insert(addr + i, data[i]);
            i = i + 1;
            assert(self.mem() =~= stored(old(self).mem(), addr as int, data@.take(i as int)));
        }
        assert(data@.take(data@.len() as int) =~= data@);
    }

    /// The `len` bytes from `addr` on, or `None` where one of them is not
    /// mapped.
    pub fn read(&self, addr: usize, len: usize) -> (r: Option<Vec<u8>>)
        ensures
            match r {
                Some(v) => mapped(self.mem(), addr as int, len as int) && v@ == bytes_at(
                    self.mem(),
                    addr as int,
                    len as nat,
                ),
                None => !mapped(self.mem(), addr as int, len as int),
            },
    {
        if addr > usize::MAX - len {
            return None;
        }
        let mut v: Vec<u8> = Vec::new();
        let mut i: usize = 0;
        while i < len
            invariant
                i <= len,
                addr + len <= usize::MAX,
                v@ == bytes_at(self.mem(), addr as int, i as nat),
                forall|a: usize| addr <= a < addr + i ==> #[trigger] self.mem().contains_key(a),
            decreases len - i,
        {
            match self.bytes.get(&(addr + i)) {
                Some(b) => {
                    v.push(*b);
                },
                None => {
                    return None;
                },
            }
            i = i + 1;
            assert(v@ =~= bytes_at(self.mem(), addr as int, i as nat));
        }
        Some(v)
    }

    /// Overwrites the mapped bytes from `addr` on with `data`.
    pub fn write(&mut self, addr: usize, data: &[u8])
        requires
            old(self).wf(),
            mapped(old(self).mem(), addr as int, data@.len() as int),
        ensures
            final(self).wf(),
            final(self).mem() == stored(old(self).mem(), addr as int, data@),
            final(self).next_free == old(self).next_free,
            final(self).free_end == old(self).free_end,
    {
        let mut i: usize = 0;
        while i < data.len()
            invariant
                i <= data@.len(),
                mapped(old(self).mem(), addr as int, data@.len() as int),
                old(self).wf(),
                self.next_free == old(self).next_free,
                self.free_end == old(self).free_end,
                self.mem() == stored(old(self).mem(), addr as int, data@.take(i as int)),
            decreases data@.len() - i,
        {
            assert(old(self).mem().contains_key((addr + i) as usize));
            self.bytes.insert(addr + i, data[i]);
            i = i + 1;
            assert(self.mem() =~= stored(old(self).mem(), addr as int, data@.take(i as int)));
        }
        assert(data@.take(data@.len() as int) =~= data@);
        assert(self.mem() =~= stored(old(self).mem(), addr as int, data@));
    }

    /// Maps `len` zero bytes at the start of the free area and returns their
    /// address, or `None` where the free area is too small.
    pub fn take_free(&mut self, len: usize) -> (r: Option<usize>)
        requires
            old(self).wf(),
        ensures
            final(self).wf(),
            final(self).free_end == old(self).free_end,
            match r {
                Some(a) => {
                    &&& old(self).next_free + len <= old(self).free_end
                    &&& a == old(self).next_free
                    &&& final(self).next_free == a + len
                    &&& final(self).mem() == stored(old(self).mem(), a as int, Seq::new(len as nat, |i: int| 0u8))
                },
                None => {
                    &&& old(self).next_free + len > old(self).free_end
                    &&& *final(self) == *old(self)
                },
            },
    {
        if len > self.free_end - self.next_free {
            return None;
        }
        let a = self.next_free;
        let ghost zeros = Seq::new(len as nat, |i: int| 0u8);
        let mut i: usize = 0;
        while i < len
            invariant
                i <= len,
                a + len <= self.free_end,
                a == old(self).next_free,
                zeros == Seq::new(len as nat, |k: int| 0u8),
                self.next_free == old(self).next_free,
                self.free_end == old(self).free_end,
                old(self).wf(),
                self.mem() == stored(old(self).mem(), a as int, zeros.take(i as int)),
            decreases len - i,
        {
            self.bytes.insert(a + i, 0u8);
            i = i + 1;
            assert(self.mem() =~= stored(old(self).mem(), a as int, zeros.take(i as int)));
        }
        assert(zeros.take(len as int) =~= zeros);
        self.next_free = a + len;
        Some(a)
    }
}

} // verus!
