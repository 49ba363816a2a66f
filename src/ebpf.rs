//! Attaching bytecode programs to probes. An attached program is the
//! pre-callback of its probe: the probe is registered with the program's
//! address as its handler, and `Ebpf::program` gives the program that a
//! handler stands for, to be run by the bytecode interpreter. Its
//! post-callback is the trace callback `TRACE_HANDLER`, which records each
//! completed step and each function return.
use vstd::prelude::*;
use std::collections::BTreeMap;
use crate::memory::{CodeMemory, stored};
use crate::probes::{ProbePlace, ProbeType, original_insn, slot_image};
use crate::kprobes::{
    Kprobes, RegistryView, register_ok, registered, armed_mem, slots_wf, targets_mapped, unregistered,
};
use crate::uprobes::{
    CurrentProcessUprobes, UprobesInner, UprobesView, register_uprobes_spec, unregister_uprobe_spec, entry_of,
    find_path,
};

verus! {

broadcast use {vstd::laws_cmp::group_laws_cmp, vstd::std_specs::btree::group_btree_axioms};

/// The handler number of the trace callback that every bytecode probe runs
/// after its step or function return.
pub const TRACE_HANDLER: usize = usize::MAX;

/// The user probe that attaches a program at `addr`.
pub open spec fn program_uprobe(addr: usize, t: ProbeType, legal: bool) -> UprobesInner {
    UprobesInner { addr, handler: addr, post_handler: Some(TRACE_HANDLER), probe_type: t, insn_legal: legal }
}

/// What registering the probe of a program at `addr`, placed by `pp`, does:
/// from registries `k0`, `u0` and memories `km0` (kernel), `um0` (the current
/// process, which runs `current`) to `k1`, `u1`, `km1`, `um1` and result `r`.
pub open spec fn arm_effect(
    addr: usize,
    path: Seq<char>,
    pp: ProbePlace,
    legal: bool,
    current: Seq<char>,
    k0: RegistryView,
    km0: CodeMemory,
    u0: Seq<UprobesView>,
    um0: CodeMemory,
    k1: RegistryView,
    km1: CodeMemory,
    u1: Seq<UprobesView>,
    um1: CodeMemory,
    r: isize,
) -> bool {
    &&& r == 0 || r == -1
    &&& r != 0 ==> k1 == k0 && km1 == km0 && u1 == u0 && um1 == um0
    &&& match pp {
        ProbePlace::Kernel(t) => {
            &&& (r == 0 <==> register_ok(k0, km0.mem(), km0.next_free, km0.free_end, addr, t, legal, addr,
                Some(TRACE_HANDLER)))
            &&& (r == 0 ==> {
                let p = registered(k0, km0.mem(), km0.next_free, km0.free_end, addr, t, legal, addr,
                    Some(TRACE_HANDLER));
                &&& k1.probes == k0.probes.insert(addr, p)
                &&& k1.current == k0.current
                &&& km1.mem() == armed_mem(km0.mem(), p, addr)
                &&& km1.next_free == km0.next_free + slot_image(p).len()
                &&& km1.free_end == km0.free_end
                &&& u1 == u0
                &&& um1 == um0
            })
        },
        ProbePlace::User(t) => {
            let (v, res) = register_uprobes_spec(u0, current, um0.mem(), um0.next_free, um0.free_end, path,
                program_uprobe(addr, t, legal));
            &&& r == res
            &&& u1 == v
            &&& k1 == k0
            &&& km1 == km0
            &&& um1.free_end == um0.free_end
            &&& (path != current ==> um1 == um0)
            &&& (r == 0 && path == current ==> {
                let p = entry_of(u1, path).points.probes[addr];
                &&& um1.mem() == armed_mem(um0.mem(), p, addr)
                &&& um1.next_free == um0.next_free + slot_image(p).len()
            })
        },
    }
}

/// What removing the probe of a program at `addr`, placed by `place` (in
/// executable `path`), does: from `k0`, `km0`, `u0`, `um0` (the address space
/// of `path`) to `k1`, `km1`, `u1`, `um1`.
pub open spec fn disarm_effect(
    addr: usize,
    place: ProbePlace,
    path: Seq<char>,
    k0: RegistryView,
    km0: CodeMemory,
    u0: Seq<UprobesView>,
    um0: CodeMemory,
    k1: RegistryView,
    km1: CodeMemory,
    u1: Seq<UprobesView>,
    um1: CodeMemory,
) -> bool {
    match place {
        ProbePlace::Kernel(_) => {
            &&& u1 == u0
            &&& um1 == um0
            &&& (k0.probes.contains_key(addr) ==> {
                &&& k1 == unregistered(k0, addr)
                &&& km1.mem() == stored(km0.mem(), addr as int, original_insn(k0.probes[addr]))
                &&& km1.next_free == km0.next_free
                &&& km1.free_end == km0.free_end
            })
            &&& (!k0.probes.contains_key(addr) ==> k1 == k0 && km1 == km0)
        },
        ProbePlace::User(_) => {
            let e = entry_of(u0, path);
            let present = find_path(u0, path) >= 0 && (e.pending.contains_key(addr) || e.points.probes.contains_key(addr));
            &&& k1 == k0
            &&& km1 == km0
            &&& (present ==> u1 == unregister_uprobe_spec(u0, path, addr))
            &&& (present && e.points.probes.contains_key(addr) ==> {
                &&& um1.mem() == stored(um0.mem(), addr as int, original_insn(e.points.probes[addr]))
                &&& um1.next_free == um0.next_free
                &&& um1.free_end == um0.free_end
            })
            &&& (!(present && e.points.probes.contains_key(addr)) ==> um1 == um0)
            &&& (!present ==> u1 == u0)
        },
    }
}

/// A bytecode program attached at `addr`, with the placement of its probe.
pub struct EbpfInner {
    pub addr: usize,
    pub prog: Vec<u64>,
    pub place: ProbePlace,
    /// The executable of a user placement.
    pub path: String,
}

impl EbpfInner {
    /// A program at `addr`, placed in kernel code until it is armed elsewhere.
    pub fn new(addr: usize, prog: Vec<u64>) -> (r: Self)
        ensures
            r.addr == addr,
            r.prog@ == prog@,
            r.place == ProbePlace::Kernel(ProbeType::Insn),
            r.path@ == Seq::<char>::empty(),
    {
        EbpfInner { addr, prog, place: ProbePlace::Kernel(ProbeType::Insn), path: String::new() }
    }

    /// Registers the probe that runs this program, placed by `pp`: a kernel
    /// probe armed in `kmem`, or a user probe for executable `path` (armed in
    /// `umem` if the current process runs `current` = `path`). Its
    /// pre-callback is registered under the program's address, its
    /// post-callback is `TRACE_HANDLER`. Returns 0, or -1 with nothing
    /// changed (see `arm_effect`).
    pub fn arm(
        &self,
        kprobes: &mut Kprobes,
        uprobes: &mut CurrentProcessUprobes,
        kmem: &mut CodeMemory,
        umem: &mut CodeMemory,
        current: &String,
        path: String,
        pp: ProbePlace,
        insn_legal: bool,
    ) -> (r: isize)
        requires
            old(kprobes).wf(),
            old(uprobes).wf(),
            old(kmem).wf(),
            old(umem).wf(),
            targets_mapped(old(kprobes)@, old(kmem).mem()),
            slots_wf(old(kprobes)@, old(kmem).next_free),
            old(uprobes).mapped_in(current@, old(umem).mem(), old(umem).next_free),
        ensures
            final(kprobes).wf(),
            final(uprobes).wf(),
            final(kmem).wf(),
            final(umem).wf(),
            targets_mapped(final(kprobes)@, final(kmem).mem()),
            slots_wf(final(kprobes)@, final(kmem).next_free),
            final(uprobes).mapped_in(current@, final(umem).mem(), final(umem).next_free),
            arm_effect(self.addr, path@, pp, insn_legal, current@, old(kprobes)@, *old(kmem), old(uprobes)@,
                *old(umem), final(kprobes)@, *final(kmem), final(uprobes)@, *final(umem), r),
    {
        match pp {
            ProbePlace::Kernel(t) => kprobes.register_kprobe(kmem, self.addr, self.addr, Some(TRACE_HANDLER), t, insn_legal),
            ProbePlace::User(t) => uprobes.register_uprobes(
                current,
                umem,
                path,
                self.addr,
                self.addr,
                Some(TRACE_HANDLER),
                t,
                insn_legal,
            ),
        }
    }

    /// Removes the probe of this program: the kernel probe at its address, or
    /// the user probe of its executable, whose address space `umem` is (see
    /// `disarm_effect`). Returns 0, or -1 with nothing changed where a user
    /// placement's executable is not `upath`.
    pub fn disarm(
        &self,
        kprobes: &mut Kprobes,
        uprobes: &mut CurrentProcessUprobes,
        kmem: &mut CodeMemory,
        umem: &mut CodeMemory,
        upath: &String,
    ) -> (r: isize)
        requires
            old(kprobes).wf(),
            old(uprobes).wf(),
            old(kmem).wf(),
            old(umem).wf(),
            targets_mapped(old(kprobes)@, old(kmem).mem()),
            slots_wf(old(kprobes)@, old(kmem).next_free),
            old(uprobes).mapped_in(upath@, old(umem).mem(), old(umem).next_free),
        ensures
            final(kprobes).wf(),
            final(uprobes).wf(),
            final(kmem).wf(),
            final(umem).wf(),
            targets_mapped(final(kprobes)@, final(kmem).mem()),
            slots_wf(final(kprobes)@, final(kmem).next_free),
            final(uprobes).mapped_in(upath@, final(umem).mem(), final(umem).next_free),
            r == 0 <==> (self.place is Kernel || self.path@ == upath@),
            r == 0 ==> disarm_effect(self.addr, self.place, self.path@, old(kprobes)@, *old(kmem), old(uprobes)@,
                *old(umem), final(kprobes)@, *final(kmem), final(uprobes)@, *final(umem)),
            r != 0 ==> r == -1 && final(kprobes)@ == old(kprobes)@ && *final(kmem) == *old(kmem) && final(uprobes)@ == old(uprobes)@ && *final(umem) == *old(umem),
    {
        match self.place {
            ProbePlace::Kernel(_) => {
                let _ = kprobes.unregister_kprobe(kmem, self.addr);
                0
            },
            ProbePlace::User(_) => {
                if self.path != *upath {
                    return -1;
                }
                let _ = uprobes.unregister_uprobe(umem, upath, self.addr);
                0
            },
        }
    }
}

/// The attached programs, with the kernel and user probe registries that
/// they are attached through.
pub struct Ebpf {
    pub inner: BTreeMap<usize, EbpfInner>,
    pub kprobes: Kprobes,
    pub uprobes: CurrentProcessUprobes,
}

/// The programs of `m`, by address.
pub open spec fn programs(m: Map<usize, EbpfInner>) -> Map<usize, Seq<u64>> {
    m.map_values(|e: EbpfInner| e.prog@)
}

impl Ebpf {
    pub open spec fn progs(&self) -> Map<usize, Seq<u64>> {
        programs(self.inner@)
    }

    /// Well-formed, with the kernel's code memory `kmem`, and the address
    /// space `umem` of executable `current`.
    pub open spec fn wf(&self, kmem: &CodeMemory, umem: &CodeMemory, current: Seq<char>) -> bool {
        &&& forall|k: usize| #[trigger] self.inner@.contains_key(k) ==> self.inner@[k].addr == k
        &&& self.kprobes.wf()
        &&& self.uprobes.wf()
        &&& kmem.wf()
        &&& umem.wf()
        &&& targets_mapped(self.kprobes@, kmem.mem())
        &&& slots_wf(self.kprobes@, kmem.next_free)
        &&& self.uprobes.mapped_in(current, umem.mem(), umem.next_free)
    }

    pub fn new() -> (r: Self)
        ensures
            r.kprobes.wf(),
            r.uprobes.wf(),
            r.progs() == Map::<usize, Seq<u64>>::empty(),
            r.kprobes@.probes == Map::<usize, crate::probes::ProbeView>::empty(),
            r.kprobes@.current == Map::<usize, crate::probes::ProbeView>::empty(),
            r.uprobes@ == Seq::<UprobesView>::empty(),
    {
        let r = Ebpf { inner: BTreeMap::new(), kprobes: Kprobes::new(), uprobes: CurrentProcessUprobes::new() };
        assert(r.progs() =~= Map::<usize, Seq<u64>>::empty());
        r
    }

    /// The program run by the callback registered under `handler`.
    pub fn program(&self, handler: usize) -> (r: Option<&Vec<u64>>)
        ensures
            match r {
                Some(p) => self.progs().contains_key(handler) && p@ == self.progs()[handler],
                None => !self.progs().contains_key(handler),
            },
    {
        match self.inner.get(&handler) {
            Some(e) => Some(&e.prog),
            None => None,
        }
    }

    /// Attaches `prog` at `addr`, placed by `pp`: in kernel code (armed in
    /// `kmem`), or in the code of executable `path` (armed in `umem` if the
    /// current process runs it, else when one that does is activated).
    /// `insn_legal` is the instruction decoder's verdict on the probed
    /// instruction. Returns 0, or -1 with nothing changed (see `arm_effect`).
    pub fn register(
        &mut self,
        kmem: &mut CodeMemory,
        umem: &mut CodeMemory,
        current: &String,
        addr: usize,
        prog: Vec<u64>,
        path: String,
        pp: ProbePlace,
        insn_legal: bool,
    ) -> (r: isize)
        requires
            old(self).wf(old(kmem), old(umem), current@),
        ensures
            final(self).wf(final(kmem), final(umem), current@),
            arm_effect(addr, path@, pp, insn_legal, current@, old(self).kprobes@, *old(kmem), old(self).uprobes@,
                *old(umem), final(self).kprobes@, *final(kmem), final(self).uprobes@, *final(umem), r),
            r == 0 ==> final(self).progs() == old(self).progs().insert(addr, prog@),
            r != 0 ==> final(self).progs() == old(self).progs(),
    {
        let mut e = EbpfInner::new(addr, prog);
        let r = e.arm(&mut self.kprobes, &mut self.uprobes, kmem, umem, current, path.clone(), pp, insn_legal);
        if r != 0 {
            return r;
        }
        e.place = pp;
        e.path = path;
        let ghost m0 = self.inner@;
        self.inner.insert(addr, e);
        assert(programs(m0.insert(addr, e)) =~= programs(m0).insert(addr, e.prog@));
        0
    }

    /// Detaches the program at `addr` and removes its probe (see
    /// `disarm_effect`). `umem` is the address space of executable `upath`.
    /// Returns 0, or -1 with nothing changed where no program is attached at
    /// `addr`, or its probe is placed in another executable than `upath`.
    pub fn unregister(&mut self, kmem: &mut CodeMemory, umem: &mut CodeMemory, upath: &String, addr: usize) -> (r: isize)
        requires
            old(self).wf(old(kmem), old(umem), upath@),
        ensures
            final(self).wf(final(kmem), final(umem), upath@),
            r == 0 <==> old(self).inner@.contains_key(addr) && (old(self).inner@[addr].place is Kernel
                || old(self).inner@[addr].path@ == upath@),
            r == 0 ==> final(self).progs() == old(self).progs().remove(addr) && disarm_effect(
                addr,
                old(self).inner@[addr].place,
                old(self).inner@[addr].path@,
                old(self).kprobes@,
                *old(kmem),
                old(self).uprobes@,
                *old(umem),
                final(self).kprobes@,
                *final(kmem),
                final(self).uprobes@,
                *final(umem),
            ),
            r != 0 ==> r == -1 && final(self).progs() == old(self).progs() && final(self).kprobes@ == old(self).kprobes@ && *final(kmem) == *old(kmem) && final(self).uprobes@ == old(self).uprobes@
                && *final(umem) == *old(umem),
    {
        let ghost m0 = self.inner@;
        match self.inner.get(&addr) {
            Some(e) => {
                match e.place {
                    ProbePlace::User(_) => {
                        if e.path != *upath {
                            return -1;
                        }
                    },
                    ProbePlace::Kernel(_) => {},
                }
            },
            None => {
                return -1;
            },
        }
        match self.inner.remove(&addr) {
            Some(e) => {
                assert(m0.contains_key(addr) && m0[addr] == e);
                assert(programs(m0.remove(addr)) =~= programs(m0).remove(addr));
                let _ = e.disarm(&mut self.kprobes, &mut self.uprobes, kmem, umem, upath);
                0
            },
            None => {
                assert(self.inner@ =~= m0);
                -1
            },
        }
    }
}

/// Attaches `prog` at `addr` (see `Ebpf::register`).
pub fn ebpf_register(
    ebpf: &mut Ebpf,
    kmem: &mut CodeMemory,
    umem: &mut CodeMemory,
    current: &String,
    addr: usize,
    prog: Vec<u64>,
    path: String,
    pp: ProbePlace,
    insn_legal: bool,
) -> (r: isize)
    requires
        old(ebpf).wf(old(kmem), old(umem), current@),
    ensures
        final(ebpf).wf(final(kmem), final(umem), current@),
        arm_effect(addr, path@, pp, insn_legal, current@, old(ebpf).kprobes@, *old(kmem), old(ebpf).uprobes@,
            *old(umem), final(ebpf).kprobes@, *final(kmem), final(ebpf).uprobes@, *final(umem), r),
        r == 0 ==> final(ebpf).progs() == old(ebpf).progs().insert(addr, prog@),
        r != 0 ==> final(ebpf).progs() == old(ebpf).progs(),
{
    ebpf.register(kmem, umem, current, addr, prog, path, pp, insn_legal)
}

/// Detaches the program at `addr` (see `Ebpf::unregister`).
pub fn ebpf_unregister(ebpf: &mut Ebpf, kmem: &mut CodeMemory, umem: &mut CodeMemory, upath: &String, addr: usize) -> (r: isize)
    requires
        old(ebpf).wf(old(kmem), old(umem), upath@),
    ensures
        final(ebpf).wf(final(kmem), final(umem), upath@),
        r == 0 <==> old(ebpf).inner@.contains_key(addr) && (old(ebpf).inner@[addr].place is Kernel
            || old(ebpf).inner@[addr].path@ == upath@),
        r == 0 ==> final(ebpf).progs() == old(ebpf).progs().remove(addr) && disarm_effect(
            addr,
            old(ebpf).inner@[addr].place,
            old(ebpf).inner@[addr].path@,
            old(ebpf).kprobes@,
            *old(kmem),
            old(ebpf).uprobes@,
            *old(umem),
            final(ebpf).kprobes@,
            *final(kmem),
            final(ebpf).uprobes@,
            *final(umem),
        ),
        r != 0 ==> r == -1 && final(ebpf).progs() == old(ebpf).progs() && final(ebpf).kprobes@ == old(ebpf).kprobes@ && *final(kmem) == *old(kmem) && final(ebpf).uprobes@ == old(ebpf).uprobes@ && *final(umem)
            == *old(umem),
{
    ebpf.unregister(kmem, umem, upath, addr)
}

} // verus!
