//! The registry of kernel probes: the armed descriptors by probed address, and
//! the in-flight descriptors by the address of the breakpoint that will bring
//! the hart back (the end of an out-of-line step, or a return trampoline).
use vstd::prelude::*;
use std::collections::BTreeMap;
use crate::decode::{insn_len_spec, get_insn_length};
use crate::memory::{CodeMemory, mapped, stored, bytes_at};
use crate::probes::{KprobesInner, ProbeType, ProbeView, TrapEvent, TrapFrame, ProbeHost, Invoker, probe_wf, original_insn, slot_base, slot_image, build_spec, ebreak_bytes};

verus! {

broadcast use {vstd::laws_cmp::group_laws_cmp, vstd::std_specs::btree::group_btree_axioms};

/// The mathematical content of a registry.
pub struct RegistryView {
    /// Descriptors by probed address.
    pub probes: Map<usize, ProbeView>,
    /// In-flight descriptors by the address of the breakpoint awaited.
    pub current: Map<usize, ProbeView>,
}

/// Well-formedness of a registry.
pub open spec fn registry_wf(s: RegistryView) -> bool {
    &&& forall|a: usize| #[trigger] s.probes.contains_key(a) ==> {
        &&& s.probes[a].addr == a
        &&& probe_wf(s.probes[a])
        &&& s.probes[a].func_ra.len() == 0
    }
    &&& forall|t: usize| #[trigger] s.current.contains_key(t) ==> in_flight_wf(s.current[t], t)
}

/// Well-formedness of an in-flight descriptor awaited at `t`.
pub open spec fn in_flight_wf(c: ProbeView, t: usize) -> bool {
    &&& probe_wf(c)
    &&& c.probe_type == ProbeType::Insn ==> t == c.insn_ebreak_addr
    &&& c.probe_type == ProbeType::SyncFunc ==> {
        &&& t == c.func_ebreak_addr
        &&& c.post_handler is Some
        &&& c.func_ra.len() > 0
    }
}

/// Every probed instruction of `s` is mapped in `mem`.
pub open spec fn targets_mapped(s: RegistryView, mem: Map<usize, u8>) -> bool {
    forall|a: usize| #[trigger] s.probes.contains_key(a) ==> mapped(mem, a as int, s.probes[a].length as int)
}

/// The instruction that a probe at `addr` saves: the copy held by the
/// descriptor already there, else the instruction in `mem`, where it is mapped.
pub open spec fn saved_insn(s: RegistryView, mem: Map<usize, u8>, addr: usize) -> Option<Seq<u8>> {
    if s.probes.contains_key(addr) {
        Some(original_insn(s.probes[addr]))
    } else if mapped(mem, addr as int, 1) && mapped(mem, addr as int, insn_len_spec(mem[addr]) as int) {
        Some(bytes_at(mem, addr as int, insn_len_spec(mem[addr])))
    } else {
        None
    }
}

/// The callback due on a breakpoint trap at `pc`: the pre-callback of the
/// probe at `pc` (a probed address wins over an in-flight one), else the
/// post-callback, if any, of the descriptor awaited at `pc`, else none.
pub open spec fn due_spec(s: RegistryView, pc: usize) -> Option<usize> {
    if s.probes.contains_key(pc) {
        Some(s.probes[pc].handler)
    } else if s.current.contains_key(pc) {
        s.current[pc].post_handler
    } else {
        None
    }
}

/// What a breakpoint trap at `pc` does to the registry and the frame, where
/// `mid` is the frame once the due callback (if any) has run on it.
pub open spec fn trap_spec(s: RegistryView, pc: usize, mid: TrapFrame) -> (RegistryView, TrapFrame, TrapEvent) {
    if s.probes.contains_key(pc) {
        let p = s.probes[pc];
        let ev = TrapEvent::Entered { addr: pc, handler: p.handler };
        if p.probe_type == ProbeType::Insn {
            let cur = if s.current.contains_key(p.insn_ebreak_addr) {
                s.current
            } else {
                s.current.insert(p.insn_ebreak_addr, p)
            };
            (
                RegistryView { probes: s.probes, current: cur },
                TrapFrame { sepc: p.slot_addr, sp: mid.sp, ra: mid.ra },
                ev,
            )
        } else {
            let sepc = pc.wrapping_add(p.length);
            let sp = mid.sp.wrapping_add_signed(p.addisp);
            if p.post_handler is Some {
                let t = p.func_ebreak_addr;
                let c = if s.current.contains_key(t) { s.current[t] } else { p };
                let c2 = ProbeView { func_ra: c.func_ra.push(mid.ra), ..c };
                (
                    RegistryView { probes: s.probes, current: s.current.insert(t, c2) },
                    TrapFrame { sepc, sp, ra: t },
                    ev,
                )
            } else {
                (s, TrapFrame { sepc, sp, ra: mid.ra }, ev)
            }
        }
    } else if s.current.contains_key(pc) {
        let c = s.current[pc];
        if c.probe_type == ProbeType::Insn {
            (
                RegistryView { probes: s.probes, current: s.current.remove(pc) },
                TrapFrame { sepc: (c.addr + c.length) as usize, sp: mid.sp, ra: mid.ra },
                TrapEvent::Stepped { addr: c.addr, post: c.post_handler },
            )
        } else {
            let rest = c.func_ra.drop_last();
            let cur = if rest.len() == 0 {
                s.current.remove(pc)
            } else {
                s.current.insert(pc, ProbeView { func_ra: rest, ..c })
            };
            (
                RegistryView { probes: s.probes, current: cur },
                TrapFrame { sepc: c.func_ra.last(), sp: mid.sp, ra: mid.ra },
                TrapEvent::Returned { tramp: pc, post_handler: c.post_handler->Some_0 },
            )
        }
    } else {
        (s, mid, TrapEvent::NotProbed)
    }
}

/// Whether a probe at `addr` can be registered: the instruction that it saves
/// can be read, and the descriptor can be built (see `build_spec`).
pub open spec fn register_ok(
    s: RegistryView,
    mem: Map<usize, u8>,
    free: usize,
    free_end: usize,
    addr: usize,
    kind: ProbeType,
    legal: bool,
    handler: usize,
    post: Option<usize>,
) -> bool {
    &&& saved_insn(s, mem, addr) is Some
    &&& build_spec(addr, saved_insn(s, mem, addr)->Some_0, kind, legal, handler, post, free, free_end) is Some
}

/// The descriptor that a registration at `addr` builds.
pub open spec fn registered(
    s: RegistryView,
    mem: Map<usize, u8>,
    free: usize,
    free_end: usize,
    addr: usize,
    kind: ProbeType,
    legal: bool,
    handler: usize,
    post: Option<usize>,
) -> ProbeView {
    build_spec(addr, saved_insn(s, mem, addr)->Some_0, kind, legal, handler, post, free, free_end)->Some_0
}

/// `mem` once the probe `p` at `addr` is stored and armed: its out-of-line
/// copy or return trampoline written, and breakpoints over the instruction.
pub open spec fn armed_mem(mem: Map<usize, u8>, p: ProbeView, addr: usize) -> Map<usize, u8> {
    stored(stored(mem, slot_base(p) as int, slot_image(p)), addr as int, ebreak_bytes(p.length as nat))
}

/// What unregistering the probe at `addr` returns: 0 where there is one, else -1.
pub open spec fn unregister_result(s: RegistryView, addr: usize) -> isize {
    if s.probes.contains_key(addr) { 0isize } else { -1isize }
}

/// The registry after the probe at `addr`, if any, is unregistered.
pub open spec fn unregistered(s: RegistryView, addr: usize) -> RegistryView {
    RegistryView { probes: s.probes.remove(addr), current: s.current }
}

/// The breakpoint at which a descriptor is awaited while in flight: the end of
/// its out-of-line step, or its return trampoline.
pub open spec fn await_addr(p: ProbeView) -> usize {
    if p.probe_type == ProbeType::Insn { p.insn_ebreak_addr } else { p.func_ebreak_addr }
}

/// Every descriptor is awaited below `free`, in the part of the free area
/// already handed out, and descriptors awaited at one address are of one kind.
pub open spec fn slots_wf(s: RegistryView, free: usize) -> bool {
    &&& forall|a: usize| #[trigger] s.probes.contains_key(a) ==> await_addr(s.probes[a]) < free
    &&& forall|t: usize| #[trigger] s.current.contains_key(t) ==> await_addr(s.current[t]) < free
    &&& forall|a: usize, b: usize|
        #![trigger s.probes[a], s.probes[b]]
        s.probes.contains_key(a) && s.probes.contains_key(b) && await_addr(s.probes[a]) == await_addr(s.probes[b])
            ==> s.probes[a].probe_type == s.probes[b].probe_type
    &&& forall|a: usize, t: usize|
        #![trigger s.probes[a], s.current[t]]
        s.probes.contains_key(a) && s.current.contains_key(t) && await_addr(s.probes[a]) == t
            ==> s.probes[a].probe_type == s.current[t].probe_type
}

/// A trap keeps the awaited breakpoints in order.
pub proof fn lemma_trap_keeps_slots(s: RegistryView, pc: usize, mid: TrapFrame, free: usize)
    requires
        registry_wf(s),
        slots_wf(s, free),
    ensures
        slots_wf(trap_spec(s, pc, mid).0, free),
{
    let s1 = trap_spec(s, pc, mid).0;
    assert(s1.probes == s.probes);
    assert forall|t: usize| #[trigger] s1.current.contains_key(t) implies await_addr(s1.current[t]) < free by {
        if s.current.contains_key(t) {
            assert(await_addr(s.current[t]) < free);
        }
        if s.probes.contains_key(pc) {
            assert(await_addr(s.probes[pc]) < free);
        }
    }
    assert forall|a: usize, t: usize|
        #![trigger s1.probes[a], s1.current[t]]
        s1.probes.contains_key(a) && s1.current.contains_key(t) && await_addr(s1.probes[a]) == t
            implies s1.probes[a].probe_type == s1.current[t].probe_type by {
        assert(s.probes.contains_key(a));
        if s.probes.contains_key(pc) {
            let p = s.probes[pc];
            if p.probe_type == ProbeType::Insn {
                if t == p.insn_ebreak_addr && !s.current.contains_key(t) {
                    assert(s1.current[t] == p);
                    assert(await_addr(p) == t);
                    assert(s.probes[a].probe_type == s.probes[pc].probe_type);
                } else {
                    assert(s.current.contains_key(t));
                    assert(s1.current[t] == s.current[t]);
                    assert(s.probes[a].probe_type == s.current[t].probe_type);
                }
            } else if p.post_handler is Some {
                if t == p.func_ebreak_addr {
                    if s.current.contains_key(t) {
                        assert(s1.current[t].probe_type == s.current[t].probe_type);
                        assert(s.probes[a].probe_type == s.current[t].probe_type);
                    } else {
                        assert(s1.current[t].probe_type == p.probe_type);
                        assert(await_addr(p) == t);
                        assert(s.probes[a].probe_type == s.probes[pc].probe_type);
                    }
                } else {
                    assert(s.current.contains_key(t));
                    assert(s1.current[t] == s.current[t]);
                    assert(s.probes[a].probe_type == s.current[t].probe_type);
                }
            } else {
                assert(s.current.contains_key(t));
                assert(s.probes[a].probe_type == s.current[t].probe_type);
            }
        } else if s.current.contains_key(pc) {
            assert(s.current.contains_key(t));
            assert(s1.current[t].probe_type == s.current[t].probe_type);
            assert(s.probes[a].probe_type == s.current[t].probe_type);
        } else {
            assert(s.probes[a].probe_type == s.current[t].probe_type);
        }
    }
}

/// The registry of kernel probes.
pub struct Kprobes {
    pub inner: BTreeMap<usize, KprobesInner>,
    pub current: BTreeMap<usize, KprobesInner>,
}

pub open spec fn view_probes(m: Map<usize, KprobesInner>) -> Map<usize, ProbeView> {
    m.map_values(|p: KprobesInner| p@)
}

impl View for Kprobes {
    type V = RegistryView;

    open spec fn view(&self) -> RegistryView {
        RegistryView { probes: view_probes(self.inner@), current: view_probes(self.current@) }
    }
}

proof fn lemma_view_insert(m: Map<usize, KprobesInner>, k: usize, p: KprobesInner)
    ensures
        view_probes(m.insert(k, p)) == view_probes(m).insert(k, p@),
{
    assert(view_probes(m.insert(k, p)) =~= view_probes(m).insert(k, p@));
}

proof fn lemma_view_remove(m: Map<usize, KprobesInner>, k: usize)
    ensures
        view_probes(m.remove(k)) == view_probes(m).remove(k),
{
    assert(view_probes(m.remove(k)) =~= view_probes(m).remove(k));
}

proof fn lemma_current_kept(s: RegistryView, s2: RegistryView)
    requires
        registry_wf(s),
        s2.current == s.current,
    ensures
        forall|t: usize| #[trigger] s2.current.contains_key(t) ==> in_flight_wf(s2.current[t], t),
{
    assert forall|t: usize| #[trigger] s2.current.contains_key(t) implies in_flight_wf(s2.current[t], t) by {
        assert(s.current.contains_key(t));
    }
}

proof fn lemma_insert_keeps_slots(s: RegistryView, addr: usize, p: ProbeView, free: usize, free2: usize)
    requires
        registry_wf(s),
        slots_wf(s, free),
        free <= await_addr(p) < free2,
    ensures
        slots_wf(RegistryView { probes: s.probes.insert(addr, p), current: s.current }, free2),
{
    let s1 = RegistryView { probes: s.probes.insert(addr, p), current: s.current };
    assert forall|a: usize| #[trigger] s1.probes.contains_key(a) implies await_addr(s1.probes[a]) < free2 by {
        if a != addr {
            assert(s.probes.contains_key(a));
        }
    }
    assert forall|t: usize| #[trigger] s1.current.contains_key(t) implies await_addr(s1.current[t]) < free2 by {
        assert(s.current.contains_key(t));
    }
    assert forall|a: usize, b: usize|
        #![trigger s1.probes[a], s1.probes[b]]
        s1.probes.contains_key(a) && s1.probes.contains_key(b) && await_addr(s1.probes[a]) == await_addr(s1.probes[b])
            implies s1.probes[a].probe_type == s1.probes[b].probe_type by {
        if a != addr && b != addr {
            assert(s.probes.contains_key(a) && s.probes.contains_key(b));
        } else if a != addr {
            assert(s.probes.contains_key(a));
            assert(await_addr(s.probes[a]) < free);
        } else if b != addr {
            assert(s.probes.contains_key(b));
            assert(await_addr(s.probes[b]) < free);
        }
    }
    assert forall|a: usize, t: usize|
        #![trigger s1.probes[a], s1.current[t]]
        s1.probes.contains_key(a) && s1.current.contains_key(t) && await_addr(s1.probes[a]) == t
            implies s1.probes[a].probe_type == s1.current[t].probe_type by {
        assert(s.current.contains_key(t));
        assert(await_addr(s.current[t]) < free);
        assert(in_flight_wf(s.current[t], t));
        if a != addr {
            assert(s.probes.contains_key(a));
        }
    }
}

proof fn lemma_remove_keeps_slots(s: RegistryView, addr: usize, free: usize)
    requires
        slots_wf(s, free),
    ensures
        slots_wf(RegistryView { probes: s.probes.remove(addr), current: s.current }, free),
{
    let s1 = RegistryView { probes: s.probes.remove(addr), current: s.current };
    assert forall|a: usize| #[trigger] s1.probes.contains_key(a) implies await_addr(s1.probes[a]) < free by {
        assert(s.probes.contains_key(a));
    }
    assert forall|t: usize| #[trigger] s1.current.contains_key(t) implies await_addr(s1.current[t]) < free by {
        assert(s.current.contains_key(t));
    }
    assert forall|a: usize, b: usize|
        #![trigger s1.probes[a], s1.probes[b]]
        s1.probes.contains_key(a) && s1.probes.contains_key(b) && await_addr(s1.probes[a]) == await_addr(s1.probes[b])
            implies s1.probes[a].probe_type == s1.probes[b].probe_type by {
        assert(s.probes.contains_key(a) && s.probes.contains_key(b));
    }
    assert forall|a: usize, t: usize|
        #![trigger s1.probes[a], s1.current[t]]
        s1.probes.contains_key(a) && s1.current.contains_key(t) && await_addr(s1.probes[a]) == t
            implies s1.probes[a].probe_type == s1.current[t].probe_type by {
        assert(s.probes.contains_key(a) && s.current.contains_key(t));
    }
}

impl Kprobes {
    pub open spec fn wf(&self) -> bool {
        registry_wf(self@)
    }

    /// An empty registry.
    pub fn new() -> (r: Self)
        ensures
            r.wf(),
            r@.probes == Map::<usize, ProbeView>::empty(),
            r@.current == Map::<usize, ProbeView>::empty(),
    {
        let r = Kprobes { inner: BTreeMap::new(), current: BTreeMap::new() };
        assert(r@.probes =~= Map::<usize, ProbeView>::empty());
        assert(r@.current =~= Map::<usize, ProbeView>::empty());
        r
    }

    /// The instruction that a probe at `addr` saves (see `saved_insn`).
    pub fn saved_insn_of(&self, mem: &CodeMemory, addr: usize) -> (r: Option<Vec<u8>>)
        requires
            self.wf(),
        ensures
            match r {
                Some(v) => saved_insn(self@, mem.mem(), addr) == Some(v@),
                None => saved_insn(self@, mem.mem(), addr) is None,
            },
    {
        match self.inner.get(&addr) {
            Some(p) => {
                assert(self@.probes.contains_key(addr));
                let mut v: Vec<u8> = Vec::new();
                let mut i: usize = 0;
                while i < p.length
                    invariant
                        i <= p.length,
                        p.length <= p.slot@.len(),
                        v@ == p.slot@.take(i as int),
                    decreases p.length - i,
                {
                    v.push(p.slot[i]);
                    i = i + 1;
                    assert(v@ =~= p.slot@.take(i as int));
                }
                Some(v)
            },
            None => {
                let first = match mem.read(addr, 1) {
                    Some(b) => b,
                    None => {
                        return None;
                    },
                };
                assert(first@[0] == mem.mem()[addr]);
                let len = get_insn_length(first[0]);
                mem.read(addr, len)
            },
        }
    }

    /// Registers a probe at `addr` that runs `handler` before the instruction
    /// there (and `post_handler`, if any, after it or after the function
    /// returns), and arms it. A probe already at `addr` is replaced: the new
    /// one saves the instruction that it had saved. `insn_legal` is the
    /// instruction decoder's verdict on that instruction. Returns 0, or -1
    /// with nothing changed where the instruction cannot be read or the probe
    /// cannot be built.
    pub fn register_kprobe(
        &mut self,
        mem: &mut CodeMemory,
        addr: usize,
        handler: usize,
        post_handler: Option<usize>,
        probe_type: ProbeType,
        insn_legal: bool,
    ) -> (r: isize)
        requires
            old(self).wf(),
            old(mem).wf(),
            targets_mapped(old(self)@, old(mem).mem()),
            slots_wf(old(self)@, old(mem).next_free),
        ensures
            final(self).wf(),
            final(mem).wf(),
            targets_mapped(final(self)@, final(mem).mem()),
            slots_wf(final(self)@, final(mem).next_free),
            final(self)@.current == old(self)@.current,
            final(mem).free_end == old(mem).free_end,
            r == 0 || r == -1,
            r == 0 <==> register_ok(old(self)@, old(mem).mem(), old(mem).next_free, old(mem).free_end,
                addr, probe_type, insn_legal, handler, post_handler),
            r == 0 ==> {
                let p = registered(old(self)@, old(mem).mem(), old(mem).next_free, old(mem).free_end,
                    addr, probe_type, insn_legal, handler, post_handler);
                &&& final(self)@.probes == old(self)@.probes.insert(addr, p)
                &&& final(mem).next_free == old(mem).next_free + slot_image(p).len()
                &&& final(mem).mem() == armed_mem(old(mem).mem(), p, addr)
            },
            r == -1 ==> final(self)@ == old(self)@ && *final(mem) == *old(mem),
    {
        let insn = match self.saved_insn_of(mem, addr) {
            Some(v) => v,
            None => {
                return -1;
            },
        };
        proof {
            if self@.probes.contains_key(addr) {
                assert(insn@.len() == self@.probes[addr].length);
            }
        }
        let probe = match KprobesInner::new(mem, addr, &insn, handler, post_handler, probe_type, insn_legal) {
            Some(p) => p,
            None => {
                return -1;
            },
        };
        assert(mapped(mem.mem(), addr as int, probe.length as int));
        probe.arm(mem);
        let ghost pv = probe@;
        let ghost old_inner = self.inner@;
        self.inner.insert(addr, probe);
        proof {
            lemma_view_insert(old_inner, addr, probe);
            assert(self.current@ == old(self).current@);
            lemma_current_kept(old(self)@, self@);
            lemma_insert_keeps_slots(old(self)@, addr, pv, old(mem).next_free, mem.next_free);
            assert forall|a: usize| #[trigger] self@.probes.contains_key(a) implies {
                &&& self@.probes[a].addr == a
                &&& probe_wf(self@.probes[a])
                &&& self@.probes[a].func_ra.len() == 0
            } by {
                if a != addr {
                    assert(old(self)@.probes.contains_key(a));
                }
            }
            assert forall|a: usize| #[trigger] self@.probes.contains_key(a) implies mapped(
                mem.mem(),
                a as int,
                self@.probes[a].length as int,
            ) by {
                if a != addr {
                    assert(old(self)@.probes.contains_key(a));
                    assert(mapped(old(mem).mem(), a as int, old(self)@.probes[a].length as int));
                }
            }
        }
        0
    }

    /// Removes the probe at `addr` and writes its saved instruction back.
    /// Returns 0, or -1 with nothing changed where no probe is at `addr`.
    pub fn unregister_kprobe(&mut self, mem: &mut CodeMemory, addr: usize) -> (r: isize)
        requires
            old(self).wf(),
            old(mem).wf(),
            targets_mapped(old(self)@, old(mem).mem()),
            slots_wf(old(self)@, old(mem).next_free),
        ensures
            final(self).wf(),
            final(mem).wf(),
            targets_mapped(final(self)@, final(mem).mem()),
            slots_wf(final(self)@, final(mem).next_free),
            final(mem).next_free == old(mem).next_free,
            final(mem).free_end == old(mem).free_end,
            r == unregister_result(old(self)@, addr),
            r == 0 ==> {
                &&& final(self)@ == unregistered(old(self)@, addr)
                &&& final(mem).mem() == stored(old(mem).mem(), addr as int, original_insn(old(self)@.probes[addr]))
            },
            r != 0 ==> final(self)@ == old(self)@ && *final(mem) == *old(mem),
    {
        let ghost old_inner = self.inner@;
        match self.inner.remove(&addr) {
            Some(p) => {
                proof {
                    lemma_view_remove(old_inner, addr);
                    assert(self.current@ == old(self).current@);
                    lemma_current_kept(old(self)@, self@);
                    lemma_remove_keeps_slots(old(self)@, addr, mem.next_free);
                    assert(old(self)@.probes.contains_key(addr));
                    assert forall|a: usize| #[trigger] self@.probes.contains_key(a) implies {
                        &&& self@.probes[a].addr == a
                        &&& probe_wf(self@.probes[a])
                        &&& self@.probes[a].func_ra.len() == 0
                    } by {
                        assert(old(self)@.probes.contains_key(a));
                    }
                }
                p.disarm(mem);
                proof {
                    assert forall|a: usize| #[trigger] self@.probes.contains_key(a) implies mapped(
                        mem.mem(),
                        a as int,
                        self@.probes[a].length as int,
                    ) by {
                        assert(old(self)@.probes.contains_key(a));
                        assert(mapped(old(mem).mem(), a as int, old(self)@.probes[a].length as int));
                    }
                }
                0
            },
            None => {
                assert(self.inner@ =~= old_inner);
                -1
            },
        }
    }
    /// The callback due on a breakpoint trap at `pc` (see `due_spec`).
    pub fn due_callback(&self, pc: usize) -> (r: Option<usize>)
        requires
            self.wf(),
        ensures
            r == due_spec(self@, pc),
    {
        match self.inner.get(&pc) {
            Some(p) => {
                assert(self@.probes.contains_key(pc));
                Some(p.handler)
            },
            None => match self.current.get(&pc) {
                Some(c) => {
                    assert(self@.current.contains_key(pc));
                    c.post_handler
                },
                None => None,
            },
        }
    }

    /// Completes a breakpoint trap at `pc` once its due callback has run:
    /// `cx` is the frame as the callback left it (the trapped frame where none
    /// was due). Moves the probe's state on and sets where the hart resumes
    /// (see `trap_spec`).
    pub fn complete_trap(&mut self, pc: usize, cx: &mut TrapFrame) -> (r: TrapEvent)
        requires
            old(self).wf(),
        ensures
            final(self).wf(),
            forall|free: usize| slots_wf(old(self)@, free) ==> #[trigger] slots_wf(final(self)@, free),
            (final(self)@, *final(cx), r) == trap_spec(old(self)@, pc, *old(cx)),
    {
        let ghost s0 = self@;
        let ghost mid = *cx;
        let ghost old_cur = self.current@;
        proof {
            lemma_trap_keeps_wf(s0, pc, mid);
            lemma_trap_keeps_all_slots(s0, pc, mid);
        }
        let entry = match self.inner.get(&pc) {
            Some(p) => Some(p.duplicate()),
            None => None,
        };
        match entry {
            Some(p) => {
                assert(s0.probes.contains_key(pc));
                assert(p@ == s0.probes[pc]);
                let ev = TrapEvent::Entered { addr: pc, handler: p.handler };
                if p.probe_type == ProbeType::Insn {
                    let t = p.insn_ebreak_addr;
                    if !self.current.contains_key(&t) {
                        let c = p.duplicate();
                        self.current.insert(t, c);
                        proof {
                            lemma_view_insert(old_cur, t, c);
                        }
                    }
                    cx.sepc = p.slot_addr;
                } else {
                    cx.sp = cx.sp.wrapping_add_signed(p.addisp);
                    cx.sepc = pc.wrapping_add(p.length);
                    if p.post_handler.is_some() {
                        let t = p.func_ebreak_addr;
                        let mut c = match self.current.remove(&t) {
                            Some(c) => c,
                            None => p.duplicate(),
                        };
                        let ghost c0 = c@;
                        c.func_ra.push(cx.ra);
                        assert(c@ == ProbeView { func_ra: c0.func_ra.push(mid.ra), ..c0 });
                        let ghost cur1 = self.current@;
                        self.current.insert(t, c);
                        proof {
                            lemma_view_insert(cur1, t, c);
                            assert(cur1 == old_cur.remove(t));
                            assert(view_probes(old_cur.remove(t)).insert(t, c@) =~= view_probes(old_cur).insert(t, c@));
                        }
                        cx.ra = t;
                    }
                }
                proof {
                    let (s1, f1, e1) = trap_spec(s0, pc, mid);
                    assert(s1.probes == self@.probes);
                    assert(s1.current =~= self@.current);
                }
                ev
            },
            None => {
                assert(!s0.probes.contains_key(pc));
                let c = match self.current.remove(&pc) {
                    Some(c) => c,
                    None => {
                        assert(self.current@ =~= old_cur);
                        return TrapEvent::NotProbed;
                    },
                };
                proof {
                    lemma_view_remove(old_cur, pc);
                    assert(s0.current.contains_key(pc));
                    assert(c@ == s0.current[pc]);
                }
                if c.probe_type == ProbeType::Insn {
                    cx.sepc = c.addr + c.length;
                    proof {
                        let (s1, f1, e1) = trap_spec(s0, pc, mid);
                        assert(s1.current =~= self@.current);
                    }
                    TrapEvent::Stepped { addr: c.addr, post: c.post_handler }
                } else {
                    let h = match c.post_handler {
                        Some(h) => h,
                        None => {
                            proof {
                                assert(false);
                            }
                            return TrapEvent::NotProbed;
                        },
                    };
                    let mut c = c;
                    let ghost c0 = c@;
                    let ret = match c.func_ra.pop() {
                        Some(a) => a,
                        None => {
                            proof {
                                assert(false);
                            }
                            0
                        },
                    };
                    assert(c@ == ProbeView { func_ra: c0.func_ra.drop_last(), ..c0 });
                    if c.func_ra.len() > 0 {
                        let ghost cur1 = self.current@;
                        self.current.insert(pc, c);
                        proof {
                            lemma_view_insert(cur1, pc, c);
                            assert(view_probes(old_cur.remove(pc)).insert(pc, c@) =~= view_probes(old_cur).insert(pc, c@));
                        }
                    }
                    cx.sepc = ret;
                    proof {
                        let (s1, f1, e1) = trap_spec(s0, pc, mid);
                        assert(s1.current =~= self@.current);
                    }
                    TrapEvent::Returned { tramp: pc, post_handler: h }
                }
            },
        }
    }

    /// Handles a breakpoint trap at `cx.sepc`: runs the due callback (see
    /// `due_spec`) once through `host`, and no other, then completes the trap
    /// (see `complete_trap`) on the frame the callback handed back.
    pub fn kprobes_trap_handler<H: ProbeHost>(&mut self, cx: &mut TrapFrame, host: &mut Invoker<H>) -> (r: TrapEvent)
        requires
            old(self).wf(),
        ensures
            final(self).wf(),
            forall|free: usize| slots_wf(old(self)@, free) ==> #[trigger] slots_wf(final(self)@, free),
            match due_spec(old(self)@, old(cx).sepc) {
                Some(h) => {
                    let c = final(host).calls().last();
                    &&& final(host).calls() == old(host).calls().push((h, *old(cx), c.2))
                    &&& (final(self)@, *final(cx), r) == trap_spec(old(self)@, old(cx).sepc, c.2)
                },
                None => {
                    &&& final(host).calls() == old(host).calls()
                    &&& (final(self)@, *final(cx), r) == trap_spec(old(self)@, old(cx).sepc, *old(cx))
                },
            },
    {
        let pc = cx.sepc;
        match self.due_callback(pc) {
            Some(h) => host.call(h, cx),
            None => {},
        }
        self.complete_trap(pc, cx)
    }
}

/// A trap keeps the awaited breakpoints in order, whatever the free area.
pub proof fn lemma_trap_keeps_all_slots(s: RegistryView, pc: usize, mid: TrapFrame)
    requires
        registry_wf(s),
    ensures
        forall|free: usize| slots_wf(s, free) ==> #[trigger] slots_wf(trap_spec(s, pc, mid).0, free),
{
    assert forall|free: usize| slots_wf(s, free) implies #[trigger] slots_wf(trap_spec(s, pc, mid).0, free) by {
        lemma_trap_keeps_slots(s, pc, mid, free);
    }
}

/// A trap keeps a registry well-formed.
pub proof fn lemma_trap_keeps_wf(s: RegistryView, pc: usize, mid: TrapFrame)
    requires
        registry_wf(s),
    ensures
        registry_wf(trap_spec(s, pc, mid).0),
{
    let s1 = trap_spec(s, pc, mid).0;
    assert(s1.probes == s.probes);
    assert forall|t: usize| #[trigger] s1.current.contains_key(t) implies in_flight_wf(s1.current[t], t) by {
        if s.current.contains_key(t) {
            assert(in_flight_wf(s.current[t], t));
        }
        if s.probes.contains_key(pc) {
            assert(probe_wf(s.probes[pc]));
        }
    }
}

} // verus!
