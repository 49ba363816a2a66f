//! Properties of the engine that relate several operations, proved over the
//! contracts of those operations.
use vstd::prelude::*;
use crate::memory::{bytes_at, stored};
use crate::probes::{ProbeType, TrapFrame, original_insn, probe_wf};
use crate::kprobes::{
    RegistryView, registry_wf, register_ok, registered, armed_mem, saved_insn, trap_spec, due_spec,
    unregister_result, unregistered, slots_wf, await_addr,
};

verus! {

/// Registering a probe at `addr`, where there was none, and then
/// unregistering it, with no trap in between, leaves the instruction bytes at
/// `addr` as they were.
pub proof fn law_register_unregister_round_trip(
    s: RegistryView,
    mem: Map<usize, u8>,
    free: usize,
    free_end: usize,
    addr: usize,
    kind: ProbeType,
    legal: bool,
    handler: usize,
    post: Option<usize>,
)
    requires
        registry_wf(s),
        !s.probes.contains_key(addr),
        register_ok(s, mem, free, free_end, addr, kind, legal, handler, post),
    ensures
        ({
            let p = registered(s, mem, free, free_end, addr, kind, legal, handler, post);
            let s1 = RegistryView { probes: s.probes.insert(addr, p), current: s.current };
            let m1 = armed_mem(mem, p, addr);
            let m2 = stored(m1, addr as int, original_insn(s1.probes[addr]));
            &&& unregister_result(s1, addr) == 0
            &&& bytes_at(m2, addr as int, p.length as nat) == bytes_at(mem, addr as int, p.length as nat)
        }),
{
    let p = registered(s, mem, free, free_end, addr, kind, legal, handler, post);
    let orig = saved_insn(s, mem, addr)->Some_0;
    assert(original_insn(p) =~= orig);
    let s1 = RegistryView { probes: s.probes.insert(addr, p), current: s.current };
    let m2 = stored(armed_mem(mem, p, addr), addr as int, original_insn(s1.probes[addr]));
    assert(bytes_at(m2, addr as int, p.length as nat) =~= bytes_at(mem, addr as int, p.length as nat));
}

/// A registry holds at most one descriptor for any address: the only key
/// whose descriptor probes `addr` is `addr` itself.
pub proof fn law_at_most_one_descriptor(s: RegistryView, addr: usize)
    requires
        registry_wf(s),
    ensures
        s.probes.dom().filter(|k: usize| s.probes[k].addr == addr).subset_of(set![addr]),
        s.probes.dom().finite() ==> s.probes.dom().filter(|k: usize| s.probes[k].addr == addr).len() <= 1,
{
    let f = s.probes.dom().filter(|k: usize| s.probes[k].addr == addr);
    assert(f.subset_of(set![addr]));
    if s.probes.dom().finite() {
        vstd::set_lib::lemma_len_subset(f, set![addr]);
    }
}

/// Unregistering the probe at `addr` twice succeeds, then fails; the second
/// call changes nothing (a failed unregistration leaves the registry and the
/// memory as they are).
pub proof fn law_unregister_twice(s: RegistryView, addr: usize)
    requires
        s.probes.contains_key(addr),
    ensures
        unregister_result(s, addr) == 0,
        unregister_result(unregistered(s, addr), addr) == -1,
{
}

/// The depth of the return-address stack awaited at trampoline `t`.
pub open spec fn depth(s: RegistryView, t: usize) -> nat {
    if s.current.contains_key(t) { s.current[t].func_ra.len() } else { 0 }
}

/// `t` is awaited only as the return trampoline of function probes: no
/// instruction probe ends its out-of-line step there.
pub open spec fn return_only(s: RegistryView, t: usize) -> bool {
    &&& forall|a: usize| #[trigger] s.probes.contains_key(a) && s.probes[a].probe_type == ProbeType::Insn
        ==> s.probes[a].insn_ebreak_addr != t
    &&& s.current.contains_key(t) ==> s.current[t].probe_type == ProbeType::SyncFunc
}

/// The callback due on a trap at `pc` (see `due_spec`) is the pre-callback of
/// a function probe that returns through `t` and has a post-callback.
pub open spec fn enters(s: RegistryView, pc: usize, t: usize) -> bool {
    &&& due_spec(s, pc) is Some
    &&& s.probes.contains_key(pc)
    &&& s.probes[pc].probe_type == ProbeType::SyncFunc
    &&& s.probes[pc].post_handler is Some
    &&& s.probes[pc].func_ebreak_addr == t
}

/// The callback due on a trap at `pc` is the post-callback of a return
/// through `t`.
pub open spec fn returns_through(s: RegistryView, pc: usize, t: usize) -> bool {
    &&& due_spec(s, pc) is Some
    &&& !s.probes.contains_key(pc)
    &&& pc == t
    &&& s.current.contains_key(t)
    &&& s.current[t].probe_type == ProbeType::SyncFunc
}

/// The registry after the traps `fs` in turn, each a trapped address and the
/// frame as its due callback left it.
pub open spec fn run(s: RegistryView, fs: Seq<(usize, TrapFrame)>) -> RegistryView
    decreases fs.len(),
{
    if fs.len() == 0 {
        s
    } else {
        run(trap_spec(s, fs[0].0, fs[0].1).0, fs.drop_first())
    }
}

/// How many of the traps `fs` have the pre-callback of a function probe
/// returning through `t` due.
pub open spec fn pre_count(s: RegistryView, fs: Seq<(usize, TrapFrame)>, t: usize) -> nat
    decreases fs.len(),
{
    if fs.len() == 0 {
        0
    } else {
        (if enters(s, fs[0].0, t) { 1nat } else { 0nat }) + pre_count(
            trap_spec(s, fs[0].0, fs[0].1).0,
            fs.drop_first(),
            t,
        )
    }
}

/// How many of the traps `fs` have the post-callback of a return through `t`
/// due.
pub open spec fn post_count(s: RegistryView, fs: Seq<(usize, TrapFrame)>, t: usize) -> nat
    decreases fs.len(),
{
    if fs.len() == 0 {
        0
    } else {
        (if returns_through(s, fs[0].0, t) { 1nat } else { 0nat }) + post_count(
            trap_spec(s, fs[0].0, fs[0].1).0,
            fs.drop_first(),
            t,
        )
    }
}

/// One trap moves the stack at `t` by one push per entry and one pop per
/// return, and keeps `t` a return trampoline only.
proof fn lemma_balance_step(s: RegistryView, pc: usize, mid: TrapFrame, t: usize)
    requires
        registry_wf(s),
        return_only(s, t),
    ensures
        depth(trap_spec(s, pc, mid).0, t) + (if returns_through(s, pc, t) { 1int } else { 0int }) == depth(s, t) + (
        if enters(s, pc, t) { 1int } else { 0int }),
        return_only(trap_spec(s, pc, mid).0, t),
{
    let s1 = trap_spec(s, pc, mid).0;
    assert(s1.probes == s.probes);
    if s.probes.contains_key(pc) {
        let p = s.probes[pc];
        assert(probe_wf(p));
    } else if s.current.contains_key(pc) {
        assert(crate::kprobes::in_flight_wf(s.current[pc], pc));
    }
}

/// Induction over the traps of a run, for a trampoline awaited only as one.
proof fn lemma_balance_run(s: RegistryView, fs: Seq<(usize, TrapFrame)>, t: usize)
    requires
        registry_wf(s),
        return_only(s, t),
    ensures
        pre_count(s, fs, t) + depth(s, t) == post_count(s, fs, t) + depth(run(s, fs), t),
    decreases fs.len(),
{
    if fs.len() > 0 {
        let s1 = trap_spec(s, fs[0].0, fs[0].1).0;
        lemma_balance_step(s, fs[0].0, fs[0].1, t);
        crate::kprobes::lemma_trap_keeps_wf(s, fs[0].0, fs[0].1);
        lemma_balance_run(s1, fs.drop_first(), t);
    }
}

/// Return-stack balance: take a registry and the function probe at `a`, with
/// a post-callback, returning through trampoline `t`. Over any run of traps,
/// the pre-callbacks that its entries have due number the post-callbacks that
/// its returns have due, plus the growth of its stack of saved return
/// addresses. `kprobes_trap_handler` and `uprobes_trap_handler` run exactly the
/// due callback of each trap (see their contracts), and each executable's
/// armed user probes form such a registry too.
pub proof fn law_return_stack_balance(s: RegistryView, free: usize, a: usize, fs: Seq<(usize, TrapFrame)>)
    requires
        registry_wf(s),
        slots_wf(s, free),
        s.probes.contains_key(a),
        s.probes[a].probe_type == ProbeType::SyncFunc,
        s.probes[a].post_handler is Some,
    ensures
        ({
            let t = s.probes[a].func_ebreak_addr;
            pre_count(s, fs, t) + depth(s, t) == post_count(s, fs, t) + depth(run(s, fs), t)
        }),
{
    let t = s.probes[a].func_ebreak_addr;
    assert(await_addr(s.probes[a]) == t);
    assert forall|b: usize| #[trigger] s.probes.contains_key(b) && s.probes[b].probe_type == ProbeType::Insn
        implies s.probes[b].insn_ebreak_addr != t by {
        assert(await_addr(s.probes[b]) == s.probes[b].insn_ebreak_addr);
        assert(s.probes[a].probe_type != s.probes[b].probe_type);
    }
    if s.current.contains_key(t) {
        assert(s.probes[a].probe_type == s.current[t].probe_type);
    }
    lemma_balance_run(s, fs, t);
}

} // verus!
