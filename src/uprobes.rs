//! User probes. They are registered per executable path and armed lazily: a
//! probe is written into a process's code only while a process running that
//! executable is current, at registration or when such a process is
//! activated. Once armed, a path's probes behave as kernel probes do, in that
//! process's address space.
use vstd::prelude::*;
use std::collections::BTreeMap;
use crate::memory::CodeMemory;
use vstd::std_specs::iter::IteratorSpec;
use crate::probes::{ProbeHost, Invoker, ProbeType, TrapEvent, TrapFrame, build_spec, slot_image};
use crate::kprobes::{Kprobes, RegistryView, armed_mem, due_spec, saved_insn, slots_wf, targets_mapped, trap_spec, unregistered};
use crate::memory::stored;
use crate::probes::original_insn;

verus! {

broadcast use {vstd::laws_cmp::group_laws_cmp, vstd::std_specs::btree::group_btree_axioms};

/// A user probe that waits for a process of its executable to be armed in.
#[derive(Clone, Copy, Debug, PartialEq, Eq, Structural)]
pub struct UprobesInner {
    pub addr: usize,
    pub handler: usize,
    pub post_handler: Option<usize>,
    pub probe_type: ProbeType,
    /// The instruction decoder's verdict given at registration; activation
    /// takes a fresh verdict from the process being activated.
    pub insn_legal: bool,
}

impl UprobesInner {
    pub fn new(
        addr: usize,
        handler: usize,
        post_handler: Option<usize>,
        probe_type: ProbeType,
        insn_legal: bool,
    ) -> (r: Self)
        ensures
            r == (UprobesInner { addr, handler, post_handler, probe_type, insn_legal }),
    {
        UprobesInner { addr, handler, post_handler, probe_type, insn_legal }
    }
}

/// The mathematical content of the probes of one executable.
pub struct UprobesView {
    pub path: Seq<char>,
    /// Probes not armed yet, by address.
    pub pending: Map<usize, UprobesInner>,
    /// The armed probes and the in-flight table.
    pub points: RegistryView,
}

/// The probes of one executable.
pub struct Uprobes {
    pub path: String,
    pub pending: BTreeMap<usize, UprobesInner>,
    pub points: Kprobes,
}

impl View for Uprobes {
    type V = UprobesView;

    open spec fn view(&self) -> UprobesView {
        UprobesView { path: self.path@, pending: self.pending@, points: self.points@ }
    }
}

/// The outcome of arming the pending probe `u` in `mem`, with the armed
/// probes `s` and the free area starting at `free`.
pub open spec fn arm_ok(s: RegistryView, mem: Map<usize, u8>, free: usize, free_end: usize, u: UprobesInner) -> bool {
    &&& saved_insn(s, mem, u.addr) is Some
    &&& build_spec(u.addr, saved_insn(s, mem, u.addr)->Some_0, u.probe_type, u.insn_legal, u.handler,
        u.post_handler, free, free_end) is Some
}

/// Arming the pending probe `u` of entry `e` in memory `m` whose free area is
/// `[free, free_end)`: the entry and the memory (with its new free start)
/// after it, unchanged where it cannot be armed.
pub open spec fn arm_step(e: UprobesView, m: Map<usize, u8>, free: usize, free_end: usize, u: UprobesInner) -> (UprobesView, Map<usize, u8>, usize) {
    if arm_ok(e.points, m, free, free_end, u) {
        let p = build_spec(u.addr, saved_insn(e.points, m, u.addr)->Some_0, u.probe_type,
            u.insn_legal, u.handler, u.post_handler, free, free_end)->Some_0;
        (
            UprobesView {
                pending: e.pending.remove(u.addr),
                points: RegistryView { probes: e.points.probes.insert(u.addr, p), current: e.points.current },
                ..e
            },
            armed_mem(m, p, u.addr),
            (free + slot_image(p).len()) as usize,
        )
    } else {
        (e, m, free)
    }
}

/// Arming, in the order of `keys`, those of them that are pending, with the
/// decoder's verdict taken afresh: an instruction probe's instruction is
/// legal where its address is among `legal`.
pub open spec fn activate_spec(
    e: UprobesView,
    m: Map<usize, u8>,
    free: usize,
    free_end: usize,
    keys: Seq<usize>,
    legal: Seq<usize>,
) -> (UprobesView, Map<usize, u8>, usize)
    decreases keys.len(),
{
    if keys.len() == 0 {
        (e, m, free)
    } else {
        let (e1, m1, f1) = activate_spec(e, m, free, free_end, keys.drop_last(), legal);
        let k = keys.last();
        if e1.pending.contains_key(k) {
            arm_step(e1, m1, f1, free_end, UprobesInner { insn_legal: legal.contains(k), ..e1.pending[k] })
        } else {
            (e1, m1, f1)
        }
    }
}

/// Whether `a` is among `v`.
pub fn contains_addr(v: &Vec<usize>, a: usize) -> (r: bool)
    ensures
        r == v@.contains(a),
{
    let mut i: usize = 0;
    while i < v.len()
        invariant
            i <= v@.len(),
            forall|j: int| 0 <= j < i ==> v@[j] != a,
        decreases v@.len() - i,
    {
        if v[i] == a {
            return true;
        }
        i = i + 1;
    }
    false
}

/// What activating a process of executable `e0.path` does to its entry: each
/// pending probe either stays pending or is armed with its callbacks and kind;
/// armed probes stay armed, and the in-flight table is kept.
pub open spec fn activated(e0: UprobesView, e1: UprobesView) -> bool {
    &&& e1.path == e0.path
    &&& e1.points.current == e0.points.current
    &&& forall|a: usize| #[trigger] e1.pending.contains_key(a) ==> e0.pending.contains_key(a)
        && e1.pending[a] == e0.pending[a]
    &&& forall|a: usize| #[trigger] e0.pending.contains_key(a) && !e1.pending.contains_key(a) ==> {
        &&& e1.points.probes.contains_key(a)
        &&& e1.points.probes[a].handler == e0.pending[a].handler
        &&& e1.points.probes[a].post_handler == e0.pending[a].post_handler
        &&& e1.points.probes[a].probe_type == e0.pending[a].probe_type
    }
    &&& forall|a: usize| #[trigger] e0.points.probes.contains_key(a) ==> e1.points.probes.contains_key(a)
}

impl Uprobes {
    pub open spec fn wf(&self) -> bool {
        &&& self.points.wf()
        &&& forall|a: usize| #[trigger] self.pending@.contains_key(a) ==> self.pending@[a].addr == a
    }

    /// No probes yet for the executable at `path`.
    pub fn new(path: String) -> (r: Self)
        ensures
            r.wf(),
            r@.path == path@,
            r@.pending == Map::<usize, UprobesInner>::empty(),
            r@.points.probes == Map::<usize, crate::probes::ProbeView>::empty(),
            r@.points.current == Map::<usize, crate::probes::ProbeView>::empty(),
    {
        Uprobes { path, pending: BTreeMap::new(), points: Kprobes::new() }
    }

    /// Records `u` to be armed when a process of this executable is current.
    /// A probe waiting at the same address is replaced.
    pub fn register_uprobe(&mut self, u: UprobesInner)
        requires
            old(self).wf(),
        ensures
            final(self).wf(),
            final(self)@ == (UprobesView { pending: old(self)@.pending.insert(u.addr, u), ..old(self)@ }),
    {
        self.pending.insert(u.addr, u);
    }

    /// Arms `u` now in `mem`, the address space of the current process, which
    /// runs this executable. Returns 0, or -1 with nothing changed.
    pub fn arm_now(&mut self, mem: &mut CodeMemory, u: UprobesInner) -> (r: isize)
        requires
            old(self).wf(),
            old(mem).wf(),
            targets_mapped(old(self)@.points, old(mem).mem()),
            slots_wf(old(self)@.points, old(mem).next_free),
        ensures
            final(self).wf(),
            final(mem).wf(),
            targets_mapped(final(self)@.points, final(mem).mem()),
            slots_wf(final(self)@.points, final(mem).next_free),
            final(mem).free_end == old(mem).free_end,
            final(self)@.path == old(self)@.path,
            final(self)@.points.current == old(self)@.points.current,
            r == 0 <==> arm_ok(old(self)@.points, old(mem).mem(), old(mem).next_free, old(mem).free_end, u),
            r == 0 ==> {
                let p = build_spec(u.addr, saved_insn(old(self)@.points, old(mem).mem(), u.addr)->Some_0,
                    u.probe_type, u.insn_legal, u.handler, u.post_handler, old(mem).next_free,
                    old(mem).free_end)->Some_0;
                &&& final(self)@.points.probes == old(self)@.points.probes.insert(u.addr, p)
                &&& final(self)@.pending == old(self)@.pending.remove(u.addr)
                &&& final(mem).next_free == old(mem).next_free + slot_image(p).len()
                &&& final(mem).mem() == armed_mem(old(mem).mem(), p, u.addr)
            },
            r != 0 ==> r == -1 && final(self)@ == old(self)@ && *final(mem) == *old(mem),
    {
        let r = self.points.register_kprobe(mem, u.addr, u.handler, u.post_handler, u.probe_type, u.insn_legal);
        if r == 0 {
            self.pending.remove(&u.addr);
        }
        r
    }

    /// Arms every pending probe in `mem`, the address space of a process of
    /// this executable that has just become current; `legal` holds the
    /// addresses whose instruction the decoder accepts there. A probe that
    /// cannot be armed stays pending; each other one moves to the armed probes.
    pub fn add_uprobepoint(&mut self, mem: &mut CodeMemory, legal: &Vec<usize>)
        requires
            old(self).wf(),
            old(mem).wf(),
            targets_mapped(old(self)@.points, old(mem).mem()),
            slots_wf(old(self)@.points, old(mem).next_free),
        ensures
            final(self).wf(),
            final(mem).wf(),
            targets_mapped(final(self)@.points, final(mem).mem()),
            slots_wf(final(self)@.points, final(mem).next_free),
            final(mem).free_end == old(mem).free_end,
            activated(old(self)@, final(self)@),
            exists|keys: Seq<usize>| {
                &&& keys.to_set() == old(self)@.pending.dom()
                &&& keys.no_duplicates()
                &&& #[trigger] activate_spec(old(self)@, old(mem).mem(), old(mem).next_free, old(mem).free_end, keys, legal@)
                    == (final(self)@, final(mem).mem(), final(mem).next_free)
            },
    {
        let mut todo: Vec<usize> = Vec::new();
        let ghost old_pending = self.pending@;
        let ks = self.pending.keys();
        let ghost all = IteratorSpec::remaining(&ks);
        proof {
            assert(all.unref().to_set() == old_pending.dom());
        }
        for k in it: ks
            invariant
                it.seq() == all,
                todo@ == it.seq().take(it.index() as int).map_values(|r: &usize| *r),
        {
            todo.push(*k);
            assert(todo@ =~= it.seq().take(it.index() as int + 1).map_values(|r: &usize| *r));
        }
        assert(todo@ =~= all.map_values(|r: &usize| *r));
        assert(todo@ =~= all.unref());
        proof {
            assert(all.no_duplicates());
            assert forall|x: int, y: int| 0 <= x < todo@.len() && 0 <= y < todo@.len() && x != y implies todo@[x]
                != todo@[y] by {
                assert(all[x] != all[y]);
            }
        }
        assert(todo@.to_set() =~= old_pending.dom());
        let mut i: usize = 0;
        while i < todo.len()
            invariant
                0 <= i <= todo@.len(),
                self.wf(),
                mem.wf(),
                targets_mapped(self@.points, mem.mem()),
                slots_wf(self@.points, mem.next_free),
                mem.free_end == old(mem).free_end,
                self@.path == old(self)@.path,
                self@.points.current == old(self)@.points.current,
                forall|a: usize| #[trigger] self@.pending.contains_key(a) ==> old_pending.contains_key(a)
                    && self@.pending[a] == old_pending[a],
                forall|a: usize| #[trigger] old_pending.contains_key(a) && !self@.pending.contains_key(a) ==> {
                    &&& self@.points.probes.contains_key(a)
                    &&& self@.points.probes[a].handler == old_pending[a].handler
                    &&& self@.points.probes[a].post_handler == old_pending[a].post_handler
                    &&& self@.points.probes[a].probe_type == old_pending[a].probe_type
                },
                forall|a: usize| #[trigger] old(self)@.points.probes.contains_key(a) ==> self@.points.probes.contains_key(a),
                old_pending == old(self)@.pending,
                activate_spec(old(self)@, old(mem).mem(), old(mem).next_free, old(mem).free_end, todo@.take(i as int), legal@)
                    == (self@, mem.mem(), mem.next_free),
                todo@.to_set() == old_pending.dom(),
                todo@.no_duplicates(),
            decreases todo@.len() - i,
        {
            let k = todo[i];
            proof {
                assert(todo@.take(i as int + 1).drop_last() =~= todo@.take(i as int));
            }
            match self.pending.get(&k) {
                Some(u) => {
                    let mut u = *u;
                    u.insn_legal = contains_addr(legal, k);
                    let _ = self.arm_now(mem, u);
                },
                None => {},
            }
            i = i + 1;
        }
        assert(todo@.take(todo@.len() as int) =~= todo@);
    }
}

/// The index of the first entry for `p` from `k` on, or -1.
pub open spec fn find_from(v: Seq<UprobesView>, p: Seq<char>, k: int) -> int
    decreases v.len() - k,
{
    if k < 0 || k >= v.len() {
        -1
    } else if v[k].path == p {
        k
    } else {
        find_from(v, p, k + 1)
    }
}

/// The index of the entry for executable `p`, or -1.
pub open spec fn find_path(v: Seq<UprobesView>, p: Seq<char>) -> int {
    find_from(v, p, 0)
}

proof fn lemma_find_from_range(v: Seq<UprobesView>, p: Seq<char>, k: int)
    requires
        0 <= k,
    ensures
        find_from(v, p, k) == -1 || (k <= find_from(v, p, k) < v.len() && v[find_from(v, p, k)].path == p),
    decreases v.len() - k,
{
    if k < v.len() && v[k].path != p {
        lemma_find_from_range(v, p, k + 1);
    }
}

/// An executable's entry before any probe: empty tables.
pub open spec fn fresh_entry(p: Seq<char>) -> UprobesView {
    UprobesView {
        path: p,
        pending: Map::empty(),
        points: RegistryView { probes: Map::empty(), current: Map::empty() },
    }
}

/// The entry of executable `p`, or an empty one.
pub open spec fn entry_of(v: Seq<UprobesView>, p: Seq<char>) -> UprobesView {
    if find_path(v, p) >= 0 { v[find_path(v, p)] } else { fresh_entry(p) }
}

/// `v` with the entry of executable `p` set to `e`, added at the end if
/// `p` had none.
pub open spec fn with_entry(v: Seq<UprobesView>, p: Seq<char>, e: UprobesView) -> Seq<UprobesView> {
    if find_path(v, p) >= 0 { v.update(find_path(v, p), e) } else { v.push(e) }
}

proof fn lemma_find_update(v: Seq<UprobesView>, i: int, e: UprobesView, q: Seq<char>, k: int)
    requires
        0 <= i < v.len(),
        e.path == v[i].path,
        0 <= k,
    ensures
        find_from(v.update(i, e), q, k) == find_from(v, q, k),
    decreases v.len() - k,
{
    if k < v.len() {
        lemma_find_update(v, i, e, q, k + 1);
    }
}

proof fn lemma_find_push(v: Seq<UprobesView>, e: UprobesView, q: Seq<char>, k: int)
    requires
        0 <= k <= v.len(),
    ensures
        find_from(v.push(e), q, k) == if find_from(v, q, k) >= 0 {
            find_from(v, q, k)
        } else if e.path == q {
            v.len() as int
        } else {
            -1
        },
    decreases v.len() - k,
{
    if k < v.len() {
        lemma_find_push(v, e, q, k + 1);
        assert(v.push(e)[k] == v[k]);
    } else {
        assert(find_from(v.push(e), q, k + 1) == -1);
        assert(v.push(e)[k] == e);
    }
}

/// Setting the entry of `p` changes the entry of `p` alone.
pub proof fn lemma_entry_of_with_entry(v: Seq<UprobesView>, p: Seq<char>, e: UprobesView, q: Seq<char>)
    requires
        e.path == p,
    ensures
        entry_of(with_entry(v, p, e), q) == if q == p { e } else { entry_of(v, q) },
{
    lemma_find_from_range(v, p, 0);
    lemma_find_from_range(v, q, 0);
    if find_path(v, p) >= 0 {
        lemma_find_update(v, find_path(v, p), e, q, 0);
        if q == p {
            assert(find_path(with_entry(v, p, e), q) == find_path(v, p));
        }
    } else {
        lemma_find_push(v, e, q, 0);
    }
}

/// The tables of all executables, and the result, after a registration at
/// `u.addr` for executable `path` while a process of `current` runs with
/// address space `mem` (free area `[free, free_end)`).
pub open spec fn register_uprobes_spec(
    v: Seq<UprobesView>,
    current: Seq<char>,
    mem: Map<usize, u8>,
    free: usize,
    free_end: usize,
    path: Seq<char>,
    u: UprobesInner,
) -> (Seq<UprobesView>, isize) {
    let e = entry_of(v, path);
    if u.probe_type == ProbeType::AsyncFunc {
        (v, -1isize)
    } else if path != current {
        (with_entry(v, path, UprobesView { pending: e.pending.insert(u.addr, u), ..e }), 0isize)
    } else if arm_ok(e.points, mem, free, free_end, u) {
        let p = build_spec(u.addr, saved_insn(e.points, mem, u.addr)->Some_0, u.probe_type,
            u.insn_legal, u.handler, u.post_handler, free, free_end)->Some_0;
        (
            with_entry(v, path, UprobesView {
                pending: e.pending.remove(u.addr),
                points: RegistryView { probes: e.points.probes.insert(u.addr, p), current: e.points.current },
                ..e
            }),
            0isize,
        )
    } else {
        (v, -1isize)
    }
}

/// The tables of all executables after the probe of executable `path` at
/// `addr`, pending or armed, is removed.
pub open spec fn unregister_uprobe_spec(v: Seq<UprobesView>, path: Seq<char>, addr: usize) -> Seq<UprobesView> {
    let e = entry_of(v, path);
    if find_path(v, path) >= 0 {
        with_entry(v, path, UprobesView {
            pending: e.pending.remove(addr),
            points: unregistered(e.points, addr),
            ..e
        })
    } else {
        v
    }
}

/// No two entries are for one executable.
pub open spec fn paths_unique(v: Seq<UprobesView>) -> bool {
    forall|i: int, j: int| 0 <= i < j < v.len() ==> #[trigger] v[i].path != #[trigger] v[j].path
}

proof fn lemma_find_none(v: Seq<UprobesView>, p: Seq<char>, k: int)
    requires
        0 <= k,
        find_from(v, p, k) == -1,
    ensures
        forall|j: int| k <= j < v.len() ==> #[trigger] v[j].path != p,
    decreases v.len() - k,
{
    if k < v.len() {
        lemma_find_none(v, p, k + 1);
    }
}

/// Setting an entry to one for the same executable, or adding one for an
/// executable without an entry, keeps the executables apart.
proof fn lemma_with_entry_unique(v: Seq<UprobesView>, p: Seq<char>, e: UprobesView)
    requires
        paths_unique(v),
        e.path == p,
    ensures
        paths_unique(with_entry(v, p, e)),
{
    lemma_find_from_range(v, p, 0);
    let w = with_entry(v, p, e);
    if find_path(v, p) >= 0 {
        assert forall|i: int, j: int| 0 <= i < j < w.len() implies #[trigger] w[i].path != #[trigger] w[j].path by {
            assert(w[i].path == v[i].path && w[j].path == v[j].path);
        }
    } else {
        lemma_find_none(v, p, 0);
        assert forall|i: int, j: int| 0 <= i < j < w.len() implies #[trigger] w[i].path != #[trigger] w[j].path by {
            if j == v.len() {
                assert(w[i].path == v[i].path);
            } else {
                assert(w[i].path == v[i].path && w[j].path == v[j].path);
            }
        }
    }
}

/// The user probes of all executables, each with its tables.
pub struct CurrentProcessUprobes {
    pub inner: Vec<Uprobes>,
}

impl View for CurrentProcessUprobes {
    type V = Seq<UprobesView>;

    open spec fn view(&self) -> Seq<UprobesView> {
        self.inner@.map_values(|u: Uprobes| u@)
    }
}

impl CurrentProcessUprobes {
    pub open spec fn wf(&self) -> bool {
        &&& forall|i: int| 0 <= i < self.inner@.len() ==> #[trigger] self.inner@[i].wf()
        &&& paths_unique(self@)
    }

    /// The armed probes of executable `p` are mapped in `mem`, and awaited
    /// below `free`, in the part of its free area already handed out.
    pub open spec fn mapped_in(&self, p: Seq<char>, mem: Map<usize, u8>, free: usize) -> bool {
        &&& targets_mapped(entry_of(self@, p).points, mem)
        &&& slots_wf(entry_of(self@, p).points, free)
    }

    pub fn new() -> (r: Self)
        ensures
            r.wf(),
            r@ == Seq::<UprobesView>::empty(),
    {
        let r = CurrentProcessUprobes { inner: Vec::new() };
        assert(r@ =~= Seq::<UprobesView>::empty());
        r
    }

    /// The index of the entry for `path`, or `None`.
    fn find(&self, path: &String) -> (r: Option<usize>)
        ensures
            match r {
                Some(i) => find_path(self@, path@) == i as int,
                None => find_path(self@, path@) == -1,
            },
    {
        let mut j: usize = 0;
        while j < self.inner.len()
            invariant
                j <= self.inner@.len(),
                find_path(self@, path@) == find_from(self@, path@, j as int),
            decreases self.inner@.len() - j,
        {
            if self.inner[j].path == *path {
                assert(self@[j as int].path == path@);
                return Some(j);
            }
            j = j + 1;
        }
        None
    }

    /// Registers a probe at `addr` in the code of executable `path`. While
    /// the current process runs `current` = `path`, the probe is armed at once
    /// in `mem`, its address space (returns 0, or -1 with nothing changed);
    /// otherwise it waits for `uprobes_init` (returns 0, `mem` unchanged). An
    /// asynchronous-function probe is refused (-1, nothing changed).
    pub fn register_uprobes(
        &mut self,
        current: &String,
        mem: &mut CodeMemory,
        path: String,
        addr: usize,
        handler: usize,
        post_handler: Option<usize>,
        probe_type: ProbeType,
        insn_legal: bool,
    ) -> (r: isize)
        requires
            old(self).wf(),
            old(mem).wf(),
            old(self).mapped_in(current@, old(mem).mem(), old(mem).next_free),
        ensures
            final(self).wf(),
            final(mem).wf(),
            final(self).mapped_in(current@, final(mem).mem(), final(mem).next_free),
            final(mem).free_end == old(mem).free_end,
            r == 0 || r == -1,
            ({
                let u = UprobesInner { addr, handler, post_handler, probe_type, insn_legal };
                let (v, res) = register_uprobes_spec(old(self)@, current@, old(mem).mem(),
                    old(mem).next_free, old(mem).free_end, path@, u);
                &&& r == res
                &&& final(self)@ == v
                &&& (r == -1 || path@ != current@ ==> *final(mem) == *old(mem))
                &&& (r == 0 && path@ == current@ ==> final(mem).next_free == old(mem).next_free
                    + slot_image(entry_of(final(self)@, path@).points.probes[addr]).len())
                &&& (r == 0 && path@ == current@ ==> final(mem).mem() == armed_mem(old(mem).mem(),
                    entry_of(final(self)@, path@).points.probes[addr], addr))
            }),
    {
        if probe_type == ProbeType::AsyncFunc {
            return -1;
        }
        let u = UprobesInner::new(addr, handler, post_handler, probe_type, insn_legal);
        let ghost v0 = self@;
        let (i, added) = match self.find(&path) {
            Some(i) => (i, false),
            None => {
                let e = Uprobes::new(path.clone());
                self.inner.push(e);
                (self.inner.len() - 1, true)
            },
        };
        proof {
            lemma_find_from_range(v0, path@, 0);
            if added {
                assert(self@ =~= v0.push(fresh_entry(path@)));
            }
            assert(self@[i as int] == entry_of(v0, path@));
            assert(self.inner@[i as int].wf());
        }
        let mut e = self.inner.remove(i);
        let r = if path == *current {
            let r = e.arm_now(mem, u);
            if r != 0 && added {
                assert(self@ =~= v0);
                return -1;
            }
            r
        } else {
            e.register_uprobe(u);
            0
        };
        self.inner.insert(i, e);
        proof {
            if added {
                assert(self@ =~= v0.push(e@));
            } else {
                assert(self@ =~= v0.update(i as int, e@));
            }
            lemma_entry_of_with_entry(v0, path@, e@, current@);
            lemma_with_entry_unique(v0, path@, e@);
            assert(self@ == with_entry(v0, path@, e@));
            assert forall|j: int| 0 <= j < self.inner@.len() implies #[trigger] self.inner@[j].wf() by {
                if j != i {
                    assert(old(self).inner@[j].wf());
                }
            }
        }
        r
    }
    /// Arms the probes waiting for executable `current`, now that a process
    /// running it, with address space `mem`, has become current; `legal`
    /// holds the addresses whose instruction the decoder accepts there.
    pub fn uprobes_init(&mut self, current: &String, mem: &mut CodeMemory, legal: &Vec<usize>)
        requires
            old(self).wf(),
            old(mem).wf(),
            old(self).mapped_in(current@, old(mem).mem(), old(mem).next_free),
        ensures
            final(self).wf(),
            final(mem).wf(),
            final(self).mapped_in(current@, final(mem).mem(), final(mem).next_free),
            final(mem).free_end == old(mem).free_end,
            find_path(old(self)@, current@) == -1 ==> final(self)@ == old(self)@ && *final(mem) == *old(mem),
            find_path(old(self)@, current@) >= 0 ==> exists|keys: Seq<usize>| {
                &&& keys.to_set() == entry_of(old(self)@, current@).pending.dom()
                &&& keys.no_duplicates()
                &&& final(self)@ == with_entry(old(self)@, current@,
                    (#[trigger] activate_spec(entry_of(old(self)@, current@), old(mem).mem(), old(mem).next_free,
                    old(mem).free_end, keys, legal@)).0)
                &&& final(mem).mem() == activate_spec(entry_of(old(self)@, current@), old(mem).mem(),
                    old(mem).next_free, old(mem).free_end, keys, legal@).1
                &&& final(mem).next_free == activate_spec(entry_of(old(self)@, current@), old(mem).mem(),
                    old(mem).next_free, old(mem).free_end, keys, legal@).2
            },
    {
        let ghost v0 = self@;
        match self.find(current) {
            Some(i) => {
                proof {
                    lemma_find_from_range(v0, current@, 0);
                    assert(self.inner@[i as int].wf());
                }
                let mut e = self.inner.remove(i);
                let ghost e0 = e@;
                let ghost m0 = *mem;
                e.add_uprobepoint(mem, legal);
                self.inner.insert(i, e);
                proof {
                    assert(self@ =~= v0.update(i as int, e@));
                    assert(e0 == entry_of(v0, current@));
                    let keys = choose|keys: Seq<usize>| {
                        &&& keys.to_set() == e0.pending.dom()
                        &&& keys.no_duplicates()
                        &&& #[trigger] activate_spec(e0, m0.mem(), m0.next_free, m0.free_end, keys, legal@)
                            == (e@, mem.mem(), mem.next_free)
                    };
                    assert(activate_spec(entry_of(v0, current@), m0.mem(), m0.next_free, m0.free_end, keys, legal@)
                        == (e@, mem.mem(), mem.next_free));
                    lemma_entry_of_with_entry(v0, current@, e@, current@);
                    assert forall|j: int| 0 <= j < self.inner@.len() implies #[trigger] self.inner@[j].wf() by {
                        if j != i {
                            assert(old(self).inner@[j].wf());
                        }
                    }
                }
            },
            None => {},
        }
    }

    /// Removes the probe of executable `path` at `addr`, pending or armed; an
    /// armed one has its saved instruction written back into `mem`, the
    /// address space of `path`. Returns 0, or -1 with nothing changed where
    /// `path` has no probe at `addr`.
    pub fn unregister_uprobe(&mut self, mem: &mut CodeMemory, path: &String, addr: usize) -> (r: isize)
        requires
            old(self).wf(),
            old(mem).wf(),
            old(self).mapped_in(path@, old(mem).mem(), old(mem).next_free),
        ensures
            final(self).wf(),
            final(mem).wf(),
            final(self).mapped_in(path@, final(mem).mem(), final(mem).next_free),
            final(mem).next_free == old(mem).next_free,
            final(mem).free_end == old(mem).free_end,
            ({
                let e = entry_of(old(self)@, path@);
                &&& (r == 0 <==> find_path(old(self)@, path@) >= 0 && (e.pending.contains_key(addr)
                    || e.points.probes.contains_key(addr)))
                &&& (r == 0 ==> final(self)@ == unregister_uprobe_spec(old(self)@, path@, addr))
                &&& (r == 0 && e.points.probes.contains_key(addr) ==> final(mem).mem() == stored(
                    old(mem).mem(), addr as int, original_insn(e.points.probes[addr])))
                &&& (r != 0 || !e.points.probes.contains_key(addr) ==> *final(mem) == *old(mem))
                &&& (r != 0 ==> r == -1 && final(self)@ == old(self)@)
            }),
    {
        let ghost v0 = self@;
        let i = match self.find(path) {
            Some(i) => i,
            None => {
                return -1;
            },
        };
        proof {
            lemma_find_from_range(v0, path@, 0);
            assert(self.inner@[i as int].wf());
        }
        if !self.inner[i].pending.contains_key(&addr) && !self.inner[i].points.inner.contains_key(&addr) {
            proof {
                assert(!v0[i as int].points.probes.contains_key(addr));
            }
            return -1;
        }
        let mut e = self.inner.remove(i);
        let ghost e0 = e@;
        let ghost p0 = e.pending@;
        e.pending.remove(&addr);
        let rk = e.points.unregister_kprobe(mem, addr);
        self.inner.insert(i, e);
        proof {
            if rk != 0 {
                assert(e0.points.probes.remove(addr) =~= e0.points.probes);
            }
            assert(e@.pending =~= e0.pending.remove(addr));
            assert(e@.points == crate::kprobes::unregistered(e0.points, addr));
            assert(e@ == UprobesView { pending: e0.pending.remove(addr), points: crate::kprobes::unregistered(e0.points, addr), ..e0 });
            assert(self@ =~= v0.update(i as int, e@));
            assert(e0 == entry_of(v0, path@));
            lemma_entry_of_with_entry(v0, path@, e@, path@);
            assert forall|j: int| 0 <= j < self.inner@.len() implies #[trigger] self.inner@[j].wf() by {
                if j != i {
                    assert(old(self).inner@[j].wf());
                }
            }
        }
        0
    }

    /// The callback due on a user-mode breakpoint trap at `pc` in a process of
    /// executable `current` (see `due_spec`); none where it has no probes.
    pub fn uprobes_due_callback(&self, current: &String, pc: usize) -> (r: Option<usize>)
        requires
            self.wf(),
        ensures
            find_path(self@, current@) == -1 ==> r is None,
            find_path(self@, current@) >= 0 ==> r == due_spec(entry_of(self@, current@).points, pc),
    {
        match self.find(current) {
            Some(i) => {
                proof {
                    lemma_find_from_range(self@, current@, 0);
                    assert(self.inner@[i as int].wf());
                }
                self.inner[i].points.due_callback(pc)
            },
            None => None,
        }
    }

    /// Completes a user-mode breakpoint trap at `pc` in a process of
    /// executable `current`, once its due callback has run: `cx` is the frame
    /// as the callback left it (see `trap_spec`). Where the executable has no
    /// probes, nothing changes.
    pub fn complete_user_trap(&mut self, current: &String, pc: usize, cx: &mut TrapFrame) -> (r: TrapEvent)
        requires
            old(self).wf(),
        ensures
            final(self).wf(),
            forall|m: Map<usize, u8>, free: usize| #[trigger] old(self).mapped_in(current@, m, free)
                ==> final(self).mapped_in(current@, m, free),
            find_path(old(self)@, current@) == -1 ==> r == TrapEvent::NotProbed && final(self)@ == old(self)@
                && *final(cx) == *old(cx),
            find_path(old(self)@, current@) >= 0 ==> {
                let e = entry_of(old(self)@, current@);
                let t = trap_spec(e.points, pc, *old(cx));
                &&& t.1 == *final(cx)
                &&& t.2 == r
                &&& final(self)@ == with_entry(old(self)@, current@, UprobesView { points: t.0, ..e })
            },
    {
        let ghost v0 = self@;
        match self.find(current) {
            Some(i) => {
                proof {
                    lemma_find_from_range(v0, current@, 0);
                    assert(self.inner@[i as int].wf());
                }
                let mut e = self.inner.remove(i);
                let ghost e0 = e@;
                let r = e.points.complete_trap(pc, cx);
                self.inner.insert(i, e);
                proof {
                    assert(self@ =~= v0.update(i as int, e@));
                    assert(e@ == UprobesView { points: e@.points, ..e0 });
                    assert(e0 == entry_of(v0, current@));
                    lemma_entry_of_with_entry(v0, current@, e@, current@);
                    assert(entry_of(self@, current@) == e@) by {
                        assert(self@ == with_entry(v0, current@, e@));
                    }
                    assert forall|m: Map<usize, u8>, free: usize| #[trigger] old(self).mapped_in(current@, m, free)
                        implies self.mapped_in(current@, m, free) by {
                        assert(slots_wf(e0.points, free));
                    }
                    assert forall|j: int| 0 <= j < self.inner@.len() implies #[trigger] self.inner@[j].wf() by {
                        if j != i {
                            assert(old(self).inner@[j].wf());
                        }
                    }
                }
                r
            },
            None => TrapEvent::NotProbed,
        }
    }

    /// Handles a breakpoint trap taken in user mode by a process of executable
    /// `current`: runs the due callback (see `uprobes_due_callback`) once
    /// through `host`, and no other, then completes the trap (see
    /// `complete_user_trap`) on the frame the callback handed back.
    pub fn uprobes_trap_handler<H: ProbeHost>(
        &mut self,
        current: &String,
        cx: &mut TrapFrame,
        host: &mut Invoker<H>,
    ) -> (r: TrapEvent)
        requires
            old(self).wf(),
        ensures
            final(self).wf(),
            forall|m: Map<usize, u8>, free: usize| #[trigger] old(self).mapped_in(current@, m, free)
                ==> final(self).mapped_in(current@, m, free),
            find_path(old(self)@, current@) == -1 ==> r == TrapEvent::NotProbed && final(self)@ == old(self)@
                && *final(cx) == *old(cx) && final(host).calls() == old(host).calls(),
            find_path(old(self)@, current@) >= 0 ==> {
                let e = entry_of(old(self)@, current@);
                let mid = match due_spec(e.points, old(cx).sepc) {
                    Some(h) => final(host).calls().last().2,
                    None => *old(cx),
                };
                let t = trap_spec(e.points, old(cx).sepc, mid);
                &&& final(host).calls() == match due_spec(e.points, old(cx).sepc) {
                    Some(h) => old(host).calls().push((h, *old(cx), mid)),
                    None => old(host).calls(),
                }
                &&& t.1 == *final(cx)
                &&& t.2 == r
                &&& final(self)@ == with_entry(old(self)@, current@, UprobesView { points: t.0, ..e })
            },
    {
        let pc = cx.sepc;
        match self.uprobes_due_callback(current, pc) {
            Some(h) => host.call(h, cx),
            None => {},
        }
        self.complete_user_trap(current, pc, cx)
    }
}

} // verus!
