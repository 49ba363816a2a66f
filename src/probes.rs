//! Probe kinds and placements, the trap frame the engine reads and writes,
//! the capability through which callbacks are invoked, and the probe
//! descriptor shared by the kernel and user registries.
use vstd::prelude::*;
use crate::decode::{insn_len_spec, sp_delta_spec, get_sp};
use crate::memory::{CodeMemory, mapped, stored};

verus! {

/// What a probe instruments.
#[derive(Clone, Copy, Debug, PartialEq, Eq, Structural)]
pub enum ProbeType {
    /// A single instruction, re-executed out of line after the callback.
    Insn,
    /// The entry of a synchronous function, whose first instruction adjusts `sp`.
    SyncFunc,
    /// The entry of an asynchronous function: not supported.
    AsyncFunc,
}

/// Where a probe is placed: in kernel code, or in the code of user processes
/// that run a given executable.
#[derive(Clone, Copy, Debug, PartialEq, Eq, Structural)]
pub enum ProbePlace {
    Kernel(ProbeType),
    User(ProbeType),
}

/// The registers of a trapped hart that the engine reads and writes.
#[derive(Clone, Copy, Debug, PartialEq, Eq, Structural)]
pub struct TrapFrame {
    /// The faulting program counter, where execution resumes.
    pub sepc: usize,
    /// The stack pointer.
    pub sp: usize,
    /// The return address register.
    pub ra: usize,
}

/// Invokes the callback registered under `handler` with a trap frame. The
/// callback may change the frame.
pub trait ProbeHost {
    fn call(&mut self, handler: usize, frame: &mut TrapFrame);
}

/// The way the engine runs callbacks: a host, and the log of the calls made
/// through it, each with the handler and the frame before and after.
pub struct Invoker<H: ProbeHost> {
    pub host: H,
    log: Ghost<Seq<(usize, TrapFrame, TrapFrame)>>,
}

impl<H: ProbeHost> Invoker<H> {
    /// The calls made so far: handler, frame handed over, frame handed back.
    pub closed spec fn calls(&self) -> Seq<(usize, TrapFrame, TrapFrame)> {
        self.log@
    }

    /// An invoker over `host`, with no calls made yet.
    pub fn new(host: H) -> (r: Self)
        ensures
            r.calls() == Seq::<(usize, TrapFrame, TrapFrame)>::empty(),
    {
        Invoker { host, log: Ghost(Seq::empty()) }
    }

    /// Runs the callback registered under `handler` on `frame`, once.
    pub fn call(&mut self, handler: usize, frame: &mut TrapFrame)
        ensures
            final(self).calls() == old(self).calls().push((handler, *old(frame), *final(frame))),
    {
        let ghost before = *frame;
        self.host.call(handler, frame);
        proof {
            self.log = Ghost(self.log@.push((handler, before, *frame)));
        }
    }
}

/// What a trap did: ignored a breakpoint that is no probe's, entered the probe
/// at `addr` and ran its `handler`, completed the out-of-line step of the
/// instruction probe at `addr` and ran its `post` callback if any, or took the
/// return of a probed function through trampoline `tramp` and ran its
/// `post_handler`.
#[derive(Clone, Copy, Debug, PartialEq, Eq, Structural)]
pub enum TrapEvent {
    NotProbed,
    Entered { addr: usize, handler: usize },
    Stepped { addr: usize, post: Option<usize> },
    Returned { tramp: usize, post_handler: usize },
}

/// The low byte and the high byte of `c.ebreak`.
pub open spec fn ebreak_byte(i: int) -> u8 {
    if i % 2 == 0 { 0x02u8 } else { 0x90u8 }
}

/// `len` bytes of back-to-back `c.ebreak` instructions.
pub open spec fn ebreak_bytes(len: nat) -> Seq<u8> {
    Seq::new(len, |i: int| ebreak_byte(i))
}

/// `len` bytes of back-to-back `c.ebreak` instructions (a 4-byte instruction
/// is covered by two of them).
pub fn ebreak_pattern(len: usize) -> (r: Vec<u8>)
    ensures
        r@ == ebreak_bytes(len as nat),
{
    let mut v: Vec<u8> = Vec::new();
    let mut i: usize = 0;
    while i < len
        invariant
            i <= len,
            v@ == ebreak_bytes(i as nat),
        decreases len - i,
    {
        if i % 2 == 0 {
            v.push(0x02u8);
        } else {
            v.push(0x90u8);
        }
        i = i + 1;
        assert(v@ =~= ebreak_bytes(i as nat));
    }
    v
}

/// The mathematical content of a probe descriptor.
pub struct ProbeView {
    pub addr: usize,
    pub length: usize,
    pub slot: Seq<u8>,
    pub slot_addr: usize,
    pub addisp: isize,
    pub func_ra: Seq<usize>,
    pub func_ebreak_addr: usize,
    pub insn_ebreak_addr: usize,
    pub handler: usize,
    pub post_handler: Option<usize>,
    pub probe_type: ProbeType,
}

/// A probe descriptor.
pub struct KprobesInner {
    /// The probed address.
    pub addr: usize,
    /// The length of the probed instruction, 2 or 4.
    pub length: usize,
    /// The original instruction, followed for an instruction probe by the
    /// breakpoint that ends its out-of-line execution.
    pub slot: Vec<u8>,
    /// Where the out-of-line copy of `slot` lies (instruction probes).
    pub slot_addr: usize,
    /// The stack-pointer delta of the probed prologue (function probes).
    pub addisp: isize,
    /// Saved return addresses of invocations that have not returned yet.
    pub func_ra: Vec<usize>,
    /// The breakpoint that probed functions return to (function probes).
    pub func_ebreak_addr: usize,
    /// The breakpoint after the out-of-line copy (instruction probes).
    pub insn_ebreak_addr: usize,
    /// The callback run before the probed instruction or function.
    pub handler: usize,
    /// The callback run after it, if any.
    pub post_handler: Option<usize>,
    pub probe_type: ProbeType,
}

impl View for KprobesInner {
    type V = ProbeView;

    open spec fn view(&self) -> ProbeView {
        ProbeView {
            addr: self.addr,
            length: self.length,
            slot: self.slot@,
            slot_addr: self.slot_addr,
            addisp: self.addisp,
            func_ra: self.func_ra@,
            func_ebreak_addr: self.func_ebreak_addr,
            insn_ebreak_addr: self.insn_ebreak_addr,
            handler: self.handler,
            post_handler: self.post_handler,
            probe_type: self.probe_type,
        }
    }
}

/// A copy of a byte sequence.
pub fn copy_bytes(v: &Vec<u8>) -> (r: Vec<u8>)
    ensures
        r@ == v@,
{
    let mut r: Vec<u8> = Vec::new();
    let mut i: usize = 0;
    while i < v.len()
        invariant
            i <= v@.len(),
            r@ == v@.take(i as int),
        decreases v@.len() - i,
    {
        r.push(v[i]);
        i = i + 1;
        assert(r@ =~= v@.take(i as int));
    }
    assert(v@.take(v@.len() as int) =~= v@);
    r
}

/// A copy of an address sequence.
pub fn copy_addrs(v: &Vec<usize>) -> (r: Vec<usize>)
    ensures
        r@ == v@,
{
    let mut r: Vec<usize> = Vec::new();
    let mut i: usize = 0;
    while i < v.len()
        invariant
            i <= v@.len(),
            r@ == v@.take(i as int),
        decreases v@.len() - i,
    {
        r.push(v[i]);
        i = i + 1;
        assert(r@ =~= v@.take(i as int));
    }
    assert(v@.take(v@.len() as int) =~= v@);
    r
}

/// Well-formedness of one descriptor.
pub open spec fn probe_wf(p: ProbeView) -> bool {
    &&& (p.length == 2 || p.length == 4)
    &&& p.slot.len() >= p.length
    &&& insn_len_spec(p.slot[0]) == p.length
    &&& p.addr + p.length <= usize::MAX
    &&& p.probe_type != ProbeType::AsyncFunc
    &&& p.probe_type == ProbeType::Insn ==> p.insn_ebreak_addr == p.slot_addr + p.length
    &&& p.probe_type == ProbeType::SyncFunc ==> sp_delta_spec(p.slot.take(p.length as int)) == Some(p.addisp as int)
}

/// The saved copy of the probed instruction.
pub open spec fn original_insn(p: ProbeView) -> Seq<u8> {
    p.slot.take(p.length as int)
}

/// Where the bytes that a descriptor needs besides the probed address lie:
/// the out-of-line copy for an instruction probe, the return trampoline for a
/// function probe.
pub open spec fn slot_base(p: ProbeView) -> usize {
    if p.probe_type == ProbeType::Insn { p.slot_addr } else { p.func_ebreak_addr }
}

/// The bytes stored at `slot_base(p)`.
pub open spec fn slot_image(p: ProbeView) -> Seq<u8> {
    if p.probe_type == ProbeType::Insn { p.slot } else { ebreak_bytes(2) }
}

/// The descriptor built for the instruction `orig` at `addr`, when the free
/// area starts at `free` and ends at `free_end`; `None` where the kind is not
/// supported, the instruction does not suit it (`legal` is the decoder's
/// verdict on it for an instruction probe) or the free area is too small.
pub open spec fn build_spec(
    addr: usize,
    orig: Seq<u8>,
    kind: ProbeType,
    legal: bool,
    handler: usize,
    post: Option<usize>,
    free: usize,
    free_end: usize,
) -> Option<ProbeView> {
    let len = orig.len();
    match kind {
        ProbeType::Insn => if legal && free + len + 2 <= free_end {
            Some(
                ProbeView {
                    addr,
                    length: len as usize,
                    slot: orig + ebreak_bytes(2),
                    slot_addr: free,
                    addisp: 0,
                    func_ra: Seq::empty(),
                    func_ebreak_addr: 0,
                    insn_ebreak_addr: (free + len) as usize,
                    handler,
                    post_handler: post,
                    probe_type: ProbeType::Insn,
                },
            )
        } else {
            None
        },
        ProbeType::SyncFunc => match sp_delta_spec(orig) {
            Some(d) => if free + 2 <= free_end {
                Some(
                    ProbeView {
                        addr,
                        length: len as usize,
                        slot: orig,
                        slot_addr: 0,
                        addisp: d as isize,
                        func_ra: Seq::empty(),
                        func_ebreak_addr: free,
                        insn_ebreak_addr: 0,
                        handler,
                        post_handler: post,
                        probe_type: ProbeType::SyncFunc,
                    },
                )
            } else {
                None
            },
            None => None,
        },
        ProbeType::AsyncFunc => None,
    }
}

impl KprobesInner {
    /// Builds the descriptor of a probe on the instruction `insn` found at
    /// `addr`, and stores its out-of-line copy or its return trampoline in the
    /// free area of `mem`. `insn_legal` is the instruction decoder's verdict on
    /// `insn`, which an instruction probe needs. Returns `None`, with `mem`
    /// unchanged, where `build_spec` gives none.
    pub fn new(
        mem: &mut CodeMemory,
        addr: usize,
        insn: &Vec<u8>,
        handler: usize,
        post_handler: Option<usize>,
        probe_type: ProbeType,
        insn_legal: bool,
    ) -> (r: Option<Self>)
        requires
            old(mem).wf(),
            insn@.len() == 2 || insn@.len() == 4,
            insn@.len() == insn_len_spec(insn@[0]),
            addr + insn@.len() <= usize::MAX,
        ensures
            final(mem).wf(),
            final(mem).free_end == old(mem).free_end,
            match r {
                Some(p) => {
                    &&& build_spec(addr, insn@, probe_type, insn_legal, handler, post_handler,
                        old(mem).next_free, old(mem).free_end) == Some(p@)
                    &&& probe_wf(p@)
                    &&& original_insn(p@) == insn@
                    &&& final(mem).next_free == old(mem).next_free + slot_image(p@).len()
                    &&& final(mem).mem() == stored(old(mem).mem(), slot_base(p@) as int, slot_image(p@))
                },
                None => {
                    &&& build_spec(addr, insn@, probe_type, insn_legal, handler, post_handler,
                        old(mem).next_free, old(mem).free_end) is None
                    &&& *final(mem) == *old(mem)
                },
            },
    {
        let length = insn.len();
        match probe_type {
            ProbeType::Insn => {
                if !insn_legal || mem.free_end - mem.next_free < length + 2 {
                    return None;
                }
                let slot_addr = match mem.take_free(length + 2) {
                    Some(a) => a,
                    None => {
                        return None;
                    },
                };
                let mut slot = copy_bytes(insn);
                slot.push(0x02u8);
                slot.push(0x90u8);
                assert(slot@ =~= insn@ + ebreak_bytes(2));
                mem.write(slot_addr, slot.as_slice());
                assert(mem.mem() =~= stored(old(mem).mem(), slot_addr as int, slot@));
                let p = KprobesInner {
                    addr,
                    length,
                    slot,
                    slot_addr,
                    addisp: 0,
                    func_ra: Vec::new(),
                    func_ebreak_addr: 0,
                    insn_ebreak_addr: slot_addr + length,
                    handler,
                    post_handler,
                    probe_type,
                };
                assert(original_insn(p@) =~= insn@);
                Some(p)
            },
            ProbeType::SyncFunc => {
                let addisp = match get_sp(insn.as_slice()) {
                    Some(d) => d,
                    None => {
                        return None;
                    },
                };
                if mem.free_end - mem.next_free < 2 {
                    return None;
                }
                let tramp = match mem.take_free(2) {
                    Some(a) => a,
                    None => {
                        return None;
                    },
                };
                let eb = ebreak_pattern(2);
                mem.write(tramp, eb.as_slice());
                assert(mem.mem() =~= stored(old(mem).mem(), tramp as int, eb@));
                let p = KprobesInner {
                    addr,
                    length,
                    slot: copy_bytes(insn),
                    slot_addr: 0,
                    addisp,
                    func_ra: Vec::new(),
                    func_ebreak_addr: tramp,
                    insn_ebreak_addr: 0,
                    handler,
                    post_handler,
                    probe_type,
                };
                assert(original_insn(p@) =~= insn@);
                Some(p)
            },
            ProbeType::AsyncFunc => None,
        }
    }

    /// Overwrites the probed instruction with breakpoints.
    pub fn arm(&self, mem: &mut CodeMemory)
        requires
            old(mem).wf(),
            mapped(old(mem).mem(), self.addr as int, self.length as int),
        ensures
            final(mem).wf(),
            final(mem).mem() == stored(old(mem).mem(), self.addr as int, ebreak_bytes(self.length as nat)),
            final(mem).next_free == old(mem).next_free,
            final(mem).free_end == old(mem).free_end,
    {
        let eb = ebreak_pattern(self.length);
        mem.write(self.addr, eb.as_slice());
    }

    /// Writes the saved instruction back at the probed address.
    pub fn disarm(&self, mem: &mut CodeMemory)
        requires
            old(mem).wf(),
            probe_wf(self@),
            mapped(old(mem).mem(), self.addr as int, self.length as int),
        ensures
            final(mem).wf(),
            final(mem).mem() == stored(old(mem).mem(), self.addr as int, original_insn(self@)),
            final(mem).next_free == old(mem).next_free,
            final(mem).free_end == old(mem).free_end,
    {
        let mut orig: Vec<u8> = Vec::new();
        let mut i: usize = 0;
        while i < self.length
            invariant
                i <= self.length,
                self.length <= self.slot@.len(),
                orig@ == self.slot@.take(i as int),
            decreases self.length - i,
        {
            orig.push(self.slot[i]);
            i = i + 1;
            assert(orig@ =~= self.slot@.take(i as int));
        }
        mem.write(self.addr, orig.as_slice());
    }

    /// A copy of the descriptor.
    pub fn duplicate(&self) -> (r: Self)
        ensures
            r@ == self@,
    {
        KprobesInner {
            addr: self.addr,
            length: self.length,
            slot: copy_bytes(&self.slot),
            slot_addr: self.slot_addr,
            addisp: self.addisp,
            func_ra: copy_addrs(&self.func_ra),
            func_ebreak_addr: self.func_ebreak_addr,
            insn_ebreak_addr: self.insn_ebreak_addr,
            handler: self.handler,
            post_handler: self.post_handler,
            probe_type: self.probe_type,
        }
    }
}

} // verus!
