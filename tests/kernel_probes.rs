use probekit::kprobes::Kprobes;
use probekit::memory::CodeMemory;
use probekit::probes::{Invoker, ProbeHost, ProbeType, TrapEvent, TrapFrame};

const FREE_START: usize = 0x10000;
const FREE_END: usize = 0x20000;

struct Recorder {
    calls: Vec<(usize, usize)>,
}

impl ProbeHost for Recorder {
    fn call(&mut self, handler: usize, frame: &mut TrapFrame) {
        self.calls.push((handler, frame.sepc));
    }
}

fn bytes(mem: &CodeMemory, addr: usize, len: usize) -> Vec<u8> {
    mem.read(addr, len).unwrap()
}

fn setup(addr: usize, code: &[u8]) -> (Kprobes, CodeMemory) {
    let mut mem = CodeMemory::new(FREE_START, FREE_END);
    mem.load(addr, code);
    (Kprobes::new(), mem)
}

const NOP_THEN_ADD: [u8; 8] = [0x13, 0x00, 0x00, 0x00, 0x33, 0x05, 0xb5, 0x00];
const PROLOGUE: [u8; 8] = [0x13, 0x01, 0x01, 0xfe, 0x23, 0x3c, 0x11, 0x00];

#[test]
fn instruction_probe_fires_pre_and_post_once() {
    let (mut k, mut mem) = setup(0x1000, &NOP_THEN_ADD);
    assert_eq!(k.register_kprobe(&mut mem, 0x1000, 1, Some(2), ProbeType::Insn, true), 0);
    assert_eq!(bytes(&mem, 0x1000, 4), vec![0x02, 0x90, 0x02, 0x90]);
    let mut host = Invoker::new(Recorder { calls: Vec::new() });
    let mut cx = TrapFrame { sepc: 0x1000, sp: 0x8000, ra: 0x3000 };
    let ev = k.kprobes_trap_handler(&mut cx, &mut host);
    assert_eq!(ev, TrapEvent::Entered { addr: 0x1000, handler: 1 });
    // the out-of-line copy: the probed instruction and a breakpoint
    assert_eq!(cx.sepc, FREE_START);
    assert_eq!(bytes(&mem, cx.sepc, 6), vec![0x13, 0x00, 0x00, 0x00, 0x02, 0x90]);
    // the hart runs the copied no-op and reaches the breakpoint after it
    cx.sepc += 4;
    let ev = k.kprobes_trap_handler(&mut cx, &mut host);
    assert_eq!(ev, TrapEvent::Stepped { addr: 0x1000, post: Some(2) });
    assert_eq!(cx.sepc, 0x1004);
    assert_eq!(host.host.calls, vec![(1, 0x1000), (2, FREE_START + 4)]);
    assert!(k.current.is_empty());
}

#[test]
fn function_probe_recursion_balances() {
    let (mut k, mut mem) = setup(0x2000, &PROLOGUE);
    assert_eq!(k.register_kprobe(&mut mem, 0x2000, 1, Some(2), ProbeType::SyncFunc, false), 0);
    let tramp = k.inner.get(&0x2000).unwrap().func_ebreak_addr;
    assert_eq!(bytes(&mem, tramp, 2), vec![0x02, 0x90]);
    let mut host = Invoker::new(Recorder { calls: Vec::new() });
    // outer call
    let mut cx = TrapFrame { sepc: 0x2000, sp: 0x8000, ra: 0x3000 };
    k.kprobes_trap_handler(&mut cx, &mut host);
    assert_eq!(cx, TrapFrame { sepc: 0x2004, sp: 0x8000 - 32, ra: tramp });
    // the function calls itself
    let mut inner = TrapFrame { sepc: 0x2000, sp: cx.sp, ra: 0x2010 };
    k.kprobes_trap_handler(&mut inner, &mut host);
    assert_eq!(inner, TrapFrame { sepc: 0x2004, sp: 0x8000 - 64, ra: tramp });
    assert_eq!(k.current.get(&tramp).unwrap().func_ra, vec![0x3000, 0x2010]);
    // inner return
    let mut ret = TrapFrame { sepc: tramp, sp: 0x8000 - 32, ra: tramp };
    let ev = k.kprobes_trap_handler(&mut ret, &mut host);
    assert_eq!(ev, TrapEvent::Returned { tramp, post_handler: 2 });
    assert_eq!(ret.sepc, 0x2010);
    // outer return
    let mut ret2 = TrapFrame { sepc: tramp, sp: 0x8000, ra: tramp };
    k.kprobes_trap_handler(&mut ret2, &mut host);
    assert_eq!(ret2.sepc, 0x3000);
    let pre = host.host.calls.iter().filter(|c| c.0 == 1).count();
    let post = host.host.calls.iter().filter(|c| c.0 == 2).count();
    assert_eq!((pre, post), (2, 2));
    assert!(k.current.get(&tramp).is_none());
}

#[test]
fn stack_balance_at_every_point() {
    let (mut k, mut mem) = setup(0x2000, &PROLOGUE);
    assert_eq!(k.register_kprobe(&mut mem, 0x2000, 1, Some(2), ProbeType::SyncFunc, false), 0);
    let tramp = k.inner.get(&0x2000).unwrap().func_ebreak_addr;
    let mut host = Invoker::new(Recorder { calls: Vec::new() });
    let pcs = [0x2000, 0x2000, tramp, 0x2000, tramp, tramp];
    for pc in pcs {
        let mut cx = TrapFrame { sepc: pc, sp: 0x8000, ra: 0x3000 + pc };
        k.kprobes_trap_handler(&mut cx, &mut host);
        let pre = host.host.calls.iter().filter(|c| c.0 == 1).count();
        let post = host.host.calls.iter().filter(|c| c.0 == 2).count();
        let depth = k.current.get(&tramp).map(|c| c.func_ra.len()).unwrap_or(0);
        assert_eq!(pre, post + depth);
    }
}

#[test]
fn function_probe_without_post_does_not_hook_return() {
    let (mut k, mut mem) = setup(0x2000, &PROLOGUE);
    assert_eq!(k.register_kprobe(&mut mem, 0x2000, 1, None, ProbeType::SyncFunc, false), 0);
    let mut host = Invoker::new(Recorder { calls: Vec::new() });
    let mut cx = TrapFrame { sepc: 0x2000, sp: 0x8000, ra: 0x3000 };
    k.kprobes_trap_handler(&mut cx, &mut host);
    assert_eq!(cx, TrapFrame { sepc: 0x2004, sp: 0x8000 - 32, ra: 0x3000 });
    assert!(k.current.is_empty());
}

#[test]
fn replace_keeps_saved_instruction_and_fires_new_callback() {
    let (mut k, mut mem) = setup(0x1000, &NOP_THEN_ADD);
    assert_eq!(k.register_kprobe(&mut mem, 0x1000, 1, None, ProbeType::Insn, true), 0);
    assert_eq!(k.register_kprobe(&mut mem, 0x1000, 7, None, ProbeType::Insn, true), 0);
    assert_eq!(k.inner.len(), 1);
    let p = k.inner.get(&0x1000).unwrap();
    assert_eq!(p.slot[..p.length].to_vec(), NOP_THEN_ADD[..4].to_vec());
    let mut host = Invoker::new(Recorder { calls: Vec::new() });
    let mut cx = TrapFrame { sepc: 0x1000, sp: 0, ra: 0 };
    k.kprobes_trap_handler(&mut cx, &mut host);
    cx.sepc += 4;
    k.kprobes_trap_handler(&mut cx, &mut host);
    assert_eq!(host.host.calls, vec![(7, 0x1000)]);
    assert_eq!(k.unregister_kprobe(&mut mem, 0x1000), 0);
    assert_eq!(bytes(&mem, 0x1000, 8), NOP_THEN_ADD.to_vec());
}

#[test]
fn unsupported_async_function_refused() {
    let (mut k, mut mem) = setup(0x2000, &PROLOGUE);
    let next_free = mem.next_free;
    assert_eq!(k.register_kprobe(&mut mem, 0x2000, 1, Some(2), ProbeType::AsyncFunc, true), -1);
    assert_eq!(bytes(&mem, 0x2000, 8), PROLOGUE.to_vec());
    assert_eq!(mem.next_free, next_free);
    assert!(k.inner.is_empty());
}

#[test]
fn function_probe_on_non_prologue_refused() {
    let (mut k, mut mem) = setup(0x1000, &NOP_THEN_ADD);
    assert_eq!(k.register_kprobe(&mut mem, 0x1000, 1, Some(2), ProbeType::SyncFunc, true), -1);
    assert_eq!(bytes(&mem, 0x1000, 8), NOP_THEN_ADD.to_vec());
}

#[test]
fn illegal_instruction_probe_refused() {
    let (mut k, mut mem) = setup(0x1000, &NOP_THEN_ADD);
    assert_eq!(k.register_kprobe(&mut mem, 0x1000, 1, None, ProbeType::Insn, false), -1);
    assert_eq!(bytes(&mem, 0x1000, 8), NOP_THEN_ADD.to_vec());
}

#[test]
fn unmapped_target_refused() {
    let (mut k, mut mem) = setup(0x1000, &NOP_THEN_ADD);
    assert_eq!(k.register_kprobe(&mut mem, 0x5000, 1, None, ProbeType::Insn, true), -1);
    // the 2-byte instruction at 0x1007 runs past the mapping
    assert_eq!(k.register_kprobe(&mut mem, 0x1007, 1, None, ProbeType::Insn, true), -1);
    assert!(k.inner.is_empty());
}

#[test]
fn free_area_exhausted_refused() {
    let mut mem = CodeMemory::new(0x100, 0x104);
    mem.load(0x1000, &NOP_THEN_ADD);
    let mut k = Kprobes::new();
    assert_eq!(k.register_kprobe(&mut mem, 0x1000, 1, None, ProbeType::Insn, true), -1);
    assert_eq!(bytes(&mem, 0x1000, 4), NOP_THEN_ADD[..4].to_vec());
}

#[test]
fn register_unregister_round_trip() {
    let (mut k, mut mem) = setup(0x1000, &NOP_THEN_ADD);
    assert_eq!(k.register_kprobe(&mut mem, 0x1004, 1, None, ProbeType::Insn, true), 0);
    assert_ne!(bytes(&mem, 0x1004, 4), NOP_THEN_ADD[4..].to_vec());
    assert_eq!(k.unregister_kprobe(&mut mem, 0x1004), 0);
    assert_eq!(bytes(&mem, 0x1000, 8), NOP_THEN_ADD.to_vec());
}

#[test]
fn at_most_one_descriptor_per_address() {
    let (mut k, mut mem) = setup(0x1000, &NOP_THEN_ADD);
    k.register_kprobe(&mut mem, 0x1000, 1, None, ProbeType::Insn, true);
    k.register_kprobe(&mut mem, 0x1000, 2, None, ProbeType::Insn, true);
    k.unregister_kprobe(&mut mem, 0x1000);
    k.register_kprobe(&mut mem, 0x1000, 3, None, ProbeType::Insn, true);
    k.register_kprobe(&mut mem, 0x1004, 4, None, ProbeType::Insn, true);
    assert_eq!(k.inner.values().filter(|p| p.addr == 0x1000).count(), 1);
    assert_eq!(k.inner.get(&0x1000).unwrap().handler, 3);
}

#[test]
fn unregister_twice() {
    let (mut k, mut mem) = setup(0x1000, &NOP_THEN_ADD);
    assert_eq!(k.register_kprobe(&mut mem, 0x1000, 1, None, ProbeType::Insn, true), 0);
    assert_eq!(k.unregister_kprobe(&mut mem, 0x1000), 0);
    let after_first = bytes(&mem, 0x1000, 8);
    assert_eq!(k.unregister_kprobe(&mut mem, 0x1000), -1);
    assert_eq!(bytes(&mem, 0x1000, 8), after_first);
    assert_eq!(after_first, NOP_THEN_ADD.to_vec());
}

#[test]
fn trap_not_ours_leaves_frame() {
    let (mut k, mut mem) = setup(0x1000, &NOP_THEN_ADD);
    k.register_kprobe(&mut mem, 0x1000, 1, None, ProbeType::Insn, true);
    let mut host = Invoker::new(Recorder { calls: Vec::new() });
    let mut cx = TrapFrame { sepc: 0x1234, sp: 5, ra: 6 };
    assert_eq!(k.kprobes_trap_handler(&mut cx, &mut host), TrapEvent::NotProbed);
    assert_eq!(cx, TrapFrame { sepc: 0x1234, sp: 5, ra: 6 });
    assert!(host.host.calls.is_empty());
}

#[test]
fn compressed_instruction_probe() {
    // c.addi sp, -16 then c.nop
    let code = [0x41, 0x11, 0x01, 0x00];
    let (mut k, mut mem) = setup(0x1000, &code);
    assert_eq!(k.register_kprobe(&mut mem, 0x1000, 1, None, ProbeType::SyncFunc, false), 0);
    assert_eq!(bytes(&mem, 0x1000, 4), vec![0x02, 0x90, 0x01, 0x00]);
    let mut host = Invoker::new(Recorder { calls: Vec::new() });
    let mut cx = TrapFrame { sepc: 0x1000, sp: 0x100, ra: 0 };
    k.kprobes_trap_handler(&mut cx, &mut host);
    assert_eq!(cx, TrapFrame { sepc: 0x1002, sp: 0xf0, ra: 0 });
}

#[test]
fn due_callbacks_follow_the_tables() {
    let (mut k, mut mem) = setup(0x2000, &PROLOGUE);
    assert_eq!(k.register_kprobe(&mut mem, 0x2000, 1, Some(2), ProbeType::SyncFunc, false), 0);
    let tramp = k.inner.get(&0x2000).unwrap().func_ebreak_addr;
    assert_eq!(k.due_callback(0x2000), Some(1));
    assert_eq!(k.due_callback(tramp), None);
    assert_eq!(k.due_callback(0x1234), None);
    // the callback left ra = 0x3000; the entry saves exactly that
    let mut cx = TrapFrame { sepc: 0x2000, sp: 0x8000, ra: 0x3000 };
    assert_eq!(k.complete_trap(0x2000, &mut cx), TrapEvent::Entered { addr: 0x2000, handler: 1 });
    assert_eq!(k.current.get(&tramp).unwrap().func_ra, vec![0x3000]);
    assert_eq!(k.due_callback(tramp), Some(2));
    let mut back = TrapFrame { sepc: tramp, sp: 0x8000, ra: tramp };
    assert_eq!(k.complete_trap(tramp, &mut back), TrapEvent::Returned { tramp, post_handler: 2 });
    assert_eq!(back.sepc, 0x3000);
    assert_eq!(k.due_callback(tramp), None);
}

#[test]
fn probed_address_wins_over_in_flight() {
    // an instruction probe whose step ends at an address that is itself probed
    let code = [0x13, 0x00, 0x00, 0x00];
    let (mut k, mut mem) = setup(0x1000, &code);
    mem.load(0x5000, &code);
    assert_eq!(k.register_kprobe(&mut mem, 0x1000, 1, Some(2), ProbeType::Insn, true), 0);
    let mut host = Invoker::new(Recorder { calls: Vec::new() });
    let mut cx = TrapFrame { sepc: 0x1000, sp: 0, ra: 0 };
    k.kprobes_trap_handler(&mut cx, &mut host);
    let step_end = cx.sepc + 4;
    assert_eq!(k.due_callback(step_end), Some(2));
    // nothing can be probed inside the free area, so check the rule on a
    // registry whose in-flight key is also a probed address
    k.current.insert(0x5000, k.current.get(&step_end).unwrap().duplicate());
    assert_eq!(k.register_kprobe(&mut mem, 0x5000, 9, None, ProbeType::Insn, true), 0);
    assert_eq!(k.due_callback(0x5000), Some(9));
}

#[test]
fn replaced_callback_never_fires() {
    let (mut k, mut mem) = setup(0x2000, &PROLOGUE);
    k.register_kprobe(&mut mem, 0x2000, 1, Some(2), ProbeType::SyncFunc, false);
    k.register_kprobe(&mut mem, 0x2000, 3, Some(4), ProbeType::SyncFunc, false);
    let mut host = Invoker::new(Recorder { calls: Vec::new() });
    for _ in 0..3 {
        let mut cx = TrapFrame { sepc: 0x2000, sp: 0x8000, ra: 0x3000 };
        k.kprobes_trap_handler(&mut cx, &mut host);
        let mut back = TrapFrame { sepc: cx.ra, sp: 0, ra: 0 };
        k.kprobes_trap_handler(&mut back, &mut host);
        assert_eq!(back.sepc, 0x3000);
    }
    assert!(host.host.calls.iter().all(|c| c.0 == 3 || c.0 == 4));
    assert_eq!(host.host.calls.len(), 6);
}

struct Mover;

impl ProbeHost for Mover {
    fn call(&mut self, _handler: usize, frame: &mut TrapFrame) {
        frame.sepc = 0xdead;
        frame.ra = 0x4444;
    }
}

#[test]
fn entry_resumes_after_probed_instruction() {
    let (mut k, mut mem) = setup(0x2000, &PROLOGUE);
    assert_eq!(k.register_kprobe(&mut mem, 0x2000, 1, Some(2), ProbeType::SyncFunc, false), 0);
    let tramp = k.inner.get(&0x2000).unwrap().func_ebreak_addr;
    let mut host = Invoker::new(Mover);
    let mut cx = TrapFrame { sepc: 0x2000, sp: 0x8000, ra: 0x3000 };
    k.kprobes_trap_handler(&mut cx, &mut host);
    assert_eq!(cx, TrapFrame { sepc: 0x2004, sp: 0x8000 - 32, ra: tramp });
    // the return address saved is the one the callback handed back
    assert_eq!(k.current.get(&tramp).unwrap().func_ra, vec![0x4444]);
}
