use probekit::memory::CodeMemory;
use probekit::probes::{Invoker, ProbeHost, ProbeType, TrapEvent, TrapFrame};
use probekit::uprobes::CurrentProcessUprobes;

struct Recorder {
    calls: Vec<usize>,
}

impl ProbeHost for Recorder {
    fn call(&mut self, handler: usize, _frame: &mut TrapFrame) {
        self.calls.push(handler);
    }
}

const CODE: [u8; 8] = [0x13, 0x00, 0x00, 0x00, 0x13, 0x01, 0x01, 0xfe];

fn space() -> CodeMemory {
    let mut m = CodeMemory::new(0x7000_0000, 0x7000_1000);
    m.load(0x1000, &CODE);
    m
}

#[test]
fn deferred_arm_on_activation() {
    let mut up = CurrentProcessUprobes::new();
    let bar = String::from("/bin/bar");
    let foo = String::from("/bin/foo");
    let mut bar_mem = space();
    let mut foo_mem = space();
    let r = up.register_uprobes(&bar, &mut bar_mem, foo.clone(), 0x1000, 1, None, ProbeType::Insn, true);
    assert_eq!(r, 0);
    // neither address space has been written
    assert_eq!(bar_mem.read(0x1000, 8).unwrap(), CODE.to_vec());
    assert_eq!(foo_mem.read(0x1000, 8).unwrap(), CODE.to_vec());
    assert_eq!(up.inner.len(), 1);
    assert!(up.inner[0].pending.contains_key(&0x1000));
    // a process of /bin/foo becomes current
    up.uprobes_init(&foo, &mut foo_mem, &vec![0x1000]);
    assert_eq!(foo_mem.read(0x1000, 4).unwrap(), vec![0x02, 0x90, 0x02, 0x90]);
    assert!(up.inner[0].pending.is_empty());
    assert!(up.inner[0].points.inner.contains_key(&0x1000));
    // the out-of-line copy lies in foo's address space
    let slot = up.inner[0].points.inner.get(&0x1000).unwrap().slot_addr;
    assert_eq!(foo_mem.read(slot, 6).unwrap(), vec![0x13, 0x00, 0x00, 0x00, 0x02, 0x90]);
}

#[test]
fn immediate_arm_when_path_is_current() {
    let mut up = CurrentProcessUprobes::new();
    let foo = String::from("/bin/foo");
    let mut mem = space();
    let r = up.register_uprobes(&foo, &mut mem, foo.clone(), 0x1004, 1, Some(2), ProbeType::SyncFunc, false);
    assert_eq!(r, 0);
    assert_eq!(mem.read(0x1004, 4).unwrap(), vec![0x02, 0x90, 0x02, 0x90]);
    assert!(up.inner[0].pending.is_empty());
    let mut host = Invoker::new(Recorder { calls: Vec::new() });
    let mut cx = TrapFrame { sepc: 0x1004, sp: 0x9000, ra: 0x1100 };
    let ev = up.uprobes_trap_handler(&foo, &mut cx, &mut host);
    assert_eq!(ev, TrapEvent::Entered { addr: 0x1004, handler: 1 });
    assert_eq!(cx.sp, 0x9000 - 32);
    let tramp = cx.ra;
    let mut back = TrapFrame { sepc: tramp, sp: 0x9000, ra: tramp };
    up.uprobes_trap_handler(&foo, &mut back, &mut host);
    assert_eq!(back.sepc, 0x1100);
    assert_eq!(host.host.calls, vec![1, 2]);
}

#[test]
fn user_trap_of_other_executable_ignored() {
    let mut up = CurrentProcessUprobes::new();
    let foo = String::from("/bin/foo");
    let bar = String::from("/bin/bar");
    let mut mem = space();
    up.register_uprobes(&foo, &mut mem, foo.clone(), 0x1000, 1, None, ProbeType::Insn, true);
    let mut host = Invoker::new(Recorder { calls: Vec::new() });
    let mut cx = TrapFrame { sepc: 0x1000, sp: 0, ra: 0 };
    assert_eq!(up.uprobes_trap_handler(&bar, &mut cx, &mut host), TrapEvent::NotProbed);
    assert_eq!(cx.sepc, 0x1000);
    assert!(host.host.calls.is_empty());
}

#[test]
fn user_async_function_refused() {
    let mut up = CurrentProcessUprobes::new();
    let foo = String::from("/bin/foo");
    let mut mem = space();
    let r = up.register_uprobes(&foo, &mut mem, foo.clone(), 0x1004, 1, None, ProbeType::AsyncFunc, true);
    assert_eq!(r, -1);
    assert!(up.inner.is_empty());
    assert_eq!(mem.read(0x1000, 8).unwrap(), CODE.to_vec());
}

#[test]
fn user_immediate_arm_failure_changes_nothing() {
    let mut up = CurrentProcessUprobes::new();
    let foo = String::from("/bin/foo");
    let mut mem = space();
    let r = up.register_uprobes(&foo, &mut mem, foo.clone(), 0x1000, 1, None, ProbeType::SyncFunc, true);
    assert_eq!(r, -1);
    assert!(up.inner.is_empty());
    assert_eq!(mem.read(0x1000, 8).unwrap(), CODE.to_vec());
}

#[test]
fn activation_leaves_unsuitable_probe_pending() {
    let mut up = CurrentProcessUprobes::new();
    let foo = String::from("/bin/foo");
    let bar = String::from("/bin/bar");
    let mut bar_mem = space();
    let mut foo_mem = space();
    up.register_uprobes(&bar, &mut bar_mem, foo.clone(), 0x1000, 1, None, ProbeType::SyncFunc, true);
    up.register_uprobes(&bar, &mut bar_mem, foo.clone(), 0x1004, 2, None, ProbeType::SyncFunc, true);
    up.uprobes_init(&foo, &mut foo_mem, &vec![]);
    assert!(up.inner[0].pending.contains_key(&0x1000));
    assert!(!up.inner[0].pending.contains_key(&0x1004));
    assert_eq!(foo_mem.read(0x1000, 8).unwrap(), vec![0x13, 0x00, 0x00, 0x00, 0x02, 0x90, 0x02, 0x90]);
}

#[test]
fn activation_takes_decoder_verdict() {
    let mut up = CurrentProcessUprobes::new();
    let foo = String::from("/bin/foo");
    let bar = String::from("/bin/bar");
    let mut bar_mem = space();
    let mut foo_mem = space();
    // the verdict given at registration is not the one used
    up.register_uprobes(&bar, &mut bar_mem, foo.clone(), 0x1000, 1, None, ProbeType::Insn, true);
    up.uprobes_init(&foo, &mut foo_mem, &vec![0x2000]);
    assert!(up.inner[0].pending.contains_key(&0x1000));
    assert_eq!(foo_mem.read(0x1000, 8).unwrap(), CODE.to_vec());
    up.uprobes_init(&foo, &mut foo_mem, &vec![0x1000]);
    assert!(up.inner[0].pending.is_empty());
    assert_eq!(foo_mem.read(0x1000, 4).unwrap(), vec![0x02, 0x90, 0x02, 0x90]);
}

#[test]
fn user_unregister_restores_bytes() {
    let mut up = CurrentProcessUprobes::new();
    let foo = String::from("/bin/foo");
    let mut mem = space();
    assert_eq!(up.register_uprobes(&foo, &mut mem, foo.clone(), 0x1004, 1, Some(2), ProbeType::SyncFunc, false), 0);
    assert_eq!(up.unregister_uprobe(&mut mem, &foo, 0x1004), 0);
    assert_eq!(mem.read(0x1000, 8).unwrap(), CODE.to_vec());
    assert!(up.inner[0].points.inner.is_empty());
    assert_eq!(up.unregister_uprobe(&mut mem, &foo, 0x1004), -1);
    assert_eq!(up.unregister_uprobe(&mut mem, &String::from("/bin/bar"), 0x1004), -1);
}

#[test]
fn user_unregister_pending() {
    let mut up = CurrentProcessUprobes::new();
    let foo = String::from("/bin/foo");
    let bar = String::from("/bin/bar");
    let mut bar_mem = space();
    let mut foo_mem = space();
    up.register_uprobes(&bar, &mut bar_mem, foo.clone(), 0x1000, 1, None, ProbeType::Insn, true);
    assert_eq!(up.unregister_uprobe(&mut foo_mem, &foo, 0x1000), 0);
    assert!(up.inner[0].pending.is_empty());
    up.uprobes_init(&foo, &mut foo_mem, &vec![0x1000]);
    assert_eq!(foo_mem.read(0x1000, 8).unwrap(), CODE.to_vec());
}

#[test]
fn user_due_callback_and_completion() {
    let mut up = CurrentProcessUprobes::new();
    let foo = String::from("/bin/foo");
    let mut mem = space();
    up.register_uprobes(&foo, &mut mem, foo.clone(), 0x1000, 5, Some(6), ProbeType::Insn, true);
    assert_eq!(up.uprobes_due_callback(&foo, 0x1000), Some(5));
    assert_eq!(up.uprobes_due_callback(&String::from("/bin/bar"), 0x1000), None);
    let mut cx = TrapFrame { sepc: 0x1000, sp: 1, ra: 2 };
    let ev = up.complete_user_trap(&foo, 0x1000, &mut cx);
    assert_eq!(ev, TrapEvent::Entered { addr: 0x1000, handler: 5 });
    assert_eq!(up.uprobes_due_callback(&foo, cx.sepc + 4), Some(6));
}
