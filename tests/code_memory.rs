use probekit::memory::CodeMemory;
use probekit::probes::{copy_addrs, copy_bytes, ebreak_pattern, KprobesInner, ProbeType};
use probekit::uprobes::UprobesInner;

#[test]
fn load_read_write() {
    let mut m = CodeMemory::new(0x100, 0x200);
    assert_eq!(m.read(0x10, 1), None);
    m.load(0x10, &[1, 2, 3, 4]);
    assert_eq!(m.read(0x10, 4), Some(vec![1, 2, 3, 4]));
    assert_eq!(m.read(0x11, 2), Some(vec![2, 3]));
    assert_eq!(m.read(0x12, 4), None);
    assert_eq!(m.read(0x10, 0), Some(vec![]));
    m.write(0x11, &[9, 8]);
    assert_eq!(m.read(0x10, 4), Some(vec![1, 9, 8, 4]));
    assert_eq!(m.read(usize::MAX, 1), None);
}

#[test]
fn free_area_handed_out_in_order() {
    let mut m = CodeMemory::new(0x100, 0x108);
    assert_eq!(m.take_free(6), Some(0x100));
    assert_eq!(m.read(0x100, 6), Some(vec![0; 6]));
    assert_eq!(m.next_free, 0x106);
    assert_eq!(m.take_free(4), None);
    assert_eq!(m.next_free, 0x106);
    assert_eq!(m.take_free(2), Some(0x106));
    assert_eq!(m.take_free(0), Some(0x108));
    assert_eq!(m.take_free(1), None);
}

#[test]
fn breakpoint_bytes() {
    assert_eq!(ebreak_pattern(2), vec![0x02, 0x90]);
    assert_eq!(ebreak_pattern(4), vec![0x02, 0x90, 0x02, 0x90]);
    assert_eq!(ebreak_pattern(0), Vec::<u8>::new());
}

#[test]
fn copies() {
    assert_eq!(copy_bytes(&vec![1, 2, 3]), vec![1, 2, 3]);
    assert_eq!(copy_addrs(&vec![7, 0x1000]), vec![7, 0x1000]);
}

#[test]
fn descriptor_for_instruction_probe() {
    let mut m = CodeMemory::new(0x100, 0x200);
    m.load(0x10, &[0x13, 0, 0, 0]);
    let p = KprobesInner::new(&mut m, 0x10, &vec![0x13, 0, 0, 0], 3, Some(4), ProbeType::Insn, true).unwrap();
    assert_eq!((p.addr, p.length, p.slot_addr, p.insn_ebreak_addr), (0x10, 4, 0x100, 0x104));
    assert_eq!(p.slot, vec![0x13, 0, 0, 0, 0x02, 0x90]);
    assert_eq!(m.read(0x100, 6), Some(vec![0x13, 0, 0, 0, 0x02, 0x90]));
    p.arm(&mut m);
    assert_eq!(m.read(0x10, 4), Some(vec![0x02, 0x90, 0x02, 0x90]));
    p.disarm(&mut m);
    assert_eq!(m.read(0x10, 4), Some(vec![0x13, 0, 0, 0]));
    let d = p.duplicate();
    assert_eq!((d.addr, d.slot.clone(), d.handler, d.post_handler), (0x10, p.slot.clone(), 3, Some(4)));
}

#[test]
fn descriptor_for_function_probe() {
    let mut m = CodeMemory::new(0x100, 0x200);
    // c.addi16sp -64
    let p = KprobesInner::new(&mut m, 0x10, &vec![0x39, 0x71], 3, None, ProbeType::SyncFunc, false).unwrap();
    assert_eq!((p.length, p.addisp, p.func_ebreak_addr), (2, -64, 0x100));
    assert_eq!(m.read(0x100, 2), Some(vec![0x02, 0x90]));
    assert!(KprobesInner::new(&mut m, 0x10, &vec![0x01, 0x00], 3, None, ProbeType::SyncFunc, true).is_none());
    assert!(KprobesInner::new(&mut m, 0x10, &vec![0x39, 0x71], 3, None, ProbeType::AsyncFunc, true).is_none());
    assert_eq!(m.next_free, 0x102);
}

#[test]
fn user_probe_record() {
    let u = UprobesInner::new(0x40, 1, Some(2), ProbeType::Insn, true);
    assert_eq!(u, UprobesInner { addr: 0x40, handler: 1, post_handler: Some(2), probe_type: ProbeType::Insn, insn_legal: true });
}
