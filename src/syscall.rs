//! The system-call boundary of the engine: decoding a bytecode image and a
//! placement code, and the registration calls built on them.
use vstd::prelude::*;
use crate::memory::CodeMemory;
use crate::probes::{ProbePlace, ProbeType};
use crate::ebpf::{Ebpf, arm_effect, disarm_effect};

verus! {

/// Errors returned to user space, by their errno names.
#[derive(Clone, Copy, Debug, PartialEq, Eq, Structural)]
pub enum SysError {
    EUNDEF,
    EPERM,
    ENOENT,
    ESRCH,
    EINTR,
    EIO,
    ENXIO,
    E2BIG,
    ENOEXEC,
    EBADF,
    ECHILD,
    EAGAIN,
    ENOMEM,
    EACCES,
    EFAULT,
    ENOTBLK,
    EBUSY,
    EEXIST,
    EXDEV,
    ENODEV,
    ENOTDIR,
    EISDIR,
    EINVAL,
    ENFILE,
    EMFILE,
    ENOTTY,
    ETXTBSY,
    EFBIG,
    ENOSPC,
    ESPIPE,
    EROFS,
    EMLINK,
    EPIPE,
    EDOM,
    ERANGE,
    EDEADLK,
    ENAMETOOLONG,
    ENOLCK,
    ENOSYS,
    ENOTEMPTY,
    ELOOP,
    EIDRM,
    ENOTSOCK,
    ENOPROTOOPT,
    EPFNOSUPPORT,
    EAFNOSUPPORT,
    ENOBUFS,
    EISCONN,
    ENOTCONN,
    ETIMEDOUT,
    ECONNREFUSED,
}

/// The errno value of `e`.
pub open spec fn errno(e: SysError) -> isize {
    match e {
        SysError::EUNDEF => 0isize,
        SysError::EPERM => 1isize,
        SysError::ENOENT => 2isize,
        SysError::ESRCH => 3isize,
        SysError::EINTR => 4isize,
        SysError::EIO => 5isize,
        SysError::ENXIO => 6isize,
        SysError::E2BIG => 7isize,
        SysError::ENOEXEC => 8isize,
        SysError::EBADF => 9isize,
        SysError::ECHILD => 10isize,
        SysError::EAGAIN => 11isize,
        SysError::ENOMEM => 12isize,
        SysError::EACCES => 13isize,
        SysError::EFAULT => 14isize,
        SysError::ENOTBLK => 15isize,
        SysError::EBUSY => 16isize,
        SysError::EEXIST => 17isize,
        SysError::EXDEV => 18isize,
        SysError::ENODEV => 19isize,
        SysError::ENOTDIR => 20isize,
        SysError::EISDIR => 21isize,
        SysError::EINVAL => 22isize,
        SysError::ENFILE => 23isize,
        SysError::EMFILE => 24isize,
        SysError::ENOTTY => 25isize,
        SysError::ETXTBSY => 26isize,
        SysError::EFBIG => 27isize,
        SysError::ENOSPC => 28isize,
        SysError::ESPIPE => 29isize,
        SysError::EROFS => 30isize,
        SysError::EMLINK => 31isize,
        SysError::EPIPE => 32isize,
        SysError::EDOM => 33isize,
        SysError::ERANGE => 34isize,
        SysError::EDEADLK => 35isize,
        SysError::ENAMETOOLONG => 36isize,
        SysError::ENOLCK => 37isize,
        SysError::ENOSYS => 38isize,
        SysError::ENOTEMPTY => 39isize,
        SysError::ELOOP => 40isize,
        SysError::EIDRM => 43isize,
        SysError::ENOTSOCK => 80isize,
        SysError::ENOPROTOOPT => 92isize,
        SysError::EPFNOSUPPORT => 96isize,
        SysError::EAFNOSUPPORT => 97isize,
        SysError::ENOBUFS => 105isize,
        SysError::EISCONN => 106isize,
        SysError::ENOTCONN => 107isize,
        SysError::ETIMEDOUT => 110isize,
        SysError::ECONNREFUSED => 111isize,
    }
}

impl SysError {
    /// The (positive) errno value.
    pub fn code(&self) -> (r: isize)
        ensures
            r == errno(*self),
    {
        match self {
            SysError::EUNDEF => 0,
            SysError::EPERM => 1,
            SysError::ENOENT => 2,
            SysError::ESRCH => 3,
            SysError::EINTR => 4,
            SysError::EIO => 5,
            SysError::ENXIO => 6,
            SysError::E2BIG => 7,
            SysError::ENOEXEC => 8,
            SysError::EBADF => 9,
            SysError::ECHILD => 10,
            SysError::EAGAIN => 11,
            SysError::ENOMEM => 12,
            SysError::EACCES => 13,
            SysError::EFAULT => 14,
            SysError::ENOTBLK => 15,
            SysError::EBUSY => 16,
            SysError::EEXIST => 17,
            SysError::EXDEV => 18,
            SysError::ENODEV => 19,
            SysError::ENOTDIR => 20,
            SysError::EISDIR => 21,
            SysError::EINVAL => 22,
            SysError::ENFILE => 23,
            SysError::EMFILE => 24,
            SysError::ENOTTY => 25,
            SysError::ETXTBSY => 26,
            SysError::EFBIG => 27,
            SysError::ENOSPC => 28,
            SysError::ESPIPE => 29,
            SysError::EROFS => 30,
            SysError::EMLINK => 31,
            SysError::EPIPE => 32,
            SysError::EDOM => 33,
            SysError::ERANGE => 34,
            SysError::EDEADLK => 35,
            SysError::ENAMETOOLONG => 36,
            SysError::ENOLCK => 37,
            SysError::ENOSYS => 38,
            SysError::ENOTEMPTY => 39,
            SysError::ELOOP => 40,
            SysError::EIDRM => 43,
            SysError::ENOTSOCK => 80,
            SysError::ENOPROTOOPT => 92,
            SysError::EPFNOSUPPORT => 96,
            SysError::EAFNOSUPPORT => 97,
            SysError::ENOBUFS => 105,
            SysError::EISCONN => 106,
            SysError::ENOTCONN => 107,
            SysError::ETIMEDOUT => 110,
            SysError::ECONNREFUSED => 111,
        }
    }
}

/// A point that system-call entry passes through, for probes to attach to.
#[inline(never)]
pub fn hook_point() {
}

/// The little-endian 64-bit word of the eight bytes of `b` from `i` on.
pub open spec fn le_word(b: Seq<u8>, i: int) -> u64 {
    (b[i] as u64 | (b[i + 1] as u64) << 8u64 | (b[i + 2] as u64) << 16u64 | (b[i + 3] as u64) << 24u64
        | (b[i + 4] as u64) << 32u64 | (b[i + 5] as u64) << 40u64 | (b[i + 6] as u64) << 48u64 | (b[i
        + 7] as u64) << 56u64) as u64
}

/// The program whose image is `b`: its little-endian 64-bit words.
pub open spec fn prog_spec(b: Seq<u8>) -> Seq<u64> {
    Seq::new((b.len() / 8) as nat, |k: int| le_word(b, 8 * k))
}

/// The program whose image is `code`, or `None` where the image's length is
/// not a multiple of 8.
pub fn prog_from_bytes(code: &[u8]) -> (r: Option<Vec<u64>>)
    ensures
        match r {
            Some(p) => code@.len() % 8 == 0 && p@ == prog_spec(code@),
            None => code@.len() % 8 != 0,
        },
{
    if code.len() % 8 != 0 {
        return None;
    }
    let len = code.len();
    let n = len / 8;
    let mut p: Vec<u64> = Vec::new();
    let mut k: usize = 0;
    while k < n
        invariant
            k <= n,
            len == code@.len(),
            n == code@.len() / 8,
            code@.len() % 8 == 0,
            p@ == prog_spec(code@).take(k as int),
        decreases n - k,
    {
        assert(8 * k + 8 <= len) by (nonlinear_arith)
            requires
                len == code@.len(),
                k < n,
                n == code@.len() / 8,
                code@.len() % 8 == 0,
        ;
        let i = 8 * k;
        let w: u64 = (code[i] as u64 | (code[i + 1] as u64) << 8u64 | (code[i + 2] as u64) << 16u64 | (
        code[i + 3] as u64) << 24u64 | (code[i + 4] as u64) << 32u64 | (code[i + 5] as u64) << 40u64
            | (code[i + 6] as u64) << 48u64 | (code[i + 7] as u64) << 56u64) as u64;
        p.push(w);
        k = k + 1;
        assert(p@ =~= prog_spec(code@).take(k as int));
    }
    assert(prog_spec(code@).take(n as int) =~= prog_spec(code@));
    Some(p)
}

/// The placement that code `pt` stands for: its low byte picks kernel (0) or
/// user (1) code, the byte above it an instruction (0) or a synchronous
/// function (1). Other codes stand for none.
pub open spec fn place_spec(pt: usize) -> Option<ProbePlace> {
    if pt == 0x000 {
        Some(ProbePlace::Kernel(ProbeType::Insn))
    } else if pt == 0x100 {
        Some(ProbePlace::Kernel(ProbeType::SyncFunc))
    } else if pt == 0x001 {
        Some(ProbePlace::User(ProbeType::Insn))
    } else if pt == 0x101 {
        Some(ProbePlace::User(ProbeType::SyncFunc))
    } else {
        None
    }
}

/// Decodes a placement code (see `place_spec`).
pub fn decode_probe_place(pt: usize) -> (r: Option<ProbePlace>)
    ensures
        r == place_spec(pt),
{
    if pt > 0xffff {
        return None;
    }
    assert((pt >> 8 == 0 ==> pt < 0x100) && (pt >> 8 == 1 ==> 0x100 <= pt < 0x200) && (pt >> 8 >= 2
        ==> pt >= 0x200) && (pt & 0xff) == pt % 0x100) by (bit_vector)
        requires
            pt <= 0xffff,
    ;
    let kind = match pt >> 8 {
        0 => ProbeType::Insn,
        1 => ProbeType::SyncFunc,
        _ => {
            return None;
        },
    };
    let place = pt & 0xff;
    if place == 0 {
        Some(ProbePlace::Kernel(kind))
    } else if place == 1 {
        Some(ProbePlace::User(kind))
    } else {
        None
    }
}

/// The registration call: attaches the program whose image is `code` at
/// `addr`, placed by code `pt` (in the code of executable `path` for a user
/// placement; see `Ebpf::register`). `EINVAL`, with nothing changed, where the
/// image is not whole words, the code stands for no placement, or the probe
/// cannot be registered.
pub fn sys_register_ebpf(
    ebpf: &mut Ebpf,
    kmem: &mut CodeMemory,
    umem: &mut CodeMemory,
    current: &String,
    addr: usize,
    code: &[u8],
    pt: usize,
    path: String,
    insn_legal: bool,
) -> (r: Result<usize, SysError>)
    requires
        old(ebpf).wf(old(kmem), old(umem), current@),
    ensures
        final(ebpf).wf(final(kmem), final(umem), current@),
        r == Ok::<usize, SysError>(0) || r == Err::<usize, SysError>(SysError::EINVAL),
        r is Err ==> final(ebpf).progs() == old(ebpf).progs() && final(ebpf).kprobes@ == old(ebpf).kprobes@
            && final(ebpf).uprobes@ == old(ebpf).uprobes@ && *final(kmem) == *old(kmem) && *final(umem) == *old(umem),
        code@.len() % 8 != 0 || place_spec(pt) is None ==> r is Err,
        code@.len() % 8 == 0 && place_spec(pt) is Some ==> arm_effect(addr, path@, place_spec(pt)->Some_0,
            insn_legal, current@, old(ebpf).kprobes@, *old(kmem), old(ebpf).uprobes@, *old(umem),
            final(ebpf).kprobes@, *final(kmem), final(ebpf).uprobes@, *final(umem), if r is Ok { 0isize } else { -1isize }),
        r is Ok ==> final(ebpf).progs() == old(ebpf).progs().insert(addr, prog_spec(code@)),
{
    let prog = match prog_from_bytes(code) {
        Some(p) => p,
        None => {
            return Err(SysError::EINVAL);
        },
    };
    let pp = match decode_probe_place(pt) {
        Some(pp) => pp,
        None => {
            return Err(SysError::EINVAL);
        },
    };
    if crate::ebpf::ebpf_register(ebpf, kmem, umem, current, addr, prog, path, pp, insn_legal) != 0 {
        return Err(SysError::EINVAL);
    }
    Ok(0)
}

/// The unregistration call (see `Ebpf::unregister`): `umem` is the address
/// space of executable `upath`. `EINVAL`, with nothing changed, where no
/// program is attached at `addr` or its probe is placed in another executable.
pub fn sys_unregister_ebpf(ebpf: &mut Ebpf, kmem: &mut CodeMemory, umem: &mut CodeMemory, upath: &String, addr: usize) -> (r: Result<usize, SysError>)
    requires
        old(ebpf).wf(old(kmem), old(umem), upath@),
    ensures
        final(ebpf).wf(final(kmem), final(umem), upath@),
        r is Ok <==> old(ebpf).inner@.contains_key(addr) && (old(ebpf).inner@[addr].place is Kernel
            || old(ebpf).inner@[addr].path@ == upath@),
        r is Ok ==> r == Ok::<usize, SysError>(0) && final(ebpf).progs() == old(ebpf).progs().remove(addr)
            && disarm_effect(addr, old(ebpf).inner@[addr].place, old(ebpf).inner@[addr].path@, old(ebpf).kprobes@,
            *old(kmem), old(ebpf).uprobes@, *old(umem), final(ebpf).kprobes@, *final(kmem), final(ebpf).uprobes@,
            *final(umem)),
        r is Err ==> r == Err::<usize, SysError>(SysError::EINVAL) && final(ebpf).progs() == old(ebpf).progs()
            && final(ebpf).kprobes@ == old(ebpf).kprobes@ && final(ebpf).uprobes@ == old(ebpf).uprobes@
            && *final(kmem) == *old(kmem) && *final(umem) == *old(umem),
{
    if crate::ebpf::ebpf_unregister(ebpf, kmem, umem, upath, addr) != 0 {
        return Err(SysError::EINVAL);
    }
    Ok(0)
}

} // verus!
