//! The helper table that bytecode programs call into, and the helpers whose
//! result is a function of their arguments.
use vstd::prelude::*;
use dyn_fmt::AsStrFormatExt;

verus! {

/// The helpers of the table, by what they do.
#[derive(Clone, Copy, Debug, PartialEq, Eq, Structural)]
pub enum HelperKind {
    /// Does nothing and returns 0.
    Nop,
    /// `ktime_get_ns`: the current time in nanoseconds.
    KtimeGetNs,
    /// `trace_printk(fmt, fmt_len, a, b, c)`: formats and traces a message.
    TracePrintk,
    /// `get_current_pid_tgid`: `pid << 32 | pid`.
    GetCurrentPidTgid,
}

pub open spec fn helper_spec(index: u64) -> HelperKind {
    if index == 5 {
        HelperKind::KtimeGetNs
    } else if index == 6 {
        HelperKind::TracePrintk
    } else if index == 13 {
        HelperKind::GetCurrentPidTgid
    } else {
        HelperKind::Nop
    }
}

/// The helper in slot `index` of the table; every slot but 5, 6 and 13, and
/// every index past the table, is a no-op.
pub fn helper_at(index: u64) -> (r: HelperKind)
    ensures
        r == helper_spec(index),
{
    if index == 5 {
        HelperKind::KtimeGetNs
    } else if index == 6 {
        HelperKind::TracePrintk
    } else if index == 13 {
        HelperKind::GetCurrentPidTgid
    } else {
        HelperKind::Nop
    }
}

/// The no-op helper.
pub fn nop(a: u64, b: u64, c: u64, d: u64, e: u64) -> (r: u64)
    ensures
        r == 0,
{
    0
}

/// The result of `get_current_pid_tgid` for the current process `pid`: the
/// thread group id (the same as the pid) in the high half, the pid in the low.
pub fn bpf_get_current_pid_tgid(pid: u64) -> (r: u64)
    ensures
        r == (pid << 32u64) | pid,
        pid < 0x1_0000_0000 ==> r as int == pid as int * 0x1_0000_0000 + pid as int,
{
    let r = (pid << 32u64) | pid;
    assert(pid < 0x1_0000_0000 ==> r == pid * 0x1_0000_0000 + pid) by (bit_vector)
        requires
            r == (pid << 32u64) | pid,
    ;
    r
}

pub open spec fn hex_digit(d: nat) -> char {
    if d < 10 { (('0' as nat) + d) as char } else { (('a' as nat) + d - 10) as char }
}

/// Lower-case hexadecimal digits of `n`, without leading zeros.
pub open spec fn hex_digits(n: nat) -> Seq<char>
    decreases n,
{
    if n < 16 { seq![hex_digit(n)] } else { hex_digits(n / 16).push(hex_digit(n % 16)) }
}

/// Decimal digits of `n`, without leading zeros.
pub open spec fn dec_digits(n: nat) -> Seq<char>
    decreases n,
{
    if n < 10 { seq![hex_digit(n)] } else { dec_digits(n / 10).push(hex_digit(n % 10)) }
}

/// Relies on std's `{:#x}` formatting of `u64`: `0x` and the lower-case
/// hexadecimal digits.
#[verifier::external_body]
fn hex_text(v: u64) -> (r: String)
    ensures
        r@ == seq!['0', 'x'] + hex_digits(v as nat),
{
    format!("{:#x}", v)
}

/// Relies on std's `{}` formatting of `u64`: the decimal digits.
#[verifier::external_body]
fn dec_text(v: u64) -> (r: String)
    ensures
        r@ == dec_digits(v as nat),
{
    format!("{}", v)
}

/// What dyn_fmt's `format` makes of the format string `fmt` and the
/// arguments `args`.
pub uninterp spec fn dyn_formatted(fmt: Seq<char>, args: Seq<Seq<char>>) -> Seq<char>;

/// Relies on dyn_fmt's `AsStrFormatExt::format`: each `{}` of `fmt` replaced
/// by the next argument; a string without braces is returned as it is.
#[verifier::external_body]
fn format_args_dyn(fmt: &str, args: &Vec<String>) -> (r: String)
    ensures
        r@ == dyn_formatted(fmt@, args@.map_values(|a: String| a@)),
        (forall|i: int| 0 <= i < fmt@.len() ==> #[trigger] fmt@[i] != '{' && fmt@[i] != '}') ==> r@ == fmt@,
{
    fmt.format(args.as_slice())
}

/// The message that `trace_printk(fmt, _, a, b, c)` traces: `fmt` with its
/// placeholders filled by `a` in hexadecimal, then `b` and `c` in decimal.
pub fn bpf_trace_printk(fmt: &str, a: u64, b: u64, c: u64) -> (r: String)
    ensures
        r@ == dyn_formatted(fmt@, seq![seq!['0', 'x'] + hex_digits(a as nat), dec_digits(b as nat), dec_digits(c as nat)]),
        (forall|i: int| 0 <= i < fmt@.len() ==> #[trigger] fmt@[i] != '{' && fmt@[i] != '}') ==> r@ == fmt@,
{
    let mut args: Vec<String> = Vec::new();
    args.push(hex_text(a));
    args.push(dec_text(b));
    args.push(dec_text(c));
    let r = format_args_dyn(fmt, &args);
    assert(args@.map_values(|s: String| s@) =~= seq![seq!['0', 'x'] + hex_digits(a as nat), dec_digits(b as nat), dec_digits(c as nat)]);
    r
}

} // verus!
