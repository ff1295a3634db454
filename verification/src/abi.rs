//! Constants of the C library, and the system calls that are made without it.
//!
//! The numbers are those of Linux on x86-64, the one platform whose system
//! call instruction is used; glibc and musl agree on all of them.

use crate::text::ascii_bytes;
use vstd::prelude::*;

verus! {

/// `libc::SIGILL`, 4 on Linux.
#[verifier::external_body]
pub(crate) fn sigill() -> (signum: i32)
    ensures
        signum == 4,
{
    libc::SIGILL
}

/// `libc::SIGABRT`, 6 on Linux.
#[verifier::external_body]
pub(crate) fn sigabrt() -> (signum: i32)
    ensures
        signum == 6,
{
    libc::SIGABRT
}

/// `libc::SIGBUS`, 7 on Linux for x86-64.
#[verifier::external_body]
pub(crate) fn sigbus() -> (signum: i32)
    ensures
        signum == 7,
{
    libc::SIGBUS
}

/// `libc::SIGFPE`, 8 on Linux.
#[verifier::external_body]
pub(crate) fn sigfpe() -> (signum: i32)
    ensures
        signum == 8,
{
    libc::SIGFPE
}

/// `libc::SIGSEGV`, 11 on Linux.
#[verifier::external_body]
pub(crate) fn sigsegv() -> (signum: i32)
    ensures
        signum == 11,
{
    libc::SIGSEGV
}

/// `libc::SA_NODEFER`, bit 30 of the flags word on Linux for x86-64.
#[verifier::external_body]
pub(crate) fn sa_nodefer() -> (flag: i32)
    ensures
        flag == 0x4000_0000i32,
{
    libc::SA_NODEFER
}

/// `libc::SA_RESETHAND`, bit 31 of the flags word on Linux for x86-64, the
/// sign bit of a C `int`.
#[verifier::external_body]
pub(crate) fn sa_resethand() -> (flag: i32)
    ensures
        flag == i32::MIN,
{
    libc::SA_RESETHAND
}

/// `libc::O_WRONLY`, 1 on Linux.
#[verifier::external_body]
pub(crate) fn o_wronly() -> (flag: i32)
    ensures
        flag == 1,
{
    libc::O_WRONLY
}

/// `libc::O_CLOEXEC`, 0x80000 on Linux for x86-64.
#[verifier::external_body]
pub(crate) fn o_cloexec() -> (flag: i32)
    ensures
        flag == 0x80000,
{
    libc::O_CLOEXEC
}

/// `libc::STDOUT_FILENO`, 1.
#[verifier::external_body]
pub(crate) fn stdout_fileno() -> (fd: i32)
    ensures
        fd == 1,
{
    libc::STDOUT_FILENO
}

/// `libc::STDERR_FILENO`, 2.
#[verifier::external_body]
pub(crate) fn stderr_fileno() -> (fd: i32)
    ensures
        fd == 2,
{
    libc::STDERR_FILENO
}

/// `libc::_SC_CLK_TCK`, 2 on Linux.
#[verifier::external_body]
pub(crate) fn sc_clk_tck() -> (name: i32)
    ensures
        name == 2,
{
    libc::_SC_CLK_TCK
}

/// `libc::_SC_PAGE_SIZE`, 30 on Linux.
#[verifier::external_body]
pub(crate) fn sc_page_size() -> (name: i32)
    ensures
        name == 30,
{
    libc::_SC_PAGE_SIZE
}

/// `libc::_SC_NPROCESSORS_CONF`, 83 on Linux.
#[verifier::external_body]
pub(crate) fn sc_nprocessors_conf() -> (name: i32)
    ensures
        name == 83,
{
    libc::_SC_NPROCESSORS_CONF
}

/// `libc::_SC_NPROCESSORS_ONLN`, 84 on Linux.
#[verifier::external_body]
pub(crate) fn sc_nprocessors_onln() -> (name: i32)
    ensures
        name == 84,
{
    libc::_SC_NPROCESSORS_ONLN
}

/// `libc::_SC_PHYS_PAGES`, 85 on Linux.
#[verifier::external_body]
pub(crate) fn sc_phys_pages() -> (name: i32)
    ensures
        name == 85,
{
    libc::_SC_PHYS_PAGES
}

/// `libc::_SC_AVPHYS_PAGES`, 86 on Linux.
#[verifier::external_body]
pub(crate) fn sc_avphys_pages() -> (name: i32)
    ensures
        name == 86,
{
    libc::_SC_AVPHYS_PAGES
}

/// What the registers hold when the `syscall` instruction is executed.
///
/// `rsi` stands for the memory that the register points to; it is empty for
/// a call that takes no pointer. A register that a call does not use is 0.
pub struct Registers<'a> {
    pub rax: i64,
    pub rdi: i64,
    pub rsi: &'a [u8],
    pub rdx: u64,
    pub r10: i64,
}

/// `write(fd, buf, buf.len())`: system call 1.
pub fn raw_write<'a>(fd: i64, buf: &'a [u8]) -> (regs: Registers<'a>)
    ensures
        regs.rax == 1,
        regs.rdi == fd,
        regs.rsi@ == buf@,
        regs.rdx == buf@.len(),
        regs.r10 == 0,
{
    Registers { rax: 1, rdi: fd, rsi: buf, rdx: buf.len() as u64, r10: 0 }
}

/// `openat(AT_FDCWD, path, flags, 0)`: system call 257. `path` is to end in
/// a zero byte, as the paths of [`crate::script::sink_path`] do.
pub fn raw_openat<'a>(path: &'a [u8], flags: i64) -> (regs: Registers<'a>)
    ensures
        regs.rax == 257,
        regs.rdi == -100,
        regs.rsi@ == path@,
        regs.rdx == flags as u64,
        regs.r10 == 0,
{
    Registers { rax: 257, rdi: -100, rsi: path, rdx: flags as u64, r10: 0 }
}

/// `close(fd)`: system call 3.
pub fn raw_close<'a>(fd: i64) -> (regs: Registers<'a>)
    ensures
        regs.rax == 3,
        regs.rdi == fd,
        regs.rsi@ == Seq::<u8>::empty(),
        regs.rdx == 0,
        regs.r10 == 0,
{
    proof {
        reveal_strlit("");
    }
    Registers { rax: 3, rdi: fd, rsi: ascii_bytes(""), rdx: 0, r10: 0 }
}

} // verus!
