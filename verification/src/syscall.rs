//! The software-interrupt syscall interface: its numbers and the
//! dispatcher's decision.

use vstd::prelude::*;

verus! {

/// Spawn a process from a path.
pub const SPAWN: usize = 0x1;

/// End the running process.
pub const EXIT: usize = 0x2;

/// Write a line from a user buffer to the kernel log.
pub const PRINT_LINE: usize = 0x404;

/// What a syscall asks the kernel to do.
#[derive(Debug, Clone, Copy, PartialEq, Eq, Structural)]
pub enum SyscallAction {
    /// Load and run the program at the path in user memory.
    Spawn { path_ptr: usize, path_len: usize },
    /// Restore the kernel context that issued the spawn.
    Exit,
    /// Log the bytes at the user pointer.
    PrintLine { ptr: usize, len: usize },
    /// Log the number and continue.
    Unknown { number: usize },
}

/// Decides what a trap with `rax = syscall_number`, `rdi = arg1`,
/// `rsi = arg2` asks for.
pub fn dispatcher(syscall_number: usize, arg1: usize, arg2: usize) -> (r: SyscallAction)
    ensures
        syscall_number == SPAWN ==> r == (SyscallAction::Spawn { path_ptr: arg1, path_len: arg2 }),
        syscall_number == EXIT ==> r == SyscallAction::Exit,
        syscall_number == PRINT_LINE ==> r == (SyscallAction::PrintLine { ptr: arg1, len: arg2 }),
        syscall_number != SPAWN && syscall_number != EXIT && syscall_number != PRINT_LINE ==> r
            == (SyscallAction::Unknown { number: syscall_number }),
{
    if syscall_number == SPAWN {
        SyscallAction::Spawn { path_ptr: arg1, path_len: arg2 }
    } else if syscall_number == EXIT {
        SyscallAction::Exit
    } else if syscall_number == PRINT_LINE {
        SyscallAction::PrintLine { ptr: arg1, len: arg2 }
    } else {
        SyscallAction::Unknown { number: syscall_number }
    }
}

} // verus!
