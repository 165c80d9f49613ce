use vstd::prelude::*;

verus! {

/// First kernel-space address of a trace whose pointers are four bytes wide.
pub const KERNEL_START_32: u64 = 0x8000_0000;

/// First kernel-space address of a trace whose pointers are eight bytes wide.
/// This is an approximation: the true boundary depends on the architecture.
pub const KERNEL_START_64: u64 = 0xFFFF_0000_0000_0000;

/// Where kernel space starts for a given pointer size; any size other than
/// four bytes is treated as eight.
pub open spec fn kernel_start(pointer_size: u32) -> u64 {
    if pointer_size == 4 {
        KERNEL_START_32
    } else {
        KERNEL_START_64
    }
}

/// Whether `ip` lies in kernel space.
pub open spec fn in_kernel_space(ip: u64, pointer_size: u32) -> bool {
    ip >= kernel_start(pointer_size)
}

/// The first kernel-space address for traces with `pointer_size`-byte pointers.
pub fn kernel_space_start(pointer_size: u32) -> (r: u64)
    ensures
        r == kernel_start(pointer_size),
{
    if pointer_size == 4 {
        KERNEL_START_32
    } else {
        KERNEL_START_64
    }
}

/// Classifies an instruction pointer as kernel or user space.
pub fn is_kernel_address(ip: u64, pointer_size: u32) -> (r: bool)
    ensures
        r == in_kernel_space(ip, pointer_size),
{
    ip >= kernel_space_start(pointer_size)
}

} // verus!
