//! Memory-management and task-scheduling core of a small x86-64 kernel:
//! a bump allocator over the firmware memory map, guard-paged stack
//! allocation, and the bookkeeping of a cooperative task executor.

pub mod memory;
pub mod multitasking;
pub mod task;
