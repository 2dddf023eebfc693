use std::collections::VecDeque;
use vstd::prelude::*;

verus! {

/// A bounded history that keeps the most recent items first.
#[derive(Debug, Default)]
pub struct RingBuffer<T> {
    pub buf: VecDeque<T>,
    pub capacity: usize,
}

/// What the buffer holds after `item` is pushed onto `buf` with limit `capacity`:
/// the new item goes in front, and the oldest one leaves when the buffer was full.
/// (A buffer of capacity 0 is never "full" in that sense: it has nothing to drop.)
pub open spec fn ring_push<T>(buf: Seq<T>, capacity: nat, item: T) -> Seq<T> {
    if buf.len() == capacity && capacity > 0 {
        seq![item] + buf.drop_last()
    } else {
        seq![item] + buf
    }
}

impl<T> RingBuffer<T> {
    /// An empty buffer that will hold at most `capacity` items.
    pub fn new(capacity: usize) -> (r: Self)
        ensures
            r.buf@ == Seq::<T>::empty(),
            r.capacity == capacity,
    {
        Self { buf: VecDeque::with_capacity(capacity), capacity }
    }

    /// Puts `item` in front; when the buffer already holds `capacity` items the
    /// oldest (last) one is dropped first.
    pub fn push(&mut self, item: T)
        ensures
            final(self).capacity == old(self).capacity,
            final(self).buf@ == ring_push(old(self).buf@, old(self).capacity as nat, item),
    {
        if self.buf.len() == self.capacity {
            self.buf.pop_back();
        }
        self.buf.push_front(item);
    }
}

/// The CPU time one process had used at the last sample, in clock ticks.
#[derive(Debug, Clone, Copy, PartialEq, Eq)]
pub struct ProcessCpuTime {
    pub user_time: u64,
    pub system_time: u64,
}

/// The counters of one CPU line of `/proc/stat` at the last sample, in clock ticks.
#[derive(Debug, Clone, Copy, PartialEq, Eq)]
pub struct CpuUsageState {
    pub work_time: u64,
    pub total_time: u64,
}

/// The figures shown for one process. The two percentages are `f32` values
/// kept as their bit patterns (`f32::to_bits`), which is all this library
/// needs of them: they are only carried, and ordered by `f32::total_cmp`.
#[derive(Debug, Default, Clone, Copy, PartialEq, Eq)]
pub struct ProcessStatus {
    pub vm_size: u64,
    pub vm_rss: u64,
    pub rss_shem: u64,
    pub rss_proc_bits: u32,
    pub cpu_usage_bits: u32,
    pub uptime: u64,
}

/// One row of the process table.
#[derive(Debug, Default, Clone)]
pub struct ProcessInfo {
    pub command: String,
    pub pid: u64,
    pub parent_pid: Option<u64>,
    pub status: ProcessStatus,
    /// Depth below pid 1 in the tree view (0 in the list view).
    pub pid_lvl: u64,
}

impl ProcessInfo {
    /// A copy of this row.
    pub fn duplicate(&self) -> (r: Self)
        ensures
            r == *self,
    {
        ProcessInfo {
            command: self.command.clone(),
            pid: self.pid,
            parent_pid: self.parent_pid,
            status: self.status,
            pid_lvl: self.pid_lvl,
        }
    }
}

/// The recent history of the watched process.
#[derive(Debug)]
pub struct ProcessHistory {
    pub pid: u64,
    pub history: RingBuffer<ProcessStatus>,
}

} // verus!
