//! The range-scan state machine: chunking, the adaptive termination
//! heuristic, source-port rotation, and the discovery message format.
//!
//! A worker samples a start address, then scans forward in chunks until
//! either the scanned count reaches the configured maximum or the
//! consecutive-unproductive counter reaches its threshold.  The network
//! phases around these decisions live outside the library; the decisions
//! themselves are verified here.

use vstd::prelude::*;
use vstd::string::StringExecFns;

verus! {

/// Tuning of one range scan.
#[derive(Clone, Copy, Debug)]
pub struct ScanParams {
    pub max_range_size: usize,
    pub consecutive_threshold: usize,
    pub chunk_size: usize,
}

impl ScanParams {
    /// A chunk must make progress for a range scan to terminate.
    pub open spec fn wf(self) -> bool {
        self.chunk_size >= 1
    }
}

/// Per-worker mutable state for the current range.
#[derive(Clone, Copy, Debug)]
pub struct WorkerState {
    pub current_ip: u32,
    pub scanned: usize,
    pub found: usize,
    pub consecutive_empty: usize,
}

/// The unproductive counter after one chunk: it grows by the chunk size
/// after a chunk with neither an open port nor a found server, and
/// resets to zero otherwise.
pub open spec fn chunk_unproductive_after(prev: int, chunk: int, open: int, found: int) -> int {
    if open == 0 && found == 0 {
        prev + chunk
    } else {
        0
    }
}

/// Law: any chunk with at least one open port resets the unproductive
/// counter to zero, independent of whether any handshake succeeded.
pub proof fn lemma_unproductive_resets_on_open(prev: int, chunk: int, open: int, found: int)
    requires
        open > 0,
    ensures
        chunk_unproductive_after(prev, chunk, open, found) == 0,
{
}

impl WorkerState {
    /// Fresh state at the start of a range.
    pub fn new_range(start_ip: u32) -> (r: WorkerState)
        ensures
            r.current_ip == start_ip,
            r.scanned == 0,
            r.found == 0,
            r.consecutive_empty == 0,
    {
        WorkerState { current_ip: start_ip, scanned: 0, found: 0, consecutive_empty: 0 }
    }

    /// The range scan goes on while the scanned count is under the
    /// maximum and the unproductive counter under the threshold.
    pub fn should_continue(&self, params: &ScanParams) -> (r: bool)
        ensures
            r == (self.scanned < params.max_range_size && self.consecutive_empty
                < params.consecutive_threshold),
    {
        self.scanned < params.max_range_size && self.consecutive_empty
            < params.consecutive_threshold
    }

    /// Size of the next chunk: the configured chunk size, capped by what
    /// is left of the range.
    pub fn next_chunk_size(&self, params: &ScanParams) -> (r: usize)
        requires
            self.scanned < params.max_range_size,
        ensures
            r == vstd::math::min(
                params.chunk_size as int,
                params.max_range_size - self.scanned,
            ),
            params.wf() ==> 1 <= r <= params.chunk_size,
    {
        let remaining = params.max_range_size - self.scanned;
        if params.chunk_size < remaining {
            params.chunk_size
        } else {
            remaining
        }
    }

    /// Account one finished chunk: the scanned and found counters grow,
    /// the current address moves past the chunk, and the unproductive
    /// counter follows [`chunk_unproductive_after`].
    pub fn apply_chunk_result(
        &mut self,
        chunk_size: usize,
        open_count: usize,
        found_count: usize,
    )
        requires
            old(self).scanned + chunk_size <= usize::MAX,
            old(self).consecutive_empty + chunk_size <= usize::MAX,
            old(self).found + found_count <= usize::MAX,
            chunk_size <= 0xFFFF_FFFF,
        ensures
            final(self).scanned == old(self).scanned + chunk_size,
            final(self).found == old(self).found + found_count,
            final(self).current_ip == crate::network::advance_spec(
                old(self).current_ip,
                chunk_size as u32,
            ),
            final(self).consecutive_empty == chunk_unproductive_after(
                old(self).consecutive_empty as int,
                chunk_size as int,
                open_count as int,
                found_count as int,
            ),
    {
        self.scanned = self.scanned + chunk_size;
        self.found = self.found + found_count;
        if open_count == 0 && found_count == 0 {
            self.consecutive_empty = self.consecutive_empty + chunk_size;
        } else {
            self.consecutive_empty = 0;
        }
        self.current_ip = crate::network::increment_ip(self.current_ip, chunk_size as u32);
    }
}

/// The addresses of one chunk: `count` consecutive addresses from
/// `start`, with wraparound.
pub fn chunk_addresses(start: u32, count: usize) -> (r: Vec<u32>)
    requires
        count <= 0xFFFF_FFFF,
    ensures
        r@.len() == count,
        forall|i: int|
            0 <= i < count ==> r@[i] == crate::network::advance_spec(start, i as u32),
{
    let mut v: Vec<u32> = Vec::new();
    let mut i: usize = 0;
    while i < count
        invariant
            0 <= i <= count,
            count <= 0xFFFF_FFFF,
            v@.len() == i,
            forall|j: int|
                0 <= j < i ==> v@[j] == crate::network::advance_spec(start, j as u32),
        decreases count - i,
    {
        v.push(crate::network::increment_ip(start, i as u32));
        i = i + 1;
    }
    v
}

/// The base of a worker's private source-port block.
pub fn worker_port_base(base_source_port: u16, task_id: u16, port_range_per_task: u16) -> (r:
    u16)
    requires
        base_source_port + task_id * port_range_per_task <= u16::MAX,
    ensures
        r == base_source_port + task_id * port_range_per_task,
{
    base_source_port + task_id * port_range_per_task
}

/// The next source port of the cyclic rotation, with the advanced
/// (wrapping) counter.
pub fn next_source_port(base: u16, counter: u16) -> (r: (u16, u16))
    requires
        base + counter % 255 <= u16::MAX,
    ensures
        r.0 == base + counter % 255,
        r.1 == (counter + 1) % 0x1_0000,
{
    (base + counter % 255, counter.wrapping_add(1))
}

/// The discovery message a worker emits:
/// `[FOUND] ip:port - online/max - version - description`.
pub open spec fn found_message_spec(
    ip: Seq<char>,
    port: u16,
    online: u32,
    maximum: u32,
    version: Seq<char>,
    description: Seq<char>,
) -> Seq<char> {
    "[FOUND] "@ + ip + ":"@ + crate::text::dec_str(port as nat) + " - "@
        + crate::text::dec_str(online as nat) + "/"@ + crate::text::dec_str(maximum as nat)
        + " - "@ + version + " - "@ + description
}

/// Format the discovery message for a found server.
pub fn format_found_message(
    ip: &str,
    port: u16,
    online: u32,
    maximum: u32,
    version: &str,
    description: &str,
) -> (r: String)
    ensures
        r@ == found_message_spec(ip@, port, online, maximum, version@, description@),
{
    let mut s = String::from_str("[FOUND] ");
    s.append(ip);
    s.append(":");
    let p = crate::text::u64_to_string(port as u64);
    s.append(p.as_str());
    s.append(" - ");
    let on = crate::text::u64_to_string(online as u64);
    s.append(on.as_str());
    s.append("/");
    let mx = crate::text::u64_to_string(maximum as u64);
    s.append(mx.as_str());
    s.append(" - ");
    s.append(version);
    s.append(" - ");
    s.append(description);
    proof {
        assert(s@ =~= found_message_spec(ip@, port, online, maximum, version@, description@));
    }
    s
}

} // verus!
