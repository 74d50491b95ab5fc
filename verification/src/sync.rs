//! Frame synchronization.
//!
//! The device prefixes each session with at least three consecutive `0xFF`
//! marker bytes. Synchronization reads one byte at a time, counting
//! consecutive markers and resetting the count on any other byte; it
//! completes the instant the count reaches three. Marker bytes in earlier,
//! shorter runs do not count: only three in a row do.

use vstd::prelude::*;

verus! {

/// The marker byte whose triple run opens a session.
pub const MARKER_BYTE: u8 = 0xFF;

/// Marker bytes in a row needed to synchronize.
pub const MARKER_RUN: u8 = 3;

/// True when a run of three consecutive marker bytes, lying at or after
/// `from`, ends exactly at index `i` (exclusive) of `s`.
pub open spec fn marker_run_end(s: Seq<u8>, from: int, i: int) -> bool {
    &&& from + 3 <= i <= s.len()
    &&& s[i - 3] == MARKER_BYTE
    &&& s[i - 2] == MARKER_BYTE
    &&& s[i - 1] == MARKER_BYTE
}

/// The consecutive-marker count after one more byte.
pub open spec fn sync_next(count: int, byte: u8) -> int {
    if byte == MARKER_BYTE {
        count + 1
    } else {
        0
    }
}

/// Running synchronizer state: the count of consecutive marker bytes seen,
/// fed one byte at a time by the caller that owns the byte source.
pub struct SyncState {
    /// Consecutive marker bytes observed so far, saturating at three.
    pub count: u8,
}

impl SyncState {
    /// The state never counts past the required run length.
    pub open spec fn wf(&self) -> bool {
        self.count <= MARKER_RUN
    }

    /// Synchronization is complete: three consecutive markers were seen.
    pub open spec fn is_synced(&self) -> bool {
        self.count == MARKER_RUN
    }

    /// A fresh synchronizer, no markers seen yet.
    pub fn new() -> (s: SyncState)
        ensures
            s.wf(),
            s.count == 0,
            !s.is_synced(),
    {
        SyncState { count: 0 }
    }

    /// Feed one byte; returns whether synchronization just completed.
    pub fn step(&mut self, byte: u8) -> (done: bool)
        requires
            old(self).wf(),
            !old(self).is_synced(),
        ensures
            final(self).wf(),
            final(self).count == sync_next(old(self).count as int, byte),
            done == final(self).is_synced(),
    {
        if byte == MARKER_BYTE {
            self.count = self.count + 1;
        } else {
            self.count = 0;
        }
        self.count == MARKER_RUN
    }
}

/// Scan `bytes` from index `from` for the first run of three consecutive
/// marker bytes, returning the index just past that run — the position where
/// binary header lines begin — or `None` when no such run lies in the input.
pub fn find_sync(bytes: &Vec<u8>, from: usize) -> (r: Option<usize>)
    requires
        from <= bytes@.len(),
    ensures
        match r {
            Some(i) => {
                &&& marker_run_end(bytes@, from as int, i as int)
                &&& forall|j: int| j < i ==> !marker_run_end(bytes@, from as int, j)
            },
            None => forall|j: int| !marker_run_end(bytes@, from as int, j),
        },
{
    let ghost s = bytes@;
    let mut p: usize = from;
    let mut count: u8 = 0;
    loop
        invariant
            from <= p <= s.len(),
            s == bytes@,
            count <= 2,
            count as int <= p - from,
            forall|k: int| p - count <= k < p ==> s[k] == MARKER_BYTE,
            p - count - 1 >= from ==> s[p - count - 1] != MARKER_BYTE,
            forall|j: int| j <= p ==> !marker_run_end(s, from as int, j),
        decreases s.len() - p,
    {
        if p == bytes.len() {
            return None;
        }
        let b = bytes[p];
        if b == MARKER_BYTE {
            count = count + 1;
            if count == MARKER_RUN {
                return Some(p + 1);
            }
        } else {
            count = 0;
        }
        p = p + 1;
    }
}

} // verus!
