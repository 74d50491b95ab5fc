//! Header skipping.
//!
//! After synchronization the device sends ASCII header lines, each
//! terminated by a newline. They are diagnostic text and are discarded; the
//! stream switches to binary mode immediately after the first line that
//! contains the substring `start` (case-sensitive). Lines are handled here
//! as raw bytes, exactly as they arrive on the wire.

use vstd::prelude::*;
use vstd::slice::slice_subrange;

verus! {

/// The line terminator.
pub const NEWLINE: u8 = 10;

/// True when the bytes of `start` stand at index `i` of `s`.
pub open spec fn start_at(s: Seq<u8>, i: int) -> bool {
    &&& 0 <= i
    &&& i + 5 <= s.len()
    &&& s[i] == 115  // 's'
    &&& s[i + 1] == 116  // 't'
    &&& s[i + 2] == 97  // 'a'
    &&& s[i + 3] == 114  // 'r'
    &&& s[i + 4] == 116  // 't'
}

/// True when `s` contains `start` as a substring.
pub open spec fn contains_start(s: Seq<u8>) -> bool {
    exists|i: int| start_at(s, i)
}

/// Whether one header line is the sentinel: contains `start` anywhere.
pub fn line_contains_start(line: &[u8]) -> (b: bool)
    ensures
        b == contains_start(line@),
{
    if line.len() < 5 {
        assert(forall|i: int| !start_at(line@, i));
        return false;
    }
    let mut i: usize = 0;
    while i <= line.len() - 5
        invariant
            line@.len() >= 5,
            i <= line@.len() - 4,
            forall|j: int| 0 <= j < i ==> !start_at(line@, j),
        decreases line@.len() - i,
    {
        if line[i] == 115 && line[i + 1] == 116 && line[i + 2] == 97 && line[i + 3] == 114
            && line[i + 4] == 116 {
            assert(start_at(line@, i as int));
            return true;
        }
        i = i + 1;
    }
    assert(forall|j: int| j >= i ==> !start_at(line@, j));
    false
}

/// The index of the first line that contains `start`, all earlier lines
/// being plain header text; `None` when no line is the sentinel.
pub fn skip_headers(lines: &Vec<Vec<u8>>) -> (r: Option<usize>)
    ensures
        match r {
            Some(i) => {
                &&& i < lines@.len()
                &&& contains_start(lines@[i as int]@)
                &&& forall|j: int| 0 <= j < i ==> !contains_start(lines@[j]@)
            },
            None => forall|j: int| 0 <= j < lines@.len() ==> !contains_start(lines@[j]@),
        },
{
    let mut i: usize = 0;
    while i < lines.len()
        invariant
            i <= lines@.len(),
            forall|j: int| 0 <= j < i ==> !contains_start(lines@[j]@),
        decreases lines@.len() - i,
    {
        if line_contains_start(lines[i].as_slice()) {
            return Some(i);
        }
        i = i + 1;
    }
    None
}

/// One step of the header scan over raw bytes: `line_start` opens the
/// current line, `i` is the scan position. Yields the index just past the
/// newline of the first sentinel line, or `None` when the input ends before
/// a terminated sentinel line.
pub open spec fn header_end_scan(s: Seq<u8>, line_start: int, i: int) -> Option<int>
    decreases s.len() - i,
{
    if !(0 <= line_start <= i <= s.len()) {
        None
    } else if i == s.len() {
        None
    } else if s[i] == NEWLINE {
        if contains_start(s.subrange(line_start, i + 1)) {
            Some(i + 1)
        } else {
            header_end_scan(s, i + 1, i + 1)
        }
    } else {
        header_end_scan(s, line_start, i + 1)
    }
}

/// Where binary mode begins: the index just past the newline of the first
/// header line containing `start`, scanning from `from`.
pub open spec fn header_end(s: Seq<u8>, from: int) -> Option<int> {
    header_end_scan(s, from, from)
}

/// Consume header lines from `from` until and including the first one that
/// contains `start`; return the index where binary decoding begins.
pub fn skip_header_bytes(bytes: &Vec<u8>, from: usize) -> (r: Option<usize>)
    requires
        from <= bytes@.len(),
    ensures
        match r {
            Some(i) => {
                &&& from <= i <= bytes@.len()
                &&& header_end(bytes@, from as int) == Some(i as int)
            },
            None => header_end(bytes@, from as int) is None,
        },
{
    let ghost s = bytes@;
    let mut line_start: usize = from;
    let mut i: usize = from;
    loop
        invariant
            s == bytes@,
            from <= line_start <= i <= s.len(),
            header_end(s, from as int) == header_end_scan(s, line_start as int, i as int),
        decreases s.len() - i,
    {
        if i == bytes.len() {
            return None;
        }
        let b = bytes[i];
        if b == NEWLINE {
            let line = slice_subrange(bytes.as_slice(), line_start, i + 1);
            if line_contains_start(line) {
                return Some(i + 1);
            }
            line_start = i + 1;
        }
        i = i + 1;
    }
}

} // verus!
