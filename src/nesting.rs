//! The nesting of boxes inside container boxes: a container's children must
//! fill it exactly, each with a possible size.
use vstd::prelude::*;

use crate::boxes::{be_u32, be_u64, read_u32, read_u64};

verus! {

/// Where a box's children are read from, as mp4 walks them.
pub enum Nest {
    /// Children of an ordinary container.
    Plain,
    /// Children of a metadata item list: item boxes holding value boxes.
    Items,
    /// Children of a metadata item: value boxes carry at least 8 bytes.
    Values,
}

/// Tags of the containers whose children are read one after another.
pub open spec fn is_container(kind: int) -> bool {
    kind == 0x6d6f6f66 || kind == 0x74726166 || kind == 0x6d6f6f76 || kind == 0x7472616b
        || kind == 0x6d646961 || kind == 0x6d696e66 || kind == 0x7374626c || kind == 0x64696e66
        || kind == 0x6d766578 || kind == 0x75647461 || kind == 0x6d657461 || kind == 0x696c7374
}

/// The size of the header of the box at `p`.
pub open spec fn header_len_at(s: Seq<u8>, p: int) -> int {
    if be_u32(s, p) == 1 {
        16
    } else {
        8
    }
}

/// The declared size of the box at `p`.
pub open spec fn size_at(s: Seq<u8>, p: int) -> int {
    if be_u32(s, p) == 1 {
        be_u64(s, p + 8)
    } else {
        be_u32(s, p)
    }
}

/// Where the children of the box at `p`, with header length `h`, begin.
pub open spec fn children_at(s: Seq<u8>, p: int, h: int, n: int) -> int {
    let kind = be_u32(s, p + 4);
    if kind == 0x6d657461 && p + h + 4 <= p + n && be_u32(s, p + h) == 0 {
        p + h + 4
    } else {
        p + h
    }
}

/// The boxes in `s[p..end]` fill it exactly, each with a possible size, and
/// the children of each container among them (by `nest`) do too.
pub open spec fn tiled(s: Seq<u8>, p: int, end: int, nest: Nest) -> bool
    decreases end - p,
{
    if p < 0 || end > s.len() || p > end {
        false
    } else if p == end {
        true
    } else if p + 8 > end {
        false
    } else {
        let h = header_len_at(s, p);
        let n = size_at(s, p);
        let kind = be_u32(s, p + 4);
        if p + h > end || n < h || n > end - p {
            false
        } else {
            let inner = match nest {
                Nest::Plain => if is_container(kind) {
                    if kind == 0x696c7374 {
                        tiled(s, children_at(s, p, h, n), p + n, Nest::Items)
                    } else {
                        tiled(s, children_at(s, p, h, n), p + n, Nest::Plain)
                    }
                } else {
                    true
                },
                Nest::Items => tiled(s, p + h, p + n, Nest::Values),
                Nest::Values => kind != 0x64617461 || n >= h + 8,
            };
            inner && tiled(s, p + n, end, nest)
        }
    }
}

/// The children of the whole box `b` fill it, recursively as above.
pub open spec fn well_nested(b: Seq<u8>) -> bool {
    b.len() >= 8 && b.len() >= header_len_at(b, 0) && tiled(b, header_len_at(b, 0), b.len() as int, Nest::Plain)
}

fn check_tiled(s: &[u8], p0: usize, end: usize, nest: Nest) -> (r: bool)
    requires
        p0 <= end <= s@.len(),
    ensures
        r == tiled(s@, p0 as int, end as int, nest),
    decreases end - p0,
{
    let mut p = p0;
    while p < end
        invariant
            p0 <= p <= end <= s@.len(),
            tiled(s@, p0 as int, end as int, nest) == tiled(s@, p as int, end as int, nest),
        decreases end - p,
    {
        if end - p < 8 {
            return false;
        }
        let size = read_u32(s, p);
        let h: usize = if size == 1 { 16 } else { 8 };
        if end - p < h {
            return false;
        }
        let n: u64 = if size == 1 { read_u64(s, p + 8) } else { size as u64 };
        if n < h as u64 || n > (end - p) as u64 {
            return false;
        }
        let n = n as usize;
        let kind = read_u32(s, p + 4);
        let inner = match nest {
            Nest::Plain => {
                if kind == 0x6d6f6f66 || kind == 0x74726166 || kind == 0x6d6f6f76 || kind == 0x7472616b
                    || kind == 0x6d646961 || kind == 0x6d696e66 || kind == 0x7374626c || kind == 0x64696e66
                    || kind == 0x6d766578 || kind == 0x75647461 || kind == 0x6d657461 || kind == 0x696c7374 {
                    let mut c = p + h;
                    if kind == 0x6d657461 && h + 4 <= n && read_u32(s, p + h) == 0 {
                        c = p + h + 4;
                    }
                    if kind == 0x696c7374 {
                        check_tiled(s, c, p + n, Nest::Items)
                    } else {
                        check_tiled(s, c, p + n, Nest::Plain)
                    }
                } else {
                    true
                }
            },
            Nest::Items => check_tiled(s, p + h, p + n, Nest::Values),
            Nest::Values => kind != 0x64617461 || n >= h + 8,
        };
        if !inner {
            return false;
        }
        p = p + n;
    }
    true
}

/// Whether the children of the whole box `b` fill it, recursively.
pub fn check_nested(b: &[u8]) -> (r: bool)
    ensures
        r == well_nested(b@),
{
    if b.len() < 8 {
        return false;
    }
    let h: usize = if read_u32(b, 0) == 1 { 16 } else { 8 };
    if b.len() < h {
        return false;
    }
    check_tiled(b, h, b.len(), Nest::Plain)
}

} // verus!
