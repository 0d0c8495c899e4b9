//! Cursor-pagination translator.
//!
//! Maps a relay-style `after`/`before`/`first`/`last` request onto the
//! upstream's `start`/`count` window, and turns the fetched window back
//! into a connection of edges with opaque cursors and accurate
//! has-more signalling. The window always asks for one lookahead item
//! beyond the page; that item only feeds `has_next_page` and is never
//! returned as an edge.

use crate::cursor::{
    cursor_shape, dec_rep, decode_cursor, encode_cursor, val_of, PaginationError,
};
use vstd::math::{max, min};
use vstd::prelude::*;

verus! {

/// Largest number of edges one page may hold.
pub const MAX_PAGE_SIZE: u64 = 24;

/// Exclusive end of the window when no `before` cursor narrows it.
pub const DEFAULT_UPPER_BOUND: u64 = 10000;

/// An upstream offset window: fetch `fetch_count` items starting at
/// absolute index `start`. `fetch_count` includes the lookahead item.
#[derive(Clone, Copy, PartialEq, Eq, Structural, Debug)]
pub struct PaginationWindow {
    pub start: u64,
    pub fetch_count: u64,
}

impl PaginationWindow {
    /// Every planned window asks for at least the lookahead item, never
    /// more than a full page plus the lookahead, and stays addressable.
    pub open spec fn wf(self) -> bool {
        &&& 1 <= self.fetch_count <= MAX_PAGE_SIZE + 1
        &&& self.start + self.fetch_count <= u64::MAX as int + 1
    }
}

/// First absolute index of the requested range: just past `after`,
/// or the head of the sequence.
pub open spec fn spec_start_base(after: Option<u64>) -> int {
    match after {
        Some(a) => min(a as int + 1, u64::MAX as int),
        None => 0,
    }
}

/// Exclusive end of the requested range before `first` narrows it:
/// the `before` cursor, or the implementation ceiling, and never in
/// front of the start.
pub open spec fn spec_end_base(after: Option<u64>, before: Option<u64>) -> int {
    let e = match before {
        Some(b) => b as int,
        None => DEFAULT_UPPER_BOUND as int,
    };
    max(e, spec_start_base(after))
}

/// Exclusive end once a `first` limit (clamped to the page maximum)
/// is applied from the front.
pub open spec fn spec_end(after: Option<u64>, before: Option<u64>, first: Option<u64>) -> int {
    let s = spec_start_base(after);
    let e = spec_end_base(after, before);
    match first {
        Some(f) => min(s + min(f as int, MAX_PAGE_SIZE as int), e),
        None => e,
    }
}

/// Start once a `last` limit (clamped to the page maximum) is applied
/// from the tail.
pub open spec fn spec_start(
    after: Option<u64>,
    before: Option<u64>,
    first: Option<u64>,
    last: Option<u64>,
) -> int {
    let s = spec_start_base(after);
    let e = spec_end(after, before, first);
    match last {
        Some(l) => {
            let lc = min(l as int, MAX_PAGE_SIZE as int);
            if lc > e - s {
                s
            } else {
                e - lc
            }
        },
        None => s,
    }
}

/// Number of items to request: the window plus the lookahead item,
/// capped at a full page plus the lookahead.
pub open spec fn spec_fetch_count(
    after: Option<u64>,
    before: Option<u64>,
    first: Option<u64>,
    last: Option<u64>,
) -> int {
    min(
        spec_end(after, before, first) - spec_start(after, before, first, last) + 1,
        MAX_PAGE_SIZE as int + 1,
    )
}

/// Translate the four pagination arguments, with cursors already
/// decoded, into the upstream offset window.
pub fn plan_window(
    after: Option<u64>,
    before: Option<u64>,
    first: Option<u64>,
    last: Option<u64>,
) -> (w: PaginationWindow)
    ensures
        w.start == spec_start(after, before, first, last),
        w.fetch_count == spec_fetch_count(after, before, first, last),
        w.wf(),
{
    let start_base: u64 = match after {
        Some(a) => if a == u64::MAX {
            u64::MAX
        } else {
            a + 1
        },
        None => 0,
    };
    let mut end: u64 = match before {
        Some(b) => b,
        None => DEFAULT_UPPER_BOUND,
    };
    if end < start_base {
        end = start_base;
    }
    if let Some(f) = first {
        let fc: u64 = if f > MAX_PAGE_SIZE {
            MAX_PAGE_SIZE
        } else {
            f
        };
        if end - start_base > fc {
            end = start_base + fc;
        }
    }
    let mut start: u64 = start_base;
    if let Some(l) = last {
        let lc: u64 = if l > MAX_PAGE_SIZE {
            MAX_PAGE_SIZE
        } else {
            l
        };
        if lc <= end - start_base {
            start = end - lc;
        }
    }
    let fetch_count: u64 = if end - start >= MAX_PAGE_SIZE + 1 {
        MAX_PAGE_SIZE + 1
    } else {
        end - start + 1
    };
    PaginationWindow { start, fetch_count }
}

/// Does an optional cursor argument decode?
pub open spec fn opt_cursor_ok(c: Option<&str>) -> bool {
    match c {
        Some(s) => cursor_shape(s@) && val_of(s@) <= u64::MAX,
        None => true,
    }
}

/// The index an optional cursor argument decodes to.
pub open spec fn opt_cursor_val(c: Option<&str>) -> Option<u64> {
    match c {
        Some(s) => Some(val_of(s@) as u64),
        None => None,
    }
}

/// Decode the cursor arguments and plan the upstream window.
///
/// A malformed `after` or `before` cursor is a client error; nothing is
/// planned for it.
pub fn plan_page(
    after: Option<&str>,
    before: Option<&str>,
    first: Option<u64>,
    last: Option<u64>,
) -> (r: Result<PaginationWindow, PaginationError>)
    ensures
        r is Ok <==> opt_cursor_ok(after) && opt_cursor_ok(before),
        r matches Ok(w) ==> {
            &&& w.start == spec_start(opt_cursor_val(after), opt_cursor_val(before), first, last)
            &&& w.fetch_count == spec_fetch_count(
                opt_cursor_val(after),
                opt_cursor_val(before),
                first,
                last,
            )
            &&& w.wf()
        },
        r matches Err(e) ==> e == PaginationError::InvalidCursor,
{
    let after_idx: Option<u64> = match after {
        Some(s) => match decode_cursor(s) {
            Ok(n) => Some(n),
            Err(e) => {
                return Err(e);
            },
        },
        None => None,
    };
    let before_idx: Option<u64> = match before {
        Some(s) => match decode_cursor(s) {
            Ok(n) => Some(n),
            Err(e) => {
                return Err(e);
            },
        },
        None => None,
    };
    Ok(plan_window(after_idx, before_idx, first, last))
}

/// One edge of a connection: a node and the opaque cursor of its
/// absolute position.
pub struct Edge<T> {
    pub cursor: String,
    pub node: T,
}

/// A page of edges plus pagination metadata.
pub struct Connection<T> {
    pub has_previous_page: bool,
    pub has_next_page: bool,
    pub edges: Vec<Edge<T>>,
}

/// Turn the items the upstream returned for a window into a connection.
///
/// At most `fetch_count - 1` items become edges; the lookahead item is
/// dropped and only decides `has_next_page`. Edge `i` carries the cursor
/// of absolute index `start + i`.
pub fn build_connection<T>(w: &PaginationWindow, items: Vec<T>) -> (c: Connection<T>)
    requires
        w.wf(),
    ensures
        c.has_previous_page == (w.start > 0),
        c.has_next_page == (items@.len() == w.fetch_count),
        c.edges@.len() == min(items@.len() as int, w.fetch_count - 1),
        forall|i: int|
            0 <= i < c.edges@.len() ==> #[trigger] c.edges@[i].node == items@[i],
        forall|i: int|
            0 <= i < c.edges@.len() ==> (#[trigger] c.edges@[i].cursor)@ == dec_rep(
                (w.start + i) as nat,
            ),
{
    let ghost orig = items@;
    let mut rest = items;
    let total = rest.len();
    let has_previous_page = w.start > 0;
    let has_next_page = total as u64 == w.fetch_count;
    let cap: u64 = w.fetch_count - 1;
    let mut edges: Vec<Edge<T>> = Vec::new();
    while rest.len() > 0 && (edges.len() as u64) < cap
        invariant
            w.wf(),
            cap == w.fetch_count - 1,
            edges@.len() <= cap,
            edges@.len() + rest@.len() == orig.len(),
            rest@ =~= orig.subrange(edges@.len() as int, orig.len() as int),
            forall|i: int| 0 <= i < edges@.len() ==> #[trigger] edges@[i].node == orig[i],
            forall|i: int|
                0 <= i < edges@.len() ==> (#[trigger] edges@[i].cursor)@ == dec_rep(
                    (w.start + i) as nat,
                ),
        decreases rest@.len(),
    {
        let node = rest.remove(0);
        let cursor = encode_cursor(w.start + edges.len() as u64);
        edges.push(Edge { cursor, node });
    }
    Connection { has_previous_page, has_next_page, edges }
}

/// Turn a fully known list — a match's teams, a match's players —
/// into a connection: every item becomes an edge carrying the cursor
/// of its own position, and no page is cut off in either direction.
pub fn full_connection<T>(items: Vec<T>) -> (c: Connection<T>)
    ensures
        !c.has_previous_page,
        !c.has_next_page,
        c.edges@.len() == items@.len(),
        forall|i: int| 0 <= i < c.edges@.len() ==> #[trigger] c.edges@[i].node == items@[i],
        forall|i: int|
            0 <= i < c.edges@.len() ==> (#[trigger] c.edges@[i].cursor)@ == dec_rep(i as nat),
{
    let ghost orig = items@;
    let mut rest = items;
    let mut edges: Vec<Edge<T>> = Vec::new();
    while rest.len() > 0
        invariant
            edges@.len() + rest@.len() == orig.len(),
            rest@ =~= orig.subrange(edges@.len() as int, orig.len() as int),
            forall|i: int| 0 <= i < edges@.len() ==> #[trigger] edges@[i].node == orig[i],
            forall|i: int|
                0 <= i < edges@.len() ==> (#[trigger] edges@[i].cursor)@ == dec_rep(i as nat),
        decreases rest@.len(),
    {
        let node = rest.remove(0);
        let cursor = encode_cursor(edges.len() as u64);
        edges.push(Edge { cursor, node });
    }
    Connection { has_previous_page: false, has_next_page: false, edges }
}

/// Items the upstream hands back for a window, out of `total` existing:
/// the window clipped to what exists.
pub open spec fn returned_count(start: int, fetch_count: int, total: int) -> int {
    min(fetch_count, max(total - start, 0))
}

/// Forward pagination law. For a request of the `first` items after a
/// cursor, within the implementation ceiling: the page holds exactly
/// `min(first, remaining)` edges, `has_next_page` signals precisely
/// whether more than `first` items existed beyond the cursor, and
/// `has_previous_page` signals precisely whether the page starts past
/// the head.
pub proof fn lemma_forward_page(after: Option<u64>, first: u64, total: int)
    requires
        first <= MAX_PAGE_SIZE,
        total >= 0,
        after matches Some(a) ==> a < total,
        spec_start_base(after) + first <= DEFAULT_UPPER_BOUND,
    ensures
        ({
            let s = spec_start(after, None, Some(first), None);
            let fc = spec_fetch_count(after, None, Some(first), None);
            let returned = returned_count(s, fc, total);
            &&& s == spec_start_base(after)
            &&& fc == first + 1
            &&& min(returned, fc - 1) == min(first as int, total - s)
            &&& (returned == fc <==> total - s > first)
            &&& (s > 0 <==> after is Some)
        }),
{
}

/// Backward pagination law, the mirror of the forward one: for a
/// request of the `last` items before a valid cursor, the page holds
/// exactly `min(last, before)` edges, `has_previous_page` signals
/// precisely whether items remain in front of the page, and
/// `has_next_page` signals precisely whether the cursor's own item
/// still exists.
pub proof fn lemma_backward_page(before: u64, last: u64, total: int)
    requires
        last <= MAX_PAGE_SIZE,
        before <= total,
    ensures
        ({
            let s = spec_start(None, Some(before), None, Some(last));
            let fc = spec_fetch_count(None, Some(before), None, Some(last));
            let returned = returned_count(s, fc, total);
            &&& s == before - min(last as int, before as int)
            &&& fc == min(last as int, before as int) + 1
            &&& min(returned, fc - 1) == min(last as int, before as int)
            &&& (returned == fc <==> total > before)
            &&& (s > 0 <==> before > last)
        }),
{
}

} // verus!
