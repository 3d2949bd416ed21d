//! Bounds and placements: what the layout engine of the host answers, and how
//! it is held against the topology.
use vstd::prelude::*;

use crate::error::{plain_error, stale_error, stale_id, ControlError, ControlErrorCode, ErrorView};
use crate::plane::{checked, pane_ids};
use crate::topology::{relists, relists_ids, PaneLayout};
use crate::wire::{CellRect, PaneGeometry, WindowBounds};

verus! {

/// Answer of the layout engine: the new tree of a window and its rectangles;
/// for a pane that leaves another window, what is left there; and the pane to
/// focus next.
#[derive(Debug, PartialEq)]
pub struct Placement {
    pub layout: PaneLayout,
    pub rects: Vec<(u64, CellRect)>,
    pub rest: Option<PaneLayout>,
    pub rest_rects: Vec<(u64, CellRect)>,
    pub focus: Option<u64>,
}

pub open spec fn bounds_fault(bounds: WindowBounds) -> Option<ErrorView> {
    if bounds.cols == 0 || bounds.rows == 0 {
        Some(plain_error(ControlErrorCode::TooSmall, "window bounds must be non-zero"@))
    } else {
        None
    }
}

pub fn validate_bounds(bounds: WindowBounds) -> (r: Result<(), ControlError>)
    ensures
        checked(bounds_fault(bounds), r),
{
    if bounds.cols == 0 || bounds.rows == 0 {
        return Err(ControlError::new(ControlErrorCode::TooSmall, "window bounds must be non-zero"));
    }
    Ok(())
}

/// The rectangle that bounds span.
pub fn rect_for(bounds: WindowBounds) -> (r: CellRect)
    ensures
        r.col == 0,
        r.row == 0,
        r.cols == bounds.cols,
        r.rows == bounds.rows,
{
    CellRect { col: 0, row: 0, cols: bounds.cols as usize, rows: bounds.rows as usize }
}

pub open spec fn overflow_view() -> ErrorView {
    plain_error(ControlErrorCode::InvalidRequest, "geometry exceeds wire limits"@)
}

pub fn geometry_overflow() -> (e: ControlError)
    ensures
        e@ == overflow_view(),
{
    ControlError::new(ControlErrorCode::InvalidRequest, "geometry exceeds wire limits")
}

pub open spec fn rect_fits(rect: CellRect) -> bool {
    rect.col <= u32::MAX && rect.row <= u32::MAX && rect.cols <= u32::MAX && rect.rows <= u32::MAX
}

/// A rectangle on the wire.
pub open spec fn wire_rect(pane: u64, rect: CellRect) -> PaneGeometry {
    PaneGeometry {
        pane_id: pane,
        col: rect.col as u32,
        row: rect.row as u32,
        cols: rect.cols as u32,
        rows: rect.rows as u32,
    }
}

pub fn pane_geometry(pane: u64, rect: CellRect) -> (r: Result<PaneGeometry, ControlError>)
    ensures
        rect_fits(rect) ==> r == Ok::<PaneGeometry, ControlError>(wire_rect(pane, rect)),
        !rect_fits(rect) ==> (r matches Err(e) && e@ == overflow_view()),
{
    let limit: usize = u32::MAX as usize;
    if rect.col > limit || rect.row > limit || rect.cols > limit || rect.rows > limit {
        return Err(geometry_overflow());
    }
    Ok(
        PaneGeometry {
            pane_id: pane,
            col: rect.col as u32,
            row: rect.row as u32,
            cols: rect.cols as u32,
            rows: rect.rows as u32,
        },
    )
}

pub open spec fn rects_fit(rects: Seq<(u64, CellRect)>) -> bool {
    forall|i: int| 0 <= i < rects.len() ==> rect_fits((#[trigger] rects[i]).1)
}

pub open spec fn wire_rects(rects: Seq<(u64, CellRect)>) -> Seq<PaneGeometry> {
    Seq::new(rects.len(), |i: int| wire_rect(rects[i].0, rects[i].1))
}

pub open spec fn rect_ids(rects: Seq<(u64, CellRect)>) -> Seq<u64> {
    Seq::new(rects.len(), |i: int| rects[i].0)
}

pub open spec fn misplaced_view() -> ErrorView {
    plain_error(ControlErrorCode::Internal, "layout engine answered for other panes"@)
}

pub fn misplaced() -> (e: ControlError)
    ensures
        e@ == misplaced_view(),
{
    ControlError::new(ControlErrorCode::Internal, "layout engine answered for other panes")
}

/// The geometry of an answer that must place exactly the panes `want`.
pub open spec fn placed(layout: PaneLayout, rects: Seq<(u64, CellRect)>, want: Seq<u64>) -> Result<
    Seq<PaneGeometry>,
    ErrorView,
> {
    if !relists(layout.leaves(), want) || !relists(rect_ids(rects), layout.leaves()) {
        Err(misplaced_view())
    } else if !rects_fit(rects) {
        Err(overflow_view())
    } else {
        Ok(wire_rects(rects))
    }
}

/// A result taken by view.
pub open spec fn geometry_result(r: Result<Vec<PaneGeometry>, ControlError>) -> Result<
    Seq<PaneGeometry>,
    ErrorView,
> {
    match r {
        Ok(v) => Ok(v@),
        Err(e) => Err(e@),
    }
}

pub fn check_placed(layout: &PaneLayout, rects: &Vec<(u64, CellRect)>, want: &Vec<u64>) -> (r:
    Result<Vec<PaneGeometry>, ControlError>)
    ensures
        geometry_result(r) == placed(*layout, rects@, want@),
        r matches Ok(g) ==> relists(pane_ids(g@), layout.leaves()),
{
    let leaves: Vec<u64> = layout.panes();
    let mut ids: Vec<u64> = Vec::new();
    let mut i: usize = 0;
    while i < rects.len()
        invariant
            i <= rects@.len(),
            ids@ =~= rect_ids(rects@).take(i as int),
        decreases rects@.len() - i,
    {
        ids.push(rects[i].0);
        i = i + 1;
    }
    assert(ids@ =~= rect_ids(rects@));
    if !relists_ids(&leaves, want) || !relists_ids(&ids, &leaves) {
        return Err(misplaced());
    }
    let mut g: Vec<PaneGeometry> = Vec::new();
    let mut j: usize = 0;
    while j < rects.len()
        invariant
            j <= rects@.len(),
            ids@ == rect_ids(rects@),
            leaves@ == layout.leaves(),
            relists(leaves@, want@),
            relists(ids@, leaves@),
            g@ =~= wire_rects(rects@).take(j as int),
            forall|k: int| 0 <= k < j ==> rect_fits((#[trigger] rects@[k]).1),
        decreases rects@.len() - j,
    {
        match pane_geometry(rects[j].0, rects[j].1) {
            Ok(entry) => {
                g.push(entry);
            },
            Err(error) => {
                assert(!rect_fits(rects@[j as int].1));
                return Err(error);
            },
        }
        j = j + 1;
    }
    assert(g@ =~= wire_rects(rects@));
    assert(pane_ids(g@) =~= rect_ids(rects@));
    Ok(g)
}

/// The entry of one pane, which must be there.
pub open spec fn is_entry(g: Seq<PaneGeometry>, pane: u64, entry: PaneGeometry) -> bool {
    g.contains(entry) && entry.pane_id == pane
}

/// The entry of a pane; the first one, should there be more.
pub open spec fn entry_of(g: Seq<PaneGeometry>, pane: u64) -> Option<PaneGeometry>
    decreases g.len(),
{
    if g.len() == 0 {
        None
    } else if g[0].pane_id == pane {
        Some(g[0])
    } else {
        entry_of(g.drop_first(), pane)
    }
}

pub proof fn lemma_entry_of(g: Seq<PaneGeometry>, pane: u64)
    ensures
        pane_ids(g).contains(pane) <==> entry_of(g, pane) is Some,
        entry_of(g, pane) matches Some(entry) ==> is_entry(g, pane, entry),
    decreases g.len(),
{
    if g.len() > 0 {
        let rest = g.drop_first();
        lemma_entry_of(rest, pane);
        if g[0].pane_id == pane {
            assert(pane_ids(g)[0] == pane);
            assert(g.contains(g[0]));
        } else {
            if pane_ids(g).contains(pane) {
                let k = choose|k: int| 0 <= k < pane_ids(g).len() && pane_ids(g)[k] == pane;
                assert(pane_ids(rest)[k - 1] == pane);
            }
            if pane_ids(rest).contains(pane) {
                let k = choose|k: int| 0 <= k < pane_ids(rest).len() && pane_ids(rest)[k] == pane;
                assert(pane_ids(g)[k + 1] == pane);
            }
            if let Some(entry) = entry_of(rest, pane) {
                let k = choose|k: int| 0 <= k < rest.len() && rest[k] == entry;
                assert(g[k + 1] == entry);
            }
        }
    }
}

pub fn find_entry(g: &Vec<PaneGeometry>, pane: u64) -> (r: Option<PaneGeometry>)
    ensures
        r == entry_of(g@, pane),
{
    let mut i: usize = 0;
    assert(g@.skip(0) =~= g@);
    while i < g.len()
        invariant
            i <= g@.len(),
            entry_of(g@, pane) == entry_of(g@.skip(i as int), pane),
        decreases g@.len() - i,
    {
        assert(g@.skip(i as int).drop_first() =~= g@.skip(i + 1));
        if g[i].pane_id == pane {
            return Some(g[i]);
        }
        i = i + 1;
    }
    None
}

/// Zero is no id.
pub open spec fn zero_fault(kind: Seq<char>, raw: u64) -> Option<ErrorView> {
    if raw == 0 {
        Some(stale_error(kind, raw))
    } else {
        None
    }
}

pub fn reject_zero(kind: &str, raw: u64) -> (r: Result<(), ControlError>)
    ensures
        checked(zero_fault(kind@, raw), r),
{
    if raw == 0 {
        Err(stale_id(kind, raw))
    } else {
        Ok(())
    }
}

} // verus!
