//! The reference points of one image tab: adding, moving, editing and
//! deleting them, the labels given to new points, and whether the tab's
//! homography must be recomputed.

use vstd::prelude::*;
use crate::decimal::{decimal, push_decimal, lemma_decimal_injective};
use crate::project::PointRecord;

verus! {

/// A homography needs at least this many correspondences.
pub const MIN_POINTS: usize = 4;

/// The label of the `n`-th point added since the list was last emptied.
pub open spec fn point_label(n: nat) -> Seq<char> {
    seq!['P'] + decimal(n)
}

/// The abstract state of a tab's points.
pub struct PointsView {
    pub points: Seq<PointRecord>,
    pub next_label: nat,
    pub dirty: bool,
}

/// The reference points of one tab, the number the next new point is
/// labelled with, and whether they changed since the last recomputation.
pub struct PointSet {
    points: Vec<PointRecord>,
    next_label: usize,
    dirty: bool,
}

impl View for PointSet {
    type V = PointsView;

    closed spec fn view(&self) -> PointsView {
        PointsView { points: self.points@, next_label: self.next_label as nat, dirty: self.dirty }
    }
}

/// The record of point `p` with its pixel position replaced.
pub open spec fn with_pixel(p: PointRecord, u: u64, v: u64) -> PointRecord {
    PointRecord { pixel_u: u, pixel_v: v, ..p }
}

/// The record of point `p` with its world position replaced.
pub open spec fn with_world(p: PointRecord, x: u64, y: u64) -> PointRecord {
    PointRecord { world_x: x, world_y: y, ..p }
}

/// The text `P` followed by the decimal digits of `n`.
fn label_string(n: usize) -> (s: String)
    ensures
        s@ == point_label(n as nat),
{
    let mut s = String::from_str("P");
    proof {
        reveal_strlit("P");
    }
    push_decimal(&mut s, n);
    s
}

impl PointSet {
    /// No points; the first point added is labelled `P1`.
    pub fn new() -> (s: PointSet)
        ensures
            s@ == (PointsView { points: Seq::empty(), next_label: 1, dirty: false }),
    {
        PointSet { points: Vec::new(), next_label: 1, dirty: false }
    }

    /// The points of a tab read from a project file; new points are
    /// labelled from one past their number.
    pub fn from_records(points: Vec<PointRecord>) -> (s: PointSet)
        requires
            points@.len() < usize::MAX,
        ensures
            s@ == (PointsView { points: points@, next_label: points@.len() + 1, dirty: false }),
    {
        let n = points.len();
        PointSet { points, next_label: n + 1, dirty: false }
    }

    /// The points, in the order they were added.
    pub fn points(&self) -> (p: &Vec<PointRecord>)
        ensures
            p@ == self@.points,
    {
        &self.points
    }

    /// The number the next new point is labelled with.
    pub fn next_label(&self) -> (n: usize)
        ensures
            n == self@.next_label,
    {
        self.next_label
    }

    /// Number of points.
    pub fn len(&self) -> (n: usize)
        ensures
            n == self@.points.len(),
    {
        self.points.len()
    }

    /// The points are enough to solve for a homography.
    pub fn has_enough_points(&self) -> (b: bool)
        ensures
            b == (self@.points.len() >= MIN_POINTS),
    {
        self.points.len() >= MIN_POINTS
    }

    /// Whether the points changed since the last recomputation.
    pub fn is_dirty(&self) -> (d: bool)
        ensures
            d == self@.dirty,
    {
        self.dirty
    }

    /// Asks for a recomputation although no point changed.
    pub fn mark_dirty(&mut self)
        ensures
            final(self)@ == (PointsView { dirty: true, ..old(self)@ }),
    {
        self.dirty = true;
    }

    /// Records that the homography has been recomputed.
    pub fn clear_dirty(&mut self)
        ensures
            final(self)@ == (PointsView { dirty: false, ..old(self)@ }),
    {
        self.dirty = false;
    }

    /// Drops every point for a newly loaded image; the next point is `P1`
    /// and nothing awaits recomputation.
    pub fn reset(&mut self)
        ensures
            final(self)@ == (PointsView { points: Seq::empty(), next_label: 1, dirty: false }),
    {
        self.points.clear();
        self.next_label = 1;
        self.dirty = false;
    }

    /// Deletes every point; the next point is `P1`.
    pub fn clear(&mut self)
        ensures
            final(self)@ == (PointsView { points: Seq::empty(), next_label: 1, dirty: true }),
    {
        self.points.clear();
        self.next_label = 1;
        self.dirty = true;
    }

    /// Appends a point at the given pixel and world position, labelled `P`
    /// followed by the label counter, which then advances.
    pub fn add_point(&mut self, pixel_u: u64, pixel_v: u64, world_x: u64, world_y: u64)
        requires
            old(self)@.next_label < usize::MAX,
        ensures
            final(self)@.points.len() == old(self)@.points.len() + 1,
            final(self)@.points.drop_last() == old(self)@.points,
            final(self)@.points.last().label@ == point_label(old(self)@.next_label),
            final(self)@.points.last().pixel_u == pixel_u,
            final(self)@.points.last().pixel_v == pixel_v,
            final(self)@.points.last().world_x == world_x,
            final(self)@.points.last().world_y == world_y,
            final(self)@.next_label == old(self)@.next_label + 1,
            final(self)@.dirty,
    {
        let label = label_string(self.next_label);
        self.next_label = self.next_label + 1;
        self.points.push(PointRecord { label, pixel_u, pixel_v, world_x, world_y });
        self.dirty = true;
        assert(self.points@.drop_last() =~= old(self)@.points);
    }

    /// Deletes point `i`; the others keep their order.
    pub fn remove_point(&mut self, i: usize)
        requires
            i < old(self)@.points.len(),
        ensures
            final(self)@ == (PointsView {
                points: old(self)@.points.remove(i as int),
                dirty: true,
                ..old(self)@
            }),
    {
        self.points.remove(i);
        self.dirty = true;
    }

    /// Moves point `i` to another pixel position.
    pub fn move_pixel(&mut self, i: usize, pixel_u: u64, pixel_v: u64)
        requires
            i < old(self)@.points.len(),
        ensures
            final(self)@ == (PointsView {
                points: old(self)@.points.update(i as int, with_pixel(old(self)@.points[i as int], pixel_u, pixel_v)),
                dirty: true,
                ..old(self)@
            }),
    {
        let p = &mut self.points[i];
        p.pixel_u = pixel_u;
        p.pixel_v = pixel_v;
        self.dirty = true;
    }

    /// Gives point `i` another world position.
    pub fn set_world(&mut self, i: usize, world_x: u64, world_y: u64)
        requires
            i < old(self)@.points.len(),
        ensures
            final(self)@ == (PointsView {
                points: old(self)@.points.update(i as int, with_world(old(self)@.points[i as int], world_x, world_y)),
                dirty: true,
                ..old(self)@
            }),
    {
        let p = &mut self.points[i];
        p.world_x = world_x;
        p.world_y = world_y;
        self.dirty = true;
    }

    /// Renames point `i`; a label plays no part in the homography.
    pub fn set_label(&mut self, i: usize, label: String)
        requires
            i < old(self)@.points.len(),
        ensures
            final(self)@ == (PointsView {
                points: old(self)@.points.update(i as int, PointRecord { label, ..old(self)@.points[i as int] }),
                ..old(self)@
            }),
    {
        let p = &mut self.points[i];
        p.label = label;
    }
}

/// Points added under different counter values get different labels, so
/// the labels handed out since the list was last emptied never repeat.
pub proof fn lemma_point_labels_distinct(n: nat, m: nat)
    requires
        n != m,
    ensures
        point_label(n) != point_label(m),
{
    if point_label(n) == point_label(m) {
        assert(decimal(n) =~= point_label(n).subrange(1, point_label(n).len() as int));
        assert(decimal(m) =~= point_label(m).subrange(1, point_label(m).len() as int));
        lemma_decimal_injective(n, m);
    }
}

} // verus!
