//! Where the segments of a version lie in flash.
//!
//! No two segments of one version may overlap. A catalog does not promise
//! that, and nothing in a run checks it: it is for the caller to look before
//! the device is touched, and [`first_overlap`] is the means.

use vstd::prelude::*;
use crate::fetch::{downloads_view, DownloadedSegment, DownloadedView};

verus! {

/// The address after the last byte of a segment.
pub open spec fn end_of(segment: DownloadedView) -> int {
    segment.flash_offset + segment.data.len()
}

/// Whether two segments share a byte of flash. A segment without data shares
/// none.
pub open spec fn overlap(a: DownloadedView, b: DownloadedView) -> bool {
    &&& a.data.len() > 0
    &&& b.data.len() > 0
    &&& a.flash_offset < end_of(b)
    &&& b.flash_offset < end_of(a)
}

/// Whether no two of the segments share a byte of flash.
pub open spec fn disjoint(segments: Seq<DownloadedView>) -> bool {
    forall|i: int, j: int|
        0 <= i < j < segments.len() ==> !overlap(#[trigger] segments[i], #[trigger] segments[j])
}

fn overlapping(a: &DownloadedSegment, b: &DownloadedSegment) -> (shared: bool)
    ensures
        shared == overlap(a@, b@),
{
    let a_start: u128 = a.flash_offset as u128;
    let b_start: u128 = b.flash_offset as u128;
    let a_end: u128 = a_start + a.data.len() as u128;
    let b_end: u128 = b_start + b.data.len() as u128;
    a.data.len() > 0 && b.data.len() > 0 && a_start < b_end && b_start < a_end
}

/// Looks for two segments that share a byte of flash.
///
/// Returns `None` where no two do. Else returns the positions `(i, j)`,
/// `i < j`, of two that do: `j` is the first segment in listed order that
/// overlaps one before it, and `i` the first that it overlaps.
pub fn first_overlap(segments: &Vec<DownloadedSegment>) -> (found: Option<(usize, usize)>)
    ensures
        match found {
            Some((i, j)) => {
                let views = downloads_view(segments@);
                &&& i < j < views.len()
                &&& overlap(views[i as int], views[j as int])
                &&& disjoint(views.take(j as int))
                &&& forall|k: int| 0 <= k < i ==> !overlap(#[trigger] views[k], views[j as int])
            },
            None => disjoint(downloads_view(segments@)),
        },
{
    let ghost views = downloads_view(segments@);
    let mut j: usize = 0;
    while j < segments.len()
        invariant
            j <= segments.len(),
            views == downloads_view(segments@),
            disjoint(views.take(j as int)),
        decreases segments.len() - j,
    {
        let mut i: usize = 0;
        while i < j
            invariant
                i <= j < segments.len(),
                views == downloads_view(segments@),
                disjoint(views.take(j as int)),
                forall|k: int| 0 <= k < i ==> !overlap(views[k], views[j as int]),
            decreases j - i,
        {
            if overlapping(&segments[i], &segments[j]) {
                return Some((i, j));
            }
            i += 1;
        }
        proof {
            let more = views.take(j + 1);
            let less = views.take(j as int);
            assert forall|a: int, b: int| 0 <= a < b < more.len() implies !overlap(
                #[trigger] more[a],
                #[trigger] more[b],
            ) by {
                if b < j {
                    assert(less[a] == more[a] && less[b] == more[b]);
                }
            }
        }
        j += 1;
    }
    assert(views.take(j as int) =~= views);
    None
}

} // verus!
