//! Fetching the images of a firmware version.
//!
//! The shell performs the requests; this module says which address to
//! request for a segment and pairs what came back with the flash offsets, in
//! the order in which the version lists its segments. A version is fetched
//! whole or not at all.

use vstd::prelude::*;
use crate::catalog::{FirmwareSegment, SegmentView, VersionEntry};
use crate::error::PipelineError;

verus! {

/// One image as it was fetched, with the flash address it is written to.
#[derive(Clone, Debug, PartialEq, Eq)]
pub struct DownloadedSegment {
    pub flash_offset: u32,
    pub data: Vec<u8>,
}

/// What a [`DownloadedSegment`] holds.
pub struct DownloadedView {
    pub flash_offset: u32,
    pub data: Seq<u8>,
}

impl View for DownloadedSegment {
    type V = DownloadedView;

    open spec fn view(&self) -> DownloadedView {
        DownloadedView { flash_offset: self.flash_offset, data: self.data@ }
    }
}

/// What a list of fetched segments holds, entry by entry.
pub open spec fn downloads_view(segments: Seq<DownloadedSegment>) -> Seq<DownloadedView> {
    segments.map_values(|s: DownloadedSegment| s@)
}

/// What the answer to one request holds: the body, or nothing where the
/// request failed or has not been answered.
pub open spec fn body_view(body: Option<Vec<u8>>) -> Option<Seq<u8>> {
    match body {
        Some(bytes) => Some(bytes@),
        None => None,
    }
}

/// What a list of answers holds, entry by entry.
pub open spec fn bodies_view(bodies: Seq<Option<Vec<u8>>>) -> Seq<Option<Seq<u8>>> {
    bodies.map_values(|b: Option<Vec<u8>>| body_view(b))
}

/// Whether `url` is an absolute URL, as `Url::parse` of the `url` crate
/// decides it.
pub uninterp spec fn is_absolute_url(url: Seq<char>) -> bool;

/// Asks `reqwest::Url::parse` whether `url` is an absolute URL.
///
/// The contract claims only that the answer is a function of the text.
#[verifier::external_body]
fn url_parses(url: &str) -> (ok: bool)
    ensures
        ok == is_absolute_url(url@),
{
    reqwest::Url::parse(url).is_ok()
}

/// The address to request for `segment`.
///
/// A segment whose address is not an absolute URL cannot be fetched: that is
/// a [`PipelineError::DownloadError`], and no request is made for it.
pub fn request_url(segment: &FirmwareSegment) -> (url: Result<&str, PipelineError>)
    ensures
        match url {
            Ok(address) => is_absolute_url(segment@.source_url) && address@
                == segment@.source_url,
            Err(e) => !is_absolute_url(segment@.source_url) && e == PipelineError::DownloadError,
        },
{
    if url_parses(segment.source_url.as_str()) {
        Ok(segment.source_url.as_str())
    } else {
        Err(PipelineError::DownloadError)
    }
}

/// What fetching a version gives, where `bodies[i]` is what the request for
/// segment `i` brought: every body paired with its segment's flash offset, in
/// listed order, if there is a body for every segment; else a
/// `DownloadError`.
pub open spec fn fetched(files: Seq<SegmentView>, bodies: Seq<Option<Seq<u8>>>) -> Result<
    Seq<DownloadedView>,
    PipelineError,
> {
    if bodies.len() == files.len() && forall|i: int|
        0 <= i < bodies.len() ==> (#[trigger] bodies[i]) is Some {
        Ok(
            Seq::new(
                files.len(),
                |i: int|
                    DownloadedView { flash_offset: files[i].flash_offset, data: bodies[i]->Some_0 },
            ),
        )
    } else {
        Err(PipelineError::DownloadError)
    }
}

/// Pairs what the requests for the segments of `version` brought with the
/// flash offsets.
///
/// `bodies[i]` is the body that the request for segment `i` brought, or
/// `None` where it failed; the order in which the requests were answered
/// plays no part. The result lists the segments in the order of the version.
/// One body that is missing fails the whole with a
/// [`PipelineError::DownloadError`].
pub fn fetch_all(version: &VersionEntry, bodies: Vec<Option<Vec<u8>>>) -> (segments: Result<
    Vec<DownloadedSegment>,
    PipelineError,
>)
    ensures
        match segments {
            Ok(list) => fetched(version@.files, bodies_view(bodies@)) == Ok::<
                Seq<DownloadedView>,
                PipelineError,
            >(downloads_view(list@)),
            Err(e) => fetched(version@.files, bodies_view(bodies@)) == Err::<
                Seq<DownloadedView>,
                PipelineError,
            >(e),
        },
{
    let ghost given = bodies_view(bodies@);
    if bodies.len() != version.files.len() {
        return Err(PipelineError::DownloadError);
    }
    let mut list: Vec<DownloadedSegment> = Vec::new();
    for body in it: bodies
        invariant
            given == bodies_view(it.seq()),
            given.len() == version.files.len(),
            list.len() == it.index(),
            forall|j: int| 0 <= j < it.index() ==> (#[trigger] given[j]) is Some,
            forall|j: int|
                0 <= j < it.index() ==> (#[trigger] list@[j])@ == (DownloadedView {
                    flash_offset: version.files@[j].flash_offset,
                    data: given[j]->Some_0,
                }),
    {
        match body {
            Some(data) => {
                let flash_offset: u32 = version.files[list.len()].flash_offset;
                list.push(DownloadedSegment { flash_offset, data });
            },
            None => {
                assert(given[it.index() as int] is None);
                return Err(PipelineError::DownloadError);
            },
        }
    }
    proof {
        assert(downloads_view(list@) =~= fetched(version@.files, given)->Ok_0);
    }
    Ok(list)
}

/// A list of `count` answers, none of which has come yet.
pub fn no_bodies(count: usize) -> (bodies: Vec<Option<Vec<u8>>>)
    ensures
        bodies_view(bodies@) == Seq::new(count as nat, |i: int| None::<Seq<u8>>),
{
    let mut bodies: Vec<Option<Vec<u8>>> = Vec::new();
    let mut i: usize = 0;
    while i < count
        invariant
            i <= count,
            bodies@.len() == i,
            forall|j: int| 0 <= j < i ==> (#[trigger] bodies@[j]) is None,
        decreases count - i,
    {
        bodies.push(None);
        i += 1;
    }
    assert(bodies_view(bodies@) =~= Seq::new(count as nat, |i: int| None::<Seq<u8>>));
    bodies
}

/// Files the body that the request for segment `index` brought. Requests may
/// be answered in any order: each body goes to the place of its segment. An
/// `index` beyond the list changes nothing.
pub fn place_body(bodies: &mut Vec<Option<Vec<u8>>>, index: usize, body: Vec<u8>)
    ensures
        bodies_view(final(bodies)@) == if index < old(bodies)@.len() {
            bodies_view(old(bodies)@).update(index as int, Some(body@))
        } else {
            bodies_view(old(bodies)@)
        },
{
    if index < bodies.len() {
        bodies.set(index, Some(body));
        assert(bodies_view(bodies@) =~= bodies_view(old(bodies)@).update(
            index as int,
            Some(body@),
        ));
    }
}

/// The order in which two answers for different segments come in makes no
/// difference to what is filed.
pub proof fn lemma_arrival_order_is_immaterial(
    bodies: Seq<Option<Seq<u8>>>,
    i: int,
    a: Seq<u8>,
    j: int,
    b: Seq<u8>,
)
    requires
        0 <= i < bodies.len(),
        0 <= j < bodies.len(),
        i != j,
    ensures
        bodies.update(i, Some(a)).update(j, Some(b)) == bodies.update(j, Some(b)).update(
            i,
            Some(a),
        ),
{
}

} // verus!
