//! URLs and the path segments that are appended to them.

use crate::error::ForgeError;
use url::Url;
use vstd::prelude::*;
use vstd::string::*;
use vstd::utf8::encode_utf8;

verus! {

/// `url::Url`: a parsed URL. Nothing inside it is visible here; it is
/// carried, copied and handed to the `url` crate.
#[verifier::external_type_specification]
#[verifier::external_body]
pub struct ExUrl(url::Url);

/// What becomes of `url` when `segment` is appended to its path, as
/// `url::PathSegmentsMut::push` does it; `None` where `url` cannot be a
/// base and so has no path segments.
pub uninterp spec fn url_with_segment(url: Url, segment: Seq<char>) -> Option<Url>;

/// Whether `url` cannot be a base, as `url::Url::cannot_be_a_base` tells
/// it: such a URL has no path segments.
pub uninterp spec fn url_cannot_be_a_base(url: Url) -> bool;

/// The length of the text of `url` in bytes.
pub uninterp spec fn url_len(url: Url) -> nat;

/// The bytes by which one more segment lengthens a URL at most: three
/// for each byte of the segment, which is escaped at worst, and four for
/// separators.
pub open spec fn segment_cost(segment: Seq<char>) -> nat {
    3 * encode_utf8(segment).len() + 4
}

/// `url` stays within the `u32::MAX` bytes that a URL may have, whatever
/// `segment` becomes when it is appended.
pub open spec fn segment_fits(url: Url, segment: Seq<char>) -> bool {
    url_len(url) + segment_cost(segment) <= u32::MAX
}

/// The bytes by which `segments` lengthen a URL at most.
pub open spec fn segments_cost(segments: Seq<Seq<char>>) -> nat
    decreases segments.len(),
{
    if segments.len() == 0 {
        0
    } else {
        segments_cost(segments.drop_last()) + segment_cost(segments.last())
    }
}

/// `url` with each of `segments` appended to its path, first to last.
/// Fails with `UrlTooLong` at the first segment that may take the URL
/// beyond `u32::MAX` bytes, and with `InvalidBaseUrl` where the URL has
/// no path segments.
pub open spec fn url_with_segments(url: Url, segments: Seq<Seq<char>>) -> Result<Url, ForgeError>
    decreases segments.len(),
{
    if segments.len() == 0 {
        Ok(url)
    } else {
        match url_with_segments(url, segments.drop_last()) {
            Err(error) => Err(error),
            Ok(earlier) => if !segment_fits(earlier, segments.last()) {
                Err(ForgeError::UrlTooLong)
            } else {
                match url_with_segment(earlier, segments.last()) {
                    Some(pushed) => Ok(pushed),
                    None => Err(ForgeError::InvalidBaseUrl),
                }
            },
        }
    }
}

/// The texts of a list of segments.
pub open spec fn segment_views(segments: Seq<&str>) -> Seq<Seq<char>> {
    segments.map_values(|s: &str| s@)
}

/// The first segments of a list cost no more than the whole list.
pub proof fn lemma_segments_cost_take(segments: Seq<Seq<char>>, n: int)
    requires
        0 <= n <= segments.len(),
    ensures
        segments_cost(segments.take(n)) <= segments_cost(segments),
    decreases segments.len(),
{
    if n == segments.len() {
        assert(segments.take(n) =~= segments);
    } else {
        assert(segments.take(n) =~= segments.drop_last().take(n));
        lemma_segments_cost_take(segments.drop_last(), n);
    }
}

/// Calls `url::Url::path_segments_mut` and, on the segments it hands out,
/// `url::PathSegmentsMut::push`. The contract names the URL that results.
/// `None` stands for the error that `path_segments_mut` returns, which it
/// does exactly on a URL that cannot be a base; a URL that was pushed on
/// can still be a base, and it has grown by no more than the escaped
/// segment and its separators. The `url` crate panics where a URL passes
/// `u32::MAX` bytes: `requires` keeps the call below that.
#[verifier::external_body]
pub(crate) fn push_segment(url: Url, segment: &str) -> (pushed: Option<Url>)
    requires
        segment_fits(url, segment@),
    ensures
        pushed == url_with_segment(url, segment@),
        pushed is None <==> url_cannot_be_a_base(url),
        pushed matches Some(longer) ==> !url_cannot_be_a_base(longer) && url_len(longer) <= url_len(
            url,
        ) + segment_cost(segment@),
{
    let mut url = url;
    match url.path_segments_mut() {
        Ok(mut segments) => {
            segments.push(segment);
        },
        Err(()) => return None,
    }
    Some(url)
}

/// Calls `url::Url::as_str` and takes the length of the text in bytes.
#[verifier::external_body]
pub(crate) fn url_length(url: &Url) -> (len: usize)
    ensures
        len == url_len(*url),
{
    url.as_str().len()
}

/// `url::Url::cannot_be_a_base`: the result has a name.
pub assume_specification[ Url::cannot_be_a_base ](url: &Url) -> (cannot: bool)
    ensures
        cannot == url_cannot_be_a_base(*url),
;

/// `Clone::clone` of `url::Url`: the copy is the same URL.
pub assume_specification[ <Url as Clone>::clone ](url: &Url) -> (copy: Url)
    ensures
        copy == *url,
;

/// Tells whether `segment` can be appended to `url` without the URL
/// passing `u32::MAX` bytes.
pub fn fits(url: &Url, segment: &str) -> (ok: bool)
    ensures
        ok == segment_fits(*url, segment@),
{
    let have: usize = url_length(url);
    let more: usize = segment.as_bytes().len();
    if have > 4294967291 || more > 1431655763 {
        false
    } else {
        have as u64 + 3 * (more as u64) + 4 <= 4294967295
    }
}

/// Appends `segments` to the path of `url`, first to last. Succeeds on a
/// URL that can be a base where all the segments fit at their worst.
pub fn push_segments(url: Url, segments: &Vec<&str>) -> (pushed: Result<Url, ForgeError>)
    ensures
        pushed == url_with_segments(url, segment_views(segments@)),
        !url_cannot_be_a_base(url) && url_len(url) + segments_cost(segment_views(segments@))
            <= u32::MAX ==> pushed is Ok,
{
    let ghost start = url;
    let ghost views = segment_views(segments@);
    let mut current: Result<Url, ForgeError> = Ok(url);
    let mut i: usize = 0;
    while i < segments.len()
        invariant
            i <= segments.len(),
            views == segment_views(segments@),
            current == url_with_segments(start, views.take(i as int)),
            current matches Ok(longer) ==> {
                &&& !url_cannot_be_a_base(start) ==> !url_cannot_be_a_base(longer)
                &&& url_len(longer) <= url_len(start) + segments_cost(views.take(i as int))
            },
            !url_cannot_be_a_base(start) && url_len(start) + segments_cost(views) <= u32::MAX
                ==> current is Ok,
        decreases segments.len() - i,
    {
        proof {
            assert(views.take(i + 1).drop_last() =~= views.take(i as int));
            assert(views.take(i + 1).last() == segments@[i as int]@);
            lemma_segments_cost_take(views, i + 1);
        }
        current = match current {
            Ok(earlier) => {
                if fits(&earlier, segments[i]) {
                    match push_segment(earlier, segments[i]) {
                        Some(longer) => Ok(longer),
                        None => Err(ForgeError::InvalidBaseUrl),
                    }
                } else {
                    Err(ForgeError::UrlTooLong)
                }
            },
            Err(error) => Err(error),
        };
        i += 1;
    }
    proof {
        assert(views.take(i as int) =~= views);
    }
    current
}

} // verus!
