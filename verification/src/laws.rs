//! The library's guarantees, stated and proved once, over the same spec
//! functions its contracts use.

use vstd::prelude::*;

use crate::dates::http_date_string;
use crate::dates::HTTP_DATE_LIMIT;
use crate::encoding::spec_supported;
use crate::encoding::ClientEncodingSupport;
use crate::encoding::Encoding;
use crate::file_cache::mime_or_default;
use crate::file_cache::spec_needs_load;
use crate::file_cache::spec_read_entry;
use crate::file_cache::ContentView;
use crate::file_cache::EntryView;
use crate::file_cache::FoundView;
use crate::file_cache::ReadOutcomeView;
use crate::partial::content_range_string;
use crate::partial::range_satisfiable;
use crate::partial::resolved_end;
use crate::partial::resolved_start;
use crate::partial::RangeSpec;
use crate::paths::is_root_path;
use crate::paths::spec_candidates;
use crate::paths::spec_join;
use crate::paths::CandidateView;
use crate::serve::component_allowed;
use crate::serve::BodyView;
use crate::serve::path_is_clean;
use crate::serve::percent_decoded;
use crate::serve::spec_decoded_path;
use crate::serve::spec_encoding_header;
use crate::serve::spec_found_response;
use crate::serve::spec_not_modified;
use crate::serve::trim_slashes;
use crate::strutil::split_on;

verus! {

/// A decoded path with a parent-directory component is not clean: it can
/// never reach the filesystem.
pub proof fn lemma_parent_component_unclean(p: Seq<char>, i: int)
    requires
        0 <= i < split_on(p, '/').len(),
        split_on(p, '/')[i] == ".."@ || split_on(p, '/')[i] == "."@,
    ensures
        !path_is_clean(p),
{
    assert(!component_allowed(split_on(p, '/')[i]));
}

/// A decoded path that starts at the filesystem root is not clean: it can
/// never reach the filesystem.
pub proof fn lemma_absolute_path_unclean(p: Seq<char>)
    requires
        p.len() > 0,
        p[0] == '/',
    ensures
        !path_is_clean(p),
{
}

/// A request whose decoded path is not clean — a traversal attempt or a
/// root escape — yields no logical path at all: the handler answers with a
/// client error before any filesystem access.
pub proof fn lemma_traversal_rejected(raw: Seq<char>, p: Seq<char>)
    requires
        percent_decoded(trim_slashes(raw)) == Some(p),
        !path_is_clean(p),
    ensures
        spec_decoded_path(raw) is None,
{
}

/// When the client declared Brotli support, the very first candidate for a
/// non-root request is the Brotli variant of the exact path: with the
/// sibling present it wins over every other encoding, Gzip included.
pub proof fn lemma_brotli_candidate_first(
    support: ClientEncodingSupport,
    base: Seq<char>,
    fallback: Seq<char>,
    request_path: Seq<char>,
    initial: Seq<char>,
)
    requires
        support.has_brotli,
        !is_root_path(request_path),
    ensures
        spec_candidates(support, base, fallback, request_path, initial).len() > 0,
        spec_candidates(support, base, fallback, request_path, initial)[0]
            == (CandidateView {
            path: spec_join(base, initial),
            encoding: Some(Encoding::Brotli),
            cache_control: None,
        }),
{
    let encs = spec_supported(support);
    assert(encs[0] == Encoding::Brotli);
}

/// A cached entry made stale by a newer file on disk is never served as it
/// stands: the lookup must reload, and after the reload installs the fresh
/// bytes, the cache holds exactly them.
pub proof fn lemma_stale_entry_reloaded(
    m: Map<Seq<char>, EntryView>,
    k: Seq<char>,
    f: FoundView,
    fs_modified: u64,
    b: Seq<u8>,
    content_type_path: Seq<char>,
    reported_length: u64,
)
    requires
        m.contains_key(k),
        m[k] == EntryView::Found(f),
        fs_modified > f.last_modified,
        b.len() <= u64::MAX,
    ensures
        spec_needs_load(Some(m[k]), fs_modified),
        ({
            let fresh = spec_read_entry(
                ReadOutcomeView::Bytes(b),
                content_type_path,
                reported_length,
                fs_modified,
            );
            &&& fresh == EntryView::Found(
                FoundView {
                    content: ContentView::Cached(b),
                    content_type: mime_or_default(content_type_path),
                    content_length: b.len() as u64,
                    last_modified: fs_modified,
                },
            )
            &&& m.insert(k, fresh)[k] == fresh
        }),
{
}

/// A request conditioned on a timestamp at or after the resource's
/// modification time is answered `304`: an empty body, a zero content
/// length, and `Last-Modified` still set (for any modification time an HTTP
/// date can express).
pub proof fn lemma_not_modified_response(
    f: FoundView,
    encoding: Option<Encoding>,
    cache_control: Option<Seq<char>>,
    if_modified_since: u64,
    range: Option<RangeSpec>,
    head: bool,
)
    requires
        f.last_modified <= if_modified_since,
        f.last_modified < HTTP_DATE_LIMIT,
    ensures
        ({
            let r = spec_found_response(
                f,
                encoding,
                cache_control,
                Some(if_modified_since),
                range,
                head,
            );
            &&& r.status == 304
            &&& r.content_length == Some(0u64)
            &&& r.body is Empty
            &&& r.last_modified == Some(http_date_string(f.last_modified))
        }),
{
}

/// A satisfiable byte range of an unconditioned request is answered `206`:
/// `Content-Range` names the resolved bounds over the full length, the
/// content length is the size of the slice, and the body of a memory-held
/// resource is exactly that inclusive slice.
pub proof fn lemma_partial_content_response(
    f: FoundView,
    encoding: Option<Encoding>,
    cache_control: Option<Seq<char>>,
    if_modified_since: Option<u64>,
    range: RangeSpec,
)
    requires
        !spec_not_modified(f.last_modified, if_modified_since),
        range_satisfiable(range, f.content_length),
    ensures
        ({
            let s = resolved_start(range);
            let e = resolved_end(range, f.content_length);
            let r = spec_found_response(
                f,
                encoding,
                cache_control,
                if_modified_since,
                Some(range),
                false,
            );
            &&& r.status == 206
            &&& r.content_range == Some(content_range_string(s, e, f.content_length))
            &&& r.content_length == Some((e - s + 1) as u64)
            &&& (f.content is Cached ==> r.body == BodyView::Bytes(
                f.content->Cached_0.subrange(s as int, e + 1),
            ))
            &&& (f.content is File ==> r.body == (BodyView::FileRange {
                start: s,
                length: (e - s + 1) as u64,
            }))
        }),
{
}

/// An unsatisfiable byte range of an unconditioned request is answered
/// `416` with no body.
pub proof fn lemma_unsatisfiable_range_response(
    f: FoundView,
    encoding: Option<Encoding>,
    cache_control: Option<Seq<char>>,
    if_modified_since: Option<u64>,
    range: RangeSpec,
    head: bool,
)
    requires
        !spec_not_modified(f.last_modified, if_modified_since),
        !range_satisfiable(range, f.content_length),
    ensures
        ({
            let r = spec_found_response(
                f,
                encoding,
                cache_control,
                if_modified_since,
                Some(range),
                head,
            );
            &&& r.status == 416
            &&& r.body is Empty
            &&& r.content_length is None
        }),
{
}

/// Every request's candidate list ends with the plain fallback document, so
/// an unmatched route falls back to it; every encoded fallback candidate is
/// marked `no-cache`, and only fallback candidates are.
pub proof fn lemma_fallback_candidates(
    support: ClientEncodingSupport,
    base: Seq<char>,
    fallback: Seq<char>,
    request_path: Seq<char>,
    initial: Seq<char>,
)
    ensures
        ({
            let cands = spec_candidates(support, base, fallback, request_path, initial);
            let encs = spec_supported(support);
            let main = if !is_root_path(request_path) {
                encs.len() + 1
            } else {
                0nat
            };
            &&& cands.len() == main + encs.len() + 1
            &&& cands.last() == (CandidateView {
                path: fallback,
                encoding: None,
                cache_control: None,
            })
            &&& forall|i: int|
                0 <= i < encs.len() ==> cands[main + i] == (CandidateView {
                    path: fallback,
                    encoding: Some(encs[i]),
                    cache_control: Some("no-cache"@),
                })
            &&& forall|i: int| 0 <= i < main ==> (#[trigger] cands[i]).cache_control is None
        }),
{
}

/// An unconditioned, rangeless request for a found resource is answered
/// `200`; the candidate's cache-control override — `no-cache` for an
/// encoded fallback variant — and its encoding's wire token are passed
/// through to the response headers.
pub proof fn lemma_ok_response_carries_cache_control(
    f: FoundView,
    encoding: Option<Encoding>,
    cache_control: Option<Seq<char>>,
)
    ensures
        ({
            let r = spec_found_response(f, encoding, cache_control, None, None, false);
            &&& r.status == 200
            &&& r.cache_control == cache_control
            &&& r.content_encoding == spec_encoding_header(encoding)
            &&& r.content_length == Some(f.content_length)
            &&& (f.content is Cached ==> r.body == BodyView::Bytes(f.content->Cached_0))
        }),
{
}

/// A `HEAD` request is answered exactly as the matching `GET` would be —
/// same status and headers — except that the body is always suppressed.
pub proof fn lemma_head_matches_get(
    f: FoundView,
    encoding: Option<Encoding>,
    cache_control: Option<Seq<char>>,
    if_modified_since: Option<u64>,
    range: Option<RangeSpec>,
)
    ensures
        ({
            let g = spec_found_response(f, encoding, cache_control, if_modified_since, range, false);
            let h = spec_found_response(f, encoding, cache_control, if_modified_since, range, true);
            &&& h.status == g.status
            &&& h.content_type == g.content_type
            &&& h.content_length == g.content_length
            &&& h.last_modified == g.last_modified
            &&& h.content_encoding == g.content_encoding
            &&& h.cache_control == g.cache_control
            &&& h.content_range == g.content_range
            &&& h.body is Empty
        }),
{
}

/// Two racing loads of the same path that read the same bytes agree: the
/// entry each installs is the same value (loading is a function of the read
/// outcome), and in whatever order the two installs land, the cache
/// afterwards holds that entry, whole — never a mixture.
pub proof fn lemma_duplicate_load_agrees(m: Map<Seq<char>, EntryView>, k: Seq<char>, e: EntryView)
    ensures
        m.insert(k, e).insert(k, e) == m.insert(k, e),
        m.insert(k, e)[k] == e,
{
    assert(m.insert(k, e).insert(k, e) =~= m.insert(k, e));
}

} // verus!
