//! Request handling: decoding and validating the request path, and building
//! the response for a found resource.
//!
//! A response is described by [`HttpResponse`], a plain value the
//! transport layer turns into a wire response; its body names either bytes
//! held in memory or the byte range of the file to stream.

use vstd::prelude::*;
use vstd::string::StrSliceExecFns;

use crate::dates::format_last_modified;
use crate::dates::spec_last_modified_header;
use crate::encoding::spec_token;
use crate::encoding::Encoding;
use crate::file_cache::copy_bytes;
use crate::file_cache::entry_wf;
use crate::file_cache::ContentView;
use crate::file_cache::EntryView;
use crate::file_cache::FileCacheEntry;
use crate::file_cache::FileCacheEntryContent;
use crate::file_cache::FoundView;
use crate::partial::content_range_string;
use crate::partial::content_range_value;
use crate::partial::process_range;
use crate::partial::range_bytes;
use crate::partial::range_satisfiable;
use crate::partial::resolved_end;
use crate::partial::resolved_start;
use crate::partial::RangeSpec;
use crate::strutil::split_on;
use crate::strutil::split_on_char;
use crate::strutil::str_eq;

verus! {

/// What percent-decoding makes of a string: every `%` followed by two
/// hexadecimal digits becomes the byte they spell, everything else passes
/// through, and the decoded bytes must form well-formed UTF-8.
pub uninterp spec fn percent_decoded(s: Seq<char>) -> Option<Seq<char>>;

/// Relies on `percent_encoding::percent_decode_str(..).decode_utf8()`: only
/// a `%` starts a decoded sequence, so a string without `%` (already valid
/// UTF-8) decodes to itself.
#[verifier::external_body]
fn percent_decode(s: &str) -> (r: Option<String>)
    ensures
        match r {
            Some(t) => percent_decoded(s@) == Some(t@) && ((forall|i: int|
                0 <= i < s@.len() ==> s@[i] != '%') ==> t@ == s@),
            None => percent_decoded(s@) is None && (exists|i: int|
                0 <= i < s@.len() && s@[i] == '%'),
        },
{
    percent_encoding::percent_decode_str(s).decode_utf8().ok().map(|c| c.into_owned())
}

/// The string with its leading slashes removed.
pub open spec fn trim_slashes(s: Seq<char>) -> Seq<char>
    decreases s.len(),
{
    if s.len() > 0 && s[0] == '/' {
        trim_slashes(s.drop_first())
    } else {
        s
    }
}

/// Trimming a prefix of slashes is the same as skipping it.
proof fn lemma_trim_slashes_skip(s: Seq<char>, i: int)
    requires
        0 <= i <= s.len(),
        forall|k: int| 0 <= k < i ==> s[k] == '/',
        i < s.len() ==> s[i] != '/',
    ensures
        trim_slashes(s) == s.skip(i),
    decreases i,
{
    if i == 0 {
        assert(s.skip(0) =~= s);
    } else {
        lemma_trim_slashes_skip(s.drop_first(), i - 1);
        assert(s.drop_first().skip(i - 1) =~= s.skip(i));
    }
}

/// A path component that names a plain directory entry: not the current
/// directory and not the parent directory.
pub open spec fn component_allowed(c: Seq<char>) -> bool {
    c != "."@ && c != ".."@
}

/// A decoded request path that cannot traverse outside the served tree: it
/// does not start at the filesystem root, and no slash-separated component
/// is the current or the parent directory.
pub open spec fn path_is_clean(p: Seq<char>) -> bool {
    &&& (p.len() > 0 ==> p[0] != '/')
    &&& (forall|i: int|
        0 <= i < split_on(p, '/').len() ==> component_allowed(#[trigger] split_on(p, '/')[i]))
}

/// Whether a decoded path is safe to resolve under the served tree.
pub fn path_clean(p: &str) -> (r: bool)
    ensures
        r == path_is_clean(p@),
{
    let len = p.unicode_len();
    if len > 0 && p.get_char(0) == '/' {
        return false;
    }
    let components = split_on_char(p, '/');
    let n = components.len();
    let mut i: usize = 0;
    while i < n
        invariant
            n == components@.len(),
            0 <= i <= n,
            components@.len() == split_on(p@, '/').len(),
            forall|k: int| 0 <= k < n ==> components@[k]@ == split_on(p@, '/')[k],
            forall|k: int| 0 <= k < i ==> component_allowed(#[trigger] split_on(p@, '/')[k]),
        decreases n - i,
    {
        let c = components[i];
        if str_eq(c, ".") || str_eq(c, "..") {
            proof {
                assert(!component_allowed(split_on(p@, '/')[i as int]));
            }
            return false;
        }
        i = i + 1;
    }
    true
}

/// The logical path a raw request path denotes: leading slashes dropped,
/// the rest percent-decoded; nothing when decoding fails or the decoded path
/// could traverse outside the served tree.
pub open spec fn spec_decoded_path(raw: Seq<char>) -> Option<Seq<char>> {
    match percent_decoded(trim_slashes(raw)) {
        None => None,
        Some(p) => if path_is_clean(p) {
            Some(p)
        } else {
            None
        },
    }
}

/// Decodes and validates a raw request path; `None` means the request is
/// rejected (undecodable, or a path-traversal attempt) before any
/// filesystem access.
pub fn decode_request_path(raw_path: &str) -> (r: Option<String>)
    ensures
        match r {
            Some(p) => spec_decoded_path(raw_path@) == Some(p@) && path_is_clean(p@),
            None => spec_decoded_path(raw_path@) is None,
        },
{
    let len = raw_path.unicode_len();
    let mut i: usize = 0;
    while i < len && raw_path.get_char(i) == '/'
        invariant
            len == raw_path@.len(),
            0 <= i <= len,
            forall|k: int| 0 <= k < i ==> raw_path@[k] == '/',
        decreases len - i,
    {
        i = i + 1;
    }
    let trimmed = raw_path.substring_char(i, len);
    proof {
        lemma_trim_slashes_skip(raw_path@, i as int);
        assert(trimmed@ =~= raw_path@.skip(i as int));
    }
    match percent_decode(trimmed) {
        None => None,
        Some(p) => {
            if path_clean(p.as_str()) {
                Some(p)
            } else {
                None
            }
        },
    }
}

/// How a response's body is produced.
pub enum ResponseBody {
    /// No body at all.
    Empty,
    /// These bytes, held in memory.
    Bytes(Vec<u8>),
    /// The whole file behind the candidate, streamed from disk.
    FileWhole,
    /// One byte range of the file behind the candidate, streamed from disk.
    FileRange {
        /// The position of the first byte to send.
        start: u64,
        /// How many bytes to send.
        length: u64,
    },
}

/// The ghost shape of [`ResponseBody`].
pub enum BodyView {
    /// No body at all.
    Empty,
    /// These bytes, held in memory.
    Bytes(Seq<u8>),
    /// The whole file behind the candidate.
    FileWhole,
    /// One byte range of the file behind the candidate.
    FileRange {
        /// The position of the first byte to send.
        start: u64,
        /// How many bytes to send.
        length: u64,
    },
}

impl View for ResponseBody {
    type V = BodyView;

    open spec fn view(&self) -> BodyView {
        match *self {
            ResponseBody::Empty => BodyView::Empty,
            ResponseBody::Bytes(ref b) => BodyView::Bytes(b@),
            ResponseBody::FileWhole => BodyView::FileWhole,
            ResponseBody::FileRange { start, length } => BodyView::FileRange { start, length },
        }
    }
}

/// A response, as plain values: the status, each header this server ever
/// sets (unset headers are `None`), and the body.
pub struct HttpResponse {
    /// The HTTP status code.
    pub status: u16,
    /// The `Content-Type` header value.
    pub content_type: Option<String>,
    /// The `Content-Length` header value.
    pub content_length: Option<u64>,
    /// The `Last-Modified` header value.
    pub last_modified: Option<String>,
    /// The `Content-Encoding` header value.
    pub content_encoding: Option<&'static str>,
    /// The `Cache-Control` header value.
    pub cache_control: Option<&'static str>,
    /// The `Content-Range` header value.
    pub content_range: Option<String>,
    /// The body.
    pub body: ResponseBody,
}

/// The ghost shape of [`HttpResponse`].
pub struct ResponseView {
    /// The HTTP status code.
    pub status: u16,
    /// The `Content-Type` header value.
    pub content_type: Option<Seq<char>>,
    /// The `Content-Length` header value.
    pub content_length: Option<u64>,
    /// The `Last-Modified` header value.
    pub last_modified: Option<Seq<char>>,
    /// The `Content-Encoding` header value.
    pub content_encoding: Option<Seq<char>>,
    /// The `Cache-Control` header value.
    pub cache_control: Option<Seq<char>>,
    /// The `Content-Range` header value.
    pub content_range: Option<Seq<char>>,
    /// The body.
    pub body: BodyView,
}

impl View for HttpResponse {
    type V = ResponseView;

    open spec fn view(&self) -> ResponseView {
        ResponseView {
            status: self.status,
            content_type: match self.content_type {
                Some(ref s) => Some(s@),
                None => None,
            },
            content_length: self.content_length,
            last_modified: match self.last_modified {
                Some(ref s) => Some(s@),
                None => None,
            },
            content_encoding: match self.content_encoding {
                Some(s) => Some(s@),
                None => None,
            },
            cache_control: match self.cache_control {
                Some(s) => Some(s@),
                None => None,
            },
            content_range: match self.content_range {
                Some(ref s) => Some(s@),
                None => None,
            },
            body: self.body@,
        }
    }
}

/// The response for a request no candidate could satisfy.
pub open spec fn spec_not_found_response() -> ResponseView {
    ResponseView {
        status: 404,
        content_type: None,
        content_length: None,
        last_modified: None,
        content_encoding: None,
        cache_control: None,
        content_range: None,
        body: BodyView::Empty,
    }
}

/// A `404 Not Found` response with no body.
pub fn not_found_response() -> (r: HttpResponse)
    ensures
        r@ == spec_not_found_response(),
{
    HttpResponse {
        status: 404,
        content_type: None,
        content_length: None,
        last_modified: None,
        content_encoding: None,
        cache_control: None,
        content_range: None,
        body: ResponseBody::Empty,
    }
}

/// The response for a request path that is undecodable or could traverse
/// outside the served tree.
pub open spec fn spec_bad_request_response() -> ResponseView {
    ResponseView {
        status: 400,
        content_type: None,
        content_length: None,
        last_modified: None,
        content_encoding: None,
        cache_control: None,
        content_range: None,
        body: BodyView::Empty,
    }
}

/// A `400 Bad Request` response with no body.
pub fn bad_request_response() -> (r: HttpResponse)
    ensures
        r@ == spec_bad_request_response(),
{
    HttpResponse {
        status: 400,
        content_type: None,
        content_length: None,
        last_modified: None,
        content_encoding: None,
        cache_control: None,
        content_range: None,
        body: ResponseBody::Empty,
    }
}

/// The response for an unsatisfiable range: `416`, no headers, no body.
pub open spec fn spec_range_not_satisfiable_response() -> ResponseView {
    ResponseView {
        status: 416,
        content_type: None,
        content_length: None,
        last_modified: None,
        content_encoding: None,
        cache_control: None,
        content_range: None,
        body: BodyView::Empty,
    }
}

/// Whether a request with the given `If-Modified-Since` timestamp can keep
/// its copy of a resource: yes when the resource was not modified strictly
/// after that timestamp.
pub open spec fn spec_not_modified(last_modified: u64, if_modified_since: Option<u64>) -> bool {
    match if_modified_since {
        Some(t) => last_modified <= t,
        None => false,
    }
}

/// The `Content-Encoding` header of a response: the encoding's wire token
/// when an encoded variant is served.
pub open spec fn spec_encoding_header(encoding: Option<Encoding>) -> Option<Seq<char>> {
    match encoding {
        Some(e) => Some(spec_token(e)),
        None => None,
    }
}

/// The response for a found resource, given the candidate it came from and
/// the request's conditional headers and method.
///
/// When the client's copy is still fresh, `304` with an empty body, a zero
/// content length, and `Last-Modified` still set.  Otherwise, a requested
/// byte range is resolved: an unsatisfiable one yields bare `416`; a
/// satisfiable one yields `206` with `Content-Range` and exactly that slice;
/// no range yields `200` with the whole content.  A `HEAD` request gets the
/// headers a `GET` would get, and never a body.
pub open spec fn spec_found_response(
    f: FoundView,
    encoding: Option<Encoding>,
    cache_control: Option<Seq<char>>,
    if_modified_since: Option<u64>,
    range: Option<RangeSpec>,
    head: bool,
) -> ResponseView {
    let lm = spec_last_modified_header(f.last_modified);
    if spec_not_modified(f.last_modified, if_modified_since) {
        ResponseView {
            status: 304,
            content_type: Some(f.content_type),
            content_length: Some(0u64),
            last_modified: lm,
            content_encoding: None,
            cache_control: None,
            content_range: None,
            body: BodyView::Empty,
        }
    } else {
        match range {
            Some(r) => {
                if range_satisfiable(r, f.content_length) {
                    let s = resolved_start(r);
                    let e = resolved_end(r, f.content_length);
                    ResponseView {
                        status: 206,
                        content_type: Some(f.content_type),
                        content_length: Some((e - s + 1) as u64),
                        last_modified: lm,
                        content_encoding: spec_encoding_header(encoding),
                        cache_control,
                        content_range: Some(content_range_string(s, e, f.content_length)),
                        body: if head {
                            BodyView::Empty
                        } else {
                            match f.content {
                                ContentView::Cached(b) => BodyView::Bytes(
                                    b.subrange(s as int, e + 1),
                                ),
                                ContentView::File => BodyView::FileRange {
                                    start: s,
                                    length: (e - s + 1) as u64,
                                },
                            }
                        },
                    }
                } else {
                    spec_range_not_satisfiable_response()
                }
            },
            None => ResponseView {
                status: 200,
                content_type: Some(f.content_type),
                content_length: Some(f.content_length),
                last_modified: lm,
                content_encoding: spec_encoding_header(encoding),
                cache_control,
                content_range: None,
                body: if head {
                    BodyView::Empty
                } else {
                    match f.content {
                        ContentView::Cached(b) => BodyView::Bytes(b),
                        ContentView::File => BodyView::FileWhole,
                    }
                },
            },
        }
    }
}

/// The view of a candidate's cache-control override.
pub open spec fn spec_cc_view(cache_control: Option<&'static str>) -> Option<Seq<char>> {
    match cache_control {
        Some(c) => Some(c@),
        None => None,
    }
}

/// Builds the response for a found cache entry.
///
/// `encoding` and `cache_control` come from the candidate that matched;
/// `if_modified_since` is the request's condition, as a timestamp; `range`
/// is the request's byte range, if any; `head` says whether the method is
/// `HEAD` (headers as for `GET`, body suppressed).
pub fn build_found_response(
    entry: &FileCacheEntry,
    encoding: Option<Encoding>,
    cache_control: Option<&'static str>,
    if_modified_since: Option<u64>,
    range: Option<RangeSpec>,
    head: bool,
) -> (r: HttpResponse)
    requires
        entry@ is Found,
        entry_wf(entry@),
    ensures
        r@ == spec_found_response(
            entry@->Found_0,
            encoding,
            spec_cc_view(cache_control),
            if_modified_since,
            range,
            head,
        ),
{
    match entry {
        FileCacheEntry::NotFound => vstd::pervasive::unreached(),
        FileCacheEntry::Found { content, content_type, content_length, last_modified } => {
            let lm = format_last_modified(*last_modified);
            let not_modified = match if_modified_since {
                Some(t) => *last_modified <= t,
                None => false,
            };
            if not_modified {
                return HttpResponse {
                    status: 304,
                    content_type: Some(content_type.clone()),
                    content_length: Some(0),
                    last_modified: lm,
                    content_encoding: None,
                    cache_control: None,
                    content_range: None,
                    body: ResponseBody::Empty,
                };
            }
            let encoding_header = match encoding {
                Some(e) => Some(e.to_header_value()),
                None => None,
            };
            match range {
                Some(r) => {
                    match process_range(*content_length, r) {
                        Ok((s, e)) => {
                            let body = if head {
                                ResponseBody::Empty
                            } else {
                                match content {
                                    FileCacheEntryContent::Cached(b) => ResponseBody::Bytes(
                                        range_bytes(b, s, e),
                                    ),
                                    FileCacheEntryContent::File => ResponseBody::FileRange {
                                        start: s,
                                        length: e - s + 1,
                                    },
                                }
                            };
                            HttpResponse {
                                status: 206,
                                content_type: Some(content_type.clone()),
                                content_length: Some(e - s + 1),
                                last_modified: lm,
                                content_encoding: encoding_header,
                                cache_control,
                                content_range: Some(
                                    content_range_value(s, e, *content_length),
                                ),
                                body,
                            }
                        },
                        Err(()) => HttpResponse {
                            status: 416,
                            content_type: None,
                            content_length: None,
                            last_modified: None,
                            content_encoding: None,
                            cache_control: None,
                            content_range: None,
                            body: ResponseBody::Empty,
                        },
                    }
                },
                None => {
                    let body = if head {
                        ResponseBody::Empty
                    } else {
                        match content {
                            FileCacheEntryContent::Cached(b) => ResponseBody::Bytes(
                                copy_bytes(b),
                            ),
                            FileCacheEntryContent::File => ResponseBody::FileWhole,
                        }
                    };
                    HttpResponse {
                        status: 200,
                        content_type: Some(content_type.clone()),
                        content_length: Some(*content_length),
                        last_modified: lm,
                        content_encoding: encoding_header,
                        cache_control,
                        content_range: None,
                        body,
                    }
                },
            }
        },
    }
}

/// The response a candidate yields once its cache entry is known: nothing
/// for a negative entry (the next candidate is tried), the found-resource
/// response otherwise.
pub open spec fn spec_candidate_response(
    entry: EntryView,
    encoding: Option<Encoding>,
    cache_control: Option<Seq<char>>,
    if_modified_since: Option<u64>,
    range: Option<RangeSpec>,
    head: bool,
) -> Option<ResponseView> {
    match entry {
        EntryView::NotFound => None,
        EntryView::Found(f) => Some(
            spec_found_response(f, encoding, cache_control, if_modified_since, range, head),
        ),
    }
}

/// Builds the response for a candidate's cache entry, or nothing when the
/// entry is negative and the next candidate must be tried.
pub fn respond_with_entry(
    entry: &FileCacheEntry,
    encoding: Option<Encoding>,
    cache_control: Option<&'static str>,
    if_modified_since: Option<u64>,
    range: Option<RangeSpec>,
    head: bool,
) -> (r: Option<HttpResponse>)
    requires
        entry_wf(entry@),
    ensures
        match r {
            Some(resp) => spec_candidate_response(
                entry@,
                encoding,
                spec_cc_view(cache_control),
                if_modified_since,
                range,
                head,
            ) == Some(resp@),
            None => spec_candidate_response(
                entry@,
                encoding,
                spec_cc_view(cache_control),
                if_modified_since,
                range,
                head,
            ) is None,
        },
{
    match entry {
        FileCacheEntry::NotFound => None,
        FileCacheEntry::Found { .. } => Some(
            build_found_response(entry, encoding, cache_control, if_modified_since, range, head),
        ),
    }
}

} // verus!
