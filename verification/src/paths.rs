//! Candidate-path resolution.
//!
//! For one request the resolver produces an ordered list of physical paths
//! to try: encoded variants of the exact path, the plain exact path, encoded
//! variants of the fallback document (marked non-cacheable), and the plain
//! fallback document.  The first candidate that resolves to a readable file
//! wins, so this order makes exact-match-plus-best-compression beat
//! exact-match-plus-identity, which beats any fallback variant.

use vstd::prelude::*;
use vstd::string::StrSliceExecFns;
use vstd::string::StringExecFns;

use crate::encoding::spec_extension;
use crate::encoding::spec_supported;
use crate::encoding::ClientEncodingSupport;
use crate::encoding::Encoding;

verus! {

/// The ghost shape of one candidate: its logical path, its encoding and its
/// cache-control override.
pub struct CandidateView {
    /// The logical path (without any encoding suffix).
    pub path: Seq<char>,
    /// The encoding variant to try, if any.
    pub encoding: Option<Encoding>,
    /// A cache-control override for the response, if any.
    pub cache_control: Option<Seq<char>>,
}

/// One physical file location to try for a request, in priority order.
///
/// The logical `path` derives the MIME type; the `encoding` derives the
/// physical path (by filename suffix) and the `Content-Encoding` response
/// header; `cache_control` marks fallback-document responses as
/// non-cacheable.
#[derive(Debug)]
pub struct PathToTry {
    path: String,
    encoding: Option<Encoding>,
    cache_control: Option<&'static str>,
}

impl View for PathToTry {
    type V = CandidateView;

    closed spec fn view(&self) -> CandidateView {
        CandidateView {
            path: self.path@,
            encoding: self.encoding,
            cache_control: match self.cache_control {
                Some(c) => Some(c@),
                None => None,
            },
        }
    }
}

impl DeepView for PathToTry {
    type V = CandidateView;

    open spec fn deep_view(&self) -> CandidateView {
        self.view()
    }
}

/// The physical path of a candidate: the logical path plus the encoding's
/// filename suffix, or the logical path itself for the identity encoding.
pub open spec fn spec_content_path(c: CandidateView) -> Seq<char> {
    match c.encoding {
        Some(e) => c.path + spec_extension(e),
        None => c.path,
    }
}

/// A path with a suffix appended.
fn append_to_path(path: &String, suffix: &str) -> (r: String)
    ensures
        r@ == path@ + suffix@,
{
    let mut r = path.clone();
    r.append(suffix);
    r
}

impl PathToTry {
    /// The logical path, used to derive the MIME type.
    pub fn path(&self) -> (r: String)
        ensures
            r@ == self@.path,
    {
        self.path.clone()
    }

    /// The physical path: the logical path plus the encoding's filename
    /// suffix when an encoded variant is tried.
    pub fn content_path(&self) -> (r: String)
        ensures
            r@ == spec_content_path(self@),
    {
        if let Some(encoding) = self.encoding {
            append_to_path(&self.path, encoding.get_extension())
        } else {
            self.path()
        }
    }

    /// The encoding variant of this candidate, if any.
    pub fn encoding(&self) -> (r: Option<Encoding>)
        ensures
            r == self@.encoding,
    {
        self.encoding
    }

    /// The cache-control override of this candidate, if any.
    pub fn cache_control(&self) -> (r: Option<&'static str>)
        ensures
            match r {
                Some(c) => self@.cache_control == Some(c@),
                None => self@.cache_control is None,
            },
    {
        self.cache_control
    }
}

/// Whether a request path is the root path `/`.
pub open spec fn is_root_path(p: Seq<char>) -> bool {
    p.len() == 1 && p[0] == '/'
}

/// Joining a directory and a relative path with exactly one separator
/// between them.
pub open spec fn spec_join(base: Seq<char>, rel: Seq<char>) -> Seq<char> {
    if base.len() == 0 {
        rel
    } else if base[base.len() - 1] == '/' {
        base + rel
    } else {
        base + "/"@ + rel
    }
}

/// A directory and a relative path joined with exactly one separator.
pub fn join_path(base: &str, rel: &str) -> (r: String)
    ensures
        r@ == spec_join(base@, rel@),
{
    let len = base.unicode_len();
    if len == 0 {
        String::from_str(rel)
    } else if base.get_char(len - 1) == '/' {
        let mut s = String::from_str(base);
        s.append(rel);
        s
    } else {
        let mut s = String::from_str(base);
        s.append("/");
        s.append(rel);
        s
    }
}

/// The full candidate list for one request, in try-order:
/// for a non-root request, each declared encoding at the exact path and then
/// the plain exact path; then each declared encoding at the fallback
/// document, marked `no-cache`; then the plain fallback document.
pub open spec fn spec_candidates(
    support: ClientEncodingSupport,
    base: Seq<char>,
    fallback: Seq<char>,
    request_path: Seq<char>,
    initial: Seq<char>,
) -> Seq<CandidateView> {
    let encs = spec_supported(support);
    let joined = spec_join(base, initial);
    let main = if !is_root_path(request_path) {
        encs.map_values(
            |e: Encoding| CandidateView { path: joined, encoding: Some(e), cache_control: None },
        ) + seq![CandidateView { path: joined, encoding: None, cache_control: None }]
    } else {
        Seq::empty()
    };
    main + encs.map_values(
        |e: Encoding|
            CandidateView { path: fallback, encoding: Some(e), cache_control: Some("no-cache"@) },
    ) + seq![CandidateView { path: fallback, encoding: None, cache_control: None }]
}

/// Builds the ordered candidate list for one request.
///
/// `request_path` is the raw URI path (a root request `/` can never match an
/// asset and skips straight to the fallback document); `initial_path` is the
/// decoded, traversal-validated logical path relative to `base_dir`.
pub fn collect_paths_to_try(
    client_encoding_support: &ClientEncodingSupport,
    base_dir: &str,
    fallback_path: &str,
    request_path: &str,
    initial_path: &str,
) -> (r: Vec<PathToTry>)
    ensures
        r.deep_view() == spec_candidates(
            *client_encoding_support,
            base_dir@,
            fallback_path@,
            request_path@,
            initial_path@,
        ),
{
    let ghost all = spec_candidates(
        *client_encoding_support,
        base_dir@,
        fallback_path@,
        request_path@,
        initial_path@,
    );
    let encodings = client_encoding_support.supported_encodings();
    let mut paths_to_try: Vec<PathToTry> = Vec::new();

    let len = request_path.unicode_len();
    let is_root = len == 1 && request_path.get_char(0) == '/';

    if !is_root {
        let path = join_path(base_dir, initial_path);
        let n = encodings.len();
        let mut i: usize = 0;
        while i < n
            invariant
                n == encodings@.len(),
                0 <= i <= n,
                encodings@ == spec_supported(*client_encoding_support),
                path@ == spec_join(base_dir@, initial_path@),
                paths_to_try@.len() == i,
                forall|k: int|
                    0 <= k < i ==> paths_to_try@[k]@ == (CandidateView {
                        path: path@,
                        encoding: Some(encodings@[k]),
                        cache_control: None,
                    }),
            decreases n - i,
        {
            paths_to_try.push(
                PathToTry { path: path.clone(), encoding: Some(encodings[i]), cache_control: None },
            );
            i = i + 1;
        }
        paths_to_try.push(PathToTry { path, encoding: None, cache_control: None });
    }

    let ghost head = paths_to_try.deep_view();
    proof {
        let encs = spec_supported(*client_encoding_support);
        let joined = spec_join(base_dir@, initial_path@);
        if !is_root {
            assert(head =~= encs.map_values(
                |e: Encoding|
                    CandidateView { path: joined, encoding: Some(e), cache_control: None },
            ) + seq![CandidateView { path: joined, encoding: None, cache_control: None }]);
        } else {
            assert(head =~= Seq::<CandidateView>::empty());
        }
    }

    let n = encodings.len();
    let mut i: usize = 0;
    while i < n
        invariant
            n == encodings@.len(),
            0 <= i <= n,
            encodings@ == spec_supported(*client_encoding_support),
            paths_to_try@.len() == head.len() + i,
            paths_to_try.deep_view().take(head.len() as int) == head,
            forall|k: int|
                0 <= k < i ==> paths_to_try@[head.len() + k]@ == (CandidateView {
                    path: fallback_path@,
                    encoding: Some(encodings@[k]),
                    cache_control: Some("no-cache"@),
                }),
        decreases n - i,
    {
        paths_to_try.push(
            PathToTry {
                path: String::from_str(fallback_path),
                encoding: Some(encodings[i]),
                cache_control: Some("no-cache"),
            },
        );
        proof {
            assert(paths_to_try.deep_view().take(head.len() as int) =~= head);
        }
        i = i + 1;
    }

    paths_to_try.push(
        PathToTry { path: String::from_str(fallback_path), encoding: None, cache_control: None },
    );

    proof {
        assert(paths_to_try.deep_view() =~= all);
    }
    paths_to_try
}

} // verus!
