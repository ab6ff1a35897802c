//! Encoding (compression) negotiation.
//!
//! The client declares the content codings it accepts in a comma-separated
//! header value; each token may carry a quality parameter after `;`, which is
//! ignored (any declared token counts as full support).  The served encodings
//! are always ordered by compression efficiency: Brotli, then Zstandard, then
//! Gzip, regardless of the order the client declared them in.

use vstd::prelude::*;
use vstd::string::StrSliceExecFns;

use crate::strutil::eq_ignore_ascii_case;
use crate::strutil::find_char;
use crate::strutil::find_first;
use crate::strutil::lemma_find_first;
use crate::strutil::spec_trim;
use crate::strutil::split_on;
use crate::strutil::split_on_char;
use crate::strutil::str_eq_ignore_case;
use crate::strutil::trim;

verus! {

/// A content coding this server can serve from a pre-compressed sibling file.
#[derive(Clone, Copy, Debug, PartialEq, Eq, Structural)]
pub enum Encoding {
    /// Brotli compression (`br`)
    Brotli,

    /// Gzip compression (`gzip`)
    Gzip,

    /// Zstandard compression (`zstd`)
    Zstandard,
}

/// The wire token of an encoding, as it appears in `Accept-Encoding` and
/// `Content-Encoding` header values.
pub open spec fn spec_token(e: Encoding) -> Seq<char> {
    match e {
        Encoding::Brotli => "br"@,
        Encoding::Gzip => "gzip"@,
        Encoding::Zstandard => "zstd"@,
    }
}

/// The filename suffix of the pre-compressed sibling file for an encoding.
pub open spec fn spec_extension(e: Encoding) -> Seq<char> {
    match e {
        Encoding::Brotli => ".br"@,
        Encoding::Gzip => ".gz"@,
        Encoding::Zstandard => ".zst"@,
    }
}

impl Encoding {
    /// The value of the `Content-Encoding` response header for this encoding.
    pub fn to_header_value(self) -> (r: &'static str)
        ensures
            r@ == spec_token(self),
    {
        match self {
            Encoding::Brotli => "br",
            Encoding::Gzip => "gzip",
            Encoding::Zstandard => "zstd",
        }
    }

    /// The filename suffix used to locate the pre-compressed sibling file.
    pub fn get_extension(self) -> (r: &'static str)
        ensures
            r@ == spec_extension(self),
    {
        match self {
            Encoding::Brotli => ".br",
            Encoding::Gzip => ".gz",
            Encoding::Zstandard => ".zst",
        }
    }
}

/// Whether one declared token names the given encoding.
///
/// A quality parameter after `;` is ignored entirely (the part before the
/// `;` is trimmed, then compared); without a `;` the token is compared as
/// it stands.  The comparison ignores ASCII case.
pub open spec fn token_matches(token: Seq<char>, name: Seq<char>) -> bool {
    match find_first(token, ';') {
        Some(i) => eq_ignore_ascii_case(spec_trim(token.take(i)), name),
        None => eq_ignore_ascii_case(token, name),
    }
}

/// Whether any token of the list names the given encoding.
pub open spec fn spec_check_support(tokens: Seq<Seq<char>>, name: Seq<char>) -> bool {
    exists|i: int| 0 <= i < tokens.len() && token_matches(tokens[i], name)
}

/// Whether a comma-separated accepted-encodings header value declares
/// support for the given encoding name: some comma piece, once trimmed,
/// matches the name.
pub open spec fn header_declares(header: Seq<char>, name: Seq<char>) -> bool {
    exists|i: int|
        0 <= i < split_on(header, ',').len() && token_matches(
            spec_trim(split_on(header, ',')[i]),
            name,
        )
}

/// Whether one declared token names the given encoding.
fn matches_token(token: &str, name: &str) -> (r: bool)
    ensures
        r == token_matches(token@, name@),
{
    match find_char(token, ';') {
        Some(i) => {
            proof {
                lemma_find_first(token@, ';');
            }
            let before = token.substring_char(0, i);
            proof {
                assert(before@ =~= token@.take(i as int));
            }
            let t = trim(before);
            str_eq_ignore_case(t, name)
        },
        None => str_eq_ignore_case(token, name),
    }
}

/// Looking for a name among the trimmed comma pieces of a header value is
/// the same as asking whether the header declares that name.
proof fn lemma_trimmed_tokens_declare(header: Seq<char>, tokens: Seq<Seq<char>>, name: Seq<char>)
    requires
        tokens.len() == split_on(header, ',').len(),
        forall|k: int| 0 <= k < tokens.len() ==> tokens[k] == spec_trim(split_on(header, ',')[k]),
    ensures
        spec_check_support(tokens, name) == header_declares(header, name),
{
    if spec_check_support(tokens, name) {
        let i = choose|i: int| 0 <= i < tokens.len() && token_matches(tokens[i], name);
        assert(token_matches(spec_trim(split_on(header, ',')[i]), name));
    }
    if header_declares(header, name) {
        let i = choose|i: int|
            0 <= i < split_on(header, ',').len() && token_matches(
                spec_trim(split_on(header, ',')[i]),
                name,
            );
        assert(token_matches(tokens[i], name));
    }
}

/// What the client declared in its accepted-encodings header.
pub struct ClientEncodingSupport {
    /// Support for Brotli encoding
    pub has_brotli: bool,

    /// Support for Gzip encoding
    pub has_gzip: bool,

    /// Support for Zstandard encoding
    pub has_zstandard: bool,
}

impl Default for ClientEncodingSupport {
    /// Support for nothing: what an absent accepted-encodings header means.
    fn default() -> (r: Self)
        ensures
            !r.has_brotli && !r.has_gzip && !r.has_zstandard,
    {
        ClientEncodingSupport { has_brotli: false, has_gzip: false, has_zstandard: false }
    }
}

impl ClientEncodingSupport {
    /// Whether the token list declares support for the given encoding name.
    ///
    /// A token's quality value is ignored: `gzip;q=0` still counts as
    /// support for `gzip`.
    pub fn check_support(encodings: &[&str], encoding_name: &str) -> (r: bool)
        ensures
            r == spec_check_support(
                Seq::new(encodings@.len(), |i: int| encodings@[i]@),
                encoding_name@,
            ),
    {
        let ghost tokens = Seq::new(encodings@.len(), |i: int| encodings@[i]@);
        let n = encodings.len();
        let mut i: usize = 0;
        while i < n
            invariant
                n == encodings@.len(),
                0 <= i <= n,
                tokens == Seq::new(encodings@.len(), |k: int| encodings@[k]@),
                forall|k: int| 0 <= k < i ==> !token_matches(tokens[k], encoding_name@),
            decreases n - i,
        {
            if matches_token(encodings[i], encoding_name) {
                proof {
                    assert(tokens[i as int] == encodings@[i as int]@);
                }
                return true;
            }
            proof {
                assert(tokens[i as int] == encodings@[i as int]@);
            }
            i = i + 1;
        }
        false
    }

    /// Reads an accepted-encodings header value, if one was sent: the value
    /// is split on commas, each piece is trimmed, and each known encoding is
    /// looked for among the pieces.
    pub fn from_header_map(accept_encoding: Option<&str>) -> (r: Self)
        ensures
            match accept_encoding {
                Some(h) => {
                    &&& r.has_brotli == header_declares(h@, "br"@)
                    &&& r.has_gzip == header_declares(h@, "gzip"@)
                    &&& r.has_zstandard == header_declares(h@, "zstd"@)
                },
                None => {
                    &&& !r.has_brotli
                    &&& !r.has_gzip
                    &&& !r.has_zstandard
                },
            },
    {
        match accept_encoding {
            None => ClientEncodingSupport { has_brotli: false, has_gzip: false, has_zstandard: false },
            Some(h) => {
                let pieces = split_on_char(h, ',');
                let mut trimmed: Vec<&str> = Vec::new();
                let n = pieces.len();
                let mut i: usize = 0;
                while i < n
                    invariant
                        n == pieces@.len(),
                        0 <= i <= n,
                        pieces@.len() == split_on(h@, ',').len(),
                        forall|k: int| 0 <= k < n ==> pieces@[k]@ == split_on(h@, ',')[k],
                        trimmed@.len() == i,
                        forall|k: int|
                            0 <= k < i ==> trimmed@[k]@ == spec_trim(split_on(h@, ',')[k]),
                    decreases n - i,
                {
                    let t = trim(pieces[i]);
                    trimmed.push(t);
                    i = i + 1;
                }
                let ghost trimmed_tokens = Seq::new(trimmed@.len(), |k: int| trimmed@[k]@);
                let has_brotli = Self::check_support(trimmed.as_slice(), "br");
                let has_gzip = Self::check_support(trimmed.as_slice(), "gzip");
                let has_zstandard = Self::check_support(trimmed.as_slice(), "zstd");
                proof {
                    lemma_trimmed_tokens_declare(h@, trimmed_tokens, "br"@);
                    lemma_trimmed_tokens_declare(h@, trimmed_tokens, "gzip"@);
                    lemma_trimmed_tokens_declare(h@, trimmed_tokens, "zstd"@);
                }
                ClientEncodingSupport { has_brotli, has_gzip, has_zstandard }
            },
        }
    }

    /// The encodings the client declared support for, ordered by compression
    /// efficiency: Brotli, then Zstandard, then Gzip.
    ///
    /// Brotli generally compresses best; the files are pre-compressed, so
    /// the cost of compressing does not matter and the smallest variant is
    /// tried first.
    pub fn supported_encodings(&self) -> (r: Vec<Encoding>)
        ensures
            r@ == spec_supported(*self),
    {
        let mut r: Vec<Encoding> = Vec::new();
        if self.has_brotli {
            r.push(Encoding::Brotli);
        }
        if self.has_zstandard {
            r.push(Encoding::Zstandard);
        }
        if self.has_gzip {
            r.push(Encoding::Gzip);
        }
        proof {
            assert(r@ =~= spec_supported(*self));
        }
        r
    }
}

/// The ordered list of encodings a client declared: Brotli, then Zstandard,
/// then Gzip, each present exactly when declared.
pub open spec fn spec_supported(s: ClientEncodingSupport) -> Seq<Encoding> {
    (if s.has_brotli {
        seq![Encoding::Brotli]
    } else {
        Seq::empty()
    }) + (if s.has_zstandard {
        seq![Encoding::Zstandard]
    } else {
        Seq::empty()
    }) + (if s.has_gzip {
        seq![Encoding::Gzip]
    } else {
        Seq::empty()
    })
}

} // verus!
