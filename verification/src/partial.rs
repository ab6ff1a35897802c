//! Byte-range (partial content) handling.
//!
//! A request may name a single byte range, `bytes=start-end`,
//! `bytes=start-` or `bytes=-end`; only the first range of a list is
//! honored.  A missing start means the start of the resource, a missing end
//! its last byte.  A range is rejected when its start exceeds the resource's
//! length, its end lies before its start, or its end is at or beyond the
//! length.

use vstd::prelude::*;
use vstd::string::StrSliceExecFns;
use vstd::string::StringExecFns;

use crate::numstr::dec_digits;
use crate::numstr::dec_value;
use crate::numstr::is_digits;
use crate::numstr::parse_u64;
use crate::numstr::u64_to_string;
use crate::strutil::find_char;
use crate::strutil::find_first;
use crate::strutil::lemma_find_first;
use crate::strutil::str_eq;

verus! {

/// One requested byte range, before resolution against the resource length.
#[derive(Clone, Copy, PartialEq, Eq, Structural, Debug)]
pub struct RangeSpec {
    /// The first byte position asked for; missing means the start.
    pub start: Option<u64>,
    /// The last byte position asked for, inclusive; missing means the end.
    pub end: Option<u64>,
}

/// What a `Range` header value denotes: the first range of a
/// `bytes=start-end` list, either bound optional, both bounds decimal.
/// Anything else (including a range with both bounds missing, or a bound
/// over 64 bits) denotes no usable range.
pub open spec fn spec_parse_range(h: Seq<char>) -> Option<RangeSpec> {
    if h.len() < 6 || h.take(6) != "bytes="@ {
        None
    } else {
        let rest = h.skip(6);
        let part = match find_first(rest, ',') {
            Some(i) => rest.take(i),
            None => rest,
        };
        match find_first(part, '-') {
            None => None,
            Some(i) => {
                let sp = part.take(i);
                let ep = part.skip(i + 1);
                if sp.len() == 0 && ep.len() == 0 {
                    None
                } else if sp.len() > 0 && !(is_digits(sp) && dec_value(sp) <= u64::MAX) {
                    None
                } else if ep.len() > 0 && !(is_digits(ep) && dec_value(ep) <= u64::MAX) {
                    None
                } else {
                    Some(
                        RangeSpec {
                            start: if sp.len() == 0 {
                                None
                            } else {
                                Some(dec_value(sp) as u64)
                            },
                            end: if ep.len() == 0 {
                                None
                            } else {
                                Some(dec_value(ep) as u64)
                            },
                        },
                    )
                }
            },
        }
    }
}

/// Reads a `Range` header value, if one was sent; a value that does not
/// denote a usable single byte range yields no range at all.
pub fn parse_range_header(value: Option<&str>) -> (r: Option<RangeSpec>)
    ensures
        r == (match value {
            Some(h) => spec_parse_range(h@),
            None => None::<RangeSpec>,
        }),
{
    let h = match value {
        Some(h) => h,
        None => {
            return None;
        },
    };
    let len = h.unicode_len();
    if len < 6 {
        return None;
    }
    let prefix = h.substring_char(0, 6);
    if !str_eq(prefix, "bytes=") {
        proof {
            assert(prefix@ =~= h@.take(6));
        }
        return None;
    }
    proof {
        assert(prefix@ =~= h@.take(6));
    }
    let rest = h.substring_char(6, len);
    proof {
        assert(rest@ =~= h@.skip(6));
    }
    let rest_len = rest.unicode_len();
    let part = match find_char(rest, ',') {
        Some(i) => {
            proof {
                lemma_find_first(rest@, ',');
            }
            rest.substring_char(0, i)
        },
        None => rest,
    };
    proof {
        assert(part@ =~= (match find_first(rest@, ',') {
            Some(i) => rest@.take(i),
            None => rest@,
        }));
    }
    let part_len = part.unicode_len();
    let dash = match find_char(part, '-') {
        Some(i) => i,
        None => {
            return None;
        },
    };
    proof {
        lemma_find_first(part@, '-');
    }
    let sp = part.substring_char(0, dash);
    let ep = part.substring_char(dash + 1, part_len);
    proof {
        assert(sp@ =~= part@.take(dash as int));
        assert(ep@ =~= part@.skip(dash + 1));
    }
    let sp_len = sp.unicode_len();
    let ep_len = ep.unicode_len();
    if sp_len == 0 && ep_len == 0 {
        return None;
    }
    let start: Option<u64> = if sp_len == 0 {
        None
    } else {
        match parse_u64(sp) {
            Some(v) => Some(v),
            None => {
                return None;
            },
        }
    };
    let end: Option<u64> = if ep_len == 0 {
        None
    } else {
        match parse_u64(ep) {
            Some(v) => Some(v),
            None => {
                return None;
            },
        }
    };
    Some(RangeSpec { start, end })
}

/// The first byte position a range asks for.
pub open spec fn resolved_start(r: RangeSpec) -> u64 {
    match r.start {
        Some(s) => s,
        None => 0u64,
    }
}

/// The last byte position a range asks for, inclusive, resolved against the
/// resource's length.
pub open spec fn resolved_end(r: RangeSpec, content_length: u64) -> u64 {
    match r.end {
        Some(e) => e,
        None => if content_length == 0 {
            0u64
        } else {
            (content_length - 1) as u64
        },
    }
}

/// Whether a range can be served from a resource of the given length: its
/// start does not exceed the length, its end is not before its start, and
/// its end lies within the resource.
pub open spec fn range_satisfiable(r: RangeSpec, content_length: u64) -> bool {
    let s = resolved_start(r);
    let e = resolved_end(r, content_length);
    s <= content_length && e >= s && e < content_length
}

/// Resolves a range against the resource's length: the inclusive byte
/// positions to serve, or a rejection when the range cannot be satisfied.
pub fn process_range(content_length: u64, range: RangeSpec) -> (r: Result<(u64, u64), ()>)
    ensures
        match r {
            Ok((s, e)) => range_satisfiable(range, content_length) && s == resolved_start(range)
                && e == resolved_end(range, content_length),
            Err(()) => !range_satisfiable(range, content_length),
        },
{
    let start = match range.start {
        Some(s) => s,
        None => 0,
    };
    let end = match range.end {
        Some(e) => e,
        None => if content_length == 0 {
            0
        } else {
            content_length - 1
        },
    };
    if start > content_length {
        return Err(());
    }
    if end < start {
        return Err(());
    }
    if end >= content_length {
        return Err(());
    }
    Ok((start, end))
}

/// The value of a `Content-Range` header: `bytes start-end/total`.
pub open spec fn content_range_string(start: u64, end: u64, total: u64) -> Seq<char> {
    "bytes "@ + dec_digits(start as nat) + "-"@ + dec_digits(end as nat) + "/"@ + dec_digits(
        total as nat,
    )
}

/// Builds a `Content-Range` header value, `bytes start-end/total`.
pub fn content_range_value(start: u64, end: u64, total: u64) -> (r: String)
    ensures
        r@ == content_range_string(start, end, total),
{
    proof {
        reveal_strlit("bytes ");
        reveal_strlit("-");
        reveal_strlit("/");
    }
    let mut s = String::from_str("bytes ");
    s.append(u64_to_string(start).as_str());
    s.append("-");
    s.append(u64_to_string(end).as_str());
    s.append("/");
    s.append(u64_to_string(total).as_str());
    s
}

/// The bytes of one inclusive range of a resource held in memory.
pub fn range_bytes(bytes: &Vec<u8>, start: u64, end: u64) -> (r: Vec<u8>)
    requires
        start <= end,
        end < bytes@.len(),
    ensures
        r@ == bytes@.subrange(start as int, end + 1),
{
    let n = bytes.len();
    proof {
        assert(bytes@.len() == n);
    }
    let s = start as usize;
    let e = end as usize;
    let mut r: Vec<u8> = Vec::new();
    let mut i: usize = s;
    proof {
        assert(r@ =~= bytes@.subrange(s as int, s as int));
    }
    while i <= e
        invariant
            s <= i <= e + 1,
            e < bytes@.len() <= usize::MAX,
            r@ == bytes@.subrange(s as int, i as int),
        decreases e + 1 - i,
    {
        r.push(bytes[i]);
        proof {
            assert(r@ =~= bytes@.subrange(s as int, i + 1));
        }
        i = i + 1;
    }
    r
}

} // verus!
