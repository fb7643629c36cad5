//! Upgrade-URL handling: the query parameters a runner identifies itself
//! with. `protocol_version`, `namespace` and `runner_key` are all required;
//! a missing or unusable one fails the handshake with `invalid_url`.
//!
//! Splitting and percent-decoding the query is the `url` crate's work,
//! reached through one trusted wrapper; everything after that — picking the
//! parameters and reading the version number — is verified here.

use vstd::prelude::*;
use vstd::string::StringExecFns;

use crate::error::{WsError, WsErrorView};

verus! {

/// The identity a runner claims in its upgrade URL.
#[derive(Clone, Debug, PartialEq, Eq)]
pub struct UrlData {
    pub protocol_version: u16,
    pub namespace: String,
    pub runner_key: String,
}

/// The decoded (name, value) query pairs of an upgrade path, exactly as the
/// `url` crate yields them, or `None` when the path does not parse as a URL.
pub uninterp spec fn query_pairs_of(path: Seq<char>) -> Option<Seq<(Seq<char>, Seq<char>)>>;

/// Relies on `url::Url::parse` and `Url::query_pairs`: parsing is a function
/// of the text alone, and `query_pairs` yields the query's percent-decoded
/// (name, value) pairs in order.
#[verifier::external_body]
fn url_query_pairs(path: &str) -> (r: Option<Vec<(String, String)>>)
    ensures
        r matches Some(v) ==> (query_pairs_of(path@) matches Some(q) && v.deep_view() == q),
        r is None ==> query_pairs_of(path@) is None,
{
    let full = format!("ws://placeholder{}", path);
    match url::Url::parse(&full) {
        Ok(u) => Some(u.query_pairs().map(|(k, v)| (k.into_owned(), v.into_owned())).collect()),
        Err(_) => None,
    }
}

/// The value of the first query pair named `name`.
pub open spec fn spec_find_param(q: Seq<(Seq<char>, Seq<char>)>, name: Seq<char>) -> Option<
    Seq<char>,
>
    decreases q.len(),
{
    if q.len() == 0 {
        None
    } else if q[0].0 == name {
        Some(q[0].1)
    } else {
        spec_find_param(q.drop_first(), name)
    }
}

proof fn lemma_find_param_skip(q: Seq<(Seq<char>, Seq<char>)>, name: Seq<char>, i: int)
    requires
        0 <= i <= q.len(),
        forall|j: int| 0 <= j < i ==> #[trigger] q[j].0 != name,
    ensures
        spec_find_param(q, name) == spec_find_param(q.skip(i), name),
    decreases i,
{
    if i > 0 {
        lemma_find_param_skip(q, name, i - 1);
        assert(q.skip(i - 1)[0] == q[i - 1]);
        assert(q.skip(i - 1).drop_first() =~= q.skip(i));
    } else {
        assert(q.skip(0) =~= q);
    }
}

fn find_param(pairs: &Vec<(String, String)>, name: &String) -> (r: Option<String>)
    ensures
        match spec_find_param(pairs.deep_view(), name@) {
            Some(v) => r matches Some(x) && x@ == v,
            None => r is None,
        },
{
    let ghost q = pairs.deep_view();
    let mut i: usize = 0;
    while i < pairs.len()
        invariant
            i <= pairs@.len(),
            q == pairs.deep_view(),
            q.len() == pairs@.len(),
            forall|j: int| 0 <= j < i ==> #[trigger] q[j].0 != name@,
        decreases pairs@.len() - i,
    {
        proof {
            assert(q[i as int] == pairs@[i as int].deep_view());
            assert(q[i as int].0 == pairs@[i as int].0@);
            assert(q[i as int].1 == pairs@[i as int].1@);
        }
        if pairs[i].0 == *name {
            proof {
                lemma_find_param_skip(q, name@, i as int);
                assert(q.skip(i as int)[0] == q[i as int]);
            }
            return Some(pairs[i].1.clone());
        }
        i += 1;
    }
    proof {
        lemma_find_param_skip(q, name@, q.len() as int);
        assert(q.skip(q.len() as int) =~= Seq::<(Seq<char>, Seq<char>)>::empty());
    }
    None
}

/// Whether a character is a decimal digit.
pub open spec fn spec_is_digit(c: char) -> bool {
    48 <= c as u32 <= 57
}

/// The number a digit string denotes, most significant digit first.
pub open spec fn spec_digits_val(s: Seq<char>) -> int
    decreases s.len(),
{
    if s.len() == 0 {
        0
    } else {
        spec_digits_val(s.drop_last()) * 10 + (s.last() as u32 - 48)
    }
}

/// How `protocol_version` reads as a 16-bit number: at least one character,
/// all decimal digits, value at most 65535.
pub open spec fn spec_parse_u16(s: Seq<char>) -> Option<u16> {
    if s.len() > 0 && (forall|i: int| 0 <= i < s.len() ==> spec_is_digit(#[trigger] s[i]))
        && spec_digits_val(s) <= 65535 {
        Some(spec_digits_val(s) as u16)
    } else {
        None
    }
}

proof fn lemma_digits_val_nonneg(s: Seq<char>)
    requires
        forall|i: int| 0 <= i < s.len() ==> spec_is_digit(#[trigger] s[i]),
    ensures
        spec_digits_val(s) >= 0,
    decreases s.len(),
{
    if s.len() > 0 {
        assert(forall|i: int|
            0 <= i < s.drop_last().len() ==> spec_is_digit(#[trigger] s.drop_last()[i]));
        lemma_digits_val_nonneg(s.drop_last());
        assert(spec_is_digit(s.last()));
    }
}

proof fn lemma_digits_val_prefix(s: Seq<char>, i: int)
    requires
        0 <= i <= s.len(),
        forall|j: int| 0 <= j < s.len() ==> spec_is_digit(#[trigger] s[j]),
    ensures
        spec_digits_val(s.take(i)) <= spec_digits_val(s),
    decreases s.len() - i,
{
    if i == s.len() {
        assert(s.take(i) =~= s);
    } else {
        assert(forall|j: int|
            0 <= j < s.take(i).len() ==> spec_is_digit(#[trigger] s.take(i)[j]));
        lemma_digits_val_nonneg(s.take(i));
        assert(s.take(i + 1).drop_last() =~= s.take(i));
        assert(s.take(i + 1).last() == s[i]);
        assert(spec_is_digit(s[i]));
        assert(spec_digits_val(s.take(i + 1)) == spec_digits_val(s.take(i)) * 10 + (s[i] as u32
            - 48));
        lemma_digits_val_prefix(s, i + 1);
    }
}

/// Parse a decimal 16-bit number, as the `protocol_version` parameter
/// demands: `Some` exactly for a nonempty all-digit string whose value
/// fits in 16 bits.
pub fn parse_u16(s: &String) -> (r: Option<u16>)
    ensures
        r == spec_parse_u16(s@),
{
    let n = s.as_str().unicode_len();
    if n == 0 {
        return None;
    }
    let mut acc: u64 = 0;
    let mut i: usize = 0;
    while i < n
        invariant
            0 < n == s@.len(),
            i <= n,
            acc <= 65535,
            acc == spec_digits_val(s@.take(i as int)),
            forall|j: int| 0 <= j < i ==> spec_is_digit(#[trigger] s@[j]),
        decreases n - i,
    {
        let c = s.as_str().get_char(i);
        let cu = c as u32;
        if cu < 48 || cu > 57 {
            return None;
        }
        let d = (cu - 48) as u64;
        acc = acc * 10 + d;
        proof {
            assert(s@.take(i + 1 as int).drop_last() =~= s@.take(i as int));
            assert(s@.take(i + 1 as int).last() == s@[i as int]);
        }
        i += 1;
        if acc > 65535 {
            proof {
                assert(forall|j: int|
                    0 <= j < i ==> spec_is_digit(#[trigger] s@[j]));
                if forall|j: int| 0 <= j < s@.len() ==> spec_is_digit(#[trigger] s@[j]) {
                    lemma_digits_val_prefix(s@, i as int);
                }
            }
            return None;
        }
    }
    proof {
        assert(s@.take(n as int) =~= s@);
    }
    Some(acc as u16)
}

/// What a parse of the query pairs must return: each required parameter in
/// turn, or the exact `invalid_url` error naming the first one missing or
/// unusable.
pub open spec fn url_data_matches(
    r: Result<UrlData, WsError>,
    q: Seq<(Seq<char>, Seq<char>)>,
) -> bool {
    match spec_find_param(q, "protocol_version"@) {
        None => r matches Err(e) && e@ == (WsErrorView::InvalidUrl {
            detail: "missing `protocol_version` query parameter"@,
        }),
        Some(pv) => match spec_parse_u16(pv) {
            None => r matches Err(e) && e@ == (WsErrorView::InvalidUrl {
                detail: "invalid `protocol_version` query parameter"@,
            }),
            Some(v) => match spec_find_param(q, "namespace"@) {
                None => r matches Err(e) && e@ == (WsErrorView::InvalidUrl {
                    detail: "missing `namespace` query parameter"@,
                }),
                Some(ns) => match spec_find_param(q, "runner_key"@) {
                    None => r matches Err(e) && e@ == (WsErrorView::InvalidUrl {
                        detail: "missing `runner_key` query parameter"@,
                    }),
                    Some(k) => r matches Ok(u) && u.protocol_version == v && u.namespace@ == ns
                        && u.runner_key@ == k,
                },
            },
        },
    }
}

/// Read the three required parameters out of decoded query pairs.
pub fn parse_url_data(pairs: &Vec<(String, String)>) -> (r: Result<UrlData, WsError>)
    ensures
        url_data_matches(r, pairs.deep_view()),
{
    let pv = match find_param(pairs, &String::from_str("protocol_version")) {
        Some(x) => x,
        None => {
            return Err(
                WsError::InvalidUrl {
                    detail: String::from_str("missing `protocol_version` query parameter"),
                },
            );
        },
    };
    let protocol_version = match parse_u16(&pv) {
        Some(v) => v,
        None => {
            return Err(
                WsError::InvalidUrl {
                    detail: String::from_str("invalid `protocol_version` query parameter"),
                },
            );
        },
    };
    let namespace = match find_param(pairs, &String::from_str("namespace")) {
        Some(x) => x,
        None => {
            return Err(
                WsError::InvalidUrl {
                    detail: String::from_str("missing `namespace` query parameter"),
                },
            );
        },
    };
    let runner_key = match find_param(pairs, &String::from_str("runner_key")) {
        Some(x) => x,
        None => {
            return Err(
                WsError::InvalidUrl {
                    detail: String::from_str("missing `runner_key` query parameter"),
                },
            );
        },
    };
    Ok(UrlData { protocol_version, namespace, runner_key })
}

/// Parse a connection path's query into `UrlData`: the whole of the
/// handshake's first step.
pub fn parse_url_params(path: &str) -> (r: Result<UrlData, WsError>)
    ensures
        query_pairs_of(path@) is None ==> (r matches Err(e) && e@ == (WsErrorView::InvalidUrl {
            detail: "could not parse connection url"@,
        })),
        query_pairs_of(path@) matches Some(q) ==> url_data_matches(r, q),
{
    match url_query_pairs(path) {
        None => Err(
            WsError::InvalidUrl { detail: String::from_str("could not parse connection url") },
        ),
        Some(pairs) => parse_url_data(&pairs),
    }
}

} // verus!
