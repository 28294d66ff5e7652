//! Query-string and url-encoded-form parsing: split on `&`, split each
//! segment on its first `=`, percent-decode key and value, and accumulate
//! repeated keys into ordered value lists. A segment without `=`, or one
//! whose percent-decoding fails, makes the whole parse fail.

use vstd::prelude::*;

use crate::table::{accumulated_lookup, pairs_values, MultiValueTable};
use crate::text::{find_char, is_first_index_of};

verus! {

/// What `urlencoding::decode` yields for a character sequence: the decoded
/// text, or nothing when the decoded bytes are not valid UTF-8. The meaning
/// of the name is fixed by the contract of `percent_decode` below.
pub uninterp spec fn percent_decoded(s: Seq<char>) -> Option<Seq<char>>;

/// Relies on `urlencoding::decode`: percent-decodes the string, preserving
/// `+` and malformed escapes literally, and fails exactly when the decoded
/// bytes are not valid UTF-8. The result depends on the characters alone.
#[verifier::external_body]
pub(crate) fn percent_decode(s: &str) -> (r: Option<String>)
    ensures
        match r {
            Some(v) => percent_decoded(s@) == Some(v@),
            None => percent_decoded(s@) is None,
        },
{
    match urlencoding::decode(s) {
        Ok(decoded) => Some(decoded.into_owned()),
        Err(_) => None,
    }
}

/// The segments of `s` between occurrences of `sep`; the empty separator
/// positions yield empty segments, and a string without `sep` is one
/// segment.
pub open spec fn split_on(s: Seq<char>, sep: char) -> Seq<Seq<char>>
    decreases s.len(),
{
    if exists|i: int| is_first_index_of(s, sep, i) {
        let i = choose|i: int| is_first_index_of(s, sep, i);
        seq![s.take(i)] + split_on(s.skip(i + 1), sep)
    } else {
        seq![s]
    }
}

/// A parsed `key=value` segment: split on the first `=`, both sides
/// percent-decoded; nothing when `=` is absent or a decoding fails.
pub open spec fn parse_segment(seg: Seq<char>) -> Option<(Seq<char>, Seq<char>)> {
    if exists|i: int| is_first_index_of(seg, '=', i) {
        let i = choose|i: int| is_first_index_of(seg, '=', i);
        match (percent_decoded(seg.take(i)), percent_decoded(seg.skip(i + 1))) {
            (Some(k), Some(v)) => Some((k, v)),
            _ => None,
        }
    } else {
        None
    }
}

/// The key/value pairs of a segment list, or nothing when any segment fails
/// to parse.
pub open spec fn parsed_pairs_of(segments: Seq<Seq<char>>) -> Option<
    Seq<(Seq<char>, Seq<char>)>,
>
    decreases segments.len(),
{
    if segments.len() == 0 {
        Some(Seq::empty())
    } else {
        match (parse_segment(segments.first()), parsed_pairs_of(segments.drop_first())) {
            (Some(p), Some(rest)) => Some(seq![p] + rest),
            _ => None,
        }
    }
}

/// The key/value pairs of a whole query string: the empty string holds no
/// pairs; otherwise every `&`-separated segment must parse.
pub open spec fn query_pairs(s: Seq<char>) -> Option<Seq<(Seq<char>, Seq<char>)>> {
    if s.len() == 0 {
        Some(Seq::empty())
    } else {
        parsed_pairs_of(split_on(s, '&'))
    }
}

/// What a parsed query answers for key `k`.
pub open spec fn query_lookup(s: Seq<char>, k: Seq<char>) -> Option<Seq<Seq<char>>> {
    match query_pairs(s) {
        Some(pairs) => accumulated_lookup(pairs, k),
        None => None,
    }
}

pub proof fn lemma_first_index_unique(s: Seq<char>, c: char, i: int, j: int)
    requires
        is_first_index_of(s, c, i),
        is_first_index_of(s, c, j),
    ensures
        i == j,
{
    if i < j {
        assert(s[i] != c);
    }
    if j < i {
        assert(s[j] != c);
    }
}

/// Parse a query string or url-encoded form body into its key/value table.
/// Fails exactly when some segment has no `=` or a percent-decoding fails.
pub fn parse_url_encoded_string(s: &str) -> (r: Option<MultiValueTable>)
    ensures
        (r is Some) == (query_pairs(s@) is Some),
        match r {
            Some(t) => t.wf() && forall|k: Seq<char>| #[trigger] t.lookup(k) == query_lookup(
                s@,
                k,
            ),
            None => true,
        },
{
    let mut result = MultiValueTable::new();
    if s.unicode_len() == 0 {
        return Some(result);
    }
    let ghost whole = s@;
    let ghost mut done: Seq<(Seq<char>, Seq<char>)> = Seq::empty();
    let mut rest: &str = s;
    loop
        invariant
            whole == s@,
            rest@.len() <= usize::MAX,
            result.wf(),
            forall|k: Seq<char>| #[trigger] result.lookup(k) == accumulated_lookup(done, k),
            query_pairs(whole) == (match parsed_pairs_of(split_on(rest@, '&')) {
                Some(rest_pairs) => Some(done + rest_pairs),
                None => None::<Seq<(Seq<char>, Seq<char>)>>,
            }),
        decreases rest@.len(),
    {
        let rest_len = rest.unicode_len();
        let separator = find_char(rest, '&');
        let ghost tail_segments: Seq<Seq<char>>;
        let segment: &str;
        let next: Option<&str>;
        match separator {
            Some(i) => {
                segment = rest.substring_char(0, i);
                next = Some(rest.substring_char(i + 1, rest_len));
                proof {
                    assert(exists|x: int| is_first_index_of(rest@, '&', x)) by {
                        assert(is_first_index_of(rest@, '&', i as int));
                    }
                    let chosen = choose|x: int| is_first_index_of(rest@, '&', x);
                    lemma_first_index_unique(rest@, '&', chosen, i as int);
                    tail_segments = split_on(rest@.skip(i + 1), '&');
                    assert(segment@ =~= rest@.take(i as int));
                    assert(split_on(rest@, '&') =~= seq![segment@] + tail_segments);
                }
            },
            None => {
                segment = rest;
                next = None;
                proof {
                    assert(!exists|x: int| is_first_index_of(rest@, '&', x)) by {
                        if exists|x: int| is_first_index_of(rest@, '&', x) {
                            let x = choose|x: int| is_first_index_of(rest@, '&', x);
                            assert(rest@[x] == '&');
                        }
                    }
                    tail_segments = Seq::empty();
                    assert(split_on(rest@, '&') =~= seq![segment@] + tail_segments);
                }
            },
        }
        proof {
            assert((seq![segment@] + tail_segments).first() == segment@);
            assert((seq![segment@] + tail_segments).drop_first() =~= tail_segments);
        }
        // Split the segment on its first `=`; a segment without one fails
        // the whole parse, as does a failing percent-decoding.
        let equals = find_char(segment, '=');
        match equals {
            Some(j) => {
                proof {
                    assert(exists|x: int| is_first_index_of(segment@, '=', x)) by {
                        assert(is_first_index_of(segment@, '=', j as int));
                    }
                    let chosen = choose|x: int| is_first_index_of(segment@, '=', x);
                    lemma_first_index_unique(segment@, '=', chosen, j as int);
                }
                let segment_len = segment.unicode_len();
                let raw_key = segment.substring_char(0, j);
                let raw_value = segment.substring_char(j + 1, segment_len);
                proof {
                    assert(raw_key@ =~= segment@.take(j as int));
                    assert(raw_value@ =~= segment@.skip(j + 1));
                }
                let decoded_key = percent_decode(raw_key);
                let decoded_value = percent_decode(raw_value);
                match (decoded_key, decoded_value) {
                    (Some(key), Some(value)) => {
                        let ghost pair = (key@, value@);
                        proof {
                            assert(parse_segment(segment@) == Some(pair));
                        }
                        let ghost old_table = result;
                        result.append(key, value);
                        proof {
                            crate::table::lemma_accumulate_step(old_table, result, done, pair);
                            assert(done + (seq![pair] + parsed_pairs_of(tail_segments).unwrap())
                                =~= done.push(pair) + parsed_pairs_of(tail_segments).unwrap());
                            done = done.push(pair);
                        }
                    },
                    _ => {
                        proof {
                            assert(parse_segment(segment@) is None);
                            assert(parsed_pairs_of(split_on(rest@, '&')) is None);
                        }
                        return None;
                    },
                }
            },
            None => {
                proof {
                    assert(!exists|x: int| is_first_index_of(segment@, '=', x)) by {
                        if exists|x: int| is_first_index_of(segment@, '=', x) {
                            let x = choose|x: int| is_first_index_of(segment@, '=', x);
                            assert(segment@[x] == '=');
                        }
                    }
                    assert(parse_segment(segment@) is None);
                    assert(parsed_pairs_of(split_on(rest@, '&')) is None);
                }
                return None;
            },
        }
        match next {
            Some(remaining) => {
                rest = remaining;
            },
            None => {
                proof {
                    assert(parsed_pairs_of(tail_segments) == Some(
                        Seq::<(Seq<char>, Seq<char>)>::empty(),
                    ));
                    assert(done + Seq::<(Seq<char>, Seq<char>)>::empty() =~= done);
                }
                return Some(result);
            },
        }
    }
}

} // verus!
