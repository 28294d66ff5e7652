//! The side-channel line protocol. Outbound lines are the descriptor text
//! followed by a newline, with no key prefix. Inbound lines are
//! `<decimal-u64-key>#<payload>`: the text before the first `#` must parse
//! as the key, and everything after it is the opaque payload. A line with no
//! `#` or a non-numeric key is discarded and the listener reads on. A waiter
//! accepts a broadcast message exactly when its key matches.

use vstd::prelude::*;

use crate::decimal::parse_decimal_spec;
use crate::text::{find_char, is_first_index_of};

verus! {

/// What an inbound side-channel line carries: the decimal key before the
/// first `#` and the payload after it, or nothing when the line has no `#`
/// or its key does not parse as a `u64`.
pub open spec fn inbound_line_parse(line: Seq<char>) -> Option<(u64, Seq<char>)> {
    if exists|i: int| is_first_index_of(line, '#', i) {
        let i = choose|i: int| is_first_index_of(line, '#', i);
        match parse_decimal_spec(line.take(i), u64::MAX as int) {
            Some(k) => Some((k as u64, line.skip(i + 1))),
            None => None,
        }
    } else {
        None
    }
}

/// Parse one inbound side-channel line into its key and payload; a
/// malformed line yields nothing and is the caller's cue to discard it.
pub fn parse_inbound_line(line: &str) -> (r: Option<(u64, String)>)
    ensures
        match r {
            Some(message) => inbound_line_parse(line@) == Some((message.0, message.1@)),
            None => inbound_line_parse(line@) is None,
        },
{
    let len = line.unicode_len();
    let separator = find_char(line, '#');
    match separator {
        Some(i) => {
            proof {
                assert(exists|x: int| is_first_index_of(line@, '#', x)) by {
                    assert(is_first_index_of(line@, '#', i as int));
                }
                let chosen = choose|x: int| is_first_index_of(line@, '#', x);
                crate::query::lemma_first_index_unique(line@, '#', chosen, i as int);
            }
            let key_text = line.substring_char(0, i);
            let payload = line.substring_char(i + 1, len);
            proof {
                assert(key_text@ =~= line@.take(i as int));
                assert(payload@ =~= line@.skip(i + 1));
            }
            let key_option = crate::decimal::parse_decimal(key_text, u64::MAX);
            match key_option {
                Some(key) => {
                    let mut owned = String::new();
                    owned.append(payload);
                    proof {
                        assert(owned@ =~= payload@);
                    }
                    Some((key, owned))
                },
                None => None,
            }
        },
        None => {
            proof {
                assert(!exists|x: int| is_first_index_of(line@, '#', x)) by {
                    if exists|x: int| is_first_index_of(line@, '#', x) {
                        let x = choose|x: int| is_first_index_of(line@, '#', x);
                        assert(line@[x] == '#');
                    }
                }
            }
            None
        },
    }
}

/// A waiter's decision on one broadcast message: the payload when the key
/// is the one awaited, nothing (keep waiting) otherwise.
pub fn filter_message(awaited_key: u64, received_key: u64, payload: String) -> (r: Option<String>)
    ensures
        match r {
            Some(p) => received_key == awaited_key && p == payload,
            None => received_key != awaited_key,
        },
{
    if received_key == awaited_key {
        Some(payload)
    } else {
        None
    }
}

/// Frame one outbound line: the text followed by a single newline, with no
/// key prefix.
pub fn frame_line(text: &str) -> (r: String)
    ensures
        r@ == text@.push('\n'),
{
    let mut out = String::new();
    out.append(text);
    crate::text::push_char(&mut out, '\n');
    proof {
        assert(out@ =~= text@.push('\n'));
    }
    out
}

} // verus!
