//! JSON text concerns owned by the gateway: escaping a string into a JSON
//! string literal body exactly as the compact serializer writes it, and the
//! trusted bridge to the JSON parser for request bodies.

use vstd::prelude::*;

verus! {

/// The lower-case hex digit for a value in `0 ..= 15`.
pub open spec fn hex_digit_char(d: int) -> char {
    if d == 0 {
        '0'
    } else if d == 1 {
        '1'
    } else if d == 2 {
        '2'
    } else if d == 3 {
        '3'
    } else if d == 4 {
        '4'
    } else if d == 5 {
        '5'
    } else if d == 6 {
        '6'
    } else if d == 7 {
        '7'
    } else if d == 8 {
        '8'
    } else if d == 9 {
        '9'
    } else if d == 10 {
        'a'
    } else if d == 11 {
        'b'
    } else if d == 12 {
        'c'
    } else if d == 13 {
        'd'
    } else if d == 14 {
        'e'
    } else {
        'f'
    }
}

/// How one character appears inside a JSON string literal: quote and
/// backslash get a backslash escape, the named control characters get their
/// short escapes, the remaining controls below `0x20` get `\u00..`, and
/// everything else stands for itself.
pub open spec fn escaped_char(c: char) -> Seq<char> {
    if c == '"' {
        seq!['\\', '"']
    } else if c == '\\' {
        seq!['\\', '\\']
    } else if c as u32 == 8 {
        seq!['\\', 'b']
    } else if c as u32 == 9 {
        seq!['\\', 't']
    } else if c as u32 == 10 {
        seq!['\\', 'n']
    } else if c as u32 == 12 {
        seq!['\\', 'f']
    } else if c as u32 == 13 {
        seq!['\\', 'r']
    } else if (c as u32) < 32 {
        let hi = hex_digit_char(((c as u32) as int) / 16);
        let lo = hex_digit_char(((c as u32) as int) % 16);
        seq!['\\', 'u', '0', '0', hi, lo]
    } else {
        seq![c]
    }
}

/// The body of a JSON string literal for `s`: each character escaped.
pub open spec fn escaped_text(s: Seq<char>) -> Seq<char>
    decreases s.len(),
{
    if s.len() == 0 {
        Seq::empty()
    } else {
        escaped_text(s.drop_last()) + escaped_char(s.last())
    }
}

fn hex_digit_char_exec(d: u32) -> (c: char)
    requires
        d <= 15,
    ensures
        c == hex_digit_char(d as int),
{
    match d {
        0 => '0',
        1 => '1',
        2 => '2',
        3 => '3',
        4 => '4',
        5 => '5',
        6 => '6',
        7 => '7',
        8 => '8',
        9 => '9',
        10 => 'a',
        11 => 'b',
        12 => 'c',
        13 => 'd',
        14 => 'e',
        _ => 'f',
    }
}

/// Escape `s` for inclusion in a JSON string literal, exactly as the compact
/// JSON serializer writes string contents.
pub fn escape_json_string(s: &str) -> (r: String)
    ensures
        r@ == escaped_text(s@),
{
    let len = s.unicode_len();
    let mut out = String::new();
    let mut i: usize = 0;
    proof {
        assert(s@.take(0) =~= Seq::empty());
    }
    while i < len
        invariant
            len == s@.len(),
            i <= len,
            out@ == escaped_text(s@.take(i as int)),
        decreases len - i,
    {
        let c = s.get_char(i);
        let cv = c as u32;
        if c == '"' {
            proof {
                reveal_strlit("\\\"");
            }
            out.append("\\\"");
            proof {
                assert(out@ =~= escaped_text(s@.take(i as int)) + escaped_char(c));
            }
        } else if c == '\\' {
            proof {
                reveal_strlit("\\\\");
            }
            out.append("\\\\");
            proof {
                assert(out@ =~= escaped_text(s@.take(i as int)) + escaped_char(c));
            }
        } else if cv == 8 {
            proof {
                reveal_strlit("\\b");
            }
            out.append("\\b");
            proof {
                assert(out@ =~= escaped_text(s@.take(i as int)) + escaped_char(c));
            }
        } else if cv == 9 {
            proof {
                reveal_strlit("\\t");
            }
            out.append("\\t");
            proof {
                assert(out@ =~= escaped_text(s@.take(i as int)) + escaped_char(c));
            }
        } else if cv == 10 {
            proof {
                reveal_strlit("\\n");
            }
            out.append("\\n");
            proof {
                assert(out@ =~= escaped_text(s@.take(i as int)) + escaped_char(c));
            }
        } else if cv == 12 {
            proof {
                reveal_strlit("\\f");
            }
            out.append("\\f");
            proof {
                assert(out@ =~= escaped_text(s@.take(i as int)) + escaped_char(c));
            }
        } else if cv == 13 {
            proof {
                reveal_strlit("\\r");
            }
            out.append("\\r");
            proof {
                assert(out@ =~= escaped_text(s@.take(i as int)) + escaped_char(c));
            }
        } else if cv < 32 {
            proof {
                reveal_strlit("\\u00");
            }
            out.append("\\u00");
            crate::text::push_char(&mut out, hex_digit_char_exec(cv / 16));
            crate::text::push_char(&mut out, hex_digit_char_exec(cv % 16));
            proof {
                assert(out@ =~= escaped_text(s@.take(i as int)) + escaped_char(c));
            }
        } else {
            crate::text::push_char(&mut out, c);
            proof {
                assert(out@ =~= escaped_text(s@.take(i as int)) + escaped_char(c));
            }
        }
        proof {
            assert(s@.take(i + 1).drop_last() =~= s@.take(i as int));
            assert(s@.take(i + 1).last() == s@[i as int]);
            assert(out@ == escaped_text(s@.take(i + 1)));
        }
        i = i + 1;
    }
    proof {
        assert(s@.take(len as int) =~= s@);
    }
    out
}

#[verifier::external_type_specification]
#[verifier::external_body]
pub struct ExJsonValue(serde_json::Value);

/// Whether a character sequence is a well-formed JSON document in the eyes
/// of the JSON parser; the meaning of the name is fixed by the contract of
/// `parse_json` below.
pub uninterp spec fn json_wellformed(s: Seq<char>) -> bool;

/// Relies on `serde_json::from_str::<Value>`: parses the text as a JSON
/// document; success depends on the characters alone.
#[verifier::external_body]
pub(crate) fn parse_json(s: &str) -> (r: Option<serde_json::Value>)
    ensures
        (r is Some) == json_wellformed(s@),
{
    serde_json::from_str(s).ok()
}

} // verus!
