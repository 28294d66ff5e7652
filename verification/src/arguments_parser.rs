//! Command-line argument handling: turns a raw argument vector into a keyed
//! store and reads typed values out of it. A flag named in the name-only list
//! takes no value and reads as `"true"`; any other `--name` takes the
//! following argument as its value; a later occurrence of a name overrides an
//! earlier one; a numeric value that does not parse reads as `0`.

use vstd::prelude::*;

use crate::decimal;
use crate::table::MultiValueTable;
use crate::text;

verus! {

/// The name/value pair contributed by position `i` of the raw argument
/// vector, if any: position `0` is the program name and contributes nothing;
/// a `--name` in the name-only list contributes `(name, "true")`; any other
/// `--name` contributes the following argument as its value, or nothing when
/// it is the last argument.
pub open spec fn argument_pair_at(
    args: Seq<Seq<char>>,
    name_only: Seq<Seq<char>>,
    i: int,
) -> Option<(Seq<char>, Seq<char>)> {
    if 1 <= i < args.len() && args[i].len() >= 2 && args[i].subrange(0, 2) == "--"@ {
        let name = args[i].skip(2);
        if name_only.contains(name) {
            Some((name, "true"@))
        } else if i + 1 < args.len() {
            Some((name, args[i + 1]))
        } else {
            None
        }
    } else {
        None
    }
}

/// The value bound to `name` after the first `n` positions are processed:
/// the pair contributed by the highest position below `n` wins.
pub open spec fn argument_value_upto(
    args: Seq<Seq<char>>,
    name_only: Seq<Seq<char>>,
    name: Seq<char>,
    n: int,
) -> Option<Seq<char>>
    decreases n,
{
    if n <= 1 {
        None
    } else {
        match argument_pair_at(args, name_only, n - 1) {
            Some(pair) => if pair.0 == name {
                Some(pair.1)
            } else {
                argument_value_upto(args, name_only, name, n - 1)
            },
            None => argument_value_upto(args, name_only, name, n - 1),
        }
    }
}

/// The value bound to `name` by the whole raw argument vector.
pub open spec fn argument_value(
    args: Seq<Seq<char>>,
    name_only: Seq<Seq<char>>,
    name: Seq<char>,
) -> Option<Seq<char>> {
    argument_value_upto(args, name_only, name, args.len() as int)
}

/// The numeric reading of an argument string: its bounded decimal value, or
/// `0` when it does not parse.
pub open spec fn numeric_of(s: Seq<char>, max: int) -> int {
    match decimal::parse_decimal_spec(s, max) {
        Some(v) => v,
        None => 0,
    }
}

pub struct ArgumentsParser {
    pub arguments: MultiValueTable,
}

impl ArgumentsParser {
    /// The stored value of `name`, if any.
    pub open spec fn argument_of(self, name: Seq<char>) -> Option<Seq<char>> {
        if self.arguments.lookup(name) is Some && self.arguments.values_of(name).len() > 0 {
            Some(self.arguments.values_of(name).last())
        } else {
            None
        }
    }

    /// The string read for `name`: its stored value, or the default.
    pub open spec fn string_of(self, name: Seq<char>, default: Seq<char>) -> Seq<char> {
        match self.argument_of(name) {
            Some(v) => v,
            None => default,
        }
    }

    /// The boolean read for `name`: whether the string read is `"true"`.
    pub open spec fn boolean_of(self, name: Seq<char>, default: Seq<char>) -> bool {
        self.string_of(name, default) == "true"@
    }

    /// Build a parser from the raw argument vector, where the names in
    /// `name_only_arguments` are flags that take no value.
    pub fn new(name_only_arguments: &Vec<String>, raw_arguments: &Vec<String>) -> (r:
        ArgumentsParser)
        ensures
            r.arguments.wf(),
            forall|name: Seq<char>| #[trigger] r.argument_of(name) == argument_value(
                raw_arguments.deep_view(),
                name_only_arguments.deep_view(),
                name,
            ),
    {
        let ghost args = raw_arguments.deep_view();
        let ghost name_only = name_only_arguments.deep_view();
        let mut arguments = MultiValueTable::new();
        let len = raw_arguments.len();
        let mut i: usize = 1;
        proof {
            reveal_strlit("--");
            assert(args.len() == raw_arguments@.len());
        }
        while i < len
            invariant
                len == raw_arguments@.len(),
                args == raw_arguments.deep_view(),
                name_only == name_only_arguments.deep_view(),
                1 <= i <= len || (len == 0 && i == 1),
                arguments.wf(),
                forall|name: Seq<char>|
                    (ArgumentsParser { arguments }).argument_of(name) == argument_value_upto(
                        args,
                        name_only,
                        name,
                        i as int,
                    ),
            decreases len - i,
        {
            proof {
                reveal_strlit("--");
                assert(args[i as int] == raw_arguments@[i as int]@);
            }
            let argument = &raw_arguments[i];
            let ghost previous = arguments;
            if text::starts_with_str(argument.as_str(), "--") {
                let argument_name = argument.as_str().substring_char(2, argument.as_str().unicode_len());
                proof {
                    assert(argument_name@ =~= args[i as int].skip(2));
                }
                if text::contains_string(name_only_arguments, argument_name) {
                    let mut owned = String::new();
                    owned.append(argument_name);
                    let mut flag_value = String::new();
                    flag_value.append("true");
                    proof {
                        assert(owned@ =~= argument_name@);
                        assert(flag_value@ =~= "true"@);
                    }
                    arguments.append(owned, flag_value);
                } else if i + 1 < len {
                    proof {
                        assert(args[i + 1] == raw_arguments@[i + 1]@);
                    }
                    let mut owned = String::new();
                    owned.append(argument_name);
                    proof {
                        assert(owned@ =~= argument_name@);
                    }
                    arguments.append(owned, raw_arguments[i + 1].clone());
                }
            }
            proof {
                lemma_store_step(previous, arguments, args, name_only, i as int);
            }
            i = i + 1;
        }
        proof {
            assert(forall|name: Seq<char>|
                (ArgumentsParser { arguments }).argument_of(name) == argument_value(
                    args,
                    name_only,
                    name,
                ));
        }
        ArgumentsParser { arguments }
    }

    /// The value of `argument_name`, or `default_value` when it was not
    /// given.
    pub fn get_as_string(&self, argument_name: &str, default_value: &str) -> (r: String)
        ensures
            r@ == self.string_of(argument_name@, default_value@),
    {
        let stored = self.arguments.last_value(argument_name);
        match stored {
            Some(v) => v,
            None => {
                let mut owned = String::new();
                owned.append(default_value);
                proof {
                    assert(owned@ =~= default_value@);
                }
                owned
            },
        }
    }

    /// Whether the value read for `argument_name` is the string `"true"`.
    pub fn get_as_boolean(&self, argument_name: &str, default_value: &str) -> (r: bool)
        ensures
            r == self.boolean_of(argument_name@, default_value@),
    {
        let value = self.get_as_string(argument_name, default_value);
        text::str_eq(value.as_str(), "true")
    }

    /// The value read for `argument_name` as a `u16`, or `0` when it does
    /// not parse as one.
    pub fn get_as_u16(&self, argument_name: &str, default_value: &str) -> (r: u16)
        ensures
            r as int == numeric_of(self.string_of(argument_name@, default_value@), u16::MAX as int),
    {
        let value = self.get_as_string(argument_name, default_value);
        let parsed = decimal::parse_decimal(value.as_str(), u16::MAX as u64);
        match parsed {
            Some(v) => v as u16,
            None => 0,
        }
    }

    /// The value read for `argument_name` as a `usize`, or `0` when it does
    /// not parse as one.
    pub fn get_as_usize(&self, argument_name: &str, default_value: &str) -> (r: usize)
        ensures
            r as int == numeric_of(
                self.string_of(argument_name@, default_value@),
                usize::MAX as int,
            ),
    {
        let value = self.get_as_string(argument_name, default_value);
        let parsed = decimal::parse_decimal(value.as_str(), usize::MAX as u64);
        match parsed {
            Some(v) => v as usize,
            None => 0,
        }
    }

    /// The value read for `argument_name` as a `u64`, or `0` when it does
    /// not parse as one.
    pub fn get_as_u64(&self, argument_name: &str, default_value: &str) -> (r: u64)
        ensures
            r as int == numeric_of(self.string_of(argument_name@, default_value@), u64::MAX as int),
    {
        let value = self.get_as_string(argument_name, default_value);
        let parsed = decimal::parse_decimal(value.as_str(), u64::MAX);
        match parsed {
            Some(v) => v,
            None => 0,
        }
    }
}

/// One step of building the argument store: position `i` either contributes
/// its pair or leaves the store unchanged.
proof fn lemma_store_step(
    previous: MultiValueTable,
    current: MultiValueTable,
    args: Seq<Seq<char>>,
    name_only: Seq<Seq<char>>,
    i: int,
)
    requires
        1 <= i < args.len(),
        previous.wf(),
        forall|name: Seq<char>|
            (ArgumentsParser { arguments: previous }).argument_of(name) == argument_value_upto(
                args,
                name_only,
                name,
                i,
            ),
        match argument_pair_at(args, name_only, i) {
            Some(pair) => current.lookup(pair.0) == Some(
                previous.values_of(pair.0).push(pair.1),
            ) && forall|k2: Seq<char>| k2 != pair.0 ==> current.lookup(k2) == previous.lookup(k2),
            None => current == previous,
        },
    ensures
        forall|name: Seq<char>|
            (ArgumentsParser { arguments: current }).argument_of(name) == argument_value_upto(
                args,
                name_only,
                name,
                i + 1,
            ),
{
    assert forall|name: Seq<char>|
        (ArgumentsParser { arguments: current }).argument_of(name) == argument_value_upto(
            args,
            name_only,
            name,
            i + 1,
        ) by {
        match argument_pair_at(args, name_only, i) {
            Some(pair) => {
                if name == pair.0 {
                    assert(current.values_of(name).last() == pair.1);
                } else {
                    assert(current.lookup(name) == previous.lookup(name));
                }
            },
            None => {},
        }
    }
}

/// The names of the arguments that take no value.
pub fn get_name_only_arguments() -> (r: Vec<String>)
    ensures
        r.deep_view() =~= seq![
            "help"@,
            "version"@,
            "enableWebSocketServer"@,
            "enableTls"@,
            "enableHttp2"@,
        ],
{
    let mut names: Vec<String> = Vec::new();
    names.push(String::from_str("help"));
    names.push(String::from_str("version"));
    names.push(String::from_str("enableWebSocketServer"));
    names.push(String::from_str("enableTls"));
    names.push(String::from_str("enableHttp2"));
    proof {
        assert(names.deep_view() =~= seq![
            "help"@,
            "version"@,
            "enableWebSocketServer"@,
            "enableTls"@,
            "enableHttp2"@,
        ]);
    }
    names
}

} // verus!
