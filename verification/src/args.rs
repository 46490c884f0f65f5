//! Command-line argument handling: turns raw tokens of the form `flag` or
//! `flag=value` into recognized actions.

use vstd::prelude::*;
use crate::numtext::{first_at, lemma_first_at, str_eq, find_char, string_views};

verus! {

/// The recognized argument actions.
#[derive(Debug, Clone, Copy, PartialEq, Eq, Hash, Structural)]
pub enum Args {
    Help,
    Version,
    Config,
    Width,
    Align,
    Invalid,
}

/// One parsed action: its kind and the value text that travels with it.
pub struct ArgAction {
    pub arg: Args,
    pub value: String,
}

/// The raw process arguments, the program name first.
pub struct ArgHandler {
    pub args: Vec<String>,
}

/// The flag name of a token: everything before its first `=`.
pub open spec fn arg_name(a: Seq<char>) -> Seq<char> {
    a.take(first_at(a, '=', 0))
}

/// Whether a token carries an `=`.
pub open spec fn has_eq(a: Seq<char>) -> bool {
    first_at(a, '=', 0) < a.len()
}

/// The value of a token: the text between its first `=` and its second `=`
/// or end.
pub open spec fn arg_value(a: Seq<char>) -> Seq<char> {
    let e1 = first_at(a, '=', 0);
    if e1 < a.len() {
        a.subrange(e1 + 1, first_at(a, '=', e1 + 1))
    } else {
        Seq::<char>::empty()
    }
}

/// The action kind that a flag name selects.
pub open spec fn classify_flag(name: Seq<char>) -> Args {
    if name == "-h"@ || name == "--help"@ {
        Args::Help
    } else if name == "-v"@ || name == "--version"@ {
        Args::Version
    } else if name == "-c"@ || name == "--config"@ {
        Args::Config
    } else if name == "-w"@ || name == "--width"@ {
        Args::Width
    } else if name == "-a"@ || name == "--align"@ {
        Args::Align
    } else {
        Args::Invalid
    }
}

/// Whether a token cuts parsing short: a width or align flag without a
/// value degrades the whole invocation to the help action.
pub open spec fn cuts_short(a: Seq<char>) -> bool {
    (classify_flag(arg_name(a)) == Args::Width || classify_flag(arg_name(a)) == Args::Align)
        && !has_eq(a)
}

/// The action of one token that does not cut parsing short.
pub open spec fn action_of(a: Seq<char>) -> (Args, Seq<char>) {
    let kind = classify_flag(arg_name(a));
    if kind == Args::Invalid {
        (kind, a)
    } else if kind == Args::Width || kind == Args::Align {
        (kind, arg_value(a))
    } else {
        (kind, Seq::<char>::empty())
    }
}

/// The actions of a token list: one action per token in order, except that
/// a width or align flag without a value anywhere in the list yields the
/// single help action.
pub open spec fn mapped_actions(args: Seq<Seq<char>>) -> Seq<(Args, Seq<char>)> {
    args.map_values(|a: Seq<char>| action_of(a))
}

pub open spec fn actions_of(args: Seq<Seq<char>>) -> Seq<(Args, Seq<char>)> {
    if exists|i: int| 0 <= i < args.len() && cuts_short(#[trigger] args[i]) {
        seq![(Args::Help, Seq::<char>::empty())]
    } else {
        mapped_actions(args)
    }
}

/// The kind and value of each action in a result list.
pub open spec fn action_pairs(v: Seq<ArgAction>) -> Seq<(Args, Seq<char>)> {
    v.map_values(|x: ArgAction| (x.arg, x.value@))
}

/// Splits one token into its flag name and value, and reports whether it
/// carries an `=`.
fn split_token(a: &str) -> (r: (String, String, bool))
    ensures
        r.0@ == arg_name(a@),
        r.1@ == arg_value(a@),
        r.2 == has_eq(a@),
{
    let len = a.unicode_len();
    match find_char(a, '=') {
        Some(e1) => {
            proof {
                lemma_first_at(a@, '=', 0, e1 as int);
            }
            let name = a.substring_char(0, e1);
            let rest = a.substring_char(e1 + 1, len);
            let value = match find_char(rest, '=') {
                Some(e2) => {
                    proof {
                        assert forall|j: int| e1 + 1 <= j < e1 + 1 + e2 implies a@[j] != '=' by {
                            assert(rest@[j - e1 - 1] == a@[j]);
                            assert(rest@[j - e1 - 1] != '=');
                        }
                        assert(a@[e1 + 1 + e2] == rest@[e2 as int]);
                        lemma_first_at(a@, '=', e1 + 1, e1 + 1 + e2);
                    }
                    rest.substring_char(0, e2)
                },
                None => {
                    proof {
                        assert forall|j: int| e1 + 1 <= j < a@.len() implies a@[j] != '=' by {
                            assert(rest@[j - e1 - 1] == a@[j]);
                            assert(rest@[j - e1 - 1] != '=');
                        }
                        lemma_first_at(a@, '=', e1 + 1, a@.len() as int);
                    }
                    rest
                },
            };
            proof {
                assert(name@ =~= arg_name(a@));
                assert(value@ =~= arg_value(a@));
            }
            (name.to_owned(), value.to_owned(), true)
        },
        None => {
            proof {
                lemma_first_at(a@, '=', 0, a@.len() as int);
                assert(a@.take(a@.len() as int) =~= a@);
            }
            (a.to_owned(), String::new(), false)
        },
    }
}

/// The action kind that a flag name selects.
fn classify(name: &str) -> (r: Args)
    ensures
        r == classify_flag(name@),
{
    if str_eq(name, "-h") || str_eq(name, "--help") {
        Args::Help
    } else if str_eq(name, "-v") || str_eq(name, "--version") {
        Args::Version
    } else if str_eq(name, "-c") || str_eq(name, "--config") {
        Args::Config
    } else if str_eq(name, "-w") || str_eq(name, "--width") {
        Args::Width
    } else if str_eq(name, "-a") || str_eq(name, "--align") {
        Args::Align
    } else {
        Args::Invalid
    }
}

impl ArgHandler {
    /// Parses every token after the program name into an action: help,
    /// version and config flags stand alone; width and align flags carry
    /// the value after their `=`, and without one degrade the whole
    /// invocation to a single help action; anything else is an invalid
    /// action carrying the raw token.
    pub fn handle(&self) -> (r: Vec<ArgAction>)
        ensures
            self.args@.len() >= 1 ==> action_pairs(r@) == actions_of(
                string_views(self.args@.skip(1)),
            ),
            self.args@.len() == 0 ==> r@ == Seq::<ArgAction>::empty(),
    {
        let mut actions: Vec<ArgAction> = Vec::new();
        let n = self.args.len();
        if n < 1 {
            return actions;
        }
        let ghost tokens = string_views(self.args@.skip(1));
        let mut i: usize = 1;
        while i < n
            invariant
                1 <= i <= n,
                n == self.args@.len(),
                tokens == string_views(self.args@.skip(1)),
                tokens.len() == n - 1,
                forall|j: int| 0 <= j < i - 1 ==> !cuts_short(#[trigger] tokens[j]),
                actions@.len() == i - 1,
                action_pairs(actions@) =~= mapped_actions(tokens.take(i - 1)),
            decreases n - i,
        {
            let arg = &self.args[i];
            proof {
                assert(tokens[i - 1] == arg@);
            }
            let (name, value, carries_eq) = split_token(arg.as_str());
            let kind = classify(name.as_str());
            let ghost prev = actions@;
            let act = match kind {
                Args::Help => ArgAction { arg: Args::Help, value: String::new() },
                Args::Version => ArgAction { arg: Args::Version, value: String::new() },
                Args::Config => ArgAction { arg: Args::Config, value: String::new() },
                Args::Width => {
                    if !carries_eq {
                        let mut help: Vec<ArgAction> = Vec::new();
                        help.push(ArgAction { arg: Args::Help, value: String::new() });
                        proof {
                            assert(cuts_short(tokens[i - 1]));
                            assert(action_pairs(help@) =~= actions_of(tokens));
                        }
                        return help;
                    }
                    ArgAction { arg: Args::Width, value }
                },
                Args::Align => {
                    if !carries_eq {
                        let mut help: Vec<ArgAction> = Vec::new();
                        help.push(ArgAction { arg: Args::Help, value: String::new() });
                        proof {
                            assert(cuts_short(tokens[i - 1]));
                            assert(action_pairs(help@) =~= actions_of(tokens));
                        }
                        return help;
                    }
                    ArgAction { arg: Args::Align, value }
                },
                Args::Invalid => ArgAction { arg: Args::Invalid, value: arg.clone() },
            };
            proof {
                assert((act.arg, act.value@) == action_of(tokens[i - 1]));
            }
            actions.push(act);
            proof {
                assert forall|j: int| 0 <= j < i implies #[trigger] action_pairs(actions@)[j]
                    == mapped_actions(tokens.take(i as int))[j] by {
                    assert(action_pairs(actions@)[j] == (actions@[j].arg, actions@[j].value@));
                    assert(tokens.take(i as int)[j] == tokens[j]);
                    assert(mapped_actions(tokens.take(i as int))[j] == action_of(tokens[j]));
                    if j < i - 1 {
                        assert(actions@[j] == prev[j]);
                        assert(action_pairs(prev)[j] == (prev[j].arg, prev[j].value@));
                        assert(tokens.take(i - 1)[j] == tokens[j]);
                        assert(mapped_actions(tokens.take(i - 1))[j] == action_of(tokens[j]));
                        assert(action_pairs(prev)[j] == mapped_actions(tokens.take(i - 1))[j]);
                    } else {
                        assert(actions@[j] == act);
                    }
                }
                assert(action_pairs(actions@) =~= mapped_actions(tokens.take(i as int)));
            }
            i += 1;
        }
        proof {
            assert(tokens.take(n - 1) =~= tokens);
            assert(action_pairs(actions@) =~= actions_of(tokens));
        }
        actions
    }
}

} // verus!
