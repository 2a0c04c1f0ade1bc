//! Scope fragments: the names and indices that identify a nested component.

use vstd::prelude::*;

verus! {

#[derive(Clone, PartialEq, Eq, Debug, Hash)]
pub enum ScopeFragment {
    Named(String),
    Index(usize),
}

/// The decimal digits of `i`, most significant first, without leading zeros.
pub open spec fn decimal(i: nat) -> Seq<char>
    decreases i,
{
    if i < 10 {
        seq![digit_char(i)]
    } else {
        decimal(i / 10).push(digit_char(i % 10))
    }
}

/// The character of the decimal digit `d`.
pub open spec fn digit_char(d: nat) -> char {
    if d == 0 { '0' }
    else if d == 1 { '1' }
    else if d == 2 { '2' }
    else if d == 3 { '3' }
    else if d == 4 { '4' }
    else if d == 5 { '5' }
    else if d == 6 { '6' }
    else if d == 7 { '7' }
    else if d == 8 { '8' }
    else { '9' }
}

/// How a scope fragment is displayed: a name in single quotes, an index in decimal.
pub open spec fn scope_text(fragment: ScopeFragment) -> Seq<char> {
    match fragment {
        ScopeFragment::Named(n) => seq!['\''] + n@ + seq!['\''],
        ScopeFragment::Index(i) => decimal(i as nat),
    }
}

fn digit(d: usize) -> (s: &'static str)
    requires
        d < 10,
    ensures
        s@ == seq![digit_char(d as nat)],
{
    proof {
        reveal_strlit("0");
        reveal_strlit("1");
        reveal_strlit("2");
        reveal_strlit("3");
        reveal_strlit("4");
        reveal_strlit("5");
        reveal_strlit("6");
        reveal_strlit("7");
        reveal_strlit("8");
        reveal_strlit("9");
    }
    if d == 0 { "0" }
    else if d == 1 { "1" }
    else if d == 2 { "2" }
    else if d == 3 { "3" }
    else if d == 4 { "4" }
    else if d == 5 { "5" }
    else if d == 6 { "6" }
    else if d == 7 { "7" }
    else if d == 8 { "8" }
    else { "9" }
}

fn decimal_string(i: usize) -> (s: String)
    ensures
        s@ == decimal(i as nat),
    decreases i,
{
    if i < 10 {
        digit(i).to_owned()
    } else {
        let mut s = decimal_string(i / 10);
        s.append(digit(i % 10));
        s
    }
}

impl ScopeFragment {
    /// The displayed form: a name in single quotes, an index in decimal.
    pub fn to_string(&self) -> (text: String)
        ensures
            text@ == scope_text(*self),
    {
        match self {
            ScopeFragment::Named(n) => {
                proof {
                    reveal_strlit("'");
                }
                let mut text = "'".to_owned();
                text.append(n.as_str());
                text.append("'");
                text
            },
            ScopeFragment::Index(i) => decimal_string(*i),
        }
    }
}

impl From<String> for ScopeFragment {
    fn from(str: String) -> (fragment: Self) {
        ScopeFragment::Named(str)
    }
}

impl vstd::std_specs::convert::FromSpecImpl<String> for ScopeFragment {
    open spec fn obeys_from_spec() -> bool {
        true
    }

    open spec fn from_spec(str: String) -> Self {
        ScopeFragment::Named(str)
    }
}

impl From<usize> for ScopeFragment {
    fn from(i: usize) -> (fragment: Self) {
        ScopeFragment::Index(i)
    }
}

impl vstd::std_specs::convert::FromSpecImpl<usize> for ScopeFragment {
    open spec fn obeys_from_spec() -> bool {
        true
    }

    open spec fn from_spec(i: usize) -> Self {
        ScopeFragment::Index(i)
    }
}

} // verus!
