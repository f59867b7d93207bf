//! Edges of a mesh: two vertex positions and a selection flag.

use vstd::prelude::*;
use vstd::string::StringExecFns;

verus! {

#[derive(Debug, Clone)]
pub struct Edge {
    pub a: usize,
    pub b: usize,
    pub selected: bool,
}

impl Edge {
    /// An unselected edge between the vertices at `a` and `b`.
    pub fn new(a: usize, b: usize) -> (e: Edge)
        ensures
            e == (Edge { a, b, selected: false }),
    {
        Edge { a, b, selected: false }
    }

    /// The same endpoints with the selection flag set to `select`.
    pub fn clone_and_select(&self, select: bool) -> (e: Edge)
        ensures
            e == (Edge { a: self.a, b: self.b, selected: select }),
    {
        Edge { a: self.a, b: self.b, selected: select }
    }

    /// Whether the edge touches the vertex at `index`.
    pub open spec fn touches(self, index: int) -> bool {
        self.a == index || self.b == index
    }
}

/// The character for a digit below ten.
pub open spec fn digit(d: nat) -> char {
    if d == 0 {
        '0'
    } else if d == 1 {
        '1'
    } else if d == 2 {
        '2'
    } else if d == 3 {
        '3'
    } else if d == 4 {
        '4'
    } else if d == 5 {
        '5'
    } else if d == 6 {
        '6'
    } else if d == 7 {
        '7'
    } else if d == 8 {
        '8'
    } else {
        '9'
    }
}

/// The number in decimal digits, without leading zeros.
pub open spec fn decimal(n: nat) -> Seq<char>
    decreases n,
{
    if n < 10 {
        seq![digit(n)]
    } else {
        decimal(n / 10).push(digit(n % 10))
    }
}

fn digit_text(d: usize) -> (t: &'static str)
    requires
        d < 10,
    ensures
        t@ == seq![digit(d as nat)],
{
    proof {
        reveal_strlit("0");
        reveal_strlit("1");
        reveal_strlit("2");
        reveal_strlit("3");
        reveal_strlit("4");
        reveal_strlit("5");
        reveal_strlit("6");
        reveal_strlit("7");
        reveal_strlit("8");
        reveal_strlit("9");
    }
    let t = if d == 0 {
        "0"
    } else if d == 1 {
        "1"
    } else if d == 2 {
        "2"
    } else if d == 3 {
        "3"
    } else if d == 4 {
        "4"
    } else if d == 5 {
        "5"
    } else if d == 6 {
        "6"
    } else if d == 7 {
        "7"
    } else if d == 8 {
        "8"
    } else {
        "9"
    };
    assert(t@ =~= seq![digit(d as nat)]);
    t
}

fn push_decimal(text: &mut String, n: usize)
    ensures
        final(text)@ == old(text)@ + decimal(n as nat),
    decreases n,
{
    if n >= 10 {
        push_decimal(text, n / 10);
    }
    text.append(digit_text(n % 10));
    assert(text@ =~= old(text)@ + decimal(n as nat));
}

impl Edge {
    /// The text that `to_string` returns.
    pub open spec fn text(self) -> Seq<char> {
        "Edge(&"@ + decimal(self.a as nat) + ", &"@ + decimal(self.b as nat) + ", "@ + if self.selected {
            "selected)"@
        } else {
            "not selected)"@
        }
    }

    pub fn to_string(&self) -> (s: String)
        ensures
            s@ == self.text(),
    {
        let mut s = String::from_str("Edge(&");
        push_decimal(&mut s, self.a);
        s.append(", &");
        push_decimal(&mut s, self.b);
        s.append(", ");
        if self.selected {
            s.append("selected)");
        } else {
            s.append("not selected)");
        }
        s
    }
}

} // verus!
