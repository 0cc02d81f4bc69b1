//! The labels that the library writes itself: decimal numbers, the labels of
//! generated nodes, which are unique, and the labels of edges.

use vstd::prelude::*;
use vstd::string::StringExecFns;

verus! {

/// The character of the decimal digit `d`.
pub open spec fn digit(d: nat) -> char {
    if d == 0 {
        '0'
    } else if d == 1 {
        '1'
    } else if d == 2 {
        '2'
    } else if d == 3 {
        '3'
    } else if d == 4 {
        '4'
    } else if d == 5 {
        '5'
    } else if d == 6 {
        '6'
    } else if d == 7 {
        '7'
    } else if d == 8 {
        '8'
    } else {
        '9'
    }
}

/// The decimal numeral of `n`, without leading zeros.
pub open spec fn decimal(n: nat) -> Seq<char>
    decreases n,
{
    if n < 10 {
        seq![digit(n)]
    } else {
        decimal(n / 10).push(digit(n % 10))
    }
}

/// The label of the `k`-th generated node.
pub open spec fn node_label(k: nat) -> Seq<char> {
    "node"@ + decimal(k)
}

/// The label of a generated edge between the `s`-th and the `t`-th node.
pub open spec fn drawn_edge_label(s: nat, t: nat) -> Seq<char> {
    "边 "@ + decimal(s) + "-"@ + decimal(t)
}

/// The label of an edge added between the nodes labelled `from` and `to`.
pub open spec fn link_label(from: Seq<char>, to: Seq<char>) -> Seq<char> {
    "边: "@ + from + "->"@ + to
}

/// A numeral has at least one digit, and two of them from ten on.
pub proof fn lemma_decimal_len(n: nat)
    ensures
        decimal(n).len() >= 1,
        n >= 10 ==> decimal(n).len() >= 2,
    decreases n,
{
    if n >= 10 {
        lemma_decimal_len(n / 10);
    }
}

/// Different numbers have different numerals.
pub proof fn lemma_decimal_injective(a: nat, b: nat)
    requires
        decimal(a) == decimal(b),
    ensures
        a == b,
    decreases a,
{
    lemma_decimal_len(a);
    lemma_decimal_len(b);
    if a < 10 && b < 10 {
        assert(decimal(a)[0] == digit(a));
        assert(decimal(b)[0] == digit(b));
    } else if a >= 10 && b >= 10 {
        let da = decimal(a / 10);
        let db = decimal(b / 10);
        assert(decimal(a) == da.push(digit(a % 10)));
        assert(decimal(b) == db.push(digit(b % 10)));
        assert(da.push(digit(a % 10)).drop_last() =~= da);
        assert(db.push(digit(b % 10)).drop_last() =~= db);
        assert(da.push(digit(a % 10)).last() == digit(a % 10));
        assert(db.push(digit(b % 10)).last() == digit(b % 10));
        lemma_decimal_injective(a / 10, b / 10);
    } else {
        assert(decimal(a).len() != decimal(b).len());
    }
}

/// Generated labels are not empty, and different nodes get different ones.
pub proof fn lemma_node_label_injective(a: nat, b: nat)
    ensures
        node_label(a).len() > 0,
        node_label(a) == node_label(b) ==> a == b,
{
    lemma_decimal_len(a);
    if node_label(a) == node_label(b) {
        let p = "node"@;
        assert((p + decimal(a)).subrange(p.len() as int, (p + decimal(a)).len() as int) =~= decimal(a));
        assert((p + decimal(b)).subrange(p.len() as int, (p + decimal(b)).len() as int) =~= decimal(b));
        lemma_decimal_injective(a, b);
    }
}

/// The numeral of one digit.
fn digit_str(d: usize) -> (s: &'static str)
    requires
        d < 10,
    ensures
        s@ == seq![digit(d as nat)],
{
    proof {
        reveal_strlit("0");
        reveal_strlit("1");
        reveal_strlit("2");
        reveal_strlit("3");
        reveal_strlit("4");
        reveal_strlit("5");
        reveal_strlit("6");
        reveal_strlit("7");
        reveal_strlit("8");
        reveal_strlit("9");
    }
    let s = if d == 0 {
        "0"
    } else if d == 1 {
        "1"
    } else if d == 2 {
        "2"
    } else if d == 3 {
        "3"
    } else if d == 4 {
        "4"
    } else if d == 5 {
        "5"
    } else if d == 6 {
        "6"
    } else if d == 7 {
        "7"
    } else if d == 8 {
        "8"
    } else {
        "9"
    };
    assert(s@ =~= seq![digit(d as nat)]);
    s
}

/// Writes `n` in decimal.
pub fn decimal_string(n: usize) -> (s: String)
    ensures
        s@ == decimal(n as nat),
    decreases n,
{
    if n < 10 {
        String::from_str(digit_str(n))
    } else {
        let mut s = decimal_string(n / 10);
        s.append(digit_str(n % 10));
        assert(s@ =~= decimal((n / 10) as nat).push(digit((n % 10) as nat)));
        s
    }
}

/// The label of the `k`-th generated node.
pub fn make_node_label(k: usize) -> (label: String)
    ensures
        label@ == node_label(k as nat),
{
    let number = decimal_string(k);
    String::from_str("node").concat(number.as_str())
}

/// The label of a generated edge between the `s`-th and the `t`-th node.
pub fn make_drawn_edge_label(s: usize, t: usize) -> (label: String)
    ensures
        label@ == drawn_edge_label(s as nat, t as nat),
{
    let from = decimal_string(s);
    let to = decimal_string(t);
    String::from_str("边 ").concat(from.as_str()).concat("-").concat(to.as_str())
}

/// The label of an edge added between the nodes labelled `from` and `to`.
pub fn make_link_label(from: &String, to: &String) -> (label: String)
    ensures
        label@ == link_label(from@, to@),
{
    String::from_str("边: ").concat(from.as_str()).concat("->").concat(to.as_str())
}

} // verus!
