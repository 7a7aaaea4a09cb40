//! Text forms of values and trees: a decimal form of numbers, an indented
//! dump of a tree, and an infix expression.

use crate::node::base::{Node, Type};
use crate::node::ieee::FloatOps;
use crate::node::shape::one_more;
use vstd::prelude::*;
use vstd::string::StringExecFns;

verus! {

/// The character of the digit `d`.
pub open spec fn digit_char(d: nat) -> char {
    if d == 0 {
        '0'
    } else if d == 1 {
        '1'
    } else if d == 2 {
        '2'
    } else if d == 3 {
        '3'
    } else if d == 4 {
        '4'
    } else if d == 5 {
        '5'
    } else if d == 6 {
        '6'
    } else if d == 7 {
        '7'
    } else if d == 8 {
        '8'
    } else {
        '9'
    }
}

/// The decimal digits of `n`, without leading zeros.
pub open spec fn nat_text(n: nat) -> Seq<char>
    decreases n,
{
    if n < 10 {
        seq![digit_char(n)]
    } else {
        nat_text(n / 10).push(digit_char(n % 10))
    }
}

/// The decimal form of `i`, with a minus sign where it is negative.
pub open spec fn int_text(i: int) -> Seq<char> {
    if i < 0 {
        seq!['-'] + nat_text((-i) as nat)
    } else {
        nat_text(i as nat)
    }
}

/// `piece` written `n` times in a row.
pub open spec fn repeated(piece: Seq<char>, n: nat) -> Seq<char>
    decreases n,
{
    if n == 0 {
        Seq::empty()
    } else {
        repeated(piece, (n - 1) as nat) + piece
    }
}

/// The depth of indentation one level further in; it stops at the largest
/// machine word.
pub open spec fn deeper(indent: usize) -> usize {
    if indent < usize::MAX {
        (indent + 1) as usize
    } else {
        indent
    }
}

fn digit_str(d: u64) -> (r: &'static str)
    requires
        d < 10,
    ensures
        r@ == seq![digit_char(d as nat)],
{
    proof {
        reveal_strlit("0");
        reveal_strlit("1");
        reveal_strlit("2");
        reveal_strlit("3");
        reveal_strlit("4");
        reveal_strlit("5");
        reveal_strlit("6");
        reveal_strlit("7");
        reveal_strlit("8");
        reveal_strlit("9");
    }
    let r = if d == 0 {
        "0"
    } else if d == 1 {
        "1"
    } else if d == 2 {
        "2"
    } else if d == 3 {
        "3"
    } else if d == 4 {
        "4"
    } else if d == 5 {
        "5"
    } else if d == 6 {
        "6"
    } else if d == 7 {
        "7"
    } else if d == 8 {
        "8"
    } else {
        "9"
    };
    assert(r@ =~= seq![digit_char(d as nat)]);
    r
}

/// Appends the decimal digits of `n`.
pub fn append_nat(s: &mut String, n: u64)
    ensures
        final(s)@ == old(s)@ + nat_text(n as nat),
    decreases n,
{
    if n >= 10 {
        append_nat(s, n / 10);
    }
    s.append(digit_str(n % 10));
    assert(s@ =~= old(s)@ + nat_text(n as nat));
}

/// Appends the decimal form of `i`.
pub fn append_int(s: &mut String, i: i64)
    requires
        i > i64::MIN,
    ensures
        final(s)@ == old(s)@ + int_text(i as int),
{
    if i < 0 {
        proof {
            reveal_strlit("-");
        }
        s.append("-");
        append_nat(s, (-i) as u64);
        assert(s@ =~= old(s)@ + int_text(i as int));
    } else {
        append_nat(s, i as u64);
    }
}

/// Appends `piece` `n` times.
pub fn append_repeated(s: &mut String, piece: &str, n: usize)
    ensures
        final(s)@ == old(s)@ + repeated(piece@, n as nat),
{
    let mut i: usize = 0;
    assert(s@ =~= old(s)@ + repeated(piece@, 0));
    while i < n
        invariant
            i <= n,
            s@ == old(s)@ + repeated(piece@, i as nat),
        decreases n - i,
    {
        s.append(piece);
        i = i + 1;
        assert(s@ =~= old(s)@ + repeated(piece@, i as nat));
    }
}

impl Type {
    /// The text of the value: its decimal form followed by `I`, `F` or `U`
    /// for a signed, a real or an unsigned number, and `true` or `false`.
    pub open spec fn text<A: FloatOps>(self, fl: &A) -> Seq<char> {
        match self {
            Type::Int(i) => int_text(i as int) + "I"@,
            Type::Float(f) => fl.text_of(f)@ + "F"@,
            Type::UInt(u) => nat_text(u as nat) + "U"@,
            Type::Bool(b) => if b {
                "true"@
            } else {
                "false"@
            },
        }
    }

    /// The text of the value.
    pub fn to_text<A: FloatOps>(&self, fl: &A) -> (r: String)
        ensures
            r@ == self.text(fl),
    {
        let mut s = String::from_str("");
        proof {
            reveal_strlit("");
            assert(s@ =~= Seq::<char>::empty());
        }
        match self {
            Type::Int(i) => {
                append_int(&mut s, *i as i64);
                s.append("I");
                assert(s@ =~= self.text(fl));
            },
            Type::Float(f) => {
                let t = fl.text(*f);
                s.append(t.as_str());
                s.append("F");
                assert(s@ =~= self.text(fl));
            },
            Type::UInt(u) => {
                append_nat(&mut s, *u as u64);
                s.append("U");
                assert(s@ =~= self.text(fl));
            },
            Type::Bool(b) => {
                if *b {
                    s.append("true");
                } else {
                    s.append("false");
                }
                assert(s@ =~= self.text(fl));
            },
        }
        s
    }
}

impl Node {
    /// The name of the variant: the operator's name for an operator.
    pub open spec fn name(self) -> Seq<char> {
        match self {
            Node::Null(_) => "NULL"@,
            Node::Val(_) => "Val"@,
            Node::Var(_) => "Var"@,
            Node::Unary(n) => n.kind.name(),
            Node::Binary(n) => n.kind.name(),
            Node::Cond(_) => "Cond"@,
        }
    }

    /// The indented dump of the tree: one line per node, children below
    /// their parent and one step further in. Leaves are indented by blanks,
    /// operators by dots.
    pub open spec fn tree_text<A: FloatOps>(self, indent: usize, fl: &A) -> Seq<char>
        decreases self,
    {
        match self {
            Node::Null(n) => repeated(" "@, indent as nat) + n.rtype.name(),
            Node::Val(n) => repeated(" "@, indent as nat) + n.v.text(fl),
            Node::Var(n) => repeated(" "@, indent as nat) + "x["@ + nat_text(n.idx as nat) + "]"@,
            Node::Unary(n) => repeated("."@, indent as nat) + n.kind.name() + "\n"@
                + n.arg.tree_text(deeper(indent), fl),
            Node::Binary(n) => repeated("."@, indent as nat) + n.kind.name() + "\n"@
                + n.lhs.tree_text(deeper(indent), fl) + "\n"@ + n.rhs.tree_text(
                deeper(indent),
                fl,
            ),
            Node::Cond(n) => repeated("."@, indent as nat) + "?"@ + "\n"@ + n.cond.tree_text(
                deeper(indent),
                fl,
            ) + "\n"@ + n.iftrue.tree_text(deeper(indent), fl) + "\n"@ + n.iffalse.tree_text(
                deeper(indent),
                fl,
            ),
        }
    }

    /// The tree as an expression: operands around their operator, arguments
    /// after their function, both in brackets.
    pub open spec fn equation_text<A: FloatOps>(self, fl: &A) -> Seq<char>
        decreases self,
    {
        match self {
            Node::Null(n) => n.rtype.name(),
            Node::Val(n) => n.v.text(fl),
            Node::Var(n) => "x["@ + nat_text(n.idx as nat) + "]"@,
            Node::Unary(n) => n.kind.name() + "("@ + n.arg.equation_text(fl) + ")"@,
            Node::Binary(n) => "("@ + n.lhs.equation_text(fl) + " "@ + n.kind.name() + " "@
                + n.rhs.equation_text(fl) + " )"@,
            Node::Cond(n) => "("@ + n.cond.equation_text(fl) + " ? "@ + n.iftrue.equation_text(fl)
                + " : "@ + n.iffalse.equation_text(fl) + " )"@,
        }
    }

    /// The name of the variant.
    pub fn get_name(&self) -> (r: &'static str)
        ensures
            r@ == self.name(),
    {
        match self {
            Node::Null(_) => "NULL",
            Node::Val(_) => "Val",
            Node::Var(_) => "Var",
            Node::Unary(n) => n.kind.get_name(),
            Node::Binary(n) => n.kind.get_name(),
            Node::Cond(_) => "Cond",
        }
    }

    /// The tree as an indented dump that starts `indent` steps in.
    pub fn get_tree_str<A: FloatOps>(&self, indent: usize, fl: &A) -> (r: String)
        ensures
            r@ == self.tree_text(indent, fl),
        decreases self,
    {
        let mut s = String::from_str("");
        proof {
            reveal_strlit("");
            assert(s@ =~= Seq::<char>::empty());
        }
        let inner = one_more(indent);
        match self {
            Node::Null(n) => {
                append_repeated(&mut s, " ", indent);
                s.append(n.rtype.get_name());
            },
            Node::Val(n) => {
                append_repeated(&mut s, " ", indent);
                let t = n.v.to_text(fl);
                s.append(t.as_str());
            },
            Node::Var(n) => {
                append_repeated(&mut s, " ", indent);
                s.append("x[");
                append_nat(&mut s, n.idx as u64);
                s.append("]");
            },
            Node::Unary(n) => {
                append_repeated(&mut s, ".", indent);
                s.append(n.kind.get_name());
                s.append("\n");
                let a = n.arg.get_tree_str(inner, fl);
                s.append(a.as_str());
            },
            Node::Binary(n) => {
                append_repeated(&mut s, ".", indent);
                s.append(n.kind.get_name());
                s.append("\n");
                let l = n.lhs.get_tree_str(inner, fl);
                s.append(l.as_str());
                s.append("\n");
                let r = n.rhs.get_tree_str(inner, fl);
                s.append(r.as_str());
            },
            Node::Cond(n) => {
                append_repeated(&mut s, ".", indent);
                s.append("?");
                s.append("\n");
                let c = n.cond.get_tree_str(inner, fl);
                s.append(c.as_str());
                s.append("\n");
                let t = n.iftrue.get_tree_str(inner, fl);
                s.append(t.as_str());
                s.append("\n");
                let f = n.iffalse.get_tree_str(inner, fl);
                s.append(f.as_str());
            },
        }
        assert(s@ =~= self.tree_text(indent, fl));
        s
    }

    /// The tree as an expression.
    pub fn get_equation_str<A: FloatOps>(&self, fl: &A) -> (r: String)
        ensures
            r@ == self.equation_text(fl),
        decreases self,
    {
        let mut s = String::from_str("");
        proof {
            reveal_strlit("");
            assert(s@ =~= Seq::<char>::empty());
        }
        match self {
            Node::Null(n) => {
                s.append(n.rtype.get_name());
            },
            Node::Val(n) => {
                let t = n.v.to_text(fl);
                s.append(t.as_str());
            },
            Node::Var(n) => {
                s.append("x[");
                append_nat(&mut s, n.idx as u64);
                s.append("]");
            },
            Node::Unary(n) => {
                s.append(n.kind.get_name());
                s.append("(");
                let a = n.arg.get_equation_str(fl);
                s.append(a.as_str());
                s.append(")");
            },
            Node::Binary(n) => {
                s.append("(");
                let l = n.lhs.get_equation_str(fl);
                s.append(l.as_str());
                s.append(" ");
                s.append(n.kind.get_name());
                s.append(" ");
                let r = n.rhs.get_equation_str(fl);
                s.append(r.as_str());
                s.append(" )");
            },
            Node::Cond(n) => {
                s.append("(");
                let c = n.cond.get_equation_str(fl);
                s.append(c.as_str());
                s.append(" ? ");
                let t = n.iftrue.get_equation_str(fl);
                s.append(t.as_str());
                s.append(" : ");
                let f = n.iffalse.get_equation_str(fl);
                s.append(f.as_str());
                s.append(" )");
            },
        }
        assert(s@ =~= self.equation_text(fl));
        s
    }
}

} // verus!
