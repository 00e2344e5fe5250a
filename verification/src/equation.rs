//! Model equations: an assignment or a differential equation with its
//! unit, found in the tree of a line.

use vstd::prelude::*;
use crate::equations::{
    expr_of_chars, lemma_operands, outcome, parsed, standard_text, ParseError, ParseErrorView,
    SExpr, S,
};
use crate::text::{chars_of, is_whitespace, string_of, whitespace};
use crate::tokenize::{Token, TokenView};

verus! {

/// An equation of a model.
#[derive(Debug)]
pub enum Equation {
    /// `left = right`, with the unit.
    Assignment(S, S, String),
    /// `dx/dt = right`, with the unit.
    Differential(S, S, String),
}

/// An equation, as a value of the logic.
pub enum EquationView {
    Assignment(SExpr, SExpr, Seq<char>),
    Differential(SExpr, SExpr, Seq<char>),
}

impl View for Equation {
    type V = EquationView;

    open spec fn view(&self) -> EquationView {
        match self {
            Equation::Assignment(l, r, u) => EquationView::Assignment(l@, r@, u@),
            Equation::Differential(l, r, u) => EquationView::Differential(l@, r@, u@),
        }
    }
}

/// The unit of an equation that names none.
pub open spec fn default_unit() -> Seq<char> {
    seq!['u', 'n', 'i', 't']
}

/// The number of nodes of a tree.
pub open spec fn size(e: SExpr) -> nat
    decreases e,
{
    match e {
        SExpr::Atom(_) => 1,
        SExpr::Cons(_, rest) => 1 + sizes(rest, rest.len()),
    }
}

/// The number of nodes of the first `k` trees.
pub open spec fn sizes(trees: Seq<SExpr>, k: nat) -> nat
    decreases trees, k,
{
    if k == 0 || k > trees.len() {
        0
    } else {
        sizes(trees, (k - 1) as nat) + size(trees[k - 1])
    }
}

/// Whether a tree is a quotient: the left side of a differential equation.
pub open spec fn is_quotient(e: SExpr) -> bool {
    match e {
        SExpr::Cons(head, _) => head == TokenView::Operator('/'),
        SExpr::Atom(_) => false,
    }
}

/// The equation that an `=` with the given operands stands for, or none if
/// it has no operands. The first operand is the left side and the last the
/// right side; a quotient on the left makes the equation differential.
pub open spec fn equation_of(operands: Seq<SExpr>, unit: Seq<char>) -> Option<EquationView> {
    if operands.len() == 0 {
        None
    } else if is_quotient(operands[0]) {
        Some(EquationView::Differential(operands[0], operands.last(), unit))
    } else {
        Some(EquationView::Assignment(operands[0], operands.last(), unit))
    }
}

/// The equation found in a stack of trees that are still to be searched,
/// with the unit that was last seen. The top of the stack, its last tree,
/// is searched first. An `=` gives the equation. A `:` names the unit by
/// its second operand and is searched on, like every other operator: its
/// operands go on the stack. Atoms are passed over. There is none if the
/// stack runs out, or if a `:` has no second operand.
pub open spec fn found(stack: Seq<SExpr>, unit: Seq<char>) -> Option<EquationView>
    decreases sizes(stack, stack.len()),
{
    if stack.len() == 0 {
        None
    } else {
        let rest = stack.drop_last();
        match stack.last() {
            SExpr::Cons(TokenView::Operator(op), operands) => if op == '=' {
                equation_of(operands, unit)
            } else if op == ':' && operands.len() < 2 {
                None
            } else if sizes(rest + operands, (rest + operands).len()) < sizes(stack, stack.len()) {
                found(
                    rest + operands,
                    if op == ':' {
                        standard_text(operands[1])
                    } else {
                        unit
                    },
                )
            } else {
                None
            },
            _ => if sizes(rest, rest.len()) < sizes(stack, stack.len()) {
                found(rest, unit)
            } else {
                None
            },
        }
    }
}

/// The nodes of two stacks together are the nodes of the one and of the
/// other.
pub proof fn lemma_sizes_add(a: Seq<SExpr>, b: Seq<SExpr>, k: nat)
    requires
        k <= b.len(),
    ensures
        sizes(a + b, a.len() + k) == sizes(a, a.len()) + sizes(b, k),
    decreases k,
{
    if k == 0 {
        lemma_sizes_prefix(a + b, a, a.len());
    } else {
        lemma_sizes_add(a, b, (k - 1) as nat);
        assert((a + b)[a.len() + k - 1] == b[k - 1]);
    }
}

/// The nodes of the first `k` trees depend on those trees alone.
pub proof fn lemma_sizes_prefix(a: Seq<SExpr>, b: Seq<SExpr>, k: nat)
    requires
        k <= a.len(),
        k <= b.len(),
        forall|i: int| 0 <= i < k ==> a[i] == b[i],
    ensures
        sizes(a, k) == sizes(b, k),
    decreases k,
{
    if k > 0 {
        lemma_sizes_prefix(a, b, (k - 1) as nat);
    }
}

/// Taking the top off a stack and putting its operands on leaves fewer
/// nodes.
pub proof fn lemma_search_shrinks(stack: Seq<SExpr>)
    requires
        stack.len() > 0,
    ensures
        sizes(stack.drop_last(), (stack.len() - 1) as nat) < sizes(stack, stack.len()),
        match stack.last() {
            SExpr::Cons(_, operands) => sizes(
                stack.drop_last() + operands,
                (stack.drop_last() + operands).len(),
            ) < sizes(stack, stack.len()),
            SExpr::Atom(_) => true,
        },
{
    let rest = stack.drop_last();
    lemma_sizes_prefix(stack, rest, rest.len());
    assert(sizes(stack, stack.len()) == sizes(stack, (stack.len() - 1) as nat) + size(
        stack[stack.len() - 1],
    ));
    match stack.last() {
        SExpr::Cons(_, operands) => {
            lemma_sizes_add(rest, operands, operands.len());
            assert(size(stack.last()) == 1 + sizes(operands, operands.len()));
        },
        SExpr::Atom(_) => {
            assert(size(stack.last()) == 1);
        },
    }
}

/// What each of the trees is, in order.
pub open spec fn tree_views(trees: Seq<S>) -> Seq<SExpr> {
    Seq::new(trees.len(), |i: int| trees[i]@)
}

impl Equation {
    /// The equation in a tree, or none if the tree holds none: `found` on
    /// the tree alone with the default unit.
    pub fn from_tree(root: S) -> (equation: Option<Equation>)
        ensures
            match equation {
                Some(e) => found(seq![root@], default_unit()) == Some(e@),
                None => found(seq![root@], default_unit()).is_none(),
            },
    {
        let ghost goal = found(seq![root@], default_unit());
        let mut queue: Vec<S> = Vec::new();
        queue.push(root);
        let mut unit: Vec<char> = Vec::new();
        unit.push('u');
        unit.push('n');
        unit.push('i');
        unit.push('t');
        assert(unit@ =~= default_unit());
        assert(tree_views(queue@) =~= seq![root@]);
        while queue.len() > 0
            invariant
                goal == found(seq![root@], default_unit()),
                found(tree_views(queue@), unit@) == goal,
            decreases sizes(tree_views(queue@), queue@.len()),
        {
            let ghost stack = tree_views(queue@);
            proof {
                lemma_search_shrinks(stack);
            }
            let ghost before = queue@;
            let top: Option<S> = queue.pop();
            proof {
                assert(tree_views(queue@) =~= stack.drop_last());
                assert(top.unwrap()@ == stack[before.len() - 1]);
                lemma_operands(top.unwrap());
            }
            match top {
                Some(S::Cons(Token::Operator(token), children)) => {
                    let ghost operands = stack.last()->Cons_1;
                    proof {
                        assert(stack.last() == SExpr::Cons(TokenView::Operator(token), operands));
                        assert(tree_views(children@) =~= operands);
                    }
                    if token == '=' {
                        if children.len() == 0 {
                            return None;
                        }
                        let left: S = children[0].clone();
                        let right: S = children[children.len() - 1].clone();
                        let text: String = string_of(&unit);
                        let is_differential: bool = match &left {
                            S::Cons(Token::Operator(head), _) => *head == '/',
                            _ => false,
                        };
                        proof {
                            lemma_operands(left);
                        }
                        if is_differential {
                            return Some(Equation::Differential(left, right, text));
                        } else {
                            return Some(Equation::Assignment(left, right, text));
                        }
                    } else if token == ':' {
                        if children.len() < 2 {
                            return None;
                        }
                        unit = children[1].standard_chars();
                    }
                    let mut children: Vec<S> = children;
                    let ghost below = queue@;
                    queue.append(&mut children);
                    assert(tree_views(queue@) =~= tree_views(below) + operands);
                },
                _ => {},
            }
        }
        None
    }

    /// The equation in a tree that holds one.
    pub fn new(root: S) -> (equation: Equation)
        requires
            found(seq![root@], default_unit()).is_some(),
        ensures
            found(seq![root@], default_unit()) == Some(equation@),
    {
        match Equation::from_tree(root) {
            Some(equation) => equation,
            None => {
                proof {
                    assert(false);
                }
                Equation::Assignment(S::Atom(Token::Eof), S::Atom(Token::Eof), String::new())
            },
        }
    }

    /// The left side.
    pub fn lhs(&self) -> (tree: &S)
        ensures
            tree@ == match self@ {
                EquationView::Assignment(l, _, _) => l,
                EquationView::Differential(l, _, _) => l,
            },
    {
        match self {
            Equation::Assignment(lhs, _, _) => lhs,
            Equation::Differential(lhs, _, _) => lhs,
        }
    }

    /// The right side.
    pub fn rhs(&self) -> (tree: &S)
        ensures
            tree@ == match self@ {
                EquationView::Assignment(_, r, _) => r,
                EquationView::Differential(_, r, _) => r,
            },
    {
        match self {
            Equation::Assignment(_, rhs, _) => rhs,
            Equation::Differential(_, rhs, _) => rhs,
        }
    }

    /// The unit: what follows the `:` of the line, or `unit` where the line
    /// names none.
    pub fn unit(&self) -> (text: &str)
        ensures
            text@ == match self@ {
                EquationView::Assignment(_, _, u) => u,
                EquationView::Differential(_, _, u) => u,
            },
    {
        match self {
            Equation::Assignment(_, _, unit) => unit.as_str(),
            Equation::Differential(_, _, unit) => unit.as_str(),
        }
    }
}

/// Where the white space that starts at `pos` ends.
pub open spec fn trim_start(text: Seq<char>, pos: int) -> int
    decreases text.len() - pos,
{
    if 0 <= pos < text.len() && whitespace(text[pos]) {
        trim_start(text, pos + 1)
    } else {
        pos
    }
}

/// Where the white space that ends at `end` starts, but not before `from`.
pub open spec fn trim_end(text: Seq<char>, from: int, end: int) -> int
    decreases end,
{
    if 0 <= from < end <= text.len() && whitespace(text[end - 1]) {
        trim_end(text, from, end - 1)
    } else {
        end
    }
}

/// The text without the white space at its start and at its end.
pub open spec fn trimmed(text: Seq<char>) -> Seq<char> {
    let start = trim_start(text, 0);
    let end = trim_end(text, start, text.len() as int);
    if 0 <= start <= end <= text.len() {
        text.subrange(start, end)
    } else {
        Seq::empty()
    }
}

/// The place of the first line feed at or after `pos`, or the length of the
/// text if there is none.
pub open spec fn line_end(text: Seq<char>, pos: int) -> int
    decreases text.len() - pos,
{
    if 0 <= pos < text.len() && text[pos] != '\n' {
        line_end(text, pos + 1)
    } else {
        pos
    }
}

/// The lines of the text from `pos` on: the pieces between line feeds. A
/// text that ends in a line feed has an empty last line, and the empty text
/// has one empty line.
pub open spec fn lines_from(text: Seq<char>, pos: int) -> Seq<Seq<char>>
    decreases text.len() - pos,
{
    let end = line_end(text, pos);
    if 0 <= pos <= end < text.len() {
        seq![text.subrange(pos, end)] + lines_from(text, end + 1)
    } else if 0 <= pos <= text.len() {
        seq![text.subrange(pos, text.len() as int)]
    } else {
        Seq::empty()
    }
}

/// The equation of a line: the line must parse as an expression, and the
/// tree must hold an equation.
pub open spec fn equation_in(line: Seq<char>) -> Result<EquationView, ParseErrorView> {
    match parsed(line) {
        Ok(tree) => match found(seq![tree], default_unit()) {
            Some(equation) => Ok(equation),
            None => Err(ParseErrorView::InvalidExpression),
        },
        Err(token) => Err(ParseErrorView::UnexpectedToken(token)),
    }
}

/// The equations of the first `k` lines, or the error of the first line
/// that has one.
pub open spec fn equations_in(lines: Seq<Seq<char>>, k: nat) -> Result<
    Seq<EquationView>,
    ParseErrorView,
>
    decreases k,
{
    if k == 0 || k > lines.len() {
        Ok(Seq::empty())
    } else {
        match equations_in(lines, (k - 1) as nat) {
            Ok(equations) => match equation_in(lines[k - 1]) {
                Ok(equation) => Ok(equations.push(equation)),
                Err(e) => Err(e),
            },
            Err(e) => Err(e),
        }
    }
}

/// What parsing equations returned, as values of the logic.
pub open spec fn equations_outcome(r: Result<Vec<Equation>, ParseError>) -> Result<
    Seq<EquationView>,
    ParseErrorView,
> {
    match r {
        Ok(equations) => Ok(Seq::new(equations@.len(), |i: int| equations@[i]@)),
        Err(e) => Err(e@),
    }
}

fn trim(text: &Vec<char>) -> (kept: Vec<char>)
    ensures
        kept@ == trimmed(text@),
{
    let mut start: usize = 0;
    while start < text.len() && is_whitespace(text[start])
        invariant
            0 <= start <= text@.len(),
            trim_start(text@, start as int) == trim_start(text@, 0),
        decreases text@.len() - start,
    {
        start = start + 1;
    }
    let mut end: usize = text.len();
    while start < end && is_whitespace(text[end - 1])
        invariant
            0 <= start <= end <= text@.len(),
            trim_end(text@, start as int, end as int) == trim_end(
                text@,
                start as int,
                text@.len() as int,
            ),
        decreases end,
    {
        end = end - 1;
    }
    let mut kept: Vec<char> = Vec::new();
    let mut i: usize = start;
    while i < end
        invariant
            start <= i <= end <= text@.len(),
            kept@ == text@.subrange(start as int, i as int),
        decreases end - i,
    {
        kept.push(text[i]);
        assert(kept@ =~= text@.subrange(start as int, i + 1));
        i = i + 1;
    }
    kept
}

fn read_line(text: &Vec<char>, pos: usize) -> (line: (Vec<char>, usize))
    requires
        pos <= text@.len(),
    ensures
        line.1 == line_end(text@, pos as int),
        pos <= line.1 <= text@.len(),
        line.0@ == text@.subrange(pos as int, line.1 as int),
{
    let mut taken: Vec<char> = Vec::new();
    let mut end: usize = pos;
    while end < text.len() && text[end] != '\n'
        invariant
            pos <= end <= text@.len(),
            line_end(text@, end as int) == line_end(text@, pos as int),
            taken@ == text@.subrange(pos as int, end as int),
        decreases text@.len() - end,
    {
        taken.push(text[end]);
        assert(taken@ =~= text@.subrange(pos as int, end + 1));
        end = end + 1;
    }
    (taken, end)
}

/// Parses the equations of a text, one to a line. White space at the start
/// and at the end of the text is dropped first. The first line that is no
/// expression, or whose expression holds no equation, ends the parse with
/// its error.
pub fn parse_equations(input: &str) -> (r: Result<Vec<Equation>, ParseError>)
    ensures
        equations_outcome(r) == equations_in(
            lines_from(trimmed(input@), 0),
            lines_from(trimmed(input@), 0).len(),
        ),
{
    let text: Vec<char> = trim(&chars_of(input));
    let ghost lines = lines_from(text@, 0);
    let mut parsed_expressions: Vec<Equation> = Vec::new();
    let mut pos: usize = 0;
    let ghost mut done: nat = 0;
    proof {
        lemma_lines_not_empty(text@, 0);
        assert(lines.subrange(0, lines.len() as int) =~= lines);
        assert(Seq::new(parsed_expressions@.len(), |i: int| parsed_expressions@[i]@)
            =~= Seq::<EquationView>::empty());
    }
    loop
        invariant_except_break
            done < lines.len(),
            lines.subrange(done as int, lines.len() as int) == lines_from(text@, pos as int),
        invariant
            0 <= pos <= text@.len(),
            done <= lines.len(),
            lines == lines_from(text@, 0),
            text@ == trimmed(input@),
            equations_in(lines, done) == Ok::<Seq<EquationView>, ParseErrorView>(
                Seq::new(parsed_expressions@.len(), |i: int| parsed_expressions@[i]@),
            ),
        ensures
            done == lines.len(),
        decreases text@.len() - pos,
    {
        let line: (Vec<char>, usize) = read_line(&text, pos);
        let ghost rest = lines_from(text@, pos as int);
        let ghost so_far = Seq::new(parsed_expressions@.len(), |i: int| parsed_expressions@[i]@);
        proof {
            assert(rest[0] == line.0@);
            assert(lines[done as int] == rest[0]);
        }
        match expr_of_chars(&line.0) {
            Ok(tree) => match Equation::from_tree(tree) {
                Some(equation) => {
                    parsed_expressions.push(equation);
                    assert(Seq::new(parsed_expressions@.len(), |i: int| parsed_expressions@[i]@)
                        =~= so_far.push(equation@));
                },
                None => {
                    proof {
                        lemma_error_stays(lines, (done + 1) as nat, lines.len());
                    }
                    return Err(ParseError::InvalidExpression);
                },
            },
            Err(e) => {
                proof {
                    lemma_error_stays(lines, (done + 1) as nat, lines.len());
                }
                return Err(e);
            },
        }
        proof {
            assert(lines.subrange(done as int, lines.len() as int) == rest);
            done = done + 1;
        }
        if line.1 >= text.len() {
            assert(rest.len() == 1);
            break ;
        }
        proof {
            let next = lines_from(text@, line.1 + 1);
            assert(rest =~= seq![line.0@] + next);
            assert(rest.subrange(1, rest.len() as int) =~= next);
            assert(lines.subrange(done as int, lines.len() as int) =~= rest.subrange(
                1,
                rest.len() as int,
            ));
            lemma_lines_not_empty(text@, line.1 + 1);
        }
        pos = line.1 + 1;
    }
    Ok(parsed_expressions)
}

/// A text has at least one line.
pub proof fn lemma_lines_not_empty(text: Seq<char>, pos: int)
    requires
        0 <= pos <= text.len(),
    ensures
        lines_from(text, pos).len() >= 1,
{
}

/// Once a line has an error, the error stays the result however many lines
/// follow.
pub proof fn lemma_error_stays(lines: Seq<Seq<char>>, k: nat, n: nat)
    requires
        k <= n <= lines.len(),
        equations_in(lines, k) is Err,
    ensures
        equations_in(lines, n) == equations_in(lines, k),
    decreases n,
{
    if n > k {
        lemma_error_stays(lines, k, (n - 1) as nat);
    }
}

} // verus!
