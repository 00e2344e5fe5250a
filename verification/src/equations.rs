//! Expressions of model equations: their trees, the binding powers of the
//! operators, and the parser that builds a tree from the tokens of a line.

use vstd::prelude::*;
use crate::text::{push_all, string_of};
use crate::tokenize::{popped, scanned, token_text, top, Lexer, Token, TokenView};

verus! {

/// How tightly a prefix operator holds the expression on its right.
pub const PREFIX_POWER: u8 = 5;

/// How tightly the postfix operator holds the expression on its left.
pub const POSTFIX_POWER: u8 = 7;

/// Whether `op` is a prefix operator: a sign.
pub open spec fn is_prefix(op: char) -> bool {
    op == '+' || op == '-'
}

/// How tightly a prefix operator holds the expression on its right. Only
/// `+` and `-` are prefix operators.
pub fn prefix_binding_power(op: char) -> (bp: ((), u8))
    requires
        is_prefix(op),
    ensures
        bp.1 == PREFIX_POWER,
{
    ((), 5)
}

/// The binding powers of an infix operator, left then right, or none if
/// `op` is no infix operator. The right power exceeds the left one, so all
/// infix operators associate to the left.
pub open spec fn infix_power(op: char) -> Option<(u8, u8)> {
    if op == '=' || op == ':' {
        Some((0u8, 1u8))
    } else if op == '+' || op == '-' {
        Some((1u8, 2u8))
    } else if op == '*' || op == '/' {
        Some((3u8, 4u8))
    } else if op == '^' {
        Some((5u8, 6u8))
    } else {
        None
    }
}

/// The binding powers of an infix operator, left then right.
pub fn infix_binding_power(op: char) -> (bp: Option<(u8, u8)>)
    ensures
        bp == infix_power(op),
{
    let res: (u8, u8) = match op {
        '=' | ':' => (0, 1),
        '+' | '-' => (1, 2),
        '*' | '/' => (3, 4),
        '^' => (5, 6),
        _ => {
            return None;
        },
    };
    Some(res)
}

/// How tightly a postfix operator holds the expression on its left, or none
/// if `op` is no postfix operator. Only `!` is one.
pub fn postfix_binding_power(op: char) -> (bp: Option<(u8, ())>)
    ensures
        op == '!' ==> bp == Some((POSTFIX_POWER, ())),
        op != '!' ==> bp.is_none(),
{
    let res: (u8, ()) = match op {
        '!' => (7, ()),
        _ => {
            return None;
        },
    };
    Some(res)
}

/// The tree of an expression, as a value of the logic.
pub enum SExpr {
    /// A number or a name.
    Atom(TokenView),
    /// An operator with its operands.
    Cons(TokenView, Seq<SExpr>),
}

/// The tree of an expression.
#[derive(Debug)]
pub enum S {
    /// A number or a name.
    Atom(Token),
    /// An operator with its operands.
    Cons(Token, Vec<S>),
}

/// What a tree is, as a value of the logic.
pub open spec fn tree_of(tree: S) -> SExpr
    decreases tree,
{
    match tree {
        S::Atom(t) => SExpr::Atom(t@),
        S::Cons(t, rest) => SExpr::Cons(t@, trees_of(rest@, rest@.len())),
    }
}

/// What the first `k` of the trees are.
pub open spec fn trees_of(trees: Seq<S>, k: nat) -> Seq<SExpr>
    decreases trees, k,
{
    if k == 0 || k > trees.len() {
        Seq::empty()
    } else {
        trees_of(trees, (k - 1) as nat).push(tree_of(trees[k - 1]))
    }
}

impl View for S {
    type V = SExpr;

    open spec fn view(&self) -> SExpr {
        tree_of(*self)
    }
}

/// The views of trees are as many as the trees, each the view of its tree.
pub proof fn lemma_trees_of(trees: Seq<S>, k: nat)
    requires
        k <= trees.len(),
    ensures
        trees_of(trees, k).len() == k,
        forall|i: int| 0 <= i < k ==> trees_of(trees, k)[i] == trees[i]@,
    decreases k,
{
    if k > 0 {
        lemma_trees_of(trees, (k - 1) as nat);
    }
}

impl Clone for S {
    fn clone(&self) -> (r: S)
        ensures
            r@ == self@,
        decreases self,
    {
        match self {
            S::Atom(t) => S::Atom(t.clone()),
            S::Cons(t, rest) => {
                let mut copy: Vec<S> = Vec::new();
                let mut i: usize = 0;
                while i < rest.len()
                    invariant
                        0 <= i <= rest@.len(),
                        self matches S::Cons(_, r) && r == rest,
                        copy@.len() == i,
                        forall|k: int| 0 <= k < i ==> copy@[k]@ == rest@[k]@,
                    decreases rest@.len() - i,
                {
                    copy.push(rest[i].clone());
                    i = i + 1;
                }
                let r: S = S::Cons(t.clone(), copy);
                proof {
                    lemma_operands(r);
                    lemma_operands(*self);
                    assert(r@->Cons_1 =~= self@->Cons_1);
                }
                r
            },
        }
    }
}

/// Why a line is no expression.
#[derive(Debug)]
pub enum ParseError {
    /// A token stands where it cannot.
    UnexpectedToken(Token),
    /// The expression holds no equation.
    InvalidExpression,
}

/// Why a line is no expression, as a value of the logic.
pub enum ParseErrorView {
    UnexpectedToken(TokenView),
    InvalidExpression,
}

impl View for ParseError {
    type V = ParseErrorView;

    open spec fn view(&self) -> ParseErrorView {
        match self {
            ParseError::UnexpectedToken(t) => ParseErrorView::UnexpectedToken(t@),
            ParseError::InvalidExpression => ParseErrorView::InvalidExpression,
        }
    }
}

/// What parsing gives: the tree or the token that was not expected, and the
/// tokens that are left.
pub struct Parsed {
    pub result: Result<SExpr, TokenView>,
    pub rest: Seq<TokenView>,
}

/// An operator applied to one operand.
pub open spec fn unary(op: char, operand: SExpr) -> SExpr {
    SExpr::Cons(TokenView::Operator(op), seq![operand])
}

/// An operator applied to two operands.
pub open spec fn binary(op: char, left: SExpr, right: SExpr) -> SExpr {
    SExpr::Cons(TokenView::Operator(op), seq![left, right])
}

/// Parses the start of an expression from a stack of tokens: a number, a
/// name, an expression in parentheses, or a sign with its operand.
pub open spec fn parse_head(stack: Seq<TokenView>) -> Parsed
    decreases stack.len(), 1int,
{
    if stack.len() == 0 {
        Parsed { result: Err(TokenView::Eof), rest: stack }
    } else {
        match stack.last() {
            TokenView::Number(n) => Parsed {
                result: Ok(SExpr::Atom(TokenView::Number(n))),
                rest: stack.drop_last(),
            },
            TokenView::Identifier(s) => Parsed {
                result: Ok(SExpr::Atom(TokenView::Identifier(s))),
                rest: stack.drop_last(),
            },
            TokenView::Operator(op) => if op == '(' {
                let inner = parse_expr(stack.drop_last(), 0);
                match inner.result {
                    Ok(tree) => if top(inner.rest) == TokenView::Operator(')') {
                        Parsed { result: Ok(tree), rest: popped(inner.rest) }
                    } else {
                        Parsed { result: Err(top(inner.rest)), rest: popped(inner.rest) }
                    },
                    Err(_) => inner,
                }
            } else if is_prefix(op) {
                let operand = parse_expr(stack.drop_last(), PREFIX_POWER);
                match operand.result {
                    Ok(tree) => Parsed { result: Ok(unary(op, tree)), rest: operand.rest },
                    Err(_) => operand,
                }
            } else {
                Parsed { result: Err(TokenView::Operator(op)), rest: stack.drop_last() }
            },
            TokenView::Eof => Parsed { result: Err(TokenView::Eof), rest: stack.drop_last() },
        }
    }
}

/// Continues an expression whose left side `lhs` is parsed: as long as an
/// operator follows that binds at least as tightly as `min_bp`, it is taken
/// with its right side. A token that is no operator is not expected.
pub open spec fn parse_tail(stack: Seq<TokenView>, lhs: SExpr, min_bp: u8) -> Parsed
    decreases stack.len(), 0int,
{
    if stack.len() == 0 {
        Parsed { result: Ok(lhs), rest: stack }
    } else {
        match stack.last() {
            TokenView::Eof => Parsed { result: Ok(lhs), rest: stack },
            TokenView::Operator(op) => if op == '!' {
                if POSTFIX_POWER < min_bp {
                    Parsed { result: Ok(lhs), rest: stack }
                } else {
                    parse_tail(stack.drop_last(), unary(op, lhs), min_bp)
                }
            } else {
                match infix_power(op) {
                    Some((l_bp, r_bp)) => if l_bp < min_bp {
                        Parsed { result: Ok(lhs), rest: stack }
                    } else {
                        let rhs = parse_expr(stack.drop_last(), r_bp);
                        match rhs.result {
                            Ok(tree) => if rhs.rest.len() < stack.len() {
                                parse_tail(rhs.rest, binary(op, lhs, tree), min_bp)
                            } else {
                                rhs
                            },
                            Err(_) => rhs,
                        }
                    },
                    None => Parsed { result: Ok(lhs), rest: stack },
                }
            },
            other => Parsed { result: Err(other), rest: stack },
        }
    }
}

/// Parses an expression from a stack of tokens, taking only operators that
/// bind at least as tightly as `min_bp`.
pub open spec fn parse_expr(stack: Seq<TokenView>, min_bp: u8) -> Parsed
    decreases stack.len(), 2int,
{
    let head = parse_head(stack);
    match head.result {
        Ok(lhs) => if head.rest.len() <= stack.len() {
            parse_tail(head.rest, lhs, min_bp)
        } else {
            head
        },
        Err(_) => head,
    }
}

/// Parsing never leaves more tokens than it was given.
pub proof fn lemma_parse_consumes(stack: Seq<TokenView>, lhs: SExpr, min_bp: u8)
    ensures
        parse_head(stack).rest.len() <= stack.len(),
        parse_tail(stack, lhs, min_bp).rest.len() <= stack.len(),
        parse_expr(stack, min_bp).rest.len() <= stack.len(),
    decreases stack.len(), 3int,
{
    lemma_head_consumes(stack);
    lemma_tail_consumes(stack, lhs, min_bp);
    lemma_expr_consumes(stack, min_bp);
}

proof fn lemma_head_consumes(stack: Seq<TokenView>)
    ensures
        parse_head(stack).rest.len() <= stack.len(),
    decreases stack.len(), 1int,
{
    if stack.len() > 0 {
        match stack.last() {
            TokenView::Operator(op) => {
                if op == '(' {
                    lemma_expr_consumes(stack.drop_last(), 0);
                } else if is_prefix(op) {
                    lemma_expr_consumes(stack.drop_last(), PREFIX_POWER);
                }
            },
            _ => {},
        }
    }
}

proof fn lemma_tail_consumes(stack: Seq<TokenView>, lhs: SExpr, min_bp: u8)
    ensures
        parse_tail(stack, lhs, min_bp).rest.len() <= stack.len(),
    decreases stack.len(), 0int,
{
    if stack.len() > 0 {
        match stack.last() {
            TokenView::Operator(op) => {
                if op == '!' {
                    if POSTFIX_POWER >= min_bp {
                        lemma_tail_consumes(stack.drop_last(), unary(op, lhs), min_bp);
                    }
                } else {
                    match infix_power(op) {
                        Some((l_bp, r_bp)) => {
                            if l_bp >= min_bp {
                                lemma_expr_consumes(stack.drop_last(), r_bp);
                                let rhs = parse_expr(stack.drop_last(), r_bp);
                                match rhs.result {
                                    Ok(tree) => {
                                        lemma_tail_consumes(rhs.rest, binary(op, lhs, tree), min_bp);
                                    },
                                    Err(_) => {},
                                }
                            }
                        },
                        None => {},
                    }
                }
            },
            _ => {},
        }
    }
}

proof fn lemma_expr_consumes(stack: Seq<TokenView>, min_bp: u8)
    ensures
        parse_expr(stack, min_bp).rest.len() <= stack.len(),
    decreases stack.len(), 2int,
{
    lemma_head_consumes(stack);
    let head = parse_head(stack);
    match head.result {
        Ok(lhs) => {
            lemma_tail_consumes(head.rest, lhs, min_bp);
        },
        Err(_) => {},
    }
}

/// What a parse returned, as values of the logic.
pub open spec fn outcome(r: Result<S, ParseError>) -> Result<SExpr, TokenView> {
    match r {
        Ok(tree) => Ok(tree@),
        Err(ParseError::UnexpectedToken(t)) => Err(t@),
        Err(ParseError::InvalidExpression) => Err(TokenView::Eof),
    }
}

fn apply_one(op: char, operand: S) -> (tree: S)
    ensures
        tree@ == unary(op, operand@),
{
    let mut operands: Vec<S> = Vec::new();
    operands.push(operand);
    let tree: S = S::Cons(Token::Operator(op), operands);
    proof {
        lemma_operands(tree);
        assert(tree@->Cons_1 =~= seq![operand@]);
    }
    tree
}

fn apply_two(op: char, left: S, right: S) -> (tree: S)
    ensures
        tree@ == binary(op, left@, right@),
{
    let mut operands: Vec<S> = Vec::new();
    operands.push(left);
    operands.push(right);
    let tree: S = S::Cons(Token::Operator(op), operands);
    proof {
        lemma_operands(tree);
        assert(tree@->Cons_1 =~= seq![left@, right@]);
    }
    tree
}

/// Parses an expression from the lexer, taking only operators that bind at
/// least as tightly as `min_bp`. On success the lexer is left at the first
/// token that is not part of the expression. An error names the token that
/// was not expected: the end of the input where an operand is missing, a
/// token that is no operator after an operand, an operator that cannot
/// start an expression, or what stands in place of a closing parenthesis.
pub fn expr_bp(lexer: &mut Lexer, min_bp: u8) -> (r: Result<S, ParseError>)
    ensures
        outcome(r) == parse_expr(old(lexer)@, min_bp).result,
        final(lexer)@ == parse_expr(old(lexer)@, min_bp).rest,
        r is Err ==> r->Err_0 is UnexpectedToken,
    decreases old(lexer)@.len(),
{
    let ghost start = lexer@;
    proof {
        lemma_parse_consumes(start, SExpr::Atom(TokenView::Eof), min_bp);
    }
    let mut lhs: S = match lexer.next() {
        Token::Number(n) => S::Atom(Token::Number(n)),
        Token::Identifier(s) => S::Atom(Token::Identifier(s)),
        Token::Operator(op) => {
            proof {
                lemma_parse_consumes(lexer@, SExpr::Atom(TokenView::Eof), 0);
                lemma_parse_consumes(lexer@, SExpr::Atom(TokenView::Eof), PREFIX_POWER);
            }
            if op == '(' {
                match expr_bp(lexer, 0) {
                    Ok(inner) => {
                        let close: Token = lexer.next();
                        if close.is_operator(')') {
                            inner
                        } else {
                            return Err(ParseError::UnexpectedToken(close));
                        }
                    },
                    Err(e) => {
                        return Err(e);
                    },
                }
            } else if op == '+' || op == '-' {
                let bp: ((), u8) = prefix_binding_power(op);
                match expr_bp(lexer, bp.1) {
                    Ok(rhs) => apply_one(op, rhs),
                    Err(e) => {
                        return Err(e);
                    },
                }
            } else {
                return Err(ParseError::UnexpectedToken(Token::Operator(op)));
            }
        },
        Token::Eof => {
            return Err(ParseError::UnexpectedToken(Token::Eof));
        },
    };
    proof {
        lemma_parse_consumes(start, SExpr::Atom(TokenView::Eof), min_bp);
        assert(parse_head(start).result == Ok::<SExpr, TokenView>(lhs@));
        assert(parse_head(start).rest == lexer@);
    }
    loop
        invariant
            start == old(lexer)@,
            lexer@.len() < start.len(),
            parse_tail(lexer@, lhs@, min_bp) == parse_expr(start, min_bp),
        ensures
            parse_expr(start, min_bp).result == Ok::<SExpr, TokenView>(lhs@),
            parse_expr(start, min_bp).rest == lexer@,
        decreases lexer@.len(),
    {
        let ghost stack = lexer@;
        let op: char = match lexer.peek() {
            Token::Eof => {
                break ;
            },
            Token::Operator(op) => op,
            t => {
                return Err(ParseError::UnexpectedToken(t));
            },
        };
        match postfix_binding_power(op) {
            Some(bp) => {
                if bp.0 < min_bp {
                    break ;
                }
                let _taken: Token = lexer.next();
                lhs = apply_one(op, lhs);
                continue ;
            },
            None => {},
        }
        match infix_binding_power(op) {
            Some(bp) => {
                if bp.0 < min_bp {
                    break ;
                }
                let _taken: Token = lexer.next();
                proof {
                    lemma_parse_consumes(stack.drop_last(), SExpr::Atom(TokenView::Eof), bp.1);
                }
                match expr_bp(lexer, bp.1) {
                    Ok(rhs) => {
                        lhs = apply_two(op, lhs, rhs);
                    },
                    Err(e) => {
                        return Err(e);
                    },
                }
                continue ;
            },
            None => {},
        }
        break ;
    }
    Ok(lhs)
}

/// The tree of a line of text, or the token that was not expected. What
/// follows the last token that the lexer knows is not looked at.
pub open spec fn parsed(line: Seq<char>) -> Result<SExpr, TokenView> {
    parse_expr(scanned(line, 0).reverse(), 0).result
}

/// Parses a line of text as an expression.
pub fn expr(input: &str) -> (r: Result<S, ParseError>)
    ensures
        outcome(r) == parsed(input@),
        r is Err ==> r->Err_0 is UnexpectedToken,
{
    let mut lexer: Lexer = Lexer::new(input);
    expr_bp(&mut lexer, 0)
}

/// Parses a line of characters as an expression.
pub fn expr_of_chars(line: &Vec<char>) -> (r: Result<S, ParseError>)
    ensures
        outcome(r) == parsed(line@),
        r is Err ==> r->Err_0 is UnexpectedToken,
{
    let mut lexer: Lexer = Lexer::scan(line);
    expr_bp(&mut lexer, 0)
}

/// The operands of the view of a tree are the views of its operands.
pub proof fn lemma_operands(tree: S)
    ensures
        match tree {
            S::Atom(t) => tree@ == SExpr::Atom(t@),
            S::Cons(t, rest) => match tree@ {
                SExpr::Cons(head, operands) => {
                    &&& head == t@
                    &&& operands.len() == rest@.len()
                    &&& forall|i: int| 0 <= i < rest@.len() ==> operands[i] == rest@[i]@
                },
                SExpr::Atom(_) => false,
            },
        },
{
    match tree {
        S::Atom(t) => {},
        S::Cons(t, rest) => {
            lemma_trees_of(rest@, rest@.len());
        },
    }
}

/// The text of a tree in prefix notation: an atom is its token, and an
/// operator with its operands is `(op operand operand)`.
pub open spec fn display_text(e: SExpr) -> Seq<char>
    decreases e,
{
    match e {
        SExpr::Atom(t) => token_text(t),
        SExpr::Cons(head, rest) => seq!['('] + token_text(head) + display_operands(
            rest,
            rest.len(),
        ) + seq![')'],
    }
}

/// The texts of the first `k` operands in prefix notation, each after a
/// blank.
pub open spec fn display_operands(rest: Seq<SExpr>, k: nat) -> Seq<char>
    decreases rest, k,
{
    if k == 0 || k > rest.len() {
        Seq::empty()
    } else {
        display_operands(rest, (k - 1) as nat) + seq![' '] + display_text(rest[k - 1])
    }
}

/// The text of a tree in the usual notation, without parentheses: the first
/// operand, the operator, and the other operands, with blanks between. An
/// operator without operands has a blank in place of the first.
pub open spec fn standard_text(e: SExpr) -> Seq<char>
    decreases e,
{
    match e {
        SExpr::Atom(t) => token_text(t),
        SExpr::Cons(t, rest) => (if rest.len() > 0 {
            standard_text(rest[0])
        } else {
            seq![' ']
        }) + seq![' '] + token_text(t) + seq![' '] + standard_operands(rest, rest.len()),
    }
}

/// The texts in the usual notation of the operands after the first, up to
/// operand `k`, with blanks between.
pub open spec fn standard_operands(rest: Seq<SExpr>, k: nat) -> Seq<char>
    decreases rest, k,
{
    if k <= 1 || k > rest.len() {
        Seq::empty()
    } else if k == 2 {
        standard_text(rest[1])
    } else {
        standard_operands(rest, (k - 1) as nat) + seq![' '] + standard_text(rest[k - 1])
    }
}

impl S {
    /// The characters of the tree in prefix notation.
    pub fn display_chars(&self) -> (text: Vec<char>)
        ensures
            text@ == display_text(self@),
        decreases self,
    {
        match self {
            S::Atom(t) => t.chars(),
            S::Cons(head, rest) => {
                let ghost operands = self@->Cons_1;
                proof {
                    lemma_operands(*self);
                }
                let mut text: Vec<char> = Vec::new();
                text.push('(');
                push_all(&mut text, &head.chars());
                let ghost front = text@;
                assert(front =~= seq!['('] + token_text(head@));
                let mut i: usize = 0;
                while i < rest.len()
                    invariant
                        0 <= i <= rest@.len(),
                        self matches S::Cons(_, r) && r == rest,
                        operands == self@->Cons_1,
                        operands.len() == rest@.len(),
                        forall|k: int| 0 <= k < rest@.len() ==> operands[k] == rest@[k]@,
                        text@ == front + display_operands(operands, i as nat),
                    decreases rest@.len() - i,
                {
                    text.push(' ');
                    let operand: Vec<char> = rest[i].display_chars();
                    assert(operands[i as int] == rest@[i as int]@);
                    push_all(&mut text, &operand);
                    assert(text@ =~= front + display_operands(operands, (i + 1) as nat));
                    i = i + 1;
                }
                text.push(')');
                assert(text@ =~= display_text(self@));
                text
            },
        }
    }

    /// The tree in prefix notation, such as `(+ 1 (* 2 3))`.
    pub fn to_string(&self) -> (text: String)
        ensures
            text@ == display_text(self@),
    {
        string_of(&self.display_chars())
    }

    /// The characters of the tree in the usual notation.
    pub fn standard_chars(&self) -> (text: Vec<char>)
        ensures
            text@ == standard_text(self@),
        decreases self,
    {
        match self {
            S::Atom(t) => t.chars(),
            S::Cons(t, rest) => {
                let ghost operands = self@->Cons_1;
                proof {
                    lemma_operands(*self);
                }
                let mut text: Vec<char> = Vec::new();
                if rest.len() > 0 {
                    let first: Vec<char> = rest[0].standard_chars();
                    assert(operands[0] == rest@[0]@);
                    push_all(&mut text, &first);
                } else {
                    text.push(' ');
                }
                text.push(' ');
                push_all(&mut text, &t.chars());
                text.push(' ');
                let ghost front = text@;
                assert(front =~= (if operands.len() > 0 {
                    standard_text(operands[0])
                } else {
                    seq![' ']
                }) + seq![' '] + token_text(t@) + seq![' ']);
                let mut i: usize = 1;
                while i < rest.len()
                    invariant
                        1 <= i,
                        i <= rest@.len() || rest@.len() == 0,
                        self matches S::Cons(_, r) && r == rest,
                        operands == self@->Cons_1,
                        operands.len() == rest@.len(),
                        forall|k: int| 0 <= k < rest@.len() ==> operands[k] == rest@[k]@,
                        text@ == front + standard_operands(operands, i as nat),
                    decreases rest@.len() - i,
                {
                    if i > 1 {
                        text.push(' ');
                    }
                    let operand: Vec<char> = rest[i].standard_chars();
                    assert(operands[i as int] == rest@[i as int]@);
                    push_all(&mut text, &operand);
                    assert(text@ =~= front + standard_operands(operands, (i + 1) as nat));
                    i = i + 1;
                }
                proof {
                    assert(standard_operands(operands, i as nat) =~= standard_operands(
                        operands,
                        operands.len(),
                    ));
                    assert(text@ =~= standard_text(self@));
                }
                text
            },
        }
    }

    /// The tree in the usual notation, without parentheses, such as
    /// `1 + 2 * 3`.
    pub fn to_standard_string(&self) -> (text: String)
        ensures
            text@ == standard_text(self@),
    {
        string_of(&self.standard_chars())
    }
}

} // verus!
