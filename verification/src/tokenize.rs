//! The tokens of model equations, and the lexer that cuts a line of text
//! into them.

use vstd::prelude::*;
use crate::fixed::{saturate, SCALE};
use crate::text::{
    alphabetic, chars_of, digit_value, digits_value, is_alphabetic, is_digit, number_chars,
    number_text, number_value, six_places, string_of,
};

verus! {

/// What a token is, with the text of an identifier as its characters.
pub enum TokenView {
    Number(i64),
    Operator(char),
    Identifier(Seq<char>),
    Eof,
}

/// A token of an equation.
#[derive(Debug, PartialEq)]
pub enum Token {
    /// A number, in fixed point.
    Number(i64),
    /// One of `+ - * / ^ ( ) = :`.
    Operator(char),
    /// A name: letters and underscores.
    Identifier(String),
    /// The end of the input.
    Eof,
}

impl View for Token {
    type V = TokenView;

    open spec fn view(&self) -> TokenView {
        match self {
            Token::Number(n) => TokenView::Number(*n),
            Token::Operator(c) => TokenView::Operator(*c),
            Token::Identifier(s) => TokenView::Identifier(s@),
            Token::Eof => TokenView::Eof,
        }
    }
}

impl Clone for Token {
    fn clone(&self) -> (r: Token)
        ensures
            r@ == self@,
    {
        match self {
            Token::Number(n) => Token::Number(*n),
            Token::Operator(c) => Token::Operator(*c),
            Token::Identifier(s) => Token::Identifier(s.clone()),
            Token::Eof => Token::Eof,
        }
    }
}

/// The text of a token: the decimal notation of a number, the character of
/// an operator, the name of an identifier, and `EOF` for the end.
pub open spec fn token_text(t: TokenView) -> Seq<char> {
    match t {
        TokenView::Number(n) => number_text(n),
        TokenView::Operator(c) => seq![c],
        TokenView::Identifier(s) => s,
        TokenView::Eof => seq!['E', 'O', 'F'],
    }
}

/// What each of the tokens is, in order.
pub open spec fn token_views(tokens: Seq<Token>) -> Seq<TokenView> {
    Seq::new(tokens.len(), |i: int| tokens[i]@)
}

impl Token {
    /// The characters of the text of the token.
    pub fn chars(&self) -> (text: Vec<char>)
        ensures
            text@ == token_text(self@),
    {
        match self {
            Token::Number(n) => number_chars(*n),
            Token::Operator(c) => {
                let mut text: Vec<char> = Vec::new();
                text.push(*c);
                assert(text@ =~= seq![*c]);
                text
            },
            Token::Identifier(s) => chars_of(s.as_str()),
            Token::Eof => {
                let mut text: Vec<char> = Vec::new();
                text.push('E');
                text.push('O');
                text.push('F');
                assert(text@ =~= seq!['E', 'O', 'F']);
                text
            },
        }
    }

    /// The text of the token.
    pub fn to_string(&self) -> (text: String)
        ensures
            text@ == token_text(self@),
    {
        string_of(&self.chars())
    }

    /// Whether the token is the operator `op`.
    pub fn is_operator(&self, op: char) -> (r: bool)
        ensures
            r == (self@ == TokenView::Operator(op)),
    {
        match self {
            Token::Operator(c) => *c == op,
            _ => false,
        }
    }
}

/// The kinds of characters that come in runs.
#[derive(Clone, Copy, Debug, PartialEq, Eq, Structural)]
pub enum CharClass {
    /// A blank, a tab, a carriage return or a line feed.
    Space,
    /// A decimal digit.
    Digit,
    /// A letter or an underscore.
    Name,
}

/// Whether `c` is of the class.
pub open spec fn in_class(c: char, class: CharClass) -> bool {
    match class {
        CharClass::Space => c == ' ' || c == '\t' || c == '\r' || c == '\n',
        CharClass::Digit => is_digit(c),
        CharClass::Name => alphabetic(c) || c == '_',
    }
}

/// Whether `c` is one of the operators `+ - * / ^ ( ) = :`.
pub open spec fn is_operator_char(c: char) -> bool {
    c == '+' || c == '-' || c == '*' || c == '/' || c == '^' || c == '(' || c == ')' || c == '='
        || c == ':'
}

/// Where the run of characters of the class that starts at `pos` ends.
pub open spec fn run_end(input: Seq<char>, pos: int, class: CharClass) -> int
    decreases input.len() - pos,
{
    if 0 <= pos < input.len() && in_class(input[pos], class) {
        run_end(input, pos + 1, class)
    } else {
        pos
    }
}

/// The token that starts at `pos`, and where it ends, or none if no token
/// starts there. A number is a run of digits, with a point and a second run
/// if they follow; an operator is one character; an identifier is a run of
/// letters and underscores.
pub open spec fn token_at(input: Seq<char>, pos: int) -> Option<(TokenView, int)> {
    if !(0 <= pos < input.len()) {
        None
    } else if is_digit(input[pos]) {
        let whole_end = run_end(input, pos, CharClass::Digit);
        if whole_end + 1 < input.len() && input[whole_end] == '.' && is_digit(input[whole_end + 1]) {
            let fraction_end = run_end(input, whole_end + 1, CharClass::Digit);
            Some(
                (
                    TokenView::Number(
                        number_value(
                            input.subrange(pos, whole_end),
                            input.subrange(whole_end + 1, fraction_end),
                        ),
                    ),
                    fraction_end,
                ),
            )
        } else {
            Some(
                (TokenView::Number(number_value(input.subrange(pos, whole_end), Seq::empty())), whole_end),
            )
        }
    } else if is_operator_char(input[pos]) {
        Some((TokenView::Operator(input[pos]), pos + 1))
    } else if in_class(input[pos], CharClass::Name) {
        let end = run_end(input, pos, CharClass::Name);
        Some((TokenView::Identifier(input.subrange(pos, end)), end))
    } else {
        None
    }
}

/// The tokens of the input from `pos` on, in reading order. Space between
/// tokens is skipped, and the tokens end where something follows that is no
/// token.
pub open spec fn scanned(input: Seq<char>, pos: int) -> Seq<TokenView>
    decreases input.len() - pos,
{
    let start = run_end(input, pos, CharClass::Space);
    match token_at(input, start) {
        Some((token, end)) => if pos <= start < end <= input.len() {
            seq![token] + scanned(input, end)
        } else {
            Seq::empty()
        },
        None => Seq::empty(),
    }
}

/// A run ends at or after its start and within the input.
pub proof fn lemma_run_end_bounds(input: Seq<char>, pos: int, class: CharClass)
    requires
        0 <= pos <= input.len(),
    ensures
        pos <= run_end(input, pos, class) <= input.len(),
        pos < input.len() && in_class(input[pos], class) ==> pos < run_end(input, pos, class),
    decreases input.len() - pos,
{
    if pos < input.len() && in_class(input[pos], class) {
        lemma_run_end_bounds(input, pos + 1, class);
    }
}

fn has_class(c: char, class: CharClass) -> (r: bool)
    ensures
        r == in_class(c, class),
{
    match class {
        CharClass::Space => c == ' ' || c == '\t' || c == '\r' || c == '\n',
        CharClass::Digit => '0' <= c && c <= '9',
        CharClass::Name => is_alphabetic(c) || c == '_',
    }
}

fn operator_char(c: char) -> (r: bool)
    ensures
        r == is_operator_char(c),
{
    c == '+' || c == '-' || c == '*' || c == '/' || c == '^' || c == '(' || c == ')' || c == '='
        || c == ':'
}

fn end_of_run(input: &Vec<char>, pos: usize, class: CharClass) -> (end: usize)
    requires
        pos <= input@.len(),
    ensures
        end == run_end(input@, pos as int, class),
        pos <= end <= input@.len(),
{
    let mut end: usize = pos;
    while end < input.len() && has_class(input[end], class)
        invariant
            pos <= end <= input@.len(),
            run_end(input@, end as int, class) == run_end(input@, pos as int, class),
        decreases input@.len() - end,
    {
        end = end + 1;
    }
    end
}

/// From this whole part on a number is the greatest number whatever
/// follows.
const WHOLE_CAP: u64 = 10_000_000_000_000;

/// The smaller of the value of a run of digits and the cap.
spec fn capped_value(digits: Seq<char>) -> int {
    if digits_value(digits) < WHOLE_CAP {
        digits_value(digits) as int
    } else {
        WHOLE_CAP as int
    }
}

fn digit_number(c: char) -> (d: u64)
    requires
        is_digit(c),
    ensures
        d == digit_value(c),
        d < 10,
{
    (c as u32 - 48) as u64
}

fn whole_number(input: &Vec<char>, from: usize, to: usize) -> (value: u64)
    requires
        from <= to <= input@.len(),
        forall|i: int| from <= i < to ==> is_digit(input@[i]),
    ensures
        value == capped_value(input@.subrange(from as int, to as int)),
{
    let mut value: u64 = 0;
    let mut i: usize = from;
    assert(input@.subrange(from as int, from as int) =~= Seq::<char>::empty());
    while i < to
        invariant
            from <= i <= to <= input@.len(),
            forall|k: int| from <= k < to ==> is_digit(input@[k]),
            value <= WHOLE_CAP,
            value == capped_value(input@.subrange(from as int, i as int)),
        decreases to - i,
    {
        let digit: u64 = digit_number(input[i]);
        proof {
            let before = input@.subrange(from as int, i as int);
            let after = input@.subrange(from as int, i + 1);
            assert(after.drop_last() =~= before);
            assert(after.last() == input@[i as int]);
            assert(digits_value(after) == digits_value(before) * 10 + digit);
        }
        value = value * 10 + digit;
        if value > WHOLE_CAP {
            value = WHOLE_CAP;
        }
        i = i + 1;
    }
    value
}

fn fraction_number(input: &Vec<char>, from: usize, to: usize) -> (value: u64)
    requires
        from <= to <= input@.len(),
        forall|i: int| from <= i < to ==> is_digit(input@[i]),
    ensures
        value == digits_value(six_places(input@.subrange(from as int, to as int))),
        value < 1_000_000,
{
    let ghost places = six_places(input@.subrange(from as int, to as int));
    let mut value: u64 = 0;
    let mut k: usize = 0;
    assert(places.take(0) =~= Seq::<char>::empty());
    while k < 6
        invariant
            0 <= k <= 6,
            from <= to <= input@.len(),
            forall|i: int| from <= i < to ==> is_digit(input@[i]),
            places == six_places(input@.subrange(from as int, to as int)),
            value == digits_value(places.take(k as int)),
            value < place_bound(k as nat),
        decreases 6 - k,
    {
        let digit: u64 = if k < to - from {
            digit_number(input[from + k])
        } else {
            0
        };
        proof {
            let before = places.take(k as int);
            let after = places.take(k + 1);
            assert(after.drop_last() =~= before);
            assert(after.last() == places[k as int]);
            assert(digit_value(places[k as int]) == digit);
            assert(digits_value(after) == digits_value(before) * 10 + digit);
        }
        value = value * 10 + digit;
        k = k + 1;
    }
    proof {
        assert(places.take(6) =~= places);
    }
    value
}

/// Ten to the power of `n`, for `n` up to six.
spec fn place_bound(n: nat) -> nat {
    if n == 0 {
        1
    } else if n == 1 {
        10
    } else if n == 2 {
        100
    } else if n == 3 {
        1_000
    } else if n == 4 {
        10_000
    } else if n == 5 {
        100_000
    } else {
        1_000_000
    }
}

fn fixed_number(whole_part: u64, micro: u64, Ghost(whole_digits): Ghost<Seq<char>>, Ghost(
    fraction_digits,
): Ghost<Seq<char>>) -> (n: i64)
    requires
        whole_part == capped_value(whole_digits),
        micro == digits_value(six_places(fraction_digits)),
        micro < 1_000_000,
    ensures
        n == number_value(whole_digits, fraction_digits),
{
    let wide: u128 = (whole_part as u128) * 1_000_000 + (micro as u128);
    assert(digits_value(whole_digits) >= WHOLE_CAP ==> digits_value(whole_digits) * 1_000_000
        + micro > i64::MAX) by (nonlinear_arith)
        requires
            micro >= 0,
    ;
    if wide > 0x7fff_ffff_ffff_ffff {
        i64::MAX
    } else {
        wide as i64
    }
}

/// Reads the token that starts at `pos`, and returns it with the place
/// where it ends, or none if no token starts there.
fn read_token(input: &Vec<char>, pos: usize) -> (found: Option<(Token, usize)>)
    requires
        pos <= input@.len(),
    ensures
        match (found, token_at(input@, pos as int)) {
            (Some(exec), Some(spec)) => exec.0@ == spec.0 && exec.1 == spec.1 && pos < exec.1
                <= input@.len(),
            (None, None) => true,
            _ => false,
        },
{
    if pos >= input.len() {
        return None;
    }
    let c: char = input[pos];
    if has_class(c, CharClass::Digit) {
        let whole_end: usize = end_of_run(input, pos, CharClass::Digit);
        proof {
            lemma_run_end_bounds(input@, pos as int, CharClass::Digit);
            lemma_run_holds(input@, pos as int, CharClass::Digit);
        }
        let whole_part: u64 = whole_number(input, pos, whole_end);
        if input.len() - whole_end > 1 && input[whole_end] == '.' && has_class(
            input[whole_end + 1],
            CharClass::Digit,
        ) {
            let fraction_end: usize = end_of_run(input, whole_end + 1, CharClass::Digit);
            proof {
                lemma_run_end_bounds(input@, whole_end + 1, CharClass::Digit);
                lemma_run_holds(input@, whole_end + 1, CharClass::Digit);
            }
            let micro: u64 = fraction_number(input, whole_end + 1, fraction_end);
            let n: i64 = fixed_number(
                whole_part,
                micro,
                Ghost(input@.subrange(pos as int, whole_end as int)),
                Ghost(input@.subrange(whole_end + 1, fraction_end as int)),
            );
            Some((Token::Number(n), fraction_end))
        } else {
            proof {
                assert(six_places(Seq::<char>::empty()) =~= seq!['0', '0', '0', '0', '0', '0']);
                reveal_with_fuel(digits_value, 8);
                assert(digits_value(six_places(Seq::<char>::empty())) == 0);
            }
            let n: i64 = fixed_number(
                whole_part,
                0,
                Ghost(input@.subrange(pos as int, whole_end as int)),
                Ghost(Seq::empty()),
            );
            Some((Token::Number(n), whole_end))
        }
    } else if operator_char(c) {
        Some((Token::Operator(c), pos + 1))
    } else if has_class(c, CharClass::Name) {
        let end: usize = end_of_run(input, pos, CharClass::Name);
        proof {
            lemma_run_end_bounds(input@, pos as int, CharClass::Name);
        }
        let mut name: Vec<char> = Vec::new();
        let mut i: usize = pos;
        while i < end
            invariant
                pos <= i <= end <= input@.len(),
                name@ == input@.subrange(pos as int, i as int),
            decreases end - i,
        {
            name.push(input[i]);
            assert(name@ =~= input@.subrange(pos as int, i + 1));
            i = i + 1;
        }
        Some((Token::Identifier(string_of(&name)), end))
    } else {
        None
    }
}

/// Every character of a run is of its class.
pub proof fn lemma_run_holds(input: Seq<char>, pos: int, class: CharClass)
    requires
        0 <= pos <= input.len(),
    ensures
        forall|i: int| pos <= i < run_end(input, pos, class) ==> in_class(input[i], class),
    decreases input.len() - pos,
{
    if pos < input.len() && in_class(input[pos], class) {
        lemma_run_holds(input, pos + 1, class);
    }
}

/// Cuts the input into tokens, in reading order.
pub fn tokenize(input: &Vec<char>) -> (tokens: Vec<Token>)
    ensures
        token_views(tokens@) == scanned(input@, 0),
{
    let mut tokens: Vec<Token> = Vec::new();
    let mut pos: usize = 0;
    loop
        invariant
            0 <= pos <= input@.len(),
            token_views(tokens@) + scanned(input@, pos as int) == scanned(input@, 0),
        ensures
            token_views(tokens@) == scanned(input@, 0),
        decreases input@.len() - pos,
    {
        let start: usize = end_of_run(input, pos, CharClass::Space);
        let ghost done = token_views(tokens@);
        match read_token(input, start) {
            Some((token, end)) => {
                proof {
                    assert(scanned(input@, pos as int) == seq![token@] + scanned(
                        input@,
                        end as int,
                    ));
                }
                tokens.push(token);
                proof {
                    assert(token_views(tokens@) =~= done + seq![token@]);
                    assert(token_views(tokens@) + scanned(input@, end as int) =~= done + (
                    seq![token@] + scanned(input@, end as int)));
                }
                pos = end;
            },
            None => {
                assert(scanned(input@, pos as int) =~= Seq::<TokenView>::empty());
                assert(token_views(tokens@) + Seq::<TokenView>::empty() =~= token_views(tokens@));
                break ;
            },
        }
    }
    tokens
}

/// The token on top of a stack of tokens: the last one, or the end of input
/// on an empty stack.
pub open spec fn top(stack: Seq<TokenView>) -> TokenView {
    if stack.len() == 0 {
        TokenView::Eof
    } else {
        stack.last()
    }
}

/// The stack without its top.
pub open spec fn popped(stack: Seq<TokenView>) -> Seq<TokenView> {
    if stack.len() == 0 {
        stack
    } else {
        stack.drop_last()
    }
}

/// The place of the first token from `from` on that is `token`, or the
/// number of tokens if there is none.
pub open spec fn position_of(tokens: Seq<TokenView>, token: TokenView, from: int) -> int
    decreases tokens.len() - from,
{
    if 0 <= from < tokens.len() && tokens[from] != token {
        position_of(tokens, token, from + 1)
    } else if from < 0 || from > tokens.len() {
        tokens.len() as int
    } else {
        from
    }
}

/// The first place lies within the tokens or at their end, and no earlier
/// token is the one that is looked for.
pub proof fn lemma_position_of(tokens: Seq<TokenView>, token: TokenView, from: int)
    requires
        0 <= from <= tokens.len(),
    ensures
        from <= position_of(tokens, token, from) <= tokens.len(),
        position_of(tokens, token, from) < tokens.len() ==> tokens[position_of(
            tokens,
            token,
            from,
        )] == token,
        forall|i: int| from <= i < position_of(tokens, token, from) ==> tokens[i] != token,
    decreases tokens.len() - from,
{
    if from < tokens.len() && tokens[from] != token {
        lemma_position_of(tokens, token, from + 1);
    }
}

fn reverse_tokens(tokens: Vec<Token>) -> (reversed: Vec<Token>)
    ensures
        token_views(reversed@) == token_views(tokens@).reverse(),
{
    let mut tokens: Vec<Token> = tokens;
    let ghost whole = token_views(tokens@);
    let mut reversed: Vec<Token> = Vec::new();
    while tokens.len() > 0
        invariant
            token_views(tokens@) == whole.take(tokens@.len() as int),
            tokens@.len() <= whole.len(),
            reversed@.len() == whole.len() - tokens@.len(),
            forall|i: int|
                0 <= i < reversed@.len() ==> (#[trigger] reversed@[i])@ == whole[whole.len() - 1 - i],
        decreases tokens@.len(),
    {
        let ghost before = tokens@;
        let token: Option<Token> = tokens.pop();
        match token {
            Some(t) => {
                assert(t@ == token_views(before)[before.len() - 1]);
                reversed.push(t);
            },
            None => {},
        }
        assert(token_views(tokens@) =~= whole.take(tokens@.len() as int));
    }
    assert(token_views(reversed@) =~= whole.reverse());
    reversed
}

fn copy_tokens(tokens: &Vec<Token>, from: usize, to: usize) -> (copy: Vec<Token>)
    requires
        from <= to <= tokens@.len(),
    ensures
        token_views(copy@) == token_views(tokens@).subrange(from as int, to as int),
{
    let mut copy: Vec<Token> = Vec::new();
    let mut i: usize = from;
    while i < to
        invariant
            from <= i <= to <= tokens@.len(),
            copy@.len() == i - from,
            forall|k: int| 0 <= k < copy@.len() ==> (#[trigger] copy@[k])@ == tokens@[from + k]@,
        decreases to - i,
    {
        copy.push(tokens[i].clone());
        i = i + 1;
    }
    assert(token_views(copy@) =~= token_views(tokens@).subrange(from as int, to as int));
    copy
}

fn find_operator(tokens: &Vec<Token>, op: char) -> (index: usize)
    ensures
        index == position_of(token_views(tokens@), TokenView::Operator(op), 0),
        index <= tokens@.len(),
{
    let ghost views = token_views(tokens@);
    let mut index: usize = 0;
    while index < tokens.len() && !tokens[index].is_operator(op)
        invariant
            0 <= index <= tokens@.len(),
            views == token_views(tokens@),
            position_of(views, TokenView::Operator(op), index as int) == position_of(
                views,
                TokenView::Operator(op),
                0,
            ),
        decreases tokens@.len() - index,
    {
        assert(views[index as int] == tokens@[index as int]@);
        index = index + 1;
    }
    proof {
        if index < tokens@.len() {
            assert(views[index as int] == tokens@[index as int]@);
        }
    }
    index
}

/// A stack of tokens: the next token to read is the last one.
#[derive(Debug)]
pub struct Lexer {
    pub tokens: Vec<Token>,
}

impl View for Lexer {
    type V = Seq<TokenView>;

    /// The tokens as a stack, the next one last.
    open spec fn view(&self) -> Seq<TokenView> {
        token_views(self.tokens@)
    }
}

impl Lexer {
    /// Cuts the input into tokens. The first token of the input is the
    /// first to be read.
    pub fn new(input: &str) -> (lexer: Lexer)
        ensures
            lexer@ == scanned(input@, 0).reverse(),
    {
        let chars: Vec<char> = chars_of(input);
        let tokens: Vec<Token> = tokenize(&chars);
        Lexer { tokens: reverse_tokens(tokens) }
    }

    /// Cuts a line of characters into tokens. The first token of the line
    /// is the first to be read.
    pub fn scan(line: &Vec<char>) -> (lexer: Lexer)
        ensures
            lexer@ == scanned(line@, 0).reverse(),
    {
        Lexer { tokens: reverse_tokens(tokenize(line)) }
    }

    /// A lexer over a stack of tokens.
    pub fn from_tokens(tokens: Vec<Token>) -> (lexer: Lexer)
        ensures
            lexer.tokens == tokens,
    {
        Lexer { tokens }
    }

    /// Whether the tokens hold an assignment operator.
    pub fn is_assignment(&self) -> (r: bool)
        ensures
            r == self@.contains(TokenView::Operator('=')),
    {
        let index: usize = find_operator(&self.tokens, '=');
        proof {
            lemma_position_of(self@, TokenView::Operator('='), 0);
            if index < self@.len() {
                assert(self@[index as int] == TokenView::Operator('='));
            }
        }
        index < self.tokens.len()
    }

    /// Splits the stack at its first `=`: returns a copy of the whole
    /// stack, and the stack from that `=` on.
    pub fn split_assignment(&self) -> (halves: (Lexer, Lexer))
        requires
            self@.contains(TokenView::Operator('=')),
        ensures
            halves.0@ == self@,
            halves.1@ == self@.subrange(
                position_of(self@, TokenView::Operator('='), 0),
                self@.len() as int,
            ),
    {
        let index: usize = find_operator(&self.tokens, '=');
        let all: Vec<Token> = copy_tokens(&self.tokens, 0, self.tokens.len());
        let rhs: Vec<Token> = copy_tokens(&self.tokens, index, self.tokens.len());
        assert(self@.subrange(0, self@.len() as int) =~= self@);
        (Lexer::from_tokens(all), Lexer::from_tokens(rhs))
    }

    /// Takes the tokens from the first `:` in reading order to the end of
    /// the input off the lexer, and returns them in reading order. Without
    /// a `:` nothing is taken.
    pub fn take_metadata(&mut self) -> (metadata: Vec<Token>)
        ensures
            token_views(metadata@) == old(self)@.reverse().subrange(
                position_of(old(self)@.reverse(), TokenView::Operator(':'), 0),
                old(self)@.len() as int,
            ),
            final(self)@ == old(self)@.reverse().subrange(
                0,
                position_of(old(self)@.reverse(), TokenView::Operator(':'), 0),
            ).reverse(),
    {
        let mut stack: Vec<Token> = Vec::new();
        std::mem::swap(&mut stack, &mut self.tokens);
        let reading: Vec<Token> = reverse_tokens(stack);
        let index: usize = find_operator(&reading, ':');
        let metadata: Vec<Token> = copy_tokens(&reading, index, reading.len());
        let kept: Vec<Token> = copy_tokens(&reading, 0, index);
        self.tokens = reverse_tokens(kept);
        metadata
    }

    /// Takes the next token off the lexer; at the end of the input the
    /// token is `Eof`.
    pub fn next(&mut self) -> (token: Token)
        ensures
            token@ == top(old(self)@),
            final(self)@ == popped(old(self)@),
    {
        let ghost before = self.tokens@;
        match self.tokens.pop() {
            Some(token) => {
                assert(token@ == token_views(before).last());
                assert(token_views(self.tokens@) =~= token_views(before).drop_last());
                token
            },
            None => Token::Eof,
        }
    }

    /// The next token, which stays on the lexer; at the end of the input
    /// the token is `Eof`.
    pub fn peek(&self) -> (token: Token)
        ensures
            token@ == top(self@),
    {
        let n: usize = self.tokens.len();
        if n == 0 {
            Token::Eof
        } else {
            self.tokens[n - 1].clone()
        }
    }
}

} // verus!
