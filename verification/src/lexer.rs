use vstd::prelude::*;
use vstd::string::StringSliceAdditionalSpecFns;

verus! {

/// The class of a lexical unit.
#[derive(Debug, PartialEq, Eq, Clone, Copy, Structural)]
pub enum TokenKind {
    True,
    False,
    Fn,
    Return,
    Let,
    If,
    Else,
    While,
    Break,
    Continue,
    Alpha,
    Digit,
    LeftParen,
    RightParen,
    LeftCurly,
    RightCurly,
    LeftBracket,
    RightBracket,
    Equal,
    EqualEqual,
    NotEqual,
    GreaterThan,
    LessThan,
    GreaterThanOrEqual,
    LessThanOrEqual,
    LogicalAnd,
    LogicalOr,
    Not,
    Plus,
    Dash,
    Multiply,
    Exponent,
    Modulus,
    Quote,
    StringLiteral,
    WhiteSpace,
    Semicolon,
    Comma,
    Dot,
    Slash,
    Other,
    EOF,
}

/// A classified lexical unit with the place in the source where it stands.
///
/// Lines and columns count from 1. `start_*` is the place of the first byte
/// of the unit and `end_*` the place of its last byte.
#[derive(Debug, PartialEq)]
pub struct Token {
    pub kind: TokenKind,
    pub lexeme: Vec<u8>,
    pub start_line: u32,
    pub end_line: u32,
    pub start_col: u32,
    pub end_col: u32,
}

/// The mathematical value of a [`Token`].
pub struct TokenView {
    pub kind: TokenKind,
    pub lexeme: Seq<u8>,
    pub start_line: u32,
    pub end_line: u32,
    pub start_col: u32,
    pub end_col: u32,
}

impl View for Token {
    type V = TokenView;

    open spec fn view(&self) -> TokenView {
        TokenView {
            kind: self.kind,
            lexeme: self.lexeme@,
            start_line: self.start_line,
            end_line: self.end_line,
            start_col: self.start_col,
            end_col: self.end_col,
        }
    }
}

/// Copies a byte vector.
pub fn copy_bytes(v: &Vec<u8>) -> (r: Vec<u8>)
    ensures
        r@ == v@,
{
    let mut out: Vec<u8> = Vec::new();
    let mut i: usize = 0;
    while i < v.len()
        invariant
            i <= v.len(),
            out@ == v@.take(i as int),
        decreases v.len() - i,
    {
        out.push(v[i]);
        i += 1;
    }
    out
}

impl Clone for Token {
    fn clone(&self) -> (r: Self)
        ensures
            r@ == self@,
    {
        Token {
            kind: self.kind,
            lexeme: copy_bytes(&self.lexeme),
            start_line: self.start_line,
            end_line: self.end_line,
            start_col: self.start_col,
            end_col: self.end_col,
        }
    }
}

impl Token {
    /// A token of kind `Other` with an empty lexeme, placed nowhere.
    pub fn new() -> (r: Token)
        ensures
            r@ == (TokenView {
                kind: TokenKind::Other,
                lexeme: Seq::<u8>::empty(),
                start_line: 0,
                end_line: 0,
                start_col: 0,
                end_col: 0,
            }),
    {
        Token {
            kind: TokenKind::Other,
            lexeme: Vec::new(),
            start_line: 0,
            end_line: 0,
            start_col: 0,
            end_col: 0,
        }
    }

    pub fn get_kind(&self) -> (r: TokenKind)
        ensures
            r == self@.kind,
    {
        self.kind
    }

    pub fn set_kind(&mut self, new_kind: TokenKind)
        ensures
            final(self)@ == (TokenView { kind: new_kind, ..old(self)@ }),
    {
        self.kind = new_kind;
    }
}

/// A sequence of tokens, read from the front.
#[derive(Debug, PartialEq)]
pub struct Tokens {
    pub tokens: Vec<Token>,
}

/// The values of a sequence of tokens, one by one.
pub open spec fn token_views(tokens: Seq<Token>) -> Seq<TokenView> {
    Seq::new(tokens.len(), |i: int| tokens[i]@)
}

impl View for Tokens {
    type V = Seq<TokenView>;

    open spec fn view(&self) -> Seq<TokenView> {
        token_views(self.tokens@)
    }
}

impl Clone for Tokens {
    fn clone(&self) -> (r: Self)
        ensures
            r@ == self@,
    {
        self.take(self.tokens.len())
    }
}

impl Tokens {
    pub fn new() -> (r: Tokens)
        ensures
            r@ == Seq::<TokenView>::empty(),
    {
        let r = Tokens { tokens: Vec::new() };
        assert(r@ =~= Seq::<TokenView>::empty());
        r
    }

    pub fn from(tokens: Vec<Token>) -> (r: Tokens)
        ensures
            r.tokens == tokens,
            r@ == token_views(tokens@),
    {
        Tokens { tokens }
    }

    pub fn push(&mut self, token: Token)
        ensures
            final(self)@ == old(self)@.push(token@),
    {
        self.tokens.push(token);
        assert(self@ =~= old(self)@.push(token@));
    }

    pub fn len(&self) -> (r: usize)
        ensures
            r == self@.len(),
    {
        self.tokens.len()
    }

    /// The number of tokens still to be read.
    pub fn input_len(&self) -> (r: usize)
        ensures
            r == self@.len(),
    {
        self.tokens.len()
    }

    /// Whether nothing is left to parse: the stream is empty or its first
    /// token is the end marker.
    pub fn is_done(&self) -> (r: bool)
        ensures
            r == (self@.len() == 0 || self@[0].kind == TokenKind::EOF),
    {
        if self.tokens.len() > 0 {
            match self.tokens[0].kind {
                TokenKind::EOF => true,
                _ => false,
            }
        } else {
            true
        }
    }

    pub fn is_empty(&self) -> (r: bool)
        ensures
            r == (self@.len() == 0),
    {
        self.tokens.len() == 0
    }

    /// The tokens from index `from` up to, not including, index `to`.
    pub fn slice(&self, from: usize, to: usize) -> (r: Tokens)
        requires
            from <= to <= self@.len(),
        ensures
            r@ == self@.subrange(from as int, to as int),
    {
        let mut out: Vec<Token> = Vec::new();
        let mut i: usize = from;
        while i < to
            invariant
                from <= i <= to <= self.tokens@.len(),
                out@.len() == i - from,
                forall|j: int| 0 <= j < out@.len() ==> (#[trigger] out@[j])@ == self.tokens@[from + j]@,
            decreases to - i,
        {
            out.push(self.tokens[i].clone());
            i += 1;
        }
        let r = Tokens { tokens: out };
        assert(r@ =~= self@.subrange(from as int, to as int));
        r
    }

    /// The first `count` tokens, or all of them where there are fewer.
    pub fn take(&self, count: usize) -> (r: Tokens)
        ensures
            r@ == self@.take(if count <= self@.len() { count as int } else { self@.len() as int }),
    {
        let n = if count <= self.tokens.len() { count } else { self.tokens.len() };
        self.slice(0, n)
    }

    /// The first `count` tokens and the rest, in this order.
    pub fn take_split(&self, count: usize) -> (r: (Tokens, Tokens))
        requires
            count <= self@.len(),
        ensures
            r.0@ == self@.take(count as int),
            r.1@ == self@.skip(count as int),
    {
        (self.slice(0, count), self.slice(count, self.tokens.len()))
    }
}

/// Whether byte `b` stands at index `i + k` of `bytes`.
pub open spec fn byte_at(bytes: Seq<u8>, i: int, k: int, b: u8) -> bool {
    0 <= i + k < bytes.len() && bytes[i + k] == b
}

/// The keyword spelled out from index `i` on, with its length in bytes.
///
/// A keyword is recognised wherever its spelling stands, also inside a
/// longer run of letters.
pub open spec fn keyword_at(bytes: Seq<u8>, i: int) -> Option<(TokenKind, int)> {
    if byte_at(bytes, i, 0, 105) && byte_at(bytes, i, 1, 102) {
        Some((TokenKind::If, 2))
    } else if byte_at(bytes, i, 0, 101) && byte_at(bytes, i, 1, 108) && byte_at(bytes, i, 2, 115)
        && byte_at(bytes, i, 3, 101) {
        Some((TokenKind::Else, 4))
    } else if byte_at(bytes, i, 0, 119) && byte_at(bytes, i, 1, 104) && byte_at(bytes, i, 2, 105)
        && byte_at(bytes, i, 3, 108) && byte_at(bytes, i, 4, 101) {
        Some((TokenKind::While, 5))
    } else if byte_at(bytes, i, 0, 102) && byte_at(bytes, i, 1, 110) {
        Some((TokenKind::Fn, 2))
    } else if byte_at(bytes, i, 0, 116) && byte_at(bytes, i, 1, 114) && byte_at(bytes, i, 2, 117)
        && byte_at(bytes, i, 3, 101) {
        Some((TokenKind::True, 4))
    } else if byte_at(bytes, i, 0, 102) && byte_at(bytes, i, 1, 97) && byte_at(bytes, i, 2, 108)
        && byte_at(bytes, i, 3, 115) && byte_at(bytes, i, 4, 101) {
        Some((TokenKind::False, 5))
    } else if byte_at(bytes, i, 0, 98) && byte_at(bytes, i, 1, 114) && byte_at(bytes, i, 2, 101)
        && byte_at(bytes, i, 3, 97) && byte_at(bytes, i, 4, 107) {
        Some((TokenKind::Break, 5))
    } else if byte_at(bytes, i, 0, 99) && byte_at(bytes, i, 1, 111) && byte_at(bytes, i, 2, 110)
        && byte_at(bytes, i, 3, 116) && byte_at(bytes, i, 4, 105) && byte_at(bytes, i, 5, 110)
        && byte_at(bytes, i, 6, 117) && byte_at(bytes, i, 7, 101) {
        Some((TokenKind::Continue, 8))
    } else if byte_at(bytes, i, 0, 108) && byte_at(bytes, i, 1, 101) && byte_at(bytes, i, 2, 116) {
        Some((TokenKind::Let, 3))
    } else if byte_at(bytes, i, 0, 114) && byte_at(bytes, i, 1, 101) && byte_at(bytes, i, 2, 116)
        && byte_at(bytes, i, 3, 117) && byte_at(bytes, i, 4, 114) && byte_at(bytes, i, 5, 110) {
        Some((TokenKind::Return, 6))
    } else {
        None
    }
}

/// The kind of a token that is one byte long and is decided by that byte alone.
pub open spec fn single_kind(c: u8) -> TokenKind {
    if 48 <= c <= 57 {
        TokenKind::Digit
    } else if 65 <= c <= 90 || 97 <= c <= 122 {
        TokenKind::Alpha
    } else if c == 32 || c == 10 || c == 9 {
        TokenKind::WhiteSpace
    } else if c == 61 {
        TokenKind::Equal
    } else if c == 62 {
        TokenKind::GreaterThan
    } else if c == 60 {
        TokenKind::LessThan
    } else if c == 33 {
        TokenKind::Not
    } else if c == 59 {
        TokenKind::Semicolon
    } else if c == 123 {
        TokenKind::LeftCurly
    } else if c == 125 {
        TokenKind::RightCurly
    } else if c == 40 {
        TokenKind::LeftParen
    } else if c == 41 {
        TokenKind::RightParen
    } else if c == 91 {
        TokenKind::LeftBracket
    } else if c == 93 {
        TokenKind::RightBracket
    } else if c == 43 {
        TokenKind::Plus
    } else if c == 45 {
        TokenKind::Dash
    } else if c == 42 {
        TokenKind::Multiply
    } else if c == 47 {
        TokenKind::Slash
    } else if c == 94 {
        TokenKind::Exponent
    } else if c == 37 {
        TokenKind::Modulus
    } else if c == 44 {
        TokenKind::Comma
    } else if c == 46 {
        TokenKind::Dot
    } else if c == 34 {
        TokenKind::Quote
    } else {
        TokenKind::Other
    }
}

/// The operator of two bytes that starts at index `i`, if one does.
pub open spec fn compound_at(bytes: Seq<u8>, i: int) -> Option<TokenKind> {
    if byte_at(bytes, i, 0, 61) && byte_at(bytes, i, 1, 61) {
        Some(TokenKind::EqualEqual)
    } else if byte_at(bytes, i, 0, 62) && byte_at(bytes, i, 1, 61) {
        Some(TokenKind::GreaterThanOrEqual)
    } else if byte_at(bytes, i, 0, 60) && byte_at(bytes, i, 1, 61) {
        Some(TokenKind::LessThanOrEqual)
    } else if byte_at(bytes, i, 0, 38) && byte_at(bytes, i, 1, 38) {
        Some(TokenKind::LogicalAnd)
    } else if byte_at(bytes, i, 0, 124) && byte_at(bytes, i, 1, 124) {
        Some(TokenKind::LogicalOr)
    } else if byte_at(bytes, i, 0, 33) && byte_at(bytes, i, 1, 61) {
        Some(TokenKind::NotEqual)
    } else {
        None
    }
}

/// The index of the first quote byte at or after index `j`, or the length of
/// `bytes` where there is none.
pub open spec fn next_quote(bytes: Seq<u8>, j: int) -> int
    decreases bytes.len() - j,
{
    if j < 0 || j >= bytes.len() {
        bytes.len() as int
    } else if bytes[j] == 34 {
        j
    } else {
        next_quote(bytes, j + 1)
    }
}

/// The kind and the length in bytes of the token that starts at index `i`.
///
/// A quote that is closed later starts a string literal, which runs up to
/// and including the closing quote.
pub open spec fn scan(bytes: Seq<u8>, i: int) -> (TokenKind, int) {
    if keyword_at(bytes, i) is Some {
        keyword_at(bytes, i).unwrap()
    } else if compound_at(bytes, i) is Some {
        (compound_at(bytes, i).unwrap(), 2)
    } else if bytes[i] == 34 && next_quote(bytes, i + 1) < bytes.len() {
        (TokenKind::StringLiteral, next_quote(bytes, i + 1) - i + 1)
    } else {
        (single_kind(bytes[i]), 1)
    }
}

/// One more, but never past the largest value.
pub open spec fn bump(n: u32) -> u32 {
    if n < u32::MAX {
        (n + 1) as u32
    } else {
        n
    }
}

/// The line and column of the byte at index `i`: a newline byte ends its
/// line, and every other byte takes one column.
pub open spec fn place(bytes: Seq<u8>, i: int) -> (u32, u32)
    decreases i,
{
    if i <= 0 || i > bytes.len() {
        (1, 1)
    } else {
        let before = place(bytes, i - 1);
        if bytes[i - 1] == 10 {
            (bump(before.0), 1)
        } else {
            (before.0, bump(before.1))
        }
    }
}

/// The token that starts at index `i`, for `0 <= i < bytes.len()`.
///
/// The lexeme of a string literal is what stands between its quotes; that
/// of any other token is its first byte.
pub open spec fn token_at(bytes: Seq<u8>, i: int) -> TokenView {
    let (kind, n) = scan(bytes, i);
    TokenView {
        kind,
        lexeme: if kind == TokenKind::StringLiteral {
            bytes.subrange(i + 1, i + n - 1)
        } else {
            seq![bytes[i]]
        },
        start_line: place(bytes, i).0,
        end_line: place(bytes, i + n - 1).0,
        start_col: place(bytes, i).1,
        end_col: place(bytes, i + n - 1).1,
    }
}

/// The end marker, placed just behind the last byte.
pub open spec fn end_token(bytes: Seq<u8>) -> TokenView {
    let p = place(bytes, bytes.len() as int);
    TokenView {
        kind: TokenKind::EOF,
        lexeme: Seq::<u8>::empty(),
        start_line: p.0,
        end_line: p.0,
        start_col: p.1,
        end_col: p.1,
    }
}

/// The tokens of `bytes` from index `i` on, whitespace left out, closed by
/// the end marker.
pub open spec fn tokens_from(bytes: Seq<u8>, i: int) -> Seq<TokenView>
    decreases bytes.len() - i,
{
    if i < 0 || i >= bytes.len() {
        seq![end_token(bytes)]
    } else {
        let n = scan(bytes, i).1;
        if n <= 0 {
            seq![end_token(bytes)]
        } else if scan(bytes, i).0 == TokenKind::WhiteSpace {
            tokens_from(bytes, i + n)
        } else {
            seq![token_at(bytes, i)] + tokens_from(bytes, i + n)
        }
    }
}

/// The token stream of a source text.
pub open spec fn lex_spec(bytes: Seq<u8>) -> Seq<TokenView> {
    tokens_from(bytes, 0)
}

/// The number of tokens other than whitespace that the scan of `bytes`
/// finds from index `i` on.
pub open spec fn token_count(bytes: Seq<u8>, i: int) -> nat
    decreases bytes.len() - i,
{
    if i < 0 || i >= bytes.len() {
        0
    } else {
        let n = scan(bytes, i).1;
        if n <= 0 {
            0
        } else if scan(bytes, i).0 == TokenKind::WhiteSpace {
            token_count(bytes, i + n)
        } else {
            1 + token_count(bytes, i + n)
        }
    }
}

proof fn lemma_next_quote_bounds(bytes: Seq<u8>, j: int)
    requires
        0 <= j,
    ensures
        j <= next_quote(bytes, j) || next_quote(bytes, j) == bytes.len(),
        next_quote(bytes, j) <= bytes.len() || next_quote(bytes, j) == j,
    decreases bytes.len() - j,
{
    if j < bytes.len() && bytes[j] != 34 {
        lemma_next_quote_bounds(bytes, j + 1);
    }
}

proof fn lemma_tokens_shape(bytes: Seq<u8>, i: int)
    requires
        0 <= i,
    ensures
        tokens_from(bytes, i).len() == token_count(bytes, i) + 1,
        tokens_from(bytes, i).last().kind == TokenKind::EOF,
        forall|k: int|
            0 <= k < tokens_from(bytes, i).len() - 1 ==> {
                &&& (#[trigger] tokens_from(bytes, i)[k]).kind != TokenKind::EOF
                &&& tokens_from(bytes, i)[k].kind != TokenKind::WhiteSpace
            },
        i <= bytes.len() ==> tokens_from(bytes, i).len() <= bytes.len() - i + 1,
    decreases bytes.len() - i,
{
    if i < bytes.len() {
        let n = scan(bytes, i).1;
        lemma_next_quote_bounds(bytes, i + 1);
        assert(n >= 1);
        lemma_tokens_shape(bytes, i + n);
        let rest = tokens_from(bytes, i + n);
        if scan(bytes, i).0 != TokenKind::WhiteSpace {
            let all = seq![token_at(bytes, i)] + rest;
            assert(tokens_from(bytes, i) == all);
            assert(all.last() == rest.last());
            assert forall|k: int| 0 <= k < all.len() - 1 implies {
                &&& (#[trigger] all[k]).kind != TokenKind::EOF
                &&& all[k].kind != TokenKind::WhiteSpace
            } by {
                if k > 0 {
                    assert(all[k] == rest[k - 1]);
                }
            }
        }
    }
}

/// What lexing always yields: one token for each unit of the source that
/// is not whitespace, then the end marker. No whitespace token is left,
/// the end marker stands last and nowhere else, and there are never more
/// tokens than bytes, the end marker not counted.
pub proof fn lemma_lex_shape(bytes: Seq<u8>)
    ensures
        lex_spec(bytes).len() == token_count(bytes, 0) + 1,
        lex_spec(bytes).last().kind == TokenKind::EOF,
        forall|k: int|
            0 <= k < lex_spec(bytes).len() - 1 ==> {
                &&& (#[trigger] lex_spec(bytes)[k]).kind != TokenKind::EOF
                &&& lex_spec(bytes)[k].kind != TokenKind::WhiteSpace
            },
        lex_spec(bytes).len() <= bytes.len() + 1,
{
    lemma_tokens_shape(bytes, 0);
}

/// Whether every token of `bytes` is one byte long: no keyword, no
/// operator of two bytes and no string literal starts anywhere.
pub open spec fn single_bytes(bytes: Seq<u8>) -> bool {
    forall|i: int| 0 <= i < bytes.len() ==> (#[trigger] scan(bytes, i)).1 == 1
}

/// The number of bytes from index `i` on that are not whitespace.
pub open spec fn solid_bytes(bytes: Seq<u8>, i: int) -> nat
    decreases bytes.len() - i,
{
    if i < 0 || i >= bytes.len() {
        0
    } else if bytes[i] == 32 || bytes[i] == 10 || bytes[i] == 9 {
        solid_bytes(bytes, i + 1)
    } else {
        1 + solid_bytes(bytes, i + 1)
    }
}

proof fn lemma_count_single_bytes(bytes: Seq<u8>, i: int)
    requires
        0 <= i,
        single_bytes(bytes),
    ensures
        token_count(bytes, i) == solid_bytes(bytes, i),
    decreases bytes.len() - i,
{
    if i < bytes.len() {
        assert(scan(bytes, i).1 == 1);
        lemma_count_single_bytes(bytes, i + 1);
    }
}

/// Where every token is one byte long, lexing yields as many tokens as
/// the source has bytes that are not whitespace, and one end marker.
pub proof fn lemma_lex_counts_bytes(bytes: Seq<u8>)
    requires
        single_bytes(bytes),
    ensures
        lex_spec(bytes).len() == solid_bytes(bytes, 0) + 1,
{
    lemma_tokens_shape(bytes, 0);
    lemma_count_single_bytes(bytes, 0);
}

fn peek(bytes: &[u8], i: usize, k: usize, b: u8) -> (r: bool)
    requires
        i < bytes@.len(),
    ensures
        r == byte_at(bytes@, i as int, k as int, b),
{
    k < bytes.len() - i && bytes[i + k] == b
}

fn find_keyword(bytes: &[u8], i: usize) -> (r: Option<(TokenKind, usize)>)
    requires
        i < bytes@.len(),
    ensures
        match r {
            Some((kind, n)) => keyword_at(bytes@, i as int) == Some((kind, n as int)),
            None => keyword_at(bytes@, i as int) is None,
        },
{
    if peek(bytes, i, 0, 105) && peek(bytes, i, 1, 102) {
        Some((TokenKind::If, 2))
    } else if peek(bytes, i, 0, 101) && peek(bytes, i, 1, 108) && peek(bytes, i, 2, 115) && peek(
        bytes,
        i,
        3,
        101,
    ) {
        Some((TokenKind::Else, 4))
    } else if peek(bytes, i, 0, 119) && peek(bytes, i, 1, 104) && peek(bytes, i, 2, 105) && peek(
        bytes,
        i,
        3,
        108,
    ) && peek(bytes, i, 4, 101) {
        Some((TokenKind::While, 5))
    } else if peek(bytes, i, 0, 102) && peek(bytes, i, 1, 110) {
        Some((TokenKind::Fn, 2))
    } else if peek(bytes, i, 0, 116) && peek(bytes, i, 1, 114) && peek(bytes, i, 2, 117) && peek(
        bytes,
        i,
        3,
        101,
    ) {
        Some((TokenKind::True, 4))
    } else if peek(bytes, i, 0, 102) && peek(bytes, i, 1, 97) && peek(bytes, i, 2, 108) && peek(
        bytes,
        i,
        3,
        115,
    ) && peek(bytes, i, 4, 101) {
        Some((TokenKind::False, 5))
    } else if peek(bytes, i, 0, 98) && peek(bytes, i, 1, 114) && peek(bytes, i, 2, 101) && peek(
        bytes,
        i,
        3,
        97,
    ) && peek(bytes, i, 4, 107) {
        Some((TokenKind::Break, 5))
    } else if peek(bytes, i, 0, 99) && peek(bytes, i, 1, 111) && peek(bytes, i, 2, 110) && peek(
        bytes,
        i,
        3,
        116,
    ) && peek(bytes, i, 4, 105) && peek(bytes, i, 5, 110) && peek(bytes, i, 6, 117) && peek(
        bytes,
        i,
        7,
        101,
    ) {
        Some((TokenKind::Continue, 8))
    } else if peek(bytes, i, 0, 108) && peek(bytes, i, 1, 101) && peek(bytes, i, 2, 116) {
        Some((TokenKind::Let, 3))
    } else if peek(bytes, i, 0, 114) && peek(bytes, i, 1, 101) && peek(bytes, i, 2, 116) && peek(
        bytes,
        i,
        3,
        117,
    ) && peek(bytes, i, 4, 114) && peek(bytes, i, 5, 110) {
        Some((TokenKind::Return, 6))
    } else {
        None
    }
}

fn find_compound(bytes: &[u8], i: usize) -> (r: Option<TokenKind>)
    requires
        i < bytes@.len(),
    ensures
        r == compound_at(bytes@, i as int),
{
    if peek(bytes, i, 0, 61) && peek(bytes, i, 1, 61) {
        Some(TokenKind::EqualEqual)
    } else if peek(bytes, i, 0, 62) && peek(bytes, i, 1, 61) {
        Some(TokenKind::GreaterThanOrEqual)
    } else if peek(bytes, i, 0, 60) && peek(bytes, i, 1, 61) {
        Some(TokenKind::LessThanOrEqual)
    } else if peek(bytes, i, 0, 38) && peek(bytes, i, 1, 38) {
        Some(TokenKind::LogicalAnd)
    } else if peek(bytes, i, 0, 124) && peek(bytes, i, 1, 124) {
        Some(TokenKind::LogicalOr)
    } else if peek(bytes, i, 0, 33) && peek(bytes, i, 1, 61) {
        Some(TokenKind::NotEqual)
    } else {
        None
    }
}

fn classify(c: u8) -> (r: TokenKind)
    ensures
        r == single_kind(c),
{
    if 48 <= c && c <= 57 {
        TokenKind::Digit
    } else if (65 <= c && c <= 90) || (97 <= c && c <= 122) {
        TokenKind::Alpha
    } else if c == 32 || c == 10 || c == 9 {
        TokenKind::WhiteSpace
    } else if c == 61 {
        TokenKind::Equal
    } else if c == 62 {
        TokenKind::GreaterThan
    } else if c == 60 {
        TokenKind::LessThan
    } else if c == 33 {
        TokenKind::Not
    } else if c == 59 {
        TokenKind::Semicolon
    } else if c == 123 {
        TokenKind::LeftCurly
    } else if c == 125 {
        TokenKind::RightCurly
    } else if c == 40 {
        TokenKind::LeftParen
    } else if c == 41 {
        TokenKind::RightParen
    } else if c == 91 {
        TokenKind::LeftBracket
    } else if c == 93 {
        TokenKind::RightBracket
    } else if c == 43 {
        TokenKind::Plus
    } else if c == 45 {
        TokenKind::Dash
    } else if c == 42 {
        TokenKind::Multiply
    } else if c == 47 {
        TokenKind::Slash
    } else if c == 94 {
        TokenKind::Exponent
    } else if c == 37 {
        TokenKind::Modulus
    } else if c == 44 {
        TokenKind::Comma
    } else if c == 46 {
        TokenKind::Dot
    } else if c == 34 {
        TokenKind::Quote
    } else {
        TokenKind::Other
    }
}

fn find_quote(bytes: &[u8], from: usize) -> (r: usize)
    requires
        from <= bytes@.len(),
    ensures
        r == next_quote(bytes@, from as int),
        from <= r <= bytes@.len(),
{
    let mut j: usize = from;
    while j < bytes.len() && bytes[j] != 34
        invariant
            from <= j <= bytes@.len(),
            next_quote(bytes@, from as int) == next_quote(bytes@, j as int),
        decreases bytes@.len() - j,
    {
        j += 1;
    }
    j
}

fn scan_token(bytes: &[u8], i: usize) -> (r: (TokenKind, usize))
    requires
        i < bytes@.len(),
    ensures
        scan(bytes@, i as int) == (r.0, r.1 as int),
        1 <= r.1 <= bytes@.len() - i,
        r.0 == TokenKind::StringLiteral ==> r.1 >= 2,
{
    match find_keyword(bytes, i) {
        Some(found) => found,
        None => match find_compound(bytes, i) {
            Some(kind) => (kind, 2),
            None => {
                let c = bytes[i];
                if c == 34 {
                    let j = find_quote(bytes, i + 1);
                    if j < bytes.len() {
                        (TokenKind::StringLiteral, j - i + 1)
                    } else {
                        (classify(c), 1)
                    }
                } else {
                    (classify(c), 1)
                }
            },
        },
    }
}

fn bump_u32(n: u32) -> (r: u32)
    ensures
        r == bump(n),
{
    if n < u32::MAX {
        n + 1
    } else {
        n
    }
}

fn copy_range(bytes: &[u8], from: usize, to: usize) -> (r: Vec<u8>)
    requires
        from <= to <= bytes@.len(),
    ensures
        r@ == bytes@.subrange(from as int, to as int),
{
    let mut out: Vec<u8> = Vec::new();
    let mut k: usize = from;
    while k < to
        invariant
            from <= k <= to <= bytes@.len(),
            out@ == bytes@.subrange(from as int, k as int),
        decreases to - k,
    {
        out.push(bytes[k]);
        k += 1;
    }
    out
}

/// Splits a source text, given as bytes, into tokens.
pub fn lex_bytes(bytes: &[u8]) -> (r: Tokens)
    ensures
        r@ == lex_spec(bytes@),
{
    let mut out: Vec<Token> = Vec::new();
    let mut i: usize = 0;
    let mut line: u32 = 1;
    let mut col: u32 = 1;
    while i < bytes.len()
        invariant
            i <= bytes@.len(),
            (line, col) == place(bytes@, i as int),
            token_views(out@) + tokens_from(bytes@, i as int) == lex_spec(bytes@),
        decreases bytes@.len() - i,
    {
        let (kind, n) = scan_token(bytes, i);
        let start_line = line;
        let start_col = col;
        let mut end_line = line;
        let mut end_col = col;
        let mut k: usize = 0;
        while k < n
            invariant
                k <= n,
                i + n <= bytes.len(),
                (line, col) == place(bytes@, i + k),
                k == 0 ==> (end_line, end_col) == place(bytes@, i as int),
                k > 0 ==> (end_line, end_col) == place(bytes@, i + k - 1),
            decreases n - k,
        {
            end_line = line;
            end_col = col;
            if bytes[i + k] == 10 {
                line = bump_u32(line);
                col = 1;
            } else {
                col = bump_u32(col);
            }
            k += 1;
        }
        if kind != TokenKind::WhiteSpace {
            let lexeme = if kind == TokenKind::StringLiteral {
                copy_range(bytes, i + 1, i + n - 1)
            } else {
                let mut one: Vec<u8> = Vec::new();
                one.push(bytes[i]);
                one
            };
            let token = Token { kind, lexeme, start_line, end_line, start_col, end_col };
            proof {
                assert(token@.lexeme =~= token_at(bytes@, i as int).lexeme);
                assert(token@ == token_at(bytes@, i as int));
                assert(token_views(out@.push(token)) =~= token_views(out@) + seq![token@]);
                assert(token_views(out@) + (seq![token@] + tokens_from(bytes@, i + n))
                    =~= (token_views(out@) + seq![token@]) + tokens_from(bytes@, i + n));
            }
            out.push(token);
        }
        i += n;
    }
    let p_line = line;
    let token = Token {
        kind: TokenKind::EOF,
        lexeme: Vec::new(),
        start_line: line,
        end_line: p_line,
        start_col: col,
        end_col: col,
    };
    proof {
        assert(token@.lexeme =~= end_token(bytes@).lexeme);
        assert(token_views(out@.push(token)) =~= token_views(out@) + seq![token@]);
    }
    out.push(token);
    Tokens { tokens: out }
}

/// Splits a source text into tokens.
pub fn lex(input: &str) -> (r: Tokens)
    ensures
        r@ == lex_spec(input.spec_bytes()),
{
    lex_bytes(input.as_bytes())
}

} // verus!
