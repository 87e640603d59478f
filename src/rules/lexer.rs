use vstd::prelude::*;
use crate::rules::error::{syntax_view, RuleError, SyntaxErrorKind, SyntaxErrorSpec};
use crate::text::utf8;

verus! {

/// The kinds of token of the rule language.
#[derive(Clone, Debug, PartialEq)]
pub enum RuleTokenKind {
    Ident(String),
    LBrace,
    RBrace,
    LParen,
    RParen,
    Comma,
    Semicolon,
    Dot,
    Eq,
    NotEq,
    And,
    Or,
    LitStr(String),
    LitInt(String),
    Matches,
    Redirect,
    Return,
    If,
    Eof,
}

/// A token kind as data.
pub ghost enum TokenKindSpec {
    Ident(Seq<char>),
    LBrace,
    RBrace,
    LParen,
    RParen,
    Comma,
    Semicolon,
    Dot,
    Eq,
    NotEq,
    And,
    Or,
    LitStr(Seq<char>),
    LitInt(Seq<char>),
    Matches,
    Redirect,
    Return,
    If,
    Eof,
}

impl View for RuleTokenKind {
    type V = TokenKindSpec;

    open spec fn view(&self) -> TokenKindSpec {
        match self {
            RuleTokenKind::Ident(s) => TokenKindSpec::Ident(s@),
            RuleTokenKind::LBrace => TokenKindSpec::LBrace,
            RuleTokenKind::RBrace => TokenKindSpec::RBrace,
            RuleTokenKind::LParen => TokenKindSpec::LParen,
            RuleTokenKind::RParen => TokenKindSpec::RParen,
            RuleTokenKind::Comma => TokenKindSpec::Comma,
            RuleTokenKind::Semicolon => TokenKindSpec::Semicolon,
            RuleTokenKind::Dot => TokenKindSpec::Dot,
            RuleTokenKind::Eq => TokenKindSpec::Eq,
            RuleTokenKind::NotEq => TokenKindSpec::NotEq,
            RuleTokenKind::And => TokenKindSpec::And,
            RuleTokenKind::Or => TokenKindSpec::Or,
            RuleTokenKind::LitStr(s) => TokenKindSpec::LitStr(s@),
            RuleTokenKind::LitInt(s) => TokenKindSpec::LitInt(s@),
            RuleTokenKind::Matches => TokenKindSpec::Matches,
            RuleTokenKind::Redirect => TokenKindSpec::Redirect,
            RuleTokenKind::Return => TokenKindSpec::Return,
            RuleTokenKind::If => TokenKindSpec::If,
            RuleTokenKind::Eof => TokenKindSpec::Eof,
        }
    }
}

/// A length clamped to what a `u16` holds.
pub open spec fn sat_len(n: int) -> u16 {
    if n > 65535 {
        65535
    } else if n < 0 {
        0
    } else {
        n as u16
    }
}

/// How many bytes of source a token of this kind spans.
pub open spec fn kind_len(k: TokenKindSpec) -> u16 {
    match k {
        TokenKindSpec::Ident(v) => sat_len((utf8(v).len() as usize) as int),
        TokenKindSpec::LitStr(v) => sat_len((utf8(v).len() as usize) as int + 2),
        TokenKindSpec::LitInt(v) => sat_len((utf8(v).len() as usize) as int),
        TokenKindSpec::Eq | TokenKindSpec::NotEq | TokenKindSpec::And | TokenKindSpec::Or => 2,
        TokenKindSpec::Matches => 7,
        TokenKindSpec::Redirect => 8,
        TokenKindSpec::Return => 6,
        TokenKindSpec::If => 2,
        _ => 1,
    }
}

fn clamp_len(n: usize) -> (r: u16)
    ensures
        r == sat_len(n as int),
{
    if n > 65535 {
        65535
    } else {
        n as u16
    }
}

/// How a token is shown in messages.
pub open spec fn kind_text(k: TokenKindSpec) -> Seq<char> {
    match k {
        TokenKindSpec::Ident(s) => s,
        TokenKindSpec::LBrace => "{"@,
        TokenKindSpec::RBrace => "}"@,
        TokenKindSpec::LParen => "("@,
        TokenKindSpec::RParen => ")"@,
        TokenKindSpec::Comma => ","@,
        TokenKindSpec::Semicolon => ";"@,
        TokenKindSpec::Dot => "."@,
        TokenKindSpec::Eq => "=="@,
        TokenKindSpec::NotEq => "!="@,
        TokenKindSpec::And => "&&"@,
        TokenKindSpec::Or => "||"@,
        TokenKindSpec::LitStr(s) => s,
        TokenKindSpec::LitInt(s) => s,
        TokenKindSpec::Matches => "matches"@,
        TokenKindSpec::Redirect => "redirect"@,
        TokenKindSpec::Return => "return"@,
        TokenKindSpec::If => "if"@,
        TokenKindSpec::Eof => "EOF"@,
    }
}

/// Two kinds are the same variant, whatever text they carry.
pub open spec fn same_variant(a: TokenKindSpec, b: TokenKindSpec) -> bool {
    match (a, b) {
        (TokenKindSpec::Ident(_), TokenKindSpec::Ident(_)) => true,
        (TokenKindSpec::LitStr(_), TokenKindSpec::LitStr(_)) => true,
        (TokenKindSpec::LitInt(_), TokenKindSpec::LitInt(_)) => true,
        (TokenKindSpec::Ident(_), _) | (_, TokenKindSpec::Ident(_)) => false,
        (TokenKindSpec::LitStr(_), _) | (_, TokenKindSpec::LitStr(_)) => false,
        (TokenKindSpec::LitInt(_), _) | (_, TokenKindSpec::LitInt(_)) => false,
        _ => a == b,
    }
}

impl RuleTokenKind {
    /// The token as shown in messages.
    pub fn text(&self) -> (r: String)
        ensures
            r@ == kind_text(self@),
    {
        match self {
            RuleTokenKind::Ident(s) => s.clone(),
            RuleTokenKind::LBrace => "{".to_owned(),
            RuleTokenKind::RBrace => "}".to_owned(),
            RuleTokenKind::LParen => "(".to_owned(),
            RuleTokenKind::RParen => ")".to_owned(),
            RuleTokenKind::Comma => ",".to_owned(),
            RuleTokenKind::Semicolon => ";".to_owned(),
            RuleTokenKind::Dot => ".".to_owned(),
            RuleTokenKind::Eq => "==".to_owned(),
            RuleTokenKind::NotEq => "!=".to_owned(),
            RuleTokenKind::And => "&&".to_owned(),
            RuleTokenKind::Or => "||".to_owned(),
            RuleTokenKind::LitStr(s) => s.clone(),
            RuleTokenKind::LitInt(s) => s.clone(),
            RuleTokenKind::Matches => "matches".to_owned(),
            RuleTokenKind::Redirect => "redirect".to_owned(),
            RuleTokenKind::Return => "return".to_owned(),
            RuleTokenKind::If => "if".to_owned(),
            RuleTokenKind::Eof => "EOF".to_owned(),
        }
    }

    /// A copy of the kind.
    pub fn copy(&self) -> (r: RuleTokenKind)
        ensures
            r@ == self@,
    {
        match self {
            RuleTokenKind::Ident(s) => RuleTokenKind::Ident(s.clone()),
            RuleTokenKind::LBrace => RuleTokenKind::LBrace,
            RuleTokenKind::RBrace => RuleTokenKind::RBrace,
            RuleTokenKind::LParen => RuleTokenKind::LParen,
            RuleTokenKind::RParen => RuleTokenKind::RParen,
            RuleTokenKind::Comma => RuleTokenKind::Comma,
            RuleTokenKind::Semicolon => RuleTokenKind::Semicolon,
            RuleTokenKind::Dot => RuleTokenKind::Dot,
            RuleTokenKind::Eq => RuleTokenKind::Eq,
            RuleTokenKind::NotEq => RuleTokenKind::NotEq,
            RuleTokenKind::And => RuleTokenKind::And,
            RuleTokenKind::Or => RuleTokenKind::Or,
            RuleTokenKind::LitStr(s) => RuleTokenKind::LitStr(s.clone()),
            RuleTokenKind::LitInt(s) => RuleTokenKind::LitInt(s.clone()),
            RuleTokenKind::Matches => RuleTokenKind::Matches,
            RuleTokenKind::Redirect => RuleTokenKind::Redirect,
            RuleTokenKind::Return => RuleTokenKind::Return,
            RuleTokenKind::If => RuleTokenKind::If,
            RuleTokenKind::Eof => RuleTokenKind::Eof,
        }
    }

    /// Whether two kinds are the same variant, whatever text they carry.
    pub fn same_variant(&self, other: &RuleTokenKind) -> (r: bool)
        ensures
            r == same_variant(self@, other@),
    {
        match (self, other) {
            (RuleTokenKind::Ident(_), RuleTokenKind::Ident(_)) => true,
            (RuleTokenKind::LitStr(_), RuleTokenKind::LitStr(_)) => true,
            (RuleTokenKind::LitInt(_), RuleTokenKind::LitInt(_)) => true,
            (RuleTokenKind::LBrace, RuleTokenKind::LBrace) => true,
            (RuleTokenKind::RBrace, RuleTokenKind::RBrace) => true,
            (RuleTokenKind::LParen, RuleTokenKind::LParen) => true,
            (RuleTokenKind::RParen, RuleTokenKind::RParen) => true,
            (RuleTokenKind::Comma, RuleTokenKind::Comma) => true,
            (RuleTokenKind::Semicolon, RuleTokenKind::Semicolon) => true,
            (RuleTokenKind::Dot, RuleTokenKind::Dot) => true,
            (RuleTokenKind::Eq, RuleTokenKind::Eq) => true,
            (RuleTokenKind::NotEq, RuleTokenKind::NotEq) => true,
            (RuleTokenKind::And, RuleTokenKind::And) => true,
            (RuleTokenKind::Or, RuleTokenKind::Or) => true,
            (RuleTokenKind::Matches, RuleTokenKind::Matches) => true,
            (RuleTokenKind::Redirect, RuleTokenKind::Redirect) => true,
            (RuleTokenKind::Return, RuleTokenKind::Return) => true,
            (RuleTokenKind::If, RuleTokenKind::If) => true,
            (RuleTokenKind::Eof, RuleTokenKind::Eof) => true,
            _ => false,
        }
    }
}

impl RuleTokenKind {
    /// How many bytes of source the token spans.
    pub fn len(&self) -> (r: u16)
        ensures
            r == kind_len(self@),
    {
        match self {
            RuleTokenKind::Ident(val) => clamp_len(val.as_str().len()),
            RuleTokenKind::LitStr(val) => {
                let n = val.as_str().len();
                if n > 65533 {
                    65535
                } else {
                    n as u16 + 2
                }
            },
            RuleTokenKind::LitInt(val) => clamp_len(val.as_str().len()),
            RuleTokenKind::Eq | RuleTokenKind::NotEq | RuleTokenKind::And | RuleTokenKind::Or => 2,
            RuleTokenKind::Matches => 7,
            RuleTokenKind::Redirect => 8,
            RuleTokenKind::Return => 6,
            RuleTokenKind::If => 2,
            _ => 1,
        }
    }

    /// Whether the token is a string or integer literal.
    pub fn is_lit(&self) -> (r: bool)
        ensures
            r == (self@ is LitInt || self@ is LitStr),
    {
        matches!(self, RuleTokenKind::LitInt(_) | RuleTokenKind::LitStr(_))
    }
}

/// A place in a rules file: line and column (both from 1) and a length.
#[derive(Debug, Copy, Clone, PartialEq, Eq, Structural)]
pub struct Position {
    pub line: u32,
    pub column: u32,
    pub len: u16,
}

/// The span from the first to the last of `ps`, on the first one's line.
pub open spec fn sum_spec(ps: Seq<Position>) -> Position {
    if ps.len() == 0 {
        Position { line: 0, column: 0, len: 0 }
    } else {
        let first = ps[0];
        let last = ps.last();
        Position {
            line: first.line,
            column: first.column,
            len: if last.line >= first.line {
                sat_len(last.line as int - first.line as int + last.len as int)
            } else {
                last.len
            },
        }
    }
}

impl Position {
    pub fn zero() -> (r: Self)
        ensures
            r == (Position { line: 0, column: 0, len: 0 }),
    {
        Position { line: 0, column: 0, len: 0 }
    }

    /// The span from the first to the last position.
    pub fn sum(positions: &[Position]) -> (r: Self)
        ensures
            r == sum_spec(positions@),
    {
        if positions.len() == 0 {
            return Position::zero();
        }
        let first = positions[0];
        let last = positions[positions.len() - 1];
        let len = if last.line >= first.line {
            let d = (last.line - first.line) as u64 + last.len as u64;
            if d > 65535 {
                65535
            } else {
                d as u16
            }
        } else {
            last.len
        };
        Position { line: first.line, column: first.column, len }
    }

    pub fn with_len(self, len: u16) -> (r: Self)
        ensures
            r == (Position { line: self.line, column: self.column, len }),
    {
        Position { line: self.line, column: self.column, len }
    }
}

/// A token and where it starts.
#[derive(Debug, Clone)]
pub struct RuleToken {
    pub kind: RuleTokenKind,
    pub position: Position,
}

impl View for RuleToken {
    type V = (TokenKindSpec, Position);

    open spec fn view(&self) -> (TokenKindSpec, Position) {
        (self.kind@, self.position)
    }
}

impl RuleToken {
    /// A copy of the token.
    pub fn copy(&self) -> (r: RuleToken)
        ensures
            r@ == self@,
    {
        RuleToken { kind: self.kind.copy(), position: self.position }
    }

    /// The end-of-input token.
    pub fn eof() -> (r: Self)
        ensures
            r@ == (TokenKindSpec::Eof, Position { line: 0, column: 0, len: 0 }),
    {
        RuleToken { kind: RuleTokenKind::Eof, position: Position::zero() }
    }
}

/// The tokens as data.
pub open spec fn toks(ts: Seq<RuleToken>) -> Seq<(TokenKindSpec, Position)> {
    ts.map_values(|t: RuleToken| t@)
}

pub open spec fn is_ws(c: char) -> bool {
    c == ' ' || c == '\t' || c == '\n' || c == '\r' || c == '\x0C'
}

pub open spec fn is_alpha(c: char) -> bool {
    ('a' <= c <= 'z') || ('A' <= c <= 'Z')
}

pub open spec fn is_digit_char(c: char) -> bool {
    '0' <= c <= '9'
}

/// The runs of characters the lexer reads in one go.
#[derive(Clone, Copy, PartialEq, Eq, Structural)]
pub enum CharClass {
    Whitespace,
    IdentTail,
    Digit,
    NotQuote,
    NotNewline,
    NotWhitespace,
}

pub open spec fn in_class(c: char, k: CharClass) -> bool {
    match k {
        CharClass::Whitespace => is_ws(c),
        CharClass::IdentTail => is_alpha(c) || c == '_',
        CharClass::Digit => is_digit_char(c),
        CharClass::NotQuote => c != '"',
        CharClass::NotNewline => c != '\n',
        CharClass::NotWhitespace => !is_ws(c),
    }
}

/// The end of the run of class `k` that starts at `i`.
pub open spec fn scan_spec(cs: Seq<char>, i: int, k: CharClass) -> int
    decreases cs.len() - i,
{
    if i < 0 || i >= cs.len() {
        i
    } else if in_class(cs[i], k) {
        scan_spec(cs, i + 1, k)
    } else {
        i
    }
}

/// Where reading starts: line 1, column 1.
pub open spec fn start_pos() -> Position {
    Position { line: 1, column: 1, len: 0 }
}

/// The position after reading the first `k` characters: a newline moves
/// to the next line's first column, any other character one column on.
pub open spec fn pos_at(cs: Seq<char>, k: int) -> Position
    decreases k,
{
    if k <= 0 {
        start_pos()
    } else {
        let p = pos_at(cs, k - 1);
        if cs[k - 1] == '\n' {
            Position { line: (p.line + 1) as u32, column: 1, len: 0 }
        } else {
            Position { line: p.line, column: (p.column + 1) as u32, len: 0 }
        }
    }
}

pub proof fn lemma_pos_bounds(cs: Seq<char>, k: int)
    requires
        0 <= k,
        k < 0xFFFF_FFF0,
    ensures
        1 <= pos_at(cs, k).line <= k + 1,
        1 <= pos_at(cs, k).column <= k + 1,
        pos_at(cs, k).len == 0,
    decreases k,
{
    if k > 0 {
        lemma_pos_bounds(cs, k - 1);
    }
}

/// The kind of a word: a keyword or an identifier.
pub open spec fn word_kind(w: Seq<char>) -> TokenKindSpec {
    if w == "matches"@ {
        TokenKindSpec::Matches
    } else if w == "redirect"@ {
        TokenKindSpec::Redirect
    } else if w == "return"@ {
        TokenKindSpec::Return
    } else if w == "if"@ {
        TokenKindSpec::If
    } else {
        TokenKindSpec::Ident(w)
    }
}

/// What the lexer makes of the text at `i`.
pub ghost enum StepSpec {
    Fail(SyntaxErrorSpec, Position),
    Skip(int),
    Token(TokenKindSpec, int),
}

/// Reads one token (or a comment) at `i`, which holds no whitespace.
pub open spec fn step_spec(cs: Seq<char>, i: int) -> StepSpec {
    let c = cs[i];
    if c == '{' {
        StepSpec::Token(TokenKindSpec::LBrace, i + 1)
    } else if c == '}' {
        StepSpec::Token(TokenKindSpec::RBrace, i + 1)
    } else if c == '(' {
        StepSpec::Token(TokenKindSpec::LParen, i + 1)
    } else if c == ')' {
        StepSpec::Token(TokenKindSpec::RParen, i + 1)
    } else if c == ',' {
        StepSpec::Token(TokenKindSpec::Comma, i + 1)
    } else if c == ';' {
        StepSpec::Token(TokenKindSpec::Semicolon, i + 1)
    } else if c == '.' {
        StepSpec::Token(TokenKindSpec::Dot, i + 1)
    } else if c == '"' {
        let j = scan_spec(cs, i + 1, CharClass::NotQuote);
        if j >= cs.len() {
            StepSpec::Fail(SyntaxErrorSpec::UnterminatedString, pos_at(cs, j))
        } else {
            StepSpec::Token(TokenKindSpec::LitStr(cs.subrange(i + 1, j)), j + 1)
        }
    } else if c == '=' || c == '!' || c == '&' || c == '|' {
        let second = if c == '=' || c == '!' { '=' } else { c };
        if i + 1 < cs.len() && cs[i + 1] == second {
            StepSpec::Token(
                if c == '=' {
                    TokenKindSpec::Eq
                } else if c == '!' {
                    TokenKindSpec::NotEq
                } else if c == '&' {
                    TokenKindSpec::And
                } else {
                    TokenKindSpec::Or
                },
                i + 2,
            )
        } else {
            StepSpec::Fail(SyntaxErrorSpec::UnexpectedToken(seq![c]), pos_at(cs, i))
        }
    } else if c == '#' {
        StepSpec::Skip(scan_spec(cs, i + 1, CharClass::NotNewline))
    } else if is_alpha(c) || c == '_' {
        let j = scan_spec(cs, i + 1, CharClass::IdentTail);
        StepSpec::Token(word_kind(cs.subrange(i, j)), j)
    } else if is_digit_char(c) {
        let j = scan_spec(cs, i + 1, CharClass::Digit);
        if j < cs.len() && is_alpha(cs[j]) {
            StepSpec::Fail(SyntaxErrorSpec::UnexpectedToken(seq![cs[j]]), pos_at(cs, j))
        } else {
            StepSpec::Token(TokenKindSpec::LitInt(cs.subrange(i, j)), j)
        }
    } else {
        StepSpec::Fail(SyntaxErrorSpec::UnexpectedToken(seq![c]), pos_at(cs, i))
    }
}

/// The tokens of `cs` from `i` on, after those in `acc`; or the first
/// syntax error with its position. After `matches`, the next run of
/// non-whitespace is read as a string: the rule's pattern.
pub open spec fn lex_spec(cs: Seq<char>, i: int, acc: Seq<(TokenKindSpec, Position)>) -> Result<
    Seq<(TokenKindSpec, Position)>,
    (SyntaxErrorSpec, Position),
>
    decreases cs.len() - i,
{
    if i < 0 || i >= cs.len() {
        Ok(acc)
    } else {
        match step_spec(cs, i) {
            StepSpec::Fail(e, p) => Err((e, p)),
            StepSpec::Skip(e) => {
                let n = scan_spec(cs, e, CharClass::Whitespace);
                if i < n && n <= cs.len() {
                    lex_spec(cs, n, acc)
                } else {
                    Ok(acc)
                }
            },
            StepSpec::Token(kind, e) => {
                let at = pos_at(cs, i);
                let acc1 = acc.push((kind, Position { line: at.line, column: at.column, len: kind_len(kind) }));
                if kind is Matches {
                    let k = scan_spec(cs, e, CharClass::Whitespace);
                    let m = scan_spec(cs, k, CharClass::NotWhitespace);
                    let n = scan_spec(cs, m, CharClass::Whitespace);
                    let acc2 = acc1.push((TokenKindSpec::LitStr(cs.subrange(k, m)), pos_at(cs, k)));
                    if i < n && n <= cs.len() {
                        lex_spec(cs, n, acc2)
                    } else {
                        Ok(acc2)
                    }
                } else {
                    let n = scan_spec(cs, e, CharClass::Whitespace);
                    if i < n && n <= cs.len() {
                        lex_spec(cs, n, acc1)
                    } else {
                        Ok(acc1)
                    }
                }
            },
        }
    }
}

/// The tokens of a whole rules file.
pub open spec fn tokenize_spec(cs: Seq<char>) -> Result<Seq<(TokenKindSpec, Position)>, (SyntaxErrorSpec, Position)> {
    lex_spec(cs, scan_spec(cs, 0, CharClass::Whitespace), Seq::empty())
}

fn in_class_exec(c: char, k: CharClass) -> (r: bool)
    ensures
        r == in_class(c, k),
{
    let ws = c == ' ' || c == '\t' || c == '\n' || c == '\r' || c == '\x0C';
    match k {
        CharClass::Whitespace => ws,
        CharClass::IdentTail => ('a' <= c && c <= 'z') || ('A' <= c && c <= 'Z') || c == '_',
        CharClass::Digit => '0' <= c && c <= '9',
        CharClass::NotQuote => c != '"',
        CharClass::NotNewline => c != '\n',
        CharClass::NotWhitespace => !ws,
    }
}

/// The end of the run of class `k` that starts at `i`.
fn scan(cs: &Vec<char>, i: usize, k: CharClass) -> (r: usize)
    requires
        i <= cs@.len(),
    ensures
        r as int == scan_spec(cs@, i as int, k),
        i <= r <= cs@.len(),
{
    let mut r = i;
    while r < cs.len() && in_class_exec(cs[r], k)
        invariant
            i <= r <= cs@.len(),
            scan_spec(cs@, i as int, k) == scan_spec(cs@, r as int, k),
        decreases cs@.len() - r,
    {
        r = r + 1;
    }
    r
}

/// The position after the first `j` characters, from the one after `i`.
fn walk(cs: &Vec<char>, i: usize, j: usize, pos: Position) -> (r: Position)
    requires
        i <= j <= cs@.len(),
        cs@.len() < 0xFFFF_FFF0,
        pos == pos_at(cs@, i as int),
    ensures
        r == pos_at(cs@, j as int),
{
    let mut p = pos;
    let mut k = i;
    while k < j
        invariant
            i <= k <= j <= cs@.len(),
            cs@.len() < 0xFFFF_FFF0,
            p == pos_at(cs@, k as int),
        decreases j - k,
    {
        proof { lemma_pos_bounds(cs@, k as int); }
        if cs[k] == '\n' {
            p = Position { line: p.line + 1, column: 1, len: 0 };
        } else {
            p = Position { line: p.line, column: p.column + 1, len: 0 };
        }
        k = k + 1;
    }
    p
}

/// The characters of a string.
pub(crate) fn chars_of(s: &str) -> (r: Vec<char>)
    ensures
        r@ == s@,
{
    let n = s.unicode_len();
    let mut r: Vec<char> = Vec::new();
    let mut i: usize = 0;
    while i < n
        invariant
            n == s@.len(),
            0 <= i <= n,
            r@ == s@.subrange(0, i as int),
        decreases n - i,
    {
        r.push(s.get_char(i));
        assert(s@.subrange(0, i as int + 1) =~= s@.subrange(0, i as int).push(s@[i as int]));
        i = i + 1;
    }
    assert(s@.subrange(0, n as int) =~= s@);
    r
}

/// The text of `s` from character `from` to character `to`.
pub(crate) fn text_between(s: &str, from: usize, to: usize) -> (r: String)
    requires
        from <= to <= s@.len(),
    ensures
        r@ == s@.subrange(from as int, to as int),
{
    s.substring_char(from, to).to_owned()
}

/// A keyword or an identifier.
fn word_kind_exec(w: String) -> (r: RuleTokenKind)
    ensures
        r@ == word_kind(w@),
{
    if crate::text::str_eq(w.as_str(), "matches") {
        RuleTokenKind::Matches
    } else if crate::text::str_eq(w.as_str(), "redirect") {
        RuleTokenKind::Redirect
    } else if crate::text::str_eq(w.as_str(), "return") {
        RuleTokenKind::Return
    } else if crate::text::str_eq(w.as_str(), "if") {
        RuleTokenKind::If
    } else {
        RuleTokenKind::Ident(w)
    }
}

/// What the lexer makes of the text at one place.
enum Step {
    Fail(RuleError),
    Skip(usize),
    Token(RuleTokenKind, usize),
}

fn unexpected(s: &str, j: usize, at: Position) -> (r: RuleError)
    requires
        j < s@.len(),
        s@.len() < 0xFFFF_FFF0,
    ensures
        syntax_view(r) == Some((SyntaxErrorSpec::UnexpectedToken(seq![s@[j as int]]), at)),
{
    let t = text_between(s, j, j + 1);
    assert(t@ =~= seq![s@[j as int]]);
    RuleError::syntax(SyntaxErrorKind::UnexpectedToken(t), at)
}

fn step(cs: &Vec<char>, input: &str, i: usize, pos: Position) -> (r: Step)
    requires
        cs@ == input@,
        i < cs@.len(),
        cs@.len() < 0xFFFF_FFF0,
        pos == pos_at(cs@, i as int),
    ensures
        match (r, step_spec(cs@, i as int)) {
            (Step::Fail(e), StepSpec::Fail(k, p)) => syntax_view(e) == Some((k, p)),
            (Step::Skip(e), StepSpec::Skip(f)) => e == f && i < e <= cs@.len(),
            (Step::Token(t, e), StepSpec::Token(k, f)) => t@ == k && e == f && i < e <= cs@.len(),
            _ => false,
        },
{
    let c = cs[i];
    if c == '{' {
        Step::Token(RuleTokenKind::LBrace, i + 1)
    } else if c == '}' {
        Step::Token(RuleTokenKind::RBrace, i + 1)
    } else if c == '(' {
        Step::Token(RuleTokenKind::LParen, i + 1)
    } else if c == ')' {
        Step::Token(RuleTokenKind::RParen, i + 1)
    } else if c == ',' {
        Step::Token(RuleTokenKind::Comma, i + 1)
    } else if c == ';' {
        Step::Token(RuleTokenKind::Semicolon, i + 1)
    } else if c == '.' {
        Step::Token(RuleTokenKind::Dot, i + 1)
    } else if c == '"' {
        let j = scan(cs, i + 1, CharClass::NotQuote);
        if j >= cs.len() {
            let at = walk(cs, i, j, pos);
            Step::Fail(RuleError::syntax(SyntaxErrorKind::UnterminatedString, at))
        } else {
            Step::Token(RuleTokenKind::LitStr(text_between(input, i + 1, j)), j + 1)
        }
    } else if c == '=' || c == '!' || c == '&' || c == '|' {
        let second = if c == '=' || c == '!' { '=' } else { c };
        if i + 1 < cs.len() && cs[i + 1] == second {
            let kind = if c == '=' {
                RuleTokenKind::Eq
            } else if c == '!' {
                RuleTokenKind::NotEq
            } else if c == '&' {
                RuleTokenKind::And
            } else {
                RuleTokenKind::Or
            };
            Step::Token(kind, i + 2)
        } else {
            Step::Fail(unexpected(input, i, pos))
        }
    } else if c == '#' {
        Step::Skip(scan(cs, i + 1, CharClass::NotNewline))
    } else if ('a' <= c && c <= 'z') || ('A' <= c && c <= 'Z') || c == '_' {
        let j = scan(cs, i + 1, CharClass::IdentTail);
        Step::Token(word_kind_exec(text_between(input, i, j)), j)
    } else if '0' <= c && c <= '9' {
        let j = scan(cs, i + 1, CharClass::Digit);
        if j < cs.len() && (('a' <= cs[j] && cs[j] <= 'z') || ('A' <= cs[j] && cs[j] <= 'Z')) {
            let at = walk(cs, i, j, pos);
            Step::Fail(unexpected(input, j, at))
        } else {
            Step::Token(RuleTokenKind::LitInt(text_between(input, i, j)), j)
        }
    } else {
        Step::Fail(unexpected(input, i, pos))
    }
}

/// Splits a rules file into tokens, each with its position, or reports
/// the first syntax error.
pub fn tokenize(input: &str) -> (r: Result<Vec<RuleToken>, RuleError>)
    requires
        input@.len() < 0xFFFF_FFF0,
    ensures
        r is Ok <==> tokenize_spec(input@) is Ok,
        r matches Ok(ts) ==> tokenize_spec(input@) == Ok::<_, (SyntaxErrorSpec, Position)>(
            toks(ts@),
        ),
        r matches Err(e) ==> Some(tokenize_spec(input@)->Err_0) == syntax_view(e),
{
    let cs = chars_of(input);
    let mut tokens: Vec<RuleToken> = Vec::new();
    let mut i = scan(&cs, 0, CharClass::Whitespace);
    let mut pos = walk(&cs, 0, i, Position { line: 1, column: 1, len: 0 });
    assert(toks(tokens@) =~= Seq::<(TokenKindSpec, Position)>::empty());
    loop
        invariant
            cs@ == input@,
            cs@.len() < 0xFFFF_FFF0,
            i <= cs@.len(),
            pos == pos_at(cs@, i as int),
            tokenize_spec(cs@) == lex_spec(cs@, i as int, toks(tokens@)),
        decreases cs@.len() - i,
    {
        if i >= cs.len() {
            return Ok(tokens);
        }
        match step(&cs, input, i, pos) {
            Step::Fail(e) => {
                return Err(e);
            },
            Step::Skip(e) => {
                let n = scan(&cs, e, CharClass::Whitespace);
                pos = walk(&cs, i, n, pos);
                i = n;
            },
            Step::Token(kind, e) => {
                let is_matches = matches!(kind, RuleTokenKind::Matches);
                let l = kind.len();
                proof { lemma_pos_bounds(cs@, i as int); }
                let ghost before = toks(tokens@);
                let tok = RuleToken { kind, position: pos.with_len(l) };
                tokens.push(tok);
                assert(toks(tokens@) =~= before.push(tok@));
                if is_matches {
                    let k = scan(&cs, e, CharClass::Whitespace);
                    let m = scan(&cs, k, CharClass::NotWhitespace);
                    let pk = walk(&cs, i, k, pos);
                    let ghost mid = toks(tokens@);
                    let pat = RuleToken { kind: RuleTokenKind::LitStr(text_between(input, k, m)), position: pk };
                    tokens.push(pat);
                    assert(toks(tokens@) =~= mid.push(pat@));
                    let n = scan(&cs, m, CharClass::Whitespace);
                    pos = walk(&cs, k, n, pk);
                    i = n;
                } else {
                    let n = scan(&cs, e, CharClass::Whitespace);
                    pos = walk(&cs, i, n, pos);
                    i = n;
                }
            },
        }
    }
}

} // verus!
