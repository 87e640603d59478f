use vstd::prelude::*;
use crate::response_status_code::{status_of_code, ResponseStatusCode};
use crate::rules::error::{
    syntax_view, RuleError, RuleErrorKind, SemanticErrorKind, SyntaxErrorKind, SyntaxErrorSpec,
};
use crate::rules::expr::{Expr, ExprOrValue, Operator};
use crate::rules::lexer::{kind_text, same_variant, toks, Position, RuleToken, RuleTokenKind, TokenKindSpec};
use crate::rules::rule::Rule;
use crate::text::{parse_decimal_spec, utf8};

verus! {

/// What a statement does.
#[derive(Debug)]
pub enum StatementKind {
    Redirect(ResponseStatusCode, String),
    Return(ResponseStatusCode, Option<String>),
    If(ExprOrValue, Vec<Statement>),
    Expr(ExprOrValue),
}

/// One statement of a rule.
#[derive(Debug)]
pub struct Statement {
    pub kind: StatementKind,
}

impl StatementKind {
    /// The statement's keyword as shown in messages.
    pub fn name(&self) -> (r: &'static str)
        ensures
            r@ == statement_name(*self),
    {
        match self {
            StatementKind::Redirect(_, _) => "redirect",
            StatementKind::Return(_, _) => "return",
            StatementKind::If(_, _) => "if",
            StatementKind::Expr(_) => "expr",
        }
    }
}

pub open spec fn statement_name(k: StatementKind) -> Seq<char> {
    match k {
        StatementKind::Redirect(_, _) => "redirect"@,
        StatementKind::Return(_, _) => "return"@,
        StatementKind::If(_, _) => "if"@,
        StatementKind::Expr(_) => "expr"@,
    }
}

/// The token at `i`, or the end-of-input token past the end.
pub open spec fn token_at(ts: Seq<(TokenKindSpec, Position)>, i: int) -> (TokenKindSpec, Position) {
    if 0 <= i < ts.len() {
        ts[i]
    } else {
        (TokenKindSpec::Eof, Position { line: 0, column: 0, len: 0 })
    }
}

/// No statement follows a `return` in the same block.
pub open spec fn return_is_last(ss: Seq<Statement>) -> bool {
    forall|i: int| 0 <= i < ss.len() - 1 ==> !((#[trigger] ss[i]).kind is Return)
}

/// The status code an integer literal names, if it is a known one.
pub open spec fn literal_status(k: TokenKindSpec) -> Option<ResponseStatusCode> {
    match k {
        TokenKindSpec::LitInt(t) => match parse_decimal_spec(utf8(t)) {
            Some(n) => if n <= 65535 {
                status_of_code(n as u16)
            } else {
                None
            },
            None => None,
        },
        _ => None,
    }
}

/// A token that may be read at `*pos`: on success the position moves past it.
fn next_token(tokens: &Vec<RuleToken>, pos: &mut usize) -> (r: RuleToken)
    requires
        *old(pos) < tokens@.len(),
    ensures
        r@ == tokens@[*old(pos) as int]@,
        *final(pos) == *old(pos) + 1,
{
    let n = tokens.len();
    let t = tokens[*pos].copy();
    *pos = *pos + 1;
    t
}

/// The error for an expected token that is not there.
fn expected_error(tokens: &Vec<RuleToken>, pos: usize, expected: String) -> (r: RuleError)
    ensures
        syntax_view(r) == Some(
            (
                SyntaxErrorSpec::ExpectedOther(expected@, kind_text(token_at(toks(tokens@), pos as int).0)),
                token_at(toks(tokens@), pos as int).1,
            ),
        ),
{
    if pos < tokens.len() {
        let got = tokens[pos].kind.text();
        RuleError::syntax(SyntaxErrorKind::ExpectedOther(expected, got), tokens[pos].position)
    } else {
        let eof = RuleToken::eof();
        let got = eof.kind.text();
        RuleError::syntax(SyntaxErrorKind::ExpectedOther(expected, got), eof.position)
    }
}

/// The error for a token that cannot start what is expected.
fn unexpected_error(tokens: &Vec<RuleToken>, pos: usize) -> (r: RuleError)
    ensures
        syntax_view(r) == Some(
            (
                SyntaxErrorSpec::UnexpectedToken(kind_text(token_at(toks(tokens@), pos as int).0)),
                token_at(toks(tokens@), pos as int).1,
            ),
        ),
{
    if pos < tokens.len() {
        RuleError::syntax(SyntaxErrorKind::UnexpectedToken(tokens[pos].kind.text()), tokens[pos].position)
    } else {
        let eof = RuleToken::eof();
        RuleError::syntax(SyntaxErrorKind::UnexpectedToken(eof.kind.text()), eof.position)
    }
}

/// Reads a token of the same variant as `expected`, or reports what was
/// found instead (shown as `expected_text`).
fn expect(tokens: &Vec<RuleToken>, pos: &mut usize, expected: &RuleTokenKind, expected_text: String) -> (r: Result<RuleToken, RuleError>)
    requires
        *old(pos) <= tokens@.len(),
    ensures
        r is Ok <==> *old(pos) < tokens@.len() && same_variant(tokens@[*old(pos) as int]@.0, expected@),
        r matches Ok(t) ==> t@ == tokens@[*old(pos) as int]@ && *final(pos) == *old(pos) + 1,
        r matches Err(e) ==> *final(pos) == *old(pos) && syntax_view(e) == Some(
            (
                SyntaxErrorSpec::ExpectedOther(expected_text@, kind_text(token_at(toks(tokens@), *old(pos) as int).0)),
                token_at(toks(tokens@), *old(pos) as int).1,
            ),
        ),
{
    if *pos < tokens.len() && tokens[*pos].kind.same_variant(expected) {
        Ok(next_token(tokens, pos))
    } else {
        Err(expected_error(tokens, *pos, expected_text))
    }
}

/// Reads a token of the same variant as `to_swallow`.
fn swallow(tokens: &Vec<RuleToken>, pos: &mut usize, to_swallow: RuleTokenKind) -> (r: Result<RuleToken, RuleError>)
    requires
        *old(pos) <= tokens@.len(),
    ensures
        r is Ok <==> *old(pos) < tokens@.len() && same_variant(tokens@[*old(pos) as int]@.0, to_swallow@),
        r matches Ok(t) ==> t@ == tokens@[*old(pos) as int]@ && *final(pos) == *old(pos) + 1,
        r matches Err(e) ==> *final(pos) == *old(pos) && syntax_view(e) == Some(
            (
                SyntaxErrorSpec::ExpectedOther(kind_text(to_swallow@), kind_text(token_at(toks(tokens@), *old(pos) as int).0)),
                token_at(toks(tokens@), *old(pos) as int).1,
            ),
        ),
{
    let text = to_swallow.text();
    expect(tokens, pos, &to_swallow, text)
}

/// Whether the token at `pos` is of the same variant as `k`.
fn at_kind(tokens: &Vec<RuleToken>, pos: usize, k: &RuleTokenKind) -> (r: bool)
    ensures
        r == (pos < tokens@.len() && same_variant(tokens@[pos as int]@.0, k@)),
        tokens@.len() <= usize::MAX,
{
    let n = tokens.len();
    pos < n && tokens[pos].kind.same_variant(k)
}

/// Reads an integer literal naming a known status code.
fn status_code(tokens: &Vec<RuleToken>, pos: &mut usize) -> (r: Result<ResponseStatusCode, RuleError>)
    requires
        *old(pos) <= tokens@.len(),
    ensures
        *old(pos) <= *final(pos) <= tokens@.len(),
        r is Ok <==> *old(pos) < tokens@.len() && literal_status(tokens@[*old(pos) as int]@.0) is Some,
        r matches Ok(s) ==> Some(s) == literal_status(tokens@[*old(pos) as int]@.0) && *final(pos) == *old(pos) + 1,
        r matches Err(e) ==> (*old(pos) < tokens@.len() && tokens@[*old(pos) as int]@.0 is LitInt) ==> (
            e.kind matches RuleErrorKind::Syntax(SyntaxErrorKind::IncorrectResponseCode(_))
            && e.position == tokens@[*old(pos) as int].position),
{
    let tok = expect(tokens, pos, &RuleTokenKind::LitInt(String::new()), "integer".to_owned())?;
    match tok.kind {
        RuleTokenKind::LitInt(int_val) => {
            let n = match crate::text::parse_decimal(int_val.as_str().as_bytes()) {
                Some(n) => n,
                None => {
                    return Err(RuleError::syntax(SyntaxErrorKind::IncorrectResponseCode(int_val), tok.position));
                },
            };
            if n > 65535 {
                return Err(RuleError::syntax(SyntaxErrorKind::IncorrectResponseCode(int_val), tok.position));
            }
            match ResponseStatusCode::try_from_code(n as u16) {
                Some(s) => Ok(s),
                None => Err(
                    RuleError::syntax(
                        SyntaxErrorKind::IncorrectResponseCode(crate::text::usize_to_string(n)),
                        tok.position,
                    ),
                ),
            }
        },
        _ => Err(expected_error(tokens, *pos, "integer".to_owned())),
    }
}

/// Reads a string literal.
fn string(tokens: &Vec<RuleToken>, pos: &mut usize) -> (r: Result<String, RuleError>)
    requires
        *old(pos) <= tokens@.len(),
    ensures
        *old(pos) <= *final(pos) <= tokens@.len(),
        r is Ok <==> *old(pos) < tokens@.len() && tokens@[*old(pos) as int]@.0 is LitStr,
        r matches Ok(s) ==> tokens@[*old(pos) as int]@.0 == TokenKindSpec::LitStr(s@) && *final(pos) == *old(pos) + 1,
{
    let tok = expect(tokens, pos, &RuleTokenKind::LitStr(String::new()), "string".to_owned())?;
    match tok.kind {
        RuleTokenKind::LitStr(s) => Ok(s),
        _ => Err(expected_error(tokens, *pos, "string".to_owned())),
    }
}

/// `redirect code "location" ;`
pub open spec fn redirect_shape(ts: Seq<(TokenKindSpec, Position)>, p: int) -> bool {
    p + 4 <= ts.len() && ts[p].0 is Redirect && literal_status(ts[p + 1].0) is Some
        && ts[p + 2].0 is LitStr && ts[p + 3].0 is Semicolon
}

/// Parses `redirect code "location" ;`.
pub fn redirect_statement(tokens: &Vec<RuleToken>, pos: &mut usize) -> (r: Result<Statement, RuleError>)
    requires
        *old(pos) <= tokens@.len(),
    ensures
        *old(pos) <= *final(pos) <= tokens@.len(),
        r is Ok <==> redirect_shape(toks(tokens@), *old(pos) as int),
        (*old(pos) + 1 < tokens@.len() && tokens@[*old(pos) as int]@.0 is Redirect && tokens@[*old(pos) + 1]@.0 is LitInt
            && literal_status(tokens@[*old(pos) + 1]@.0) is None) ==> (r matches Err(e)
            && e.kind matches RuleErrorKind::Syntax(SyntaxErrorKind::IncorrectResponseCode(_))
            && e.position == tokens@[*old(pos) + 1].position),
        r matches Ok(s) ==> *final(pos) == *old(pos) + 4 && (s.kind matches StatementKind::Redirect(code, loc)
            && Some(code) == literal_status(tokens@[*old(pos) + 1]@.0)
            && tokens@[*old(pos) + 2]@.0 == TokenKindSpec::LitStr(loc@)),
{
    swallow(tokens, pos, RuleTokenKind::Redirect)?;
    let response_code = status_code(tokens, pos)?;
    let location = string(tokens, pos)?;
    swallow(tokens, pos, RuleTokenKind::Semicolon)?;
    Ok(Statement { kind: StatementKind::Redirect(response_code, location) })
}

/// `return code "body"? ;`
pub open spec fn return_shape(ts: Seq<(TokenKindSpec, Position)>, p: int) -> bool {
    p + 3 <= ts.len() && ts[p].0 is Return && literal_status(ts[p + 1].0) is Some && (
    ts[p + 2].0 is Semicolon || (p + 4 <= ts.len() && ts[p + 2].0 is LitStr
        && ts[p + 3].0 is Semicolon))
}

/// Parses `return code "body"? ;`.
pub fn return_statement(tokens: &Vec<RuleToken>, pos: &mut usize) -> (r: Result<Statement, RuleError>)
    requires
        *old(pos) <= tokens@.len(),
    ensures
        *old(pos) <= *final(pos) <= tokens@.len(),
        r is Ok <==> return_shape(toks(tokens@), *old(pos) as int),
        (*old(pos) + 1 < tokens@.len() && tokens@[*old(pos) as int]@.0 is Return && tokens@[*old(pos) + 1]@.0 is LitInt
            && literal_status(tokens@[*old(pos) + 1]@.0) is None) ==> (r matches Err(e)
            && e.kind matches RuleErrorKind::Syntax(SyntaxErrorKind::IncorrectResponseCode(_))
            && e.position == tokens@[*old(pos) + 1].position),
        ({
            let p = *old(pos) as int;
            let semi = if p + 2 < tokens@.len() && tokens@[p + 2]@.0 is LitStr { p + 3 } else { p + 2 };
            (p + 1 < tokens@.len() && tokens@[p]@.0 is Return && literal_status(tokens@[p + 1]@.0) is Some
                && !(semi < tokens@.len() && tokens@[semi]@.0 is Semicolon)) ==> (r matches Err(e) && syntax_view(e) == Some(
                (
                    SyntaxErrorSpec::ExpectedOther(";"@, kind_text(token_at(toks(tokens@), semi).0)),
                    token_at(toks(tokens@), semi).1,
                ),
            ))
        }),
        r matches Ok(s) ==> s.kind matches StatementKind::Return(code, body)
            && Some(code) == literal_status(tokens@[*old(pos) + 1]@.0)
            && (tokens@[*old(pos) + 2]@.0 is Semicolon ==> body is None && *final(pos) == *old(pos) + 3)
            && (tokens@[*old(pos) + 2]@.0 is LitStr ==> (body matches Some(b)
                && tokens@[*old(pos) + 2]@.0 == TokenKindSpec::LitStr(b@)) && *final(pos) == *old(pos) + 4),
{
    swallow(tokens, pos, RuleTokenKind::Return)?;
    let response_code = status_code(tokens, pos)?;
    let body = if at_kind(tokens, *pos, &RuleTokenKind::LitStr(String::new())) {
        Some(string(tokens, pos)?)
    } else {
        None
    };
    swallow(tokens, pos, RuleTokenKind::Semicolon)?;
    Ok(Statement { kind: StatementKind::Return(response_code, body) })
}

fn binary(lhs: ExprOrValue, operator: Operator, rhs: ExprOrValue) -> (r: ExprOrValue)
    ensures
        r matches ExprOrValue::Expr(e) && e.operator == operator && *e.lhs == lhs && *e.rhs == rhs,
{
    ExprOrValue::Expr(Expr { lhs: Box::new(lhs), operator, rhs: Box::new(rhs) })
}

/// The kind of the token at `p`, if there is one.
pub open spec fn kind_at(ts: Seq<(TokenKindSpec, Position)>, p: int) -> Option<TokenKindSpec> {
    if 0 <= p < ts.len() {
        Some(ts[p].0)
    } else {
        None
    }
}

/// Where an expression starting at `p` ends, or `None` when the tokens
/// there are not an expression.
pub open spec fn expr_end(ts: Seq<(TokenKindSpec, Position)>, p: int) -> Option<int>
    decreases ts.len() - p, 5int,
{
    or_end(ts, p)
}

/// `and ("||" and)*`
pub open spec fn or_end(ts: Seq<(TokenKindSpec, Position)>, p: int) -> Option<int>
    decreases ts.len() - p, 4int,
{
    match and_end(ts, p) {
        Some(q) => if p < q <= ts.len() {
            or_tail(ts, q)
        } else {
            None
        },
        None => None,
    }
}

/// The rest of an `||` chain from `q`.
pub open spec fn or_tail(ts: Seq<(TokenKindSpec, Position)>, q: int) -> Option<int>
    decreases ts.len() - q, 4int,
{
    if 0 <= q && kind_at(ts, q) == Some(TokenKindSpec::Or) {
        match and_end(ts, q + 1) {
            Some(r) => if q < r <= ts.len() {
                or_tail(ts, r)
            } else {
                None
            },
            None => None,
        }
    } else {
        Some(q)
    }
}

/// `cmp ("&&" cmp)*`
pub open spec fn and_end(ts: Seq<(TokenKindSpec, Position)>, p: int) -> Option<int>
    decreases ts.len() - p, 3int,
{
    match cmp_end(ts, p) {
        Some(q) => if p < q <= ts.len() {
            and_tail(ts, q)
        } else {
            None
        },
        None => None,
    }
}

/// The rest of an `&&` chain from `q`.
pub open spec fn and_tail(ts: Seq<(TokenKindSpec, Position)>, q: int) -> Option<int>
    decreases ts.len() - q, 3int,
{
    if 0 <= q && kind_at(ts, q) == Some(TokenKindSpec::And) {
        match cmp_end(ts, q + 1) {
            Some(r) => if q < r <= ts.len() {
                and_tail(ts, r)
            } else {
                None
            },
            None => None,
        }
    } else {
        Some(q)
    }
}

/// `primary (("==" | "!=") primary)?`
pub open spec fn cmp_end(ts: Seq<(TokenKindSpec, Position)>, p: int) -> Option<int>
    decreases ts.len() - p, 2int,
{
    match primary_end(ts, p) {
        Some(q) => if p < q && (kind_at(ts, q) == Some(TokenKindSpec::Eq) || kind_at(ts, q) == Some(TokenKindSpec::NotEq)) {
            primary_end(ts, q + 1)
        } else {
            Some(q)
        },
        None => None,
    }
}

/// `"(" expr ")"`, `ident ("." ident)? ("(" args ")")?`, or a literal.
pub open spec fn primary_end(ts: Seq<(TokenKindSpec, Position)>, p: int) -> Option<int>
    decreases ts.len() - p, 1int,
{
    if p < 0 || p >= ts.len() {
        None
    } else if ts[p].0 is LParen {
        match expr_end(ts, p + 1) {
            Some(q) => if kind_at(ts, q) == Some(TokenKindSpec::RParen) {
                Some(q + 1)
            } else {
                None
            },
            None => None,
        }
    } else if ts[p].0 is Ident {
        if kind_at(ts, p + 1) == Some(TokenKindSpec::Dot) {
            if kind_at(ts, p + 2) matches Some(TokenKindSpec::Ident(_)) {
                if kind_at(ts, p + 3) == Some(TokenKindSpec::LParen) {
                    args_end(ts, p + 4)
                } else {
                    Some(p + 3)
                }
            } else {
                None
            }
        } else if kind_at(ts, p + 1) == Some(TokenKindSpec::LParen) {
            args_end(ts, p + 2)
        } else {
            Some(p + 1)
        }
    } else if ts[p].0 is LitInt || ts[p].0 is LitStr {
        Some(p + 1)
    } else {
        None
    }
}

/// Arguments from `q` up to and including the closing parenthesis; each is
/// an expression, optionally followed by a comma.
pub open spec fn args_end(ts: Seq<(TokenKindSpec, Position)>, q: int) -> Option<int>
    decreases ts.len() - q, 6int,
{
    if q < 0 || q >= ts.len() {
        None
    } else if ts[q].0 is RParen {
        Some(q + 1)
    } else {
        match expr_end(ts, q) {
            Some(r) => {
                let next = if kind_at(ts, r) == Some(TokenKindSpec::Comma) {
                    r + 1
                } else {
                    r
                };
                if q < next <= ts.len() {
                    args_end(ts, next)
                } else {
                    None
                }
            },
            None => None,
        }
    }
}

/// Parses an expression: `||` binds loosest, then `&&`, then `==` / `!=`.
pub fn expr(tokens: &Vec<RuleToken>, pos: &mut usize) -> (r: Result<ExprOrValue, RuleError>)
    requires
        *old(pos) <= tokens@.len(),
    ensures
        r is Ok <==> expr_end(toks(tokens@), *old(pos) as int) is Some,
        r is Ok ==> *final(pos) as int == expr_end(toks(tokens@), *old(pos) as int)->0,
        *old(pos) <= *final(pos) <= tokens@.len(),
        r is Ok ==> *old(pos) < *final(pos),
    decreases tokens@.len() - *old(pos), 5int,
{
    or_expr(tokens, pos)
}

/// `and ("||" and)*`, grouping to the left.
fn or_expr(tokens: &Vec<RuleToken>, pos: &mut usize) -> (r: Result<ExprOrValue, RuleError>)
    requires
        *old(pos) <= tokens@.len(),
    ensures
        r is Ok <==> or_end(toks(tokens@), *old(pos) as int) is Some,
        r is Ok ==> *final(pos) as int == or_end(toks(tokens@), *old(pos) as int)->0,
        *old(pos) <= *final(pos) <= tokens@.len(),
        r is Ok ==> *old(pos) < *final(pos),
    decreases tokens@.len() - *old(pos), 4int,
{
    let start = *pos;
    let mut lhs = and_expr(tokens, pos)?;
    while at_kind(tokens, *pos, &RuleTokenKind::Or)
        invariant
            start == *old(pos),
            start < *pos <= tokens@.len(),
            or_end(toks(tokens@), start as int) == or_tail(toks(tokens@), *pos as int),
        decreases tokens@.len() - *pos,
    {
        *pos = *pos + 1;
        let rhs = and_expr(tokens, pos)?;
        lhs = binary(lhs, Operator::Or, rhs);
    }
    Ok(lhs)
}

/// `cmp ("&&" cmp)*`, grouping to the left.
fn and_expr(tokens: &Vec<RuleToken>, pos: &mut usize) -> (r: Result<ExprOrValue, RuleError>)
    requires
        *old(pos) <= tokens@.len(),
    ensures
        r is Ok <==> and_end(toks(tokens@), *old(pos) as int) is Some,
        r is Ok ==> *final(pos) as int == and_end(toks(tokens@), *old(pos) as int)->0,
        *old(pos) <= *final(pos) <= tokens@.len(),
        r is Ok ==> *old(pos) < *final(pos),
    decreases tokens@.len() - *old(pos), 3int,
{
    let start = *pos;
    let mut lhs = cmp_expr(tokens, pos)?;
    while at_kind(tokens, *pos, &RuleTokenKind::And)
        invariant
            start == *old(pos),
            start < *pos <= tokens@.len(),
            and_end(toks(tokens@), start as int) == and_tail(toks(tokens@), *pos as int),
        decreases tokens@.len() - *pos,
    {
        *pos = *pos + 1;
        let rhs = cmp_expr(tokens, pos)?;
        lhs = binary(lhs, Operator::And, rhs);
    }
    Ok(lhs)
}

/// `primary (("==" | "!=") primary)?`
fn cmp_expr(tokens: &Vec<RuleToken>, pos: &mut usize) -> (r: Result<ExprOrValue, RuleError>)
    requires
        *old(pos) <= tokens@.len(),
    ensures
        r is Ok <==> cmp_end(toks(tokens@), *old(pos) as int) is Some,
        r is Ok ==> *final(pos) as int == cmp_end(toks(tokens@), *old(pos) as int)->0,
        *old(pos) <= *final(pos) <= tokens@.len(),
        r is Ok ==> *old(pos) < *final(pos),
    decreases tokens@.len() - *old(pos), 2int,
{
    let lhs = primary(tokens, pos)?;
    let n = tokens.len();
    let operator = if at_kind(tokens, *pos, &RuleTokenKind::Eq) {
        Operator::Eq
    } else if at_kind(tokens, *pos, &RuleTokenKind::NotEq) {
        Operator::NotEq
    } else {
        return Ok(lhs);
    };
    *pos = *pos + 1;
    let rhs = primary(tokens, pos)?;
    Ok(binary(lhs, operator, rhs))
}

/// `"(" expr ")"`, `ident ("." ident)? ("(" args? ")")?`, or a literal.
pub fn primary(tokens: &Vec<RuleToken>, pos: &mut usize) -> (r: Result<ExprOrValue, RuleError>)
    requires
        *old(pos) <= tokens@.len(),
    ensures
        r is Ok <==> primary_end(toks(tokens@), *old(pos) as int) is Some,
        r is Ok ==> *final(pos) as int == primary_end(toks(tokens@), *old(pos) as int)->0,
        *old(pos) <= *final(pos) <= tokens@.len(),
        r is Ok ==> *old(pos) < *final(pos),
        *old(pos) < tokens@.len() && (tokens@[*old(pos) as int]@.0 is LitInt || tokens@[*old(pos) as int]@.0 is LitStr)
            ==> (r matches Ok(ExprOrValue::Value(t)) && t@ == tokens@[*old(pos) as int]@ && *final(pos) == *old(pos) + 1),
        *old(pos) < tokens@.len() && tokens@[*old(pos) as int]@.0 is Ident && !(*old(pos) + 1 < tokens@.len()
            && (tokens@[*old(pos) + 1]@.0 is Dot || tokens@[*old(pos) + 1]@.0 is LParen))
            ==> (r matches Ok(ExprOrValue::Value(t)) && t@ == tokens@[*old(pos) as int]@ && *final(pos) == *old(pos) + 1),
        ({
            let p = *old(pos) as int;
            (p + 2 < tokens@.len() && tokens@[p]@.0 is Ident && tokens@[p + 1]@.0 is Dot && tokens@[p + 2]@.0 is Ident
                && !(p + 3 < tokens@.len() && tokens@[p + 3]@.0 is LParen)) ==> (r matches Ok(ExprOrValue::Expr(e))
                && e.operator == Operator::Dot && (*e.lhs matches ExprOrValue::Value(t) && t@ == tokens@[p]@)
                && (*e.rhs matches ExprOrValue::Value(u) && u@ == tokens@[p + 2]@))
        }),
        ({
            let p = *old(pos) as int;
            (p + 1 < tokens@.len() && tokens@[p]@.0 is Ident && tokens@[p + 1]@.0 is LParen) ==> (r matches Ok(v) ==> (
                v matches ExprOrValue::Expr(e) && e.operator == Operator::Call && (*e.lhs matches ExprOrValue::Value(t)
                && t@ == tokens@[p]@) && *e.rhs is Many))
        }),
        ({
            let p = *old(pos) as int;
            (p + 3 < tokens@.len() && tokens@[p]@.0 is Ident && tokens@[p + 1]@.0 is Dot && tokens@[p + 2]@.0 is Ident
                && tokens@[p + 3]@.0 is LParen) ==> (r matches Ok(v) ==> (v matches ExprOrValue::Expr(e)
                && e.operator == Operator::Call && (*e.lhs matches ExprOrValue::Expr(d) && d.operator == Operator::Dot
                && (*d.lhs matches ExprOrValue::Value(t) && t@ == tokens@[p]@)
                && (*d.rhs matches ExprOrValue::Value(u) && u@ == tokens@[p + 2]@)) && *e.rhs is Many))
        }),
        r matches Err(e) ==> (*old(pos) >= tokens@.len() || !(tokens@[*old(pos) as int]@.0 is LParen
            || tokens@[*old(pos) as int]@.0 is Ident || tokens@[*old(pos) as int]@.0 is LitInt
            || tokens@[*old(pos) as int]@.0 is LitStr)) ==> syntax_view(e) == Some(
            (
                SyntaxErrorSpec::UnexpectedToken(kind_text(token_at(toks(tokens@), *old(pos) as int).0)),
                token_at(toks(tokens@), *old(pos) as int).1,
            ),
        ),
    decreases tokens@.len() - *old(pos), 1int,
{
    if at_kind(tokens, *pos, &RuleTokenKind::LParen) {
        *pos = *pos + 1;
        let inner = expr(tokens, pos)?;
        swallow(tokens, pos, RuleTokenKind::RParen)?;
        return Ok(inner);
    }
    if at_kind(tokens, *pos, &RuleTokenKind::Ident(String::new())) {
        let val = ExprOrValue::Value(next_token(tokens, pos));
        let target = if at_kind(tokens, *pos, &RuleTokenKind::Dot) {
            *pos = *pos + 1;
            let field = expect(tokens, pos, &RuleTokenKind::Ident(String::new()), "string".to_owned())?;
            binary(val, Operator::Dot, ExprOrValue::Value(field))
        } else if at_kind(tokens, *pos, &RuleTokenKind::LParen) {
            val
        } else {
            return Ok(val);
        };
        if !at_kind(tokens, *pos, &RuleTokenKind::LParen) {
            return Ok(target);
        }
        *pos = *pos + 1;
        let mut args: Vec<ExprOrValue> = Vec::new();
        let start = *pos;
        while *pos < tokens.len() && !at_kind(tokens, *pos, &RuleTokenKind::RParen)
            invariant
                start <= *pos <= tokens@.len(),
                *old(pos) < start,
                *old(pos) < tokens@.len() && tokens@[*old(pos) as int]@.0 is Ident,
                *old(pos) + 1 < tokens@.len() && (tokens@[*old(pos) + 1]@.0 is Dot || tokens@[*old(pos) + 1]@.0 is LParen),
                primary_end(toks(tokens@), *old(pos) as int) == args_end(toks(tokens@), *pos as int),
            decreases tokens@.len() - *pos,
        {
            let arg = expr(tokens, pos)?;
            args.push(arg);
            if at_kind(tokens, *pos, &RuleTokenKind::Comma) {
                *pos = *pos + 1;
            }
        }
        swallow(tokens, pos, RuleTokenKind::RParen)?;
        return Ok(binary(target, Operator::Call, ExprOrValue::Many(args)));
    }
    if *pos < tokens.len() && tokens[*pos].kind.is_lit() {
        return Ok(ExprOrValue::Value(next_token(tokens, pos)));
    }
    Err(unexpected_error(tokens, *pos))
}

/// Where `expr ;` starting at `p` ends.
pub open spec fn base_end(ts: Seq<(TokenKindSpec, Position)>, p: int) -> Option<int>
    decreases ts.len() - p, 7int,
{
    match expr_end(ts, p) {
        Some(q) => if kind_at(ts, q) == Some(TokenKindSpec::Semicolon) {
            Some(q + 1)
        } else {
            None
        },
        None => None,
    }
}

/// Where `if expr { statements }` starting at `p` ends.
pub open spec fn if_end(ts: Seq<(TokenKindSpec, Position)>, p: int) -> Option<int>
    decreases ts.len() - p, 8int,
{
    if kind_at(ts, p) == Some(TokenKindSpec::If) {
        match expr_end(ts, p + 1) {
            Some(q) => if kind_at(ts, q) == Some(TokenKindSpec::LBrace) && p < q < ts.len() {
                match stmts_end(ts, q + 1, false) {
                    Some(r) => if kind_at(ts, r) == Some(TokenKindSpec::RBrace) {
                        Some(r + 1)
                    } else {
                        None
                    },
                    None => None,
                }
            } else {
                None
            },
            None => None,
        }
    } else {
        None
    }
}

/// Where the statement at `p` ends, and whether it is a `return`.
pub open spec fn stmt_end(ts: Seq<(TokenKindSpec, Position)>, p: int) -> Option<(int, bool)>
    decreases ts.len() - p, 9int,
{
    if p < 0 || p >= ts.len() {
        None
    } else if ts[p].0 is Ident {
        match base_end(ts, p) {
            Some(q) => Some((q, false)),
            None => None,
        }
    } else if ts[p].0 is Redirect {
        if redirect_shape(ts, p) {
            Some((p + 4, false))
        } else {
            None
        }
    } else if ts[p].0 is Return {
        if return_shape(ts, p) {
            Some((if ts[p + 2].0 is Semicolon { p + 3 } else { p + 4 }, true))
        } else {
            None
        }
    } else if ts[p].0 is If {
        match if_end(ts, p) {
            Some(q) => Some((q, false)),
            None => None,
        }
    } else {
        None
    }
}

/// Where the statements of a block starting at `p` end (at its closing
/// brace or the end of input); `after_return` tells that a `return` came
/// just before, after which no statement may follow.
pub open spec fn stmts_end(ts: Seq<(TokenKindSpec, Position)>, p: int, after_return: bool) -> Option<int>
    decreases ts.len() - p, 10int,
{
    if p < 0 || p >= ts.len() || ts[p].0 is RBrace {
        Some(p)
    } else {
        match stmt_end(ts, p) {
            Some((q, is_return)) => if !after_return && p < q <= ts.len() {
                stmts_end(ts, q, is_return)
            } else {
                None
            },
            None => None,
        }
    }
}

/// Where the rule `matches pattern { statements }` starting at `p` ends.
pub open spec fn rule_end(ts: Seq<(TokenKindSpec, Position)>, p: int) -> Option<int> {
    if kind_at(ts, p) == Some(TokenKindSpec::Matches) && (kind_at(ts, p + 1) matches Some(TokenKindSpec::LitStr(_)))
        && kind_at(ts, p + 2) == Some(TokenKindSpec::LBrace) && 0 <= p {
        match stmts_end(ts, p + 3, false) {
            Some(r) => if kind_at(ts, r) == Some(TokenKindSpec::RBrace) {
                Some(r + 1)
            } else {
                None
            },
            None => None,
        }
    } else {
        None
    }
}

/// The tokens from `p` on are a sequence of rules.
pub open spec fn rules_from(ts: Seq<(TokenKindSpec, Position)>, p: int) -> bool
    decreases ts.len() - p,
{
    if p < 0 || p >= ts.len() {
        true
    } else {
        match rule_end(ts, p) {
            Some(q) => if p < q {
                rules_from(ts, q)
            } else {
                false
            },
            None => false,
        }
    }
}

/// The name of a statement that starts with a token of kind `k`.
pub open spec fn stmt_name_of(k: TokenKindSpec) -> Seq<char> {
    match k {
        TokenKindSpec::Redirect => "redirect"@,
        TokenKindSpec::Return => "return"@,
        TokenKindSpec::If => "if"@,
        _ => "expr"@,
    }
}

/// The statement of a block (from `p`) that follows a `return`, if parsing
/// gets that far.
pub open spec fn stmts_error(ts: Seq<(TokenKindSpec, Position)>, p: int, after_return: bool) -> Option<int>
    decreases ts.len() - p,
{
    if p < 0 || p >= ts.len() || ts[p].0 is RBrace {
        None
    } else {
        match stmt_end(ts, p) {
            Some((q, is_return)) => if after_return {
                Some(p)
            } else if p < q <= ts.len() {
                stmts_error(ts, q, is_return)
            } else {
                None
            },
            None => None,
        }
    }
}

/// Where each statement of a block (from `p`) starts.
pub open spec fn stmt_starts(ts: Seq<(TokenKindSpec, Position)>, p: int) -> Seq<int>
    decreases ts.len() - p,
{
    if p < 0 || p >= ts.len() || ts[p].0 is RBrace {
        Seq::empty()
    } else {
        match stmt_end(ts, p) {
            Some((q, _)) => if p < q <= ts.len() {
                seq![p] + stmt_starts(ts, q)
            } else {
                Seq::empty()
            },
            None => Seq::empty(),
        }
    }
}

/// The statement parsed from the tokens at `p`: a redirect or return with
/// its code and text, an `if`, or an expression statement.
pub open spec fn stmt_matches(ts: Seq<(TokenKindSpec, Position)>, p: int, st: Statement) -> bool {
    match ts[p].0 {
        TokenKindSpec::Redirect => st.kind matches StatementKind::Redirect(c, l) && Some(c) == literal_status(ts[p + 1].0)
            && ts[p + 2].0 == TokenKindSpec::LitStr(l@),
        TokenKindSpec::Return => st.kind matches StatementKind::Return(c, b) && Some(c) == literal_status(ts[p + 1].0)
            && (ts[p + 2].0 is LitStr ==> (b matches Some(x) && ts[p + 2].0 == TokenKindSpec::LitStr(x@)))
            && (!(ts[p + 2].0 is LitStr) ==> b is None),
        TokenKindSpec::If => st.kind is If,
        _ => st.kind is Expr,
    }
}

/// The statements `ss` are those parsed at `starts`, one each.
pub open spec fn stmts_match(ts: Seq<(TokenKindSpec, Position)>, starts: Seq<int>, ss: Seq<Statement>) -> bool {
    ss.len() == starts.len() && forall|j: int| 0 <= j < ss.len() ==> #[trigger] stmt_matches(ts, starts[j], ss[j])
}

/// Where each rule of a file (from `p`) starts.
pub open spec fn rule_starts(ts: Seq<(TokenKindSpec, Position)>, p: int) -> Seq<int>
    decreases ts.len() - p,
{
    if p < 0 || p >= ts.len() {
        Seq::empty()
    } else {
        match rule_end(ts, p) {
            Some(q) => if p < q {
                seq![p] + rule_starts(ts, q)
            } else {
                Seq::empty()
            },
            None => Seq::empty(),
        }
    }
}

/// The rule parsed from the tokens at `p`: its pattern and statements.
pub open spec fn rule_matches(ts: Seq<(TokenKindSpec, Position)>, p: int, ru: Rule) -> bool {
    ts[p + 1].0 == TokenKindSpec::LitStr(ru.pattern@) && stmts_match(ts, stmt_starts(ts, p + 3), ru.statements@)
}

/// `expr ;`
pub fn base_statement(tokens: &Vec<RuleToken>, pos: &mut usize) -> (r: Result<Statement, RuleError>)
    requires
        *old(pos) <= tokens@.len(),
    ensures
        *old(pos) <= *final(pos) <= tokens@.len(),
        r is Ok <==> base_end(toks(tokens@), *old(pos) as int) is Some,
        r is Ok ==> *final(pos) as int == base_end(toks(tokens@), *old(pos) as int)->0,
        r matches Ok(s) ==> *old(pos) < *final(pos) && s.kind is Expr && tokens@[*final(pos) - 1]@.0 is Semicolon,
    decreases tokens@.len() - *old(pos), 7int,
{
    let expression = expr(tokens, pos)?;
    swallow(tokens, pos, RuleTokenKind::Semicolon)?;
    Ok(Statement { kind: StatementKind::Expr(expression) })
}

/// `if expr { statements }`
pub fn if_statement(tokens: &Vec<RuleToken>, pos: &mut usize) -> (r: Result<Statement, RuleError>)
    requires
        *old(pos) <= tokens@.len(),
    ensures
        *old(pos) <= *final(pos) <= tokens@.len(),
        r is Ok <==> if_end(toks(tokens@), *old(pos) as int) is Some,
        r is Ok ==> *final(pos) as int == if_end(toks(tokens@), *old(pos) as int)->0,
        r matches Ok(s) ==> *old(pos) < *final(pos) && tokens@[*old(pos) as int]@.0 is If
            && tokens@[*final(pos) - 1]@.0 is RBrace && (s.kind matches StatementKind::If(_, body)
            && return_is_last(body@)),
    decreases tokens@.len() - *old(pos), 8int,
{
    swallow(tokens, pos, RuleTokenKind::If)?;
    let condition = expr(tokens, pos)?;
    swallow(tokens, pos, RuleTokenKind::LBrace)?;
    let statements = rule_statements(tokens, pos)?;
    swallow(tokens, pos, RuleTokenKind::RBrace)?;
    Ok(Statement { kind: StatementKind::If(condition, statements) })
}

/// One statement, chosen by its first token.
fn parse_statement(tokens: &Vec<RuleToken>, pos: &mut usize) -> (r: Result<Statement, RuleError>)
    requires
        *old(pos) < tokens@.len(),
        !(tokens@[*old(pos) as int]@.0 is RBrace),
    ensures
        *old(pos) <= *final(pos) <= tokens@.len(),
        r is Ok <==> stmt_end(toks(tokens@), *old(pos) as int) is Some,
        r is Ok ==> *old(pos) < *final(pos),
        r matches Ok(st) ==> stmt_end(toks(tokens@), *old(pos) as int) == Some((*final(pos) as int, st.kind is Return))
            && stmt_matches(toks(tokens@), *old(pos) as int, st),
    decreases tokens@.len() - *old(pos), 9int,
{
    let here = *pos;
    if at_kind(tokens, here, &RuleTokenKind::Ident(String::new())) {
        base_statement(tokens, pos)
    } else if at_kind(tokens, here, &RuleTokenKind::Redirect) {
        redirect_statement(tokens, pos)
    } else if at_kind(tokens, here, &RuleTokenKind::Return) {
        return_statement(tokens, pos)
    } else if at_kind(tokens, here, &RuleTokenKind::If) {
        if_statement(tokens, pos)
    } else {
        Err(unexpected_error(tokens, here))
    }
}

/// The statements of a block, up to its closing brace (not read). A
/// statement after a `return` is a semantic error.
pub fn rule_statements(tokens: &Vec<RuleToken>, pos: &mut usize) -> (r: Result<Vec<Statement>, RuleError>)
    requires
        *old(pos) <= tokens@.len(),
    ensures
        *old(pos) <= *final(pos) <= tokens@.len(),
        r is Ok <==> stmts_end(toks(tokens@), *old(pos) as int, false) is Some,
        r matches Ok(ss) ==> stmts_match(toks(tokens@), stmt_starts(toks(tokens@), *old(pos) as int), ss@),
        stmts_error(toks(tokens@), *old(pos) as int, false) matches Some(k) ==> (r matches Err(e)
            && e.kind matches RuleErrorKind::Semantic(SemanticErrorKind::UnexpectedStatement(n))
            && n@ == stmt_name_of(tokens@[k]@.0) && e.position == tokens@[k].position),
        r is Ok ==> *final(pos) as int == stmts_end(toks(tokens@), *old(pos) as int, false)->0,
        r matches Ok(ss) ==> return_is_last(ss@) && (*final(pos) == tokens@.len() || tokens@[*final(pos) as int]@.0 is RBrace),
    decreases tokens@.len() - *old(pos), 10int,
{
    let mut statements: Vec<Statement> = Vec::new();
    let start = *pos;
    let ghost mut starts: Seq<int> = Seq::empty();
    assert(starts + stmt_starts(toks(tokens@), start as int) =~= stmt_starts(toks(tokens@), start as int));
    while *pos < tokens.len() && !at_kind(tokens, *pos, &RuleTokenKind::RBrace)
        invariant
            *old(pos) == start,
            start <= *pos <= tokens@.len(),
            return_is_last(statements@),
            stmts_error(toks(tokens@), start as int, false) == stmts_error(
                toks(tokens@),
                *pos as int,
                statements@.len() > 0 && statements@.last().kind is Return,
            ),
            stmt_starts(toks(tokens@), start as int) == starts + stmt_starts(toks(tokens@), *pos as int),
            stmts_match(toks(tokens@), starts, statements@),
            stmts_end(toks(tokens@), start as int, false) == stmts_end(
                toks(tokens@),
                *pos as int,
                statements@.len() > 0 && statements@.last().kind is Return,
            ),
        decreases tokens@.len() - *pos,
    {
        let here = *pos;
        let position = tokens[here].position;
        let statement = parse_statement(tokens, pos)?;
        if statements.len() > 0 && matches!(statements[statements.len() - 1].kind, StatementKind::Return(_, _)) {
            let name = statement.kind.name().to_owned();
            return Err(RuleError::semantic(SemanticErrorKind::UnexpectedStatement(name), position));
        }
        let ghost before = statements@;
        proof {
            assert(stmt_matches(toks(tokens@), here as int, statement));
            assert(toks(tokens@)[here as int] == tokens@[here as int]@);
            assert(!(toks(tokens@)[here as int].0 is RBrace));
            assert(stmt_starts(toks(tokens@), here as int) == seq![here as int] + stmt_starts(toks(tokens@), *pos as int));
            assert(starts + (seq![here as int] + stmt_starts(toks(tokens@), *pos as int))
                =~= starts.push(here as int) + stmt_starts(toks(tokens@), *pos as int));
        }
        statements.push(statement);
        proof {
            let prev_starts = starts;
            starts = starts.push(here as int);
            assert forall|j: int| 0 <= j < statements@.len() implies #[trigger] stmt_matches(toks(tokens@), starts[j], statements@[j]) by {
                if j < before.len() {
                    assert(statements@[j] == before[j]);
                    assert(starts[j] == prev_starts[j]);
                }
            }
        }
        assert(statements@ == before.push(statement));
        assert(return_is_last(statements@)) by {
            assert forall|i: int| 0 <= i < statements@.len() - 1 implies !((#[trigger] statements@[i]).kind is Return) by {
                if i < before.len() - 1 {
                    assert(statements@[i] == before[i]);
                } else {
                    assert(statements@[i] == before[i]);
                }
            }
        }
    }
    assert(starts + Seq::<int>::empty() =~= starts);
    Ok(statements)
}

/// `matches pattern { statements }`
pub fn rule(tokens: &Vec<RuleToken>, pos: &mut usize) -> (r: Result<Rule, RuleError>)
    requires
        *old(pos) <= tokens@.len(),
    ensures
        *old(pos) <= *final(pos) <= tokens@.len(),
        r is Ok <==> rule_end(toks(tokens@), *old(pos) as int) is Some,
        !(*old(pos) < tokens@.len() && tokens@[*old(pos) as int]@.0 is Matches) ==> (r matches Err(e) && syntax_view(e) == Some(
            (
                SyntaxErrorSpec::ExpectedOther("matches"@, kind_text(token_at(toks(tokens@), *old(pos) as int).0)),
                token_at(toks(tokens@), *old(pos) as int).1,
            ),
        )),
        r is Ok ==> *final(pos) as int == rule_end(toks(tokens@), *old(pos) as int)->0,
        r matches Ok(ru) ==> *old(pos) + 3 < *final(pos) && tokens@[*old(pos) as int]@.0 is Matches
            && tokens@[*old(pos) + 1]@.0 == TokenKindSpec::LitStr(ru.pattern@)
            && tokens@[*old(pos) + 2]@.0 is LBrace && tokens@[*final(pos) - 1]@.0 is RBrace
            && return_is_last(ru.statements@),
        r matches Ok(ru) ==> rule_matches(toks(tokens@), *old(pos) as int, ru),
{
    swallow(tokens, pos, RuleTokenKind::Matches)?;
    let pattern = expect(tokens, pos, &RuleTokenKind::LitStr(String::new()), "string".to_owned())?;
    let pattern = match pattern.kind {
        RuleTokenKind::LitStr(p) => p,
        _ => return Err(expected_error(tokens, *pos, "string".to_owned())),
    };
    swallow(tokens, pos, RuleTokenKind::LBrace)?;
    let statements = rule_statements(tokens, pos)?;
    swallow(tokens, pos, RuleTokenKind::RBrace)?;
    Ok(Rule { pattern, statements })
}

/// Parses every rule of a file; all tokens must belong to some rule.
pub fn file(tokens: Vec<RuleToken>) -> (r: Result<Vec<Rule>, RuleError>)
    ensures
        r is Ok <==> rules_from(toks(tokens@), 0),
        r matches Ok(rules) ==> rules@.len() == rule_starts(toks(tokens@), 0).len() && forall|k: int|
            0 <= k < rules@.len() ==> #[trigger] rule_matches(toks(tokens@), rule_starts(toks(tokens@), 0)[k], rules@[k]),
        r matches Ok(rules) ==> (tokens@.len() == 0 <==> rules@.len() == 0) && forall|i: int|
            0 <= i < rules@.len() ==> return_is_last((#[trigger] rules@[i]).statements@),
{
    let mut rules: Vec<Rule> = Vec::new();
    let mut pos: usize = 0;
    let ghost mut found: Seq<int> = Seq::empty();
    assert(found + rule_starts(toks(tokens@), 0) =~= rule_starts(toks(tokens@), 0));
    while pos < tokens.len()
        invariant
            pos <= tokens@.len(),
            pos == 0 <==> rules@.len() == 0,
            rules_from(toks(tokens@), 0) == rules_from(toks(tokens@), pos as int),
            rule_starts(toks(tokens@), 0) == found + rule_starts(toks(tokens@), pos as int),
            found.len() == rules@.len(),
            forall|k: int| 0 <= k < rules@.len() ==> #[trigger] rule_matches(toks(tokens@), found[k], rules@[k]),
            forall|i: int| 0 <= i < rules@.len() ==> return_is_last((#[trigger] rules@[i]).statements@),
        decreases tokens@.len() - pos,
    {
        let here = pos;
        let ru = rule(&tokens, &mut pos)?;
        proof {
            assert(found + (seq![here as int] + rule_starts(toks(tokens@), pos as int))
                =~= found.push(here as int) + rule_starts(toks(tokens@), pos as int));
        }
        let ghost prev_rules = rules@;
        rules.push(ru);
        proof {
            let prev = found;
            found = found.push(here as int);
            assert forall|k: int| 0 <= k < rules@.len() implies #[trigger] rule_matches(toks(tokens@), found[k], rules@[k]) by {
                if k < prev_rules.len() {
                    assert(rules@[k] == prev_rules[k]);
                    assert(found[k] == prev[k]);
                }
            }
        }
    }
    Ok(rules)
}

} // verus!
