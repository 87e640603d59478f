use vstd::prelude::*;
use crate::rules::lexer::Position;
use crate::text::{decimal_bytes, lemma_utf8_concat, utf8};

verus! {

/// Errors found while reading a rules file.
#[derive(Debug, Clone)]
pub enum SyntaxErrorKind {
    UnexpectedToken(String),
    ExpectedOther(String, String),
    UnterminatedString,
    IncorrectResponseCode(String),
}

/// Statements that are well formed but not allowed where they stand.
#[derive(Debug, Clone)]
pub enum SemanticErrorKind {
    UnexpectedStatement(String),
}

/// Errors raised while a rule runs.
#[derive(Debug, Clone)]
pub enum RuntimeErrorKind {
    IncorrectType(String, String),
    UnresolvedReference(String),
    MemberNotDefined(String, String),
    TooFewArguments(usize, usize),
}

#[derive(Debug, Clone)]
pub enum RuleErrorKind {
    Syntax(SyntaxErrorKind),
    Semantic(SemanticErrorKind),
    Runtime(RuntimeErrorKind),
}

/// An error of the rule language with the source position it refers to.
#[derive(Debug, Clone)]
pub struct RuleError {
    pub kind: RuleErrorKind,
    pub position: Position,
}

/// A syntax error as data.
pub ghost enum SyntaxErrorSpec {
    UnexpectedToken(Seq<char>),
    ExpectedOther(Seq<char>, Seq<char>),
    UnterminatedString,
    IncorrectResponseCode(Seq<char>),
}

impl View for SyntaxErrorKind {
    type V = SyntaxErrorSpec;

    open spec fn view(&self) -> SyntaxErrorSpec {
        match self {
            SyntaxErrorKind::UnexpectedToken(s) => SyntaxErrorSpec::UnexpectedToken(s@),
            SyntaxErrorKind::ExpectedOther(a, b) => SyntaxErrorSpec::ExpectedOther(a@, b@),
            SyntaxErrorKind::UnterminatedString => SyntaxErrorSpec::UnterminatedString,
            SyntaxErrorKind::IncorrectResponseCode(s) => SyntaxErrorSpec::IncorrectResponseCode(s@),
        }
    }
}

/// A syntax error with its position, or `None` for other errors.
pub open spec fn syntax_view(e: RuleError) -> Option<(SyntaxErrorSpec, Position)> {
    match e.kind {
        RuleErrorKind::Syntax(k) => Some((k@, e.position)),
        _ => None,
    }
}

/// Appends `b` to `a`; the bytes follow each other.
fn push_str(a: &mut String, b: &str)
    ensures
        final(a)@ == old(a)@ + b@,
        utf8(final(a)@) == utf8(old(a)@) + utf8(b@),
{
    proof { lemma_utf8_concat(a@, b@); }
    a.append(b);
}

/// The text of a syntax error.
pub open spec fn syntax_message(k: SyntaxErrorKind) -> Seq<u8> {
    match k {
        SyntaxErrorKind::UnexpectedToken(s) => utf8("Unexpected token \""@) + utf8(s@) + utf8("\""@),
        SyntaxErrorKind::ExpectedOther(e, g) => utf8("Expected \""@) + utf8(e@) + utf8("\", got \""@) + utf8(g@) + utf8("\""@),
        SyntaxErrorKind::UnterminatedString => utf8("Unterminated string literal"@),
        SyntaxErrorKind::IncorrectResponseCode(s) => utf8("Incorrect response code \""@) + utf8(s@) + utf8("\""@),
    }
}

/// The text of a runtime error.
pub open spec fn runtime_message(k: RuntimeErrorKind) -> Seq<u8> {
    match k {
        RuntimeErrorKind::IncorrectType(e, g) => utf8("Incorrect type, expected "@) + utf8(e@) + utf8(", got "@) + utf8(g@),
        RuntimeErrorKind::UnresolvedReference(s) => utf8("Unresolved reference \""@) + utf8(s@) + utf8("\""@),
        RuntimeErrorKind::MemberNotDefined(m, o) => utf8("Member \""@) + utf8(m@) + utf8("\" is not defined on \""@) + utf8(o@) + utf8("\""@),
        RuntimeErrorKind::TooFewArguments(e, g) => utf8("Function takes "@) + decimal_bytes(e as nat) + utf8(" arguments, but "@) + decimal_bytes(g as nat) + utf8(" arguments were passed"@),
    }
}

/// The text of an error's kind.
pub open spec fn kind_message(k: RuleErrorKind) -> Seq<u8> {
    match k {
        RuleErrorKind::Syntax(s) => utf8("Syntax error: "@) + syntax_message(s),
        RuleErrorKind::Semantic(SemanticErrorKind::UnexpectedStatement(s)) => utf8("Semantic error: "@) + utf8("Unexpected \""@) + utf8(s@) + utf8("\" statement"@),
        RuleErrorKind::Runtime(r) => utf8("Runtime error: "@) + runtime_message(r),
    }
}

/// The text of an error: its kind, then ` at line:column`.
pub open spec fn error_message(e: RuleError) -> Seq<u8> {
    kind_message(e.kind) + utf8(" at "@) + decimal_bytes(e.position.line as nat) + utf8(":"@) + decimal_bytes(e.position.column as nat)
}

fn empty_string() -> (r: String)
    ensures
        utf8(r@) == Seq::<u8>::empty(),
{
    let r = String::new();
    assert(r@ =~= Seq::<char>::empty());
    assert(utf8(r@) =~= Seq::<u8>::empty());
    r
}

fn syntax_text(k: &SyntaxErrorKind) -> (r: String)
    ensures
        utf8(r@) == syntax_message(*k),
{
    let mut r = empty_string();
    match k {
        SyntaxErrorKind::UnexpectedToken(t) => {
            push_str(&mut r, "Unexpected token \"");
            push_str(&mut r, t.as_str());
            push_str(&mut r, "\"");
        },
        SyntaxErrorKind::ExpectedOther(e, g) => {
            push_str(&mut r, "Expected \"");
            push_str(&mut r, e.as_str());
            push_str(&mut r, "\", got \"");
            push_str(&mut r, g.as_str());
            push_str(&mut r, "\"");
        },
        SyntaxErrorKind::UnterminatedString => {
            push_str(&mut r, "Unterminated string literal");
        },
        SyntaxErrorKind::IncorrectResponseCode(t) => {
            push_str(&mut r, "Incorrect response code \"");
            push_str(&mut r, t.as_str());
            push_str(&mut r, "\"");
        },
    }
    r
}

fn runtime_text(k: &RuntimeErrorKind) -> (r: String)
    ensures
        utf8(r@) == runtime_message(*k),
{
    let mut r = empty_string();
    match k {
        RuntimeErrorKind::IncorrectType(e, g) => {
            push_str(&mut r, "Incorrect type, expected ");
            push_str(&mut r, e.as_str());
            push_str(&mut r, ", got ");
            push_str(&mut r, g.as_str());
        },
        RuntimeErrorKind::UnresolvedReference(t) => {
            push_str(&mut r, "Unresolved reference \"");
            push_str(&mut r, t.as_str());
            push_str(&mut r, "\"");
        },
        RuntimeErrorKind::MemberNotDefined(m, o) => {
            push_str(&mut r, "Member \"");
            push_str(&mut r, m.as_str());
            push_str(&mut r, "\" is not defined on \"");
            push_str(&mut r, o.as_str());
            push_str(&mut r, "\"");
        },
        RuntimeErrorKind::TooFewArguments(e, g) => {
            push_str(&mut r, "Function takes ");
            let es = crate::text::usize_to_string(*e);
            push_str(&mut r, es.as_str());
            push_str(&mut r, " arguments, but ");
            let gs = crate::text::usize_to_string(*g);
            push_str(&mut r, gs.as_str());
            push_str(&mut r, " arguments were passed");
        },
    }
    r
}

fn kind_text(k: &RuleErrorKind) -> (r: String)
    ensures
        utf8(r@) == kind_message(*k),
{
    let mut r = empty_string();
    match k {
        RuleErrorKind::Syntax(sk) => {
            push_str(&mut r, "Syntax error: ");
            let t = syntax_text(sk);
            push_str(&mut r, t.as_str());
        },
        RuleErrorKind::Semantic(SemanticErrorKind::UnexpectedStatement(t)) => {
            push_str(&mut r, "Semantic error: ");
            push_str(&mut r, "Unexpected \"");
            push_str(&mut r, t.as_str());
            push_str(&mut r, "\" statement");
        },
        RuleErrorKind::Runtime(rk) => {
            push_str(&mut r, "Runtime error: ");
            let t = runtime_text(rk);
            push_str(&mut r, t.as_str());
        },
    }
    r
}

impl RuleError {
    /// The error as text, e.g. `Syntax error: Unterminated string literal at 3:14`.
    pub fn message(&self) -> (r: String)
        ensures
            utf8(r@) == error_message(*self),
    {
        let mut r = kind_text(&self.kind);
        push_str(&mut r, " at ");
        let l = crate::text::usize_to_string(self.position.line as usize);
        push_str(&mut r, l.as_str());
        push_str(&mut r, ":");
        let c = crate::text::usize_to_string(self.position.column as usize);
        push_str(&mut r, c.as_str());
        r
    }

    pub fn new(kind: RuleErrorKind, position: Position) -> (r: Self)
        ensures
            r.kind == kind,
            r.position == position,
    {
        RuleError { kind, position }
    }

    pub fn syntax(kind: SyntaxErrorKind, position: Position) -> (r: Self)
        ensures
            r.kind == RuleErrorKind::Syntax(kind),
            r.position == position,
    {
        RuleError { kind: RuleErrorKind::Syntax(kind), position }
    }

    pub fn semantic(kind: SemanticErrorKind, position: Position) -> (r: Self)
        ensures
            r.kind == RuleErrorKind::Semantic(kind),
            r.position == position,
    {
        RuleError { kind: RuleErrorKind::Semantic(kind), position }
    }

    pub fn runtime(kind: RuntimeErrorKind, position: Position) -> (r: Self)
        ensures
            r.kind == RuleErrorKind::Runtime(kind),
            r.position == position,
    {
        RuleError { kind: RuleErrorKind::Runtime(kind), position }
    }

    pub fn kind_owned(self) -> (r: RuleErrorKind)
        ensures
            r == self.kind,
    {
        self.kind
    }

    pub fn position(&self) -> (r: &Position)
        ensures
            *r == self.position,
    {
        &self.position
    }
}

/// The first index at or after `i` that holds `c`.
pub open spec fn find_char(cs: Seq<char>, c: char, i: int) -> Option<int>
    decreases cs.len() - i,
{
    if i < 0 || i >= cs.len() {
        None
    } else if cs[i] == c {
        Some(i)
    } else {
        find_char(cs, c, i + 1)
    }
}

/// Where line `n` (counted from 1) starts, if the text has that line.
pub open spec fn line_start(cs: Seq<char>, n: int) -> Option<int>
    decreases n,
{
    if n <= 0 {
        None
    } else if n == 1 {
        Some(0)
    } else {
        match line_start(cs, n - 1) {
            Some(s) => match find_char(cs, '\n', s) {
                Some(k) => Some(k + 1),
                None => None,
            },
            None => None,
        }
    }
}

/// Line `n` of a text without its line break (a CR before the LF is
/// dropped too); empty when there is no such line.
pub open spec fn nth_line(cs: Seq<char>, n: int) -> Seq<char> {
    match line_start(cs, n) {
        Some(s) => {
            let e = match find_char(cs, '\n', s) {
                Some(k) => k,
                None => cs.len() as int,
            };
            if s < e && cs[e - 1] == '\r' {
                cs.subrange(s, e - 1)
            } else if s <= e {
                cs.subrange(s, e)
            } else {
                Seq::empty()
            }
        },
        None => Seq::empty(),
    }
}

/// `n` spaces.
pub open spec fn spaces(n: nat) -> Seq<u8> {
    Seq::new(n, |i: int| 32u8)
}

fn find_char_exec(cs: &Vec<char>, c: char, i: usize) -> (r: Option<usize>)
    ensures
        r matches Some(k) ==> find_char(cs@, c, i as int) == Some(k as int) && i <= k < cs@.len(),
        r is None ==> find_char(cs@, c, i as int) is None,
{
    let mut k = i;
    while k < cs.len()
        invariant
            i <= k,
            find_char(cs@, c, i as int) == find_char(cs@, c, k as int),
        decreases cs@.len() - k,
    {
        if cs[k] == c {
            return Some(k);
        }
        k = k + 1;
    }
    None
}

fn line_text(file_contents: &str, n: u32) -> (r: String)
    ensures
        r@ == nth_line(file_contents@, n as int),
{
    let cs = crate::rules::lexer::chars_of(file_contents);
    if n == 0 {
        return String::new();
    }
    let mut start: usize = 0;
    let mut k: u32 = 1;
    while k < n
        invariant
            1 <= k <= n,
            cs@ == file_contents@,
            line_start(cs@, k as int) == Some(start as int),
            start <= cs@.len(),
        decreases n - k,
    {
        match find_char_exec(&cs, '\n', start) {
            Some(i) => {
                start = i + 1;
            },
            None => {
                proof {
                    let mut j = k + 1;
                    assert(line_start(cs@, j as int) is None);
                    lemma_no_line_after(cs@, j as int, n as int);
                }
                return String::new();
            },
        }
        k = k + 1;
    }
    let end = match find_char_exec(&cs, '\n', start) {
        Some(i) => i,
        None => cs.len(),
    };
    if start < end && cs[end - 1] == '\r' {
        crate::rules::lexer::text_between(file_contents, start, end - 1)
    } else {
        crate::rules::lexer::text_between(file_contents, start, end)
    }
}

proof fn lemma_no_line_after(cs: Seq<char>, j: int, n: int)
    requires
        2 <= j <= n,
        line_start(cs, j) is None,
    ensures
        line_start(cs, n) is None,
    decreases n - j,
{
    if j < n {
        lemma_no_line_after(cs, j + 1, n);
    }
}

/// How far the caret is indented: past `line | `, then to the column.
pub open spec fn caret_indent(p: Position) -> nat {
    let digits = (decimal_bytes(p.line as nat).len() as usize) as nat;
    if p.column == 0 {
        digits + 2
    } else {
        (digits + 3 + p.column - 1) as nat
    }
}

/// Appends `n` spaces.
fn push_spaces(r: &mut String, n: usize)
    ensures
        utf8(final(r)@) == utf8(old(r)@) + spaces(n as nat),
{
    let ghost before = utf8(r@);
    let mut i: usize = 0;
    assert(before + spaces(0) =~= before);
    while i < n
        invariant
            0 <= i <= n,
            utf8(r@) == before + spaces(i as nat),
        decreases n - i,
    {
        push_str(r, " ");
        proof {
            reveal_strlit(" ");
            crate::text::lemma_ascii_utf8(" "@, seq![32u8]);
            assert(before + spaces(i as nat) + seq![32u8] =~= before + spaces(i as nat + 1));
        }
        i = i + 1;
    }
}

/// An error shown in its file: the message, then the line it points into
/// after `line | `, then a caret under the column.
pub fn format_error_in_file(err: RuleError, file_contents: &str) -> (r: String)
    ensures
        utf8(r@) == error_message(err) + utf8("\n"@) + decimal_bytes(err.position.line as nat) + utf8(" | "@)
            + utf8(nth_line(file_contents@, err.position.line as int)) + utf8("\n"@)
            + spaces(caret_indent(err.position)) + utf8("^"@),
{
    let mut r = err.message();
    push_str(&mut r, "\n");
    let l = crate::text::usize_to_string(err.position.line as usize);
    push_str(&mut r, l.as_str());
    push_str(&mut r, " | ");
    let line = line_text(file_contents, err.position.line);
    push_str(&mut r, line.as_str());
    push_str(&mut r, "\n");
    let ghost before = utf8(r@);
    let dl = l.as_str().len();
    push_spaces(&mut r, dl);
    if err.position.column == 0 {
        push_spaces(&mut r, 2);
    } else {
        push_spaces(&mut r, 3);
        push_spaces(&mut r, err.position.column as usize - 1);
    }
    assert(dl as nat == (decimal_bytes(err.position.line as nat).len() as usize) as nat);
    assert(utf8(r@) =~= before + spaces(caret_indent(err.position)));
    push_str(&mut r, "^");
    r
}

} // verus!
