use vstd::prelude::*;
use crate::header::{add_header, content_length_name};
use crate::request::Request;
use crate::response::{Response, ResponseModel};
use crate::response_status_code::ResponseStatusCode;
use crate::rules::error::{RuleError, RuntimeErrorKind};
use crate::request_method::RequestMethod;
use crate::rules::expr::{eval_spec, Val};
use crate::rules::object::ObjectKind;
use crate::rules::grammar::{Statement, StatementKind};
use crate::rules::object::{Callable, Object};
use crate::rules::scope::RuleScope;
use crate::rules::value::Type;
use crate::text::{contains, decimal_bytes, utf8};

verus! {

/// Whether the rest of the rules still run.
#[derive(Debug, Clone, Copy, PartialEq, Eq, Structural)]
pub enum RuleEvaluationResult {
    Continue,
    Finish,
}

/// A rule: a URL pattern and the statements run for matching requests.
#[derive(Debug)]
pub struct Rule {
    pub pattern: String,
    pub statements: Vec<Statement>,
}

/// `redirect code "location"`: the status and a `Location` header.
pub open spec fn redirect_effect(m: ResponseModel, code: ResponseStatusCode, location: Seq<u8>) -> ResponseModel {
    (m.0, code, add_header(m.2, utf8("Location"@), location), m.3)
}

/// `return code "body"?`: the status and, with a body, the body and its
/// `Content-Length`.
pub open spec fn return_effect(m: ResponseModel, code: ResponseStatusCode, body: Option<Seq<u8>>) -> ResponseModel {
    match body {
        None => (m.0, code, m.2, m.3),
        Some(b) => (m.0, code, add_header(m.2, content_length_name(), decimal_bytes(b.len())), b),
    }
}

broadcast use vstd::std_specs::vec::axiom_vec_decreases_to_view;

/// Running statements in order: whether the rule chain goes on or
/// finishes, or `None` for a runtime error, and the response after them.
/// `if` runs its block when its condition is true and passes a finish on;
/// an expression statement is evaluated for its effect.
pub open spec fn exec_stmts(ss: Seq<Statement>, vars: Seq<(Seq<char>, Type)>, meth: RequestMethod, m: ResponseModel) -> (Option<RuleEvaluationResult>, ResponseModel)
    decreases ss,
{
    if ss.len() == 0 {
        (Some(RuleEvaluationResult::Continue), m)
    } else {
        let rest = ss.subrange(1, ss.len() as int);
        match ss[0].kind {
            StatementKind::Redirect(c, l) => (Some(RuleEvaluationResult::Finish), redirect_effect(m, c, utf8(l@))),
            StatementKind::Return(c, b) => (
                Some(RuleEvaluationResult::Finish),
                return_effect(
                    m,
                    c,
                    match b {
                        Some(s) => Some(utf8(s@)),
                        None => None,
                    },
                ),
            ),
            StatementKind::If(cond, inner) => {
                let (v, m1) = eval_spec(cond, vars, meth, m);
                match v {
                    Some(Val::Bool(true)) => {
                        let (r, m2) = exec_stmts(inner@, vars, meth, m1);
                        match r {
                            Some(RuleEvaluationResult::Finish) => (Some(RuleEvaluationResult::Finish), m2),
                            Some(RuleEvaluationResult::Continue) => exec_stmts(rest, vars, meth, m2),
                            None => (None, m2),
                        }
                    },
                    Some(Val::Bool(false)) => exec_stmts(rest, vars, meth, m1),
                    _ => (None, m1),
                }
            },
            StatementKind::Expr(e) => {
                let (v, m1) = eval_spec(e, vars, meth, m);
                match v {
                    Some(_) => exec_stmts(rest, vars, meth, m1),
                    None => (None, m1),
                }
            },
        }
    }
}

/// The variables every rule sees: the request, `log`, and the response.
pub open spec fn rule_vars() -> Seq<(Seq<char>, Type)> {
    seq![
        ("request"@, Type::Object(Object { kind: ObjectKind::Request })),
        ("log"@, Type::Function(Callable::Log)),
        ("response"@, Type::Object(Object { kind: ObjectKind::Response })),
    ]
}

impl Rule {
    /// A rule applies when its pattern occurs in the URL.
    pub fn matches(&self, url: &str) -> (r: bool)
        ensures
            r == contains(utf8(url@), utf8(self.pattern@)),
    {
        crate::text::contains_bytes(url.as_bytes(), self.pattern.as_str().as_bytes())
    }

    /// Runs the rule's statements against the request and response, with
    /// `request`, `response` and `log` in scope.
    pub fn evaluate(&self, request: &Request, response: &mut Response) -> (r: Result<RuleEvaluationResult, RuleError>)
        ensures
            r is Ok <==> exec_stmts(self.statements@, rule_vars(), request.method, old(response)@).0 is Some,
            r matches Ok(x) ==> exec_stmts(self.statements@, rule_vars(), request.method, old(response)@).0 == Some(x),
            final(response)@ == exec_stmts(self.statements@, rule_vars(), request.method, old(response)@).1,
    {
        let mut scope = RuleScope::new();
        scope.update_var("request", Type::Object(Object::request()));
        scope.update_var("log", Type::Function(Callable::Log));
        scope.update_var("response", Type::Object(Object::response()));
        assert(scope@ =~= rule_vars());
        Self::evaluate_statements(&self.statements, &scope, request, response)
    }

    /// Runs statements in order until one finishes the rule chain.
    pub fn evaluate_statements(statements: &Vec<Statement>, scope: &RuleScope, request: &Request, response: &mut Response) -> (r: Result<RuleEvaluationResult, RuleError>)
        ensures
            r is Ok <==> exec_stmts(statements@, scope@, request.method, old(response)@).0 is Some,
            r matches Ok(x) ==> exec_stmts(statements@, scope@, request.method, old(response)@).0 == Some(x),
            final(response)@ == exec_stmts(statements@, scope@, request.method, old(response)@).1,
        decreases statements,
    {
        let mut i: usize = 0;
        assert(statements@.subrange(0, statements@.len() as int) =~= statements@);
        while i < statements.len()
            invariant
                0 <= i <= statements@.len(),
                exec_stmts(statements@, scope@, request.method, old(response)@) == exec_stmts(
                    statements@.subrange(i as int, statements@.len() as int),
                    scope@,
                    request.method,
                    response@,
                ),
            decreases statements@.len() - i,
        {
            let ghost sub = statements@.subrange(i as int, statements@.len() as int);
            assert(sub[0] == statements@[i as int]);
            assert(sub.subrange(1, sub.len() as int) =~= statements@.subrange(i + 1, statements@.len() as int));
            let statement = &statements[i];
            match &statement.kind {
                StatementKind::Redirect(code, location) => {
                    response.set_status_code(*code);
                    response.set_header("Location", location.as_str());
                    return Ok(RuleEvaluationResult::Finish);
                },
                StatementKind::Return(code, body) => {
                    response.set_status_code(*code);
                    if let Some(b) = body {
                        let mut bytes: Vec<u8> = Vec::new();
                        crate::bytes::push_all(&mut bytes, b.as_str().as_bytes());
                        let len = crate::text::usize_to_string(bytes.len());
                        response.set_body(bytes);
                        response.set_header("Content-Length", len.as_str());
                        proof { crate::request::lemma_content_length_literal(); }
                    }
                    return Ok(RuleEvaluationResult::Finish);
                },
                StatementKind::If(condition, inner) => {
                    let value = condition.eval(scope, request, response)?;
                    let truth = match value.t() {
                        Type::Bool(b) => *b,
                        other => {
                            return Err(
                                RuleError::runtime(
                                    RuntimeErrorKind::IncorrectType("bool".to_owned(), other.type_string()),
                                    *value.position(),
                                ),
                            );
                        },
                    };
                    if truth {
                        proof {
                            vstd::std_specs::vec::axiom_vec_index_decreases(*statements, i as int);
                            assert(decreases_to!(statements@[i as int] => statements@[i as int].kind));
                            assert(decreases_to!(statements@[i as int].kind => statements@[i as int].kind->If_1));
                        }
                        let inner_result = Self::evaluate_statements(inner, scope, request, response)?;
                        if inner_result == RuleEvaluationResult::Finish {
                            return Ok(RuleEvaluationResult::Finish);
                        }
                    }
                },
                StatementKind::Expr(expression) => {
                    expression.eval(scope, request, response)?;
                },
            }
            i = i + 1;
        }
        Ok(RuleEvaluationResult::Continue)
    }
}

} // verus!
