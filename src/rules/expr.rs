use vstd::prelude::*;
use crate::header::{add_header, names_distinct};
use crate::request::Request;
use crate::request_method::{method_text, RequestMethod};
use crate::response::{Response, ResponseModel};
use crate::rules::error::{RuleError, RuleErrorKind, RuntimeErrorKind};
use crate::rules::lexer::{Position, RuleToken, RuleTokenKind, TokenKindSpec};
use crate::rules::object::{member_spec, Callable, Member, MemberKind, Object};
use crate::rules::scope::{lookup, RuleScope};
use crate::rules::value::{kind_name, values_equal, Type, Value};
use crate::text::{parse_decimal_spec, utf8};

verus! {

/// The operators of the rule language.
#[derive(Debug, Clone, Copy, PartialEq, Eq, Structural)]
pub enum Operator {
    And,
    Or,
    Eq,
    NotEq,
    Dot,
    Call,
}

/// An expression: an operation, a single token, or an argument list.
#[derive(Debug)]
pub enum ExprOrValue {
    Expr(Expr),
    Value(RuleToken),
    Many(Vec<ExprOrValue>),
}

/// A binary operation.
#[derive(Debug)]
pub struct Expr {
    pub lhs: Box<ExprOrValue>,
    pub operator: Operator,
    pub rhs: Box<ExprOrValue>,
}


broadcast use vstd::std_specs::vec::axiom_vec_decreases_to_view;

/// A value of the rule language as data.
pub ghost enum Val {
    Str(Seq<char>),
    Int(u32),
    Bool(bool),
    Ident(Seq<char>),
    Obj(Object),
    Func(Callable),
    Meth(Object, Callable),
    List(Seq<Val>),
}

/// A runtime value that is not a list stands for the data `g`.
pub open spec fn denotes_scalar(t: Type, g: Val) -> bool {
    match (t, g) {
        (Type::String(s), Val::Str(x)) => s@ == x,
        (Type::Int(a), Val::Int(b)) => a == b,
        (Type::Bool(a), Val::Bool(b)) => a == b,
        (Type::Ident(s), Val::Ident(x)) => s@ == x,
        (Type::Object(o), Val::Obj(p)) => o == p,
        (Type::Function(c), Val::Func(d)) => c == d,
        (Type::Method(o, c), Val::Meth(p, d)) => o == p && c == d,
        _ => false,
    }
}

/// A runtime value stands for the data `g`; a list holds values that are
/// not lists.
pub open spec fn denotes(t: Type, g: Val) -> bool {
    match (t, g) {
        (Type::List(vs), Val::List(gs)) => vs@.len() == gs.len() && forall|i: int|
            0 <= i < gs.len() ==> denotes_scalar(#[trigger] vs@[i].ty(), gs[i]),
        _ => denotes_scalar(t, g),
    }
}

/// The data a scope binding stands for.
pub open spec fn val_of(t: Type) -> Option<Val> {
    match t {
        Type::String(s) => Some(Val::Str(s@)),
        Type::Int(a) => Some(Val::Int(a)),
        Type::Bool(a) => Some(Val::Bool(a)),
        Type::Ident(s) => Some(Val::Ident(s@)),
        Type::Object(o) => Some(Val::Obj(o)),
        Type::Function(c) => Some(Val::Func(c)),
        Type::Method(o, c) => Some(Val::Meth(o, c)),
        Type::List(_) => None,
    }
}

/// Strings and integers compare by content, booleans by value; anything
/// else compares unequal.
pub open spec fn val_eq(a: Val, b: Val) -> bool {
    match (a, b) {
        (Val::Str(x), Val::Str(y)) => x == y,
        (Val::Int(x), Val::Int(y)) => x == y,
        (Val::Bool(x), Val::Bool(y)) => x == y,
        _ => false,
    }
}

/// What a literal or identifier token evaluates to.
pub open spec fn token_val(k: TokenKindSpec) -> Option<Val> {
    match k {
        TokenKindSpec::LitStr(s) => Some(Val::Str(s)),
        TokenKindSpec::Ident(s) => Some(Val::Ident(s)),
        TokenKindSpec::LitInt(s) => match parse_decimal_spec(utf8(s)) {
            Some(n) => if n <= u32::MAX {
                Some(Val::Int(n as u32))
            } else {
                None
            },
            None => None,
        },
        _ => None,
    }
}

/// The argument data a callable accepts, the object first for a method.
pub open spec fn accepts_vals(c: Callable, args: Seq<Val>) -> bool {
    match c {
        Callable::RequestMethod => args.len() >= 1 && args[0] is Obj,
        Callable::Log => args.len() >= 1 && args[0] is Str,
        Callable::ResponseSetHeader => args.len() >= 3 && args[0] is Obj && args[1] is Str && args[2] is Str,
    }
}

/// Invoking a callable: its result, or `None` for arguments it does not
/// accept, and the response after it.
pub open spec fn call_spec(c: Callable, args: Seq<Val>, meth: RequestMethod, m: ResponseModel) -> (Option<Val>, ResponseModel) {
    if !accepts_vals(c, args) {
        (None, m)
    } else {
        match c {
            Callable::RequestMethod => (Some(Val::Str(method_text(meth))), m),
            Callable::Log => (Some(Val::Bool(true)), m),
            Callable::ResponseSetHeader => (
                Some(Val::Bool(true)),
                (m.0, m.1, add_header(m.2, utf8(args[1]->Str_0), utf8(args[2]->Str_0)), m.3),
            ),
        }
    }
}

/// What a call's target names: a function, or a method with its object.
pub open spec fn callee(target: Val, vars: Seq<(Seq<char>, Type)>) -> Option<(Option<Object>, Callable)> {
    let f = match target {
        Val::Ident(t) => match lookup(vars, t) {
            Some(x) => val_of(x),
            None => None,
        },
        other => Some(other),
    };
    match f {
        Some(Val::Func(c)) => Some((None, c)),
        Some(Val::Meth(o, c)) => Some((Some(o), c)),
        _ => None,
    }
}

/// Applying an operator to the values of both sides.
pub open spec fn apply_op(op: Operator, a: Val, b: Val, vars: Seq<(Seq<char>, Type)>, meth: RequestMethod, m: ResponseModel) -> (Option<Val>, ResponseModel) {
    match op {
        Operator::And | Operator::Or => match (a, b) {
            (Val::Bool(x), Val::Bool(y)) => (Some(Val::Bool(if op == Operator::And { x && y } else { x || y })), m),
            _ => (None, m),
        },
        Operator::Eq => (Some(Val::Bool(val_eq(a, b))), m),
        Operator::NotEq => (Some(Val::Bool(!val_eq(a, b))), m),
        Operator::Dot => match (a, b) {
            (Val::Ident(t), Val::Ident(mem)) => match lookup(vars, t) {
                Some(Type::Object(o)) => match member_spec(o.kind, mem) {
                    Some(mb) => if mb.kind == MemberKind::Field {
                        call_spec(mb.callable, seq![Val::Obj(o)], meth, m)
                    } else {
                        (Some(Val::Meth(o, mb.callable)), m)
                    },
                    None => (None, m),
                },
                _ => (None, m),
            },
            _ => (None, m),
        },
        Operator::Call => match b {
            Val::List(args) => match callee(a, vars) {
                Some((o, c)) => {
                    let full = match o {
                        Some(obj) => seq![Val::Obj(obj)] + args,
                        None => args,
                    };
                    let (res, m1) = call_spec(c, full, meth, m);
                    match res {
                        Some(_) => (Some(Val::Bool(true)), m1),
                        None => (None, m1),
                    }
                },
                None => (None, m),
            },
            _ => (None, m),
        },
    }
}

/// Evaluating an expression with the variables `vars`, for a request with
/// method `meth`: its value, or `None` for a runtime error, and the
/// response after it. Sides are evaluated left to right.
pub open spec fn eval_spec(e: ExprOrValue, vars: Seq<(Seq<char>, Type)>, meth: RequestMethod, m: ResponseModel) -> (Option<Val>, ResponseModel)
    decreases e,
{
    match e {
        ExprOrValue::Value(tok) => (token_val(tok.kind@), m),
        ExprOrValue::Expr(x) => {
            let (l, m1) = eval_spec(*x.lhs, vars, meth, m);
            match l {
                None => (None, m1),
                Some(a) => {
                    let (r, m2) = eval_spec(*x.rhs, vars, meth, m1);
                    match r {
                        None => (None, m2),
                        Some(b) => apply_op(x.operator, a, b, vars, meth, m2),
                    }
                },
            }
        },
        ExprOrValue::Many(args) => eval_list(args@, vars, meth, m),
    }
}

/// Evaluating argument expressions left to right into a list; an argument
/// that is itself a list is an error.
pub open spec fn eval_list(es: Seq<ExprOrValue>, vars: Seq<(Seq<char>, Type)>, meth: RequestMethod, m: ResponseModel) -> (Option<Val>, ResponseModel)
    decreases es,
{
    if es.len() == 0 {
        (Some(Val::List(Seq::empty())), m)
    } else {
        let (v, m1) = eval_spec(es[0], vars, meth, m);
        match v {
            Some(x) => if x is List {
                (None, m1)
            } else {
                let (rest, m2) = eval_list(es.subrange(1, es.len() as int), vars, meth, m1);
                match rest {
                    Some(Val::List(xs)) => (Some(Val::List(seq![x] + xs)), m2),
                    _ => (None, m2),
                }
            },
            None => (None, m1),
        }
    }
}

/// Evaluation only ever touches the response's headers, and keeps their
/// names distinct.
pub open spec fn headers_only(before: ResponseModel, after: ResponseModel) -> bool {
    after.0 == before.0 && after.1 == before.1 && after.3 == before.3 && (names_distinct(before.2)
        ==> names_distinct(after.2))
}

fn zero() -> (r: Position)
    ensures
        r == (Position { line: 0, column: 0, len: 0 }),
{
    Position::zero()
}

fn incorrect_type(expected: &str, got: &Type, at: Position) -> (r: RuleError)
    ensures
        r.position == at,
        r.kind matches crate::rules::error::RuleErrorKind::Runtime(RuntimeErrorKind::IncorrectType(e, g))
            && e@ == expected@ && g@ == kind_name(*got),
{
    RuleError::runtime(RuntimeErrorKind::IncorrectType(expected.to_owned(), got.type_string()), at)
}

fn too_few(expected: usize, got: usize) -> (r: RuleError)
    ensures
        r.kind matches crate::rules::error::RuleErrorKind::Runtime(RuntimeErrorKind::TooFewArguments(e, g))
            && e == expected && g == got,
{
    RuleError::runtime(RuntimeErrorKind::TooFewArguments(expected, got), zero())
}

/// Invokes a callable on its arguments; for a method the object comes first.
pub fn call(c: Callable, args: &Vec<Value>, request: &Request, response: &mut Response) -> (r: Result<Type, RuleError>)
    ensures
        headers_only(old(response)@, final(response)@),
        r is Ok <==> accepts(c, types_of(args@)),
        r is Ok <==> first_bad(c, types_of(args@)) is None,
        r matches Err(e) ==> call_error_matches(c, types_of(args@), first_bad(c, types_of(args@))->0, e),
        c == Callable::RequestMethod ==> (r is Ok <==> args@.len() >= 1 && args@[0].ty() is Object)
            && (r matches Ok(t) ==> (t matches Type::String(s) && s@ == method_text(request.method)))
            && final(response)@ == old(response)@,
        c == Callable::Log ==> (r is Ok <==> args@.len() >= 1 && args@[0].ty() is String)
            && (r is Ok ==> r == Ok::<Type, RuleError>(Type::Bool(true)))
            && final(response)@ == old(response)@,
        c == Callable::ResponseSetHeader ==> (r is Ok <==> args@.len() >= 3 && args@[0].ty() is Object
            && args@[1].ty() is String && args@[2].ty() is String)
            && (r is Ok ==> r == Ok::<Type, RuleError>(Type::Bool(true))
                && (args@[1].ty() matches Type::String(n) && args@[2].ty() matches Type::String(v)
                && final(response)@ == (old(response)@.0, old(response)@.1, add_header(old(response)@.2, utf8(n@), utf8(v@)), old(response)@.3)))
            && (r is Err ==> final(response)@ == old(response)@),
{
    assert(forall|i: int| 0 <= i < args@.len() ==> #[trigger] types_of(args@)[i] == args@[i].ty());
    match c {
        Callable::RequestMethod => {
            if args.len() < 1 {
                return Err(too_few(1, 0));
            }
            match args[0].t() {
                Type::Object(_) => {},
                other => return Err(incorrect_type("object", other, zero())),
            }
            Ok(Type::String(request.method.as_str().to_owned()))
        },
        Callable::Log => {
            if args.len() < 1 {
                return Err(too_few(1, 0));
            }
            match args[0].t() {
                Type::String(_) => Ok(Type::Bool(true)),
                other => Err(incorrect_type("string", other, *args[0].position())),
            }
        },
        Callable::ResponseSetHeader => {
            if args.len() < 1 {
                return Err(too_few(3, 0));
            }
            match args[0].t() {
                Type::Object(_) => {},
                other => return Err(incorrect_type("object", other, zero())),
            }
            if args.len() < 2 {
                return Err(too_few(3, 1));
            }
            let name = match args[1].t() {
                Type::String(s) => s,
                other => return Err(incorrect_type("string", other, *args[1].position())),
            };
            if args.len() < 3 {
                return Err(too_few(3, 2));
            }
            let value = match args[2].t() {
                Type::String(s) => s,
                other => return Err(incorrect_type("string", other, *args[2].position())),
            };
            response.set_header(name.as_str(), value.as_str());
            Ok(Type::Bool(true))
        },
    }
}

/// The value a literal or identifier token stands for.
fn eval_value(token: &RuleToken) -> (r: Result<Value, RuleError>)
    ensures
        r is Ok <==> token_val(token.kind@) is Some,
        r matches Ok(v) ==> denotes_scalar(v.ty(), token_val(token.kind@)->0),
        r matches Ok(v) ==> v.pos() == token.position && match token.kind {
            RuleTokenKind::LitStr(s) => v.ty() matches Type::String(t) && t@ == s@,
            RuleTokenKind::Ident(s) => v.ty() matches Type::Ident(t) && t@ == s@,
            RuleTokenKind::LitInt(s) => v.ty() matches Type::Int(n) && parse_decimal_spec(utf8(s@)) == Some(n as usize),
            _ => false,
        },
        token.kind is LitStr || token.kind is Ident ==> r is Ok,
        token.kind is LitInt ==> (r is Ok <==> (parse_decimal_spec(utf8(token.kind->LitInt_0@)) matches Some(n) && n <= u32::MAX)),
{
    let t = match &token.kind {
        RuleTokenKind::LitStr(s) => Type::String(s.clone()),
        RuleTokenKind::Ident(s) => Type::Ident(s.clone()),
        RuleTokenKind::LitInt(s) => match crate::text::parse_decimal(s.as_str().as_bytes()) {
            Some(n) => {
                if n > 4294967295 {
                    return Err(RuleError::runtime(RuntimeErrorKind::IncorrectType("int".to_owned(), s.clone()), token.position));
                }
                Type::Int(n as u32)
            },
            None => return Err(RuleError::runtime(RuntimeErrorKind::IncorrectType("int".to_owned(), s.clone()), token.position)),
        },
        other => {
            return Err(RuleError::runtime(RuntimeErrorKind::IncorrectType("value".to_owned(), other.text()), token.position));
        },
    };
    Ok(Value::new(t, token.position))
}

/// `&&` and `||` on two booleans.
fn eval_bool_expr(lhs_value: &Value, operator: Operator, rhs_value: &Value) -> (r: Result<Value, RuleError>)
    requires
        operator == Operator::And || operator == Operator::Or,
    ensures
        r is Ok <==> lhs_value.ty() is Bool && rhs_value.ty() is Bool,
        r matches Ok(v) ==> v.pos() == lhs_value.pos() && v.ty() == Type::Bool(
            if operator == Operator::And {
                lhs_value.ty()->Bool_0 && rhs_value.ty()->Bool_0
            } else {
                lhs_value.ty()->Bool_0 || rhs_value.ty()->Bool_0
            },
        ),
        r matches Err(e) ==> e.position == (if lhs_value.ty() is Bool { rhs_value.pos() } else { lhs_value.pos() }),
{
    let a = match lhs_value.t() {
        Type::Bool(v) => *v,
        other => return Err(incorrect_type("bool", other, *lhs_value.position())),
    };
    let b = match rhs_value.t() {
        Type::Bool(v) => *v,
        other => return Err(incorrect_type("bool", other, *rhs_value.position())),
    };
    let v = if operator == Operator::And { a && b } else { a || b };
    Ok(Value::new(Type::Bool(v), *lhs_value.position()))
}

/// The object and member that `target.member` names, when `target` is
/// bound to an object that has such a member.
pub open spec fn path_member(target: Type, member: Type, vars: Seq<(Seq<char>, Type)>) -> Option<(Object, Member)> {
    match (target, member) {
        (Type::Ident(t), Type::Ident(m)) => match lookup(vars, t@) {
            Some(Type::Object(o)) => match member_spec(o.kind, m@) {
                Some(mem) => Some((o, mem)),
                None => None,
            },
            _ => None,
        },
        _ => None,
    }
}

/// `target.member`: a field is read, a method becomes a bound method.
fn eval_path_expr(target_val: Value, member_val: Value, scope: &RuleScope, request: &Request, response: &mut Response) -> (r: Result<Value, RuleError>)
    ensures
        final(response)@ == old(response)@,
        r is Ok <==> path_member(target_val.ty(), member_val.ty(), scope@) is Some,
        r matches Ok(v) ==> v.pos() == target_val.pos() && ({
            let (o, mem) = path_member(target_val.ty(), member_val.ty(), scope@)->0;
            &&& mem.kind == MemberKind::Method ==> v.ty() == Type::Method(o, mem.callable)
            &&& mem.kind == MemberKind::Field ==> (v.ty() matches Type::String(s) && s@ == method_text(request.method))
        }),
{
    let target = match target_val.t() {
        Type::Ident(s) => s,
        other => return Err(incorrect_type("identifier", other, *target_val.position())),
    };
    let member = match member_val.t() {
        Type::Ident(s) => s,
        other => return Err(incorrect_type("identifier", other, *member_val.position())),
    };
    let obj: Object = match scope.get_var(target.as_str()) {
        Some(Type::Object(o)) => *o,
        Some(other) => return Err(incorrect_type("object", other, *target_val.position())),
        None => {
            return Err(RuleError::runtime(RuntimeErrorKind::UnresolvedReference(target.clone()), *target_val.position()));
        },
    };
    let m = match obj.get_member(member.as_str()) {
        Some(m) => m,
        None => {
            return Err(
                RuleError::runtime(
                    RuntimeErrorKind::MemberNotDefined(member.clone(), target.clone()),
                    *member_val.position(),
                ),
            );
        },
    };
    let t = match m.kind {
        MemberKind::Field => {
            let args = vec![Value::new(Type::Object(obj), *target_val.position())];
            let ghost before = response@;
            let t = call(m.callable, &args, request, response)?;
            t
        },
        MemberKind::Method => Type::Method(obj, m.callable),
    };
    Ok(Value::new(t, *target_val.position()))
}

/// The function `target` names: a callable value, or one bound to an
/// identifier; with the object a bound method carries.
pub open spec fn call_target(target: Type, vars: Seq<(Seq<char>, Type)>) -> Option<(Option<Object>, Callable)> {
    let f = match target {
        Type::Ident(t) => lookup(vars, t@),
        other => Some(other),
    };
    match f {
        Some(Type::Function(c)) => Some((None, c)),
        Some(Type::Method(o, c)) => Some((Some(o), c)),
        _ => None,
    }
}

/// The argument types a callable accepts, the first being its object for
/// a method: the request's method needs the object, `log` a string, and
/// `set_header` the object and two strings.
pub open spec fn accepts(c: Callable, tys: Seq<Type>) -> bool {
    match c {
        Callable::RequestMethod => tys.len() >= 1 && tys[0] is Object,
        Callable::Log => tys.len() >= 1 && tys[0] is String,
        Callable::ResponseSetHeader => tys.len() >= 3 && tys[0] is Object && tys[1] is String && tys[2] is String,
    }
}

/// The types of a list of values.
pub open spec fn types_of(vs: Seq<Value>) -> Seq<Type> {
    vs.map_values(|v: Value| v.ty())
}

/// How many arguments a callable takes, its object included.
pub open spec fn arity(c: Callable) -> int {
    match c {
        Callable::ResponseSetHeader => 3,
        _ => 1,
    }
}

/// The type a callable's argument `i` must have.
pub open spec fn expected_arg(c: Callable, i: int) -> Seq<char> {
    match c {
        Callable::RequestMethod => "object"@,
        Callable::Log => "string"@,
        Callable::ResponseSetHeader => if i == 0 {
            "object"@
        } else {
            "string"@
        },
    }
}

pub open spec fn fits(c: Callable, i: int, t: Type) -> bool {
    match c {
        Callable::RequestMethod => t is Object,
        Callable::Log => t is String,
        Callable::ResponseSetHeader => if i == 0 {
            t is Object
        } else {
            t is String
        },
    }
}

/// The first argument that is missing or of the wrong type, if any.
pub open spec fn first_bad(c: Callable, tys: Seq<Type>) -> Option<int> {
    if tys.len() <= 0 || !fits(c, 0, tys[0]) {
        Some(0)
    } else if arity(c) <= 1 {
        None
    } else if tys.len() <= 1 || !fits(c, 1, tys[1]) {
        Some(1)
    } else if tys.len() <= 2 || !fits(c, 2, tys[2]) {
        Some(2)
    } else {
        None
    }
}

/// The error a call gives for the argument `i`: too few arguments when it
/// is missing, an incorrect type otherwise.
pub open spec fn call_error_matches(c: Callable, tys: Seq<Type>, i: int, e: RuleError) -> bool {
    if i >= tys.len() {
        e.kind matches RuleErrorKind::Runtime(RuntimeErrorKind::TooFewArguments(x, y)) && x == arity(c) && y == i
    } else {
        e.kind matches RuleErrorKind::Runtime(RuntimeErrorKind::IncorrectType(x, g)) && x@ == expected_arg(c, i)
            && g@ == kind_name(tys[i])
    }
}

/// Runtime values that stand, one by one, for the data `gs`.
pub open spec fn vals_match(vs: Seq<Value>, gs: Seq<Val>) -> bool {
    vs.len() == gs.len() && forall|i: int| 0 <= i < gs.len() ==> denotes_scalar(#[trigger] vs[i].ty(), gs[i])
}

/// An evaluation ended as `eval_spec` says: the same response, success
/// exactly when it gives a value, and a result that stands for that value.
pub open spec fn eval_matches(
    e: ExprOrValue,
    vars: Seq<(Seq<char>, Type)>,
    meth: RequestMethod,
    before: ResponseModel,
    after: ResponseModel,
    r: Result<Value, RuleError>,
) -> bool {
    &&& after == eval_spec(e, vars, meth, before).1
    &&& (r is Ok <==> eval_spec(e, vars, meth, before).0 is Some)
    &&& (r matches Ok(v) ==> denotes(v.ty(), eval_spec(e, vars, meth, before).0->0))
}

proof fn lemma_accepts(c: Callable, args: Seq<Value>, gs: Seq<Val>)
    requires
        vals_match(args, gs),
    ensures
        accepts(c, types_of(args)) == accepts_vals(c, gs),
{
    if gs.len() >= 1 {
        assert(denotes_scalar(args[0].ty(), gs[0]));
        assert(types_of(args)[0] == args[0].ty());
    }
    if gs.len() >= 2 {
        assert(denotes_scalar(args[1].ty(), gs[1]));
        assert(types_of(args)[1] == args[1].ty());
    }
    if gs.len() >= 3 {
        assert(denotes_scalar(args[2].ty(), gs[2]));
        assert(types_of(args)[2] == args[2].ty());
    }
}

proof fn lemma_equal_matches(t1: Type, a: Val, t2: Type, b: Val)
    requires
        denotes(t1, a),
        denotes(t2, b),
    ensures
        values_equal(t1, t2) == val_eq(a, b),
{
}

/// `target(args)`: calls a function, or a bound method with its object
/// put before the arguments. `a` and `b` are what the two sides stand for.
fn eval_call_expr(
    target_val: Value,
    args_val: Value,
    Ghost(a): Ghost<Val>,
    Ghost(b): Ghost<Val>,
    scope: &RuleScope,
    request: &Request,
    response: &mut Response,
) -> (r: Result<Value, RuleError>)
    requires
        denotes(target_val.ty(), a),
        denotes(args_val.ty(), b),
    ensures
        final(response)@ == apply_op(Operator::Call, a, b, scope@, request.method, old(response)@).1,
        r is Ok <==> apply_op(Operator::Call, a, b, scope@, request.method, old(response)@).0 is Some,
        r matches Ok(v) ==> v.ty() == Type::Bool(true) && v.pos() == target_val.pos()
            && apply_op(Operator::Call, a, b, scope@, request.method, old(response)@).0 == Some(Val::Bool(true)),
{
    let ghost tv = target_val.ty();
    let mut args = match args_val.take_t() {
        Type::List(a) => a,
        other => return Err(incorrect_type("list", &other, *target_val.position())),
    };
    let ghost xs = b->List_0;
    assert(vals_match(args@, xs));
    let (obj, callable): (Option<Object>, Callable) = {
        let func: &Type = match target_val.t() {
            Type::Ident(target) => match scope.get_var(target.as_str()) {
                Some(f) => f,
                None => {
                    return Err(RuleError::runtime(RuntimeErrorKind::UnresolvedReference(target.clone()), *target_val.position()));
                },
            },
            other => other,
        };
        match func {
            Type::Function(c) => (None, *c),
            Type::Method(o, c) => (Some(*o), *c),
            _ => return Err(incorrect_type("callable", target_val.t(), *target_val.position())),
        }
    };
    assert(callee(a, scope@) == Some((obj, callable)));
    let ghost full = match obj {
        Some(o) => seq![Val::Obj(o)] + xs,
        None => xs,
    };
    let ghost given = args@;
    if let Some(o) = obj {
        args.insert(0, Value::new(Type::Object(o), *target_val.position()));
        assert(types_of(args@) =~= seq![Type::Object(o)] + types_of(given));
        assert(vals_match(args@, full)) by {
            assert forall|i: int| 0 <= i < full.len() implies denotes_scalar(#[trigger] args@[i].ty(), full[i]) by {
                if i > 0 {
                    assert(args@[i] == given[i - 1]);
                }
            }
        }
    } else {
        assert(types_of(args@) =~= types_of(given));
    }
    proof { lemma_accepts(callable, args@, full); }
    let ghost before = response@;
    let res = call(callable, &args, request, response);
    proof {
        if callable == Callable::ResponseSetHeader && res is Ok {
            assert(denotes_scalar(args@[1].ty(), full[1]));
            assert(denotes_scalar(args@[2].ty(), full[2]));
        }
    }
    res?;
    Ok(Value::new(Type::Bool(true), *target_val.position()))
}

/// Evaluates both sides, then applies the operator.
fn eval_expr(expr: &Expr, scope: &RuleScope, request: &Request, response: &mut Response) -> (r: Result<Value, RuleError>)
    ensures
        eval_matches(ExprOrValue::Expr(*expr), scope@, request.method, old(response)@, final(response)@, r),
    decreases expr,
{
    let lhs_value = expr.lhs.eval(scope, request, response)?;
    let ghost a = eval_spec(*expr.lhs, scope@, request.method, old(response)@).0->0;
    let ghost m1 = response@;
    let rhs_value = expr.rhs.eval(scope, request, response)?;
    let ghost b = eval_spec(*expr.rhs, scope@, request.method, m1).0->0;
    match expr.operator {
        Operator::And | Operator::Or => eval_bool_expr(&lhs_value, expr.operator, &rhs_value),
        Operator::Eq => {
            let x = lhs_value.t().equals(rhs_value.t());
            proof { lemma_equal_matches(lhs_value.ty(), a, rhs_value.ty(), b); }
            Ok(Value::new(Type::Bool(x), *lhs_value.position()))
        },
        Operator::NotEq => {
            let x = lhs_value.t().equals(rhs_value.t());
            proof { lemma_equal_matches(lhs_value.ty(), a, rhs_value.ty(), b); }
            Ok(Value::new(Type::Bool(!x), *lhs_value.position()))
        },
        Operator::Dot => eval_path_expr(lhs_value, rhs_value, scope, request, response),
        Operator::Call => eval_call_expr(lhs_value, rhs_value, Ghost(a), Ghost(b), scope, request, response),
    }
}

/// Argument values so far put in front of the rest's.
pub open spec fn prepend_vals(acc: Seq<Val>, r: (Option<Val>, ResponseModel)) -> (Option<Val>, ResponseModel) {
    match r.0 {
        Some(Val::List(xs)) => (Some(Val::List(acc + xs)), r.1),
        _ => (None, r.1),
    }
}

impl ExprOrValue {
    /// Evaluates the expression as `eval_spec` says: its value, a runtime
    /// error, and the response after it.
    pub fn eval(&self, scope: &RuleScope, request: &Request, response: &mut Response) -> (r: Result<Value, RuleError>)
        ensures
            eval_matches(*self, scope@, request.method, old(response)@, final(response)@, r),
        decreases self,
    {
        match self {
            ExprOrValue::Value(token) => eval_value(token),
            ExprOrValue::Expr(expr) => eval_expr(expr, scope, request, response),
            ExprOrValue::Many(args) => {
                let mut val_args: Vec<Value> = Vec::new();
                let ghost acc: Seq<Val> = Seq::empty();
                let mut i: usize = 0;
                assert(args@.subrange(0, args@.len() as int) =~= args@);
                while i < args.len()
                    invariant
                        0 <= i <= args@.len(),
                        vals_match(val_args@, acc),
                        *self == ExprOrValue::Many(*args),
                        eval_spec(*self, scope@, request.method, old(response)@) == prepend_vals(
                            acc,
                            eval_list(args@.subrange(i as int, args@.len() as int), scope@, request.method, response@),
                        ),
                    decreases args@.len() - i,
                {
                    proof {
                        vstd::std_specs::vec::axiom_vec_index_decreases(*args, i as int);
                        assert(decreases_to!(*self => (*self)->Many_0));
                    }
                    let ghost sub = args@.subrange(i as int, args@.len() as int);
                    let ghost m0 = response@;
                    assert(sub[0] == args@[i as int]);
                    assert(sub.subrange(1, sub.len() as int) =~= args@.subrange(i + 1, args@.len() as int));
                    let v = args[i].eval(scope, request, response)?;
                    let ghost x = eval_spec(args@[i as int], scope@, request.method, m0).0->0;
                    match v.t() {
                        Type::List(_) => {
                            return Err(incorrect_type("value", v.t(), *v.position()));
                        },
                        _ => {},
                    }
                    proof {
                        let rest = eval_list(args@.subrange(i + 1, args@.len() as int), scope@, request.method, response@);
                        match rest.0 {
                            Some(Val::List(xs)) => {
                                assert(acc + (seq![x] + xs) =~= acc.push(x) + xs);
                            },
                            _ => {},
                        }
                    }
                    let ghost prev = val_args@;
                    val_args.push(v);
                    proof {
                        acc = acc.push(x);
                        assert forall|j: int| 0 <= j < acc.len() implies denotes_scalar(#[trigger] val_args@[j].ty(), acc[j]) by {
                            if j < prev.len() {
                                assert(val_args@[j] == prev[j]);
                            }
                        }
                    }
                    i = i + 1;
                }
                proof {
                    assert(acc + Seq::<Val>::empty() =~= acc);
                }
                let position = if val_args.len() > 0 { *val_args[0].position() } else { zero() };
                Ok(Value::new(Type::List(val_args), position))
            },
        }
    }
}

} // verus!
