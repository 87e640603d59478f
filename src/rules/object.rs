use vstd::prelude::*;
use crate::request::Request;
use crate::request_method::method_text;
use crate::response::Response;
use crate::rules::error::RuleError;
use crate::rules::expr::{call, call_error_matches, first_bad, headers_only, types_of};
use crate::header::add_header;
use crate::text::utf8;
use crate::rules::value::{Type, Value};

verus! {

/// The objects a rule can reach: the request being served and its response.
#[derive(Debug, Clone, Copy, PartialEq, Eq, Structural)]
pub enum ObjectKind {
    Request,
    Response,
}

/// What a member or function does when invoked.
#[derive(Debug, Clone, Copy, PartialEq, Eq, Structural)]
pub enum Callable {
    /// The request's method, as a string.
    RequestMethod,
    /// Sets a header on the response; returns `true`.
    ResponseSetHeader,
    /// Takes a string and returns `true`.
    Log,
}

/// A member is read as a field or called as a method.
#[derive(Debug, Clone, Copy, PartialEq, Eq, Structural)]
pub enum MemberKind {
    Field,
    Method,
}

/// A member of an object.
#[derive(Debug, Clone, Copy, PartialEq, Eq, Structural)]
pub struct Member {
    pub kind: MemberKind,
    pub callable: Callable,
}

/// An object value of the rule language.
#[derive(Debug, Clone, Copy, PartialEq, Eq, Structural)]
pub struct Object {
    pub kind: ObjectKind,
}

/// The member table: `request.method` is a field, `response.set_header` a
/// method.
pub open spec fn member_spec(k: ObjectKind, ident: Seq<char>) -> Option<Member> {
    match k {
        ObjectKind::Request => if ident == "method"@ {
            Some(Member { kind: MemberKind::Field, callable: Callable::RequestMethod })
        } else {
            None
        },
        ObjectKind::Response => if ident == "set_header"@ {
            Some(Member { kind: MemberKind::Method, callable: Callable::ResponseSetHeader })
        } else {
            None
        },
    }
}

impl Member {
    pub fn field(getter: Callable) -> (r: Self)
        ensures
            r == (Member { kind: MemberKind::Field, callable: getter }),
    {
        Member { kind: MemberKind::Field, callable: getter }
    }

    pub fn method(callable: Callable) -> (r: Self)
        ensures
            r == (Member { kind: MemberKind::Method, callable }),
    {
        Member { kind: MemberKind::Method, callable }
    }

    /// Invokes the member's callable on `args`, the object first.
    pub fn eval(&self, args: &Vec<Value>, request: &Request, response: &mut Response) -> (r: Result<Type, RuleError>)
        ensures
            headers_only(old(response)@, final(response)@),
            self.callable == Callable::RequestMethod ==> (r is Ok <==> args@.len() >= 1 && args@[0].ty() is Object)
                && (r matches Ok(t) ==> (t matches Type::String(s) && s@ == method_text(request.method))),
            r is Ok <==> first_bad(self.callable, types_of(args@)) is None,
            r matches Err(e) ==> call_error_matches(self.callable, types_of(args@), first_bad(self.callable, types_of(args@))->0, e),
            self.callable == Callable::Log ==> (r is Ok ==> r == Ok::<Type, RuleError>(Type::Bool(true))) && final(response)@ == old(response)@,
            self.callable == Callable::ResponseSetHeader ==> (r is Ok ==> r == Ok::<Type, RuleError>(Type::Bool(true))
                && (args@[1].ty() matches Type::String(n) && args@[2].ty() matches Type::String(v)
                && final(response)@ == (old(response)@.0, old(response)@.1, add_header(old(response)@.2, utf8(n@), utf8(v@)), old(response)@.3)))
                && (r is Err ==> final(response)@ == old(response)@),
    {
        call(self.callable, args, request, response)
    }
}

impl Object {
    /// The object standing for the request.
    pub fn request() -> (r: Self)
        ensures
            r.kind == ObjectKind::Request,
    {
        Object { kind: ObjectKind::Request }
    }

    /// The object standing for the response.
    pub fn response() -> (r: Self)
        ensures
            r.kind == ObjectKind::Response,
    {
        Object { kind: ObjectKind::Response }
    }

    /// The member named `ident`, if the object has one.
    pub fn get_member(&self, ident: &str) -> (r: Option<Member>)
        ensures
            r == member_spec(self.kind, ident@),
    {
        match self.kind {
            ObjectKind::Request => if crate::text::str_eq(ident, "method") {
                Some(Member::field(Callable::RequestMethod))
            } else {
                None
            },
            ObjectKind::Response => if crate::text::str_eq(ident, "set_header") {
                Some(Member::method(Callable::ResponseSetHeader))
            } else {
                None
            },
        }
    }

    /// The member named `ident` if it is a field.
    pub fn get_field(&self, ident: &str) -> (r: Option<Member>)
        ensures
            r == (match member_spec(self.kind, ident@) {
                Some(m) => if m.kind == MemberKind::Field { Some(m) } else { None },
                None => None,
            }),
    {
        match self.get_member(ident) {
            Some(m) => if m.kind == MemberKind::Field { Some(m) } else { None },
            None => None,
        }
    }

    /// The member named `ident` if it is a method.
    pub fn get_method(&self, ident: &str) -> (r: Option<Member>)
        ensures
            r == (match member_spec(self.kind, ident@) {
                Some(m) => if m.kind == MemberKind::Method { Some(m) } else { None },
                None => None,
            }),
    {
        match self.get_member(ident) {
            Some(m) => if m.kind == MemberKind::Method { Some(m) } else { None },
            None => None,
        }
    }
}

} // verus!
