use vstd::prelude::*;
use crate::rules::error::{syntax_view, RuleError};
use crate::rules::grammar::{file, return_is_last, rule_matches, rule_starts, rules_from};
use crate::rules::lexer::{tokenize, tokenize_spec};
use crate::rules::rule::Rule;

verus! {

/// The rules read from a rules file, with the file's text for messages.
#[derive(Debug)]
pub struct Rules {
    pub rules: Vec<Rule>,
    pub file: String,
}

/// `rules` are the rules of the file `source`: one per rule of its tokens,
/// each with that rule's pattern and statements.
pub open spec fn parsed_from(source: Seq<char>, rules: Seq<Rule>) -> bool {
    tokenize_spec(source) matches Ok(tv) && rules.len() == rule_starts(tv, 0).len() && forall|k: int|
        0 <= k < rules.len() ==> #[trigger] rule_matches(tv, rule_starts(tv, 0)[k], rules[k])
}

/// Reads the rules of a rules file's text.
pub fn parse_str(source: &str) -> (r: Result<Vec<Rule>, RuleError>)
    requires
        source@.len() < 0xFFFF_FFF0,
    ensures
        tokenize_spec(source@) is Err ==> (r matches Err(e) && syntax_view(e) == Some(tokenize_spec(source@)->Err_0)),
        r is Ok <==> (tokenize_spec(source@) matches Ok(tv) && rules_from(tv, 0)),
        r matches Ok(rules) ==> parsed_from(source@, rules@),
        r matches Ok(rules) ==> tokenize_spec(source@) is Ok && forall|i: int|
            0 <= i < rules@.len() ==> return_is_last((#[trigger] rules@[i]).statements@),
{
    let tokens = tokenize(source)?;
    file(tokens)
}

/// Reads a rules file's text; on an error, the error shown in the file.
pub fn parse_rules(source: String) -> (r: Result<Rules, String>)
    requires
        source@.len() < 0xFFFF_FFF0,
    ensures
        r is Ok <==> (tokenize_spec(source@) matches Ok(tv) && rules_from(tv, 0)),
        r matches Ok(rs) ==> parsed_from(source@, rs.rules@),
        r matches Ok(rs) ==> rs.file@ == source@ && forall|i: int|
            0 <= i < rs.rules@.len() ==> return_is_last((#[trigger] rs.rules@[i]).statements@),
        tokenize_spec(source@) is Err ==> r is Err,
{
    match parse_str(source.as_str()) {
        Ok(rules) => Ok(Rules { rules, file: source }),
        Err(e) => Err(crate::rules::error::format_error_in_file(e, source.as_str())),
    }
}

} // verus!
