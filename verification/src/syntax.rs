//! Syntax token classification: the token classes, the mapping from a
//! highlight capture name to a class, and the lookup of the class at a
//! byte offset.
//!
//! Producing the tokens themselves is the embedding application's job
//! (it runs the language parser); this module owns the rules applied to
//! what comes back.

use vstd::prelude::*;
use crate::strutil::str_eq;

verus! {

/// The classes a highlighted span can have.
#[derive(Debug, Clone, Copy, PartialEq, Eq, Structural)]
pub enum TokenType {
    Keyword,
    Function,
    Type,
    String,
    Number,
    Comment,
    Operator,
    Variable,
    Property,
    Parameter,
    Constant,
    Normal,
}

/// One highlighted span: a byte range and its class.
#[derive(Debug, Clone)]
pub struct Token {
    pub start: usize,
    pub end: usize,
    pub token_type: TokenType,
}

/// The class a highlight capture name maps to; anything unknown is
/// `Normal`.
pub open spec fn capture_token_type(name: Seq<char>) -> TokenType {
    if name == "keyword"@ {
        TokenType::Keyword
    } else if name == "function"@ || name == "function.call"@ {
        TokenType::Function
    } else if name == "type"@ || name == "type.builtin"@ {
        TokenType::Type
    } else if name == "string"@ {
        TokenType::String
    } else if name == "number"@ {
        TokenType::Number
    } else if name == "comment"@ {
        TokenType::Comment
    } else if name == "operator"@ {
        TokenType::Operator
    } else if name == "variable"@ {
        TokenType::Variable
    } else if name == "property"@ {
        TokenType::Property
    } else if name == "parameter"@ {
        TokenType::Parameter
    } else if name == "constant"@ || name == "constant.builtin"@ {
        TokenType::Constant
    } else {
        TokenType::Normal
    }
}

/// The class of the first token at or after index `i` whose range holds
/// `offset`; `Normal` if none does.
pub open spec fn token_type_at(tokens: Seq<Token>, offset: int, i: int) -> TokenType
    decreases tokens.len() - i,
{
    if i < 0 || i >= tokens.len() {
        TokenType::Normal
    } else if tokens[i].start <= offset < tokens[i].end {
        tokens[i].token_type
    } else {
        token_type_at(tokens, offset, i + 1)
    }
}

/// Map a highlight capture name to its token class.
pub fn token_type_for_capture(name: &str) -> (r: TokenType)
    ensures
        r == capture_token_type(name@),
{
    if str_eq(name, "keyword") {
        TokenType::Keyword
    } else if str_eq(name, "function") || str_eq(name, "function.call") {
        TokenType::Function
    } else if str_eq(name, "type") || str_eq(name, "type.builtin") {
        TokenType::Type
    } else if str_eq(name, "string") {
        TokenType::String
    } else if str_eq(name, "number") {
        TokenType::Number
    } else if str_eq(name, "comment") {
        TokenType::Comment
    } else if str_eq(name, "operator") {
        TokenType::Operator
    } else if str_eq(name, "variable") {
        TokenType::Variable
    } else if str_eq(name, "property") {
        TokenType::Property
    } else if str_eq(name, "parameter") {
        TokenType::Parameter
    } else if str_eq(name, "constant") || str_eq(name, "constant.builtin") {
        TokenType::Constant
    } else {
        TokenType::Normal
    }
}

/// The class shown at `offset`: that of the first token whose range
/// holds it, or `Normal` if none does.
pub fn token_type_at_offset(offset: usize, tokens: &Vec<Token>) -> (r: TokenType)
    ensures
        r == token_type_at(tokens@, offset as int, 0),
{
    let n = tokens.len();
    let mut i: usize = 0;
    while i < n
        invariant
            n == tokens@.len(),
            i <= n,
            token_type_at(tokens@, offset as int, 0) == token_type_at(
                tokens@,
                offset as int,
                i as int,
            ),
        decreases n - i,
    {
        if tokens[i].start <= offset && offset < tokens[i].end {
            return tokens[i].token_type;
        }
        i = i + 1;
    }
    TokenType::Normal
}

} // verus!
