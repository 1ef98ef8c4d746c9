use vstd::prelude::*;
use vstd::string::StringExecFns;
use crate::text::str_eq;

verus! {

/// Unary operator verbs of the language.
#[derive(Debug, Hash, Copy, Clone, PartialEq, Eq, Structural)]
pub enum Mondaic {
    Negate,
}

/// Binary operator verbs of the language.
#[derive(Debug, Hash, Copy, Clone, PartialEq, Eq, Structural)]
pub enum Dyadic {
    Pow,
    Equality,
    Add,
    Subtract,
    Multiply,
    Divide,
    And,
    Or,
    GreaterThan,
    LessThan,
    GreaterThanOrEqual,
    LessThanOrEqual,
}

/// The source symbol of each unary verb.
pub open spec fn spec_mondaic_symbol(verb: Mondaic) -> Seq<char> {
    match verb {
        Mondaic::Negate => "!"@,
    }
}

/// The source symbol of each binary verb.
pub open spec fn spec_dyadic_symbol(verb: Dyadic) -> Seq<char> {
    match verb {
        Dyadic::Pow => "**"@,
        Dyadic::Equality => "=="@,
        Dyadic::Add => "+"@,
        Dyadic::Subtract => "-"@,
        Dyadic::Multiply => "*"@,
        Dyadic::Divide => "/"@,
        Dyadic::And => "&&"@,
        Dyadic::Or => "||"@,
        Dyadic::GreaterThan => ">"@,
        Dyadic::LessThan => "<"@,
        Dyadic::GreaterThanOrEqual => ">="@,
        Dyadic::LessThanOrEqual => "<="@,
    }
}

/// The unary verb written with a symbol, if any.
pub open spec fn spec_get_mondaic(s: Seq<char>) -> Option<Mondaic> {
    if s == "!"@ {
        Some(Mondaic::Negate)
    } else {
        None
    }
}

/// The binary verb written with a symbol, if any.
pub open spec fn spec_get_dyadic(s: Seq<char>) -> Option<Dyadic> {
    if s == "**"@ {
        Some(Dyadic::Pow)
    } else if s == "=="@ {
        Some(Dyadic::Equality)
    } else if s == "+"@ {
        Some(Dyadic::Add)
    } else if s == "-"@ {
        Some(Dyadic::Subtract)
    } else if s == "*"@ {
        Some(Dyadic::Multiply)
    } else if s == "/"@ {
        Some(Dyadic::Divide)
    } else if s == "&&"@ {
        Some(Dyadic::And)
    } else if s == "||"@ {
        Some(Dyadic::Or)
    } else if s == ">"@ {
        Some(Dyadic::GreaterThan)
    } else if s == "<"@ {
        Some(Dyadic::LessThan)
    } else if s == ">="@ {
        Some(Dyadic::GreaterThanOrEqual)
    } else if s == "<="@ {
        Some(Dyadic::LessThanOrEqual)
    } else {
        None
    }
}

/// Look a binary verb up by its source symbol.
pub fn get_dyadic(verb: String) -> (r: Option<Dyadic>)
    ensures
        r == spec_get_dyadic(verb@),
{
    let v = verb.as_str();
    if str_eq(v, "**") {
        Some(Dyadic::Pow)
    } else if str_eq(v, "==") {
        Some(Dyadic::Equality)
    } else if str_eq(v, "+") {
        Some(Dyadic::Add)
    } else if str_eq(v, "-") {
        Some(Dyadic::Subtract)
    } else if str_eq(v, "*") {
        Some(Dyadic::Multiply)
    } else if str_eq(v, "/") {
        Some(Dyadic::Divide)
    } else if str_eq(v, "&&") {
        Some(Dyadic::And)
    } else if str_eq(v, "||") {
        Some(Dyadic::Or)
    } else if str_eq(v, ">") {
        Some(Dyadic::GreaterThan)
    } else if str_eq(v, "<") {
        Some(Dyadic::LessThan)
    } else if str_eq(v, ">=") {
        Some(Dyadic::GreaterThanOrEqual)
    } else if str_eq(v, "<=") {
        Some(Dyadic::LessThanOrEqual)
    } else {
        None
    }
}

/// Look a unary verb up by its source symbol.
pub fn get_mondaic(verb: String) -> (r: Option<Mondaic>)
    ensures
        r == spec_get_mondaic(verb@),
{
    if str_eq(verb.as_str(), "!") {
        Some(Mondaic::Negate)
    } else {
        None
    }
}

/// Every binary verb symbol, in a fixed order.
pub fn get_dyads() -> (r: Vec<String>)
    ensures
        r@.len() == 12,
        r@[0]@ == "**"@,
        r@[1]@ == "=="@,
        r@[2]@ == "+"@,
        r@[3]@ == "-"@,
        r@[4]@ == "*"@,
        r@[5]@ == "/"@,
        r@[6]@ == "||"@,
        r@[7]@ == "&&"@,
        r@[8]@ == ">"@,
        r@[9]@ == "<"@,
        r@[10]@ == ">="@,
        r@[11]@ == "<="@,
{
    let mut v: Vec<String> = Vec::new();
    v.push(String::from_str("**"));
    v.push(String::from_str("=="));
    v.push(String::from_str("+"));
    v.push(String::from_str("-"));
    v.push(String::from_str("*"));
    v.push(String::from_str("/"));
    v.push(String::from_str("||"));
    v.push(String::from_str("&&"));
    v.push(String::from_str(">"));
    v.push(String::from_str("<"));
    v.push(String::from_str(">="));
    v.push(String::from_str("<="));
    v
}

/// Every unary verb symbol.
pub fn get_monads() -> (r: Vec<String>)
    ensures
        r@.len() == 1,
        r@[0]@ == "!"@,
{
    let mut v: Vec<String> = Vec::new();
    v.push(String::from_str("!"));
    v
}

impl Mondaic {
    /// The symbol this verb is written with.
    pub fn to_symbol(&self) -> (r: String)
        ensures
            r@ == spec_mondaic_symbol(*self),
    {
        match self {
            Mondaic::Negate => String::from_str("!"),
        }
    }
}

impl Dyadic {
    /// The symbol this verb is written with.
    pub fn to_symbol(&self) -> (r: String)
        ensures
            r@ == spec_dyadic_symbol(*self),
    {
        match self {
            Dyadic::Pow => String::from_str("**"),
            Dyadic::Equality => String::from_str("=="),
            Dyadic::Add => String::from_str("+"),
            Dyadic::Subtract => String::from_str("-"),
            Dyadic::Multiply => String::from_str("*"),
            Dyadic::Divide => String::from_str("/"),
            Dyadic::And => String::from_str("&&"),
            Dyadic::Or => String::from_str("||"),
            Dyadic::GreaterThan => String::from_str(">"),
            Dyadic::LessThan => String::from_str("<"),
            Dyadic::GreaterThanOrEqual => String::from_str(">="),
            Dyadic::LessThanOrEqual => String::from_str("<="),
        }
    }
}

} // verus!
