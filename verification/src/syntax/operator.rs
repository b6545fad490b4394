//! Binary operators of Pkl expressions, their symbols and their precedence.
use vstd::prelude::*;
use crate::text::{eq_lit, str_to_chars};

verus! {

/// An arithmetic operator.
#[derive(Debug, PartialEq, Eq, Clone, Copy, PartialOrd, Ord)]
pub enum ArithmeticOperator {
    /// The addition operator `+`.
    Addition,
    /// The subtraction operator `-`.
    Subtraction,
    /// The multiplication operator `*`.
    Multiplication,
    /// The exponentiation operator `**`.
    Exponentiation,
    /// The division operator `/`.
    Division,
    /// The modulo operator `%`.
    Modulo,
    /// The bitwise OR operator `|`.
    BitwiseOr,
    /// The bitwise NOT operator, written `~/`.
    BitwiseNot,
}

/// A comparison or logical operator.
#[derive(Debug, PartialEq, Eq, Clone, Copy, PartialOrd, Ord)]
pub enum ComparisonOperator {
    /// The equality operator `==`.
    Equal,
    /// The less than or equal to operator `<=`.
    LessThanOrEqual,
    /// The less than operator `<`.
    LessThan,
    /// The greater than or equal to operator `>=`.
    GreaterThanOrEqual,
    /// The greater than operator `>`.
    GreaterThan,
    /// The not equal to operator `!=`.
    NotEqual,
    /// The logical NOT NOT operator `!!`.
    NotNot,
    /// The logical NOT operator `!`.
    Not,
    /// The null-coalescing operator `??`.
    DoubleQuestion,
    /// The conditional operator `?`.
    Question,
    /// The logical AND operator `&&`.
    LogicalAnd,
    /// The bitwise AND operator `&`.
    BitwiseAnd,
    /// The logical OR operator `||`.
    LogicalOr,
    /// The bitwise OR operator `|`.
    BitwiseOr,
}

/// A binary operator of an expression.
#[derive(Debug, PartialEq, Eq, Clone, Copy)]
pub enum Operator {
    Arithmetic(ArithmeticOperator),
    Comparison(ComparisonOperator),
    TypeTest,
    TypeCast,
}

// ── Arithmetic operators ──

pub open spec fn arith_precedence(op: ArithmeticOperator) -> u8 {
    match op {
        ArithmeticOperator::Addition | ArithmeticOperator::Subtraction => 6,
        ArithmeticOperator::Multiplication | ArithmeticOperator::Division | ArithmeticOperator::Modulo => 7,
        ArithmeticOperator::Exponentiation => 8,
        ArithmeticOperator::BitwiseOr => 9,
        ArithmeticOperator::BitwiseNot => 10,
    }
}

pub open spec fn arith_symbol(op: ArithmeticOperator) -> Seq<char> {
    match op {
        ArithmeticOperator::Addition => "+"@,
        ArithmeticOperator::Subtraction => "-"@,
        ArithmeticOperator::Multiplication => "*"@,
        ArithmeticOperator::Exponentiation => "**"@,
        ArithmeticOperator::Division => "/"@,
        ArithmeticOperator::Modulo => "%"@,
        ArithmeticOperator::BitwiseOr => "|"@,
        ArithmeticOperator::BitwiseNot => "~/"@,
    }
}

/// The operator a symbol stands for, where it stands for one.
pub open spec fn arith_from_symbol(s: Seq<char>) -> Option<ArithmeticOperator> {
    if s == "+"@ {
        Some(ArithmeticOperator::Addition)
    } else if s == "-"@ {
        Some(ArithmeticOperator::Subtraction)
    } else if s == "*"@ {
        Some(ArithmeticOperator::Multiplication)
    } else if s == "**"@ {
        Some(ArithmeticOperator::Exponentiation)
    } else if s == "/"@ {
        Some(ArithmeticOperator::Division)
    } else if s == "%"@ {
        Some(ArithmeticOperator::Modulo)
    } else if s == "|"@ {
        Some(ArithmeticOperator::BitwiseOr)
    } else if s == "~/"@ {
        Some(ArithmeticOperator::BitwiseNot)
    } else {
        None
    }
}

impl ArithmeticOperator {
    /// Returns the precedence of the arithmetic operator.
    pub fn get_precedence(&self) -> (r: u8)
        ensures
            r == arith_precedence(*self),
    {
        match self {
            ArithmeticOperator::Addition | ArithmeticOperator::Subtraction => 6,
            ArithmeticOperator::Multiplication | ArithmeticOperator::Division | ArithmeticOperator::Modulo => 7,
            ArithmeticOperator::Exponentiation => 8,
            ArithmeticOperator::BitwiseOr => 9,
            ArithmeticOperator::BitwiseNot => 10,
        }
    }

    /// The operator's symbol, as its `Display` form shows it.
    pub fn symbol(&self) -> (r: &'static str)
        ensures
            r@ == arith_symbol(*self),
    {
        match self {
            ArithmeticOperator::Addition => "+",
            ArithmeticOperator::Subtraction => "-",
            ArithmeticOperator::Multiplication => "*",
            ArithmeticOperator::Exponentiation => "**",
            ArithmeticOperator::Division => "/",
            ArithmeticOperator::Modulo => "%",
            ArithmeticOperator::BitwiseOr => "|",
            ArithmeticOperator::BitwiseNot => "~/",
        }
    }

    /// The operator a symbol stands for. Only the eight symbols of the
    /// arithmetic operators are accepted.
    pub fn from_symbol(value: &str) -> (r: ArithmeticOperator)
        requires
            arith_from_symbol(value@) is Some,
        ensures
            arith_from_symbol(value@) == Some(r),
    {
        let v = str_to_chars(value);
        if eq_lit(v.as_slice(), "+") {
            ArithmeticOperator::Addition
        } else if eq_lit(v.as_slice(), "-") {
            ArithmeticOperator::Subtraction
        } else if eq_lit(v.as_slice(), "*") {
            ArithmeticOperator::Multiplication
        } else if eq_lit(v.as_slice(), "**") {
            ArithmeticOperator::Exponentiation
        } else if eq_lit(v.as_slice(), "/") {
            ArithmeticOperator::Division
        } else if eq_lit(v.as_slice(), "%") {
            ArithmeticOperator::Modulo
        } else if eq_lit(v.as_slice(), "|") {
            ArithmeticOperator::BitwiseOr
        } else {
            ArithmeticOperator::BitwiseNot
        }
    }
}

// ── Comparison operators ──

pub open spec fn cmp_precedence(op: ComparisonOperator) -> u8 {
    match op {
        ComparisonOperator::Equal | ComparisonOperator::LessThanOrEqual | ComparisonOperator::LessThan
        | ComparisonOperator::GreaterThanOrEqual | ComparisonOperator::GreaterThan
        | ComparisonOperator::NotEqual => 4,
        ComparisonOperator::NotNot | ComparisonOperator::Not => 5,
        ComparisonOperator::DoubleQuestion | ComparisonOperator::Question => 1,
        ComparisonOperator::LogicalAnd | ComparisonOperator::BitwiseAnd => 3,
        ComparisonOperator::LogicalOr | ComparisonOperator::BitwiseOr => 2,
    }
}

pub open spec fn cmp_symbol(op: ComparisonOperator) -> Seq<char> {
    match op {
        ComparisonOperator::Equal => "=="@,
        ComparisonOperator::LessThanOrEqual => "<="@,
        ComparisonOperator::LessThan => "<"@,
        ComparisonOperator::GreaterThanOrEqual => ">="@,
        ComparisonOperator::GreaterThan => ">"@,
        ComparisonOperator::NotEqual => "!="@,
        ComparisonOperator::NotNot => "!!"@,
        ComparisonOperator::Not => "!"@,
        ComparisonOperator::DoubleQuestion => "??"@,
        ComparisonOperator::Question => "?"@,
        ComparisonOperator::LogicalAnd => "&&"@,
        ComparisonOperator::BitwiseAnd => "&"@,
        ComparisonOperator::LogicalOr => "||"@,
        ComparisonOperator::BitwiseOr => "|"@,
    }
}

/// The comparison operator a symbol stands for, where it stands for one.
pub open spec fn cmp_from_symbol(s: Seq<char>) -> Option<ComparisonOperator> {
    if s == "=="@ {
        Some(ComparisonOperator::Equal)
    } else if s == "<="@ {
        Some(ComparisonOperator::LessThanOrEqual)
    } else if s == "<"@ {
        Some(ComparisonOperator::LessThan)
    } else if s == ">="@ {
        Some(ComparisonOperator::GreaterThanOrEqual)
    } else if s == ">"@ {
        Some(ComparisonOperator::GreaterThan)
    } else if s == "!="@ {
        Some(ComparisonOperator::NotEqual)
    } else if s == "!!"@ {
        Some(ComparisonOperator::NotNot)
    } else if s == "!"@ {
        Some(ComparisonOperator::Not)
    } else if s == "??"@ {
        Some(ComparisonOperator::DoubleQuestion)
    } else if s == "?"@ {
        Some(ComparisonOperator::Question)
    } else if s == "&&"@ {
        Some(ComparisonOperator::LogicalAnd)
    } else if s == "&"@ {
        Some(ComparisonOperator::BitwiseAnd)
    } else if s == "||"@ {
        Some(ComparisonOperator::LogicalOr)
    } else if s == "|"@ {
        Some(ComparisonOperator::BitwiseOr)
    } else {
        None
    }
}

impl ComparisonOperator {
    /// Returns the precedence of the comparison operator.
    pub fn get_precedence(&self) -> (r: u8)
        ensures
            r == cmp_precedence(*self),
    {
        match self {
            ComparisonOperator::Equal | ComparisonOperator::LessThanOrEqual | ComparisonOperator::LessThan
            | ComparisonOperator::GreaterThanOrEqual | ComparisonOperator::GreaterThan
            | ComparisonOperator::NotEqual => 4,
            ComparisonOperator::NotNot | ComparisonOperator::Not => 5,
            ComparisonOperator::DoubleQuestion | ComparisonOperator::Question => 1,
            ComparisonOperator::LogicalAnd | ComparisonOperator::BitwiseAnd => 3,
            ComparisonOperator::LogicalOr | ComparisonOperator::BitwiseOr => 2,
        }
    }

    /// The operator's symbol, as its `Display` form shows it.
    pub fn symbol(&self) -> (r: &'static str)
        ensures
            r@ == cmp_symbol(*self),
    {
        match self {
            ComparisonOperator::Equal => "==",
            ComparisonOperator::LessThanOrEqual => "<=",
            ComparisonOperator::LessThan => "<",
            ComparisonOperator::GreaterThanOrEqual => ">=",
            ComparisonOperator::GreaterThan => ">",
            ComparisonOperator::NotEqual => "!=",
            ComparisonOperator::NotNot => "!!",
            ComparisonOperator::Not => "!",
            ComparisonOperator::DoubleQuestion => "??",
            ComparisonOperator::Question => "?",
            ComparisonOperator::LogicalAnd => "&&",
            ComparisonOperator::BitwiseAnd => "&",
            ComparisonOperator::LogicalOr => "||",
            ComparisonOperator::BitwiseOr => "|",
        }
    }

    /// The operator a symbol stands for. Only the fourteen symbols of the
    /// comparison operators are accepted.
    pub fn from_symbol(value: &str) -> (r: ComparisonOperator)
        requires
            cmp_from_symbol(value@) is Some,
        ensures
            cmp_from_symbol(value@) == Some(r),
    {
        let v = str_to_chars(value);
        let s = v.as_slice();
        if eq_lit(s, "==") {
            ComparisonOperator::Equal
        } else if eq_lit(s, "<=") {
            ComparisonOperator::LessThanOrEqual
        } else if eq_lit(s, "<") {
            ComparisonOperator::LessThan
        } else if eq_lit(s, ">=") {
            ComparisonOperator::GreaterThanOrEqual
        } else if eq_lit(s, ">") {
            ComparisonOperator::GreaterThan
        } else if eq_lit(s, "!=") {
            ComparisonOperator::NotEqual
        } else if eq_lit(s, "!!") {
            ComparisonOperator::NotNot
        } else if eq_lit(s, "!") {
            ComparisonOperator::Not
        } else if eq_lit(s, "??") {
            ComparisonOperator::DoubleQuestion
        } else if eq_lit(s, "?") {
            ComparisonOperator::Question
        } else if eq_lit(s, "&&") {
            ComparisonOperator::LogicalAnd
        } else if eq_lit(s, "&") {
            ComparisonOperator::BitwiseAnd
        } else if eq_lit(s, "||") {
            ComparisonOperator::LogicalOr
        } else {
            ComparisonOperator::BitwiseOr
        }
    }
}

// ── Operators ──

pub open spec fn op_precedence(op: Operator) -> u8 {
    match op {
        Operator::Arithmetic(a) => arith_precedence(a),
        Operator::Comparison(c) => cmp_precedence(c),
        Operator::TypeCast => 0,
        Operator::TypeTest => 0,
    }
}

pub open spec fn op_symbol(op: Operator) -> Seq<char> {
    match op {
        Operator::Arithmetic(a) => arith_symbol(a),
        Operator::Comparison(c) => cmp_symbol(c),
        Operator::TypeCast => "as"@,
        Operator::TypeTest => "is"@,
    }
}

/// The operator a symbol of an expression stands for. The arithmetic
/// symbols come first, so `|` is the arithmetic bitwise OR only through
/// `ArithmeticOperator`; here it is the comparison one. Both `is` and `as`
/// read as the type test.
pub open spec fn op_from_symbol(s: Seq<char>) -> Option<Operator> {
    if s == "+"@ || s == "-"@ || s == "*"@ || s == "**"@ || s == "/"@ || s == "%"@ {
        match arith_from_symbol(s) {
            Some(a) => Some(Operator::Arithmetic(a)),
            None => None,
        }
    } else if cmp_from_symbol(s) is Some {
        Some(Operator::Comparison(cmp_from_symbol(s).unwrap()))
    } else if s == "is"@ || s == "as"@ {
        Some(Operator::TypeTest)
    } else {
        None
    }
}

impl Operator {
    /// Returns the precedence of the operator; type tests and casts bind
    /// loosest.
    pub fn get_precedence(&self) -> (r: u8)
        ensures
            r == op_precedence(*self),
    {
        match self {
            Operator::Arithmetic(op) => op.get_precedence(),
            Operator::Comparison(op) => op.get_precedence(),
            Operator::TypeCast => 0,
            Operator::TypeTest => 0,
        }
    }

    /// The operator's symbol, as its `Display` form shows it.
    pub fn symbol(&self) -> (r: &'static str)
        ensures
            r@ == op_symbol(*self),
    {
        match self {
            Operator::Arithmetic(x) => x.symbol(),
            Operator::Comparison(x) => x.symbol(),
            Operator::TypeCast => "as",
            Operator::TypeTest => "is",
        }
    }

    /// The operator a symbol of an expression stands for. Only the symbols
    /// that `op_from_symbol` knows are accepted.
    pub fn from_symbol(value: &str) -> (r: Operator)
        requires
            op_from_symbol(value@) is Some,
        ensures
            op_from_symbol(value@) == Some(r),
    {
        let v = str_to_chars(value);
        let s = v.as_slice();
        if eq_lit(s, "+") || eq_lit(s, "-") || eq_lit(s, "*") || eq_lit(s, "**") || eq_lit(s, "/")
            || eq_lit(s, "%") {
            Operator::Arithmetic(ArithmeticOperator::from_symbol(value))
        } else if eq_lit(s, "is") || eq_lit(s, "as") {
            proof {
                lemma_type_test_symbols();
            }
            Operator::TypeTest
        } else {
            Operator::Comparison(ComparisonOperator::from_symbol(value))
        }
    }
}

/// `is` and `as` are none of the other operator symbols.
proof fn lemma_type_test_symbols()
    ensures
        "is"@ != "=="@,
        "is"@ != "<="@,
        "is"@ != "<"@,
        "is"@ != ">="@,
        "is"@ != ">"@,
        "is"@ != "!="@,
        "is"@ != "!!"@,
        "is"@ != "!"@,
        "is"@ != "??"@,
        "is"@ != "?"@,
        "is"@ != "&&"@,
        "is"@ != "&"@,
        "is"@ != "||"@,
        "is"@ != "|"@,
        "as"@ != "=="@,
        "as"@ != "<="@,
        "as"@ != "<"@,
        "as"@ != ">="@,
        "as"@ != ">"@,
        "as"@ != "!="@,
        "as"@ != "!!"@,
        "as"@ != "!"@,
        "as"@ != "??"@,
        "as"@ != "?"@,
        "as"@ != "&&"@,
        "as"@ != "&"@,
        "as"@ != "||"@,
        "as"@ != "|"@,
{
    reveal_strlit("is");
    reveal_strlit("as");
    reveal_strlit("==");
    reveal_strlit("<=");
    reveal_strlit("<");
    reveal_strlit(">=");
    reveal_strlit(">");
    reveal_strlit("!=");
    reveal_strlit("!!");
    reveal_strlit("!");
    reveal_strlit("??");
    reveal_strlit("?");
    reveal_strlit("&&");
    reveal_strlit("&");
    reveal_strlit("||");
    reveal_strlit("|");
    assert("is"@[0] != "=="@[0]);
    assert("is"@[0] != "<="@[0]);
    assert("is"@.len() != "<"@.len());
    assert("is"@[0] != ">="@[0]);
    assert("is"@.len() != ">"@.len());
    assert("is"@[0] != "!="@[0]);
    assert("is"@[0] != "!!"@[0]);
    assert("is"@.len() != "!"@.len());
    assert("is"@[0] != "??"@[0]);
    assert("is"@.len() != "?"@.len());
    assert("is"@[0] != "&&"@[0]);
    assert("is"@.len() != "&"@.len());
    assert("is"@[0] != "||"@[0]);
    assert("is"@.len() != "|"@.len());
    assert("as"@[0] != "=="@[0]);
    assert("as"@[0] != "<="@[0]);
    assert("as"@.len() != "<"@.len());
    assert("as"@[0] != ">="@[0]);
    assert("as"@.len() != ">"@.len());
    assert("as"@[0] != "!="@[0]);
    assert("as"@[0] != "!!"@[0]);
    assert("as"@.len() != "!"@.len());
    assert("as"@[0] != "??"@[0]);
    assert("as"@.len() != "?"@.len());
    assert("as"@[0] != "&&"@[0]);
    assert("as"@.len() != "&"@.len());
    assert("as"@[0] != "||"@[0]);
    assert("as"@.len() != "|"@.len());
}

/// Reading back the symbol of an arithmetic operator gives the operator.
pub proof fn lemma_arith_symbol_roundtrip(op: ArithmeticOperator)
    ensures
        arith_from_symbol(arith_symbol(op)) == Some(op),
{
    reveal_strlit("+");
    reveal_strlit("-");
    reveal_strlit("*");
    reveal_strlit("**");
    reveal_strlit("/");
    reveal_strlit("%");
    reveal_strlit("|");
    reveal_strlit("~/");
    let s = arith_symbol(op);
    assert(s.len() == 1 ==> s != "**"@ && s != "~/"@);
    assert(s.len() == 2 ==> s != "+"@ && s != "-"@ && s != "*"@ && s != "/"@ && s != "%"@ && s != "|"@);
    match op {
        ArithmeticOperator::Addition => {},
        ArithmeticOperator::Subtraction => { assert(s[0] != "+"@[0]); },
        ArithmeticOperator::Multiplication => { assert(s[0] != "+"@[0] && s[0] != "-"@[0]); },
        ArithmeticOperator::Exponentiation => {},
        ArithmeticOperator::Division => { assert(s[0] != "+"@[0] && s[0] != "-"@[0] && s[0] != "*"@[0]); },
        ArithmeticOperator::Modulo => { assert(s[0] != "+"@[0] && s[0] != "-"@[0] && s[0] != "*"@[0] && s[0] != "/"@[0]); },
        ArithmeticOperator::BitwiseOr => { assert(s[0] != "+"@[0] && s[0] != "-"@[0] && s[0] != "*"@[0] && s[0] != "/"@[0] && s[0] != "%"@[0]); },
        ArithmeticOperator::BitwiseNot => { assert(s[0] != "*"@[0]); },
    }
}

/// Reading back the symbol of a comparison operator gives the operator.
pub proof fn lemma_cmp_symbol_roundtrip(op: ComparisonOperator)
    ensures
        cmp_from_symbol(cmp_symbol(op)) == Some(op),
{
    reveal_strlit("==");
    reveal_strlit("<=");
    reveal_strlit("<");
    reveal_strlit(">=");
    reveal_strlit(">");
    reveal_strlit("!=");
    reveal_strlit("!!");
    reveal_strlit("!");
    reveal_strlit("??");
    reveal_strlit("?");
    reveal_strlit("&&");
    reveal_strlit("&");
    reveal_strlit("||");
    reveal_strlit("|");
    assert("<="@[0] != "=="@[0]);
    assert("<"@.len() != "=="@.len());
    assert("<"@.len() != "<="@.len());
    assert(">="@[0] != "=="@[0]);
    assert(">="@[0] != "<="@[0]);
    assert(">="@.len() != "<"@.len());
    assert(">"@.len() != "=="@.len());
    assert(">"@.len() != "<="@.len());
    assert(">"@[0] != "<"@[0]);
    assert(">"@.len() != ">="@.len());
    assert("!="@[0] != "=="@[0]);
    assert("!="@[0] != "<="@[0]);
    assert("!="@.len() != "<"@.len());
    assert("!="@[0] != ">="@[0]);
    assert("!="@.len() != ">"@.len());
    assert("!!"@[0] != "=="@[0]);
    assert("!!"@[0] != "<="@[0]);
    assert("!!"@.len() != "<"@.len());
    assert("!!"@[0] != ">="@[0]);
    assert("!!"@.len() != ">"@.len());
    assert("!!"@[1] != "!="@[1]);
    assert("!"@.len() != "=="@.len());
    assert("!"@.len() != "<="@.len());
    assert("!"@[0] != "<"@[0]);
    assert("!"@.len() != ">="@.len());
    assert("!"@[0] != ">"@[0]);
    assert("!"@.len() != "!="@.len());
    assert("!"@.len() != "!!"@.len());
    assert("??"@[0] != "=="@[0]);
    assert("??"@[0] != "<="@[0]);
    assert("??"@.len() != "<"@.len());
    assert("??"@[0] != ">="@[0]);
    assert("??"@.len() != ">"@.len());
    assert("??"@[0] != "!="@[0]);
    assert("??"@[0] != "!!"@[0]);
    assert("??"@.len() != "!"@.len());
    assert("?"@.len() != "=="@.len());
    assert("?"@.len() != "<="@.len());
    assert("?"@[0] != "<"@[0]);
    assert("?"@.len() != ">="@.len());
    assert("?"@[0] != ">"@[0]);
    assert("?"@.len() != "!="@.len());
    assert("?"@.len() != "!!"@.len());
    assert("?"@[0] != "!"@[0]);
    assert("?"@.len() != "??"@.len());
    assert("&&"@[0] != "=="@[0]);
    assert("&&"@[0] != "<="@[0]);
    assert("&&"@.len() != "<"@.len());
    assert("&&"@[0] != ">="@[0]);
    assert("&&"@.len() != ">"@.len());
    assert("&&"@[0] != "!="@[0]);
    assert("&&"@[0] != "!!"@[0]);
    assert("&&"@.len() != "!"@.len());
    assert("&&"@[0] != "??"@[0]);
    assert("&&"@.len() != "?"@.len());
    assert("&"@.len() != "=="@.len());
    assert("&"@.len() != "<="@.len());
    assert("&"@[0] != "<"@[0]);
    assert("&"@.len() != ">="@.len());
    assert("&"@[0] != ">"@[0]);
    assert("&"@.len() != "!="@.len());
    assert("&"@.len() != "!!"@.len());
    assert("&"@[0] != "!"@[0]);
    assert("&"@.len() != "??"@.len());
    assert("&"@[0] != "?"@[0]);
    assert("&"@.len() != "&&"@.len());
    assert("||"@[0] != "=="@[0]);
    assert("||"@[0] != "<="@[0]);
    assert("||"@.len() != "<"@.len());
    assert("||"@[0] != ">="@[0]);
    assert("||"@.len() != ">"@.len());
    assert("||"@[0] != "!="@[0]);
    assert("||"@[0] != "!!"@[0]);
    assert("||"@.len() != "!"@.len());
    assert("||"@[0] != "??"@[0]);
    assert("||"@.len() != "?"@.len());
    assert("||"@[0] != "&&"@[0]);
    assert("||"@.len() != "&"@.len());
    assert("|"@.len() != "=="@.len());
    assert("|"@.len() != "<="@.len());
    assert("|"@[0] != "<"@[0]);
    assert("|"@.len() != ">="@.len());
    assert("|"@[0] != ">"@[0]);
    assert("|"@.len() != "!="@.len());
    assert("|"@.len() != "!!"@.len());
    assert("|"@[0] != "!"@[0]);
    assert("|"@.len() != "??"@.len());
    assert("|"@[0] != "?"@[0]);
    assert("|"@.len() != "&&"@.len());
    assert("|"@[0] != "&"@[0]);
    assert("|"@.len() != "||"@.len());
}

/// Reading back the symbol of an operator gives the operator, for every
/// operator but the type cast (whose `as` reads as the type test) and the
/// arithmetic `|` and `~/` (which read as the comparison `|`, and as none).
pub proof fn lemma_op_symbol_roundtrip(op: Operator)
    requires
        op != Operator::TypeCast,
        op != Operator::Arithmetic(ArithmeticOperator::BitwiseOr),
        op != Operator::Arithmetic(ArithmeticOperator::BitwiseNot),
    ensures
        op_from_symbol(op_symbol(op)) == Some(op),
{
    reveal_strlit("!");
    reveal_strlit("!!");
    reveal_strlit("!=");
    reveal_strlit("%");
    reveal_strlit("&");
    reveal_strlit("&&");
    reveal_strlit("*");
    reveal_strlit("**");
    reveal_strlit("+");
    reveal_strlit("-");
    reveal_strlit("/");
    reveal_strlit("<");
    reveal_strlit("<=");
    reveal_strlit("==");
    reveal_strlit(">");
    reveal_strlit(">=");
    reveal_strlit("?");
    reveal_strlit("??");
    reveal_strlit("as");
    reveal_strlit("is");
    reveal_strlit("|");
    reveal_strlit("||");
    reveal_strlit("~/");
    assert("!"@[0] != "%"@[0]);
    assert("!"@[0] != "*"@[0]);
    assert("!"@.len() != "**"@.len());
    assert("!"@[0] != "+"@[0]);
    assert("!"@[0] != "-"@[0]);
    assert("!"@[0] != "/"@[0]);
    assert("!!"@.len() != "%"@.len());
    assert("!!"@.len() != "*"@.len());
    assert("!!"@[0] != "**"@[0]);
    assert("!!"@.len() != "+"@.len());
    assert("!!"@.len() != "-"@.len());
    assert("!!"@.len() != "/"@.len());
    assert("!="@.len() != "%"@.len());
    assert("!="@.len() != "*"@.len());
    assert("!="@[0] != "**"@[0]);
    assert("!="@.len() != "+"@.len());
    assert("!="@.len() != "-"@.len());
    assert("!="@.len() != "/"@.len());
    assert("&"@[0] != "%"@[0]);
    assert("&"@[0] != "*"@[0]);
    assert("&"@.len() != "**"@.len());
    assert("&"@[0] != "+"@[0]);
    assert("&"@[0] != "-"@[0]);
    assert("&"@[0] != "/"@[0]);
    assert("&&"@.len() != "%"@.len());
    assert("&&"@.len() != "*"@.len());
    assert("&&"@[0] != "**"@[0]);
    assert("&&"@.len() != "+"@.len());
    assert("&&"@.len() != "-"@.len());
    assert("&&"@.len() != "/"@.len());
    assert("<"@[0] != "%"@[0]);
    assert("<"@[0] != "*"@[0]);
    assert("<"@.len() != "**"@.len());
    assert("<"@[0] != "+"@[0]);
    assert("<"@[0] != "-"@[0]);
    assert("<"@[0] != "/"@[0]);
    assert("<="@.len() != "%"@.len());
    assert("<="@.len() != "*"@.len());
    assert("<="@[0] != "**"@[0]);
    assert("<="@.len() != "+"@.len());
    assert("<="@.len() != "-"@.len());
    assert("<="@.len() != "/"@.len());
    assert("=="@.len() != "%"@.len());
    assert("=="@.len() != "*"@.len());
    assert("=="@[0] != "**"@[0]);
    assert("=="@.len() != "+"@.len());
    assert("=="@.len() != "-"@.len());
    assert("=="@.len() != "/"@.len());
    assert(">"@[0] != "%"@[0]);
    assert(">"@[0] != "*"@[0]);
    assert(">"@.len() != "**"@.len());
    assert(">"@[0] != "+"@[0]);
    assert(">"@[0] != "-"@[0]);
    assert(">"@[0] != "/"@[0]);
    assert(">="@.len() != "%"@.len());
    assert(">="@.len() != "*"@.len());
    assert(">="@[0] != "**"@[0]);
    assert(">="@.len() != "+"@.len());
    assert(">="@.len() != "-"@.len());
    assert(">="@.len() != "/"@.len());
    assert("?"@[0] != "%"@[0]);
    assert("?"@[0] != "*"@[0]);
    assert("?"@.len() != "**"@.len());
    assert("?"@[0] != "+"@[0]);
    assert("?"@[0] != "-"@[0]);
    assert("?"@[0] != "/"@[0]);
    assert("??"@.len() != "%"@.len());
    assert("??"@.len() != "*"@.len());
    assert("??"@[0] != "**"@[0]);
    assert("??"@.len() != "+"@.len());
    assert("??"@.len() != "-"@.len());
    assert("??"@.len() != "/"@.len());
    assert("as"@.len() != "!"@.len());
    assert("as"@[0] != "!!"@[0]);
    assert("as"@[0] != "!="@[0]);
    assert("as"@.len() != "%"@.len());
    assert("as"@.len() != "&"@.len());
    assert("as"@[0] != "&&"@[0]);
    assert("as"@.len() != "*"@.len());
    assert("as"@[0] != "**"@[0]);
    assert("as"@.len() != "+"@.len());
    assert("as"@.len() != "-"@.len());
    assert("as"@.len() != "/"@.len());
    assert("as"@.len() != "<"@.len());
    assert("as"@[0] != "<="@[0]);
    assert("as"@[0] != "=="@[0]);
    assert("as"@.len() != ">"@.len());
    assert("as"@[0] != ">="@[0]);
    assert("as"@.len() != "?"@.len());
    assert("as"@[0] != "??"@[0]);
    assert("as"@.len() != "|"@.len());
    assert("as"@[0] != "||"@[0]);
    assert("is"@.len() != "!"@.len());
    assert("is"@[0] != "!!"@[0]);
    assert("is"@[0] != "!="@[0]);
    assert("is"@.len() != "%"@.len());
    assert("is"@.len() != "&"@.len());
    assert("is"@[0] != "&&"@[0]);
    assert("is"@.len() != "*"@.len());
    assert("is"@[0] != "**"@[0]);
    assert("is"@.len() != "+"@.len());
    assert("is"@.len() != "-"@.len());
    assert("is"@.len() != "/"@.len());
    assert("is"@.len() != "<"@.len());
    assert("is"@[0] != "<="@[0]);
    assert("is"@[0] != "=="@[0]);
    assert("is"@.len() != ">"@.len());
    assert("is"@[0] != ">="@[0]);
    assert("is"@.len() != "?"@.len());
    assert("is"@[0] != "??"@[0]);
    assert("is"@.len() != "|"@.len());
    assert("is"@[0] != "||"@[0]);
    assert("|"@[0] != "%"@[0]);
    assert("|"@[0] != "*"@[0]);
    assert("|"@.len() != "**"@.len());
    assert("|"@[0] != "+"@[0]);
    assert("|"@[0] != "-"@[0]);
    assert("|"@[0] != "/"@[0]);
    assert("||"@.len() != "%"@.len());
    assert("||"@.len() != "*"@.len());
    assert("||"@[0] != "**"@[0]);
    assert("||"@.len() != "+"@.len());
    assert("||"@.len() != "-"@.len());
    assert("||"@.len() != "/"@.len());
    match op {
        Operator::Arithmetic(a) => lemma_arith_symbol_roundtrip(a),
        Operator::Comparison(c) => {
            lemma_cmp_symbol_roundtrip(c);
        },
        _ => {},
    }
}

/// Every precedence lies between 0 (type tests and casts) and 10.
pub proof fn lemma_precedence_range(op: Operator)
    ensures
        op_precedence(op) <= 10,
        op_precedence(op) == 0 <==> (op == Operator::TypeCast || op == Operator::TypeTest),
{
}

/// Pkl's grouping: every arithmetic operator binds tighter than every
/// comparison or logical operator; comparisons bind tighter than `&&`,
/// `&&` than `||`, and `||` than `??`.
pub proof fn lemma_precedence_grouping(a: ArithmeticOperator, c: ComparisonOperator)
    ensures
        arith_precedence(a) > cmp_precedence(c),
        (c == ComparisonOperator::Equal || c == ComparisonOperator::NotEqual || c == ComparisonOperator::LessThan
            || c == ComparisonOperator::LessThanOrEqual || c == ComparisonOperator::GreaterThan
            || c == ComparisonOperator::GreaterThanOrEqual) ==> cmp_precedence(c) > cmp_precedence(
            ComparisonOperator::LogicalAnd,
        ),
        cmp_precedence(ComparisonOperator::LogicalAnd) > cmp_precedence(ComparisonOperator::LogicalOr),
        cmp_precedence(ComparisonOperator::LogicalOr) > cmp_precedence(ComparisonOperator::DoubleQuestion),
{
}

} // verus!
