//! Pkl expressions over the token stream: literal values, identifiers,
//! function calls with their arguments, and member accesses `a.b` / `a.f(x)`.
//!
//! Positions are token indices: a parser takes the index of the next token
//! and gives back the index after what it read; an error carries its message
//! and the index of the token where it arose (the token count at the end of
//! the input). Class instances (`new`) and amended objects (`(name) {…}`)
//! are built by the object grammar, which this module does not hold; where
//! one would start, the parsers report that it is not supported.
use vstd::prelude::*;
use super::lexer::PklToken;

verus! {

/// A literal value in an expression.
#[derive(Debug, PartialEq)]
pub enum AstPklValue {
    Bool(bool),
    Null,
    Int(i64),
    Float(String),
    String(String),
    MultiLineString(String),
}

/// A call: the function's name and its arguments.
#[derive(Debug, PartialEq)]
pub struct FuncCall(pub String, pub Vec<PklExpr>);

/// What follows the dot of a member access.
#[derive(Debug, PartialEq)]
pub enum ExprMember {
    Identifier(String),
    FuncCall(FuncCall),
}

/// An expression.
#[derive(Debug, PartialEq)]
pub enum PklExpr {
    Identifier(String),
    Value(AstPklValue),
    MemberExpression(Box<PklExpr>, ExprMember),
    FuncCall(FuncCall),
}

/// A parse error: its message and the index of the token it points at.
pub type ParseError = (String, usize);

// ───────────────────────── the model ─────────────────────────

pub enum ValueView {
    Bool(bool),
    Null,
    Int(i64),
    Float(Seq<char>),
    String(Seq<char>),
    MultiLineString(Seq<char>),
}

pub enum MemberView {
    Identifier(Seq<char>),
    Call(Seq<char>, Seq<ExprView>),
}

pub enum ExprView {
    Identifier(Seq<char>),
    Value(ValueView),
    Member(Box<ExprView>, MemberView),
    Call(Seq<char>, Seq<ExprView>),
}

impl View for AstPklValue {
    type V = ValueView;

    open spec fn view(&self) -> ValueView {
        match self {
            AstPklValue::Bool(b) => ValueView::Bool(*b),
            AstPklValue::Null => ValueView::Null,
            AstPklValue::Int(i) => ValueView::Int(*i),
            AstPklValue::Float(f) => ValueView::Float(f@),
            AstPklValue::String(s) => ValueView::String(s@),
            AstPklValue::MultiLineString(s) => ValueView::MultiLineString(s@),
        }
    }
}

pub open spec fn expr_view(e: PklExpr) -> ExprView
    decreases e,
{
    match e {
        PklExpr::Identifier(s) => ExprView::Identifier(s@),
        PklExpr::Value(v) => ExprView::Value(v@),
        PklExpr::MemberExpression(b, m) => ExprView::Member(Box::new(expr_view(*b)), member_view(m)),
        PklExpr::FuncCall(c) => ExprView::Call(c.0@, exprs_view(c.1@)),
    }
}

pub open spec fn member_view(m: ExprMember) -> MemberView
    decreases m,
{
    match m {
        ExprMember::Identifier(s) => MemberView::Identifier(s@),
        ExprMember::FuncCall(c) => MemberView::Call(c.0@, exprs_view(c.1@)),
    }
}

pub open spec fn exprs_view(s: Seq<PklExpr>) -> Seq<ExprView>
    decreases s,
{
    if s.len() == 0 {
        seq![]
    } else {
        exprs_view(s.drop_last()).push(expr_view(s.last()))
    }
}

// ───────────────────────── the grammar ─────────────────────────

/// Tokens that the parsers step over: spaces, newlines and comments.
pub open spec fn skippable(t: PklToken) -> bool {
    t is Space || t is NewLine || t is DocComment || t is LineComment || t is MultilineComment
}

/// A member after a dot, from `p`: an identifier, or a call; spaces and
/// newlines before it are stepped over.
pub open spec fn member_from(ts: Seq<PklToken>, p: int) -> Result<(MemberView, int), (Seq<char>, int)>
    decreases ts.len() - p,
{
    if p < 0 || p >= ts.len() {
        Err(("expected identifier but got nothing"@, ts.len() as int))
    } else {
        match ts[p] {
            PklToken::Identifier(id) => Ok((MemberView::Identifier(id@), p + 1)),
            PklToken::IllegalIdentifier(id) => Ok((MemberView::Identifier(id@), p + 1)),
            PklToken::FunctionCall(f) => match call_args(ts, p + 1, f@, seq![], true) {
                Ok((n, a, q)) => Ok((MemberView::Call(n, a), q)),
                Err(e) => Err(e),
            },
            PklToken::NewLine => member_from(ts, p + 1),
            PklToken::Space => member_from(ts, p + 1),
            _ => Err(("unexpected token, expected identifier"@, p)),
        }
    }
}

/// The value a literal token gives as a call argument.
pub open spec fn argument_value(t: PklToken) -> Option<ValueView> {
    match t {
        PklToken::Bool(b) => Some(ValueView::Bool(b)),
        PklToken::Int(i) => Some(ValueView::Int(i)),
        PklToken::OctalInt(i) => Some(ValueView::Int(i)),
        PklToken::HexInt(i) => Some(ValueView::Int(i)),
        PklToken::BinaryInt(i) => Some(ValueView::Int(i)),
        PklToken::Float(f) => Some(ValueView::Float(f@)),
        PklToken::String(s) => Some(ValueView::String(s@)),
        PklToken::MultiLineString(s) => Some(ValueView::MultiLineString(s@)),
        _ => None,
    }
}

/// The arguments of a call from `p` up to its `)`, with the arguments read
/// so far and whether the next token may start an argument.
pub open spec fn call_args(
    ts: Seq<PklToken>,
    p: int,
    name: Seq<char>,
    vals: Seq<ExprView>,
    is_comma: bool,
) -> Result<(Seq<char>, Seq<ExprView>, int), (Seq<char>, int)>
    decreases ts.len() - p,
{
    if p < 0 || p >= ts.len() {
        Err(("Missing list close parenthesis"@, ts.len() as int))
    } else {
        let t = ts[p];
        if t is Dot && !is_comma {
            if vals.len() > 0 {
                match member_from(ts, p + 1) {
                    Ok((m, q)) => if p < q && q <= ts.len() {
                        call_args(ts, q, name, vals.drop_last().push(ExprView::Member(Box::new(vals.last()), m)), false)
                    } else {
                        Err(("unexpected token here"@, p))
                    },
                    Err(e) => Err(e),
                }
            } else {
                Err(("unexpected token '.'"@, p))
            }
        } else if t is Comma && !is_comma {
            call_args(ts, p + 1, name, vals, true)
        } else if t is CloseParen {
            Ok((name, vals, p + 1))
        } else if skippable(t) {
            call_args(ts, p + 1, name, vals, is_comma)
        } else if !is_comma {
            Err(("unexpected token here"@, p))
        } else {
            match t {
                PklToken::Identifier(id) => call_args(ts, p + 1, name, vals.push(ExprView::Identifier(id@)), false),
                PklToken::IllegalIdentifier(id) => call_args(ts, p + 1, name, vals.push(ExprView::Identifier(id@)), false),
                PklToken::FunctionCall(f) => match call_args(ts, p + 1, f@, seq![], true) {
                    Ok((n, a, q)) => if p < q && q <= ts.len() {
                        call_args(ts, q, name, vals.push(ExprView::Call(n, a)), false)
                    } else {
                        Err(("unexpected token here"@, p))
                    },
                    Err(e) => Err(e),
                },
                PklToken::New => Err(("class instances are not supported here"@, p)),
                _ => match argument_value(t) {
                    Some(v) => call_args(ts, p + 1, name, vals.push(ExprView::Value(v)), false),
                    None => Err(("unexpected token here"@, p)),
                },
            }
        }
    }
}

/// One expression from `p`, stepping over spaces, newlines and comments
/// before it.
pub open spec fn expr_from(ts: Seq<PklToken>, p: int) -> Result<(ExprView, int), (Seq<char>, int)>
    decreases ts.len() - p,
{
    if p < 0 || p >= ts.len() {
        Err(("empty expressions are not allowed"@, ts.len() as int))
    } else {
        let t = ts[p];
        if skippable(t) {
            expr_from(ts, p + 1)
        } else {
            match t {
                PklToken::Identifier(id) => Ok((ExprView::Identifier(id@), p + 1)),
                PklToken::IllegalIdentifier(id) => Ok((ExprView::Identifier(id@), p + 1)),
                PklToken::FunctionCall(f) => match call_args(ts, p + 1, f@, seq![], true) {
                    Ok((n, a, q)) => Ok((ExprView::Call(n, a), q)),
                    Err(e) => Err(e),
                },
                PklToken::Null => Ok((ExprView::Value(ValueView::Null), p + 1)),
                PklToken::New => Err(("class instances are not supported here"@, p)),
                PklToken::OpenParen => Err(("amended objects are not supported here"@, p)),
                _ => match argument_value(t) {
                    Some(v) => Ok((ExprView::Value(v), p + 1)),
                    None => Err(("unexpected token here"@, p)),
                },
            }
        }
    }
}

pub open spec fn member_outcome(r: Result<(ExprMember, usize), ParseError>) -> Result<(MemberView, int), (Seq<char>, int)> {
    match r {
        Ok((m, q)) => Ok((member_view(m), q as int)),
        Err((msg, at)) => Err((msg@, at as int)),
    }
}

pub open spec fn call_outcome(r: Result<(FuncCall, usize), ParseError>) -> Result<(Seq<char>, Seq<ExprView>, int), (Seq<char>, int)> {
    match r {
        Ok((c, q)) => Ok((c.0@, exprs_view(c.1@), q as int)),
        Err((msg, at)) => Err((msg@, at as int)),
    }
}

pub open spec fn expr_outcome(r: Result<(PklExpr, usize), ParseError>) -> Result<(ExprView, int), (Seq<char>, int)> {
    match r {
        Ok((e, q)) => Ok((expr_view(e), q as int)),
        Err((msg, at)) => Err((msg@, at as int)),
    }
}


proof fn lemma_exprs_view_len(s: Seq<PklExpr>)
    ensures
        exprs_view(s).len() == s.len(),
    decreases s.len(),
{
    if s.len() > 0 {
        lemma_exprs_view_len(s.drop_last());
    }
}

proof fn lemma_exprs_view_push(s: Seq<PklExpr>, e: PklExpr)
    ensures
        exprs_view(s.push(e)) == exprs_view(s).push(expr_view(e)),
{
    assert(s.push(e).drop_last() =~= s);
}

/// The member after a dot, read from token `pos` on (`parse_member_expr_member`).
pub fn parse_member_expr_member(ts: &Vec<PklToken>, pos: usize) -> (r: Result<(ExprMember, usize), ParseError>)
    requires
        pos <= ts@.len(),
    ensures
        member_outcome(r) == member_from(ts@, pos as int),
        r matches Ok((_, q)) ==> pos < q <= ts@.len(),
    decreases ts@.len() - pos, 0int,
{
    let mut p = pos;
    loop
        invariant
            pos <= p <= ts@.len(),
            member_from(ts@, pos as int) == member_from(ts@, p as int),
        decreases ts@.len() - p,
    {
        if p >= ts.len() {
            return Err(("expected identifier but got nothing".to_string(), ts.len()));
        }
        match &ts[p] {
            PklToken::Identifier(id) => {
                return Ok((ExprMember::Identifier(id.clone()), p + 1));
            },
            PklToken::IllegalIdentifier(id) => {
                return Ok((ExprMember::Identifier(id.clone()), p + 1));
            },
            PklToken::FunctionCall(f) => {
                return match parse_fn_call(ts, p + 1, f.clone()) {
                    Ok((c, q)) => Ok((ExprMember::FuncCall(c), q)),
                    Err(e) => Err(e),
                };
            },
            PklToken::NewLine => {
                p = p + 1;
            },
            PklToken::Space => {
                p = p + 1;
            },
            _ => {
                return Err(("unexpected token, expected identifier".to_string(), p));
            },
        }
    }
}

/// The arguments of a call whose name token came just before `pos`, up to
/// and including its `)` (`parse_fn_call`).
pub fn parse_fn_call(ts: &Vec<PklToken>, pos: usize, name: String) -> (r: Result<(FuncCall, usize), ParseError>)
    requires
        pos <= ts@.len(),
    ensures
        call_outcome(r) == call_args(ts@, pos as int, name@, seq![], true),
        r matches Ok((_, q)) ==> pos < q <= ts@.len(),
    decreases ts@.len() - pos, 1int,
{
    let mut values: Vec<PklExpr> = Vec::new();
    let mut is_comma = true;
    let mut p = pos;
    proof {
        assert(exprs_view(values@) =~= seq![]);
    }
    loop
        invariant
            pos <= p <= ts@.len(),
            call_args(ts@, pos as int, name@, seq![], true) == call_args(ts@, p as int, name@, exprs_view(values@), is_comma),
        decreases ts@.len() - p,
    {
        if p >= ts.len() {
            return Err(("Missing list close parenthesis".to_string(), ts.len()));
        }
        proof {
            lemma_exprs_view_len(values@);
        }
        let t = &ts[p];
        let is_dot = match t { PklToken::Dot => true, _ => false };
        let is_sep = match t { PklToken::Comma => true, _ => false };
        let is_close = match t { PklToken::CloseParen => true, _ => false };
        let skip = match t {
            PklToken::Space | PklToken::NewLine | PklToken::DocComment(_) | PklToken::LineComment(_) | PklToken::MultilineComment(_) => true,
            _ => false,
        };
        if is_dot && !is_comma {
            if values.len() > 0 {
                match parse_member_expr_member(ts, p + 1) {
                    Ok((m, q)) => {
                        let ghost before = values@;
                        let last = values.pop().unwrap();
                        proof {
                            assert(values@ == before.drop_last());
                            assert(exprs_view(before).drop_last() =~= exprs_view(values@));
                        }
                        let joined = PklExpr::MemberExpression(Box::new(last), m);
                        proof {
                            lemma_exprs_view_push(values@, joined);
                        }
                        values.push(joined);
                        is_comma = false;
                        p = q;
                    },
                    Err(e) => {
                        return Err(e);
                    },
                }
            } else {
                return Err(("unexpected token '.'".to_string(), p));
            }
        } else if is_sep && !is_comma {
            is_comma = true;
            p = p + 1;
        } else if is_close {
            return Ok((FuncCall(name, values), p + 1));
        } else if skip {
            p = p + 1;
        } else if !is_comma {
            return Err(("unexpected token here".to_string(), p));
        } else {
            let arg: PklExpr = match t {
                PklToken::Identifier(id) => PklExpr::Identifier(id.clone()),
                PklToken::IllegalIdentifier(id) => PklExpr::Identifier(id.clone()),
                PklToken::FunctionCall(f) => {
                    match parse_fn_call(ts, p + 1, f.clone()) {
                        Ok((c, q)) => {
                            proof {
                                lemma_exprs_view_push(values@, PklExpr::FuncCall(c));
                            }
                            values.push(PklExpr::FuncCall(c));
                            is_comma = false;
                            p = q;
                            continue;
                        },
                        Err(e) => {
                            return Err(e);
                        },
                    }
                },
                PklToken::New => {
                    return Err(("class instances are not supported here".to_string(), p));
                },
                PklToken::Bool(b) => PklExpr::Value(AstPklValue::Bool(*b)),
                PklToken::Int(i) => PklExpr::Value(AstPklValue::Int(*i)),
                PklToken::OctalInt(i) => PklExpr::Value(AstPklValue::Int(*i)),
                PklToken::HexInt(i) => PklExpr::Value(AstPklValue::Int(*i)),
                PklToken::BinaryInt(i) => PklExpr::Value(AstPklValue::Int(*i)),
                PklToken::Float(f) => PklExpr::Value(AstPklValue::Float(f.clone())),
                PklToken::String(x) => PklExpr::Value(AstPklValue::String(x.clone())),
                PklToken::MultiLineString(x) => PklExpr::Value(AstPklValue::MultiLineString(x.clone())),
                _ => {
                    return Err(("unexpected token here".to_string(), p));
                },
            };
            proof {
                lemma_exprs_view_push(values@, arg);
            }
            values.push(arg);
            is_comma = false;
            p = p + 1;
        }
    }
}

/// One expression read from token `pos` on (`parse_expr`).
pub fn parse_expr(ts: &Vec<PklToken>, pos: usize) -> (r: Result<(PklExpr, usize), ParseError>)
    requires
        pos <= ts@.len(),
    ensures
        expr_outcome(r) == expr_from(ts@, pos as int),
        r matches Ok((_, q)) ==> pos < q <= ts@.len(),
{
    let mut p = pos;
    loop
        invariant
            pos <= p <= ts@.len(),
            expr_from(ts@, pos as int) == expr_from(ts@, p as int),
        decreases ts@.len() - p,
    {
        if p >= ts.len() {
            return Err(("empty expressions are not allowed".to_string(), ts.len()));
        }
        let e: PklExpr = match &ts[p] {
            PklToken::Space | PklToken::NewLine | PklToken::DocComment(_) | PklToken::LineComment(_) | PklToken::MultilineComment(_) => {
                p = p + 1;
                continue;
            },
            PklToken::Identifier(id) => PklExpr::Identifier(id.clone()),
            PklToken::IllegalIdentifier(id) => PklExpr::Identifier(id.clone()),
            PklToken::FunctionCall(f) => {
                return match parse_fn_call(ts, p + 1, f.clone()) {
                    Ok((c, q)) => Ok((PklExpr::FuncCall(c), q)),
                    Err(e) => Err(e),
                };
            },
            PklToken::Null => PklExpr::Value(AstPklValue::Null),
            PklToken::New => {
                return Err(("class instances are not supported here".to_string(), p));
            },
            PklToken::OpenParen => {
                return Err(("amended objects are not supported here".to_string(), p));
            },
            PklToken::Bool(b) => PklExpr::Value(AstPklValue::Bool(*b)),
            PklToken::Int(i) => PklExpr::Value(AstPklValue::Int(*i)),
            PklToken::OctalInt(i) => PklExpr::Value(AstPklValue::Int(*i)),
            PklToken::HexInt(i) => PklExpr::Value(AstPklValue::Int(*i)),
            PklToken::BinaryInt(i) => PklExpr::Value(AstPklValue::Int(*i)),
            PklToken::Float(f) => PklExpr::Value(AstPklValue::Float(f.clone())),
            PklToken::String(x) => PklExpr::Value(AstPklValue::String(x.clone())),
            PklToken::MultiLineString(x) => PklExpr::Value(AstPklValue::MultiLineString(x.clone())),
            _ => {
                return Err(("unexpected token here".to_string(), p));
            },
        };
        return Ok((e, p + 1));
    }
}

} // verus!
