use vstd::prelude::*;
use vstd::string::StrSliceExecFns;
use crate::json::{Json, Number};

verus! {

/// The free variable that an expression is bound to.
#[derive(Clone, Copy, Debug, PartialEq, Eq, Structural)]
pub enum Variable {
    Tick,
    T,
}

impl Variable {
    pub open spec fn spec_name(self) -> Seq<char> {
        match self {
            Variable::Tick => "tick"@,
            Variable::T => "t"@,
        }
    }

    pub fn name(&self) -> (r: &'static str)
        ensures
            r@ == self.spec_name(),
    {
        match self {
            Variable::Tick => "tick",
            Variable::T => "t",
        }
    }
}

pub open spec fn is_space(c: char) -> bool {
    c == ' ' || c == '\t' || c == '\r' || c == '\n'
}

/// Text made only of spaces, tabs and line breaks: no expression.
pub open spec fn is_blank(s: Seq<char>) -> bool {
    forall|k: int| 0 <= k < s.len() ==> #[trigger] is_space(s[k])
}

/// Whether a text is blank.
pub fn blank(s: &str) -> (r: bool)
    ensures
        r == is_blank(s@),
{
    let n = s.unicode_len();
    let mut i: usize = 0;
    while i < n
        invariant
            n == s@.len(),
            i <= n,
            forall|k: int| 0 <= k < i ==> #[trigger] is_space(s@[k]),
        decreases n - i,
    {
        let c = s.get_char(i);
        if !(c == ' ' || c == '\t' || c == '\r' || c == '\n') {
            assert(!is_space(s@[i as int]));
            return false;
        }
        i = i + 1;
    }
    true
}

/// Whether `source` is an expression whose only free variable is `variable`.
pub uninterp spec fn compiles(source: Seq<char>, variable: Seq<char>) -> bool;

/// Relies on meval's `Expr::from_str` and `Expr::bind`: the text parses as an
/// expression and every variable in it is `variable` or a built-in constant. Its
/// tokenizer panics on a non-empty text of whitespace alone, which `requires` leaves out.
#[verifier::external_body]
fn compile(source: &str, variable: &str) -> (r: bool)
    requires
        !is_blank(source@),
    ensures
        r == compiles(source@, variable@),
{
    match source.parse::<meval::Expr>() {
        Ok(expr) => expr.bind(variable).is_ok(),
        Err(_) => false,
    }
}

/// A function of one number: a constant, the identity, or an expression in one variable.
#[derive(Debug)]
pub enum Param {
    Constant(Number),
    Identity,
    Expression(String, Variable),
}

pub enum ParamModel {
    Constant(Number),
    Identity,
    Expression(Seq<char>, Variable),
}

impl View for Param {
    type V = ParamModel;

    open spec fn view(&self) -> ParamModel {
        match self {
            Param::Constant(n) => ParamModel::Constant(*n),
            Param::Identity => ParamModel::Identity,
            Param::Expression(s, v) => ParamModel::Expression(s@, *v),
        }
    }
}

/// The number `mantissa * 10^exponent`.
pub open spec fn decimal(mantissa: u64, exponent: i16) -> Number {
    Number { negative: false, mantissa, exponent }
}

pub fn constant(mantissa: u64, exponent: i16) -> (r: Param)
    ensures
        r@ == ParamModel::Constant(decimal(mantissa, exponent)),
{
    Param::Constant(Number { negative: false, mantissa, exponent })
}

/// What a field of a definition binds to: `None` when its text is blank or does not compile.
/// Text is compiled against `variable`; a number gives a constant where `numeric`
/// allows one; anything else keeps `default`.
pub open spec fn bound(field: Option<Json>, variable: Variable, numeric: bool, default: ParamModel) -> Option<ParamModel> {
    match field {
        Some(Json::Text(s)) => if !is_blank(s@) && compiles(s@, variable.spec_name()) {
            Some(ParamModel::Expression(s@, variable))
        } else {
            None
        },
        Some(Json::Number(n)) => if numeric {
            Some(ParamModel::Constant(n))
        } else {
            Some(default)
        },
        _ => Some(default),
    }
}

/// Binds the field `key` of `entry`, or keeps `default`.
pub fn bind(entry: &Json, key: &str, variable: Variable, numeric: bool, default: Param) -> (r: Option<Param>)
    ensures
        r is Some <==> bound(entry.spec_get(key@), variable, numeric, default@) is Some,
        r matches Some(p) ==> bound(entry.spec_get(key@), variable, numeric, default@) == Some(p@),
{
    match entry.get(key) {
        Some(Json::Text(s)) => {
            if !blank(s.as_str()) && compile(s.as_str(), variable.name()) {
                Some(Param::Expression(s.clone(), variable))
            } else {
                None
            }
        },
        Some(Json::Number(n)) => {
            if numeric {
                Some(Param::Constant(*n))
            } else {
                Some(default)
            }
        },
        _ => Some(default),
    }
}

} // verus!
