//! Plain values on their way to and from scripts.

use vstd::prelude::*;

verus! {

/// A plain value that a script gives or gets. Floating-point values are held
/// by their bits.
#[derive(Clone, Debug)]
pub enum ScriptValue {
    Unit,
    Bool(bool),
    Int(i64),
    IntPair(i64, i64),
    /// A double-precision value, by its bits.
    Float(u64),
    /// Two single-precision values, by their bits.
    FloatPair(u32, u32),
    Text(String),
    /// A value of another kind.
    Other,
}

/// A plain value as a mathematical value.
pub enum ScriptValueView {
    Unit,
    Bool(bool),
    Int(i64),
    IntPair(i64, i64),
    Float(u64),
    FloatPair(u32, u32),
    Text(Seq<char>),
    Other,
}

impl View for ScriptValue {
    type V = ScriptValueView;

    open spec fn view(&self) -> ScriptValueView {
        match self {
            ScriptValue::Unit => ScriptValueView::Unit,
            ScriptValue::Bool(b) => ScriptValueView::Bool(*b),
            ScriptValue::Int(n) => ScriptValueView::Int(*n),
            ScriptValue::IntPair(a, b) => ScriptValueView::IntPair(*a, *b),
            ScriptValue::Float(f) => ScriptValueView::Float(*f),
            ScriptValue::FloatPair(a, b) => ScriptValueView::FloatPair(*a, *b),
            ScriptValue::Text(s) => ScriptValueView::Text(s@),
            ScriptValue::Other => ScriptValueView::Other,
        }
    }
}

/// An argument of a script call.
pub enum CallArg {
    /// A script value, such as a plugin's state or its `rx` context.
    Value(rune::Value),
    Int(i64),
    Text(String),
}

/// An argument of a script call as a mathematical value.
pub enum ArgView {
    Value(rune::Value),
    Int(i64),
    Text(Seq<char>),
}

impl View for CallArg {
    type V = ArgView;

    open spec fn view(&self) -> ArgView {
        match self {
            CallArg::Value(v) => ArgView::Value(*v),
            CallArg::Int(n) => ArgView::Int(*n),
            CallArg::Text(s) => ArgView::Text(s@),
        }
    }
}

/// The arguments of a call as mathematical values.
pub open spec fn arg_views(args: Seq<CallArg>) -> Seq<ArgView> {
    args.map_values(|a: CallArg| a@)
}

/// Plain values are seen as what they are.
pub proof fn values_are_seen_as_they_are(b: bool, m: i64, n: i64, f: u64, x: u32, y: u32, s: String)
    ensures
        ScriptValue::Unit@ == ScriptValueView::Unit,
        ScriptValue::Bool(b)@ == ScriptValueView::Bool(b),
        ScriptValue::Int(n)@ == ScriptValueView::Int(n),
        ScriptValue::IntPair(m, n)@ == ScriptValueView::IntPair(m, n),
        ScriptValue::Float(f)@ == ScriptValueView::Float(f),
        ScriptValue::FloatPair(x, y)@ == ScriptValueView::FloatPair(x, y),
        ScriptValue::Text(s)@ == ScriptValueView::Text(s@),
        ScriptValue::Other@ == ScriptValueView::Other,
{
}

/// Arguments are seen as what they are, one for one.
pub proof fn arguments_are_seen_one_for_one(
    args: Seq<CallArg>,
    value: rune::Value,
    n: i64,
    s: String,
)
    ensures
        CallArg::Value(value)@ == ArgView::Value(value),
        CallArg::Int(n)@ == ArgView::Int(n),
        CallArg::Text(s)@ == ArgView::Text(s@),
        arg_views(args).len() == args.len(),
        forall|i: int| 0 <= i < args.len() ==> #[trigger] arg_views(args)[i] == args[i]@,
{
}

} // verus!
