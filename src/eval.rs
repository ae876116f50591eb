use crate::rule::CompiledRule;
use crate::value::{string_contains, Typed, TypedValue};
use evalexpr::{
    Context, ContextWithMutableFunctions, ContextWithMutableVariables, DefaultNumericTypes, Function,
    HashMapContext, Value,
};
use vstd::prelude::*;

verus! {

/// The variables of one evaluation context, by name. A context also knows the
/// built-in `string_contains`, and no other function.
pub uninterp spec fn context_values(c: EvalContext) -> Map<Seq<char>, Typed>;

/// Whether `v` may be bound to `name` in `m`: a new name always may; a bound one
/// only to a value of the same kind.
pub open spec fn bindable(m: Map<Seq<char>, Typed>, name: Seq<char>, v: Typed) -> bool {
    m.contains_key(name) ==> (m[name] is Float <==> v is Float)
}

/// What a rule's text evaluates to against a context's variables: `Some(b)` when it
/// yields the boolean `b`; `None` when it yields anything else or fails (an unknown
/// column, an operator applied to operands of the wrong kind).
pub uninterp spec fn rule_result(rule: Seq<char>, values: Map<Seq<char>, Typed>) -> Option<bool>;

/// A per-record evaluation context, held as evalexpr's `HashMapContext`.
#[verifier::external_body]
pub struct EvalContext {
    vars: HashMapContext<DefaultNumericTypes>,
}

/// Relies on `HashMapContext::new`, which holds no variables; on `set_function`,
/// which registers `string_contains`; and on `set_builtin_functions_disabled`, after
/// which a call reaches only the functions registered here, none of evalexpr's own
/// built-ins. The built-in reads its argument with `Value::as_tuple` (an error
/// unless two or more arguments were given) and hands its first two members to
/// `string_contains`, each as text where `Value::as_string` gives one.
#[verifier::external_body]
fn context_with_builtin() -> (r: EvalContext)
    ensures
        context_values(r).dom() == Set::<Seq<char>>::empty(),
{
    let mut vars = HashMapContext::<DefaultNumericTypes>::new();
    let f = Function::new(|arg: &Value<DefaultNumericTypes>| {
        let args = arg.as_tuple()?;
        let text = |i: usize| args.get(i).and_then(|a| a.as_string().ok());
        Ok(Value::Boolean(string_contains(text(0), text(1))))
    });
    let _ = vars.set_function("string_contains".to_string(), f);
    let _ = vars.set_builtin_functions_disabled(true);
    EvalContext { vars }
}

/// Relies on `HashMapContext::set_value`: a new name is added; a bound name is
/// overwritten by a value of the same type; otherwise the call fails and leaves the
/// context as it was. A float's text is read with `str::parse`.
#[verifier::external_body]
fn set_variable(c: &mut EvalContext, name: &String, v: &TypedValue) -> (r: bool)
    requires
        v.wf(),
    ensures
        r == bindable(context_values(*old(c)), name@, v@),
        r ==> context_values(*final(c)) == context_values(*old(c)).insert(name@, v@),
        !r ==> context_values(*final(c)) == context_values(*old(c)),
{
    let value = match v {
        TypedValue::Float(s) => Value::from_float(s.parse().unwrap_or_default()),
        TypedValue::Text(s) => Value::from(s.as_str()),
    };
    c.vars.set_value(name.clone(), value).is_ok()
}

/// Relies on `Node::eval_with_context`: the tree parsed from the rule's text,
/// evaluated against the context; `Some(b)` for the boolean `b`, `None` for any other
/// value or an error.
#[verifier::external_body]
fn evaluate(rule: &CompiledRule, c: &EvalContext) -> (r: Option<bool>)
    ensures
        r == rule_result(rule@, context_values(*c)),
{
    match rule.compiled.node.eval_with_context(&c.vars) {
        Ok(Value::Boolean(b)) => Some(b),
        _ => None,
    }
}

/// Whether a rule matches a context: it evaluates to `true`. A `false`, a value
/// that is not a boolean, and an evaluation error are all no match.
pub open spec fn rule_matches(rule: Seq<char>, values: Map<Seq<char>, Typed>) -> bool {
    rule_result(rule, values) == Some(true)
}

impl EvalContext {
    pub closed spec fn values(self) -> Map<Seq<char>, Typed> {
        context_values(self)
    }

    /// An empty context whose one function is the built-in `string_contains`.
    pub fn new() -> (c: EvalContext)
        ensures
            c.values().dom() == Set::<Seq<char>>::empty(),
    {
        context_with_builtin()
    }

    /// Binds a column name to a typed value; false, with the context unchanged,
    /// when the name is bound to a value of the other kind.
    pub fn set_value(&mut self, name: &String, v: &TypedValue) -> (r: bool)
        requires
            v.wf(),
        ensures
            r == bindable(old(self).values(), name@, v@),
            r ==> final(self).values() == old(self).values().insert(name@, v@),
            !r ==> final(self).values() == old(self).values(),
    {
        set_variable(self, name, v)
    }

    /// Whether the rule evaluates to `true` here. Errors of evaluation are
    /// never raised: they count as no match.
    pub fn matches(&self, rule: &CompiledRule) -> (r: bool)
        ensures
            r == rule_matches(rule@, self.values()),
    {
        match evaluate(rule, self) {
            Some(b) => b,
            None => false,
        }
    }
}

} // verus!
