use evalexpr::{build_operator_tree, DefaultNumericTypes, Node};
use vstd::prelude::*;

verus! {

/// The expression tree of one rule, as evalexpr builds it. Verus sees nothing
/// inside it: what it evaluates to is stated of the text it was parsed from.
#[verifier::external_body]
pub struct Tree {
    pub(crate) node: Node<DefaultNumericTypes>,
}

/// Whether a rule's text parses into an expression tree.
pub uninterp spec fn compiles(text: Seq<char>) -> bool;

/// Relies on `evalexpr::build_operator_tree`: the text parsed into an operator tree,
/// or the parser's diagnostic.
#[verifier::external_body]
fn build_tree(text: &str) -> (r: Result<Tree, String>)
    ensures
        r is Ok == compiles(text@),
{
    build_operator_tree::<DefaultNumericTypes>(text).map(|node| Tree { node }).map_err(|e| e.to_string())
}

/// One rule as written: an expression over the column names of a document.
#[derive(Debug)]
pub struct Rule {
    pub rule: String,
}

/// A rule together with the expression tree parsed from its text. The tree is
/// only ever made from the text beside it, by `compile`.
pub struct CompiledRule {
    rule: Rule,
    pub(crate) compiled: Tree,
}

impl View for CompiledRule {
    type V = Seq<char>;

    /// The rule's text.
    closed spec fn view(&self) -> Seq<char> {
        self.rule.rule@
    }
}

impl CompiledRule {
    pub fn rule(&self) -> (r: &String)
        ensures
            r@ == self@,
    {
        &self.rule.rule
    }

    pub fn compiled(&self) -> &Tree {
        &self.compiled
    }
}

/// A rule that does not parse: its text and the parser's diagnostic.
#[derive(Debug)]
pub struct RuleError {
    pub rule: String,
    pub message: String,
}

/// Parses one rule.
pub fn compile(rule: Rule) -> (r: Result<CompiledRule, RuleError>)
    ensures
        r is Ok == compiles(rule.rule@),
        r matches Ok(c) ==> c@ == rule.rule@,
        r matches Err(e) ==> e.rule@ == rule.rule@,
{
    match build_tree(rule.rule.as_str()) {
        Ok(compiled) => Ok(CompiledRule { rule, compiled }),
        Err(message) => Err(RuleError { rule: rule.rule, message }),
    }
}

/// The texts of a list of rules.
pub open spec fn texts_of(rules: Seq<Rule>) -> Seq<Seq<char>> {
    rules.map_values(|r: Rule| r.rule@)
}

/// The views of a list of compiled rules: their texts, in order.
pub open spec fn compiled_texts(rules: Seq<CompiledRule>) -> Seq<Seq<char>> {
    rules.map_values(|r: CompiledRule| r@)
}

/// Parses every rule, in order, and stops at the first that does not parse.
pub fn compile_rules(rules: Vec<Rule>) -> (r: Result<Vec<CompiledRule>, RuleError>)
    ensures
        r is Ok == (forall|i: int| 0 <= i < rules@.len() ==> compiles(#[trigger] rules@[i].rule@)),
        r matches Ok(v) ==> compiled_texts(v@) == texts_of(rules@),
        r matches Err(e) ==> exists|i: int|
            0 <= i < rules@.len() && !compiles(#[trigger] rules@[i].rule@) && e.rule@
                == rules@[i].rule@ && forall|j: int| 0 <= j < i ==> compiles(#[trigger] rules@[j].rule@),
{
    let mut compiled: Vec<CompiledRule> = Vec::new();
    let mut i: usize = 0;
    while i < rules.len()
        invariant
            0 <= i <= rules@.len(),
            forall|j: int| 0 <= j < i ==> compiles(#[trigger] rules@[j].rule@),
            compiled_texts(compiled@) == texts_of(rules@.take(i as int)),
        decreases rules@.len() - i,
    {
        let rule = Rule { rule: rules[i].rule.clone() };
        let ghost prev = compiled@;
        match compile(rule) {
            Ok(c) => {
                compiled.push(c);
                proof {
                    assert(texts_of(rules@.take(i + 1)) =~= texts_of(rules@.take(i as int)).push(
                        rules@[i as int].rule@,
                    ));
                    assert(compiled@ == prev.push(compiled@.last()));
                    assert(compiled_texts(compiled@) =~= compiled_texts(prev).push(
                        compiled@.last()@,
                    ));
                }
            },
            Err(e) => {
                return Err(e);
            },
        }
        i = i + 1;
    }
    assert(rules@.take(rules@.len() as int) =~= rules@);
    Ok(compiled)
}

} // verus!
