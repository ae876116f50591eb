use crate::csv::{pending_records, records_view, same_arity, strings_view, Csv};
use crate::eval::{bindable, rule_matches, EvalContext};
use crate::rule::{compiled_texts, CompiledRule};
use crate::value::{coerce, coerce_spec, Typed};
use vstd::prelude::*;

verus! {

/// One rule satisfied by one record.
pub struct Match {
    pub csv: Vec<String>,
    pub rule: String,
}

/// A match as values: the record's cells and the rule's text.
pub struct MatchView {
    pub record: Seq<Seq<char>>,
    pub rule: Seq<char>,
}

impl View for Match {
    type V = MatchView;

    open spec fn view(&self) -> MatchView {
        MatchView { record: strings_view(self.csv@), rule: self.rule@ }
    }
}

pub open spec fn matches_view(v: Seq<Match>) -> Seq<MatchView> {
    v.map_values(|m: Match| m@)
}

/// The evaluation context of one record: each header, in column order, bound to
/// its coerced cell; `None` where a header repeats with cells of different kinds.
pub open spec fn context_of(headers: Seq<Seq<char>>, cells: Seq<Seq<char>>) -> Option<
    Map<Seq<char>, Typed>,
>
    decreases headers.len(),
{
    if headers.len() == 0 {
        Some(Map::empty())
    } else {
        match context_of(headers.drop_last(), cells) {
            None => None,
            Some(m) => {
                let v = coerce_spec(cells[headers.len() - 1]);
                if bindable(m, headers.last(), v) {
                    Some(m.insert(headers.last(), v))
                } else {
                    None
                }
            },
        }
    }
}

/// The matches of one record, one for each rule that it satisfies, in rule order.
pub open spec fn record_matches(
    rules: Seq<Seq<char>>,
    values: Map<Seq<char>, Typed>,
    cells: Seq<Seq<char>>,
) -> Seq<MatchView>
    decreases rules.len(),
{
    if rules.len() == 0 {
        Seq::empty()
    } else {
        let prev = record_matches(rules.drop_last(), values, cells);
        if rule_matches(rules.last(), values) {
            prev.push(MatchView { record: cells, rule: rules.last() })
        } else {
            prev
        }
    }
}

/// The matches of a document, record by record; `None` where some record has no
/// context.
pub open spec fn document_matches(
    headers: Seq<Seq<char>>,
    records: Seq<Seq<Seq<char>>>,
    rules: Seq<Seq<char>>,
) -> Option<Seq<MatchView>>
    decreases records.len(),
{
    if records.len() == 0 {
        Some(Seq::empty())
    } else {
        match (document_matches(headers, records.drop_last(), rules), context_of(headers, records.last())) {
            (Some(prev), Some(values)) => Some(prev + record_matches(rules, values, records.last())),
            _ => None,
        }
    }
}

fn copy_strings(v: &Vec<String>) -> (r: Vec<String>)
    ensures
        strings_view(r@) == strings_view(v@),
{
    let mut r: Vec<String> = Vec::new();
    let mut i: usize = 0;
    while i < v.len()
        invariant
            i <= v@.len(),
            strings_view(r@) == strings_view(v@.take(i as int)),
        decreases v@.len() - i,
    {
        let ghost prev = r@;
        r.push(v[i].clone());
        proof {
            assert(r@ == prev.push(r@.last()));
            assert(strings_view(r@) =~= strings_view(prev).push(r@.last()@));
            assert(strings_view(v@.take(i + 1)) =~= strings_view(v@.take(i as int)).push(v@[i as int]@));
        }
        i = i + 1;
    }
    assert(v@.take(v@.len() as int) =~= v@);
    r
}

/// Builds the evaluation context of one record.
pub fn build_context(headers: &Vec<String>, cells: &Vec<String>) -> (r: Option<EvalContext>)
    requires
        cells@.len() == headers@.len(),
    ensures
        r is Some == context_of(strings_view(headers@), strings_view(cells@)) is Some,
        r matches Some(c) ==> context_of(strings_view(headers@), strings_view(cells@)) == Some(
            c.values(),
        ),
{
    let ghost hs = strings_view(headers@);
    let ghost cs = strings_view(cells@);
    let mut context = EvalContext::new();
    assert(context.values() =~= Map::<Seq<char>, Typed>::empty());
    let mut i: usize = 0;
    while i < headers.len()
        invariant
            i <= headers@.len(),
            cells@.len() == headers@.len(),
            hs == strings_view(headers@),
            cs == strings_view(cells@),
            context_of(hs.take(i as int), cs) == Some(context.values()),
        decreases headers@.len() - i,
    {
        let v = coerce(cells[i].as_str());
        let ok = context.set_value(&headers[i], &v);
        proof {
            assert(hs.take(i + 1).drop_last() =~= hs.take(i as int));
            assert(hs.take(i + 1).last() == headers@[i as int]@);
        }
        if !ok {
            proof {
                lemma_context_none_extends(hs, cs, i as int + 1);
            }
            return None;
        }
        i = i + 1;
    }
    assert(hs.take(headers@.len() as int) =~= hs);
    Some(context)
}

/// Once the context of a prefix of the headers is `None`, so is every longer one.
proof fn lemma_context_none_extends(hs: Seq<Seq<char>>, cs: Seq<Seq<char>>, n: int)
    requires
        0 <= n <= hs.len(),
        context_of(hs.take(n), cs) is None,
    ensures
        context_of(hs, cs) is None,
    decreases hs.len() - n,
{
    if n < hs.len() {
        assert(hs.take(n + 1).drop_last() =~= hs.take(n));
        lemma_context_none_extends(hs, cs, n + 1);
    } else {
        assert(hs.take(n) =~= hs);
    }
}

/// Once the matches of a prefix of the records are `None`, so are those of every
/// longer one.
proof fn lemma_document_none_extends(
    headers: Seq<Seq<char>>,
    records: Seq<Seq<Seq<char>>>,
    rules: Seq<Seq<char>>,
    n: int,
)
    requires
        0 <= n <= records.len(),
        document_matches(headers, records.take(n), rules) is None,
    ensures
        document_matches(headers, records, rules) is None,
    decreases records.len() - n,
{
    if n < records.len() {
        assert(records.take(n + 1).drop_last() =~= records.take(n));
        lemma_document_none_extends(headers, records, rules, n + 1);
    } else {
        assert(records.take(n) =~= records);
    }
}

/// Evaluates every rule, in order, against one record's context and appends a match
/// for each rule that holds.
fn match_record(
    context: &EvalContext,
    cells: &Vec<String>,
    rules: &Vec<CompiledRule>,
    out: &mut Vec<Match>,
)
    ensures
        matches_view(final(out)@) == matches_view(old(out)@) + record_matches(
            compiled_texts(rules@),
            context.values(),
            strings_view(cells@),
        ),
{
    let ghost rs = compiled_texts(rules@);
    let ghost cs = strings_view(cells@);
    let ghost start = matches_view(out@);
    assert(start + record_matches(rs.take(0), context.values(), cs) =~= start);
    let mut i: usize = 0;
    while i < rules.len()
        invariant
            i <= rules@.len(),
            rs == compiled_texts(rules@),
            cs == strings_view(cells@),
            matches_view(out@) == start + record_matches(rs.take(i as int), context.values(), cs),
        decreases rules@.len() - i,
    {
        proof {
            assert(rs.take(i + 1).drop_last() =~= rs.take(i as int));
            assert(rs.take(i + 1).last() == rules@[i as int]@);
        }
        if context.matches(&rules[i]) {
            let ghost prev = out@;
            let m = Match { csv: copy_strings(cells), rule: rules[i].rule().clone() };
            out.push(m);
            proof {
                assert(out@ == prev.push(m));
                assert(matches_view(out@) =~= matches_view(prev).push(m@));
                assert(m@ == MatchView { record: cs, rule: rs.take(i + 1).last() });
                assert(matches_view(out@) =~= start + record_matches(rs.take(i + 1), context.values(), cs));
            }
        }
        i = i + 1;
    }
    assert(rs.take(rules@.len() as int) =~= rs);
}

/// The matches of a document whose records have one cell per header: for each
/// record in order, one match per rule that it satisfies, in rule order. `None`
/// where a header repeats over cells of different kinds.
pub fn process_records(
    headers: &Vec<String>,
    records: &Vec<Vec<String>>,
    rules: &Vec<CompiledRule>,
) -> (r: Option<Vec<Match>>)
    requires
        forall|i: int| 0 <= i < records@.len() ==> (#[trigger] records@[i])@.len() == headers@.len(),
    ensures
        r is Some == document_matches(strings_view(headers@), records_view(records@), compiled_texts(rules@)) is Some,
        r matches Some(v) ==> document_matches(strings_view(headers@), records_view(records@), compiled_texts(rules@))
            == Some(matches_view(v@)),
{
    let ghost hs = strings_view(headers@);
    let ghost recs = records_view(records@);
    let ghost rs = compiled_texts(rules@);
    let mut results: Vec<Match> = Vec::new();
    assert(matches_view(results@) =~= Seq::<MatchView>::empty());
    let mut i: usize = 0;
    while i < records.len()
        invariant
            i <= records@.len(),
            hs == strings_view(headers@),
            recs == records_view(records@),
            rs == compiled_texts(rules@),
            forall|j: int| 0 <= j < records@.len() ==> (#[trigger] records@[j])@.len() == headers@.len(),
            document_matches(hs, recs.take(i as int), rs) == Some(matches_view(results@)),
        decreases records@.len() - i,
    {
        proof {
            assert(recs.take(i + 1).drop_last() =~= recs.take(i as int));
            assert(recs.take(i + 1).last() == strings_view(records@[i as int]@));
        }
        match build_context(headers, &records[i]) {
            Some(context) => {
                match_record(&context, &records[i], rules, &mut results);
            },
            None => {
                proof {
                    lemma_document_none_extends(hs, recs, rs, i + 1);
                }
                return None;
            },
        }
        i = i + 1;
    }
    assert(recs.take(records@.len() as int) =~= recs);
    Some(results)
}

/// Processes one document with a rule set: for each of the records the reader has
/// yet to yield, in order, one match per rule that the record satisfies, in rule
/// order. An error where a record cannot be read, has a field count other than the
/// header row's, or cannot be given a context.
pub fn process_file<'a>(csv: Csv<&'a [u8]>, rules: &Vec<CompiledRule>) -> (r: Result<Vec<Match>, String>)
    ensures
        r is Ok <==> (pending_records(csv.reader) matches Some(recs) && same_arity(
            strings_view(csv.headers@),
            recs,
        ) && document_matches(strings_view(csv.headers@), recs, compiled_texts(rules@)) is Some),
        r matches Ok(v) ==> document_matches(
            strings_view(csv.headers@),
            pending_records(csv.reader)->Some_0,
            compiled_texts(rules@),
        ) == Some(matches_view(v@)),
{
    let headers = copy_strings(&csv.headers);
    let ghost hs = strings_view(csv.headers@);
    let ghost pending = pending_records(csv.reader);
    assert(headers@.len() == strings_view(headers@).len());
    assert(csv.headers@.len() == hs.len());
    match csv.records() {
        Ok(records) => {
            let ghost recs = records_view(records@);
            proof {
                assert forall|i: int| 0 <= i < records@.len() implies (#[trigger] records@[i])@.len()
                    == headers@.len() by {
                    assert(recs[i] == strings_view(records@[i]@));
                }
            }
            match process_records(&headers, &records, rules) {
                Some(v) => Ok(v),
                None => Err("a column name repeats over cells of different kinds".to_string()),
            }
        },
        Err(e) => Err(e),
    }
}

/// The matches of a document split in two runs of records are the matches of the
/// first run followed by those of the second: records keep their order.
pub proof fn lemma_matches_keep_record_order(
    headers: Seq<Seq<char>>,
    first: Seq<Seq<Seq<char>>>,
    second: Seq<Seq<Seq<char>>>,
    rules: Seq<Seq<char>>,
)
    requires
        document_matches(headers, first + second, rules) is Some,
    ensures
        document_matches(headers, first, rules) is Some,
        document_matches(headers, second, rules) is Some,
        document_matches(headers, first + second, rules)->Some_0 == document_matches(
            headers,
            first,
            rules,
        )->Some_0 + document_matches(headers, second, rules)->Some_0,
    decreases second.len(),
{
    if second.len() == 0 {
        assert(first + second =~= first);
        assert(document_matches(headers, second, rules)->Some_0 =~= Seq::<MatchView>::empty());
        assert(document_matches(headers, first, rules)->Some_0 + Seq::<MatchView>::empty()
            =~= document_matches(headers, first, rules)->Some_0);
    } else {
        assert((first + second).drop_last() =~= first + second.drop_last());
        assert((first + second).last() == second.last());
        lemma_matches_keep_record_order(headers, first, second.drop_last(), rules);
        let a = document_matches(headers, first, rules)->Some_0;
        let b = document_matches(headers, second.drop_last(), rules)->Some_0;
        let values = context_of(headers, second.last())->Some_0;
        let c = record_matches(rules, values, second.last());
        assert(a + b + c =~= a + (b + c));
    }
}

} // verus!
