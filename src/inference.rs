//! Building an operation from what a handler's input and output types
//! declare, under the response conflict policy.
use crate::context::{conflict_for, conflict_for_key, Error, GenContext};
use crate::operation::{
    conflicts_of, record_first, set_inferred_response, Operation, Response,
};
use vstd::prelude::*;

verus! {

/// What a handler's types declare about it: the request parameters of its
/// input type, the responses its output type can produce, and the responses
/// its input type can produce before the handler runs (a rejected request).
pub struct HandlerDocs {
    pub parameters: Vec<String>,
    pub output_responses: Vec<(Option<u16>, Response)>,
    pub early_responses: Vec<(Option<u16>, Response)>,
}

/// The outcomes after offering each pair in turn, the first response for a
/// key winning.
pub open spec fn record_all(
    start: Map<Option<u16>, Response>,
    pairs: Seq<(Option<u16>, Response)>,
) -> Map<Option<u16>, Response>
    decreases pairs.len(),
{
    if pairs.len() == 0 {
        start
    } else {
        record_first(record_all(start, pairs.drop_last()), pairs.last().0, pairs.last().1)
    }
}

/// The conflicts reported while offering each pair in turn.
pub open spec fn conflicts_all(
    start: Map<Option<u16>, Response>,
    pairs: Seq<(Option<u16>, Response)>,
) -> Seq<Error>
    decreases pairs.len(),
{
    if pairs.len() == 0 {
        Seq::empty()
    } else {
        conflicts_all(start, pairs.drop_last()) + conflicts_of(
            record_all(start, pairs.drop_last()),
            pairs.last().0,
        )
    }
}

/// The outcomes after inference: output responses are recorded over the
/// existing ones, first wins; early responses, first wins among themselves,
/// then take precedence over everything recorded before.
pub open spec fn inferred_outcomes(
    start: Map<Option<u16>, Response>,
    output: Seq<(Option<u16>, Response)>,
    early: Seq<(Option<u16>, Response)>,
) -> Map<Option<u16>, Response> {
    record_all(start, output).union_prefer_right(record_all(Map::empty(), early))
}

/// The conflicts reported by inference: collisions among output responses,
/// then collisions among early responses.
pub open spec fn inference_conflicts(
    start: Map<Option<u16>, Response>,
    output: Seq<(Option<u16>, Response)>,
    early: Seq<(Option<u16>, Response)>,
) -> Seq<Error> {
    conflicts_all(start, output) + conflicts_all(Map::empty(), early)
}

fn same_key(a: Option<u16>, b: Option<u16>) -> (r: bool)
    ensures
        r == (a == b),
{
    match (a, b) {
        (Some(x), Some(y)) => x == y,
        (None, None) => true,
        _ => false,
    }
}

fn contains_key_in(keys: &Vec<Option<u16>>, key: Option<u16>) -> (r: bool)
    ensures
        r == keys@.contains(key),
{
    let mut i: usize = 0;
    while i < keys.len()
        invariant
            0 <= i <= keys@.len(),
            forall|j: int| 0 <= j < i ==> keys@[j] != key,
        decreases keys@.len() - i,
    {
        if same_key(keys[i], key) {
            return true;
        }
        i += 1;
    }
    false
}

/// Offers each output response in turn; on a collision the first stays and
/// the conflict is recorded.
pub fn record_output_responses(
    ctx: &mut GenContext,
    operation: &mut Operation,
    pairs: Vec<(Option<u16>, Response)>,
)
    ensures
        final(operation).outcomes() == record_all(old(operation).outcomes(), pairs@),
        final(operation).same_but_responses(*old(operation)),
        final(ctx).errors@ == old(ctx).errors@ + conflicts_all(old(operation).outcomes(), pairs@),
        final(ctx).infer_responses == old(ctx).infer_responses,
{
    let ghost start = operation.outcomes();
    let ghost errors0 = ctx.errors@;
    let ghost all = pairs@;
    let ghost op0 = *operation;
    let mut rest = pairs;
    assert(all.take(0) =~= Seq::<(Option<u16>, Response)>::empty());
    assert(errors0 + Seq::<Error>::empty() =~= errors0);
    while rest.len() > 0
        invariant
            rest@.len() <= all.len(),
            rest@ =~= all.skip(all.len() - rest@.len()),
            operation.outcomes() == record_all(start, all.take(all.len() - rest@.len())),
            operation.same_but_responses(op0),
            ctx.errors@ == errors0 + conflicts_all(start, all.take(all.len() - rest@.len())),
            ctx.infer_responses == old(ctx).infer_responses,
        decreases rest@.len(),
    {
        let ghost n = all.len() - rest@.len();
        let (key, res) = rest.remove(0);
        assert(all.take(n + 1).drop_last() =~= all.take(n));
        assert(all.take(n + 1).last() == all[n]);
        assert(rest@ =~= all.skip(n + 1));
        set_inferred_response(ctx, operation, key, res);
        assert(ctx.errors@ =~= errors0 + conflicts_all(start, all.take(n + 1)));
    }
    assert(all.take(all.len() as int) =~= all);
}

/// Applies each early response in turn: the first for a key wins among the
/// early responses, a repeat is recorded as a conflict, and a response
/// registered before takes the place of whatever was there.
pub fn record_early_responses(
    ctx: &mut GenContext,
    operation: &mut Operation,
    pairs: Vec<(Option<u16>, Response)>,
)
    ensures
        final(operation).outcomes() == old(operation).outcomes().union_prefer_right(
            record_all(Map::empty(), pairs@),
        ),
        final(operation).same_but_responses(*old(operation)),
        final(ctx).errors@ == old(ctx).errors@ + conflicts_all(Map::empty(), pairs@),
        final(ctx).infer_responses == old(ctx).infer_responses,
{
    let ghost base = operation.outcomes();
    let ghost errors0 = ctx.errors@;
    let ghost all = pairs@;
    let ghost op0 = *operation;
    let mut rest = pairs;
    let mut claimed: Vec<Option<u16>> = Vec::new();
    assert(all.take(0) =~= Seq::<(Option<u16>, Response)>::empty());
    assert(errors0 + Seq::<Error>::empty() =~= errors0);
    assert(base.union_prefer_right(Map::empty()) =~= base);
    while rest.len() > 0
        invariant
            rest@.len() <= all.len(),
            rest@ =~= all.skip(all.len() - rest@.len()),
            forall|k: Option<u16>|
                claimed@.contains(k) <==> #[trigger] record_all(
                    Map::empty(),
                    all.take(all.len() - rest@.len()),
                ).contains_key(k),
            operation.outcomes() == base.union_prefer_right(
                record_all(Map::empty(), all.take(all.len() - rest@.len())),
            ),
            operation.same_but_responses(op0),
            ctx.errors@ == errors0 + conflicts_all(Map::empty(), all.take(all.len() - rest@.len())),
            ctx.infer_responses == old(ctx).infer_responses,
        decreases rest@.len(),
    {
        let ghost n = all.len() - rest@.len();
        let ghost seen = record_all(Map::empty(), all.take(n));
        let (key, res) = rest.remove(0);
        assert(all.take(n + 1).drop_last() =~= all.take(n));
        assert(all.take(n + 1).last() == all[n]);
        assert(rest@ =~= all.skip(n + 1));
        if contains_key_in(&claimed, key) {
            ctx.error(conflict_for_key(key));
            assert(ctx.errors@ =~= errors0 + conflicts_all(Map::empty(), all.take(n + 1)));
        } else {
            let ghost claimed0 = claimed@;
            operation.set_response(key, res);
            claimed.push(key);
            assert(record_all(Map::empty(), all.take(n + 1)) == seen.insert(key, res));
            assert(ctx.errors@ =~= errors0 + conflicts_all(Map::empty(), all.take(n + 1)));
            assert(operation.outcomes() =~= base.union_prefer_right(seen.insert(key, res)));
            assert forall|k: Option<u16>|
                claimed@.contains(k) <==> #[trigger] record_all(
                    Map::empty(),
                    all.take(n + 1),
                ).contains_key(k) by {
                assert(claimed@ == claimed0.push(key));
                if claimed@.contains(k) && k != key {
                    let j = choose|j: int| 0 <= j < claimed@.len() && claimed@[j] == k;
                    assert(claimed0[j] == k);
                }
                if claimed0.contains(k) {
                    let j = choose|j: int| 0 <= j < claimed0.len() && claimed0[j] == k;
                    assert(claimed@[j] == k);
                }
                if k == key {
                    assert(claimed@[claimed0.len() as int] == key);
                }
            }
        }
    }
    assert(all.take(all.len() as int) =~= all);
}

/// The conflicts that inference reports for a handler, none when inference
/// is switched off.
pub open spec fn inference_errors(infer: bool, docs: HandlerDocs) -> Seq<Error> {
    if infer {
        inference_conflicts(Map::empty(), docs.output_responses@, docs.early_responses@)
    } else {
        Seq::empty()
    }
}

/// `op` is the fresh operation inferred from a handler's declarations.
pub open spec fn documents(op: Operation, infer: bool, docs: HandlerDocs) -> bool {
    &&& op.summary is None
    &&& op.tags@.len() == 0
    &&& op.parameters == docs.parameters
    &&& op.outcomes() == if infer {
        inferred_outcomes(Map::empty(), docs.output_responses@, docs.early_responses@)
    } else {
        Map::empty()
    }
}

/// Builds the operation of a route from its handler's declarations. The
/// responses are inferred only when the context asks for it: output
/// responses first, then early responses, which override them.
pub fn infer_operation(ctx: &mut GenContext, docs: HandlerDocs) -> (op: Operation)
    ensures
        documents(op, old(ctx).infer_responses, docs),
        final(ctx).errors@ == old(ctx).errors@ + inference_errors(old(ctx).infer_responses, docs),
        final(ctx).infer_responses == old(ctx).infer_responses,
{
    let ghost docs0 = docs;
    let HandlerDocs { parameters, output_responses, early_responses } = docs;
    let mut operation = Operation::new();
    operation.parameters = parameters;
    if ctx.infer_responses {
        record_output_responses(ctx, &mut operation, output_responses);
        record_early_responses(ctx, &mut operation, early_responses);
        assert(ctx.errors@ =~= old(ctx).errors@ + inference_errors(true, docs0));
    } else {
        assert(ctx.errors@ =~= old(ctx).errors@ + Seq::<Error>::empty());
    }
    operation
}

/// `pairs[i]` is the first pair with its key.
pub open spec fn first_with_key(pairs: Seq<(Option<u16>, Response)>, i: int) -> bool {
    &&& 0 <= i < pairs.len()
    &&& forall|j: int| 0 <= j < i ==> pairs[j].0 != pairs[i].0
}

/// No two pairs share a key.
pub open spec fn distinct_keys(pairs: Seq<(Option<u16>, Response)>) -> bool {
    forall|i: int, j: int| 0 <= i < j < pairs.len() ==> pairs[i].0 != pairs[j].0
}

/// A key is recorded exactly when it was there at the start or some pair
/// carries it, and what was there at the start stays.
pub proof fn lemma_record_all_keys(
    start: Map<Option<u16>, Response>,
    pairs: Seq<(Option<u16>, Response)>,
    key: Option<u16>,
)
    ensures
        record_all(start, pairs).contains_key(key) <==> (start.contains_key(key) || exists|j: int|
            0 <= j < pairs.len() && pairs[j].0 == key),
        start.contains_key(key) ==> record_all(start, pairs)[key] == start[key],
    decreases pairs.len(),
{
    if pairs.len() > 0 {
        let prefix = pairs.drop_last();
        lemma_record_all_keys(start, prefix, key);
        if exists|j: int| 0 <= j < prefix.len() && prefix[j].0 == key {
            let j = choose|j: int| 0 <= j < prefix.len() && prefix[j].0 == key;
            assert(pairs[j].0 == key);
        }
        if exists|j: int| 0 <= j < pairs.len() && pairs[j].0 == key {
            let j = choose|j: int| 0 <= j < pairs.len() && pairs[j].0 == key;
            if j < prefix.len() {
                assert(prefix[j].0 == key);
            }
        }
    }
}

/// The first pair with a key absent at the start is what gets recorded
/// under that key.
pub proof fn lemma_record_all_first(
    start: Map<Option<u16>, Response>,
    pairs: Seq<(Option<u16>, Response)>,
    i: int,
)
    requires
        first_with_key(pairs, i),
        !start.contains_key(pairs[i].0),
    ensures
        record_all(start, pairs).contains_key(pairs[i].0),
        record_all(start, pairs)[pairs[i].0] == pairs[i].1,
    decreases pairs.len(),
{
    let prefix = pairs.drop_last();
    let key = pairs[i].0;
    if i < pairs.len() - 1 {
        assert(prefix[i] == pairs[i]);
        lemma_record_all_first(start, prefix, i);
    } else {
        lemma_record_all_keys(start, prefix, key);
        if exists|j: int| 0 <= j < prefix.len() && prefix[j].0 == key {
            let j = choose|j: int| 0 <= j < prefix.len() && prefix[j].0 == key;
            assert(pairs[j].0 == key);
        }
    }
}

/// Pairs with distinct keys, none present at the start, raise no conflict.
pub proof fn lemma_conflicts_all_none(
    start: Map<Option<u16>, Response>,
    pairs: Seq<(Option<u16>, Response)>,
)
    requires
        distinct_keys(pairs),
        forall|j: int| 0 <= j < pairs.len() ==> !start.contains_key(#[trigger] pairs[j].0),
    ensures
        conflicts_all(start, pairs) == Seq::<Error>::empty(),
    decreases pairs.len(),
{
    if pairs.len() > 0 {
        let prefix = pairs.drop_last();
        assert(forall|j: int| 0 <= j < prefix.len() ==> prefix[j] == pairs[j]);
        lemma_conflicts_all_none(start, prefix);
        let key = pairs.last().0;
        lemma_record_all_keys(start, prefix, key);
        if exists|j: int| 0 <= j < prefix.len() && prefix[j].0 == key {
            let j = choose|j: int| 0 <= j < prefix.len() && prefix[j].0 == key;
            assert(pairs[j].0 == pairs[pairs.len() - 1].0);
        }
        assert(conflicts_all(start, pairs) =~= Seq::<Error>::empty());
    }
}

/// An output response stays documented under its key, unless an early
/// response claims that key; a later output response with the same key is a
/// conflict, so this is said of the first one for each key.
pub proof fn lemma_output_response_kept(
    output: Seq<(Option<u16>, Response)>,
    early: Seq<(Option<u16>, Response)>,
    i: int,
)
    requires
        first_with_key(output, i),
        forall|j: int| 0 <= j < early.len() ==> early[j].0 != output[i].0,
    ensures
        inferred_outcomes(Map::empty(), output, early).contains_key(output[i].0),
        inferred_outcomes(Map::empty(), output, early)[output[i].0] == output[i].1,
{
    lemma_record_all_first(Map::empty(), output, i);
    lemma_record_all_keys(Map::empty(), early, output[i].0);
}

/// An early response is documented under its key even where an output
/// response claimed it first (the first early response for each key).
pub proof fn lemma_early_response_wins(
    output: Seq<(Option<u16>, Response)>,
    early: Seq<(Option<u16>, Response)>,
    i: int,
)
    requires
        first_with_key(early, i),
    ensures
        inferred_outcomes(Map::empty(), output, early).contains_key(early[i].0),
        inferred_outcomes(Map::empty(), output, early)[early[i].0] == early[i].1,
{
    lemma_record_all_first(Map::empty(), early, i);
}

/// Inference reports no conflict when neither source repeats a key: an early
/// response overriding an output one is not a conflict.
pub proof fn lemma_no_conflicts_without_repeats(
    output: Seq<(Option<u16>, Response)>,
    early: Seq<(Option<u16>, Response)>,
)
    requires
        distinct_keys(output),
        distinct_keys(early),
    ensures
        inference_conflicts(Map::empty(), output, early) == Seq::<Error>::empty(),
{
    lemma_conflicts_all_none(Map::empty(), output);
    lemma_conflicts_all_none(Map::empty(), early);
    assert(Seq::<Error>::empty() + Seq::<Error>::empty() =~= Seq::<Error>::empty());
}

/// Two responses from one source under the same key: exactly one conflict,
/// for that key, and the first response stays.
pub proof fn lemma_repeated_key_conflict(
    start: Map<Option<u16>, Response>,
    key: Option<u16>,
    first: Response,
    second: Response,
)
    requires
        !start.contains_key(key),
    ensures
        record_all(start, seq![(key, first), (key, second)]).contains_key(key),
        record_all(start, seq![(key, first), (key, second)])[key] == first,
        conflicts_all(start, seq![(key, first), (key, second)]) == seq![
            conflict_for(key),
        ],
{
    let pairs = seq![(key, first), (key, second)];
    let one = seq![(key, first)];
    assert(pairs.drop_last() =~= one);
    assert(one.drop_last() =~= Seq::<(Option<u16>, Response)>::empty());
    assert(record_all(start, one.drop_last()) == start);
    assert(conflicts_all(start, one.drop_last()) == Seq::<Error>::empty());
    assert(conflicts_of(start, key) =~= Seq::<Error>::empty());
    assert(conflicts_all(start, one) =~= Seq::<Error>::empty());
    assert(record_all(start, one) == start.insert(key, first));
    assert(conflicts_all(start, pairs) =~= seq![conflict_for(key)]);
}

} // verus!
