//! A method router paired with the documentation of its routes.
use crate::context::GenContext;
use crate::inference::{documents, infer_operation, inference_errors, HandlerDocs};
use crate::method::Method;
use crate::operation::{Operation, TransformOperation};
use crate::path::PathItem;
use crate::tables::{
    method_entries, method_table_insert, method_table_into_pairs, new_method_table, pairs_map,
};
use indexmap::IndexMap;
use vstd::prelude::*;

verus! {

/// A request dispatcher `R` together with the operation documented for each
/// method routed on it. Changes to the dispatcher go through closures handed
/// in by the caller; the documentation is kept here.
pub struct ApiMethodRouter<R> {
    pub operations: IndexMap<Method, Operation>,
    pub router: R,
    /// The methods a handler was wired for on `router`.
    pub routed: Ghost<Set<Method>>,
}

impl<R> ApiMethodRouter<R> {
    /// The documented operation of each method.
    pub open spec fn docs(self) -> Map<Method, Operation> {
        method_entries(self.operations)
    }

    /// Only methods wired on the dispatcher are documented.
    pub open spec fn wf(self) -> bool {
        self.docs().dom().subset_of(self.routed@)
    }

    /// Wraps a dispatcher; nothing is documented yet.
    pub fn new(router: R) -> (r: Self)
        ensures
            r.wf(),
            r.docs() == Map::<Method, Operation>::empty(),
            r.routed@ == Set::<Method>::empty(),
            r.router == router,
    {
        let r = ApiMethodRouter { operations: new_method_table(), router, routed: Ghost(Set::empty()) };
        assert(r.docs().dom() =~= Set::<Method>::empty());
        r
    }

    /// Routes `method` to a handler: `wire` registers the handler on the
    /// dispatcher, and the operation inferred from the handler's declarations
    /// is documented under `method`, replacing an earlier one.
    pub fn route<F>(self, ctx: &mut GenContext, method: Method, docs: HandlerDocs, wire: F) -> (r: Self)
        where
            F: FnOnce(R) -> R,
        requires
            self.wf(),
            wire.requires((self.router,)),
        ensures
            r.wf(),
            wire.ensures((self.router,), r.router),
            r.routed@ == self.routed@.insert(method),
            r.docs().contains_key(method),
            documents(r.docs()[method], old(ctx).infer_responses, docs),
            r.docs().remove(method) == self.docs().remove(method),
            final(ctx).errors@ == old(ctx).errors@ + inference_errors(old(ctx).infer_responses, docs),
            final(ctx).infer_responses == old(ctx).infer_responses,
    {
        let ApiMethodRouter { mut operations, router, routed } = self;
        let operation = infer_operation(ctx, docs);
        method_table_insert(&mut operations, method, operation);
        let router = wire(router);
        let r = ApiMethodRouter { operations, router, routed: Ghost(routed@.insert(method)) };
        assert(r.docs().remove(method) =~= self.docs().remove(method));
        r
    }

    /// Like `route`, with the inferred operation passed through `transform`
    /// first. An operation the transform marks hidden is not documented, and
    /// the method keeps its earlier documentation, if any; the handler is
    /// registered either way.
    pub fn route_with<F, T>(
        self,
        ctx: &mut GenContext,
        method: Method,
        docs: HandlerDocs,
        wire: F,
        transform: T,
    ) -> (r: Self)
        where
            F: FnOnce(R) -> R,
            T: FnOnce(TransformOperation) -> TransformOperation,
        requires
            self.wf(),
            wire.requires((self.router,)),
            forall|t: TransformOperation| transform.requires((t,)),
        ensures
            r.wf(),
            wire.ensures((self.router,), r.router),
            r.routed@ == self.routed@.insert(method),
            documented_with(self.docs(), r.docs(), method, old(ctx).infer_responses, docs, transform),
            final(ctx).errors@ == old(ctx).errors@ + inference_errors(old(ctx).infer_responses, docs),
            final(ctx).infer_responses == old(ctx).infer_responses,
    {
        let ApiMethodRouter { mut operations, router, routed } = self;
        let operation = infer_operation(ctx, docs);
        let t0 = TransformOperation { operation, hidden: false };
        let ghost g0 = t0;
        let t1 = transform(t0);
        let ghost g1 = t1;
        if !t1.hidden {
            method_table_insert(&mut operations, method, t1.operation);
        }
        let router = wire(router);
        let r = ApiMethodRouter { operations, router, routed: Ghost(routed@.insert(method)) };
        assert(transform.ensures((g0,), g1));
        r
    }

    /// Changes the dispatcher (a layer, a new state); the documentation is
    /// carried over as it is.
    pub fn map_router<R2, F>(self, f: F) -> (r: ApiMethodRouter<R2>)
        where
            F: FnOnce(R) -> R2,
        requires
            f.requires((self.router,)),
        ensures
            f.ensures((self.router,), r.router),
            r.docs() == self.docs(),
            r.routed == self.routed,
    {
        let ApiMethodRouter { operations, router, routed } = self;
        ApiMethodRouter { operations, router: f(router), routed }
    }

    /// Joins two routers of one path: `combine` merges the dispatchers, and
    /// the documented operations are united, those of `other` winning for a
    /// method documented in both.
    pub fn merge<F>(self, other: ApiMethodRouter<R>, combine: F) -> (r: Self)
        where
            F: FnOnce(R, R) -> R,
        requires
            self.wf(),
            other.wf(),
            combine.requires((self.router, other.router)),
        ensures
            r.wf(),
            combine.ensures((self.router, other.router), r.router),
            r.docs() == self.docs().union_prefer_right(other.docs()),
            r.routed@ == self.routed@.union(other.routed@),
    {
        let ghost mine = self.docs();
        let ApiMethodRouter { mut operations, router, routed } = self;
        let ApiMethodRouter { operations: other_operations, router: other_router, routed: other_routed } = other;
        let mut rest = method_table_into_pairs(other_operations);
        let ghost all = rest@;
        assert(all.take(0) =~= Seq::<(Method, Operation)>::empty());
        assert(mine.union_prefer_right(Map::empty()) =~= mine);
        while rest.len() > 0
            invariant
                rest@.len() <= all.len(),
                rest@ =~= all.skip(all.len() - rest@.len()),
                method_entries(operations) == mine.union_prefer_right(
                    pairs_map(all.take(all.len() - rest@.len())),
                ),
            decreases rest@.len(),
        {
            let ghost n = all.len() - rest@.len();
            let ghost before = method_entries(operations);
            let (method, operation) = rest.remove(0);
            assert(all.take(n + 1).drop_last() =~= all.take(n));
            assert(all.take(n + 1).last() == all[n]);
            assert(rest@ =~= all.skip(n + 1));
            method_table_insert(&mut operations, method, operation);
            assert(method_entries(operations) =~= mine.union_prefer_right(
                pairs_map(all.take(n + 1)),
            ));
        }
        assert(all.take(all.len() as int) =~= all);
        let router = combine(router, other_router);
        ApiMethodRouter { operations, router, routed: Ghost(routed@.union(other_routed@)) }
    }

    /// Moves every documented operation into its method's slot of a new path
    /// item. The router is left with no documentation; the dispatcher is
    /// untouched.
    pub fn take_path_item(&mut self) -> (path: PathItem)
        ensures
            takes(*old(self), *final(self), path),
            final(self).wf(),
    {
        let mut taken = new_method_table();
        std::mem::swap(&mut taken, &mut self.operations);
        let mut rest = method_table_into_pairs(taken);
        let ghost all = rest@;
        let mut path = PathItem::new();
        assert(all.take(0) =~= Seq::<(Method, Operation)>::empty());
        while rest.len() > 0
            invariant
                rest@.len() <= all.len(),
                rest@ =~= all.skip(all.len() - rest@.len()),
                path@ == pairs_map(all.take(all.len() - rest@.len())),
            decreases rest@.len(),
        {
            let ghost n = all.len() - rest@.len();
            let (method, operation) = rest.remove(0);
            assert(all.take(n + 1).drop_last() =~= all.take(n));
            assert(all.take(n + 1).last() == all[n]);
            assert(rest@ =~= all.skip(n + 1));
            path.set(method, operation);
        }
        assert(all.take(all.len() as int) =~= all);
        assert(self.docs() =~= Map::<Method, Operation>::empty());
        path
    }
}

/// `after` documents what `before` documented under `method`, but for the
/// operation inferred from `docs` after it went through `transform`: in its
/// place when the transform left it visible, and nothing changed when it hid it.
pub open spec fn documented_with<T: FnOnce(TransformOperation) -> TransformOperation>(
    before: Map<Method, Operation>,
    after: Map<Method, Operation>,
    method: Method,
    infer: bool,
    docs: HandlerDocs,
    transform: T,
) -> bool {
    exists|t0: TransformOperation, t1: TransformOperation|
        {
            &&& !t0.hidden
            &&& documents(t0.operation, infer, docs)
            &&& #[trigger] transform.ensures((t0,), t1)
            &&& if t1.hidden {
                after == before
            } else {
                after == before.insert(method, t1.operation)
            }
        }
}

/// `path` is what taking the path item out of `before` gave, leaving `after`.
pub open spec fn takes<R>(before: ApiMethodRouter<R>, after: ApiMethodRouter<R>, path: PathItem) -> bool {
    &&& path@ == before.docs()
    &&& after.docs() == Map::<Method, Operation>::empty()
    &&& after.router == before.router
    &&& after.routed == before.routed
}

/// Taking the path item a second time gives one with every method slot empty.
pub proof fn lemma_take_twice<R>(
    start: ApiMethodRouter<R>,
    between: ApiMethodRouter<R>,
    end: ApiMethodRouter<R>,
    first: PathItem,
    second: PathItem,
)
    requires
        takes(start, between, first),
        takes(between, end, second),
    ensures
        first@ == start.docs(),
        forall|m: Method| (#[trigger] second.slot(m)) is None,
{
    assert forall|m: Method| (#[trigger] second.slot(m)) is None by {
        assert(!second@.contains_key(m));
    }
}

/// A route whose transform hides every operation leaves the documentation as
/// it was: a method not documented before is not documented after.
pub proof fn lemma_hidden_route_undocumented<T: FnOnce(TransformOperation) -> TransformOperation>(
    before: Map<Method, Operation>,
    after: Map<Method, Operation>,
    method: Method,
    infer: bool,
    docs: HandlerDocs,
    transform: T,
)
    requires
        documented_with(before, after, method, infer, docs, transform),
        forall|t0: TransformOperation, t1: TransformOperation|
            #[trigger] transform.ensures((t0,), t1) ==> t1.hidden,
    ensures
        after == before,
        !before.contains_key(method) ==> !after.contains_key(method),
{
}

/// Merging two routers that document different methods, then taking the path
/// item: each method's slot holds the operation of the router that
/// documented it.
pub proof fn lemma_merge_disjoint_then_take<R>(
    first: ApiMethodRouter<R>,
    second: ApiMethodRouter<R>,
    merged: ApiMethodRouter<R>,
    drained: ApiMethodRouter<R>,
    path: PathItem,
)
    requires
        first.docs().dom().disjoint(second.docs().dom()),
        merged.docs() == first.docs().union_prefer_right(second.docs()),
        takes(merged, drained, path),
    ensures
        forall|m: Method| #[trigger]
            first.docs().contains_key(m) ==> path.slot(m) == Some(first.docs()[m]),
        forall|m: Method| #[trigger]
            second.docs().contains_key(m) ==> path.slot(m) == Some(second.docs()[m]),
        forall|m: Method|
            (#[trigger] path.slot(m)) is Some ==> first.docs().contains_key(m) || second.docs().contains_key(
                m,
            ),
{
    assert forall|m: Method| #[trigger]
        first.docs().contains_key(m) implies path.slot(m) == Some(first.docs()[m]) by {
        assert(!second.docs().contains_key(m));
        assert(path@.contains_key(m));
        assert(path@[m] == first.docs()[m]);
        assert(path@[m] == path.slot(m)->0);
    }
    assert forall|m: Method| #[trigger]
        second.docs().contains_key(m) implies path.slot(m) == Some(second.docs()[m]) by {
        assert(path@.contains_key(m));
        assert(path@[m] == second.docs()[m]);
        assert(path@[m] == path.slot(m)->0);
    }
    assert forall|m: Method| (#[trigger] path.slot(m)) is Some implies first.docs().contains_key(m)
        || second.docs().contains_key(m) by {
        assert(path@.contains_key(m));
    }
}

} // verus!
