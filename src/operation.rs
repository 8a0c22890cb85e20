//! Operation records and their response registries.
use crate::context::{conflict_for, Error, GenContext};
use crate::tables::{new_status_table, status_entries, status_table_contains, status_table_insert};
use indexmap::IndexMap;
use vstd::prelude::*;

verus! {

/// A documented response.
pub struct Response {
    pub description: String,
}

/// The responses of one operation: one per explicit status code, in the
/// order the codes were first registered, and at most one default response.
pub struct Responses {
    pub responses: IndexMap<u16, Response>,
    pub default: Option<Response>,
}

impl View for Responses {
    /// Outcome key to response, the key `None` standing for the default.
    type V = Map<Option<u16>, Response>;

    open spec fn view(&self) -> Map<Option<u16>, Response> {
        Map::new(|key: Option<u16>| self.has_outcome(key), |key: Option<u16>| self.outcome(key))
    }
}

impl Responses {
    pub open spec fn has_outcome(self, key: Option<u16>) -> bool {
        match key {
            Some(code) => status_entries(self.responses).contains_key(code),
            None => self.default is Some,
        }
    }

    pub open spec fn outcome(self, key: Option<u16>) -> Response {
        match key {
            Some(code) => status_entries(self.responses)[code],
            None => self.default->0,
        }
    }
}

impl Responses {
    pub fn new() -> (r: Responses)
        ensures
            r@ == Map::<Option<u16>, Response>::empty(),
    {
        let r = Responses { responses: new_status_table(), default: None };
        assert(r@ =~= Map::<Option<u16>, Response>::empty());
        r
    }

    /// Whether a response is registered under the outcome key.
    pub fn contains(&self, key: Option<u16>) -> (r: bool)
        ensures
            r == self@.contains_key(key),
    {
        match key {
            Some(code) => status_table_contains(&self.responses, code),
            None => self.default.is_some(),
        }
    }

    /// Registers a response under an unoccupied outcome key. An occupied key
    /// is left as it is and reported as a conflict.
    pub fn register(&mut self, key: Option<u16>, response: Response) -> (r: Result<(), Error>)
        ensures
            old(self)@.contains_key(key) ==> r == Err::<(), Error>(conflict_for(key))
                && final(self)@ == old(self)@,
            !old(self)@.contains_key(key) ==> r is Ok && final(self)@ == old(self)@.insert(
                key,
                response,
            ),
    {
        if self.contains(key) {
            match key {
                Some(code) => Err(Error::InferredResponseConflict(code)),
                None => Err(Error::InferredDefaultResponseConflict),
            }
        } else {
            self.set(key, response);
            Ok(())
        }
    }

    /// Stores a response under the outcome key, replacing any earlier one.
    pub fn set(&mut self, key: Option<u16>, response: Response)
        ensures
            final(self)@ == old(self)@.insert(key, response),
    {
        let ghost before = self@;
        match key {
            Some(code) => status_table_insert(&mut self.responses, code, response),
            None => self.default = Some(response),
        }
        assert(self@ =~= before.insert(key, response));
    }
}

/// The documentation of one method on one path.
pub struct Operation {
    pub summary: Option<String>,
    pub tags: Vec<String>,
    /// Request parameters, as described by the handler's input type.
    pub parameters: Vec<String>,
    pub responses: Option<Responses>,
}

impl Operation {
    pub fn new() -> (op: Operation)
        ensures
            op.summary is None,
            op.tags@.len() == 0,
            op.parameters@.len() == 0,
            op.outcomes() == Map::<Option<u16>, Response>::empty(),
    {
        Operation { summary: None, tags: Vec::new(), parameters: Vec::new(), responses: None }
    }

    /// The documented responses, by outcome key.
    pub open spec fn outcomes(self) -> Map<Option<u16>, Response> {
        match self.responses {
            Some(r) => r@,
            None => Map::empty(),
        }
    }

    /// Everything but the responses is the same in both.
    pub open spec fn same_but_responses(self, other: Operation) -> bool {
        &&& self.summary == other.summary
        &&& self.tags == other.tags
        &&& self.parameters == other.parameters
    }

    /// Stores a response under the outcome key, replacing any earlier one.
    pub fn set_response(&mut self, key: Option<u16>, response: Response)
        ensures
            final(self).outcomes() == old(self).outcomes().insert(key, response),
            final(self).same_but_responses(*old(self)),
    {
        let mut registry = match self.responses.take() {
            Some(r) => r,
            None => Responses::new(),
        };
        registry.set(key, response);
        self.responses = Some(registry);
    }
}

/// An operation on its way through a caller's transform, with the flag that
/// keeps it out of the generated document.
pub struct TransformOperation {
    pub operation: Operation,
    pub hidden: bool,
}

/// The registry after an inferred response is offered under `key`: the first
/// response for a key stays.
pub open spec fn record_first(
    outcomes: Map<Option<u16>, Response>,
    key: Option<u16>,
    response: Response,
) -> Map<Option<u16>, Response> {
    if outcomes.contains_key(key) {
        outcomes
    } else {
        outcomes.insert(key, response)
    }
}

/// The conflicts reported when an inferred response is offered under `key`.
pub open spec fn conflicts_of(outcomes: Map<Option<u16>, Response>, key: Option<u16>) -> Seq<
    Error,
> {
    if outcomes.contains_key(key) {
        seq![conflict_for(key)]
    } else {
        Seq::empty()
    }
}

/// Adds an inferred response to the operation. A response already registered
/// under the same outcome key stays, and the collision is recorded in the
/// context.
pub fn set_inferred_response(
    ctx: &mut GenContext,
    operation: &mut Operation,
    status: Option<u16>,
    res: Response,
)
    ensures
        final(operation).outcomes() == record_first(old(operation).outcomes(), status, res),
        final(operation).same_but_responses(*old(operation)),
        final(operation).responses is Some,
        final(ctx).errors@ == old(ctx).errors@ + conflicts_of(old(operation).outcomes(), status),
        final(ctx).infer_responses == old(ctx).infer_responses,
{
    let mut registry = match operation.responses.take() {
        Some(r) => r,
        None => Responses::new(),
    };
    match registry.register(status, res) {
        Ok(()) => {
            assert(ctx.errors@ + Seq::<Error>::empty() =~= ctx.errors@);
        },
        Err(e) => ctx.error(e),
    }
    operation.responses = Some(registry);
}

} // verus!
