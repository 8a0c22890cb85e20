use vstd::prelude::*;

verus! {

/// A non-fatal problem found while generating documentation.
#[derive(Clone, Copy, Debug, PartialEq, Eq, Structural)]
pub enum Error {
    /// Two inferred responses claimed the same status code.
    InferredResponseConflict(u16),
    /// Two inferred responses claimed the default response.
    InferredDefaultResponseConflict,
}

/// The conflict reported when an inferred response lands on an occupied
/// outcome key (`None` standing for the default response).
pub open spec fn conflict_for(key: Option<u16>) -> Error {
    match key {
        Some(code) => Error::InferredResponseConflict(code),
        None => Error::InferredDefaultResponseConflict,
    }
}

/// The conflict reported for an occupied outcome key.
pub fn conflict_for_key(key: Option<u16>) -> (e: Error)
    ensures
        e == conflict_for(key),
{
    match key {
        Some(code) => Error::InferredResponseConflict(code),
        None => Error::InferredDefaultResponseConflict,
    }
}

/// State of one documentation-generation pass: whether responses are
/// inferred from handler types, and the problems recorded so far.
pub struct GenContext {
    pub infer_responses: bool,
    pub errors: Vec<Error>,
}

impl GenContext {
    pub fn new(infer_responses: bool) -> (ctx: GenContext)
        ensures
            ctx.infer_responses == infer_responses,
            ctx.errors@ == Seq::<Error>::empty(),
    {
        GenContext { infer_responses, errors: Vec::new() }
    }

    /// Records a problem; generation goes on.
    pub fn error(&mut self, error: Error)
        ensures
            final(self).infer_responses == old(self).infer_responses,
            final(self).errors@ == old(self).errors@.push(error),
    {
        self.errors.push(error);
    }
}

} // verus!
