use vstd::prelude::*;

verus! {

/// The fixed set of HTTP methods an operation can be registered under.
#[derive(Clone, Copy, Debug, PartialEq, Eq, Hash, Structural)]
pub enum Method {
    Get,
    Post,
    Put,
    Patch,
    Delete,
    Head,
    Options,
    Trace,
}

} // verus!
