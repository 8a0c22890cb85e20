//! Path items: the operations of one path, one slot per method.
use crate::method::Method;
use crate::operation::Operation;
use vstd::prelude::*;

verus! {

pub struct PathItem {
    pub get: Option<Operation>,
    pub post: Option<Operation>,
    pub put: Option<Operation>,
    pub patch: Option<Operation>,
    pub delete: Option<Operation>,
    pub head: Option<Operation>,
    pub options: Option<Operation>,
    pub trace: Option<Operation>,
}

impl View for PathItem {
    type V = Map<Method, Operation>;

    open spec fn view(&self) -> Map<Method, Operation> {
        Map::new(|m: Method| self.slot(m) is Some, |m: Method| self.slot(m)->0)
    }
}

impl PathItem {
    /// The slot of a method.
    pub open spec fn slot(self, method: Method) -> Option<Operation> {
        match method {
            Method::Get => self.get,
            Method::Post => self.post,
            Method::Put => self.put,
            Method::Patch => self.patch,
            Method::Delete => self.delete,
            Method::Head => self.head,
            Method::Options => self.options,
            Method::Trace => self.trace,
        }
    }

    /// A path item with every slot empty.
    pub fn new() -> (p: PathItem)
        ensures
            p@ == Map::<Method, Operation>::empty(),
    {
        let p = PathItem {
            get: None,
            post: None,
            put: None,
            patch: None,
            delete: None,
            head: None,
            options: None,
            trace: None,
        };
        assert(p@ =~= Map::<Method, Operation>::empty());
        p
    }

    /// Puts the operation in the method's slot.
    pub fn set(&mut self, method: Method, operation: Operation)
        ensures
            final(self)@ == old(self)@.insert(method, operation),
    {
        let ghost before = self@;
        match method {
            Method::Get => self.get = Some(operation),
            Method::Post => self.post = Some(operation),
            Method::Put => self.put = Some(operation),
            Method::Patch => self.patch = Some(operation),
            Method::Delete => self.delete = Some(operation),
            Method::Head => self.head = Some(operation),
            Method::Options => self.options = Some(operation),
            Method::Trace => self.trace = Some(operation),
        }
        assert(self@ =~= before.insert(method, operation));
    }
}

} // verus!
