use crate::method::Method;
use vstd::prelude::*;

verus! {

/// One registration as a record of its own: a path pattern, a verb, and the
/// handler that serves it.
pub struct Service<T> {
    pub path: String,
    pub method: Method,
    pub handler: T,
}

impl<T> Service<T> {
    pub fn new(path: String, method: Method, handler: T) -> (r: Service<T>)
        ensures
            r.path == path,
            r.method == method,
            r.handler == handler,
    {
        Service { path, method, handler }
    }

    pub fn path(self) -> (r: String)
        ensures
            r == self.path,
    {
        self.path
    }

    pub fn method(self) -> (r: Method)
        ensures
            r == self.method,
    {
        self.method
    }

    pub fn handler(self) -> (r: T)
        ensures
            r == self.handler,
    {
        self.handler
    }
}

} // verus!
