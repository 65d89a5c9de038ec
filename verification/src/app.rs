use crate::method::Method;
use vstd::prelude::*;
use vstd::string::*;

verus! {

/// One buffered registration: a path pattern, a verb, and the handler's
/// factory, waiting to be merged into a router under a mount prefix.
pub struct SubApp<T> {
    pub path: String,
    pub method: Method,
    pub handler: T,
}

impl<T> SubApp<T> {
    pub fn new(path: String, method: Method, handler: T) -> (r: SubApp<T>)
        ensures
            r.path == path,
            r.method == method,
            r.handler == handler,
    {
        SubApp { path, method, handler }
    }
}

/// An accumulation buffer of registrations. It has no life beyond mount
/// time: merging drains it into the router.
pub struct App<T> {
    pub apps: Vec<SubApp<T>>,
}

impl<T> App<T> {
    pub fn new() -> (r: App<T>)
        ensures
            r.apps@.len() == 0,
    {
        App { apps: Vec::new() }
    }

    /// Buffers one registration.
    pub fn add(&mut self, path: &str, method: Method, handler: T)
        ensures
            final(self).apps@.len() == old(self).apps@.len() + 1,
            final(self).apps@.drop_last() == old(self).apps@,
            final(self).apps@.last().path@ == path@,
            final(self).apps@.last().method == method,
            final(self).apps@.last().handler == handler,
    {
        let p = path.to_owned();
        self.apps.push(SubApp { path: p, method, handler });
        proof {
            assert(self.apps@.drop_last() =~= old(self).apps@);
        }
    }

    /// Hands the buffered registrations over.
    pub fn apps(self) -> (r: Vec<SubApp<T>>)
        ensures
            r == self.apps,
    {
        self.apps
    }
}

impl<T> Default for App<T> {
    fn default() -> (r: App<T>)
        ensures
            r.apps@.len() == 0,
    {
        App::new()
    }
}

} // verus!
