use vstd::prelude::*;

verus! {

/// One parameter name remembered for auto-completion, with its
/// read-only flag as the device reported it.
#[derive(Clone, Debug)]
pub struct LatestCachedParameter {
    pub name: String,
    pub readonly: bool,
}

/// One log variable name remembered for auto-completion.
#[derive(Clone, Debug)]
pub struct LatestCachedLogVariable {
    pub name: String,
}

/// The names seen on the most recently used device, kept so a future
/// invocation can offer completions without connecting first.
#[derive(Clone, Debug)]
pub struct LatestCache {
    pub log: Vec<LatestCachedLogVariable>,
    pub param: Vec<LatestCachedParameter>,
}

/// The record persisted between invocations: the default device address,
/// a list of name/value string pairs, and an optional auto-completion
/// cache. Only `uri` is written by an active code path today; the other
/// fields are carried through load and store unchanged.
#[derive(Clone, Debug)]
pub struct Config {
    pub uri: String,
    pub cache: Vec<(String, String)>,
    pub auto_complete_cache: Option<LatestCache>,
}

impl Default for Config {
    /// The configuration used when no prior record exists: an empty
    /// address and empty caches.
    fn default() -> (c: Config)
        ensures
            c.uri@ == Seq::<char>::empty(),
            c.cache@ == Seq::<(String, String)>::empty(),
            c.auto_complete_cache is None,
    {
        Config { uri: String::new(), cache: Vec::new(), auto_complete_cache: None }
    }
}

impl Config {
    /// Record a newly selected default device address. Every other field
    /// is left as it was; the caller persists the whole record.
    pub fn set_uri(&mut self, uri: String)
        ensures
            final(self).uri@ == uri@,
            final(self).cache == old(self).cache,
            final(self).auto_complete_cache == old(self).auto_complete_cache,
    {
        self.uri = uri;
    }
}

} // verus!
