use vstd::prelude::*;

use crate::callout::{dispatch_callout, dispatch_spec, Callout, CalloutArgs, NoCallout};

verus! {

/// Limits that bound one search (0 stands for no limit) and the handler,
/// if any, that its callouts are handed to. The handler's type is a
/// parameter, so that what a registered handler answers stays known.
pub struct MatchParam<C = NoCallout> {
    match_stack_limit: u32,
    retry_limit_in_match: u32,
    retry_limit_in_search: u32,
    handler: Option<C>,
}

impl<C: Callout> MatchParam<C> {
    pub closed spec fn match_stack_limit_spec(&self) -> u32 {
        self.match_stack_limit
    }

    pub closed spec fn retry_limit_in_match_spec(&self) -> u32 {
        self.retry_limit_in_match
    }

    pub closed spec fn retry_limit_in_search_spec(&self) -> u32 {
        self.retry_limit_in_search
    }

    pub closed spec fn has_callout_spec(&self) -> bool {
        self.handler is Some
    }

    /// The status the registered handler would give for `args`; 0 when no
    /// handler is registered.
    pub closed spec fn answer_spec(&self, args: CalloutArgs) -> int {
        match &self.handler {
            Some(h) => dispatch_spec(h, args),
            None => 0,
        }
    }

    /// Parameters with no limit set and no handler registered.
    pub fn new() -> (r: MatchParam<C>)
        ensures
            r.match_stack_limit_spec() == 0,
            r.retry_limit_in_match_spec() == 0,
            r.retry_limit_in_search_spec() == 0,
            !r.has_callout_spec(),
    {
        MatchParam { match_stack_limit: 0, retry_limit_in_match: 0, retry_limit_in_search: 0, handler: None }
    }

    /// Registers `callout` as the handler of this parameter object's
    /// callouts; a handler registered before is dropped, and only `callout`
    /// answers from now on.
    pub fn add_callout(&mut self, callout: C)
        ensures
            final(self).has_callout_spec(),
            forall|a: CalloutArgs| #[trigger] final(self).answer_spec(a) == dispatch_spec(&callout, a),
            final(self).match_stack_limit_spec() == old(self).match_stack_limit_spec(),
            final(self).retry_limit_in_match_spec() == old(self).retry_limit_in_match_spec(),
            final(self).retry_limit_in_search_spec() == old(self).retry_limit_in_search_spec(),
    {
        self.handler = Some(callout);
    }

    /// Hands one callout to the registered handler and returns the status
    /// the engine receives; 0 (go on) when no handler is registered.
    pub fn callout(&mut self, args: CalloutArgs) -> (r: i64)
        ensures
            r == old(self).answer_spec(args),
            !old(self).has_callout_spec() ==> r == 0,
            r <= 1,
            final(self).has_callout_spec() == old(self).has_callout_spec(),
    {
        match &mut self.handler {
            Some(h) => dispatch_callout(h, args),
            None => 0,
        }
    }

    /// Sets the limit of the match stack.
    pub fn set_match_stack_limit(&mut self, limit: u32)
        ensures
            final(self).match_stack_limit_spec() == limit,
            final(self).retry_limit_in_match_spec() == old(self).retry_limit_in_match_spec(),
            final(self).retry_limit_in_search_spec() == old(self).retry_limit_in_search_spec(),
    {
        self.match_stack_limit = limit;
    }

    /// Sets the limit of retries within one match attempt.
    pub fn set_retry_limit_in_match(&mut self, limit: u32)
        ensures
            final(self).retry_limit_in_match_spec() == limit,
            final(self).match_stack_limit_spec() == old(self).match_stack_limit_spec(),
            final(self).retry_limit_in_search_spec() == old(self).retry_limit_in_search_spec(),
    {
        self.retry_limit_in_match = limit;
    }

    /// Sets the limit of retries over a whole search.
    pub fn set_retry_limit_in_search(&mut self, limit: u32)
        ensures
            final(self).retry_limit_in_search_spec() == limit,
            final(self).match_stack_limit_spec() == old(self).match_stack_limit_spec(),
            final(self).retry_limit_in_match_spec() == old(self).retry_limit_in_match_spec(),
    {
        self.retry_limit_in_search = limit;
    }

    /// The limits, as (match stack, retries in match, retries in search).
    pub fn as_raw(&self) -> (r: (u32, u32, u32))
        ensures
            r == (
                self.match_stack_limit_spec(),
                self.retry_limit_in_match_spec(),
                self.retry_limit_in_search_spec(),
            ),
    {
        (self.match_stack_limit, self.retry_limit_in_match, self.retry_limit_in_search)
    }
}

impl Default for MatchParam {
    /// Parameters with no limit set and no handler registered.
    fn default() -> (r: MatchParam)
        ensures
            r.match_stack_limit_spec() == 0,
            r.retry_limit_in_match_spec() == 0,
            r.retry_limit_in_search_spec() == 0,
            !r.has_callout_spec(),
    {
        MatchParam::new()
    }
}

} // verus!
