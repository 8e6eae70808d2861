use vstd::prelude::*;

verus! {

/// The engine's code for a progress callout.
pub const CALLOUT_IN_PROGRESS: i32 = 1;

/// The engine's code for a retraction callout.
pub const CALLOUT_IN_RETRACTION: i32 = 2;

/// The name identifier the engine reports for a callout of contents.
pub const NON_NAME_ID: i32 = -1;

/// The direction in which a callout fires.
#[derive(Clone, Copy, Debug, PartialEq, Eq, Structural)]
pub enum CalloutIn {
    /// Matching is moving forward through the callout.
    Progress,
    /// Matching is backtracking through the callout.
    Retraction,
}

impl CalloutIn {
    /// The direction an engine code stands for; `None` for an unknown code.
    pub fn from_code(code: i32) -> (r: Option<CalloutIn>)
        ensures
            code == CALLOUT_IN_PROGRESS ==> r == Some(CalloutIn::Progress),
            code == CALLOUT_IN_RETRACTION ==> r == Some(CalloutIn::Retraction),
            code != CALLOUT_IN_PROGRESS && code != CALLOUT_IN_RETRACTION ==> r.is_none(),
    {
        if code == CALLOUT_IN_PROGRESS {
            Some(CalloutIn::Progress)
        } else if code == CALLOUT_IN_RETRACTION {
            Some(CalloutIn::Retraction)
        } else {
            None
        }
    }
}

/// What a callout handler asks of the search.
#[derive(Clone, Copy, Debug, PartialEq, Eq, Structural)]
pub enum CalloutResult {
    /// Go on matching.
    Success,
    /// Backtrack, as if this branch had failed.
    Fail,
    /// Abort the whole search with the status `-code`.
    Error(u32),
}

/// The status the engine receives for a handler's answer.
pub open spec fn status_spec(r: CalloutResult) -> int {
    match r {
        CalloutResult::Success => 0,
        CalloutResult::Fail => 1,
        CalloutResult::Error(code) => -(code as int),
    }
}

impl CalloutResult {
    /// The status the engine receives for this answer: 0 to go on, 1 to
    /// backtrack, the negated code to abort.
    pub fn status(self) -> (r: i64)
        ensures
            r == status_spec(self),
    {
        match self {
            CalloutResult::Success => 0,
            CalloutResult::Fail => 1,
            CalloutResult::Error(code) => -(code as i64),
        }
    }
}

/// What the engine reports to a handler about one callout.
#[derive(Clone, Copy, Debug)]
pub struct CalloutArgs {
    callout_num: i32,
    callout_in: CalloutIn,
    name_id: i32,
    retry_counter: u64,
    used_stack: Option<(i32, i32)>,
}

impl CalloutArgs {
    pub closed spec fn callout_num_spec(&self) -> i32 {
        self.callout_num
    }

    pub closed spec fn callout_in_spec(&self) -> CalloutIn {
        self.callout_in
    }

    pub closed spec fn name_id_spec(&self) -> i32 {
        self.name_id
    }

    pub closed spec fn retry_counter_spec(&self) -> u64 {
        self.retry_counter
    }

    pub closed spec fn used_stack_spec(&self) -> Option<(i32, i32)> {
        self.used_stack
    }

    /// The arguments of one callout as the engine reports them;
    /// `used_stack` is `None` when the engine cannot tell its stack usage.
    pub fn from_raw(
        callout_num: i32,
        callout_in: CalloutIn,
        name_id: i32,
        retry_counter: u64,
        used_stack: Option<(i32, i32)>,
    ) -> (r: CalloutArgs)
        ensures
            r.callout_num_spec() == callout_num,
            r.callout_in_spec() == callout_in,
            r.name_id_spec() == name_id,
            r.retry_counter_spec() == retry_counter,
            r.used_stack_spec() == used_stack,
    {
        CalloutArgs { callout_num, callout_in, name_id, retry_counter, used_stack }
    }

    /// The number that identifies the callout in its pattern.
    pub fn callout_num(&self) -> (r: i32)
        ensures
            r == self.callout_num_spec(),
    {
        self.callout_num
    }

    /// The direction in which the callout fires.
    pub fn callout_in(&self) -> (r: CalloutIn)
        ensures
            r == self.callout_in_spec(),
    {
        self.callout_in
    }

    /// The name identifier of the callout; `None` for a callout of contents.
    pub fn name_id(&self) -> (r: Option<i32>)
        ensures
            self.name_id_spec() == NON_NAME_ID ==> r.is_none(),
            self.name_id_spec() != NON_NAME_ID ==> r == Some(self.name_id_spec()),
    {
        if self.name_id == NON_NAME_ID {
            None
        } else {
            Some(self.name_id)
        }
    }

    /// The retry counter of the current match.
    pub fn retry_counter(&self) -> (r: u64)
        ensures
            r == self.retry_counter_spec(),
    {
        self.retry_counter
    }

    /// The match stack in use, as (elements, bytes); `None` when the engine
    /// cannot tell.
    pub fn used_stack_size(&self) -> (r: Option<(i32, i32)>)
        ensures
            r == self.used_stack_spec(),
    {
        self.used_stack
    }
}

/// A handler that a search notifies at each callout.
pub trait Callout {
    /// The answer the handler gives, as it stands, to a progress callout.
    spec fn progress_answer(&self, args: CalloutArgs) -> CalloutResult;

    /// The answer the handler gives, as it stands, to a retraction callout.
    spec fn retraction_answer(&self, args: CalloutArgs) -> CalloutResult;

    /// Called when matching moves forward through a callout.
    fn on_match_progress(&self, args: CalloutArgs) -> (r: CalloutResult)
        ensures
            r == self.progress_answer(args),
    ;

    /// Called when matching backtracks through a callout.
    fn on_retraction(&mut self, args: CalloutArgs) -> (r: CalloutResult)
        ensures
            r == old(self).retraction_answer(args),
    ;
}

/// The handler of parameters that have none registered: it lets every
/// callout go on.
pub struct NoCallout;

impl Callout for NoCallout {
    open spec fn progress_answer(&self, args: CalloutArgs) -> CalloutResult {
        CalloutResult::Success
    }

    open spec fn retraction_answer(&self, args: CalloutArgs) -> CalloutResult {
        CalloutResult::Success
    }

    fn on_match_progress(&self, args: CalloutArgs) -> (r: CalloutResult) {
        CalloutResult::Success
    }

    fn on_retraction(&mut self, args: CalloutArgs) -> (r: CalloutResult) {
        CalloutResult::Success
    }
}

/// The status the engine receives when `handler` is handed `args`.
pub open spec fn dispatch_spec<C: Callout + ?Sized>(handler: &C, args: CalloutArgs) -> int {
    match args.callout_in_spec() {
        CalloutIn::Progress => status_spec(handler.progress_answer(args)),
        CalloutIn::Retraction => status_spec(handler.retraction_answer(args)),
    }
}

/// Hands one callout to `handler`: a progress callout to
/// `on_match_progress`, a retraction callout to `on_retraction`. Returns the
/// status of its answer: 0 to go on, 1 to backtrack, at most 0 to abort.
pub fn dispatch_callout<C: Callout + ?Sized>(handler: &mut C, args: CalloutArgs) -> (r: i64)
    ensures
        r == dispatch_spec(&*old(handler), args),
        r <= 1,
{
    let answer = match args.callout_in() {
        CalloutIn::Progress => handler.on_match_progress(args),
        CalloutIn::Retraction => handler.on_retraction(args),
    };
    answer.status()
}

} // verus!
