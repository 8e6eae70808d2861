use onig::{dispatch_callout, Callout, CalloutArgs, CalloutIn, CalloutResult, MatchParam};

#[test]
fn match_param_create_default_match_param() {
    let _mp = MatchParam::default();
}

#[test]
fn match_param_set_max_stack_size_limit() {
    let mut mp = MatchParam::default();
    mp.set_match_stack_limit(1000);
}

#[test]
fn set_retry_limit_in_match() {
    let mut mp = MatchParam::default();
    mp.set_retry_limit_in_match(1000);
}

#[test]
fn match_param_setters_keep_other_limits() {
    let mut mp = MatchParam::default();
    assert_eq!(mp.as_raw(), (0, 0, 0));
    mp.set_match_stack_limit(1000);
    mp.set_retry_limit_in_match(20);
    mp.set_retry_limit_in_search(30);
    assert_eq!(mp.as_raw(), (1000, 20, 30));
}

struct Counter {
    progress: std::cell::Cell<u32>,
    retractions: u32,
}

impl Callout for Counter {
    fn progress_answer(&self, _args: CalloutArgs) -> CalloutResult {
        CalloutResult::Success
    }

    fn retraction_answer(&self, _args: CalloutArgs) -> CalloutResult {
        CalloutResult::Error(7)
    }

    fn on_match_progress(&self, _args: CalloutArgs) -> CalloutResult {
        self.progress.set(self.progress.get() + 1);
        CalloutResult::Success
    }

    fn on_retraction(&mut self, _args: CalloutArgs) -> CalloutResult {
        self.retractions += 1;
        CalloutResult::Error(7)
    }
}

#[test]
fn callout_dispatch_by_direction() {
    let mut c = Counter { progress: std::cell::Cell::new(0), retractions: 0 };
    let forward = CalloutArgs::from_raw(1, CalloutIn::Progress, -1, 0, None);
    let back = CalloutArgs::from_raw(1, CalloutIn::Retraction, 3, 2, Some((4, 64)));
    assert_eq!(dispatch_callout(&mut c, forward), 0);
    assert_eq!(dispatch_callout(&mut c, back), -7);
    assert_eq!(c.progress.get(), 1);
    assert_eq!(c.retractions, 1);
}

#[test]
fn callout_args_accessors() {
    let args = CalloutArgs::from_raw(5, CalloutIn::Retraction, 3, 9, Some((4, 64)));
    assert_eq!(args.callout_num(), 5);
    assert_eq!(args.callout_in(), CalloutIn::Retraction);
    assert_eq!(args.name_id(), Some(3));
    assert_eq!(args.retry_counter(), 9);
    assert_eq!(args.used_stack_size(), Some((4, 64)));
    let anonymous = CalloutArgs::from_raw(0, CalloutIn::Progress, -1, 0, None);
    assert_eq!(anonymous.name_id(), None);
    assert_eq!(anonymous.used_stack_size(), None);
}

#[test]
fn callout_status_codes() {
    assert_eq!(CalloutResult::Success.status(), 0);
    assert_eq!(CalloutResult::Fail.status(), 1);
    assert_eq!(CalloutResult::Error(12).status(), -12);
    assert_eq!(CalloutIn::from_code(1), Some(CalloutIn::Progress));
    assert_eq!(CalloutIn::from_code(2), Some(CalloutIn::Retraction));
    assert_eq!(CalloutIn::from_code(0), None);
}

struct Fixed {
    forward: CalloutResult,
    back: CalloutResult,
}

impl Callout for Fixed {
    fn progress_answer(&self, _args: CalloutArgs) -> CalloutResult {
        self.forward
    }

    fn retraction_answer(&self, _args: CalloutArgs) -> CalloutResult {
        self.back
    }

    fn on_match_progress(&self, _args: CalloutArgs) -> CalloutResult {
        self.forward
    }

    fn on_retraction(&mut self, _args: CalloutArgs) -> CalloutResult {
        self.back
    }
}

#[test]
fn match_param_routes_to_registered_handler() {
    let mut mp = MatchParam::new();
    let forward = CalloutArgs::from_raw(1, CalloutIn::Progress, -1, 0, None);
    let back = CalloutArgs::from_raw(1, CalloutIn::Retraction, -1, 0, None);
    assert_eq!(mp.callout(forward), 0);
    mp.add_callout(Fixed { forward: CalloutResult::Success, back: CalloutResult::Error(7) });
    assert_eq!(mp.callout(forward), 0);
    assert_eq!(mp.callout(back), -7);
    mp.add_callout(Fixed { forward: CalloutResult::Fail, back: CalloutResult::Success });
    assert_eq!(mp.callout(forward), 1);
    assert_eq!(mp.callout(back), 0);
}

#[test]
fn match_param_counts_with_registered_counter() {
    let mut mp = MatchParam::new();
    mp.add_callout(Counter { progress: std::cell::Cell::new(0), retractions: 0 });
    let back = CalloutArgs::from_raw(1, CalloutIn::Retraction, -1, 0, None);
    assert_eq!(mp.callout(back), -7);
    let mut default_mp = MatchParam::default();
    assert_eq!(default_mp.callout(back), 0);
}
