//! What a probe of a website found out.

use vstd::prelude::*;

use crate::time::Duration;

verus! {

/// The measurements of a probe that got an answer.
#[derive(Debug, Clone, Copy, PartialEq, Eq, Structural)]
pub struct MetricData {
    pub status_code: Option<u16>,
    pub response_time: Option<Duration>,
    pub response_size: Option<u64>,
}

/// The outcome of a probe.
#[derive(Debug, Clone, Copy, PartialEq, Eq, Structural)]
pub enum MetricResult {
    Success(MetricData),
    Timeout,
    Error,
}

impl MetricResult {
    /// Lets `fun` change the measurements of a successful probe; other outcomes stay as they are.
    pub fn map_success<F>(self, fun: F) -> (res: MetricResult)
        where
            F: Fn(&mut MetricData),
        requires
            forall|md: &mut MetricData| self == MetricResult::Success(*md) ==> call_requires(fun, (md,)),
        ensures
            match self {
                MetricResult::Success(data) => exists|md: &mut MetricData| {
                    &&& *md == data
                    &&& #[trigger] call_ensures(fun, (md,), ())
                    &&& res == MetricResult::Success(*final(md))
                },
                _ => res == self,
            },
    {
        let mut this = self;
        if let MetricResult::Success(ref mut md) = this {
            fun(md);
        }
        this
    }
}

} // verus!
