//! What the mirror is started with.

use crate::fetching::plan::{plan_of, FetchPlan, PlanParseError};
use vstd::prelude::*;

verus! {

/// The settings of the mirror.
#[derive(Debug)]
pub struct Config {
    /// Crates that should be fetched for the mirror to host: `all`,
    /// `playground`, a count, or a comma separated list of names.
    pub fetching: String,
}

impl Config {
    /// The plan that the `fetching` setting denotes.
    pub fn fetch_plan(&self) -> (plan: Result<FetchPlan, PlanParseError>)
        ensures
            match plan {
                Ok(p) => plan_of(self.fetching@) == Some(p@),
                Err(_) => plan_of(self.fetching@) is None,
            },
    {
        FetchPlan::from_str(self.fetching.as_str())
    }
}

} // verus!
