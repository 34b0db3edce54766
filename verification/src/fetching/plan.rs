//! The selection policy and the grammar of the flag that names it.

use crate::text::{
    chars_eq, chars_of, contains_char, join_with, lemma_split_join, lemma_split_len, numeral_value,
    parse_count, split, split_on,
};
use vstd::prelude::*;

verus! {

/// Which packages a run mirrors.
#[derive(Debug, PartialEq)]
pub enum FetchPlan {
    /// Every package of the registry.
    AllCrates,
    /// The curated set that the playground offers.
    Playground,
    /// The given number of most downloaded packages.
    TopN(usize),
    /// The packages named, in the order given.
    List(Vec<String>),
}

/// A [`FetchPlan`] as a mathematical value.
pub enum FetchPlanView {
    AllCrates,
    Playground,
    TopN(usize),
    List(Seq<Seq<char>>),
}

impl View for FetchPlan {
    type V = FetchPlanView;

    open spec fn view(&self) -> FetchPlanView {
        match self {
            FetchPlan::AllCrates => FetchPlanView::AllCrates,
            FetchPlan::Playground => FetchPlanView::Playground,
            FetchPlan::TopN(n) => FetchPlanView::TopN(*n),
            FetchPlan::List(names) => FetchPlanView::List(names.deep_view()),
        }
    }
}

/// The flag was none of `all`, `playground`, a count or a comma separated
/// list.
#[derive(Debug, PartialEq, Eq)]
pub struct PlanParseError;

impl PlanParseError {
    /// The text shown for this error.
    pub fn message(&self) -> (text: String)
        ensures
            text@ == "Invalid fetching strategy provided"@,
    {
        String::from_str("Invalid fetching strategy provided")
    }
}

/// The plan that a flag denotes, by the first rule that applies: `all`;
/// `playground`; a decimal count; a text with a comma, which is the list of
/// its pieces between commas. Any other flag denotes no plan.
///
/// A lone name made of digits reads as a count, never as a list of one.
pub open spec fn plan_of(flag: Seq<char>) -> Option<FetchPlanView> {
    if flag == "all"@ {
        Some(FetchPlanView::AllCrates)
    } else if flag == "playground"@ {
        Some(FetchPlanView::Playground)
    } else if numeral_value(flag) is Some {
        Some(FetchPlanView::TopN(numeral_value(flag).unwrap()))
    } else if flag.contains(',') {
        Some(FetchPlanView::List(split_on(flag, ',')))
    } else {
        None
    }
}

/// A flag of the grammar: `all`, `playground`, a decimal count, or a text
/// with a comma.
pub open spec fn is_valid_flag(flag: Seq<char>) -> bool {
    ||| flag == "all"@
    ||| flag == "playground"@
    ||| numeral_value(flag) is Some
    ||| flag.contains(',')
}

/// The grammar is total and leaves no choice: every valid flag denotes
/// exactly one plan, and no other flag denotes any. A list holds the names
/// between its commas, at least two, and joined by commas they give the flag
/// back.
pub proof fn lemma_plan_of_is_total(flag: Seq<char>)
    ensures
        plan_of(flag) is Some <==> is_valid_flag(flag),
        plan_of(flag) matches Some(FetchPlanView::List(names)) ==> names.len() >= 2
            && join_with(names, ',') == flag,
{
    lemma_split_len(flag, ',');
    lemma_split_join(flag, ',');
}

impl FetchPlan {
    /// Reads a plan from its flag. The result depends on the text of the flag
    /// alone: the plan is the one [`plan_of`] gives, and the call fails exactly
    /// on the flags for which it gives none.
    pub fn from_str(s: &str) -> (plan: Result<FetchPlan, PlanParseError>)
        ensures
            match plan {
                Ok(p) => plan_of(s@) == Some(p@),
                Err(_) => plan_of(s@) is None,
            },
    {
        let chars = chars_of(s);
        if chars_eq(chars.as_slice(), chars_of("all").as_slice()) {
            Ok(FetchPlan::AllCrates)
        } else if chars_eq(chars.as_slice(), chars_of("playground").as_slice()) {
            Ok(FetchPlan::Playground)
        } else {
            match parse_count(chars.as_slice()) {
                Some(n) => Ok(FetchPlan::TopN(n)),
                None => {
                    if contains_char(chars.as_slice(), ',') {
                        Ok(FetchPlan::List(split(s, ',')))
                    } else {
                        Err(PlanParseError)
                    }
                },
            }
        }
    }

    /// Reads a plan from an owned flag, as [`FetchPlan::from_str`] does, and
    /// reports a failure as its message.
    pub fn try_from(value: String) -> (plan: Result<FetchPlan, String>)
        ensures
            match plan {
                Ok(p) => plan_of(value@) == Some(p@),
                Err(text) => plan_of(value@) is None && text@
                    == "Invalid fetching strategy provided"@,
            },
    {
        match FetchPlan::from_str(value.as_str()) {
            Ok(p) => Ok(p),
            Err(e) => Err(e.message()),
        }
    }
}

} // verus!
