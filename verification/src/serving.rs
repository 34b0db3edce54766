//! Serving: the protocol by which the mirrored index is offered.

use crate::text::str_eq;
use vstd::prelude::*;

verus! {

/// The protocol by which the mirrored index is offered.
#[derive(Debug, PartialEq)]
pub enum ServingPlan {
    /// The index as a repository.
    Git,
    /// The index as single files.
    Sparse,
}

/// The plan that a flag denotes: `git` or `sparse`, exactly as written. Any
/// other flag denotes none.
pub open spec fn serving_plan_of(flag: Seq<char>) -> Option<ServingPlan> {
    if flag == "git"@ {
        Some(ServingPlan::Git)
    } else if flag == "sparse"@ {
        Some(ServingPlan::Sparse)
    } else {
        None
    }
}

impl ServingPlan {
    /// Reads a plan from its flag, and reports a flag that denotes none by a
    /// message.
    pub fn try_from(value: String) -> (plan: Result<ServingPlan, String>)
        ensures
            match plan {
                Ok(p) => serving_plan_of(value@) == Some(p),
                Err(text) => serving_plan_of(value@) is None && text@
                    == "Invalid serving strategy provided"@,
            },
    {
        if str_eq(value.as_str(), "git") {
            Ok(ServingPlan::Git)
        } else if str_eq(value.as_str(), "sparse") {
            Ok(ServingPlan::Sparse)
        } else {
            Err(String::from_str("Invalid serving strategy provided"))
        }
    }
}

/// What the server answers a request with.
#[derive(Clone, Copy, Debug, PartialEq, Eq)]
pub enum Reply {
    /// A few words on how to use the server.
    Instructions,
    /// Nothing is served at the place asked for.
    NotFound,
}

/// The answer to a request: instructions to a `GET` of the root, and
/// nothing found to any other.
pub open spec fn reply_of(method: Seq<char>, path: Seq<char>) -> Reply {
    if method == "GET"@ && path == "/"@ {
        Reply::Instructions
    } else {
        Reply::NotFound
    }
}

/// Routes a request by its method and path.
pub fn route(method: &str, path: &str) -> (reply: Reply)
    ensures
        reply == reply_of(method@, path@),
{
    if str_eq(method, "GET") && str_eq(path, "/") {
        Reply::Instructions
    } else {
        Reply::NotFound
    }
}

impl Reply {
    /// The status code of the answer.
    pub fn status(&self) -> (code: u16)
        ensures
            code == match self {
                Reply::Instructions => 200u16,
                Reply::NotFound => 404u16,
            },
    {
        match self {
            Reply::Instructions => 200,
            Reply::NotFound => 404,
        }
    }

    /// The body of the answer.
    pub fn body(&self) -> (text: &'static str)
        ensures
            text@ == match self {
                Reply::Instructions =>
                    "Try POSTing data to /echo such as: `curl localhost:3000/echo -XPOST -d \"hello world\"`"@,
                Reply::NotFound => ""@,
            },
    {
        match self {
            Reply::Instructions =>
                "Try POSTing data to /echo such as: `curl localhost:3000/echo -XPOST -d \"hello world\"`",
            Reply::NotFound => "",
        }
    }
}

} // verus!
