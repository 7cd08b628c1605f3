//! The schedule type of a continuous-integration job that runs a build.

use vstd::prelude::*;

verus! {

/// Calls `<str as PartialEq>::eq`: whether two strings hold the same
/// characters.
#[verifier::external_body]
fn str_equals(a: &str, b: &str) -> (res: bool)
    ensures
        res == (a@ == b@),
{
    a == b
}

/// The schedule type of the job this process runs in, if it runs in one.
pub struct SandcastleScheduleType {
    schedule_type: Option<&'static str>,
}

pub const SCHEDULE_TYPE_CONTINUOUS: &'static str = "continuous";

pub const SCHEDULE_TYPE_DIFF: &'static str = "diff";

impl View for SandcastleScheduleType {
    type V = Option<Seq<char>>;

    closed spec fn view(&self) -> Option<Seq<char>> {
        match self.schedule_type {
            Some(s) => Some(s@),
            None => None,
        }
    }
}

impl SandcastleScheduleType {
    /// The schedule type from the values of the variables `SCHEDULE_TYPE`
    /// and `SANDCASTLE_SCHEDULE_TYPE`: the first that is set.
    pub fn from_env_values(
        schedule_type: Option<&'static str>,
        sandcastle_schedule_type: Option<&'static str>,
    ) -> (res: Self)
        ensures
            res@ == match schedule_type {
                Some(s) => Some(s@),
                None => match sandcastle_schedule_type {
                    Some(s) => Some(s@),
                    None => None,
                },
            },
    {
        let schedule_type = if let Some(env) = schedule_type {
            Some(env)
        } else {
            sandcastle_schedule_type
        };
        Self { schedule_type }
    }

    pub fn is_continuous(&self) -> (res: bool)
        ensures
            res == (self@ == Some("continuous"@)),
    {
        match self.schedule_type {
            Some(s) => str_equals(s, SCHEDULE_TYPE_CONTINUOUS),
            None => false,
        }
    }

    pub fn is_some(&self) -> (res: bool)
        ensures
            res == (self@ is Some),
    {
        self.schedule_type.is_some()
    }

    pub fn is_diff(&self) -> (res: bool)
        ensures
            res == (self@ == Some("diff"@)),
    {
        match self.schedule_type {
            Some(s) => str_equals(s, SCHEDULE_TYPE_DIFF),
            None => false,
        }
    }

    pub fn testing_new(schedule_type: &'static str) -> (res: Self)
        ensures
            res@ == Some(schedule_type@),
    {
        Self { schedule_type: Some(schedule_type) }
    }

    pub fn testing_empty() -> (res: Self)
        ensures
            res@ is None,
    {
        Self { schedule_type: None }
    }
}

/// A schedule type is never both continuous and diff, and either one means
/// that a schedule type is set.
pub proof fn law_continuous_and_diff_exclusive(s: SandcastleScheduleType)
    ensures
        !(s@ == Some("continuous"@) && s@ == Some("diff"@)),
        s@ == Some("continuous"@) ==> s@ is Some,
        s@ == Some("diff"@) ==> s@ is Some,
{
    reveal_strlit("continuous");
    reveal_strlit("diff");
    assert("continuous"@.len() != "diff"@.len());
}

} // verus!
