//! What a case is: an id, a description, what it expects, and the run that is
//! to show it.

use vstd::prelude::*;

verus! {

/// What kind of quality a metric measures.
#[derive(Clone, Copy, Debug, PartialEq, Eq, Structural)]
pub enum Dimension {
    Correctness,
    Trajectory,
    Safety,
    Performance,
    Groundedness,
}

impl Dimension {
    /// The dimension's label in reports.
    pub open spec fn label_spec(self) -> Seq<char> {
        match self {
            Dimension::Correctness => "correctness"@,
            Dimension::Trajectory => "trajectory"@,
            Dimension::Safety => "safety"@,
            Dimension::Performance => "performance"@,
            Dimension::Groundedness => "groundedness"@,
        }
    }

    /// The dimension's label in reports.
    pub fn label(&self) -> (r: &'static str)
        ensures
            r@ == self.label_spec(),
    {
        match self {
            Dimension::Correctness => "correctness",
            Dimension::Trajectory => "trajectory",
            Dimension::Safety => "safety",
            Dimension::Performance => "performance",
            Dimension::Groundedness => "groundedness",
        }
    }
}

/// What a case is expected to demonstrate.
#[derive(Clone, Copy, Debug)]
pub enum Expectation {
    /// The final text or a tool observation contains this text.
    Contains(&'static str),
    /// A side effect particular to the case landed.
    PostCheck,
    /// This tool was invoked and returned a result that is no error.
    ToolSucceeded(&'static str),
    /// This tool call was refused before it reached the tool.
    ToolDenied(&'static str),
    /// The activation completed within this many milliseconds.
    MaxLatencyMs(u64),
    /// A composed retrieval window contains this text.
    WindowContains(&'static str),
}

/// The runs that cases are made of.
#[derive(Clone, Copy, Debug, PartialEq, Eq, Structural)]
pub enum Scenario {
    WordCount,
    RememberThenRecall,
    TwoStepPlan,
    DeniedTool,
    WindowContext,
}

/// One case.
#[derive(Clone, Copy, Debug)]
pub struct Golden {
    pub id: &'static str,
    pub description: &'static str,
    pub expectation: Expectation,
    pub run: Scenario,
}

} // verus!
