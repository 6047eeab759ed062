//! What happened when a case ran.

use vstd::prelude::*;
use crate::text::push_char;
use crate::views::views;

verus! {

/// What a run reports back, in enough detail for every metric to grade it.
#[derive(Clone, Debug, PartialEq, Eq)]
pub struct CaseOutcome {
    /// The loop's final assistant text.
    pub final_text: String,
    /// The tool calls in order, each with its observation.
    pub tool_observations: Vec<(String, String)>,
    /// The tools that were refused.
    pub denied_tools: Vec<String>,
    pub elapsed_ms: u64,
    pub steps: usize,
    /// The result of a check particular to the case.
    pub post_check: Option<bool>,
}

/// The mathematical value of a [`CaseOutcome`].
#[verifier::ext_equal]
pub struct OutcomeView {
    pub final_text: Seq<char>,
    pub tool_observations: Seq<(Seq<char>, Seq<char>)>,
    pub denied_tools: Seq<Seq<char>>,
    pub elapsed_ms: u64,
    pub steps: usize,
    pub post_check: Option<bool>,
}

/// The views of named observations.
pub open spec fn observed(s: Seq<(String, String)>) -> Seq<(Seq<char>, Seq<char>)> {
    s.map_values(|p: (String, String)| (p.0@, p.1@))
}

/// The observations, each after a line break.
pub open spec fn appended(observations: Seq<(Seq<char>, Seq<char>)>) -> Seq<char>
    decreases observations.len(),
{
    if observations.len() == 0 {
        Seq::empty()
    } else {
        appended(observations.drop_last()).push('\n') + observations.last().1
    }
}

impl OutcomeView {
    /// What is searched for expected text: the final text, and then every
    /// observation on a line of its own.
    pub open spec fn haystack(self) -> Seq<char> {
        self.final_text + appended(self.tool_observations)
    }
}

impl View for CaseOutcome {
    type V = OutcomeView;

    open spec fn view(&self) -> OutcomeView {
        OutcomeView {
            final_text: self.final_text@,
            tool_observations: observed(self.tool_observations@),
            denied_tools: views(self.denied_tools@),
            elapsed_ms: self.elapsed_ms,
            steps: self.steps,
            post_check: self.post_check,
        }
    }
}

impl Default for CaseOutcome {
    fn default() -> (r: Self)
        ensures
            r@ == (OutcomeView {
                final_text: Seq::empty(),
                tool_observations: Seq::empty(),
                denied_tools: Seq::empty(),
                elapsed_ms: 0,
                steps: 0,
                post_check: None,
            }),
    {
        CaseOutcome {
            final_text: String::new(),
            tool_observations: Vec::new(),
            denied_tools: Vec::new(),
            elapsed_ms: 0,
            steps: 0,
            post_check: None,
        }
    }
}

impl CaseOutcome {
    /// The outcome of a run that took this long.
    pub fn timed(self, elapsed_ms: u64) -> (r: Self)
        ensures
            r@ == (OutcomeView { elapsed_ms, ..self@ }),
    {
        CaseOutcome { elapsed_ms, ..self }
    }

    /// The final text, and then every observation on a line of its own.
    pub fn haystack(&self) -> (r: String)
        ensures
            r@ == self@.haystack(),
    {
        let mut s = self.final_text.clone();
        let ghost all = observed(self.tool_observations@);
        assert(s@ =~= self.final_text@ + appended(all.take(0)));
        for i in 0..self.tool_observations.len()
            invariant
                all == observed(self.tool_observations@),
                s@ == self.final_text@ + appended(all.take(i as int)),
        {
            push_char(&mut s, '\n');
            s.append(&self.tool_observations[i].1);
            assert(all.take(i + 1).drop_last() =~= all.take(i as int));
            assert(all.take(i + 1).last() == all[i as int]);
            assert(s@ =~= self.final_text@ + appended(all.take(i + 1)));
        }
        assert(all.take(all.len() as int) =~= all);
        s
    }
}

} // verus!
