//! A turn-by-turn console session.
//!
//! A [`Repl`] decides what each line means and keeps the running transcript.
//! Reading lines, running turns and printing are the driver's work.

use vstd::prelude::*;
use crate::agent::loops::LoopOutcome;
use crate::scan::{trim, trim_text};
use crate::text::same_text;
use crate::types::{Failure, Message, MessageView, Role};
use crate::views::{lemma_views_push, views};

verus! {

/// What to do when a turn itself fails.
#[derive(Clone, Copy, Debug, PartialEq, Eq, Structural)]
pub enum ReplOnError {
    /// End the session with the error.
    Abort,
    /// Report it and keep going.
    Continue,
}

/// How a session presents itself.
#[derive(Debug)]
pub struct ReplOptions {
    /// Shown once, before the first prompt.
    pub greeting: String,
    /// Shown before each reply.
    pub reply_prefix: String,
    pub on_error: ReplOnError,
    /// Forwarded to each turn's context.
    pub trace: bool,
}

/// What a line asks for.
#[derive(Debug)]
pub enum ReplStep {
    /// Nothing.
    Skip,
    /// The end of the session.
    Stop,
    /// A turn over this transcript, whose last message is the line.
    Turn { line: String, transcript: Vec<Message> },
}

/// The mathematical value of a [`ReplStep`].
pub enum ReplStepView {
    Skip,
    Stop,
    Turn { line: Seq<char>, transcript: Seq<MessageView> },
}

impl View for ReplStep {
    type V = ReplStepView;

    open spec fn view(&self) -> ReplStepView {
        match self {
            ReplStep::Skip => ReplStepView::Skip,
            ReplStep::Stop => ReplStepView::Stop,
            ReplStep::Turn { line, transcript } => ReplStepView::Turn {
                line: line@,
                transcript: views(transcript@),
            },
        }
    }
}

/// What is shown after a turn.
#[derive(Debug, PartialEq, Eq)]
pub enum ReplOutput {
    /// The reply, on the ordinary output.
    Reply(String),
    /// A failure, on the error output.
    Complaint(String),
}

/// The mathematical value of a [`ReplOutput`].
pub enum ReplOutputView {
    Reply(Seq<char>),
    Complaint(Seq<char>),
}

impl View for ReplOutput {
    type V = ReplOutputView;

    open spec fn view(&self) -> ReplOutputView {
        match self {
            ReplOutput::Reply(s) => ReplOutputView::Reply(s@),
            ReplOutput::Complaint(s) => ReplOutputView::Complaint(s@),
        }
    }
}

/// A session: its running transcript.
pub struct Repl {
    transcript: Vec<Message>,
}

/// Whether a transcript is made of whole exchanges: each line of the user
/// followed by its reply.
pub open spec fn exchanges(transcript: Seq<MessageView>) -> bool {
    &&& transcript.len() % 2 == 0
    &&& forall|i: int|
        0 <= i < transcript.len() ==> (#[trigger] transcript[i]).role == (if i % 2 == 0 {
            Role::User
        } else {
            Role::Assistant
        })
}

/// What a line asks for in a session with this transcript. No line is the end
/// of the input.
pub open spec fn step_for(transcript: Seq<MessageView>, line: Option<Seq<char>>) -> ReplStepView {
    match line {
        None => ReplStepView::Stop,
        Some(l) => {
            let said = trim(l);
            if said.len() == 0 {
                ReplStepView::Skip
            } else if said == "exit"@ || said == "quit"@ {
                ReplStepView::Stop
            } else {
                ReplStepView::Turn {
                    line: said,
                    transcript: transcript.push(MessageView { role: Role::User, content: said }),
                }
            }
        },
    }
}

/// The transcript after an exchange.
pub open spec fn exchanged(
    transcript: Seq<MessageView>,
    line: Seq<char>,
    reply: Seq<char>,
) -> Seq<MessageView> {
    transcript.push(MessageView { role: Role::User, content: line }).push(
        MessageView { role: Role::Assistant, content: reply },
    )
}

impl View for Repl {
    type V = Seq<MessageView>;

    closed spec fn view(&self) -> Seq<MessageView> {
        views(self.transcript@)
    }
}

impl Repl {
    /// A session that has not yet heard anything.
    pub fn new() -> (r: Self)
        ensures
            r@ == Seq::<MessageView>::empty(),
            exchanges(r@),
    {
        let r = Repl { transcript: Vec::new() };
        assert(r@ =~= Seq::<MessageView>::empty());
        r
    }

    /// What the next line asks for.
    pub fn read(&self, line: Option<&str>) -> (r: ReplStep)
        ensures
            r@ == step_for(
                self@,
                match line {
                    Some(l) => Some(l@),
                    None => None,
                },
            ),
    {
        broadcast use lemma_views_push;

        match line {
            None => ReplStep::Stop,
            Some(l) => {
                let said = trim_text(l);
                if said.unicode_len() == 0 {
                    ReplStep::Skip
                } else if same_text(&said, "exit") || same_text(&said, "quit") {
                    ReplStep::Stop
                } else {
                    let mut transcript = clone_messages(&self.transcript);
                    transcript.push(Message::user(&said));
                    ReplStep::Turn { line: said, transcript }
                }
            },
        }
    }

    /// Take the outcome of the turn over `line`. A failed turn leaves no trace
    /// in the transcript.
    pub fn settle(
        &mut self,
        opts: &ReplOptions,
        line: &str,
        outcome: Result<LoopOutcome, Failure>,
    ) -> (r: Result<ReplOutput, Failure>)
        ensures
            match outcome {
                Ok(o) => {
                    &&& r matches Ok(out) && out@ == ReplOutputView::Reply(
                        opts.reply_prefix@ + o@.final_text,
                    )
                    &&& final(self)@ == exchanged(old(self)@, line@, o@.final_text)
                },
                Err(e) => {
                    &&& final(self)@ == old(self)@
                    &&& match opts.on_error {
                        ReplOnError::Abort => r matches Err(e2) && e2@ == e@,
                        ReplOnError::Continue => r matches Ok(out) && out@
                            == ReplOutputView::Complaint(opts.reply_prefix@ + "error: "@ + e@),
                    }
                },
            },
            exchanges(old(self)@) ==> exchanges(final(self)@),
    {
        broadcast use lemma_views_push;

        match outcome {
            Ok(o) => {
                let mut s = opts.reply_prefix.clone();
                s.append(&o.final_text);
                self.transcript.push(Message::user(line));
                self.transcript.push(Message::assistant(&o.final_text));
                Ok(ReplOutput::Reply(s))
            },
            Err(e) => match opts.on_error {
                ReplOnError::Abort => Err(e),
                ReplOnError::Continue => {
                    let mut s = opts.reply_prefix.clone();
                    s.append("error: ");
                    s.append(&e.0);
                    Ok(ReplOutput::Complaint(s))
                },
            },
        }
    }
}

fn clone_messages(v: &Vec<Message>) -> (r: Vec<Message>)
    ensures
        views(r@) == views(v@),
{
    let mut out: Vec<Message> = Vec::new();
    let ghost all = views(v@);
    assert(views(out@) =~= all.take(0));
    for i in 0..v.len()
        invariant
            all == views(v@),
            views(out@) == all.take(i as int),
    {
        broadcast use lemma_views_push;

        out.push(v[i].clone());
        assert(all[i as int] == v[i as int]@);
        assert(all.take(i + 1) =~= all.take(i as int).push(all[i as int]));
    }
    assert(all.take(all.len() as int) =~= all);
    out
}

// ---------------------------------------------------------------------------
// Laws
// ---------------------------------------------------------------------------

/// Whether a line runs a turn, stops or is skipped does not depend on what was
/// said before.
pub proof fn law_lines_mean_the_same_throughout(
    s: Seq<MessageView>,
    t: Seq<MessageView>,
    line: Option<Seq<char>>,
)
    ensures
        step_for(s, line) is Stop == step_for(t, line) is Stop,
        step_for(s, line) is Skip == step_for(t, line) is Skip,
{
}

/// A turn sees everything said before it, in order, and then its own line.
pub proof fn law_a_turn_sees_the_whole_session(s: Seq<MessageView>, line: Seq<char>)
    ensures
        step_for(s, Some(line)) matches ReplStepView::Turn { line: said, transcript }
            ==> transcript.len() == s.len() + 1 && s.is_prefix_of(transcript)
            && transcript.last().content == said && transcript.last().role == Role::User,
{
    let p = s.push(MessageView { role: Role::User, content: trim(line) });
    assert(s =~= p.subrange(0, s.len() as int));
}

} // verus!
