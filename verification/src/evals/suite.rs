//! The built-in suite: each case drives the real loop behind the real guard,
//! with a scripted model.

use vstd::prelude::*;
use crate::agent::loops::{denied_tool, LoopOutcomeView, ReActLoop};
use crate::agent::model::{
    call_tool, calling, empty_value, one_text, one_text_value, saying, two_texts, two_texts_value,
};
use crate::agent::tool::{arg_of, LocalTool};
use crate::agent::wire::object;
use crate::assoc::assoc;
use crate::evals::golden::{Expectation, Golden, Scenario};
use crate::evals::harness::{
    allowance, invoke_any_tool, read_write_memory, send_to_any_peer, PlaybackView,
};
use crate::evals::metrics::{
    reads_as_run, reads_as_success, ContainsMetric, GroundednessWindowMetric, LatencyMetric, Metric,
    PermissionBoundaryMetric, PostCheckMetric, Ratio, ToolTrajectoryMetric,
};
use crate::evals::outcome::{appended, observed, CaseOutcome, OutcomeView};
use crate::evals::playback::{
    fills, last_said, mail_after, reaction, ruling, script, store_after, tool_named, turns_taken,
    SlotView,
};
use crate::evals::staging::{
    all_taken, holds_exactly, lemma_evaluator_is_exact, lemma_reaction, lemma_ruled_in, no_letters,
    stage, staged, tool_texts, Staged,
};
use crate::faraday::diary::{Diary, DiaryEntryView, EntryKind, InMemoryDiary, NewDiaryEntry};
use crate::faraday::index::{
    has_address, in_diary_order, points_to, SheetComposer, Slip, StandardComposer,
};
use crate::scan::{is_space, occurs, occurs_in, stands_at, word_count};
use crate::security::audit::SystemClock;
use crate::security::engine::ReasonView;
use crate::security::kernel::{DeniedView, HandleView, RefusalView};
use crate::security::kernel_laws::law_unconditional_checks_are_exact;
use crate::security::patterns::{Action, PatternView, ResourcePatternView, ResourceView};
use crate::security::rules::{ObligationView, Rule, RuleView};
use crate::swarm::bus::{letters, EnvelopeView, Mail, PayloadView};
use crate::swarm::guarded::{asked, Answer};
use crate::swarm::service::to_one;
use crate::swarm::storage::{lookup, Storage};
use crate::text::{decimal, join, join_text, same_text};
use crate::types::{
    CompletionResponse, Failure, HarnessId, Message, MessageView, Role, ToolCallView,
};
use crate::views::{lemma_views_push, opt_view, views};

verus! {

// ---------------------------------------------------------------------------
// The cases
// ---------------------------------------------------------------------------

/// What counting the words of the slogan comes to.
pub open spec fn word_count_outcome() -> OutcomeView {
    OutcomeView {
        final_text: "counting"@,
        tool_observations: seq![("word_count"@, slogan_count())],
        denied_tools: Seq::empty(),
        elapsed_ms: 0,
        steps: 1,
        post_check: None,
    }
}

fn observed_once(name: &str, text: &str) -> (r: Vec<(String, String)>)
    ensures
        observed(r@) == seq![(name@, text@)],
{
    let r = vec![(name.to_owned(), text.to_owned())];
    assert(observed(r@) =~= seq![(name@, text@)]);
    r
}

/// One turn that counts the words of a slogan.
pub fn correctness_word_count() -> (r: CaseOutcome)
    ensures
        r@ == word_count_outcome(),
{
    let rules = vec![invoke_any_tool("evaluator")];
    let turns = vec![
        call_tool("counting", "word_count", one_text_value("text", "ship fast stay safe")),
    ];
    let tools = vec![LocalTool::WordCount];
    let opening: Vec<Message> = Vec::new();
    assert(views(opening@) =~= Seq::<MessageView>::empty());
    let peers = vec!["evaluator".to_owned()];
    let ghost rule = allowance(
        "tools"@,
        "evaluator"@,
        seq![Action::Invoke],
        ResourcePatternView::Tool(PatternView::Any),
    );
    let ghost args = one_text("text"@, "ship fast stay safe"@);
    let ghost turn = calling("counting"@, "word_count"@, args);
    let ghost m = PlaybackView { turns: seq![turn], cursor: 0 };
    assert(views(rules@) =~= seq![rule]);
    assert(views(turns@) =~= seq![turn]);
    assert(tools@ =~= seq![LocalTool::WordCount]);
    let ghost given = views(rules@);
    let ghost ps = views(peers@);
    let s = stage(opening, peers, rules, turns, tools, 1);
    proof {
        let (h, t) = choose|h: HandleView, t: Seq<MessageView>| #[trigger]
            staged(s, h, t, Seq::empty(), given, ps, m, seq![LocalTool::WordCount], 1);
        let call = ToolCallView { name: "word_count"@, args };
        reveal_with_fuel(script, 2);
        reveal_with_fuel(turns_taken, 2);
        reveal_with_fuel(last_said, 2);
        let slots = script(m, 1);
        assert(slots =~= seq![SlotView::Said("counting"@), SlotView::Observed(call)]);
        lemma_evaluator_is_exact(h, given);
        assert(seq![Action::Invoke].contains(Action::Invoke)) by {
            assert(seq![Action::Invoke][0] == Action::Invoke);
        }
        lemma_ruled_in(h, given, Action::Invoke, ResourceView::Tool { name: "word_count"@ }, 0);
        assert(fills(seq![LocalTool::WordCount], h, s.bus@.dom(), s.bus@.dom(), slots[0], t[0]));
        assert(fills(seq![LocalTool::WordCount], h, s.bus@.dom(), s.bus@.dom(), slots[1], t[1]));
        let heard = choose|heard: Set<Seq<char>>|
            t[1].content == #[trigger] reaction(
                seq![LocalTool::WordCount],
                h,
                s.bus@.dom(),
                call,
                heard,
            );
        lemma_reaction(seq![LocalTool::WordCount], h, s.bus@.dom(), call, heard);
        reveal_with_fuel(assoc, 2);
        assert(arg_of(args, "text"@) == Ok::<Seq<char>, Seq<char>>("ship fast stay safe"@));
        reveal_with_fuel(tool_texts, 3);
        assert(t.drop_last().drop_last() =~= Seq::<MessageView>::empty());
        assert(tool_texts(t) =~= seq![t[1].content]);
        assert(views(s.observations@).len() == 1);
        assert(views(s.observations@)[0] == s.observations@[0]@);
    }
    CaseOutcome {
        final_text: s.outcome.final_text,
        tool_observations: observed_once("word_count", &s.observations[0]),
        denied_tools: Vec::new(),
        elapsed_ms: 0,
        steps: s.outcome.steps,
        post_check: None,
    }
}

/// What remembering a verdict and reading it back comes to.
pub open spec fn recall_outcome() -> OutcomeView {
    OutcomeView {
        final_text: "storing the verdict"@,
        tool_observations: seq![("remember"@, "stored '"@ + "eval/slogan"@ + "'"@)],
        denied_tools: Seq::empty(),
        elapsed_ms: 0,
        steps: 1,
        post_check: Some(true),
    }
}

/// One turn that stores a verdict, and then a look at the store.
pub fn correctness_remember_then_recall() -> (r: Result<CaseOutcome, Failure>)
    ensures
        r matches Ok(o) && o@ == recall_outcome(),
{
    proof {
        reveal_strlit("key");
        reveal_strlit("value");
        assert("key"@.len() == 3);
        assert("value"@.len() == 5);
    }
    let rules = vec![invoke_any_tool("evaluator"), read_write_memory("evaluator")];
    let turns = vec![
        call_tool(
            "storing the verdict",
            "remember",
            two_texts_value("key", "eval/slogan", "value", "4 words"),
        ),
    ];
    let tools = vec![LocalTool::Remember];
    let opening: Vec<Message> = Vec::new();
    assert(views(opening@) =~= Seq::<MessageView>::empty());
    let peers = vec!["evaluator".to_owned()];
    let ghost any_tool = allowance(
        "tools"@,
        "evaluator"@,
        seq![Action::Invoke],
        ResourcePatternView::Tool(PatternView::Any),
    );
    let ghost any_key = allowance(
        "mem"@,
        "evaluator"@,
        seq![Action::Read, Action::Write],
        ResourcePatternView::Memory(PatternView::Any),
    );
    let ghost key = "eval/slogan"@;
    let ghost args = two_texts("key"@, key, "value"@, "4 words"@);
    let ghost turn = calling("storing the verdict"@, "remember"@, args);
    let ghost m = PlaybackView { turns: seq![turn], cursor: 0 };
    let ghost belt = seq![LocalTool::Remember];
    assert(views(rules@) =~= seq![any_tool, any_key]);
    assert(views(turns@) =~= seq![turn]);
    assert(tools@ =~= belt);
    let ghost given = views(rules@);
    let ghost ps = views(peers@);
    let s = stage(opening, peers, rules, turns, tools, 1);
    let ghost empty = Map::<Seq<char>, Seq<char>>::empty();
    proof {
        let (h, t) = choose|h: HandleView, t: Seq<MessageView>| #[trigger]
            staged(s, h, t, Seq::empty(), given, ps, m, belt, 1);
        let call = ToolCallView { name: "remember"@, args };
        reveal_with_fuel(script, 2);
        reveal_with_fuel(turns_taken, 2);
        reveal_with_fuel(last_said, 2);
        let slots = script(m, 1);
        assert(slots =~= seq![SlotView::Said("storing the verdict"@), SlotView::Observed(call)]);
        lemma_evaluator_is_exact(h, given);
        assert(any_tool.actions[0] == Action::Invoke);
        assert(any_key.actions[0] == Action::Read);
        assert(any_key.actions[1] == Action::Write);
        lemma_ruled_in(h, given, Action::Invoke, ResourceView::Tool { name: "remember"@ }, 0);
        lemma_ruled_in(h, given, Action::Write, ResourceView::Memory { key }, 1);
        lemma_ruled_in(h, given, Action::Read, ResourceView::Memory { key }, 1);
        lemma_ruled_in(s.services@, given, Action::Read, ResourceView::Memory { key }, 1);
        assert(fills(belt, h, s.bus@.dom(), s.bus@.dom(), slots[0], t[0]));
        assert(fills(belt, h, s.bus@.dom(), s.bus@.dom(), slots[1], t[1]));
        let heard = choose|heard: Set<Seq<char>>|
            t[1].content == #[trigger] reaction(belt, h, s.bus@.dom(), call, heard);
        lemma_reaction(belt, h, s.bus@.dom(), call, heard);
        reveal_with_fuel(assoc, 3);
        reveal_strlit("key");
        reveal_strlit("value");
        assert("key"@.len() != "value"@.len());
        assert(arg_of(args, "key"@) == Ok::<Seq<char>, Seq<char>>(key));
        assert(arg_of(args, "value"@) == Ok::<Seq<char>, Seq<char>>("4 words"@));
        reveal_with_fuel(tool_texts, 3);
        assert(t.drop_last().drop_last() =~= Seq::<MessageView>::empty());
        assert(tool_texts(t) =~= seq![t[1].content]);
        assert(views(s.observations@).len() == 1);
        assert(views(s.observations@)[0] == s.observations@[0]@);
        reveal_with_fuel(store_after, 3);
        assert(slots.drop_last().drop_last() =~= Seq::<SlotView>::empty());
        assert(s.storage.contents() == empty.insert(key, "4 words"@));
    }
    let mut kernel = s.kernel;
    let ghost before = kernel;
    let recalled = match s.services.storage_get(&mut kernel, &s.storage, "eval/slogan") {
        Ok(v) => {
            proof {
                let a = choose|a: Answer| #[trigger]
                    asked(
                        before,
                        kernel,
                        s.services@,
                        Action::Read,
                        ResourceView::Memory { key },
                        a,
                    ) && (a is Ok ==> opt_view(v) == lookup(s.storage.contents(), key));
                law_unconditional_checks_are_exact(
                    before,
                    kernel,
                    s.services@,
                    Action::Read,
                    ResourceView::Memory { key },
                    s.services@.context(),
                    a,
                );
            }
            v
        },
        Err(e) => {
            proof {
                let a = choose|a: Answer| #[trigger]
                    asked(
                        before,
                        kernel,
                        s.services@,
                        Action::Read,
                        ResourceView::Memory { key },
                        a,
                    ) && a is Err;
                law_unconditional_checks_are_exact(
                    before,
                    kernel,
                    s.services@,
                    Action::Read,
                    ResourceView::Memory { key },
                    s.services@.context(),
                    a,
                );
            }
            return Err(Failure(e.to_text()));
        },
    };
    let found = match recalled {
        Some(v) => same_text(&v, "4 words"),
        None => false,
    };
    Ok(
        CaseOutcome {
            final_text: s.outcome.final_text,
            tool_observations: observed_once("remember", &s.observations[0]),
            denied_tools: Vec::new(),
            elapsed_ms: 0,
            steps: s.outcome.steps,
            post_check: Some(found),
        },
    )
}

/// What reporting to the recorder is observed as.
pub open spec fn reported() -> Seq<char> {
    "sent to '"@ + "recorder"@ + "'"@
}

/// What counting the words of the slogan is observed as.
pub open spec fn slogan_count() -> Seq<char> {
    decimal(word_count("ship fast stay safe"@))
}

/// What counting and then reporting comes to.
pub open spec fn two_step_outcome() -> OutcomeView {
    OutcomeView {
        final_text: "done"@,
        tool_observations: seq![
            ("word_count"@, slogan_count()),
            ("send_message"@, reported()),
        ],
        denied_tools: Seq::empty(),
        elapsed_ms: 0,
        steps: 3,
        post_check: None,
    }
}

fn observed_twice(name1: &str, text1: &str, name2: &str, text2: &str) -> (r: Vec<(String, String)>)
    ensures
        observed(r@) == seq![(name1@, text1@), (name2@, text2@)],
{
    let r = vec![
        (name1.to_owned(), text1.to_owned()),
        (name2.to_owned(), text2.to_owned()),
    ];
    assert(observed(r@) =~= seq![(name1@, text1@), (name2@, text2@)]);
    r
}

/// Whether a staged plan counted, reported and was done. The recorder has the
/// report, and nobody has anything else.
pub open spec fn counted_and_reported(s: Staged) -> bool {
    &&& s.outcome@ == (LoopOutcomeView { final_text: "done"@, steps: 3 })
    &&& views(s.observations@) == seq![slogan_count(), reported()]
    &&& s.bus@ == map![
        "evaluator"@ => Seq::empty(),
        "recorder"@ => seq![
            (to_one("evaluator"@, "recorder"@, PayloadView::Task("count=4"@)), true),
        ],
    ]
}

/// Play a plan of two steps: count, and then report the count to a peer.
pub fn count_and_report(opening: Vec<Message>) -> (s: Staged)
    requires
        tool_texts(views(opening@)) == Seq::<Seq<char>>::empty(),
    ensures
        counted_and_reported(s),
{
    proof {
        reveal_strlit("to");
        reveal_strlit("text");
        assert("to"@.len() == 2);
        assert("text"@.len() == 4);
    }
    let rules = vec![invoke_any_tool("evaluator"), send_to_any_peer("evaluator")];
    let turns = vec![
        call_tool("counting", "word_count", one_text_value("text", "ship fast stay safe")),
        call_tool(
            "reporting the count",
            "send_message",
            two_texts_value("to", "recorder", "text", "count=4"),
        ),
        CompletionResponse::say("done".to_owned()),
    ];
    let tools = vec![LocalTool::WordCount, LocalTool::SendMessage];
    let peers = vec!["evaluator".to_owned(), "recorder".to_owned()];
    let ghost any_tool = allowance(
        "tools"@,
        "evaluator"@,
        seq![Action::Invoke],
        ResourcePatternView::Tool(PatternView::Any),
    );
    let ghost any_peer = allowance(
        "talk"@,
        "evaluator"@,
        seq![Action::Send],
        ResourcePatternView::Peer(PatternView::Any),
    );
    let ghost args1 = one_text("text"@, "ship fast stay safe"@);
    let ghost args2 = two_texts("to"@, "recorder"@, "text"@, "count=4"@);
    let ghost turn1 = calling("counting"@, "word_count"@, args1);
    let ghost turn2 = calling("reporting the count"@, "send_message"@, args2);
    let ghost turn3 = saying("done"@);
    let ghost m = PlaybackView { turns: seq![turn1, turn2, turn3], cursor: 0 };
    let ghost belt = seq![LocalTool::WordCount, LocalTool::SendMessage];
    assert(views(rules@) =~= seq![any_tool, any_peer]);
    assert(views(turns@) =~= seq![turn1, turn2, turn3]);
    assert(tools@ =~= belt);
    let ghost given = views(rules@);
    let ghost ps = views(peers@);
    let ghost start = views(opening@);
    assert(ps[1] == "recorder"@);
    let s = stage(opening, peers, rules, turns, tools, ReActLoop::default().max_steps);
    proof {
        let (h, t) = choose|h: HandleView, t: Seq<MessageView>| #[trigger]
            staged(s, h, t, start, given, ps, m, belt, 8);
        let ids = s.bus@.dom();
        let n = start.len() as int;
        let call1 = ToolCallView { name: "word_count"@, args: args1 };
        let call2 = ToolCallView { name: "send_message"@, args: args2 };
        reveal_with_fuel(script, 4);
        reveal_with_fuel(turns_taken, 4);
        reveal_with_fuel(last_said, 4);
        let slots = script(m, 8);
        assert(slots =~= seq![
            SlotView::Said("counting"@),
            SlotView::Observed(call1),
            SlotView::Said("reporting the count"@),
            SlotView::Observed(call2),
            SlotView::Said("done"@),
        ]);
        lemma_evaluator_is_exact(h, given);
        assert(any_tool.actions[0] == Action::Invoke);
        assert(any_peer.actions[0] == Action::Send);
        lemma_ruled_in(h, given, Action::Invoke, ResourceView::Tool { name: "word_count"@ }, 0);
        lemma_ruled_in(h, given, Action::Invoke, ResourceView::Tool { name: "send_message"@ }, 0);
        lemma_ruled_in(h, given, Action::Send, ResourceView::Peer { id: "recorder"@ }, 1);
        assert(fills(belt, h, ids, ids, slots[0], t[n]));
        assert(fills(belt, h, ids, ids, slots[1], t[n + 1]));
        assert(fills(belt, h, ids, ids, slots[2], t[n + 2]));
        assert(fills(belt, h, ids, ids, slots[3], t[n + 3]));
        assert(fills(belt, h, ids, ids, slots[4], t[n + 4]));
        let heard1 = choose|heard: Set<Seq<char>>|
            t[n + 1].content == #[trigger] reaction(belt, h, ids, call1, heard);
        lemma_reaction(belt, h, ids, call1, heard1);
        let heard2 = choose|heard: Set<Seq<char>>|
            ids.subset_of(heard) && t[n + 3].content == #[trigger] reaction(
                belt,
                h,
                ids,
                call2,
                heard,
            );
        reveal_strlit("word_count");
        reveal_strlit("send_message");
        assert("word_count"@.len() != "send_message"@.len());
        reveal_with_fuel(tool_named, 3);
        assert(belt.drop_first()[0] == LocalTool::SendMessage);
        assert(tool_named(belt, "send_message"@) == Some(LocalTool::SendMessage));
        reveal_with_fuel(assoc, 3);
        reveal_strlit("to");
        reveal_strlit("text");
        assert("to"@.len() != "text"@.len());
        assert(arg_of(args1, "text"@) == Ok::<Seq<char>, Seq<char>>("ship fast stay safe"@));
        assert(arg_of(args2, "to"@) == Ok::<Seq<char>, Seq<char>>("recorder"@));
        assert(arg_of(args2, "text"@) == Ok::<Seq<char>, Seq<char>>("count=4"@));
        assert(ids.contains("recorder"@));
        assert(heard2.contains("recorder"@));
        lemma_five_more(start, t);
        assert(t[n + 1].content == slogan_count());
        assert(t[n + 3].content == reported());
        let env = to_one("evaluator"@, "recorder"@, PayloadView::Task("count=4"@));
        let quiet = no_letters(ids);
        assert(mail_after(belt, h, slots, quiet) == quiet.insert("recorder"@, seq![env])) by {
            reveal_with_fuel(mail_after, 6);
            let s4 = slots.drop_last();
            let s3 = s4.drop_last();
            let s2 = s3.drop_last();
            let s1 = s2.drop_last();
            assert(s4.last() == slots[3] && s3.last() == slots[2] && s2.last() == slots[1]
                && s1.last() == slots[0]);
            assert(s1.drop_last() =~= Seq::<SlotView>::empty());
            assert(quiet["recorder"@].push(env) =~= seq![env]);
        }
        assert(ps =~= seq!["evaluator"@, "recorder"@]);
        lemma_mail_of_two(s.bus@, env, ps);
    }
    s
}

/// The mail of two peers of whom only the second has a letter, which was taken.
proof fn lemma_mail_of_two(m: Mail, env: EnvelopeView, ps: Seq<Seq<char>>)
    requires
        ps == seq!["evaluator"@, "recorder"@],
        forall|id: Seq<char>| #[trigger] m.dom().contains(id) <==> ps.contains(id),
        letters(m) == no_letters(m.dom()).insert("recorder"@, seq![env]),
        all_taken(m),
    ensures
        m == map!["evaluator"@ => Seq::empty(), "recorder"@ => seq![(env, true)]],
{
    reveal_strlit("evaluator");
    reveal_strlit("recorder");
    assert("evaluator"@.len() != "recorder"@.len());
    assert(ps[0] == "evaluator"@ && ps[1] == "recorder"@);
    assert(m.contains_key("evaluator"@) && m.contains_key("recorder"@));
    assert(letters(m)["evaluator"@] == Seq::<EnvelopeView>::empty());
    assert(letters(m)["recorder"@] == seq![env]);
    assert(m["evaluator"@] =~= Seq::empty()) by {
        assert(letters(m)["evaluator"@].len() == m["evaluator"@].len());
    }
    assert(m["recorder"@] =~= seq![(env, true)]) by {
        assert(letters(m)["recorder"@].len() == m["recorder"@].len());
        assert(letters(m)["recorder"@][0] == m["recorder"@][0].0);
        assert(m["recorder"@][0].1);
    }
    assert(m =~= map!["evaluator"@ => Seq::empty(), "recorder"@ => seq![(env, true)]]);
}

/// The tool messages of a transcript that goes on with five messages, of which
/// the second and the fourth are a tool's.
proof fn lemma_five_more(start: Seq<MessageView>, t: Seq<MessageView>)
    requires
        t.len() == start.len() + 5,
        start.is_prefix_of(t),
        t[start.len() as int].role == Role::Assistant,
        t[start.len() as int + 1].role == Role::Tool,
        t[start.len() as int + 2].role == Role::Assistant,
        t[start.len() as int + 3].role == Role::Tool,
        t[start.len() as int + 4].role == Role::Assistant,
    ensures
        tool_texts(t) == tool_texts(start) + seq![
            t[start.len() as int + 1].content,
            t[start.len() as int + 3].content,
        ],
{
    reveal_with_fuel(tool_texts, 6);
    let n = start.len() as int;
    let t4 = t.drop_last();
    let t3 = t4.drop_last();
    let t2 = t3.drop_last();
    let t1 = t2.drop_last();
    assert(t1.drop_last() =~= start) by {
        assert(start =~= t.subrange(0, n));
    }
    assert(t4.last() == t[n + 3] && t3.last() == t[n + 2] && t2.last() == t[n + 1] && t1.last()
        == t[n]);
    assert(tool_texts(t) =~= tool_texts(start) + seq![t[n + 1].content, t[n + 3].content]);
}

/// A plan of two steps: count, and then report the count to a peer.
pub fn trajectory_two_step_plan() -> (r: CaseOutcome)
    ensures
        r@ == two_step_outcome(),
{
    let opening: Vec<Message> = Vec::new();
    let s = count_and_report(opening);
    assert(views(s.observations@).len() == 2);
    assert(views(s.observations@)[0] == s.observations@[0]@);
    assert(views(s.observations@)[1] == s.observations@[1]@);
    CaseOutcome {
        final_text: s.outcome.final_text,
        tool_observations: observed_twice(
            "word_count",
            &s.observations[0],
            "send_message",
            &s.observations[1],
        ),
        denied_tools: Vec::new(),
        elapsed_ms: 0,
        steps: s.outcome.steps,
        post_check: None,
    }
}

/// The refusal of an action for which no rule speaks.
pub open spec fn unmatched_refusal(h: HandleView, action: Action, resource: ResourceView) -> RefusalView {
    RefusalView::Denied(
        DeniedView {
            principal: h.principal.text(),
            action,
            resource: resource.describe(),
            reason: ReasonView::NoMatchingRule,
            rule: None,
        },
    )
}

/// What an ungranted shutdown comes to, for this handle.
pub open spec fn denied_outcome(h: HandleView) -> OutcomeView {
    OutcomeView {
        final_text: "shutting down"@,
        tool_observations: seq![
            (
                "shutdown_swarm"@,
                denied_tool(
                    "shutdown_swarm"@,
                    unmatched_refusal(
                        h,
                        Action::Invoke,
                        ResourceView::Tool { name: "shutdown_swarm"@ },
                    ),
                ),
            ),
        ],
        denied_tools: seq!["shutdown_swarm"@],
        elapsed_ms: 0,
        steps: 1,
        post_check: None,
    }
}

proof fn lemma_denials_say_so(name: Seq<char>, e: RefusalView)
    ensures
        occurs(denied_tool(name, e), "denied"@),
{
    reveal_strlit("tool '");
    reveal_strlit("' denied: ");
    reveal_strlit("denied");
    let text = denied_tool(name, e);
    let at = "tool '"@.len() + name.len() + 2;
    assert(text.subrange(at as int, at as int + 6) =~= "denied"@);
    assert(stands_at(text, "denied"@, at as int));
}

/// A shutdown that was never granted: it is refused before the tool runs.
pub fn safety_denied_tool_never_executes() -> (r: CaseOutcome)
    ensures
        exists|h: HandleView|
            holds_exactly(h, Seq::empty()) && r@ == #[trigger] denied_outcome(h),
{
    let rules: Vec<Rule> = Vec::new();
    let turns = vec![call_tool("shutting down", "shutdown_swarm", empty_value())];
    let tools = vec![LocalTool::ShutdownSwarm];
    let opening: Vec<Message> = Vec::new();
    assert(views(opening@) =~= Seq::<MessageView>::empty());
    let peers = vec!["evaluator".to_owned()];
    let ghost args = object(Seq::empty());
    let ghost turn = calling("shutting down"@, "shutdown_swarm"@, args);
    let ghost m = PlaybackView { turns: seq![turn], cursor: 0 };
    let ghost belt = seq![LocalTool::ShutdownSwarm];
    assert(views(rules@) =~= Seq::<RuleView>::empty());
    assert(views(turns@) =~= seq![turn]);
    assert(tools@ =~= belt);
    let ghost given = views(rules@);
    let ghost ps = views(peers@);
    let s = stage(opening, peers, rules, turns, tools, 1);
    let ghost (h, t) = choose|h: HandleView, t: Seq<MessageView>| #[trigger]
        staged(s, h, t, Seq::empty(), given, ps, m, belt, 1);
    proof {
        let call = ToolCallView { name: "shutdown_swarm"@, args };
        reveal_with_fuel(script, 2);
        reveal_with_fuel(turns_taken, 2);
        reveal_with_fuel(last_said, 2);
        let slots = script(m, 1);
        assert(slots =~= seq![SlotView::Said("shutting down"@), SlotView::Observed(call)]);
        assert(fills(belt, h, s.bus@.dom(), s.bus@.dom(), slots[0], t[0]));
        assert(fills(belt, h, s.bus@.dom(), s.bus@.dom(), slots[1], t[1]));
        reveal_with_fuel(tool_texts, 3);
        assert(t.drop_last().drop_last() =~= Seq::<MessageView>::empty());
        assert(tool_texts(t) =~= seq![t[1].content]);
        assert(views(s.observations@).len() == 1);
        assert(views(s.observations@)[0] == s.observations@[0]@);
        let e = unmatched_refusal(
            h,
            Action::Invoke,
            ResourceView::Tool { name: "shutdown_swarm"@ },
        );
        assert(ruling(h, Action::Invoke, ResourceView::Tool { name: "shutdown_swarm"@ }) == Err::<
            Seq<ObligationView>,
            RefusalView,
        >(e));
        assert(t[1].content == denied_tool("shutdown_swarm"@, e));
        lemma_denials_say_so("shutdown_swarm"@, e);
    }
    let denied = occurs_in(&s.observations[0], "denied");
    let mut denied_tools: Vec<String> = Vec::new();
    if denied {
        denied_tools.push("shutdown_swarm".to_owned());
    }
    assert(views(denied_tools@) =~= seq!["shutdown_swarm"@]);
    let r = CaseOutcome {
        final_text: s.outcome.final_text,
        tool_observations: observed_once("shutdown_swarm", &s.observations[0]),
        denied_tools,
        elapsed_ms: 0,
        steps: s.outcome.steps,
        post_check: None,
    };
    assert(r@ == denied_outcome(h));
    r
}

/// The notes of an experiment, in order. Taken alone, the third says nothing.
pub open spec fn notes() -> Seq<Seq<char>> {
    seq![
        "set up coil A near the magnet"@,
        "no deflection observed yet"@,
        "deflection!"@,
        "repeated with coil B, same result"@,
        "concluded: motion of magnet induces current"@,
    ]
}

fn note_texts() -> (r: Vec<String>)
    ensures
        views(r@) == notes(),
{
    let r = vec![
        "set up coil A near the magnet".to_owned(),
        "no deflection observed yet".to_owned(),
        "deflection!".to_owned(),
        "repeated with coil B, same result".to_owned(),
        "concluded: motion of magnet induces current".to_owned(),
    ];
    assert(views(r@) =~= notes());
    r
}

/// What composing a sheet around the third note comes to: the whole experiment.
pub open spec fn window_outcome() -> OutcomeView {
    OutcomeView {
        final_text: join(notes(), " | "@),
        tool_observations: Seq::empty(),
        denied_tools: Seq::empty(),
        elapsed_ms: 0,
        steps: 5,
        post_check: None,
    }
}

/// A sheet that has every address of the diary is the diary.
proof fn lemma_whole_diary(entries: Seq<DiaryEntryView>, log: Seq<DiaryEntryView>, n: int)
    requires
        in_diary_order(entries, log),
        forall|a: int| 1 <= a <= log.len() ==> #[trigger] has_address(entries, a),
        0 <= n <= log.len(),
    ensures
        n <= entries.len(),
        forall|i: int| 0 <= i < n ==> (#[trigger] entries[i]).seq == i + 1,
    decreases n,
{
    if n > 0 {
        lemma_whole_diary(entries, log, n - 1);
        assert(has_address(entries, n));
        let j = choose|j: int| 0 <= j < entries.len() && (#[trigger] entries[j]).seq == n;
        if j < n - 1 {
            assert(entries[j].seq == j + 1);
        }
        let at = entries[n - 1];
        if j > n - 1 {
            assert(entries[n - 1].seq < entries[j].seq);
        }
        if n > 1 {
            assert(entries[n - 2].seq < entries[n - 1].seq);
        }
    }
}

/// A diary of five notes, and a sheet composed from a slip that points at the
/// middle one.
pub fn groundedness_window_preserves_context() -> (r: Result<CaseOutcome, Failure>)
    ensures
        r matches Ok(o) && o@ == window_outcome(),
{
    let mut diary = InMemoryDiary::new(SystemClock);
    let texts = note_texts();
    let ghost all = notes();
    for i in 0..texts.len()
        invariant
            views(texts@) == all,
            all.len() == 5,
            diary.valid(),
            diary.log().len() == i,
            forall|j: int|
                0 <= j < i ==> (#[trigger] diary.log()[j]).content == all[j],
    {
        let ghost before = diary.log();
        let entry = NewDiaryEntry {
            harness: HarnessId::new("evaluator"),
            activation: "eval-groundedness".to_owned(),
            kind: EntryKind::Observation,
            content: texts[i].clone(),
            refs: Vec::new(),
        };
        assert(all[i as int] == texts[i as int]@);
        let kept = diary.record(entry);
        assert(kept is Ok);
        assert forall|j: int| 0 <= j < i + 1 implies (#[trigger] diary.log()[j]).content
            == all[j] by {
            if j < i {
                assert(diary.log()[j] == before[j]);
            }
        }
    }
    let slip = Slip {
        descriptor: "coil deflection run".to_owned(),
        topic: "induction".to_owned(),
        refs: vec![3],
    };
    let slips = vec![slip];
    let composed = StandardComposer.compose("induction write-up", &slips, &diary, 2);
    let sheet = match composed {
        Ok(sheet) => sheet,
        Err(e) => {
            return Err(e);
        },
    };
    let ghost log = diary.log();
    let ghost entries = views(sheet.entries@);
    proof {
        let sv = views(slips@);
        assert(sv[0].refs =~= seq![3u64]);
        assert(sv[0].refs[0] == 3u64);
        assert(points_to(sv, 3));
        diary.addresses();
        assert forall|a: int| 1 <= a <= log.len() implies #[trigger] has_address(entries, a) by {}
        lemma_whole_diary(entries, log, 5);
        if entries.len() > 5 {
            assert(entries[4].seq < entries[5].seq);
        }
        assert forall|i: int| 0 <= i < 5 implies #[trigger] entries[i] == log[i] by {
            assert(entries[i].seq == i + 1);
        }
        assert(entries =~= log);
    }
    let mut contents: Vec<String> = Vec::new();
    for i in 0..sheet.entries.len()
        invariant
            entries == views(sheet.entries@),
            entries == log,
            log.len() == 5,
            all == notes(),
            forall|j: int| 0 <= j < 5 ==> (#[trigger] log[j]).content == all[j],
            views(contents@) == all.take(i as int),
    {
        broadcast use lemma_views_push;

        assert(entries[i as int] == sheet.entries[i as int]@);
        assert(log[i as int].content == all[i as int]);
        contents.push(sheet.entries[i].content.clone());
        assert(all.take(i + 1) =~= all.take(i as int).push(all[i as int]));
    }
    assert(all.take(5) =~= all);
    Ok(
        CaseOutcome {
            final_text: join_text(&contents, " | "),
            tool_observations: Vec::new(),
            denied_tools: Vec::new(),
            elapsed_ms: 0,
            steps: sheet.entries.len(),
            post_check: None,
        },
    )
}

// ---------------------------------------------------------------------------
// The suite
// ---------------------------------------------------------------------------

/// Whether an outcome is one that a run may come to.
pub open spec fn comes_to(run: Scenario, o: OutcomeView) -> bool {
    match run {
        Scenario::WordCount => o == word_count_outcome(),
        Scenario::RememberThenRecall => o == recall_outcome(),
        Scenario::TwoStepPlan => o == two_step_outcome(),
        Scenario::DeniedTool => exists|h: HandleView|
            holds_exactly(h, Seq::empty()) && o == #[trigger] denied_outcome(h),
        Scenario::WindowContext => o == window_outcome(),
    }
}

/// Run one scenario.
pub fn run_scenario(run: Scenario) -> (r: Result<CaseOutcome, Failure>)
    ensures
        r matches Ok(o) && comes_to(run, o@),
{
    match run {
        Scenario::WordCount => Ok(correctness_word_count()),
        Scenario::RememberThenRecall => correctness_remember_then_recall(),
        Scenario::TwoStepPlan => Ok(trajectory_two_step_plan()),
        Scenario::DeniedTool => Ok(safety_denied_tool_never_executes()),
        Scenario::WindowContext => groundedness_window_preserves_context(),
    }
}

/// The cases of the suite.
pub open spec fn suite_cases() -> Seq<Golden> {
    seq![
        Golden {
            id: "correctness-word-count",
            description: "SingleShot runs word_count and the count reaches the transcript",
            expectation: Expectation::Contains("4"),
            run: Scenario::WordCount,
        },
        Golden {
            id: "correctness-remember-then-recall",
            description: "a remember tool call's write is actually readable back from storage",
            expectation: Expectation::PostCheck,
            run: Scenario::RememberThenRecall,
        },
        Golden {
            id: "trajectory-two-step-plan",
            description: "ReActLoop executes a count-then-report plan across two tool calls",
            expectation: Expectation::ToolSucceeded("send_message"),
            run: Scenario::TwoStepPlan,
        },
        Golden {
            id: "safety-denied-tool-never-executes",
            description: "a tool call outside the admitted GrantSet is refused before it runs",
            expectation: Expectation::ToolDenied("shutdown_swarm"),
            run: Scenario::DeniedTool,
        },
        Golden {
            id: "performance-single-shot-latency-budget",
            description: "a single-shot activation completes within a generous offline budget",
            expectation: Expectation::MaxLatencyMs(200),
            run: Scenario::WordCount,
        },
        Golden {
            id: "groundedness-window-preserves-context",
            description: "SheetComposer resolves a slip through Diary::window, not a bare entry",
            expectation: Expectation::WindowContains("induces current"),
            run: Scenario::WindowContext,
        },
    ]
}

/// The suite.
pub fn suite() -> (r: Vec<Golden>)
    ensures
        r@ == suite_cases(),
{
    vec![
        Golden {
            id: "correctness-word-count",
            description: "SingleShot runs word_count and the count reaches the transcript",
            expectation: Expectation::Contains("4"),
            run: Scenario::WordCount,
        },
        Golden {
            id: "correctness-remember-then-recall",
            description: "a remember tool call's write is actually readable back from storage",
            expectation: Expectation::PostCheck,
            run: Scenario::RememberThenRecall,
        },
        Golden {
            id: "trajectory-two-step-plan",
            description: "ReActLoop executes a count-then-report plan across two tool calls",
            expectation: Expectation::ToolSucceeded("send_message"),
            run: Scenario::TwoStepPlan,
        },
        Golden {
            id: "safety-denied-tool-never-executes",
            description: "a tool call outside the admitted GrantSet is refused before it runs",
            expectation: Expectation::ToolDenied("shutdown_swarm"),
            run: Scenario::DeniedTool,
        },
        Golden {
            id: "performance-single-shot-latency-budget",
            description: "a single-shot activation completes within a generous offline budget",
            expectation: Expectation::MaxLatencyMs(200),
            run: Scenario::WordCount,
        },
        Golden {
            id: "groundedness-window-preserves-context",
            description: "SheetComposer resolves a slip through Diary::window, not a bare entry",
            expectation: Expectation::WindowContains("induces current"),
            run: Scenario::WindowContext,
        },
    ]
}

// ---------------------------------------------------------------------------
// Laws
// ---------------------------------------------------------------------------

/// Whatever identity the agent was given, the boundary case passes the safety
/// metric: the tool was refused, and no observation of it reads as a run.
pub proof fn law_boundary_case_passes(h: HandleView)
    ensures
        PermissionBoundaryMetric.finds(
            Expectation::ToolDenied("shutdown_swarm"),
            denied_outcome(h),
        ).value == Ratio::of(true),
{
    let o = denied_outcome(h);
    let e = unmatched_refusal(h, Action::Invoke, ResourceView::Tool { name: "shutdown_swarm"@ });
    lemma_denials_say_so("shutdown_swarm"@, e);
    assert(o.denied_tools[0] == "shutdown_swarm"@);
    assert forall|i: int| 0 <= i < o.tool_observations.len() implies !reads_as_run(
        #[trigger] o.tool_observations[i],
        "shutdown_swarm"@,
    ) by {
        assert(i == 0);
    }
}

/// The recall case passes: what was remembered is what is read back.
pub proof fn law_recall_case_passes()
    ensures
        PostCheckMetric.finds(Expectation::PostCheck, recall_outcome()).value == Ratio::of(true),
{
}

/// One more character starts a word, or does not.
proof fn lemma_word_step(s: Seq<char>, i: int)
    requires
        0 <= i < s.len(),
    ensures
        word_count(s.take(i + 1)) == word_count(s.take(i)) + (if !is_space(s[i]) && (i == 0
            || is_space(s[i - 1])) {
            1nat
        } else {
            0nat
        }),
{
    let t = s.take(i + 1);
    assert(t.drop_last() =~= s.take(i));
    assert(t.last() == s[i]);
    if i > 0 {
        assert(t[t.len() - 2] == s[i - 1]);
    }
}

/// The slogan has four words.
pub proof fn law_the_slogan_has_four_words()
    ensures
        slogan_count() == "4"@,
{
    let s = "ship fast stay safe"@;
    reveal_strlit("ship fast stay safe");
    reveal_strlit("4");
    assert(s.take(0).len() == 0);
    lemma_word_step(s, 0);
    lemma_word_step(s, 1);
    lemma_word_step(s, 2);
    lemma_word_step(s, 3);
    lemma_word_step(s, 4);
    lemma_word_step(s, 5);
    lemma_word_step(s, 6);
    lemma_word_step(s, 7);
    lemma_word_step(s, 8);
    lemma_word_step(s, 9);
    lemma_word_step(s, 10);
    lemma_word_step(s, 11);
    lemma_word_step(s, 12);
    lemma_word_step(s, 13);
    lemma_word_step(s, 14);
    lemma_word_step(s, 15);
    lemma_word_step(s, 16);
    lemma_word_step(s, 17);
    lemma_word_step(s, 18);
    assert(s.take(19) =~= s);
    assert(word_count(s) == 4);
    assert(decimal(4) =~= "4"@);
}

/// The counting case passes: the count stands in the transcript.
pub proof fn law_word_count_case_passes()
    ensures
        ContainsMetric.finds(Expectation::Contains("4"), word_count_outcome()).value == Ratio::of(
            true,
        ),
{
    law_the_slogan_has_four_words();
    let o = word_count_outcome();
    let hay = o.haystack();
    reveal_strlit("4");
    reveal_with_fuel(appended, 2);
    assert(o.tool_observations.drop_last() =~= Seq::empty());
    let at = hay.len() - 1;
    assert(hay.subrange(at, at + 1) =~= "4"@);
    assert(stands_at(hay, "4"@, at));
}

/// The latency case passes where the run took no longer than its budget.
pub proof fn law_latency_case_passes(elapsed_ms: u64)
    requires
        elapsed_ms <= 200,
    ensures
        LatencyMetric.finds(
            Expectation::MaxLatencyMs(200),
            (OutcomeView { elapsed_ms, ..word_count_outcome() }),
        ).value == Ratio::of(true),
{
}

/// The two-step case passes: the report was sent, and its observation reads as a
/// success.
pub proof fn law_two_step_case_passes()
    ensures
        ToolTrajectoryMetric.finds(
            Expectation::ToolSucceeded("send_message"),
            two_step_outcome(),
        ).value == Ratio::of(true),
{
    let o = two_step_outcome();
    let text = reported();
    reveal_strlit("sent to '");
    reveal_strlit("recorder");
    reveal_strlit("'");
    reveal_strlit("denied");
    reveal_strlit("error");
    reveal_strlit("no such tool");
    assert(text =~= seq![
        's', 'e', 'n', 't', ' ', 't', 'o', ' ', '\'', 'r', 'e', 'c', 'o', 'r', 'd', 'e', 'r', '\'',
    ]);
    assert forall|i: int| !stands_at(text, "denied"@, i) by {
        if stands_at(text, "denied"@, i) {
            assert(text.subrange(i, i + 6)[0] == 'd');
            assert(text[i] == 'd');
        }
    }
    assert forall|i: int| !stands_at(text, "error"@, i) by {
        if stands_at(text, "error"@, i) {
            let part = text.subrange(i, i + 5);
            assert(part[0] == 'e' && part[1] == 'r' && part[2] == 'r');
            assert(text[i] == 'e' && text[i + 1] == 'r' && text[i + 2] == 'r');
        }
    }
    assert(!"no such tool"@.is_prefix_of(text)) by {
        assert("no such tool"@[0] == 'n');
        assert(text.subrange(0, 12)[0] == 's');
    }
    assert(reads_as_success(o.tool_observations[1], "send_message"@));
}

/// The window case passes: the conclusion stands on the sheet.
pub proof fn law_window_case_passes()
    ensures
        GroundednessWindowMetric.finds(
            Expectation::WindowContains("induces current"),
            window_outcome(),
        ).value == Ratio::of(true),
{
    let o = window_outcome();
    let hay = o.haystack();
    let last = "concluded: motion of magnet induces current"@;
    reveal_strlit("concluded: motion of magnet induces current");
    reveal_strlit("induces current");
    reveal_with_fuel(appended, 1);
    assert(appended(o.tool_observations) =~= Seq::<char>::empty());
    let text = join(notes(), " | "@);
    assert(hay =~= text);
    assert(notes().last() == last);
    assert(text == join(notes().drop_last(), " | "@) + " | "@ + last);
    let n = text.len() - last.len();
    assert forall|i: int| 0 <= i < last.len() implies text[n + i] == last[i] by {}
    let at = text.len() - 15;
    assert(text.subrange(at, at + 15) =~= "induces current"@) by {
        assert forall|i: int| 0 <= i < 15 implies text[at + i] == "induces current"@[i] by {
            assert(text[n + (28 + i)] == last[28 + i]);
        }
    }
    assert(stands_at(hay, "induces current"@, at));
}

} // verus!
