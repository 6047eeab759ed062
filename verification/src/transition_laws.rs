//! What operations change, told from the values before and after a call.
//!
//! Each law quantifies over the reference that a call works on. What it refers to
//! is the value before the call, and its final value the one after.

use vstd::prelude::*;
use serde_json::Value;
use crate::agent::basic::AgentContext;
use crate::agent::loops::{advanced, LoopAction, LoopOutcome, LoopRun};
use crate::agent::repl::{Repl, ReplOptions, ReplOutput};
use crate::agent::tool::{output_view, used, LocalTool};
use crate::cache::entry::{Candidate, Demand, ValueClass};
use crate::cache::lookup::looked_up;
use crate::cache::pool::{found_view, CacheRegistry};
use crate::evals::harness::PlaybackModel;
use crate::evals::server::{ends_head, record_calls, stated_length, RequestHead};
use crate::faraday::diary::{Diary, InMemoryDiary, NewDiaryEntry};
use crate::faraday::ideabook::{IdeaBook, InMemoryIdeaBook};
use crate::faraday::index::{InMemorySlipIndex, Slip, SlipIndex};
use crate::json::json_of;
use crate::leader::{ActorReply, SearchActor};
use crate::security::audit::{AuditEvent, AuditSink, Clock, MemoryAudit};
use crate::security::engine::PolicyEngine;
use crate::security::identity::{GovernanceLabel, ModelClass};
use crate::security::kernel::{answer, checked, AgentManifest, GuardedServices, Kernel, Refusal};
use crate::security::patterns::{Action, Resource, ResourceView};
use crate::security::rules::Obligation;
use crate::swarm::bus::{Bus, BusError, EnvelopeView, PayloadView, RecipientView};
use crate::swarm::guarded::{
    done_view, read_through, send_through, shutdown_through, write_through, ServiceError,
};
use crate::swarm::harness::StandardHarness;
use crate::swarm::service::ServiceHandle;
use crate::swarm::spawn::{spawned, stopped, surveyed, AgentInfo};
use crate::swarm::storage::{InMemoryStorage, Storage};
use crate::text::decimal;
use crate::types::{CompletionRequest, CompletionResponse, Failure, Message, MessageView, Role};
use crate::views::{opt_view, views};

verus! {

// ---------------------------------------------------------------------------
// The loop
// ---------------------------------------------------------------------------

/// A turn is one step. It stands at the end of the transcript as the
/// assistant's, every call of it is then to be observed, and the loop is
/// satisfied exactly if there is none.
pub proof fn law_a_turn_brings_all_its_calls(resp: CompletionResponse)
    ensures
        forall|run: &mut LoopRun| #[trigger]
            call_ensures(LoopRun::on_thought, (run, resp), ()) ==> {
                let before = (*run)@;
                let after = (*final(run))@;
                &&& after.calls.len() == resp.tool_calls@.len()
                &&& forall|i: int|
                    0 <= i < resp.tool_calls@.len() ==> #[trigger] after.calls[i]
                        == resp.tool_calls@[i]@
                &&& after.observed == 0
                &&& after.steps == before.steps + 1
                &&& after.max_steps == before.max_steps
                &&& after.satisfied <==> resp.tool_calls@.len() == 0
                &&& after.last_text == resp.content@
                &&& after.transcript == before.transcript.push(
                    MessageView { role: Role::Assistant, content: resp.content@ },
                )
            },
{
}

/// A result is observed for the call that was handed out: what the tool said, or
/// that it failed and why. The next call is then due, and nothing else changes.
pub proof fn law_a_result_is_observed_once(r: Result<String, Failure>)
    ensures
        forall|run: &mut LoopRun| #[trigger]
            call_ensures(LoopRun::on_result, (run, r), ()) ==> {
                let before = (*run)@;
                let after = (*final(run))@;
                let name = before.calls[before.observed].name;
                &&& after.observed == before.observed + 1
                &&& after.calls == before.calls
                &&& after.steps == before.steps
                &&& after.max_steps == before.max_steps
                &&& after.satisfied == before.satisfied
                &&& after.last_text == before.last_text
                &&& after.transcript == before.transcript.push(
                    MessageView {
                        role: Role::Tool,
                        content: match r {
                            Ok(s) => s@,
                            Err(e) => "tool '"@ + name + "' error: "@ + e.0@,
                        },
                    },
                )
            },
{
}

/// A scripted model gives its next turn, and then the one after it; past the end
/// it gives its last turn again.
pub proof fn law_a_script_is_given_in_order(req: &CompletionRequest, r: CompletionResponse)
    ensures
        forall|m: &mut PlaybackModel| #[trigger]
            call_ensures(PlaybackModel::complete, (m, req), r) ==> {
                let before = (*m)@;
                let after = (*final(m))@;
                &&& before.cursor < before.turns.len() ==> r@ == before.turns[before.cursor as int]
                &&& before.cursor >= before.turns.len() > 0 ==> r@ == before.turns.last()
                &&& after.turns == before.turns
                &&& before.cursor < usize::MAX ==> after.cursor == before.cursor + 1
            },
{
}

/// A request's head is read line by line up to an empty one, and gives the length
/// that was stated last.
pub proof fn law_how_a_head_is_taken(line: &str, more: bool)
    ensures
        forall|h: &mut RequestHead| #[trigger]
            call_ensures(RequestHead::take, (h, line), more) ==> {
                &&& more <==> !ends_head(line@)
                &&& (*final(h)).request_line == (*h).request_line
                &&& !more ==> (*final(h)).content_length == (*h).content_length
                &&& more && stated_length(line@) is None ==> (*final(h)).content_length
                    == (*h).content_length
                &&& more && stated_length(line@) is Some ==> (*final(h)).content_length
                    == stated_length(line@)->0
            },
{
}

/// A loop that goes on passes over what it may not run and hands out what it may.
pub proof fn law_how_a_loop_goes_on<P: PolicyEngine, A: AuditSink, C: Clock>(
    tools: &Vec<String>,
    r: LoopAction,
)
    ensures
        forall|run: &mut LoopRun, k: &mut Kernel<P, A, C>| #[trigger]
            call_ensures(LoopRun::advance::<P, A, C>, (run, k, tools), r) ==> advanced(
                *k,
                *final(k),
                (*run).handle(),
                (*final(run)).handle(),
                views(tools@),
                (*run)@,
                (*final(run))@,
                r,
            ),
{
}

// ---------------------------------------------------------------------------
// The terminal
// ---------------------------------------------------------------------------

/// A settled exchange adds what was asked and what was answered. A failed one
/// adds nothing, and ends the session or is complained of, as was chosen.
pub proof fn law_how_an_exchange_is_settled(
    opts: &ReplOptions,
    line: &str,
    outcome: Result<LoopOutcome, Failure>,
    r: Result<ReplOutput, Failure>,
)
    ensures
        forall|repl: &mut Repl| #[trigger]
            call_ensures(Repl::settle, (repl, opts, line, outcome), r) ==> {
                let before = (*repl)@;
                let after = (*final(repl))@;
                &&& outcome matches Ok(o) ==> {
                    &&& after == before.push(
                        MessageView { role: Role::User, content: line@ },
                    ).push(MessageView { role: Role::Assistant, content: o.final_text@ })
                    &&& r matches Ok(ReplOutput::Reply(s)) && s@ == opts.reply_prefix@
                        + o.final_text@
                }
                &&& outcome matches Err(e) ==> {
                    &&& after == before
                    &&& opts.on_error is Abort ==> (r matches Err(f) && f.0@ == e.0@)
                    &&& opts.on_error is Continue ==> (r matches Ok(ReplOutput::Complaint(s)) && s@
                        == opts.reply_prefix@ + "error: "@ + e.0@)
                }
            },
{
}

/// The names of a response's calls are added in order.
pub proof fn law_calls_are_recorded_by_name(resp: &CompletionResponse)
    ensures
        forall|calls: &mut Vec<String>| #[trigger]
            call_ensures(record_calls, (calls, resp), ()) ==> {
                let before = (*calls)@;
                let after = (*final(calls))@;
                &&& after.len() == before.len() + resp.tool_calls@.len()
                &&& forall|i: int| 0 <= i < before.len() ==> (#[trigger] after[i])@ == before[i]@
                &&& forall|i: int|
                    0 <= i < resp.tool_calls@.len() ==> (#[trigger] after[before.len() + i])@
                        == resp.tool_calls@[i].name@
            },
{
    assert forall|calls: &mut Vec<String>| #[trigger]
        call_ensures(record_calls, (calls, resp), ()) implies {
        let before = (*calls)@;
        let after = (*final(calls))@;
        &&& after.len() == before.len() + resp.tool_calls@.len()
        &&& forall|i: int| 0 <= i < before.len() ==> (#[trigger] after[i])@ == before[i]@
        &&& forall|i: int|
            0 <= i < resp.tool_calls@.len() ==> (#[trigger] after[before.len() + i])@
                == resp.tool_calls@[i].name@
    } by {
        let before = (*calls)@;
        let after = (*final(calls))@;
        assert(views(after).len() == after.len());
        assert forall|i: int| 0 <= i < before.len() implies (#[trigger] after[i])@
            == before[i]@ by {
            assert(views(after)[i] == views(before)[i]);
        }
        assert forall|i: int| 0 <= i < resp.tool_calls@.len() implies (#[trigger] after[before.len()
            + i])@ == resp.tool_calls@[i].name@ by {
            assert(views(after)[before.len() + i] == resp@.tool_calls[i].name);
        }
    }
}

// ---------------------------------------------------------------------------
// The kernel
// ---------------------------------------------------------------------------

/// Revoking starts the next epoch, and touches nothing else.
pub proof fn law_revoking_starts_an_epoch<P: PolicyEngine, A: AuditSink, C: Clock>(r: u64)
    ensures
        forall|k: &mut Kernel<P, A, C>| #[trigger]
            call_ensures(Kernel::<P, A, C>::revoke_all, (k,), r) ==> {
                &&& r == (*k).epoch_now + 1
                &&& *final(k) == (Kernel { epoch_now: r, ..*k })
            },
{
}

/// An activation begins under its own name with no steps taken and its budget
/// whole, for the same principal with the same grants.
pub proof fn law_an_activation_begins_afresh(id: &str, budget: u64)
    ensures
        forall|svc: &mut GuardedServices| #[trigger]
            call_ensures(GuardedServices::begin_activation, (svc, id, budget), ()) ==> {
                let before = (*svc)@;
                let after = (*final(svc))@;
                &&& after.activation == id@
                &&& after.steps == 0
                &&& after.byte_budget == budget
                &&& after.principal == before.principal
                &&& after.grants == before.grants
                &&& after.me == before.me
                &&& after.roster == before.roster
            },
{
}

/// What is put to the policy is what the caller asks: this verb on this resource,
/// for this handle.
pub proof fn law_what_a_check_asks<P: PolicyEngine, A: AuditSink, C: Clock>(
    svc: &GuardedServices,
    action: Action,
    resource: &Resource,
    r: Result<Vec<Obligation>, Refusal>,
)
    ensures
        forall|k: &mut Kernel<P, A, C>| #[trigger]
            call_ensures(GuardedServices::check::<P, A, C>, (svc, k, action, resource), r)
                ==> checked(*k, *final(k), svc@, action, resource@, svc@.context(), answer(r)),
{
}

/// Writing a value to a cache is put to the policy as a write of a value of this
/// class and label in the pool of this model, and sharing a pool as publishing
/// it.
pub proof fn law_what_cache_checks_ask<P: PolicyEngine, A: AuditSink, C: Clock>(
    svc: &GuardedServices,
    class: &ModelClass,
    value_class: ValueClass,
    label: &GovernanceLabel,
    r: Result<Vec<Obligation>, Refusal>,
)
    ensures
        forall|k: &mut Kernel<P, A, C>| #[trigger]
            call_ensures(
                GuardedServices::authorize_cache_write::<P, A, C>,
                (svc, k, class, value_class, label),
                r,
            ) ==> checked(
                *k,
                *final(k),
                svc@,
                Action::Write,
                ResourceView::Cache {
                    class: class@,
                    value_class: Some(value_class),
                    label: Some(label@),
                },
                svc@.context(),
                answer(r),
            ),
        forall|k: &mut Kernel<P, A, C>| #[trigger]
            call_ensures(GuardedServices::authorize_publish::<P, A, C>, (svc, k, class), r)
                ==> checked(
                *k,
                *final(k),
                svc@,
                Action::Publish,
                ResourceView::Cache { class: class@, value_class: None, label: None },
                svc@.context(),
                answer(r),
            ),
{
}

// ---------------------------------------------------------------------------
// Storage and messages
// ---------------------------------------------------------------------------

/// What is stored under a key is read back from under it, and other keys read as
/// before.
pub proof fn law_a_read_gives_back_the_write(
    key: &str,
    value: &str,
    other: &str,
    done: Result<(), Failure>,
    r: Result<Option<String>, Failure>,
)
    ensures
        forall|s: &mut InMemoryStorage|
            #[trigger] call_ensures(<InMemoryStorage as Storage>::set, (s, key, value), done)
                && call_ensures(<InMemoryStorage as Storage>::get, (&*final(s), other), r) ==> {
                &&& done is Ok
                &&& r is Ok
                &&& other@ == key@ ==> opt_view(r->Ok_0) == Some(value@)
                &&& other@ != key@ ==> opt_view(r->Ok_0) == if (*s).contents().contains_key(other@) {
                    Some((*s).contents()[other@])
                } else {
                    None
                }
            },
{
    assert forall|s: &mut InMemoryStorage|
        #[trigger] call_ensures(<InMemoryStorage as Storage>::set, (s, key, value), done)
            && call_ensures(<InMemoryStorage as Storage>::get, (&*final(s), other), r) implies {
        &&& done is Ok
        &&& r is Ok
        &&& other@ == key@ ==> opt_view(r->Ok_0) == Some(value@)
        &&& other@ != key@ ==> opt_view(r->Ok_0) == if (*s).contents().contains_key(other@) {
            Some((*s).contents()[other@])
        } else {
            None
        }
    } by {
        assert((*final(s)).contents() == (*s).contents().insert(key@, value@));
    }
}

/// The guarded calls pass on what they are given: a read the key, a write the key
/// and the value, and a message the peer and the text, as a task or as a reply.
pub proof fn law_guarded_calls_pass_on_what_they_are_given<
    P: PolicyEngine,
    A: AuditSink,
    C: Clock,
    S: Storage,
>(
    svc: &GuardedServices,
    storage: &S,
    a: &str,
    b: &str,
    read: Result<Option<String>, ServiceError>,
    r: Result<(), ServiceError>,
)
    ensures
        forall|k: &mut Kernel<P, A, C>| #[trigger]
            call_ensures(GuardedServices::storage_get::<P, A, C, S>, (svc, k, storage, a), read)
                ==> read_through(
                *k,
                *final(k),
                svc@,
                *storage,
                a@,
                match read {
                    Ok(v) => Ok(opt_view(v)),
                    Err(e) => Err(e@),
                },
            ),
        forall|k: &mut Kernel<P, A, C>, s: &mut S| #[trigger]
            call_ensures(GuardedServices::storage_set::<P, A, C, S>, (svc, k, s, a, b), r)
                ==> write_through(*k, *final(k), svc@, *s, *final(s), a@, b@, done_view(r)),
        forall|k: &mut Kernel<P, A, C>, m: &mut Bus| #[trigger]
            call_ensures(GuardedServices::send_task::<P, A, C>, (svc, k, m, a, b), r)
                ==> send_through(
                *k,
                *final(k),
                svc@,
                (*m)@,
                (*final(m))@,
                a@,
                PayloadView::Task(b@),
                done_view(r),
            ),
        forall|k: &mut Kernel<P, A, C>, m: &mut Bus| #[trigger]
            call_ensures(GuardedServices::send_reply::<P, A, C>, (svc, k, m, a, b), r)
                ==> send_through(
                *k,
                *final(k),
                svc@,
                (*m)@,
                (*final(m))@,
                a@,
                PayloadView::Reply(b@),
                done_view(r),
            ),
        forall|k: &mut Kernel<P, A, C>, m: &mut Bus| #[trigger]
            call_ensures(GuardedServices::broadcast_shutdown::<P, A, C>, (svc, k, m), r)
                ==> shutdown_through(*k, *final(k), svc@, (*m)@, (*final(m))@, done_view(r)),
{
}

/// A letter from one to another, with this payload.
pub open spec fn letter(from: Seq<char>, to: Seq<char>, payload: PayloadView) -> EnvelopeView {
    EnvelopeView { from, to: RecipientView::Harness(to), payload }
}

/// A task and a reply go to the peer they name, at the end of its mail, and to
/// nobody else; a peer that is not there gets nothing.
pub proof fn law_messages_go_where_they_are_sent(
    me: &ServiceHandle,
    to: &str,
    text: &str,
    r: Result<(), BusError>,
)
    ensures
        forall|m: &mut Bus| #[trigger]
            call_ensures(ServiceHandle::send_task, (me, m, to, text), r) ==> delivered(
                *m,
                *final(m),
                letter(me.me@, to@, PayloadView::Task(text@)),
                to@,
                r,
            ),
        forall|m: &mut Bus| #[trigger]
            call_ensures(ServiceHandle::send_reply, (me, m, to, text), r) ==> delivered(
                *m,
                *final(m),
                letter(me.me@, to@, PayloadView::Reply(text@)),
                to@,
                r,
            ),
{
}

/// Whether a letter was added to one peer's mail and to no other's, or to none if
/// there is no such peer.
pub open spec fn delivered(
    b: Bus,
    b2: Bus,
    env: EnvelopeView,
    to: Seq<char>,
    r: Result<(), BusError>,
) -> bool {
    &&& b2@.dom() == b@.dom()
    &&& forall|p: Seq<char>| p != to && b@.contains_key(p) ==> #[trigger] b2@[p] == b@[p]
    &&& b@.contains_key(to) ==> b2@[to] == b@[to].push((env, r is Ok))
    &&& !b@.contains_key(to) ==> (r matches Err(BusError::NoRoute(id)) && id@ == to)
    &&& b@.contains_key(to) && r is Err ==> (r matches Err(BusError::Closed(id)) && id@ == to)
}

/// A shutdown signal goes to every peer, once, and the sender always succeeds.
pub proof fn law_a_shutdown_reaches_everyone(me: &ServiceHandle, r: Result<(), BusError>)
    ensures
        forall|m: &mut Bus| #[trigger]
            call_ensures(ServiceHandle::broadcast_shutdown, (me, m), r) ==> {
                &&& r is Ok
                &&& (*final(m))@.dom() == (*m)@.dom()
                &&& forall|p: Seq<char>| #[trigger]
                    (*m)@.contains_key(p) ==> (*final(m))@[p].len() == (*m)@[p].len() + 1
                        && (*final(m))@[p].drop_last() == (*m)@[p] && (*final(m))@[p].last().0
                        == letter(me.me@, p, PayloadView::Shutdown)
            },
{
    assert forall|m: &mut Bus| #[trigger]
        call_ensures(ServiceHandle::broadcast_shutdown, (me, m), r) implies {
        &&& r is Ok
        &&& (*final(m))@.dom() == (*m)@.dom()
        &&& forall|p: Seq<char>| #[trigger]
            (*m)@.contains_key(p) ==> (*final(m))@[p].len() == (*m)@[p].len() + 1
                && (*final(m))@[p].drop_last() == (*m)@[p] && (*final(m))@[p].last().0 == letter(
                me.me@,
                p,
                PayloadView::Shutdown,
            )
    } by {
        assert forall|p: Seq<char>| #[trigger] (*m)@.contains_key(p) implies (*final(m))@[p].len()
            == (*m)@[p].len() + 1 && (*final(m))@[p].drop_last() == (*m)@[p]
            && (*final(m))@[p].last().0 == letter(me.me@, p, PayloadView::Shutdown) by {
            assert((*final(m))@[p].drop_last() =~= (*m)@[p]);
        }
    }
}

// ---------------------------------------------------------------------------
// Harnesses and actors
// ---------------------------------------------------------------------------

/// An activation is numbered after the one before it, opens with the text as the
/// user's, and has the harness's whole budget.
pub proof fn law_how_a_harness_activates(text: &str, svc: GuardedServices, r: AgentContext)
    ensures
        forall|h: &mut StandardHarness| #[trigger]
            call_ensures(StandardHarness::activate, (h, text, svc), r) ==> {
                let before = (*h)@;
                let after = (*final(h))@;
                &&& before.activation_seq < u64::MAX ==> after.activation_seq
                    == before.activation_seq + 1
                &&& after.id == before.id
                &&& after.seed == before.seed
                &&& after.byte_budget == before.byte_budget
                &&& r.transcript@.len() == 1
                &&& r.transcript@[0].role == Role::User
                &&& r.transcript@[0].content@ == text@
                &&& r.services@.activation == before.id + "-"@ + decimal(
                    (before.activation_seq + 1) as nat,
                )
                &&& r.services@.steps == 0
                &&& r.services@.byte_budget == before.byte_budget
                &&& r.services@.principal == svc@.principal
                &&& r.services@.grants == svc@.grants
            },
{
    assert forall|h: &mut StandardHarness| #[trigger]
        call_ensures(StandardHarness::activate, (h, text, svc), r) implies r.transcript@.len() == 1
        && r.transcript@[0]@ == (MessageView { role: Role::User, content: text@ }) by {
        assert(views(r.transcript@).len() == r.transcript@.len());
        assert(views(r.transcript@)[0] == r.transcript@[0]@);
    }
}

/// A seed is handed out once.
pub proof fn law_a_seed_is_taken_once(r: Option<String>)
    ensures
        forall|h: &mut StandardHarness| #[trigger]
            call_ensures(StandardHarness::take_seed, (h,), r) ==> opt_view(r) == (*h)@.seed
                && (*final(h))@.seed is None && (*final(h))@.activation_seq == (*h)@.activation_seq,
{
}

/// The search agent answers with what its run came to, or says what went wrong,
/// and keeps the transcript for the next question.
pub proof fn law_what_the_search_agent_answers(
    transcript: Vec<Message>,
    outcome: &Result<LoopOutcome, Failure>,
    r: ActorReply,
)
    ensures
        forall|a: &mut SearchActor| #[trigger]
            call_ensures(SearchActor::answered, (a, transcript, outcome), r) ==> {
                &&& (*final(a))@ == views(transcript@)
                &&& *outcome matches Ok(o) ==> r.reply@ == o.final_text@ && opt_view(r.record)
                    == Some(o.final_text@)
                &&& *outcome matches Err(e) ==> r.reply@ == "search agent error: "@ + e.0@
                    && r.record is None
            },
{
}

// ---------------------------------------------------------------------------
// Notes
// ---------------------------------------------------------------------------

/// A diary entry gets the next address and keeps what it was given; entries before
/// it stay as they are.
pub proof fn law_a_diary_only_grows<C: Clock>(entry: NewDiaryEntry, r: Result<u64, Failure>)
    ensures
        forall|d: &mut InMemoryDiary<C>| #[trigger]
            call_ensures(<InMemoryDiary<C> as Diary>::record, (d, entry), r) ==> {
                let before = (*d).log();
                let after = (*final(d)).log();
                &&& r matches Ok(addr) && addr == before.len() + 1
                &&& after.len() == before.len() + 1
                &&& after.drop_last() == before
                &&& after.last().seq == before.len() + 1
                &&& after.last().harness == entry.harness@
                &&& after.last().activation == entry.activation@
                &&& after.last().kind == entry.kind
                &&& after.last().content == entry.content@
                &&& after.last().refs == entry.refs@
            },
{
    assert forall|d: &mut InMemoryDiary<C>| #[trigger]
        call_ensures(<InMemoryDiary<C> as Diary>::record, (d, entry), r) implies {
        &&& r is Ok
        &&& (*final(d)).log().drop_last() == (*d).log()
    } by {
        assert((*final(d)).log().drop_last() =~= (*d).log());
    }
}

/// A note gets the next number and stands at the end of the book, unstruck, and
/// nothing before it changes.
pub proof fn law_a_note_is_added_at_the_end(topic: &str, content: &str, r: Result<u64, Failure>)
    ensures
        forall|b: &mut InMemoryIdeaBook| #[trigger]
            call_ensures(<InMemoryIdeaBook as IdeaBook>::jot, (b, topic, content), r) ==> {
                let before = (*b).book();
                let after = (*final(b)).book();
                &&& r matches Ok(id) && id == before.len() + 1
                &&& after.len() == before.len() + 1
                &&& after.drop_last() == before
                &&& after.last().topic == topic@
                &&& after.last().content == content@
                &&& !after.last().struck
                &&& after.last().supersedes is None
            },
{
    assert forall|b: &mut InMemoryIdeaBook| #[trigger]
        call_ensures(<InMemoryIdeaBook as IdeaBook>::jot, (b, topic, content), r) implies {
        &&& r is Ok
        &&& (*final(b)).book().drop_last() == (*b).book()
    } by {
        assert((*final(b)).book().drop_last() =~= (*b).book());
    }
}

/// A struck note stays in the book, marked; a revised one is struck, and what
/// replaces it is added under the same topic and says what it replaces. Unknown
/// numbers change nothing.
pub proof fn law_how_notes_are_struck_and_revised(
    id: u64,
    content: &str,
    struck: Result<(), Failure>,
    revised: Result<u64, Failure>,
    i: int,
)
    ensures
        forall|b: &mut InMemoryIdeaBook| #[trigger]
            call_ensures(<InMemoryIdeaBook as IdeaBook>::strike, (b, id), struck) ==> {
                let before = (*b).book();
                let after = (*final(b)).book();
                &&& struck is Ok <==> 1 <= id <= before.len()
                &&& struck is Err ==> after == before
                &&& after.len() == before.len()
                &&& struck is Ok ==> after[id - 1].struck && after[id - 1].content == before[id
                    - 1].content && after[id - 1].topic == before[id - 1].topic
                &&& 0 <= i < before.len() && i != id - 1 ==> after[i] == before[i]
            },
        forall|b: &mut InMemoryIdeaBook| #[trigger]
            call_ensures(<InMemoryIdeaBook as IdeaBook>::revise, (b, id, content), revised) ==> {
                let before = (*b).book();
                let after = (*final(b)).book();
                &&& revised is Ok <==> 1 <= id <= before.len()
                &&& revised is Err ==> after == before
                &&& revised matches Ok(new) ==> {
                    &&& new == before.len() + 1
                    &&& after.len() == before.len() + 1
                    &&& after[id - 1].struck
                    &&& after.last().content == content@
                    &&& after.last().topic == before[id - 1].topic
                    &&& after.last().supersedes == Some(id)
                    &&& !after.last().struck
                    &&& 0 <= i < before.len() && i != id - 1 ==> after[i] == before[i]
                }
            },
{
}

/// A slip is filed after those before it.
pub proof fn law_a_slip_is_filed_last(slip: Slip, r: Result<(), Failure>)
    ensures
        forall|x: &mut InMemorySlipIndex| #[trigger]
            call_ensures(<InMemorySlipIndex as SlipIndex>::tag, (x, slip), r) ==> r is Ok
                && (*final(x)).tagged() == (*x).tagged().push(slip@),
{
}

/// A record is kept at the end of the trail.
pub proof fn law_a_record_is_kept_last(event: AuditEvent, r: Result<(), Failure>)
    ensures
        forall|a: &mut MemoryAudit| #[trigger]
            call_ensures(<MemoryAudit as AuditSink>::append, (a, event), r) ==> r is Ok
                && (*final(a)).trail() == (*a).trail().push(event@),
{
}

/// Starting, stopping and listing agents go by the manifest, the name and the
/// table that they are given.
pub proof fn law_agents_are_managed_as_asked<P: PolicyEngine, A: AuditSink, C: Clock>(
    svc: &GuardedServices,
    m: &AgentManifest,
    inner: ServiceHandle,
    made: Result<GuardedServices, Refusal>,
    to: &str,
    done: Result<(), ServiceError>,
    table: &Vec<AgentInfo>,
    seen: Vec<AgentInfo>,
)
    ensures
        forall|k: &mut Kernel<P, A, C>| #[trigger]
            call_ensures(GuardedServices::spawn_child::<P, A, C>, (svc, k, m, inner), made)
                ==> spawned(
                *k,
                *final(k),
                svc@,
                m@,
                inner.me.0@,
                match made {
                    Ok(child) => Ok(child@),
                    Err(e) => Err(e@),
                },
            ),
        forall|k: &mut Kernel<P, A, C>, b: &mut Bus| #[trigger]
            call_ensures(GuardedServices::send_shutdown::<P, A, C>, (svc, k, b, to), done)
                ==> stopped(*k, *final(k), svc@, (*b)@, (*final(b))@, to@, done_view(done)),
        forall|k: &mut Kernel<P, A, C>| #[trigger]
            call_ensures(GuardedServices::list_agents::<P, A, C>, (svc, k, table), seen)
                ==> surveyed(*k, *final(k), svc@, views(table@), views(seen@)),
{
}

/// A lookup reads the registry's pools for this demand on behalf of this handle.
/// Without a registry nothing is found, and nothing is asked.
pub proof fn law_what_a_lookup_reads<
    P: PolicyEngine,
    A: AuditSink,
    C: Clock,
    R: CacheRegistry,
>(svc: &GuardedServices, registry: &R, demand: &Demand, r: Result<Vec<Candidate>, Failure>)
    ensures
        forall|k: &mut Kernel<P, A, C>| #[trigger]
            call_ensures(
                GuardedServices::cache_lookup::<P, A, C, R>,
                (svc, k, Some(registry), demand),
                r,
            ) ==> looked_up(*k, *final(k), svc@, *registry, demand@, found_view(r)),
        forall|k: &mut Kernel<P, A, C>| #[trigger]
            call_ensures(
                GuardedServices::cache_lookup::<P, A, C, R>,
                (svc, k, None, demand),
                r,
            ) ==> (r matches Ok(v) && v@.len() == 0) && *final(k) == *k,
{
}

/// A tool does what tools of its kind do with these arguments.
pub proof fn law_tools_are_used_as_asked<P: PolicyEngine, A: AuditSink, C: Clock, S: Storage>(
    tool: &LocalTool,
    args: &Value,
    svc: &GuardedServices,
    r: Result<String, Failure>,
)
    ensures
        forall|k: &mut Kernel<P, A, C>, s: &mut S, b: &mut Bus| #[trigger]
            call_ensures(LocalTool::call::<P, A, C, S>, (tool, args, svc, k, s, b), r) ==> used(
                *tool,
                *k,
                *final(k),
                svc@,
                *s,
                *final(s),
                (*b)@,
                (*final(b))@,
                json_of(*args),
                output_view(r),
            ),
{
}

} // verus!
