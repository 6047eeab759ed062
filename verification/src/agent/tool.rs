//! The built-in tools.
//!
//! A tool reaches shared storage or the bus only through the guard, as far as
//! the calling principal's grants allow. Whether a tool may run at all is
//! decided before it is called.

use vstd::prelude::*;
use serde_json::Value;
use crate::agent::wire::text_field;
use crate::json::{json_of, JsonView};
use crate::scan::{count_words, word_count};
use crate::security::audit::{AuditSink, Clock};
use crate::security::engine::PolicyEngine;
use crate::security::kernel::{GuardedServices, HandleView, Kernel};
use crate::swarm::bus::{Bus, Mail, PayloadView};
use crate::swarm::guarded::{
    done_view, send_through, shutdown_through, write_through, ServiceError, ServiceErrorView,
};
use crate::swarm::storage::Storage;
use crate::text::{around, decimal, decimal_text};
use crate::types::{Failure, ToolSpec, ToolSpecView};

verus! {

/// What a tool says when a string argument is missing.
pub open spec fn missing_arg(key: Seq<char>) -> Seq<char> {
    "missing string arg '"@ + key + "'"@
}

/// A string argument, or what is said when it is missing.
pub open spec fn arg_of(args: JsonView, key: Seq<char>) -> Result<Seq<char>, Seq<char>> {
    match args.text_field(key) {
        Some(s) => Ok(s),
        None => Err(missing_arg(key)),
    }
}

/// The view of a tool's result.
pub open spec fn output_view(r: Result<String, Failure>) -> Result<Seq<char>, Seq<char>> {
    match r {
        Ok(s) => Ok(s@),
        Err(e) => Err(e@),
    }
}

/// A string argument.
pub fn arg<'a>(args: &'a Value, key: &str) -> (r: Result<&'a str, Failure>)
    ensures
        match r {
            Ok(s) => arg_of(json_of(*args), key@) == Ok::<Seq<char>, Seq<char>>(s@),
            Err(e) => arg_of(json_of(*args), key@) == Err::<Seq<char>, Seq<char>>(e@),
        },
{
    match text_field(args, key) {
        Some(s) => Ok(s),
        None => {
            let mut s = "missing string arg '".to_owned();
            s.append(key);
            s.append("'");
            Err(Failure(s))
        },
    }
}

fn service_failure(e: ServiceError) -> (r: Failure)
    ensures
        r@ == e@.text(),
{
    Failure(e.to_text())
}

/// Counts the words of a text.
#[derive(Clone, Copy, Debug)]
pub struct WordCount;

/// What counting words says: the number of words, in decimal.
pub open spec fn word_count_output(args: JsonView) -> Result<Seq<char>, Seq<char>> {
    match arg_of(args, "text"@) {
        Ok(text) => Ok(decimal(word_count(text))),
        Err(e) => Err(e),
    }
}

impl WordCount {
    pub fn spec(&self) -> (r: ToolSpec)
        ensures
            r@ == (ToolSpecView {
                name: "word_count"@,
                description: "Count the words in {text}."@,
            }),
    {
        ToolSpec::new("word_count", "Count the words in {text}.")
    }

    pub fn call(&self, args: &Value) -> (r: Result<String, Failure>)
        ensures
            output_view(r) == word_count_output(json_of(*args)),
    {
        match arg(args, "text") {
            Ok(text) => Ok(decimal_text(count_words(text) as u64)),
            Err(e) => Err(e),
        }
    }
}

/// Writes a value into shared storage.
#[derive(Clone, Copy, Debug)]
pub struct Remember;

/// What a tool makes of a guarded effect: the output where it went through,
/// and the error in words where it did not.
pub open spec fn effect_output(done: Result<(), ServiceErrorView>, output: Seq<char>) -> Result<
    Seq<char>,
    Seq<char>,
> {
    match done {
        Ok(_) => Ok(output),
        Err(e) => Err(e.text()),
    }
}

/// Remembering a value: a guarded write, and what is said of it.
pub open spec fn remembered<P: PolicyEngine, A: AuditSink, C: Clock, S: Storage>(
    k: Kernel<P, A, C>,
    k2: Kernel<P, A, C>,
    h: HandleView,
    s: S,
    s2: S,
    key: Seq<char>,
    value: Seq<char>,
    r: Result<Seq<char>, Seq<char>>,
) -> bool {
    exists|done: Result<(), ServiceErrorView>| #[trigger]
        write_through(k, k2, h, s, s2, key, value, done) && r == effect_output(
            done,
            "stored '"@ + key + "'"@,
        )
}

/// Sending a task: a guarded message, and what is said of it.
pub open spec fn messaged<P: PolicyEngine, A: AuditSink, C: Clock>(
    k: Kernel<P, A, C>,
    k2: Kernel<P, A, C>,
    h: HandleView,
    b: Mail,
    b2: Mail,
    to: Seq<char>,
    text: Seq<char>,
    r: Result<Seq<char>, Seq<char>>,
) -> bool {
    exists|done: Result<(), ServiceErrorView>| #[trigger]
        send_through(k, k2, h, b, b2, to, PayloadView::Task(text), done) && r == effect_output(
            done,
            "sent to '"@ + to + "'"@,
        )
}

/// Winding the swarm down: a guarded shutdown, and what is said of it.
pub open spec fn wound_down<P: PolicyEngine, A: AuditSink, C: Clock>(
    k: Kernel<P, A, C>,
    k2: Kernel<P, A, C>,
    h: HandleView,
    b: Mail,
    b2: Mail,
    r: Result<Seq<char>, Seq<char>>,
) -> bool {
    exists|done: Result<(), ServiceErrorView>| #[trigger]
        shutdown_through(k, k2, h, b, b2, done) && r == effect_output(
            done,
            "shutdown broadcast"@,
        )
}

impl Remember {
    pub fn spec(&self) -> (r: ToolSpec)
        ensures
            r@ == (ToolSpecView {
                name: "remember"@,
                description: "Store {value} under {key} in shared storage."@,
            }),
    {
        ToolSpec::new("remember", "Store {value} under {key} in shared storage.")
    }

    pub fn call<P: PolicyEngine, A: AuditSink, C: Clock, S: Storage>(
        &self,
        args: &Value,
        svc: &GuardedServices,
        kernel: &mut Kernel<P, A, C>,
        storage: &mut S,
    ) -> (r: Result<String, Failure>)
        requires
            old(storage).valid(),
        ensures
            final(storage).valid(),
            match arg_of(json_of(*args), "key"@) {
                Err(e) => output_view(r) == Err::<Seq<char>, Seq<char>>(e) && *final(kernel)
                    == *old(kernel) && *final(storage) == *old(storage),
                Ok(key) => match arg_of(json_of(*args), "value"@) {
                    Err(e) => output_view(r) == Err::<Seq<char>, Seq<char>>(e) && *final(kernel)
                        == *old(kernel) && *final(storage) == *old(storage),
                    Ok(value) => remembered(
                        *old(kernel),
                        *final(kernel),
                        svc@,
                        *old(storage),
                        *final(storage),
                        key,
                        value,
                        output_view(r),
                    ),
                },
            },
    {
        let key = match arg(args, "key") {
            Ok(s) => s,
            Err(e) => {
                return Err(e);
            },
        };
        let value = match arg(args, "value") {
            Ok(s) => s,
            Err(e) => {
                return Err(e);
            },
        };
        let done = svc.storage_set(kernel, storage, key, value);
        let ghost d = done_view(done);
        assert(write_through(
            *old(kernel),
            *kernel,
            svc@,
            *old(storage),
            *storage,
            key@,
            value@,
            d,
        ));
        let r = match done {
            Ok(_) => Ok(around("stored '", key, "'")),
            Err(e) => Err(service_failure(e)),
        };
        assert(output_view(r) == effect_output(d, "stored '"@ + key@ + "'"@));
        r
    }
}

/// Sends a task to another harness.
#[derive(Clone, Copy, Debug)]
pub struct SendMessage;

impl SendMessage {
    pub fn spec(&self) -> (r: ToolSpec)
        ensures
            r@ == (ToolSpecView {
                name: "send_message"@,
                description: "Send {text} to harness {to}."@,
            }),
    {
        ToolSpec::new("send_message", "Send {text} to harness {to}.")
    }

    pub fn call<P: PolicyEngine, A: AuditSink, C: Clock>(
        &self,
        args: &Value,
        svc: &GuardedServices,
        kernel: &mut Kernel<P, A, C>,
        bus: &mut Bus,
    ) -> (r: Result<String, Failure>)
        requires
            old(bus).valid(),
        ensures
            final(bus).valid(),
            final(bus)@.dom() == old(bus)@.dom(),
            final(bus).follows(*old(bus)),
            match arg_of(json_of(*args), "to"@) {
                Err(e) => output_view(r) == Err::<Seq<char>, Seq<char>>(e) && *final(kernel)
                    == *old(kernel) && *final(bus) == *old(bus),
                Ok(to) => match arg_of(json_of(*args), "text"@) {
                    Err(e) => output_view(r) == Err::<Seq<char>, Seq<char>>(e) && *final(kernel)
                        == *old(kernel) && *final(bus) == *old(bus),
                    Ok(text) => messaged(
                        *old(kernel),
                        *final(kernel),
                        svc@,
                        old(bus)@,
                        final(bus)@,
                        to,
                        text,
                        output_view(r),
                    ),
                },
            },
    {
        let to = match arg(args, "to") {
            Ok(s) => s,
            Err(e) => {
                return Err(e);
            },
        };
        let text = match arg(args, "text") {
            Ok(s) => s,
            Err(e) => {
                return Err(e);
            },
        };
        let done = svc.send_task(kernel, bus, to, text);
        let ghost d = done_view(done);
        assert(send_through(
            *old(kernel),
            *kernel,
            svc@,
            old(bus)@,
            bus@,
            to@,
            PayloadView::Task(text@),
            d,
        ));
        let r = match done {
            Ok(_) => Ok(around("sent to '", to, "'")),
            Err(e) => Err(service_failure(e)),
        };
        assert(output_view(r) == effect_output(d, "sent to '"@ + to@ + "'"@));
        r
    }
}

/// Broadcasts a cooperative shutdown to the whole swarm.
#[derive(Clone, Copy, Debug)]
pub struct ShutdownSwarm;

impl ShutdownSwarm {
    pub fn spec(&self) -> (r: ToolSpec)
        ensures
            r@ == (ToolSpecView {
                name: "shutdown_swarm"@,
                description: "Signal every harness to stop."@,
            }),
    {
        ToolSpec::new("shutdown_swarm", "Signal every harness to stop.")
    }

    pub fn call<P: PolicyEngine, A: AuditSink, C: Clock>(
        &self,
        svc: &GuardedServices,
        kernel: &mut Kernel<P, A, C>,
        bus: &mut Bus,
    ) -> (r: Result<String, Failure>)
        requires
            old(bus).valid(),
        ensures
            final(bus).valid(),
            final(bus)@.dom() == old(bus)@.dom(),
            final(bus).follows(*old(bus)),
            wound_down(
                *old(kernel),
                *final(kernel),
                svc@,
                old(bus)@,
                final(bus)@,
                output_view(r),
            ),
    {
        let done = svc.broadcast_shutdown(kernel, bus);
        let ghost d = done_view(done);
        assert(shutdown_through(*old(kernel), *kernel, svc@, old(bus)@, bus@, d));
        let r = match done {
            Ok(_) => Ok("shutdown broadcast".to_owned()),
            Err(e) => Err(service_failure(e)),
        };
        assert(output_view(r) == effect_output(d, "shutdown broadcast"@));
        r
    }
}

/// The built-in tools, as one type.
#[derive(Clone, Copy, Debug, PartialEq, Eq, Structural)]
pub enum LocalTool {
    WordCount,
    Remember,
    SendMessage,
    ShutdownSwarm,
}

/// One use of a built-in tool, from kernel `k`, store `s` and mail `b` to kernel
/// `k2`, store `s2` and mail `b2`.
pub open spec fn used<P: PolicyEngine, A: AuditSink, C: Clock, S: Storage>(
    tool: LocalTool,
    k: Kernel<P, A, C>,
    k2: Kernel<P, A, C>,
    h: HandleView,
    s: S,
    s2: S,
    b: Mail,
    b2: Mail,
    args: JsonView,
    r: Result<Seq<char>, Seq<char>>,
) -> bool {
    match tool {
        LocalTool::WordCount => k2 == k && s2 == s && b2 == b && r == word_count_output(args),
        LocalTool::Remember => b2 == b && match arg_of(args, "key"@) {
            Err(e) => k2 == k && s2 == s && r == Err::<Seq<char>, Seq<char>>(e),
            Ok(key) => match arg_of(args, "value"@) {
                Err(e) => k2 == k && s2 == s && r == Err::<Seq<char>, Seq<char>>(e),
                Ok(value) => remembered(k, k2, h, s, s2, key, value, r),
            },
        },
        LocalTool::SendMessage => s2 == s && match arg_of(args, "to"@) {
            Err(e) => k2 == k && b2 == b && r == Err::<Seq<char>, Seq<char>>(e),
            Ok(to) => match arg_of(args, "text"@) {
                Err(e) => k2 == k && b2 == b && r == Err::<Seq<char>, Seq<char>>(e),
                Ok(text) => messaged(k, k2, h, b, b2, to, text, r),
            },
        },
        LocalTool::ShutdownSwarm => s2 == s && wound_down(k, k2, h, b, b2, r),
    }
}

impl LocalTool {
    /// How the tool is advertised.
    pub open spec fn spec_view(self) -> ToolSpecView {
        match self {
            LocalTool::WordCount => ToolSpecView {
                name: "word_count"@,
                description: "Count the words in {text}."@,
            },
            LocalTool::Remember => ToolSpecView {
                name: "remember"@,
                description: "Store {value} under {key} in shared storage."@,
            },
            LocalTool::SendMessage => ToolSpecView {
                name: "send_message"@,
                description: "Send {text} to harness {to}."@,
            },
            LocalTool::ShutdownSwarm => ToolSpecView {
                name: "shutdown_swarm"@,
                description: "Signal every harness to stop."@,
            },
        }
    }

    /// How the tool is advertised.
    pub fn spec(&self) -> (r: ToolSpec)
        ensures
            r@ == self.spec_view(),
    {
        match self {
            LocalTool::WordCount => WordCount.spec(),
            LocalTool::Remember => Remember.spec(),
            LocalTool::SendMessage => SendMessage.spec(),
            LocalTool::ShutdownSwarm => ShutdownSwarm.spec(),
        }
    }

    /// Use the tool.
    pub fn call<P: PolicyEngine, A: AuditSink, C: Clock, S: Storage>(
        &self,
        args: &Value,
        svc: &GuardedServices,
        kernel: &mut Kernel<P, A, C>,
        storage: &mut S,
        bus: &mut Bus,
    ) -> (r: Result<String, Failure>)
        requires
            old(storage).valid(),
            old(bus).valid(),
        ensures
            final(storage).valid(),
            final(bus).valid(),
            final(bus)@.dom() == old(bus)@.dom(),
            final(bus).follows(*old(bus)),
            used(
                *self,
                *old(kernel),
                *final(kernel),
                svc@,
                *old(storage),
                *final(storage),
                old(bus)@,
                final(bus)@,
                json_of(*args),
                output_view(r),
            ),
    {
        match self {
            LocalTool::WordCount => WordCount.call(args),
            LocalTool::Remember => Remember.call(args, svc, kernel, storage),
            LocalTool::SendMessage => SendMessage.call(args, svc, kernel, bus),
            LocalTool::ShutdownSwarm => ShutdownSwarm.call(svc, kernel, bus),
        }
    }
}

} // verus!
