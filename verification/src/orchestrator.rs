use vstd::prelude::*;
use crate::control::{ControlLoop, RunTraceV, run_model, run_result_matches};
use crate::data::{Agent, AgentContext, AgentContextV, AgentError, StepOutcome};
use crate::json::{JsonValue, JsonV};
use crate::memory::{MemoryHandle, clone_handle};

verus! {

/// The point-to-point message capability: send appends to a recipient's
/// mailbox, recv pops that recipient's oldest undelivered message.
pub trait MessageBus {
    fn send(&mut self, recipient: &str, message: JsonValue) -> Result<(), AgentError>;

    fn recv(&mut self, recipient: &str) -> Result<Option<JsonValue>, AgentError>;
}

/// The position of the oldest message addressed to `rcpt`.
pub open spec fn first_for(s: Seq<(Seq<char>, JsonV)>, rcpt: Seq<char>) -> Option<int>
    decreases s.len(),
{
    if s.len() == 0 {
        None
    } else if s[0].0 == rcpt {
        Some(0)
    } else {
        match first_for(s.drop_first(), rcpt) {
            Some(i) => Some(i + 1),
            None => None,
        }
    }
}

/// A mailbox list held in memory: messages stay in arrival order and
/// each is delivered at most once.
pub struct InMemoryBus {
    messages: Vec<(String, JsonValue)>,
}

pub open spec fn bus_view(s: Seq<(String, JsonValue)>) -> Seq<(Seq<char>, JsonV)> {
    Seq::new(s.len(), |i: int| (s[i].0@, s[i].1@))
}

impl View for InMemoryBus {
    type V = Seq<(Seq<char>, JsonV)>;

    closed spec fn view(&self) -> Seq<(Seq<char>, JsonV)> {
        bus_view(self.messages@)
    }
}

impl InMemoryBus {
    pub fn new() -> (r: Self)
        ensures
            r@.len() == 0,
    {
        let r = InMemoryBus { messages: Vec::new() };
        proof {
            assert(r@ =~= Seq::<(Seq<char>, JsonV)>::empty());
        }
        r
    }

    /// Appends a message to the recipient's mailbox.
    pub fn push_message(&mut self, recipient: &str, message: JsonValue)
        ensures
            final(self)@ == old(self)@.push((recipient@, message@)),
    {
        self.messages.push((recipient.to_owned(), message));
        proof {
            assert(final(self)@ =~~= old(self)@.push((recipient@, message@)));
        }
    }

    /// Pops the oldest undelivered message for the recipient, if any.
    pub fn pop_message(&mut self, recipient: &str) -> (r: Option<JsonValue>)
        ensures
            match first_for(old(self)@, recipient@) {
                Some(i) => {
                    &&& r matches Some(m) && m@ == old(self)@[i].1
                    &&& final(self)@ == old(self)@.remove(i)
                },
                None => r is None && final(self)@ == old(self)@,
            },
    {
        let mut i: usize = 0;
        let ghost g0 = self@;
        proof {
            assert(g0.skip(0) == g0);
        }
        loop
            invariant
                *self == *old(self),
                g0 == self@,
                i <= self@.len(),
                forall|j: int| 0 <= j < i as int ==> g0[j].0 != recipient@,
                first_for(g0, recipient@) == match first_for(g0.skip(i as int), recipient@) {
                    Some(k) => Some(k + i),
                    None => None::<int>,
                },
            decreases self@.len() - i,
        {
            if i == self.messages.len() {
                proof {
                    assert(g0.skip(i as int).len() == 0);
                }
                return None;
            }
            proof {
                assert(g0.skip(i as int)[0] == g0[i as int]);
                assert(g0[i as int] == (self.messages@[i as int].0@, self.messages@[i as int].1@));
            }
            if crate::text::str_eq(self.messages[i].0.as_str(), recipient) {
                let pair = self.messages.remove(i);
                proof {
                    assert(final(self)@ =~~= g0.remove(i as int));
                }
                return Some(pair.1);
            }
            proof {
                assert(g0.skip(i as int).drop_first() =~= g0.skip(i as int + 1));
            }
            i = i + 1;
        }
    }
}

impl MessageBus for InMemoryBus {
    fn send(&mut self, recipient: &str, message: JsonValue) -> Result<(), AgentError> {
        self.push_message(recipient, message);
        Ok(())
    }

    fn recv(&mut self, recipient: &str) -> Result<Option<JsonValue>, AgentError> {
        Ok(self.pop_message(recipient))
    }
}

/// Law: on a bus with nothing pending for a recipient, sending one
/// message to that recipient makes the next receive deliver exactly that
/// payload, and the receive after it deliver nothing.
pub proof fn lemma_bus_round_trip(s: Seq<(Seq<char>, JsonV)>, rcpt: Seq<char>, m: JsonV)
    requires
        forall|i: int| 0 <= i < s.len() ==> (#[trigger] s[i]).0 != rcpt,
    ensures
        first_for(s.push((rcpt, m)), rcpt) == Some(s.len() as int),
        s.push((rcpt, m))[s.len() as int].1 == m,
        s.push((rcpt, m)).remove(s.len() as int) == s,
        first_for(s, rcpt) is None,
    decreases s.len(),
{
    assert(s.push((rcpt, m)).remove(s.len() as int) =~= s);
    if s.len() == 0 {
    } else {
        assert forall|i: int| 0 <= i < s.drop_first().len() implies (#[trigger] s.drop_first()[
            i
        ]).0 != rcpt by {
            assert(s.drop_first()[i] == s[i + 1]);
        }
        lemma_bus_round_trip(s.drop_first(), rcpt, m);
        assert(s.push((rcpt, m)).drop_first() =~= s.drop_first().push((rcpt, m)));
    }
}

/// Whether agents in a multi-agent run share one memory handle or each
/// keeps its own.
pub enum MemoryTopology {
    Shared(MemoryHandle),
    Isolated,
}

/// The position of the context registered under `name`.
pub open spec fn ctx_for(s: Seq<(Seq<char>, AgentContextV)>, name: Seq<char>) -> Option<int>
    decreases s.len(),
{
    if s.len() == 0 {
        None
    } else if s[0].0 == name {
        Some(0)
    } else {
        match ctx_for(s.drop_first(), name) {
            Some(i) => Some(i + 1),
            None => None,
        }
    }
}

/// Runs named agents over a message bus and a memory topology: shared
/// topology injects one memory handle into every context it prepares;
/// registered contexts persist between calls, keyed by agent name.
pub struct MultiAgentOrchestrator<B: MessageBus> {
    bus: B,
    memory_topology: MemoryTopology,
    agents: Vec<(String, AgentContext)>,
}

pub open spec fn agents_view(s: Seq<(String, AgentContext)>) -> Seq<(Seq<char>, AgentContextV)> {
    Seq::new(s.len(), |i: int| (s[i].0@, s[i].1@))
}

impl<B: MessageBus> View for MultiAgentOrchestrator<B> {
    type V = Seq<(Seq<char>, AgentContextV)>;

    closed spec fn view(&self) -> Seq<(Seq<char>, AgentContextV)> {
        agents_view(self.agents@)
    }
}

impl<B: MessageBus> MultiAgentOrchestrator<B> {
    /// The topology's shared handle, if the topology is shared.
    pub closed spec fn shared_handle(&self) -> Option<MemoryHandle> {
        match self.memory_topology {
            MemoryTopology::Shared(h) => Some(h),
            MemoryTopology::Isolated => None,
        }
    }

    pub fn new(bus: B, memory_topology: MemoryTopology) -> (r: Self)
        ensures
            r@.len() == 0,
            r.shared_handle() == match memory_topology {
                MemoryTopology::Shared(h) => Some(h),
                MemoryTopology::Isolated => None::<MemoryHandle>,
            },
    {
        let r = MultiAgentOrchestrator { bus, memory_topology, agents: Vec::new() };
        proof {
            assert(r@ =~= Seq::<(Seq<char>, AgentContextV)>::empty());
        }
        r
    }

    /// Registers (or replaces) the context stored under a name.
    pub fn register_agent(&mut self, name: String, ctx: AgentContext)
        ensures
            final(self).shared_handle() == old(self).shared_handle(),
            ({
                match ctx_for(old(self)@, name@) {
                    Some(i) => final(self)@ == old(self)@.update(i, (name@, ctx@)),
                    None => final(self)@ == old(self)@.push((name@, ctx@)),
                }
            }),
    {
        let ghost g0 = self@;
        let mut i: usize = 0;
        proof {
            assert(g0.skip(0) == g0);
        }
        loop
            invariant
                *self == *old(self),
                g0 == self@,
                i <= self@.len(),
                ctx_for(g0, name@) == match ctx_for(g0.skip(i as int), name@) {
                    Some(k) => Some(k + i),
                    None => None::<int>,
                },
            decreases self@.len() - i,
        {
            if i == self.agents.len() {
                proof {
                    assert(g0.skip(i as int).len() == 0);
                }
                self.agents.push((name, ctx));
                proof {
                    assert(final(self)@ =~~= g0.push((name@, ctx@)));
                }
                return;
            }
            proof {
                assert(g0.skip(i as int)[0] == g0[i as int]);
                assert(g0[i as int] == (self.agents@[i as int].0@, self.agents@[i as int].1@));
            }
            if crate::text::str_eq(self.agents[i].0.as_str(), name.as_str()) {
                let _old_pair = self.agents.remove(i);
                self.agents.insert(i, (name, ctx));
                proof {
                    assert(final(self)@ =~~= g0.update(i as int, (name@, ctx@)));
                }
                return;
            }
            proof {
                assert(g0.skip(i as int).drop_first() =~= g0.skip(i as int + 1));
            }
            i = i + 1;
        }
    }

    /// Applies the memory topology to one context: a shared topology
    /// injects the shared handle, an isolated one leaves the context's
    /// own memory in place.
    pub fn prepare_context(&self, ctx: &mut AgentContext)
        ensures
            final(ctx)@ == (AgentContextV {
                memory: match self.shared_handle() {
                    Some(h) => Some(h),
                    None => old(ctx)@.memory,
                },
                ..old(ctx)@
            }),
    {
        match &self.memory_topology {
            MemoryTopology::Shared(store) => {
                ctx.memory = Some(clone_handle(store));
                proof {
                    assert(final(ctx)@ =~= (AgentContextV {
                        memory: Some(self.shared_handle()->Some_0),
                        ..old(ctx)@
                    }));
                }
            },
            MemoryTopology::Isolated => {
                proof {
                    assert(final(ctx)@ =~= (AgentContextV { memory: old(ctx)@.memory, ..old(ctx)@ }));
                }
            },
        }
    }

    /// Runs an agent under its stored context, or a fresh default one,
    /// after applying the topology; the stored context itself persists
    /// unchanged. The run's result is exactly what the control-loop
    /// model yields on the returned trace.
    pub fn call_agent<A: Agent>(&self, name: &str, agent: &A, control: &ControlLoop) -> (r: (
        Result<Vec<StepOutcome>, AgentError>,
        Ghost<RunTraceV>,
    ))
        ensures
            ({
                let m = run_model(control.mode, control.max_iterations as nat, r.1@);
                &&& run_result_matches(r.0, m)
                &&& m.thinks_used == r.1@.thinks.len()
                &&& m.steps_used == r.1@.steps.len()
                &&& m.observes_used == r.1@.observes.len()
                &&& m.reflects_used == r.1@.reflects.len()
            }),
    {
        let mut ctx = self.lookup_context(name);
        self.prepare_context(&mut ctx);
        control.run(agent, &mut ctx)
    }

    /// A copy of the context stored under `name`, or a fresh default.
    pub fn lookup_context(&self, name: &str) -> (r: AgentContext)
        ensures
            match ctx_for(self@, name@) {
                Some(i) => r@ == self@[i].1,
                None => r@ == AgentContext::default_view(),
            },
    {
        let mut i: usize = 0;
        let ghost g0 = self@;
        proof {
            assert(g0.skip(0) == g0);
        }
        loop
            invariant
                g0 == self@,
                i <= self@.len(),
                ctx_for(g0, name@) == match ctx_for(g0.skip(i as int), name@) {
                    Some(k) => Some(k + i),
                    None => None::<int>,
                },
            decreases self@.len() - i,
        {
            if i == self.agents.len() {
                proof {
                    assert(g0.skip(i as int).len() == 0);
                }
                return AgentContext::default();
            }
            proof {
                assert(g0.skip(i as int)[0] == g0[i as int]);
                assert(g0[i as int] == (self.agents@[i as int].0@, self.agents@[i as int].1@));
            }
            if crate::text::str_eq(self.agents[i].0.as_str(), name) {
                return self.agents[i].1.duplicate();
            }
            proof {
                assert(g0.skip(i as int).drop_first() =~= g0.skip(i as int + 1));
            }
            i = i + 1;
        }
    }

    /// Hands a message to the bus for a named recipient.
    pub fn send_message(&mut self, recipient: &str, message: JsonValue) -> Result<
        (),
        AgentError,
    > {
        self.bus.send(recipient, message)
    }

    /// Asks the bus for the oldest undelivered message for a recipient.
    pub fn recv_message(&mut self, recipient: &str) -> Result<Option<JsonValue>, AgentError> {
        self.bus.recv(recipient)
    }
}

} // verus!
