//! The command dispatcher: an ordered, immutable-after-startup registry of
//! processors; the first processor that claims a command handles it.

use vstd::prelude::*;

use crate::command::Command;
use crate::response::{ResponseKind, SocketResponse};
use crate::session::{EmittedFrame, Session};
use crate::text::str_eq;
use crate::wire::{opt_view, spec_ser_response_model};

verus! {

/// A registered unit of logic that claims and processes commands. Processors
/// are shared and read-only while dispatching; state they reply through is
/// the session's own outbound path.
pub trait CommandProcessor: Sized {
    /// Which commands this processor claims.
    spec fn spec_matches(&self, command: Command) -> bool;

    /// The frames this processor offers to the session's outbound queue when
    /// it processes the command.
    spec fn spec_emission(&self, command: Command) -> Seq<EmittedFrame>;

    /// Whether the command can be handled by this processor.
    fn matches(&self, command: &Command) -> (r: bool)
        ensures
            r == self.spec_matches(*command),
    ;

    /// Handles the command: offers exactly `spec_emission` to the session's
    /// outbound queue and touches nothing else of the session.
    fn process(&self, session: &mut Session, command: &Command)
        ensures
            final(session).spec_id() == old(session).spec_id(),
            final(session).spec_sink() == old(session).spec_sink(),
            final(session).spec_last_active() == old(session).spec_last_active(),
            final(session).spec_emitted() == old(session).spec_emitted()
                + self.spec_emission(*command),
    ;
}

/// A processor that answers `echo` commands with their own arguments.
pub struct EchoCommandProcessor {}

impl EchoCommandProcessor {
    pub fn new() -> (r: Self) {
        EchoCommandProcessor {  }
    }

    /// An echo processor ready to register; the processor is stateless, so
    /// every instance behaves alike.
    pub fn static_new() -> (r: Self) {
        EchoCommandProcessor {  }
    }
}

impl CommandProcessor for EchoCommandProcessor {
    open spec fn spec_matches(&self, command: Command) -> bool {
        command.op@ == "echo"@
    }

    /// One reply: a success envelope echoing the request identifier, whose
    /// payload is the command's raw argument text when it carries one.
    open spec fn spec_emission(&self, command: Command) -> Seq<EmittedFrame> {
        seq![
            EmittedFrame::Text(
                spec_ser_response_model(
                    opt_view(command.request_id),
                    ResponseKind::Success,
                    opt_view(command.args),
                ),
            ),
        ]
    }

    fn matches(&self, command: &Command) -> (r: bool) {
        str_eq(command.op.as_str(), "echo")
    }

    fn process(&self, session: &mut Session, command: &Command) {
        let mut response = SocketResponse::from_command(command);
        match &command.args {
            Some(args) => {
                response = response.set_data(args.clone());
            },
            None => {},
        }
        let _ = session.send_response(response);
        proof {
            assert(final(session).spec_emitted() =~= old(session).spec_emitted()
                + self.spec_emission(*command));
        }
    }
}

/// The position, at or after `i`, of the first processor claiming the
/// command.
pub open spec fn spec_first_match_from<H: CommandProcessor>(
    procs: Seq<H>,
    command: Command,
    i: int,
) -> Option<int>
    decreases procs.len() - i,
{
    if i < 0 || i >= procs.len() {
        None
    } else if procs[i].spec_matches(command) {
        Some(i)
    } else {
        spec_first_match_from(procs, command, i + 1)
    }
}

/// What the first match is: it claims the command, and no earlier processor
/// (at or after `i`) does; if there is none, no processor claims it at all.
pub proof fn lemma_first_match_props<H: CommandProcessor>(procs: Seq<H>, command: Command, i: int)
    requires
        0 <= i <= procs.len(),
    ensures
        match spec_first_match_from(procs, command, i) {
            Some(k) => i <= k < procs.len() && procs[k].spec_matches(command) && (forall|j: int|
                i <= j < k ==> !procs[j].spec_matches(command)),
            None => forall|j: int| i <= j < procs.len() ==> !procs[j].spec_matches(command),
        },
    decreases procs.len() - i,
{
    if i < procs.len() && !procs[i].spec_matches(command) {
        lemma_first_match_props(procs, command, i + 1);
    }
}

/// Ordered registry of processors, fixed at startup.
pub struct CommandDispatcher<H: CommandProcessor> {
    processors: Vec<H>,
}

impl<H: CommandProcessor> CommandDispatcher<H> {
    pub closed spec fn spec_processors(&self) -> Seq<H> {
        self.processors@
    }

    /// The processor `dispatch` runs for this command, if any.
    pub open spec fn spec_first_match(&self, command: Command) -> Option<int> {
        spec_first_match_from(self.spec_processors(), command, 0)
    }

    /// A dispatcher over the given processors, in the given order.
    pub fn from_processors(processors: Vec<H>) -> (r: Self)
        ensures
            r.spec_processors() == processors@,
    {
        CommandDispatcher { processors }
    }

    /// Scans the processors in order and lets the first one that claims the
    /// command process it — exactly its emission is offered to the session's
    /// queue; later processors are never invoked, even if they would also
    /// match. With no match the command is silently unhandled and the
    /// session is untouched. Returns the position of the processor that ran.
    pub fn dispatch(&self, session: &mut Session, command: &Command) -> (r: Option<usize>)
        ensures
            match r {
                Some(i) => self.spec_first_match(*command) == Some(i as int),
                None => self.spec_first_match(*command) is None,
            },
            match self.spec_first_match(*command) {
                Some(k) => 0 <= k < self.spec_processors().len() && self.spec_processors()[
                    k
                ].spec_matches(*command) && (forall|j: int|
                    0 <= j < k ==> !self.spec_processors()[j].spec_matches(*command))
                    && final(session).spec_emitted() == old(session).spec_emitted()
                    + self.spec_processors()[k].spec_emission(*command),
                None => (forall|j: int|
                    0 <= j < self.spec_processors().len() ==> !self.spec_processors()[
                        j
                    ].spec_matches(*command)) && *final(session) == *old(session),
            },
            final(session).spec_id() == old(session).spec_id(),
            final(session).spec_sink() == old(session).spec_sink(),
            final(session).spec_last_active() == old(session).spec_last_active(),
    {
        let n = self.processors.len();
        let mut i: usize = 0;
        while i < n
            invariant
                i <= n,
                n == self.spec_processors().len(),
                *session == *old(session),
                spec_first_match_from(self.spec_processors(), *command, 0)
                    == spec_first_match_from(self.spec_processors(), *command, i as int),
            decreases n - i,
        {
            if self.processors[i].matches(command) {
                proof {
                    assert(spec_first_match_from(self.spec_processors(), *command, i as int)
                        == Some(i as int));
                    lemma_first_match_props(self.spec_processors(), *command, 0);
                }
                self.processors[i].process(session, command);
                return Some(i);
            }
            i += 1;
        }
        proof {
            lemma_first_match_props(self.spec_processors(), *command, 0);
        }
        None
    }
}

impl CommandDispatcher<EchoCommandProcessor> {
    /// The default registry: the echo processor alone.
    pub fn new() -> (r: Self)
        ensures
            r.spec_processors() == seq![EchoCommandProcessor {  }],
    {
        let mut processors: Vec<EchoCommandProcessor> = Vec::new();
        processors.push(EchoCommandProcessor::static_new());
        proof {
            assert(processors@ =~= seq![EchoCommandProcessor {  }]);
        }
        CommandDispatcher { processors }
    }
}

/// First-match-wins: when two processors both claim a command, the one
/// registered earlier runs; the later one never does.
pub proof fn lemma_first_match_wins<H: CommandProcessor>(
    d: CommandDispatcher<H>,
    command: Command,
    i: int,
    j: int,
)
    requires
        0 <= i < j < d.spec_processors().len(),
        d.spec_processors()[i].spec_matches(command),
        d.spec_processors()[j].spec_matches(command),
    ensures
        match d.spec_first_match(command) {
            Some(k) => k <= i && k != j,
            None => false,
        },
{
    lemma_first_match_props(d.spec_processors(), command, 0);
    match d.spec_first_match(command) {
        Some(k) => {
            if k > i {
                assert(!d.spec_processors()[i].spec_matches(command));
            }
        },
        None => {
            assert(!d.spec_processors()[i].spec_matches(command));
        },
    }
}

/// With no processor claiming the command, dispatch runs none of them.
pub proof fn lemma_zero_matches<H: CommandProcessor>(d: CommandDispatcher<H>, command: Command)
    requires
        forall|j: int|
            0 <= j < d.spec_processors().len() ==> !d.spec_processors()[j].spec_matches(command),
    ensures
        d.spec_first_match(command) is None,
{
    lemma_first_match_props(d.spec_processors(), command, 0);
    match d.spec_first_match(command) {
        Some(k) => {
            assert(!d.spec_processors()[k].spec_matches(command));
        },
        None => {},
    }
}

} // verus!
