use vstd::prelude::*;

use crate::config::opt_text;
use crate::payload::Route;
use crate::signature::RemoteProcSignature;

verus! {

/// The route that an identifier names: the last one with that alias.
pub open spec fn route_for(routes: Seq<Route>, alias: Seq<char>) -> Option<int>
    decreases routes.len(),
{
    if routes.len() == 0 {
        None
    } else if routes.last().alias@ == alias {
        Some(routes.len() - 1)
    } else {
        route_for(routes.drop_last(), alias)
    }
}

/// The route found is in range and carries the alias asked for.
pub proof fn lemma_route_for_in_range(routes: Seq<Route>, alias: Seq<char>)
    ensures
        match route_for(routes, alias) {
            Some(i) => 0 <= i < routes.len() && routes[i].alias@ == alias,
            None => forall|i: int| 0 <= i < routes.len() ==> (#[trigger] routes[i]).alias@ != alias,
        },
    decreases routes.len(),
{
    if routes.len() > 0 {
        let d = routes.drop_last();
        lemma_route_for_in_range(d, alias);
        if routes.last().alias@ != alias {
            assert forall|i: int| 0 <= i < d.len() implies routes[i] == d[i] by {}
        }
    }
}

/// A request to run the procedure whose alias is `identifier`.
#[derive(Debug, Clone)]
pub struct Command {
    pub identifier: String,
    pub payload: Option<String>,
}

/// Where the dispatcher stands.
#[derive(Clone, Copy, Debug, PartialEq, Eq, Structural)]
pub enum DispatchState {
    Idle,
    Invoking,
    ShuttingDown,
    Terminated,
}

/// What the loop around the dispatcher observed.
#[derive(Debug, Clone)]
pub enum Event {
    /// A command came out of the queue.
    Received(Command),
    /// The wait on the queue timed out; `host_finished` tells whether the
    /// control plane's hosting context has ended.
    Timeout { host_finished: bool },
    /// Every sender of the queue is gone.
    Disconnected,
    /// The remote call that was asked for has returned or failed.
    CallFinished,
    /// The loop has stopped and the handles are released.
    Closed,
}

/// One remote call: which route, where, how, with what argument.
#[derive(Debug, Clone)]
pub struct Invocation {
    pub route: usize,
    pub address: u64,
    pub signature: RemoteProcSignature,
    pub argument: Option<String>,
}

/// What the loop around the dispatcher is to do next.
#[derive(Debug, Clone)]
pub enum Action {
    /// Make this remote call, then report `CallFinished`.
    Invoke(Invocation),
    /// Drop the command: it names no callable procedure.
    Discard,
    /// Wait on the queue again.
    Wait,
    /// Leave the loop.
    Stop,
}

/// The argument a call carries: none for a signal, the payload otherwise.
pub open spec fn call_argument(sig: RemoteProcSignature, payload: Option<Seq<char>>) -> Option<
    Seq<char>,
> {
    if sig == RemoteProcSignature::Signal {
        None
    } else {
        payload
    }
}

/// The sequential worker that owns the callable routes; at most one remote
/// call is in flight, and commands are taken in the order they come.
pub struct Dispatcher {
    routes: Vec<Route>,
    state: DispatchState,
}

impl Dispatcher {
    pub closed spec fn spec_routes(&self) -> Seq<Route> {
        self.routes@
    }

    pub closed spec fn spec_state(&self) -> DispatchState {
        self.state
    }

    pub fn new(routes: Vec<Route>) -> (d: Dispatcher)
        ensures
            d.spec_routes() == routes@,
            d.spec_state() == DispatchState::Idle,
    {
        Dispatcher { routes, state: DispatchState::Idle }
    }

    pub fn state(&self) -> (r: DispatchState)
        ensures
            r == self.spec_state(),
    {
        self.state
    }

    /// The route at position `i`.
    pub fn route(&self, i: usize) -> (r: Option<&Route>)
        ensures
            match r {
                Some(x) => i < self.spec_routes().len() && *x == self.spec_routes()[i as int],
                None => i >= self.spec_routes().len(),
            },
    {
        if i < self.routes.len() {
            Some(&self.routes[i])
        } else {
            None
        }
    }

    fn find_route(&self, alias: &String) -> (r: Option<usize>)
        ensures
            match r {
                Some(i) => route_for(self.routes@, alias@) == Some(i as int) && i
                    < self.routes@.len(),
                None => route_for(self.routes@, alias@) is None,
            },
    {
        let ghost rs = self.routes@;
        let mut j: usize = self.routes.len();
        assert(rs.subrange(0, j as int) =~= rs);
        while j > 0
            invariant
                j <= rs.len(),
                rs == self.routes@,
                route_for(rs, alias@) == route_for(rs.subrange(0, j as int), alias@),
            decreases j,
        {
            let ghost p = rs.subrange(0, j as int);
            assert(p.drop_last() =~= rs.subrange(0, j - 1));
            if self.routes[j - 1].alias == *alias {
                proof {
                    lemma_route_for_in_range(rs, alias@);
                }
                return Some(j - 1);
            }
            j = j - 1;
        }
        proof {
            lemma_route_for_in_range(rs, alias@);
        }
        None
    }

    /// Takes one observation and says what to do. A command in `Idle` whose
    /// identifier names no route is dropped and changes nothing; one that
    /// names a route starts a call, and no other call starts until it has
    /// finished. A timeout after the hosting context has finished, or a closed
    /// queue, starts the shutdown.
    pub fn step(&mut self, event: Event) -> (a: Action)
        ensures
            final(self).spec_routes() == old(self).spec_routes(),
            match event {
                Event::Received(cmd) => if old(self).spec_state() == DispatchState::Idle {
                    match route_for(old(self).spec_routes(), cmd.identifier@) {
                        None => a is Discard && final(self).spec_state() == DispatchState::Idle,
                        Some(i) => final(self).spec_state() == DispatchState::Invoking && match a {
                            Action::Invoke(inv) => {
                                let r = old(self).spec_routes()[i];
                                &&& inv.route == i
                                &&& inv.address == r.address
                                &&& inv.signature == r.signature
                                &&& opt_text(inv.argument) == call_argument(
                                    r.signature,
                                    opt_text(cmd.payload),
                                )
                            },
                            _ => false,
                        },
                    }
                } else {
                    a is Discard && final(self).spec_state() == old(self).spec_state()
                },
                Event::Timeout { host_finished } => if old(self).spec_state()
                    == DispatchState::Idle && host_finished {
                    a is Stop && final(self).spec_state() == DispatchState::ShuttingDown
                } else {
                    a is Wait && final(self).spec_state() == old(self).spec_state()
                },
                Event::Disconnected => if old(self).spec_state() == DispatchState::Idle {
                    a is Stop && final(self).spec_state() == DispatchState::ShuttingDown
                } else {
                    a is Wait && final(self).spec_state() == old(self).spec_state()
                },
                Event::CallFinished => a is Wait && if old(self).spec_state()
                    == DispatchState::Invoking {
                    final(self).spec_state() == DispatchState::Idle
                } else {
                    final(self).spec_state() == old(self).spec_state()
                },
                Event::Closed => a is Wait && if old(self).spec_state()
                    == DispatchState::ShuttingDown {
                    final(self).spec_state() == DispatchState::Terminated
                } else {
                    final(self).spec_state() == old(self).spec_state()
                },
            },
    {
        match event {
            Event::Received(cmd) => {
                if self.state != DispatchState::Idle {
                    return Action::Discard;
                }
                match self.find_route(&cmd.identifier) {
                    None => Action::Discard,
                    Some(i) => {
                        let r = &self.routes[i];
                        let argument = if r.signature == RemoteProcSignature::Signal {
                            None
                        } else {
                            cmd.payload
                        };
                        let inv = Invocation {
                            route: i,
                            address: r.address,
                            signature: r.signature,
                            argument,
                        };
                        self.state = DispatchState::Invoking;
                        Action::Invoke(inv)
                    },
                }
            },
            Event::Timeout { host_finished } => {
                if self.state == DispatchState::Idle && host_finished {
                    self.state = DispatchState::ShuttingDown;
                    Action::Stop
                } else {
                    Action::Wait
                }
            },
            Event::Disconnected => {
                if self.state == DispatchState::Idle {
                    self.state = DispatchState::ShuttingDown;
                    Action::Stop
                } else {
                    Action::Wait
                }
            },
            Event::CallFinished => {
                if self.state == DispatchState::Invoking {
                    self.state = DispatchState::Idle;
                }
                Action::Wait
            },
            Event::Closed => {
                if self.state == DispatchState::ShuttingDown {
                    self.state = DispatchState::Terminated;
                }
                Action::Wait
            },
        }
    }
}

} // verus!
