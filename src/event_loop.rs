//! The reactor's own state: the table of registrations by token, the run
//! state, and the dispatch of readiness events. Polling the OS and calling the
//! handler happen at the caller's edge, which asks this state what to do.
use vstd::prelude::*;

verus! {

/// An opaque, application-chosen identifier of a registration.
pub type Token = usize;

/// Which readiness events a registration watches for.
#[derive(Clone, Copy, Debug, PartialEq, Eq, Structural)]
pub struct Interest {
    pub readable: bool,
    pub writable: bool,
}

impl Interest {
    pub fn both() -> (r: Interest)
        ensures
            r.readable && r.writable,
    {
        Interest { readable: true, writable: true }
    }

    pub fn readable() -> (r: Interest)
        ensures
            r.readable && !r.writable,
    {
        Interest { readable: true, writable: false }
    }

    pub fn writable() -> (r: Interest)
        ensures
            !r.readable && r.writable,
    {
        Interest { readable: false, writable: true }
    }
}

/// A descriptor watched under a token.
#[derive(Clone, Copy, Debug, PartialEq, Eq, Structural)]
pub struct Registration {
    pub token: Token,
    pub fd: i32,
    pub interest: Interest,
}

/// Why a registration was refused.
#[derive(Clone, Copy, Debug, PartialEq, Eq, Structural)]
pub enum RegisterError {
    TokenInUse,
}

/// Where the reactor stands.
#[derive(Clone, Copy, Debug, PartialEq, Eq, Structural)]
pub enum RunState {
    Idle,
    Running,
    Stopped,
}

/// A handler callback to make for a readiness event.
#[derive(Clone, Copy, Debug, PartialEq, Eq, Structural)]
pub enum Dispatch {
    Readable(Token),
    Writable(Token),
}

/// The run state and whether a stop was asked for during the current pass.
#[derive(Clone, Copy, Debug, PartialEq, Eq, Structural)]
pub struct RunControl {
    pub state: RunState,
    pub shutdown_requested: bool,
}

impl RunControl {
    /// The control after a stop is asked for.
    pub open spec fn shutdown_spec(self) -> RunControl {
        RunControl { shutdown_requested: true, ..self }
    }

    /// The control after a dispatch pass ends, and whether the loop goes on.
    pub open spec fn end_pass_spec(self) -> (RunControl, bool) {
        if self.shutdown_requested {
            (RunControl { state: RunState::Stopped, shutdown_requested: false }, false)
        } else {
            (self, true)
        }
    }

    pub fn new() -> (r: RunControl)
        ensures
            r.state == RunState::Idle,
            !r.shutdown_requested,
    {
        RunControl { state: RunState::Idle, shutdown_requested: false }
    }

    /// Enters the loop.
    pub fn start(&mut self)
        requires
            old(self).state == RunState::Idle,
        ensures
            final(self).state == RunState::Running,
            !final(self).shutdown_requested,
    {
        self.state = RunState::Running;
        self.shutdown_requested = false;
    }

    /// Asks the loop to stop once the current pass of dispatches is done.
    pub fn shutdown(&mut self)
        requires
            old(self).state == RunState::Running,
        ensures
            *final(self) == old(self).shutdown_spec(),
    {
        self.shutdown_requested = true;
    }

    /// Ends a pass of dispatches: `false`, and the loop stopped, when a stop
    /// was asked for during it; `true` otherwise.
    pub fn end_pass(&mut self) -> (go_on: bool)
        ensures
            (*final(self), go_on) == old(self).end_pass_spec(),
    {
        if self.shutdown_requested {
            self.state = RunState::Stopped;
            self.shutdown_requested = false;
            false
        } else {
            true
        }
    }
}

/// Asking for a stop several times within one pass has the effect of asking
/// once: the control is the same, and so is the end of the pass.
pub proof fn lemma_shutdown_idempotent(c: RunControl)
    ensures
        c.shutdown_spec().shutdown_spec() == c.shutdown_spec(),
        c.shutdown_spec().shutdown_spec().end_pass_spec() == c.shutdown_spec().end_pass_spec(),
        c.shutdown_spec().end_pass_spec() == (RunControl { state: RunState::Stopped, shutdown_requested: false }, false),
{
}

/// Whether `token` is registered in `regs`.
pub open spec fn has_token(regs: Seq<Registration>, token: Token) -> bool {
    exists|i: int| 0 <= i < regs.len() && (#[trigger] regs[i]).token == token
}

/// Whether no two registrations share a token.
pub open spec fn tokens_distinct(regs: Seq<Registration>) -> bool {
    forall|i: int, j: int|
        0 <= i < regs.len() && 0 <= j < regs.len() && i != j ==> (#[trigger] regs[i]).token != (#[trigger] regs[j]).token
}

/// The registration under `token`, if any.
pub open spec fn lookup(regs: Seq<Registration>, token: Token) -> Option<Registration> {
    if has_token(regs, token) {
        Some(regs[choose|i: int| 0 <= i < regs.len() && (#[trigger] regs[i]).token == token])
    } else {
        None
    }
}

/// The reactor: its registrations and its run control.
pub struct Reactor {
    pub regs: Vec<Registration>,
    pub control: RunControl,
}

impl Reactor {
    pub open spec fn wf(&self) -> bool {
        tokens_distinct(self.regs@)
    }

    /// A reactor with no registrations, not yet running.
    pub fn new() -> (r: Reactor)
        ensures
            r.wf(),
            r.regs@.len() == 0,
            r.control.state == RunState::Idle,
            !r.control.shutdown_requested,
    {
        Reactor { regs: Vec::new(), control: RunControl::new() }
    }

    /// The position of the registration under `token`, if any.
    fn find(&self, token: Token) -> (r: Option<usize>)
        requires
            self.wf(),
        ensures
            r matches Some(i) ==> i < self.regs@.len() && self.regs@[i as int].token == token,
            r is None ==> !has_token(self.regs@, token),
    {
        let mut i: usize = 0;
        while i < self.regs.len()
            invariant
                0 <= i <= self.regs@.len(),
                forall|k: int| 0 <= k < i ==> (#[trigger] self.regs@[k]).token != token,
            decreases self.regs@.len() - i,
        {
            if self.regs[i].token == token {
                return Some(i);
            }
            i = i + 1;
        }
        None
    }

    pub fn is_registered(&self, token: Token) -> (r: bool)
        requires
            self.wf(),
        ensures
            r == has_token(self.regs@, token),
    {
        self.find(token).is_some()
    }

    /// The interest of the registration under `token`, if any.
    pub fn interest(&self, token: Token) -> (r: Option<Interest>)
        requires
            self.wf(),
        ensures
            r == (match lookup(self.regs@, token) {
                Some(reg) => Some(reg.interest),
                None => None::<Interest>,
            }),
    {
        match self.find(token) {
            Some(i) => {
                proof {
                    let k = choose|k: int| 0 <= k < self.regs@.len() && (#[trigger] self.regs@[k]).token == token;
                    assert(self.regs@[i as int].token == token);
                    assert(k == i);
                }
                Some(self.regs[i].interest)
            },
            None => None,
        }
    }

    /// Watches `fd` under `token` for the events in `interest`; refused when
    /// the token is already registered, leaving the table as it was.
    pub fn register(&mut self, fd: i32, token: Token, interest: Interest) -> (r: Result<(), RegisterError>)
        requires
            old(self).wf(),
        ensures
            final(self).wf(),
            final(self).control == old(self).control,
            has_token(old(self).regs@, token) ==> r == Err::<(), RegisterError>(RegisterError::TokenInUse)
                && final(self).regs@ == old(self).regs@,
            !has_token(old(self).regs@, token) ==> r is Ok
                && final(self).regs@ == old(self).regs@.push(Registration { token, fd, interest }),
    {
        if self.find(token).is_some() {
            return Err(RegisterError::TokenInUse);
        }
        self.regs.push(Registration { token, fd, interest });
        proof {
            assert forall|i: int, j: int|
                0 <= i < self.regs@.len() && 0 <= j < self.regs@.len() && i != j
                implies (#[trigger] self.regs@[i]).token != (#[trigger] self.regs@[j]).token by {
                if i < old(self).regs@.len() && j < old(self).regs@.len() {
                    assert(old(self).regs@[i] == self.regs@[i]);
                    assert(old(self).regs@[j] == self.regs@[j]);
                } else if i < old(self).regs@.len() {
                    assert(old(self).regs@[i] == self.regs@[i]);
                } else {
                    assert(old(self).regs@[j] == self.regs@[j]);
                }
            }
        }
        Ok(())
    }

    /// Registers a listening descriptor: an incoming connection shows as
    /// readable.
    pub fn listen(&mut self, fd: i32, token: Token) -> (r: Result<(), RegisterError>)
        requires
            old(self).wf(),
        ensures
            final(self).wf(),
            final(self).control == old(self).control,
            has_token(old(self).regs@, token) ==> r == Err::<(), RegisterError>(RegisterError::TokenInUse)
                && final(self).regs@ == old(self).regs@,
            !has_token(old(self).regs@, token) ==> r is Ok
                && final(self).regs@ == old(self).regs@.push(Registration { token, fd, interest: Interest { readable: true, writable: false } }),
    {
        self.register(fd, token, Interest::readable())
    }

    /// Registers a connecting descriptor for both kinds of event: a completed
    /// connect shows as writable, also one that completed at once, and what
    /// the peer sends later as readable.
    pub fn connect(&mut self, fd: i32, token: Token) -> (r: Result<(), RegisterError>)
        requires
            old(self).wf(),
        ensures
            final(self).wf(),
            final(self).control == old(self).control,
            has_token(old(self).regs@, token) ==> r == Err::<(), RegisterError>(RegisterError::TokenInUse)
                && final(self).regs@ == old(self).regs@,
            !has_token(old(self).regs@, token) ==> r is Ok
                && final(self).regs@ == old(self).regs@.push(Registration { token, fd, interest: Interest { readable: true, writable: true } }),
    {
        self.register(fd, token, Interest::both())
    }

    /// Stops watching the descriptor under `token`; returns it, or `None` when
    /// the token was not registered.
    pub fn deregister(&mut self, token: Token) -> (r: Option<i32>)
        requires
            old(self).wf(),
        ensures
            final(self).wf(),
            final(self).control == old(self).control,
            !has_token(final(self).regs@, token),
            forall|t: Token| t != token ==> lookup(final(self).regs@, t) == lookup(old(self).regs@, t),
            r == (match lookup(old(self).regs@, token) {
                Some(reg) => Some(reg.fd),
                None => None::<i32>,
            }),
    {
        match self.find(token) {
            None => None,
            Some(i) => {
                let ghost before = self.regs@;
                proof {
                    let k = choose|k: int| 0 <= k < before.len() && (#[trigger] before[k]).token == token;
                    assert(before[i as int].token == token);
                    assert(k == i);
                }
                let reg = self.regs.remove(i);
                let ghost after = self.regs@;
                assert(after =~= before.remove(i as int));
                assert forall|a: int, b: int|
                    0 <= a < after.len() && 0 <= b < after.len() && a != b
                    implies (#[trigger] after[a]).token != (#[trigger] after[b]).token by {
                    let a0 = if a < i { a } else { a + 1 };
                    let b0 = if b < i { b } else { b + 1 };
                    assert(after[a] == before[a0]);
                    assert(after[b] == before[b0]);
                }
                assert(!has_token(after, token)) by {
                    if has_token(after, token) {
                        let a = choose|a: int| 0 <= a < after.len() && (#[trigger] after[a]).token == token;
                        let a0 = if a < i { a } else { a + 1 };
                        assert(after[a] == before[a0]);
                    }
                }
                assert forall|t: Token| t != token implies lookup(after, t) == lookup(before, t) by {
                    if has_token(before, t) {
                        let b = choose|b: int| 0 <= b < before.len() && (#[trigger] before[b]).token == t;
                        assert(b != i);
                        let a = if b < i { b } else { b - 1 };
                        assert(after[a] == before[b]);
                        assert(has_token(after, t));
                        let a2 = choose|a2: int| 0 <= a2 < after.len() && (#[trigger] after[a2]).token == t;
                        assert(a2 == a);
                    }
                    if has_token(after, t) {
                        let a = choose|a: int| 0 <= a < after.len() && (#[trigger] after[a]).token == t;
                        let a0 = if a < i { a } else { a + 1 };
                        assert(after[a] == before[a0]);
                        assert(has_token(before, t));
                    }
                }
                Some(reg.fd)
            },
        }
    }

    /// The handler callbacks for one readiness event on `token`: readable
    /// first, then writable, each where the event carries it and the
    /// registration watches for it; none for a token that is not registered.
    pub fn dispatch(&self, token: Token, readable: bool, writable: bool) -> (r: Vec<Dispatch>)
        requires
            self.wf(),
        ensures
            r@ == (match lookup(self.regs@, token) {
                None => Seq::<Dispatch>::empty(),
                Some(reg) =>
                    (if readable && reg.interest.readable { seq![Dispatch::Readable(token)] } else { Seq::empty() })
                    + (if writable && reg.interest.writable { seq![Dispatch::Writable(token)] } else { Seq::empty() }),
            }),
    {
        let mut out: Vec<Dispatch> = Vec::new();
        match self.interest(token) {
            None => {},
            Some(interest) => {
                if readable && interest.readable {
                    out.push(Dispatch::Readable(token));
                }
                if writable && interest.writable {
                    out.push(Dispatch::Writable(token));
                }
            },
        }
        assert(out@ =~= (match lookup(self.regs@, token) {
            None => Seq::<Dispatch>::empty(),
            Some(reg) =>
                (if readable && reg.interest.readable { seq![Dispatch::Readable(token)] } else { Seq::empty() })
                + (if writable && reg.interest.writable { seq![Dispatch::Writable(token)] } else { Seq::empty() }),
        }));
        out
    }
}

} // verus!
