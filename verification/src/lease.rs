//! Things that are given back once.
use vstd::prelude::*;

verus! {

/// What keeps a frame alive until it is released.
pub struct Keepalive<R> {
    pub resources: Option<R>,
}

impl<R> Keepalive<R> {
    pub fn new(resources: R) -> (r: Keepalive<R>)
        ensures
            r.resources == Some(resources),
    {
        Keepalive { resources: Some(resources) }
    }

    /// What releasing hands out, and what is left.
    pub open spec fn spec_release(self) -> (Option<R>, Keepalive<R>) {
        (self.resources, Keepalive { resources: None })
    }

    /// Hands the resources out to be freed, the first time it is called.
    pub fn release(&mut self) -> (r: Option<R>)
        ensures
            (r, *final(self)) == old(self).spec_release(),
            r == old(self).resources,
            final(self).resources is None,
    {
        self.resources.take()
    }
}

/// A message that is sent at most once, with the heap that it lives on.
pub struct FrozenTerm<E, S> {
    /// Taken on the first send.
    pub env: Option<E>,
    /// Taken on the first send.
    pub saved: Option<S>,
}

impl<E, S> FrozenTerm<E, S> {
    pub fn new(env: E, saved: S) -> (r: FrozenTerm<E, S>)
        ensures
            r.env == Some(env),
            r.saved == Some(saved),
    {
        FrozenTerm { env: Some(env), saved: Some(saved) }
    }

    /// Whether the message was sent.
    pub fn is_used(&self) -> (r: bool)
        ensures
            r == (self.saved is None),
    {
        self.saved.is_none()
    }

    /// Reads the message before it is sent.
    pub fn load(&self) -> (r: &S)
        requires
            self.saved is Some,
        ensures
            self.saved == Some(*r),
    {
        match &self.saved {
            Some(saved) => saved,
            None => vstd::pervasive::unreached(),
        }
    }

    /// What sending hands out, and what is left.
    pub open spec fn spec_send(self) -> (Option<(E, S)>, FrozenTerm<E, S>) {
        (
            match (self.env, self.saved) {
                (Some(env), Some(saved)) => Some((env, saved)),
                _ => None,
            },
            FrozenTerm { env: None, saved: None },
        )
    }

    /// Hands the message out to be sent, the first time it is called.
    pub fn send_once_with(&mut self) -> (r: Option<(E, S)>)
        ensures
            (r, *final(self)) == old(self).spec_send(),
            r == (match (old(self).env, old(self).saved) {
                (Some(env), Some(saved)) => Some((env, saved)),
                _ => None,
            }),
            final(self).env is None,
            final(self).saved is None,
    {
        match (self.env.take(), self.saved.take()) {
            (Some(env), Some(saved)) => Some((env, saved)),
            _ => None,
        }
    }
}

/// Whether release dispatchers may still be started. Once they may not, they never may again.
#[derive(Clone, Copy, PartialEq, Eq, Structural, Debug)]
pub struct Admission {
    pub quarantined: bool,
}

impl Admission {
    pub fn new() -> (r: Admission)
        ensures
            !r.quarantined,
    {
        Admission { quarantined: false }
    }

    /// Lets another dispatcher start.
    pub fn check(&self) -> (r: Result<(), &'static str>)
        ensures
            match r {
                Ok(()) => !self.quarantined,
                Err(text) => self.quarantined && text@
                    == "release dispatcher admission is disabled until cold VM restart"@,
            },
    {
        if self.quarantined {
            Err("release dispatcher admission is disabled until cold VM restart")
        } else {
            Ok(())
        }
    }

    /// What stopping says, and what follows.
    pub open spec fn spec_quarantine(self) -> (bool, Admission) {
        (!self.quarantined, Admission { quarantined: true })
    }

    /// Stops admitting dispatchers. Says whether they were admitted until now.
    pub fn quarantine(&mut self) -> (r: bool)
        ensures
            (r, *final(self)) == old(self).spec_quarantine(),
            r == !old(self).quarantined,
            final(self).quarantined,
    {
        let first = !self.quarantined;
        self.quarantined = true;
        first
    }
}

/// Resources are handed out once, whatever is called how often: the first release gives what was
/// put in, and every later one nothing.
pub proof fn resources_are_handed_out_once<R>(keepalive: Keepalive<R>, resources: R)
    requires
        keepalive.resources == Some(resources),
    ensures
        keepalive.spec_release().0 == Some(resources),
        keepalive.spec_release().1.spec_release().0 is None,
        keepalive.spec_release().1.spec_release().1 == keepalive.spec_release().1,
{
}

/// A message is sent once, with the heap that it lives on: the first time gives what was put in,
/// and every later one nothing.
pub proof fn messages_are_sent_once<E, S>(message: FrozenTerm<E, S>, env: E, saved: S)
    requires
        message.env == Some(env),
        message.saved == Some(saved),
    ensures
        message.spec_send().0 == Some((env, saved)),
        message.spec_send().1.saved is None,
        message.spec_send().1.spec_send().0 is None,
        message.spec_send().1.spec_send().1 == message.spec_send().1,
{
}

/// Dispatchers are kept out for good from the first time on that someone asks for it, and only the
/// first is told so.
pub proof fn quarantine_is_for_good(admission: Admission)
    ensures
        admission.spec_quarantine().0 <==> !admission.quarantined,
        admission.spec_quarantine().1.quarantined,
        !admission.spec_quarantine().1.spec_quarantine().0,
        admission.spec_quarantine().1.spec_quarantine().1.quarantined,
{
}

} // verus!
