//! The raw-attach endpoint of a pane: which attach generation, if any, is
//! live, and whether the endpoint was shut down for good. The endpoint holds
//! the live generation's output handle `O`; closing handles and moving
//! bytes is left to the caller.

use vstd::prelude::*;

verus! {

/// A pane's raw-attach endpoint.
pub struct AttachState<O> {
    closed: bool,
    active: Option<(u64, O)>,
}

/// The state of an [`AttachState`]: shut down or not, and the live
/// generation with its output handle.
pub struct AttachModel<O> {
    pub closed: bool,
    pub active: Option<(u64, O)>,
}

impl<O> View for AttachState<O> {
    type V = AttachModel<O>;

    closed spec fn view(&self) -> AttachModel<O> {
        AttachModel { closed: self.closed, active: self.active }
    }
}

/// Whether generation `generation` is the live one of an open endpoint.
pub open spec fn is_live<O>(m: AttachModel<O>, generation: u64) -> bool {
    !m.closed && match m.active {
        Some((g, _)) => g == generation,
        None => false,
    }
}

impl<O> AttachState<O> {
    /// An open endpoint with no generation attached.
    pub fn new() -> (s: AttachState<O>)
        ensures
            !s@.closed,
            s@.active is None,
    {
        AttachState { closed: false, active: None }
    }

    /// Install `generation` with its output. A shut-down endpoint refuses
    /// and hands the output back; otherwise the new generation replaces the
    /// live one, whose output is returned for the caller to close.
    pub fn register(&mut self, generation: u64, output: O) -> (r: Result<Option<O>, O>)
        ensures
            old(self)@.closed ==> r == Err::<Option<O>, O>(output) && final(self)@ == old(self)@,
            !old(self)@.closed ==> r == Ok::<Option<O>, O>(
                match old(self)@.active {
                    Some((_, o)) => Some(o),
                    None => None,
                },
            ) && !final(self)@.closed && final(self)@.active == Some((generation, output)),
    {
        if self.closed {
            return Err(output);
        }
        let replaced = self.active.take();
        self.active = Some((generation, output));
        match replaced {
            Some((_, o)) => Ok(Some(o)),
            None => Ok(None),
        }
    }

    /// Whether input or output may still flow for `generation`: only while
    /// the endpoint is open and `generation` is the live one.
    pub fn admits(&self, generation: u64) -> (r: bool)
        ensures
            r == is_live(self@, generation),
    {
        if self.closed {
            return false;
        }
        match &self.active {
            Some((g, _)) => *g == generation,
            None => false,
        }
    }

    /// The live generation and its output, if any.
    pub fn sink(&self) -> (r: Option<(u64, &O)>)
        ensures
            match self@.active {
                Some((g, o)) => r == Some((g, &o)),
                None => r is None,
            },
    {
        match &self.active {
            Some((g, o)) => Some((*g, o)),
            None => None,
        }
    }

    /// Detach `generation` if it is the live one, returning its output for
    /// the caller to close; any other generation changes nothing.
    pub fn detach(&mut self, generation: u64) -> (r: Option<O>)
        ensures
            final(self)@.closed == old(self)@.closed,
            match old(self)@.active {
                Some((g, o)) => if g == generation {
                    r == Some(o) && final(self)@.active is None
                } else {
                    r is None && final(self)@.active == old(self)@.active
                },
                None => r is None && final(self)@.active is None,
            },
    {
        let is_this = match &self.active {
            Some((g, _)) => *g == generation,
            None => false,
        };
        if is_this {
            match self.active.take() {
                Some((_, o)) => Some(o),
                None => None,
            }
        } else {
            None
        }
    }

    /// Whether a generation may still register.
    pub fn is_available(&self) -> (r: bool)
        ensures
            r == !self@.closed,
    {
        !self.closed
    }

    /// Close the endpoint for good, returning the live output (if any) for
    /// the caller to close.
    pub fn shutdown(&mut self) -> (r: Option<O>)
        ensures
            final(self)@.closed,
            final(self)@.active is None,
            r == match old(self)@.active {
                Some((_, o)) => Some(o),
                None => None::<O>,
            },
    {
        self.closed = true;
        match self.active.take() {
            Some((_, o)) => Some(o),
            None => None,
        }
    }
}

/// After a shutdown no generation is ever admitted again: a shut-down
/// endpoint refuses registration and keeps no live generation.
pub proof fn lemma_shutdown_is_final<O>(m: AttachModel<O>, generation: u64)
    requires
        m.closed,
    ensures
        !is_live(m, generation),
{
}

/// A stale generation can neither write nor detach the live one: once
/// `newer` replaced it, the old generation is not admitted.
pub proof fn lemma_stale_generation_is_shut_out<O>(
    m: AttachModel<O>,
    older: u64,
    newer: u64,
    output: O,
)
    requires
        older != newer,
        !m.closed,
    ensures
        !is_live(AttachModel { closed: false, active: Some((newer, output)) }, older),
        is_live(AttachModel { closed: false, active: Some((newer, output)) }, newer),
{
}

} // verus!
