//! The registration of the context under construction: the slot through
//! which the call sites of one program reach the graph they are building.

use crate::error::Error;
use crate::fhe::Context;
use crate::zkp::ZkpContext;
use vstd::prelude::*;

verus! {

/// The slot that holds the context of the program under construction, or
/// nothing between two constructions. Each thread that builds programs
/// keeps its own.
pub struct ActiveContext<C> {
    current: Option<C>,
}

impl<C> ActiveContext<C> {
    /// The context that is installed, if one is.
    pub closed spec fn installed(&self) -> Option<C> {
        self.current
    }

    /// A slot with no context installed.
    pub fn new() -> (slot: Self)
        ensures
            slot.installed() is None,
    {
        ActiveContext { current: None }
    }

    /// Whether a context is installed.
    pub fn is_active(&self) -> (r: bool)
        ensures
            r == self.installed() is Some,
    {
        self.current.is_some()
    }

    /// Installs `ctx` as the context under construction. While another
    /// context is installed this fails and leaves the slot as it is.
    pub fn install(&mut self, ctx: C) -> (r: Result<(), Error>)
        ensures
            match old(self).installed() {
                None => r is Ok && final(self).installed() == Some(ctx),
                Some(_) => r == Err::<(), Error>(Error::NestedContext) && final(self).installed()
                    == old(self).installed(),
            },
    {
        if self.current.is_some() {
            return Err(Error::NestedContext);
        }
        self.current = Some(ctx);
        Ok(())
    }

    /// Takes the installed context out of the slot, which is empty afterwards.
    pub fn uninstall(&mut self) -> (ctx: Option<C>)
        ensures
            ctx == old(self).installed(),
            final(self).installed() is None,
    {
        self.current.take()
    }

    /// Runs `f` on the installed context and returns what it returns; the
    /// context stays installed, as `f` left it.
    pub fn with<F, R>(&mut self, f: F) -> (r: R) where F: FnOnce(&mut C) -> R
        requires
            old(self).installed() is Some,
            forall|c: &mut C| *c == old(self).installed()->0 ==> #[trigger] f.requires((c,)),
        ensures
            final(self).installed() is Some,
            exists|c: &mut C|
                *c == old(self).installed()->0 && *final(c) == final(self).installed()->0
                    && #[trigger] f.ensures((c,), r),
    {
        let mut ctx = self.current.take().unwrap();
        let r = f(&mut ctx);
        self.current = Some(ctx);
        r
    }

    /// Builds one program: installs `ctx`, runs `build` with the slot,
    /// and takes the context out again, so that the slot is empty when the
    /// construction ends. Returns the context as `build` left it. Fails,
    /// without running `build`, while another context is installed, and
    /// fails if `build` took the context out itself.
    pub fn construct<F>(&mut self, ctx: C, build: F) -> (r: Result<C, Error>) where
        F: FnOnce(&mut ActiveContext<C>),

        requires
            forall|slot: &mut ActiveContext<C>|
                slot.installed() == Some(ctx) ==> #[trigger] build.requires((slot,)),
        ensures
            match old(self).installed() {
                None => {
                    &&& final(self).installed() is None
                    &&& exists|slot: &mut ActiveContext<C>|
                        {
                            &&& slot.installed() == Some(ctx)
                            &&& #[trigger] build.ensures((slot,), ())
                            &&& match final(slot).installed() {
                                Some(built) => r == Ok::<C, Error>(built),
                                None => r == Err::<C, Error>(Error::NoActiveContext),
                            }
                        }
                },
                Some(_) => r == Err::<C, Error>(Error::NestedContext) && final(self).installed()
                    == old(self).installed(),
            },
    {
        match self.install(ctx) {
            Err(e) => Err(e),
            Ok(()) => {
                build(self);
                match self.uninstall() {
                    Some(built) => Ok(built),
                    None => Err(Error::NoActiveContext),
                }
            },
        }
    }
}

/// Runs `f` on the FHE context under construction.
pub fn with_ctx<F, R>(slot: &mut ActiveContext<Context>, f: F) -> (r: R) where
    F: FnOnce(&mut Context) -> R,

    requires
        old(slot).installed() is Some,
        forall|c: &mut Context| *c == old(slot).installed()->0 ==> #[trigger] f.requires((c,)),
    ensures
        final(slot).installed() is Some,
        exists|c: &mut Context|
            *c == old(slot).installed()->0 && *final(c) == final(slot).installed()->0
                && #[trigger] f.ensures((c,), r),
{
    slot.with(f)
}

/// Runs `f` on the ZKP context under construction.
pub fn with_zkp_ctx<F, R>(slot: &mut ActiveContext<ZkpContext>, f: F) -> (r: R) where
    F: FnOnce(&mut ZkpContext) -> R,

    requires
        old(slot).installed() is Some,
        forall|c: &mut ZkpContext| *c == old(slot).installed()->0 ==> #[trigger] f.requires((c,)),
    ensures
        final(slot).installed() is Some,
        exists|c: &mut ZkpContext|
            *c == old(slot).installed()->0 && *final(c) == final(slot).installed()->0
                && #[trigger] f.ensures((c,), r),
{
    slot.with(f)
}

} // verus!
