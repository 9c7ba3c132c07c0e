//! The capability every reversible change offers, and the change that
//! reverses nothing.

use vstd::prelude::*;

verus! {

/// A change to terminal state that can be reversed.
///
/// `Ctx` is the context that the caller hands to every `undo`; this layer
/// never looks inside it.
pub trait IStateCommand<Ctx> {
    /// Whether `undo`, started on the context `before`, may leave the
    /// context `after`. A command that does not say leaves every outcome
    /// open.
    open spec fn undoes(&self, before: Ctx, after: Ctx) -> bool {
        true
    }

    /// Whether `undo` may leave this command as `after`. A command that
    /// does not say leaves every outcome open.
    open spec fn becomes(&self, after: &Self) -> bool {
        true
    }

    /// Reverses the change.
    fn undo(&mut self, context: &mut Ctx)
        ensures
            old(self).undoes(*old(context), *final(context)),
            old(self).becomes(final(self)),
    ;
}

/// The command that reverses nothing. It stands in for every key that has
/// no registered change.
pub struct EmptyCommand;

impl<Ctx> IStateCommand<Ctx> for EmptyCommand {
    open spec fn undoes(&self, before: Ctx, after: Ctx) -> bool {
        after == before
    }

    open spec fn becomes(&self, after: &EmptyCommand) -> bool {
        *after == *self
    }

    fn undo(&mut self, context: &mut Ctx) {
    }
}

/// A command whose type is not known where it is held: what a registry of
/// commands of different types stores, behind `Box<dyn ..>`. Every
/// [`IStateCommand`] is one.
pub trait IDynCommand<Ctx> {
    /// Whether `undo_dyn`, started on the context `before`, may leave the
    /// context `after`.
    spec fn undoes_dyn(&self, before: Ctx, after: Ctx) -> bool;

    /// Reverses the change.
    fn undo_dyn(&mut self, context: &mut Ctx)
        ensures
            old(self).undoes_dyn(*old(context), *final(context)),
    ;
}

impl<Ctx, T: IStateCommand<Ctx>> IDynCommand<Ctx> for T {
    open spec fn undoes_dyn(&self, before: Ctx, after: Ctx) -> bool {
        self.undoes(before, after)
    }

    fn undo_dyn(&mut self, context: &mut Ctx) {
        self.undo(context);
    }
}

/// A boxed command of unknown type reverses what the command inside it
/// reverses. What the command inside becomes is not known through the box.
impl<'a, Ctx> IStateCommand<Ctx> for Box<dyn IDynCommand<Ctx> + 'a> {
    open spec fn undoes(&self, before: Ctx, after: Ctx) -> bool {
        (**self).undoes_dyn(before, after)
    }

    fn undo(&mut self, context: &mut Ctx) {
        (**self).undo_dyn(context);
    }
}

} // verus!
