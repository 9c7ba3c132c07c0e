//! The registry of reversible changes, one per kind of terminal state.

use std::collections::hash_map::Entry;
use std::collections::HashMap;
use vstd::prelude::*;
use vstd::std_specs::iter::IteratorSpec;

use super::commands::EmptyCommand;
use super::commands::IStateCommand;

verus! {

/// What a lookup hands out: the command stored under the key, borrowed from
/// the registry, or a fresh command that reverses nothing.
///
/// The registry is the one owner of its commands. A handle borrows the
/// registry for as long as it is held, so a stored command is reached by one
/// holder at a time.
pub enum StateHandle<'a, C> {
    Registered(&'a mut C),
    Unregistered(EmptyCommand),
}

impl<'a, C> StateHandle<'a, C> {
    /// Whether undoing through this handle on `before` may leave `after`.
    pub open spec fn undoes<Ctx>(&self, before: Ctx, after: Ctx) -> bool where C: IStateCommand<Ctx> {
        match self {
            StateHandle::Registered(command) => command.undoes(before, after),
            StateHandle::Unregistered(_) => after == before,
        }
    }

    /// Reverses the change behind the handle, which leaves the stored
    /// command as its own undo leaves it; leaves the context as it is when
    /// the key had none.
    pub fn undo<Ctx>(self, context: &mut Ctx) where C: IStateCommand<Ctx>
        ensures
            self.undoes(*old(context), *final(context)),
            self matches StateHandle::Registered(command) ==> command.becomes(final(command)),
    {
        match self {
            StateHandle::Registered(command) => command.undo(context),
            StateHandle::Unregistered(_) => {},
        }
    }
}

/// Whether `trace` are the contexts met while the commands under the keys of
/// `order` are undone one after the other: `trace[i]` is the context before
/// the command under `order[i]` is undone, `trace[i + 1]` the context after
/// it.
pub open spec fn walks<C: IStateCommand<Ctx>, Ctx>(
    changes: Map<u16, C>,
    order: Seq<u16>,
    trace: Seq<Ctx>,
) -> bool {
    &&& trace.len() == order.len() + 1
    &&& forall|i: int|
        #![trigger order[i]]
        0 <= i < order.len() ==> changes[order[i]].undoes(trace[i], trace[i + 1])
}

/// Whether `order` names every key of `changes` once.
pub open spec fn enumerates<C>(changes: Map<u16, C>, order: Seq<u16>) -> bool {
    &&& order.no_duplicates()
    &&& order.to_set() == changes.dom()
}

/// Whether `trace` are the contexts met while each command of `changes` is
/// undone once, the keys taken in the order `order`.
pub open spec fn undone_in_order<C: IStateCommand<Ctx>, Ctx>(
    changes: Map<u16, C>,
    order: Seq<u16>,
    trace: Seq<Ctx>,
) -> bool {
    &&& enumerates(changes, order)
    &&& walks(changes, order, trace)
}

/// Whether undoing every command of `changes` once, in some order, may lead
/// from the context `before` to the context `after`.
pub open spec fn restores<C: IStateCommand<Ctx>, Ctx>(
    changes: Map<u16, C>,
    before: Ctx,
    after: Ctx,
) -> bool {
    exists|order: Seq<u16>, trace: Seq<Ctx>|
        #![trigger undone_in_order(changes, order, trace)]
        undone_in_order(changes, order, trace) && trace[0] == before && trace.last() == after
}

/// Stores the changed states of the terminal.
pub struct StateManager<C> {
    changed_states: HashMap<u16, C>,
}

impl<C> View for StateManager<C> {
    type V = Map<u16, C>;

    closed spec fn view(&self) -> Map<u16, C> {
        self.changed_states@
    }
}

impl<C> StateManager<C> {
    /// A registry with no change in it.
    pub fn new() -> (manager: StateManager<C>)
        ensures
            manager@ == Map::<u16, C>::empty(),
    {
        StateManager { changed_states: HashMap::new() }
    }

    /// Undoes every registered change once, each against `context`, in an
    /// order that the registry does not fix. The changes stay registered:
    /// each key holds the command it held, as that command's undo left it.
    pub fn restore_changes<Ctx>(&mut self, context: &mut Ctx) where C: IStateCommand<Ctx>
        ensures
            restores(old(self)@, *old(context), *final(context)),
            final(self)@.dom() == old(self)@.dom(),
            forall|key: u16|
                #![trigger final(self)@[key]]
                old(self)@.contains_key(key) ==> old(self)@[key].becomes(&final(self)@[key]),
    {
        let keys = self.keys();
        let ghost mut trace: Seq<Ctx> = seq![*context];
        let mut i: usize = 0;
        while i < keys.len()
            invariant
                i <= keys.len(),
                keys@.no_duplicates(),
                keys@.to_set() == old(self)@.dom(),
                self@.dom() == old(self)@.dom(),
                forall|j: int|
                    #![trigger keys@[j]]
                    i <= j < keys.len() ==> self@[keys@[j]] == old(self)@[keys@[j]],
                forall|j: int|
                    #![trigger keys@[j]]
                    0 <= j < i ==> old(self)@[keys@[j]].becomes(&self@[keys@[j]]),
                trace.len() == i + 1,
                trace[0] == *old(context),
                trace[i as int] == *context,
                forall|j: int|
                    #![trigger keys@[j]]
                    0 <= j < i ==> old(self)@[keys@[j]].undoes(trace[j], trace[j + 1]),
            decreases keys.len() - i,
        {
            let key = keys[i];
            match self.changed_states.entry(key) {
                Entry::Occupied(entry) => {
                    let command = entry.into_mut();
                    command.undo(context);
                },
                Entry::Vacant(_) => {},
            }
            proof {
                trace = trace.push(*context);
            }
            i += 1;
        }
        proof {
            assert(undone_in_order(old(self)@, keys@, trace));
            assert forall|key: u16| old(self)@.contains_key(key) implies old(self)@[key].becomes(
                &#[trigger] self@[key],
            ) by {
                assert(keys@.to_set().contains(key));
                let j = choose|j: int| 0 <= j < keys@.len() && keys@[j] == key;
                assert(old(self)@[keys@[j]].becomes(&self@[keys@[j]]));
            }
        }
    }

    /// The registered keys, each once.
    fn keys(&self) -> (keys: Vec<u16>)
        ensures
            keys@.no_duplicates(),
            keys@.to_set() == self@.dom(),
    {
        let mut keys: Vec<u16> = Vec::new();
        let ghost walk = self.changed_states.keys().remaining();
        for key in it: self.changed_states.keys()
            invariant
                it.seq() == walk,
                keys@.len() == it.index(),
                forall|j: int| 0 <= j < keys@.len() ==> keys@[j] == *walk[j],
        {
            keys.push(*key);
        }
        proof {
            assert(keys@ =~= walk.unref());
        }
        keys
    }

    /// Stores `change` under `key`, in place of whatever was there.
    pub fn register_change(&mut self, change: C, key: u16)
        ensures
            final(self)@ == old(self)@.insert(key, change),
    {
        self.changed_states.insert(key, change);
    }

    /// Hands out the command stored under `state_key`, or a fresh command
    /// that reverses nothing when the key has none. The registry holds the
    /// same keys afterwards; what is done to a stored command through the
    /// handle stays in the registry.
    pub fn get<'a>(&'a mut self, state_key: u16) -> (handle: StateHandle<'a, C>)
        ensures
            final(self)@.dom() == old(self)@.dom(),
            match handle {
                StateHandle::Registered(command) => {
                    &&& old(self)@.contains_key(state_key)
                    &&& *command == old(self)@[state_key]
                    &&& final(self)@ == old(self)@.insert(state_key, *final(command))
                },
                StateHandle::Unregistered(_) => {
                    &&& !old(self)@.contains_key(state_key)
                    &&& final(self)@ == old(self)@
                },
            },
    {
        match self.changed_states.entry(state_key) {
            Entry::Occupied(entry) => StateHandle::Registered(entry.into_mut()),
            Entry::Vacant(_) => StateHandle::Unregistered(EmptyCommand),
        }
    }

    /// The number of keys that hold a change.
    pub fn get_changes_count(&self) -> (count: usize)
        ensures
            count == self@.len(),
            self@.dom().finite(),
    {
        self.changed_states.len()
    }

    /// A registry holds finitely many changes.
    pub proof fn lemma_finite(&self)
        ensures
            self@.dom().finite(),
    {
    }
}

} // verus!
