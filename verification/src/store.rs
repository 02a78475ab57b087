//! A model of the store that the commands are meant for: sets of values
//! under namespaced keys, in which a removal is remembered, so that commands
//! may arrive twice or out of order.

use vstd::prelude::*;
use crate::reducer::CommandModel;

verus! {

/// A value under a key in a namespace.
pub struct Member {
    pub namespace: Option<Seq<char>>,
    pub key: Seq<char>,
    pub value: Seq<char>,
}

/// The state of the store: the members ever added and the members ever
/// removed. A member is present when it was added and never removed.
pub struct SetStore {
    pub added: Set<Member>,
    pub removed: Set<Member>,
}

/// The member that a command speaks of.
pub open spec fn member_of(c: CommandModel) -> Member {
    match c {
        CommandModel::Add { namespace, key, value } => Member { namespace, key, value },
        CommandModel::Remove { namespace, key, value } => Member { namespace, key, value },
    }
}

impl SetStore {
    /// The store that holds nothing.
    pub open spec fn empty() -> SetStore {
        SetStore { added: Set::empty(), removed: Set::empty() }
    }

    /// The store after a command.
    pub open spec fn apply(self, c: CommandModel) -> SetStore {
        match c {
            CommandModel::Add { .. } => SetStore {
                added: self.added.insert(member_of(c)),
                removed: self.removed,
            },
            CommandModel::Remove { .. } => SetStore {
                added: self.added,
                removed: self.removed.insert(member_of(c)),
            },
        }
    }

    /// Whether a member is present.
    pub open spec fn holds(self, m: Member) -> bool {
        self.added.contains(m) && !self.removed.contains(m)
    }

    /// The values present under a key of a namespace.
    pub open spec fn values(self, namespace: Option<Seq<char>>, key: Seq<char>) -> Set<Seq<char>> {
        Set::new(|v: Seq<char>| self.holds(Member { namespace, key, value: v }))
    }
}

/// A command applied twice leaves the store as the command applied once.
pub proof fn lemma_replay_is_idempotent(store: SetStore, c: CommandModel)
    ensures
        store.apply(c).apply(c) == store.apply(c),
{
    let once = store.apply(c);
    let twice = once.apply(c);
    assert(twice.added =~= once.added);
    assert(twice.removed =~= once.removed);
}

/// An addition and a removal of the same value under the same key give the
/// same store in either order, and so the same membership.
pub proof fn lemma_add_and_remove_commute(
    store: SetStore,
    namespace: Option<Seq<char>>,
    key: Seq<char>,
    value: Seq<char>,
)
    ensures
        store.apply(CommandModel::Add { namespace, key, value }).apply(
            CommandModel::Remove { namespace, key, value },
        ) == store.apply(CommandModel::Remove { namespace, key, value }).apply(
            CommandModel::Add { namespace, key, value },
        ),
        store.apply(CommandModel::Add { namespace, key, value }).apply(
            CommandModel::Remove { namespace, key, value },
        ).values(namespace, key) == store.apply(
            CommandModel::Remove { namespace, key, value },
        ).apply(CommandModel::Add { namespace, key, value }).values(namespace, key),
{
    let add = CommandModel::Add { namespace, key, value };
    let remove = CommandModel::Remove { namespace, key, value };
    lemma_commands_commute(store, add, remove);
}

/// Any two commands give the same store in either order.
pub proof fn lemma_commands_commute(store: SetStore, c1: CommandModel, c2: CommandModel)
    ensures
        store.apply(c1).apply(c2) == store.apply(c2).apply(c1),
{
    let x = store.apply(c1).apply(c2);
    let y = store.apply(c2).apply(c1);
    assert(x.added =~= y.added);
    assert(x.removed =~= y.removed);
}

} // verus!
