//! How plans are performed, one command after another.

use vstd::prelude::*;
use crate::command::CommandView;
use crate::model::{apply, apply_all, ranked, Store};

verus! {

/// Performing a plan with one more command is performing the plan, then the command.
pub proof fn lemma_apply_push(store: Store, plan: Seq<CommandView>, command: CommandView)
    ensures
        apply_all(store, plan.push(command)) == apply(apply_all(store, plan), command),
{
    assert(plan.push(command).drop_last() =~= plan);
}

/// Performing one plan after another is performing the two in a row.
pub proof fn lemma_apply_concat(store: Store, first: Seq<CommandView>, second: Seq<CommandView>)
    ensures
        apply_all(store, first + second) == apply_all(apply_all(store, first), second),
    decreases second.len(),
{
    if second.len() == 0 {
        assert(first + second =~= first);
    } else {
        assert((first + second).drop_last() =~= first + second.drop_last());
        lemma_apply_concat(store, first, second.drop_last());
    }
}

/// A plan of two commands is the one performed, then the other.
pub proof fn lemma_apply_two(store: Store, a: CommandView, b: CommandView)
    ensures
        apply_all(store, seq![a, b]) == apply(apply(store, a), b),
{
    assert(seq![a, b] =~= Seq::empty().push(a).push(b));
    lemma_apply_push(store, Seq::empty().push(a), b);
    lemma_apply_push(store, Seq::empty(), a);
}

/// A plan of three commands is the three performed one after another.
pub proof fn lemma_apply_three(store: Store, a: CommandView, b: CommandView, c: CommandView)
    ensures
        apply_all(store, seq![a, b, c]) == apply(apply(apply(store, a), b), c),
{
    assert(seq![a, b, c] =~= seq![a, b].push(c));
    lemma_apply_push(store, seq![a, b], c);
    lemma_apply_two(store, a, b);
}

/// A command leaves every ordered set finite.
pub proof fn lemma_apply_well_formed(store: Store, command: CommandView)
    requires
        store.well_formed(),
    ensures
        apply(store, command).well_formed(),
{
    let after = apply(store, command);
    assert forall|key: Seq<char>| #[trigger] after.sorted.contains_key(key) implies after.sorted[key].dom().finite() by {
        if store.sorted.contains_key(key) {
            assert(store.sorted[key].dom().finite());
        }
        assert(store.scores(key).dom().finite());
        match command {
            CommandView::SortedRemove { key: changed, members } => {
                if changed == key {
                    assert(after.sorted[key].dom() =~= store.scores(key).dom().difference(
                        members.to_set(),
                    ));
                }
            },
            CommandView::SortedTrim { key: changed, start, stop } => {
                if changed == key {
                    assert(after.sorted[key].dom() =~= store.scores(key).dom().difference(
                        ranked(store.scores(key), start, stop).to_set(),
                    ));
                }
            },
            _ => {},
        }
    }
}

} // verus!
