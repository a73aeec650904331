use vstd::prelude::*;
use std::collections::VecDeque;

verus! {

/// Ring of the last `deep` entries, newest first. With `deep == 0` it stays empty.
pub struct History<E> {
    deep: usize,
    entries: VecDeque<E>,
}

/// The ring after pushing `e`: newest first, oldest dropped once `deep` is reached.
pub open spec fn pushed<E>(old: Seq<E>, deep: nat, e: E) -> Seq<E> {
    if deep == 0 {
        old
    } else if old.len() >= deep {
        seq![e] + old.drop_last()
    } else {
        seq![e] + old
    }
}

/// A push keeps the ring within its depth, puts the new entry first and keeps
/// the previous entries after it, newest first, dropping only the oldest when
/// full; with depth zero nothing is kept.
pub proof fn lemma_push_ring<E>(old: Seq<E>, deep: nat, e: E)
    requires
        old.len() <= deep,
    ensures
        pushed(old, deep, e).len() <= deep,
        deep == 0 ==> pushed(old, deep, e).len() == 0,
        deep > 0 ==> pushed(old, deep, e)[0] == e,
        deep > 0 ==> pushed(old, deep, e).len() == if old.len() < deep {
            old.len() + 1
        } else {
            deep
        },
        forall|i: int|
            0 < i < pushed(old, deep, e).len() ==> #[trigger] pushed(old, deep, e)[i] == old[i - 1],
{
}

impl<E> History<E> {
    #[verifier::type_invariant]
    spec fn bounded(self) -> bool {
        self.entries@.len() <= self.deep
    }

    pub closed spec fn view(&self) -> Seq<E> {
        self.entries@
    }

    pub closed spec fn depth(&self) -> nat {
        self.deep as nat
    }

    pub fn new(deep_history: u8) -> (h: History<E>)
        ensures
            h.depth() == deep_history,
            h.view() == Seq::<E>::empty(),
    {
        let max = deep_history as usize;
        History { deep: max, entries: VecDeque::with_capacity(max) }
    }

    /// Adds `entry` at the front, dropping the oldest entry when full.
    pub fn push(&mut self, entry: E)
        ensures
            final(self).depth() == old(self).depth(),
            final(self).view() == pushed(old(self).view(), old(self).depth(), entry),
    {
        proof {
            use_type_invariant(&*self);
        }
        if self.deep == 0 {
            return;
        }
        let mut entries: VecDeque<E> = VecDeque::new();
        std::mem::swap(&mut entries, &mut self.entries);
        if entries.len() >= self.deep {
            entries.pop_back();
        }
        entries.push_front(entry);
        self.entries = entries;
    }

    /// Entry number `i`, counted from the newest.
    pub fn get(&self, i: usize) -> (e: &E)
        requires
            i < self.view().len(),
        ensures
            *e == self.view()[i as int],
    {
        &self.entries[i]
    }

    pub fn deep(&self) -> (d: usize)
        ensures
            d == self.depth(),
    {
        self.deep
    }

    pub fn len(&self) -> (n: usize)
        ensures
            n == self.view().len(),
            n <= self.depth(),
    {
        proof {
            use_type_invariant(self);
        }
        self.entries.len()
    }

    pub fn is_empty(&self) -> (b: bool)
        ensures
            b == (self.view().len() == 0),
    {
        self.entries.len() == 0
    }
}

} // verus!
