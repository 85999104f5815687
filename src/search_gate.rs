//! Admission of move searches: at most one for each piece that enters play.
use vstd::prelude::*;

verus! {

#[derive(Clone, Copy, Debug, PartialEq, Eq, Structural)]
pub enum SearchGate {
    /// No piece has spawned since the last search.
    SearchIdle,
    /// A piece has spawned and has not been searched yet.
    AwaitingSearch,
}

/// The state reached by observing, for each handled event in order, whether it
/// brought a new piece into play.
pub open spec fn gate_after(g: SearchGate, spawns: Seq<bool>) -> SearchGate
    decreases spawns.len(),
{
    if spawns.len() == 0 {
        g
    } else if spawns.last() {
        SearchGate::AwaitingSearch
    } else {
        gate_after(g, spawns.drop_last())
    }
}

impl SearchGate {
    pub fn new() -> (r: SearchGate)
        ensures
            r == SearchGate::SearchIdle,
    {
        SearchGate::SearchIdle
    }

    /// Records whether the event just handled spawned a new piece.
    pub fn observe(&mut self, spawned: bool)
        ensures
            *final(self) == gate_after(*old(self), seq![spawned]),
            spawned ==> *final(self) == SearchGate::AwaitingSearch,
            !spawned ==> *final(self) == *old(self),
    {
        let ghost g0 = *self;
        proof {
            let one = seq![spawned];
            assert(one.drop_last() =~= Seq::<bool>::empty());
            assert(one.last() == spawned);
            assert(gate_after(g0, Seq::<bool>::empty()) == g0);
        }
        if spawned {
            *self = SearchGate::AwaitingSearch;
        }
    }

    /// Whether a search is owed now: search is enabled for the mode and a
    /// piece spawned since the last search.
    pub fn search_due(&self, search_enabled: bool) -> (r: bool)
        ensures
            r == (search_enabled && *self == SearchGate::AwaitingSearch),
    {
        search_enabled && match self {
            SearchGate::AwaitingSearch => true,
            SearchGate::SearchIdle => false,
        }
    }

    /// Marks the search for the current piece as done.
    pub fn complete_search(&mut self)
        ensures
            *final(self) == SearchGate::SearchIdle,
    {
        *self = SearchGate::SearchIdle;
    }
}

/// Over one tick in which events spawn pieces as `spawns` says, a search is
/// owed at the tick's check exactly when search is enabled and a piece spawned
/// during the tick or was still awaiting its search: never a second time for
/// the same spawn once the search has completed, and never skipped for one.
pub proof fn lemma_search_once_per_spawn(g: SearchGate, spawns: Seq<bool>, search_enabled: bool)
    ensures
        (search_enabled && gate_after(g, spawns) == SearchGate::AwaitingSearch) <==> (search_enabled
            && (g == SearchGate::AwaitingSearch || exists|i: int| 0 <= i < spawns.len() && #[trigger] spawns[i])),
        (forall|i: int| 0 <= i < spawns.len() ==> !#[trigger] spawns[i]) ==> gate_after(
            SearchGate::SearchIdle,
            spawns,
        ) == SearchGate::SearchIdle,
    decreases spawns.len(),
{
    if spawns.len() > 0 {
        let u = spawns.drop_last();
        lemma_search_once_per_spawn(g, u, search_enabled);
        if !spawns.last() {
            if exists|i: int| 0 <= i < spawns.len() && #[trigger] spawns[i] {
                let i = choose|i: int| 0 <= i < spawns.len() && #[trigger] spawns[i];
                assert(u[i] == spawns[i]);
            }
            assert forall|i: int| 0 <= i < u.len() && #[trigger] u[i] implies spawns[i] by {}
        } else {
            assert(spawns[spawns.len() - 1]);
        }
    }
}

} // verus!
