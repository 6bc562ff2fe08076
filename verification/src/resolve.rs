//! Choosing the preferred source of every station.
//!
//! Several sources may report for one station, one per variant of the
//! measured element. Of these the one with the smallest element identifier
//! is preferred; among several with that identifier, the one that came first.

use crate::source::{Source, SourceView};
use std::collections::HashMap;
use vstd::prelude::*;

verus! {

/// Whether some source of `sources` reports for `station`.
pub open spec fn has_station(sources: Seq<SourceView>, station: nat) -> bool {
    exists|i: int| 0 <= i < sources.len() && (#[trigger] sources[i]).station_id == station
}

/// Whether the source at index `i` is the preferred one of its station: no
/// source of that station has a smaller element identifier, and every
/// earlier one has a larger.
pub open spec fn is_preferred(sources: Seq<SourceView>, i: int) -> bool {
    &&& 0 <= i < sources.len()
    &&& forall|j: int|
        0 <= j < sources.len() && (#[trigger] sources[j]).station_id == sources[i].station_id
            ==> sources[i].element_identifier <= sources[j].element_identifier
    &&& forall|j: int|
        0 <= j < i && (#[trigger] sources[j]).station_id == sources[i].station_id
            ==> sources[i].element_identifier < sources[j].element_identifier
}

/// Whether index `i` holds the preferred source of `station`.
pub open spec fn is_preferred_for(sources: Seq<SourceView>, station: nat, i: int) -> bool {
    is_preferred(sources, i) && sources[i].station_id == station
}

/// The index of the preferred source of `station`.
pub open spec fn preferred_index(sources: Seq<SourceView>, station: nat) -> int {
    choose|i: int| is_preferred_for(sources, station, i)
}

/// The preferred source of every station that `sources` reports for.
pub open spec fn resolution(sources: Seq<SourceView>) -> Map<nat, SourceView> {
    Map::new(
        |station: nat| has_station(sources, station),
        |station: nat| sources[preferred_index(sources, station)],
    )
}

/// What is kept once one more source was offered: the source replaces what
/// was kept for its station only if its element identifier is smaller, and
/// is kept where nothing was.
pub open spec fn offer(kept: Map<nat, SourceView>, source: SourceView) -> Map<nat, SourceView> {
    if kept.contains_key(source.station_id) && kept[source.station_id].element_identifier
        <= source.element_identifier {
        kept
    } else {
        kept.insert(source.station_id, source)
    }
}

/// A station has at most one preferred source.
pub proof fn lemma_preferred_unique(sources: Seq<SourceView>, station: nat, i: int, j: int)
    requires
        is_preferred_for(sources, station, i),
        is_preferred_for(sources, station, j),
    ensures
        i == j,
{
}

/// What is preferred stays preferred when a source follows that reports for
/// another station or has no smaller element identifier.
pub proof fn lemma_preferred_stays(sources: Seq<SourceView>, source: SourceView, i: int)
    requires
        is_preferred(sources, i),
        source.station_id != sources[i].station_id || sources[i].element_identifier
            <= source.element_identifier,
    ensures
        is_preferred(sources.push(source), i),
{
    let longer = sources.push(source);
    assert forall|j: int|
        0 <= j < longer.len() && (#[trigger] longer[j]).station_id
            == longer[i].station_id implies longer[i].element_identifier
        <= longer[j].element_identifier by {
        if j < sources.len() {
            assert(longer[j] == sources[j]);
        }
    }
    assert forall|j: int|
        0 <= j < i && (#[trigger] longer[j]).station_id
            == longer[i].station_id implies longer[i].element_identifier
        < longer[j].element_identifier by {
        assert(longer[j] == sources[j]);
    }
}

/// What is preferred among the sources and a further one was preferred
/// before, unless it is the further one.
pub proof fn lemma_preferred_before(sources: Seq<SourceView>, source: SourceView, i: int)
    requires
        is_preferred(sources.push(source), i),
        i < sources.len(),
    ensures
        is_preferred(sources, i),
        source.station_id != sources[i].station_id || sources[i].element_identifier
            <= source.element_identifier,
{
    let longer = sources.push(source);
    assert(longer[i] == sources[i]);
    assert forall|j: int|
        0 <= j < sources.len() && (#[trigger] sources[j]).station_id
            == sources[i].station_id implies sources[i].element_identifier
        <= sources[j].element_identifier by {
        assert(longer[j] == sources[j]);
    }
    assert forall|j: int|
        0 <= j < i && (#[trigger] sources[j]).station_id
            == sources[i].station_id implies sources[i].element_identifier
        < sources[j].element_identifier by {
        assert(longer[j] == sources[j]);
    }
    assert(longer[sources.len() as int] == source);
}

/// Every station that is reported for has a preferred source.
pub proof fn lemma_preferred_exists(sources: Seq<SourceView>, station: nat)
    requires
        has_station(sources, station),
    ensures
        is_preferred_for(sources, station, preferred_index(sources, station)),
    decreases sources.len(),
{
    let witness = choose|i: int| 0 <= i < sources.len() && (#[trigger] sources[i]).station_id == station;
    let front = sources.drop_last();
    let last = sources.last();
    assert(sources =~= front.push(last));
    let n = front.len() as int;
    if has_station(front, station) {
        lemma_preferred_exists(front, station);
        let p = preferred_index(front, station);
        if last.station_id != station || front[p].element_identifier <= last.element_identifier {
            lemma_preferred_stays(front, last, p);
            assert(is_preferred_for(sources, station, p));
        } else {
            assert forall|j: int|
                0 <= j < sources.len() && (#[trigger] sources[j]).station_id
                    == station implies last.element_identifier <= sources[j].element_identifier by {
                if j < n {
                    assert(front[j] == sources[j]);
                }
            }
            assert forall|j: int|
                0 <= j < n && (#[trigger] sources[j]).station_id
                    == station implies last.element_identifier < sources[j].element_identifier by {
                assert(front[j] == sources[j]);
            }
            assert(is_preferred_for(sources, station, n));
        }
    } else {
        assert forall|j: int| 0 <= j < n implies (#[trigger] sources[j]).station_id != station by {
            assert(front[j] == sources[j]);
        }
        assert(witness == n);
        assert(is_preferred_for(sources, station, n));
    }
}

/// Offering one more source to the resolution of `sources` gives the
/// resolution of `sources` followed by that source.
pub proof fn lemma_resolution_push(sources: Seq<SourceView>, source: SourceView)
    ensures
        resolution(sources.push(source)) == offer(resolution(sources), source),
{
    let longer = sources.push(source);
    let n = sources.len() as int;
    let before = resolution(sources);
    let after = resolution(longer);
    let offered = offer(before, source);
    assert(longer[n] == source);
    assert forall|station: nat| after.contains_key(station) == offered.contains_key(station) by {
        if has_station(sources, station) {
            let i = choose|i: int|
                0 <= i < sources.len() && (#[trigger] sources[i]).station_id == station;
            assert(longer[i] == sources[i]);
        }
        if has_station(longer, station) {
            let i = choose|i: int|
                0 <= i < longer.len() && (#[trigger] longer[i]).station_id == station;
            if i < n {
                assert(longer[i] == sources[i]);
            }
        }
    }
    assert forall|station: nat| after.contains_key(station) implies after[station]
        == offered[station] by {
        lemma_preferred_exists(longer, station);
        let q = preferred_index(longer, station);
        if q < n {
            lemma_preferred_before(sources, source, q);
            assert(longer[q] == sources[q]);
            assert(has_station(sources, station));
            lemma_preferred_exists(sources, station);
            lemma_preferred_unique(sources, station, preferred_index(sources, station), q);
        } else {
            if has_station(sources, station) {
                lemma_preferred_exists(sources, station);
                let p = preferred_index(sources, station);
                assert(longer[p] == sources[p]);
            }
        }
    }
    assert(after =~= offered);
}

/// Whether `kept` holds, for every station that `sources` reports for and
/// for no other, the preferred source of that station.
pub open spec fn resolves(kept: Map<nat, SourceView>, sources: Seq<SourceView>) -> bool {
    &&& forall|station: nat|
        #![trigger kept.contains_key(station)]
        #![trigger has_station(sources, station)]
        kept.contains_key(station) <==> has_station(sources, station)
    &&& forall|station: nat| #[trigger]
        kept.contains_key(station) ==> exists|i: int|
            is_preferred_for(sources, station, i) && kept[station] == sources[i]
}

/// The resolution of `sources` keeps the preferred source of every station
/// reported for, and nothing else.
pub proof fn lemma_resolution_resolves(sources: Seq<SourceView>)
    ensures
        resolves(resolution(sources), sources),
{
    let kept = resolution(sources);
    assert forall|station: nat| #[trigger] kept.contains_key(station) implies exists|i: int|
        is_preferred_for(sources, station, i) && kept[station] == sources[i] by {
        lemma_preferred_exists(sources, station);
    }
}

/// Reducing the same sequence of sources again gives the same mapping: what
/// is kept depends on the sources and their order alone, so two mappings
/// that both resolve one sequence are equal.
pub proof fn lemma_resolves_same(
    first: Map<nat, SourceView>,
    second: Map<nat, SourceView>,
    sources: Seq<SourceView>,
)
    requires
        resolves(first, sources),
        resolves(second, sources),
    ensures
        first == second,
{
    assert forall|station: nat| first.contains_key(station) implies first[station]
        == second[station] by {
        assert(second.contains_key(station));
        let i = choose|i: int|
            is_preferred_for(sources, station, i) && first[station] == sources[i];
        let j = choose|j: int|
            is_preferred_for(sources, station, j) && second[station] == sources[j];
        lemma_preferred_unique(sources, station, i, j);
    }
    assert(first =~= second);
}

/// A reduction in progress: sources are offered one by one, and of every
/// station the preferred source among those offered so far is kept.
pub struct SourceResolver {
    kept: HashMap<usize, Source>,
    considered: usize,
}

impl View for SourceResolver {
    type V = Map<nat, SourceView>;

    /// The source kept for each station.
    closed spec fn view(&self) -> Map<nat, SourceView> {
        Map::new(
            |station: nat| station <= usize::MAX && self.kept@.contains_key(station as usize),
            |station: nat| self.kept@[station as usize]@,
        )
    }
}

impl SourceResolver {
    /// How many sources were offered so far.
    pub closed spec fn offered(&self) -> nat {
        self.considered as nat
    }

    /// A reduction to which nothing was offered yet.
    pub fn new() -> (resolver: Self)
        ensures
            resolver@ == Map::<nat, SourceView>::empty(),
            resolver.offered() == 0,
    {
        let resolver = SourceResolver { kept: HashMap::new(), considered: 0 };
        assert(resolver@ =~= Map::<nat, SourceView>::empty());
        resolver
    }

    /// Offers one more source.
    pub fn push(&mut self, source: Source)
        requires
            old(self).offered() < usize::MAX,
        ensures
            final(self)@ == offer(old(self)@, source@),
            final(self).offered() == old(self).offered() + 1,
    {
        broadcast use vstd::std_specs::hash::group_hash_axioms;

        self.considered = self.considered + 1;
        let replace = match self.kept.get(&source.station_id) {
            None => true,
            Some(kept) => kept.element_identifier > source.element_identifier,
        };
        if replace {
            let ghost station = source.station_id;
            let ghost view = source@;
            self.kept.insert(source.station_id, source);
            assert(self@ =~= old(self)@.insert(station as nat, view));
        }
    }

    /// The source kept for a station, if any was offered for it.
    pub fn get(&self, station_id: usize) -> (kept: Option<&Source>)
        ensures
            kept.deep_view() == (if self@.contains_key(station_id as nat) {
                Some(self@[station_id as nat])
            } else {
                None
            }),
    {
        broadcast use vstd::std_specs::hash::group_hash_axioms;

        self.kept.get(&station_id)
    }

    /// How many sources were offered.
    pub fn considered(&self) -> (count: usize)
        ensures
            count == self.offered(),
    {
        self.considered
    }

    /// How many sources are kept: one for every station offered for.
    pub fn retained(&self) -> (count: usize)
        ensures
            count == self@.len(),
    {
        broadcast use vstd::std_specs::hash::group_hash_axioms;

        proof {
            let stations = self.kept@.dom();
            let widen = |station: usize| station as nat;
            assert(stations.map(widen) =~= self@.dom()) by {
                assert forall|station: nat| self@.dom().contains(station) implies stations.map(
                    widen,
                ).contains(station) by {
                    assert(stations.contains(station as usize) && widen(station as usize)
                        == station);
                }
            }
            vstd::set_lib::lemma_map_size(stations, self@.dom(), widen);
        }
        self.kept.len()
    }

    /// Ends the reduction and hands out what is kept, by station id.
    pub fn into_sources(self) -> (kept: HashMap<usize, Source>)
        ensures
            forall|station: usize|
                kept@.contains_key(station) <==> #[trigger] self@.contains_key(station as nat),
            forall|station: usize| #[trigger]
                kept@.contains_key(station) ==> kept@[station]@ == self@[station as nat],
    {
        self.kept
    }
}

/// Reduces `sources` to the preferred source of every station.
pub fn resolve_sources(sources: Vec<Source>) -> (resolver: SourceResolver)
    ensures
        resolver@ == resolution(sources.deep_view()),
        resolver.offered() == sources.len(),
{
    let ghost all = sources@;
    let ghost views = sources.deep_view();
    assert(all.len() == sources.len());
    let mut resolver = SourceResolver::new();
    assert(resolver@ =~= resolution(views.take(0)));
    for source in it: sources.into_iter()
        invariant
            it.seq() == all,
            all.len() <= usize::MAX,
            views.len() == all.len(),
            forall|i: int| 0 <= i < all.len() ==> views[i] == (#[trigger] all[i])@,
            resolver@ == resolution(views.take(it.index() as int)),
            resolver.offered() == it.index(),
    {
        proof {
            let at = it.index() as int;
            lemma_resolution_push(views.take(at), source@);
            assert(views.take(at + 1) =~= views.take(at).push(source@));
        }
        resolver.push(source);
    }
    assert(views.take(views.len() as int) =~= views);
    resolver
}

} // verus!
