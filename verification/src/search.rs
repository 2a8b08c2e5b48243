//! The title index: approximate search over the titles of the catalog.
//!
//! The matching is done by a `simsearch::SimSearch`, which holds tokens
//! and no text. The index keeps the identifiers and the titles beside
//! the engine and keys each entry by its position in the order of
//! insertion. The engine orders entries of equal score by their key, so
//! entries with the same tokens come out in the order in which they went
//! in.

use crate::response::BuildError;
use crate::schema::Movie;
use simsearch::{SearchOptions, SimSearch};
use std::collections::HashMap;
use std::hash::Hash;
use vstd::prelude::*;

verus! {

broadcast use vstd::std_specs::hash::group_hash_axioms;

#[verifier::external_type_specification]
#[verifier::external_body]
#[verifier::reject_recursive_types(Id)]
pub struct ExSimSearch<Id: Eq + PartialEq + Clone + Hash + Ord>(SimSearch<Id>);

/// The tokens that the engine makes of a text under its default options:
/// the text in lower case, split at whitespace, the tokens sorted.
pub uninterp spec fn tokens_of(text: Seq<char>) -> Seq<Seq<char>>;

/// What the engine holds: for each key, the tokens of the text that was
/// last inserted under it.
pub uninterp spec fn held(engine: SimSearch<u64>) -> Map<u64, Seq<Seq<char>>>;

/// Whether the engine has the default options but for the choice of the
/// distance, and scores by edit distance.
pub uninterp spec fn by_edit_distance(engine: SimSearch<u64>) -> bool;

/// The keys that an engine with the default options, scoring by edit
/// distance, finds for a pattern, given what it holds.
pub uninterp spec fn found_keys(held: Map<u64, Seq<Seq<char>>>, pattern: Seq<char>) -> Set<u64>;

/// `SimSearch::new_with` on `SearchOptions::new().levenshtein(flag)`: an
/// engine that holds nothing, with the default options. With the flag it
/// scores by edit distance, and by Jaro-Winkler similarity without.
#[verifier::external_body]
fn new_engine(levenshtein: bool) -> (engine: SimSearch<u64>)
    ensures
        (held(engine) == Map::<u64, Seq<Seq<char>>>::empty()),
        by_edit_distance(engine) == levenshtein,
{
    SimSearch::new_with(SearchOptions::new().levenshtein(levenshtein))
}

/// `SimSearch::insert`: the engine drops what it held under the key,
/// makes tokens of the text and holds them under the key; what it holds
/// under other keys stays, and so do its options. Which tokens it makes
/// is stated for the default options.
#[verifier::external_body]
fn index_title(engine: &mut SimSearch<u64>, key: u64, title: &str)
    ensures
        held(*final(engine)).dom() == held(*old(engine)).dom().insert(key),
        held(*final(engine)).remove(key) == held(*old(engine)).remove(key),
        by_edit_distance(*final(engine)) == by_edit_distance(*old(engine)),
        by_edit_distance(*old(engine)) ==> held(*final(engine))[key] == tokens_of(title@),
{
    engine.insert(key, title)
}

/// `SimSearch::search`: the keys under which the engine holds a token
/// that is similar enough to a token of the pattern, by falling score
/// and, among equal scores, by rising key.
///
/// - None comes twice, and each is a key that the engine holds.
/// - A pattern without characters has no tokens and finds nothing.
/// - Which keys are found rests on what is held and on the pattern
///   alone; it is named for the engine by edit distance.
/// - Two keys with the same tokens get the same score, so they come out
///   by rising key.
///
/// A score is a sum that the engine adds up in the order of a hash map,
/// so the order among different tokens is not stated.
#[verifier::external_body]
fn ranked(engine: &SimSearch<u64>, pattern: &str) -> (keys: Vec<u64>)
    ensures
        keys@.no_duplicates(),
        forall|i: int| 0 <= i < keys@.len() ==> held(*engine).dom().contains(#[trigger] keys@[i]),
        pattern@.len() == 0 ==> keys@.len() == 0,
        by_edit_distance(*engine) ==> keys@.to_set() == found_keys(held(*engine), pattern@),
        forall|i: int, j: int|
            0 <= i < j < keys@.len() && held(*engine)[#[trigger] keys@[i]] == held(
                *engine,
            )[#[trigger] keys@[j]] ==> keys@[i] < keys@[j],
{
    engine.search(pattern)
}

/// An entry of the index: a record's identifier and the text indexed for
/// it.
pub type Entry = (i64, Seq<char>);

/// The position of the entry for the identifier, if there is one.
pub open spec fn place(entries: Seq<Entry>, id: i64) -> Option<int> {
    if exists|p: int| 0 <= p < entries.len() && (#[trigger] entries[p]).0 == id {
        Some(choose|p: int| 0 <= p < entries.len() && (#[trigger] entries[p]).0 == id)
    } else {
        None
    }
}

/// The entries after one insertion: a new identifier goes to the end,
/// and for a known one the text is replaced where the entry stands.
pub open spec fn with_entry(entries: Seq<Entry>, id: i64, title: Seq<char>) -> Seq<Entry> {
    match place(entries, id) {
        Some(p) => entries.update(p, (id, title)),
        None => entries.push((id, title)),
    }
}

/// The entries after the titles of the records were inserted under
/// their identifiers, from first to last.
pub open spec fn entries_of(movies: Seq<Movie>) -> Seq<Entry>
    decreases movies.len(),
{
    if movies.len() == 0 {
        Seq::empty()
    } else {
        with_entry(entries_of(movies.drop_last()), movies.last().id, movies.last().title@)
    }
}

/// Whether no identifier has two entries.
pub open spec fn distinct(entries: Seq<Entry>) -> bool {
    forall|p: int, q: int|
        0 <= p < q < entries.len() ==> (#[trigger] entries[p]).0 != (#[trigger] entries[q]).0
}

/// One insertion keeps the identifiers distinct, and leaves the entry
/// for the inserted identifier with the inserted text.
proof fn lemma_with_entry(entries: Seq<Entry>, id: i64, title: Seq<char>)
    requires
        distinct(entries),
    ensures
        distinct(with_entry(entries, id, title)),
        with_entry(entries, id, title).len() >= entries.len(),
        place(with_entry(entries, id, title), id) is Some,
        with_entry(entries, id, title)[place(with_entry(entries, id, title), id)->Some_0] == (
            id,
            title,
        ),
        forall|p: int|
            0 <= p < entries.len() && (#[trigger] entries[p]).0 != id ==> with_entry(
                entries,
                id,
                title,
            )[p] == entries[p],
{
    let after = with_entry(entries, id, title);
    match place(entries, id) {
        Some(p) => {
            assert(after[p] == (id, title));
            assert forall|a: int, b: int| 0 <= a < b < after.len() implies (#[trigger] after[a]).0
                != (#[trigger] after[b]).0 by {
                assert(after[a].0 == entries[a].0);
                assert(after[b].0 == entries[b].0);
            }
        },
        None => {
            assert(after[entries.len() as int] == (id, title));
            assert forall|a: int, b: int| 0 <= a < b < after.len() implies (#[trigger] after[a]).0
                != (#[trigger] after[b]).0 by {
                if b == entries.len() {
                    assert(entries[a].0 != id);
                }
            }
        },
    }
    let found = place(after, id)->Some_0;
    assert(after[found].0 == id);
    if after[found] != (id, title) {
        let other = choose|p: int| 0 <= p < after.len() && after[p] == (id, title);
        assert(after[other].0 == id);
        assert(found != other);
    }
}

/// Whatever is scanned, no identifier has two entries in the index.
pub proof fn law_entries_are_distinct(movies: Seq<Movie>)
    ensures
        distinct(entries_of(movies)),
    decreases movies.len(),
{
    if movies.len() > 0 {
        law_entries_are_distinct(movies.drop_last());
        lemma_with_entry(entries_of(movies.drop_last()), movies.last().id, movies.last().title@);
    }
}

/// The last write wins: the entry for an identifier holds the title of
/// the last scanned record with that identifier.
pub proof fn law_last_title_stands(movies: Seq<Movie>, i: int)
    requires
        0 <= i < movies.len(),
        forall|j: int| i < j < movies.len() ==> (#[trigger] movies[j]).id != movies[i].id,
    ensures
        place(entries_of(movies), movies[i].id) is Some,
        entries_of(movies)[place(entries_of(movies), movies[i].id)->Some_0] == (
            movies[i].id,
            movies[i].title@,
        ),
    decreases movies.len(),
{
    let front = movies.drop_last();
    let last = movies.last();
    let before = entries_of(front);
    let after = entries_of(movies);
    law_entries_are_distinct(front);
    law_entries_are_distinct(movies);
    lemma_with_entry(before, last.id, last.title@);
    if i < movies.len() - 1 {
        assert(front[i] == movies[i]);
        assert(movies[movies.len() - 1].id != movies[i].id);
        assert forall|j: int| i < j < front.len() implies (#[trigger] front[j]).id
            != front[i].id by {
            assert(front[j] == movies[j]);
        }
        law_last_title_stands(front, i);
        let p = place(before, movies[i].id)->Some_0;
        assert(before[p].0 == movies[i].id);
        assert(after[p] == before[p]);
        let found = place(after, movies[i].id)->Some_0;
        assert(after[found].0 == movies[i].id);
        assert(found == p);
    }
}

/// The entries that the identifiers and the titles make.
spec fn paired(ids: Seq<i64>, titles: Seq<String>) -> Seq<Entry> {
    Seq::new(ids.len(), |p: int| (ids[p], titles[p]@))
}

/// What the engine holds for the entries: under each position, the
/// tokens of the entry's text.
pub open spec fn held_by(entries: Seq<Entry>) -> Map<u64, Seq<Seq<char>>> {
    Map::new(|key: u64| key < entries.len(), |key: u64| tokens_of(entries[key as int].1))
}

/// The identifiers that a search of the entries finds for the text: those
/// of the entries whose position the engine finds.
pub open spec fn found_in(entries: Seq<Entry>, text: Seq<char>) -> Set<i64> {
    Set::new(
        |id: i64|
            exists|p: int|
                0 <= p < entries.len() && (#[trigger] entries[p]).0 == id && found_keys(
                    held_by(entries),
                    text,
                ).contains(p as u64),
    )
}

/// Whether identifiers whose entries have the same tokens stand in the
/// order of the entries, which is the order of insertion.
pub open spec fn ties_in_order(entries: Seq<Entry>, ids: Seq<i64>) -> bool {
    forall|i: int, j: int, p: int, q: int|
        #![trigger ids[i], ids[j], entries[p], entries[q]]
        0 <= i < j < ids.len() && 0 <= p < entries.len() && 0 <= q < entries.len() && entries[p].0
            == ids[i] && entries[q].0 == ids[j] && tokens_of(entries[p].1) == tokens_of(
            entries[q].1,
        ) ==> p < q
}

/// Whether the identifiers are a ranking of the entries for the text:
/// exactly the identifiers that the search finds, each once, with ties
/// among entries of the same tokens in the order of insertion, and none
/// for an empty text.
pub open spec fn ranks(entries: Seq<Entry>, text: Seq<char>, ids: Seq<i64>) -> bool {
    &&& ids.no_duplicates()
    &&& ids.to_set() == found_in(entries, text)
    &&& ties_in_order(entries, ids)
    &&& text.len() == 0 ==> ids.len() == 0
}

/// Every search of the same entries for the same text finds the same
/// identifiers, and as many of them.
pub proof fn law_rankings_agree(entries: Seq<Entry>, text: Seq<char>, a: Seq<i64>, b: Seq<i64>)
    requires
        ranks(entries, text, a),
        ranks(entries, text, b),
    ensures
        a.to_set() == b.to_set(),
        a.len() == b.len(),
{
    a.unique_seq_to_set();
    b.unique_seq_to_set();
}

/// Where a search finds one identifier and no other, that identifier is
/// the first and only one of every ranking, and so of its best `limit`
/// for any limit above zero.
pub proof fn law_only_finding_comes_first(
    entries: Seq<Entry>,
    text: Seq<char>,
    all: Seq<i64>,
    id: i64,
    limit: int,
)
    requires
        ranks(entries, text, all),
        found_in(entries, text) == set![id],
        limit > 0,
    ensures
        all == seq![id],
        spec_top(all, limit) == seq![id],
{
    all.unique_seq_to_set();
    assert(set![id].len() == 1) by {
        assert(set![id] =~= Set::empty().insert(id));
    }
    assert(all.to_set().contains(all[0]));
    assert(all =~= seq![id]);
}

/// The index over the titles of the catalog.
pub struct SearchEngine {
    engine: SimSearch<u64>,
    ids: Vec<i64>,
    titles: Vec<String>,
}

impl SearchEngine {
    /// No identifier comes twice, each has its title, and the engine
    /// holds the tokens of each title under the position of its
    /// identifier, and nothing else.
    #[verifier::type_invariant]
    spec fn wf(self) -> bool {
        &&& self.ids@.no_duplicates()
        &&& self.titles@.len() == self.ids@.len()
        &&& by_edit_distance(self.engine)
        &&& forall|k: u64| #[trigger] held(self.engine).dom().contains(k) <==> k < self.ids@.len()
        &&& forall|k: u64|
            k < self.ids@.len() ==> #[trigger] held(self.engine)[k] == tokens_of(
                self.titles@[k as int]@,
            )
    }

    /// The entries of the index, in the order of their first insertion.
    pub closed spec fn entries(self) -> Seq<Entry> {
        paired(self.ids@, self.titles@)
    }

    /// Whether the index has an entry for the identifier.
    pub open spec fn has(self, id: i64) -> bool {
        place(self.entries(), id) is Some
    }

    /// The identifiers that a search of the index finds for the text.
    pub open spec fn found(self, text: Seq<char>) -> Set<i64> {
        found_in(self.entries(), text)
    }
}

/// Builds the index from the outcome of the scan of the store: for each
/// record its title under its identifier, in the order of the scan.
/// Where an identifier comes again, the later title stands, at the place
/// of the first. Titles are matched by edit distance. A failed scan is a
/// [`BuildError`] with the scan's message; there is no index then.
pub fn build_search_engine(scan: Result<Vec<Movie>, String>) -> (built: Result<
    SearchEngine,
    BuildError,
>)
    ensures
        match scan {
            Ok(movies) => built is Ok && built->Ok_0.entries() == entries_of(movies@),
            Err(reason) => built is Err && built->Err_0.reason@ == reason@,
        },
{
    let movies = match scan {
        Ok(movies) => movies,
        Err(reason) => {
            return Err(BuildError { reason });
        },
    };
    let mut engine = new_engine(true);
    let mut ids: Vec<i64> = Vec::new();
    let mut titles: Vec<String> = Vec::new();
    let mut keys: HashMap<i64, u64> = HashMap::new();
    assert(paired(ids@, titles@) =~= entries_of(movies@.take(0)));
    let mut i: usize = 0;
    while i < movies.len()
        invariant
            i <= movies.len(),
            ids@.no_duplicates(),
            titles@.len() == ids@.len(),
            by_edit_distance(engine),
            forall|k: u64| #[trigger] held(engine).dom().contains(k) <==> k < ids@.len(),
            forall|k: u64|
                k < ids@.len() ==> #[trigger] held(engine)[k] == tokens_of(titles@[k as int]@),
            forall|id: i64| #[trigger] keys@.contains_key(id) <==> ids@.contains(id),
            forall|p: int| 0 <= p < ids@.len() ==> keys@[#[trigger] ids@[p]] == p,
            paired(ids@, titles@) == entries_of(movies@.take(i as int)),
        decreases movies.len() - i,
    {
        let id = movies[i].id;
        let title = movies[i].title.clone();
        let ghost before = paired(ids@, titles@);
        let ghost old_held = held(engine);
        let ghost old_titles = titles@;
        proof {
            let next = movies@.take(i + 1);
            assert(next.drop_last() =~= movies@.take(i as int));
            assert(next.last() == movies@[i as int]);
        }
        match keys.get(&id) {
            Some(key) => {
                let key = *key;
                proof {
                    assert(ids@.contains(id));
                    let q = choose|q: int| 0 <= q < ids@.len() && ids@[q] == id;
                    assert(keys@[ids@[q]] == q);
                    assert(before[q].0 == id);
                    let p = place(before, id)->Some_0;
                    assert(before[p].0 == id);
                    assert(ids@[p] == ids@[q]);
                    assert(p == key);
                }
                let count = ids.len();
                assert(key < count);
                index_title(&mut engine, key, title.as_str());
                titles.set(key as usize, title);
                assert(paired(ids@, titles@) =~= before.update(key as int, (id, title@)));
                proof {
                    assert(held(engine).dom() =~= old_held.dom());
                    assert forall|k: u64| k < ids@.len() implies #[trigger] held(engine)[k]
                        == tokens_of(titles@[k as int]@) by {
                        if k != key {
                            assert(held(engine).remove(key)[k] == old_held.remove(key)[k]);
                            assert(titles@[k as int] == old_titles[k as int]);
                        }
                    }
                }
            },
            None => {
                let ghost old_ids = ids@;
                let ghost old_keys = keys@;
                proof {
                    assert(!old_keys.contains_key(id));
                    assert(!old_ids.contains(id));
                    if exists|p: int| 0 <= p < before.len() && (#[trigger] before[p]).0 == id {
                        let p = choose|p: int|
                            0 <= p < before.len() && (#[trigger] before[p]).0 == id;
                        assert(old_ids[p] == id);
                    }
                    assert(place(before, id) is None);
                }
                let key = ids.len() as u64;
                index_title(&mut engine, key, title.as_str());
                ids.push(id);
                keys.insert(id, key);
                titles.push(title);
                assert(paired(ids@, titles@) =~= before.push((id, title@)));
                proof {
                    assert(ids@ == old_ids.push(id));
                    assert(keys@ == old_keys.insert(id, key));
                    assert forall|k: u64| #[trigger]
                        held(engine).dom().contains(k) <==> k < ids@.len() by {
                        assert(old_held.dom().contains(k) <==> k < old_ids.len());
                    }
                    assert forall|k: u64| k < ids@.len() implies #[trigger] held(engine)[k]
                        == tokens_of(titles@[k as int]@) by {
                        if k != key {
                            assert(held(engine).remove(key)[k] == old_held.remove(key)[k]);
                            assert(titles@[k as int] == old_titles[k as int]);
                        }
                    }
                    assert forall|x: i64| #[trigger] keys@.contains_key(x) <==> ids@.contains(
                        x,
                    ) by {
                        if ids@.contains(x) && x != id {
                            let p = choose|p: int| 0 <= p < ids@.len() && ids@[p] == x;
                            assert(old_ids[p] == x);
                            assert(old_ids.contains(x));
                            assert(old_keys.contains_key(x));
                        }
                        if keys@.contains_key(x) && x != id {
                            assert(old_keys.contains_key(x));
                            assert(old_ids.contains(x));
                            let p = choose|p: int| 0 <= p < old_ids.len() && old_ids[p] == x;
                            assert(ids@[p] == x);
                        }
                        if x == id {
                            assert(ids@[ids@.len() - 1] == id);
                        }
                    }
                    assert forall|p: int, q: int|
                        0 <= p < ids@.len() && 0 <= q < ids@.len() && p != q implies ids@[p]
                        != ids@[q] by {
                        if p < old_ids.len() {
                            assert(old_ids.contains(old_ids[p]));
                        }
                        if q < old_ids.len() {
                            assert(old_ids.contains(old_ids[q]));
                        }
                    }
                    assert forall|p: int| 0 <= p < ids@.len() implies keys@[#[trigger] ids@[p]]
                        == p by {
                        if p < old_ids.len() {
                            assert(old_ids.contains(old_ids[p]));
                            assert(old_keys[old_ids[p]] == p);
                        }
                    }
                }
            },
        }
        i += 1;
    }
    assert(movies@.take(movies.len() as int) =~= movies@);
    Ok(SearchEngine { engine, ids, titles })
}

/// The first `limit` of the ranked identifiers, or all of them where
/// there are fewer; none where the limit is zero or negative.
pub open spec fn spec_top(ids: Seq<i64>, limit: int) -> Seq<i64> {
    if limit <= 0 {
        Seq::empty()
    } else if limit >= ids.len() {
        ids
    } else {
        ids.take(limit)
    }
}

/// Cuts a ranking to its best `limit` identifiers, keeping their order.
pub fn top(ids: Vec<i64>, limit: i32) -> (best: Vec<i64>)
    ensures
        best@ == spec_top(ids@, limit as int),
{
    let mut best: Vec<i64> = Vec::new();
    if limit <= 0 {
        return best;
    }
    let bound: usize = if (limit as usize) < ids.len() {
        limit as usize
    } else {
        ids.len()
    };
    let mut i: usize = 0;
    while i < bound
        invariant
            i <= bound <= ids.len(),
            best@ == ids@.take(i as int),
        decreases bound - i,
    {
        best.push(ids[i]);
        assert(ids@.take(i + 1) =~= ids@.take(i as int).push(ids@[i as int]));
        i += 1;
    }
    assert(ids@.take(ids.len() as int) =~= ids@);
    best
}

impl SearchEngine {
    /// What the engine ranks for the text, by falling similarity: the
    /// engine's keys, turned into identifiers by
    /// [`SearchEngine::identifiers`]. The result is a ranking of the
    /// entries: exactly the identifiers that the search finds, each once;
    /// entries with the same tokens come in the order of insertion; and
    /// an empty text finds nothing.
    pub fn rank(&self, text: &str) -> (ids: Vec<i64>)
        ensures
            ranks(self.entries(), text@, ids@),
            ids@.to_set() == self.found(text@),
            forall|i: int| 0 <= i < ids@.len() ==> self.has(#[trigger] ids@[i]),
    {
        proof {
            use_type_invariant(self);
        }
        let keys = ranked(&self.engine, text);
        let ids = self.identifiers(&keys);
        let count = self.ids.len();
        proof {
            let entries = self.entries();
            assert(entries.len() == count);
            assert(held(self.engine) =~= held_by(entries));
            assert forall|a: int, b: int|
                0 <= a < ids@.len() && 0 <= b < ids@.len() && a != b implies ids@[a]
                != ids@[b] by {
                assert(keys@[a] != keys@[b]);
                assert(entries[keys@[a] as int].0 == self.ids@[keys@[a] as int]);
                assert(entries[keys@[b] as int].0 == self.ids@[keys@[b] as int]);
            }
            assert forall|j: int| 0 <= j < ids@.len() implies self.has(#[trigger] ids@[j]) by {
                assert(entries[keys@[j] as int].0 == ids@[j]);
            }
            assert forall|id: i64| ids@.to_set().contains(id) <==> found_in(
                entries,
                text@,
            ).contains(id) by {
                if ids@.to_set().contains(id) {
                    let j = choose|j: int| 0 <= j < ids@.len() && ids@[j] == id;
                    let p = keys@[j] as int;
                    assert(keys@.to_set().contains(keys@[j]));
                    assert(entries[p].0 == id);
                    assert(found_keys(held_by(entries), text@).contains(p as u64));
                }
                if found_in(entries, text@).contains(id) {
                    let p = choose|p: int|
                        0 <= p < entries.len() && (#[trigger] entries[p]).0 == id && found_keys(
                            held_by(entries),
                            text@,
                        ).contains(p as u64);
                    assert(keys@.to_set().contains(p as u64));
                    let j = choose|j: int| 0 <= j < keys@.len() && keys@[j] == p as u64;
                    assert(ids@[j] == entries[keys@[j] as int].0);
                    assert(ids@[j] == id);
                }
            }
            assert(ids@.to_set() =~= found_in(entries, text@));
            assert forall|i: int, j: int, p: int, q: int|
                #![trigger ids@[i], ids@[j], entries[p], entries[q]]
                0 <= i < j < ids@.len() && 0 <= p < entries.len() && 0 <= q < entries.len()
                    && entries[p].0 == ids@[i] && entries[q].0 == ids@[j] && tokens_of(
                    entries[p].1,
                ) == tokens_of(entries[q].1) implies p < q by {
                let a = keys@[i] as int;
                let b = keys@[j] as int;
                assert(entries[a].0 == ids@[i]);
                assert(entries[b].0 == ids@[j]);
                assert(self.ids@[p] == self.ids@[a]);
                assert(self.ids@[q] == self.ids@[b]);
                assert(p == a && q == b);
                assert(held(self.engine)[keys@[i]] == tokens_of(entries[a].1));
                assert(held(self.engine)[keys@[j]] == tokens_of(entries[b].1));
            }
        }
        ids
    }
}

/// Queries the index: the best `limit` of the ranking that
/// [`SearchEngine::rank`] gives for the text, in the ranking's order.
/// So there are at most `limit` identifiers, none comes twice, each is
/// found by the search, and a limit of zero or less or an empty text
/// gives none.
pub fn query(index: &SearchEngine, text: &str, limit: i32) -> (ids: Vec<i64>)
    ensures
        exists|all: Seq<i64>|
            #[trigger] ranks(index.entries(), text@, all) && ids@ == spec_top(all, limit as int),
        limit > 0 ==> ids@.len() <= limit,
        limit <= 0 || text@.len() == 0 ==> ids@.len() == 0,
        ids@.no_duplicates(),
        forall|i: int| 0 <= i < ids@.len() ==> index.has(#[trigger] ids@[i]),
{
    let all = index.rank(text);
    let ghost ranking = all@;
    let ids = top(all, limit);
    assert(ranks(index.entries(), text@, ranking) && ids@ == spec_top(ranking, limit as int));
    ids
}

/// The identifiers of the entries that stand at the positions, in the
/// order of the positions given.
pub open spec fn identifiers_at(entries: Seq<Entry>, keys: Seq<u64>) -> Seq<i64> {
    keys.map_values(|key: u64| entries[key as int].0)
}

impl SearchEngine {
    /// Turns what the engine ranked into record identifiers: for each
    /// key, the identifier of the entry at that position, in the order
    /// of the keys. Every key has to be the position of an entry.
    pub fn identifiers(&self, keys: &Vec<u64>) -> (ids: Vec<i64>)
        requires
            forall|j: int| 0 <= j < keys@.len() ==> (#[trigger] keys@[j]) < self.entries().len(),
        ensures
            ids@ == identifiers_at(self.entries(), keys@),
    {
        let count = self.ids.len();
        let mut ids: Vec<i64> = Vec::new();
        let mut i: usize = 0;
        while i < keys.len()
            invariant
                i <= keys.len(),
                ids@.len() == i,
                count == self.ids@.len(),
                forall|j: int| 0 <= j < keys@.len() ==> (#[trigger] keys@[j]) < self.ids@.len(),
                forall|j: int| 0 <= j < i ==> (#[trigger] ids@[j]) == self.ids@[keys@[j] as int],
            decreases keys.len() - i,
        {
            let key = keys[i];
            assert(keys@[i as int] < count);
            ids.push(self.ids[key as usize]);
            i += 1;
        }
        assert(ids@ =~= identifiers_at(self.entries(), keys@));
        ids
    }
}

} // verus!
