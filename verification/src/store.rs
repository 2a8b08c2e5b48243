//! What the commands mean: a model of the store, and the laws that the
//! service has over any store that behaves like the model.
//!
//! The model is mathematical only. It holds the rows by identifier and
//! the identifiers in the store's natural order.

use crate::column::{
    apply_all, assignments_of, integer_assignment, is_record, real_assignment, record_of,
    text_assignment, values_of, AssignmentView, Column, ValueView,
};
use crate::command::CommandView;
use crate::routes::{hydrated, insert_of, range_of, update_of};
use crate::schema::{MovieView, PartialMovieView};
use vstd::prelude::*;

verus! {

/// A store of records.
pub struct Store {
    /// The identifiers of the rows, in the store's natural order.
    pub order: Seq<i64>,
    /// The rows, by identifier.
    pub rows: Map<i64, MovieView>,
}

/// What the store gives back for a command.
pub enum Answer {
    /// The command was executed; it has no rows to give.
    Done,
    /// The row that was asked for.
    Row(MovieView),
    /// The rows that were asked for, in the store's order.
    Rows(Seq<MovieView>),
    /// The command failed.
    Failed,
}

/// `position` brought into `[0, len]`.
pub open spec fn clamp(position: int, len: int) -> int {
    if position < 0 {
        0
    } else if position > len {
        len
    } else {
        position
    }
}

impl Store {
    /// No identifier comes twice, each identifier has its row, and each
    /// row carries the identifier it is held under.
    pub open spec fn wf(self) -> bool {
        &&& self.order.no_duplicates()
        &&& forall|id: i64| self.order.contains(id) <==> #[trigger] self.rows.dom().contains(id)
        &&& forall|id: i64| #[trigger] self.rows.dom().contains(id) ==> self.rows[id].id == id
    }

    pub open spec fn has(self, id: i64) -> bool {
        self.rows.dom().contains(id)
    }

    /// The row with the identifier, if there is one.
    pub open spec fn read(self, id: i64) -> Option<MovieView> {
        if self.has(id) {
            Some(self.rows[id])
        } else {
            None
        }
    }

    /// Every row, in the store's natural order.
    pub open spec fn scan(self) -> Seq<MovieView> {
        self.order.map_values(|id: i64| self.rows[id])
    }

    /// What one lookup for each identifier finds, in the same order.
    pub open spec fn lookups(self, ids: Seq<i64>) -> Seq<Option<MovieView>> {
        ids.map_values(|id: i64| self.read(id))
    }

    /// Whether the store takes the insert: the values make a full record
    /// whose identifier is not in use.
    pub open spec fn takes(self, columns: Seq<Column>, values: Seq<ValueView>)
        -> bool {
        is_record(columns, values) && !self.has(record_of(values).id)
    }

    /// The store after the command.
    pub open spec fn run(self, command: CommandView) -> Store {
        match command {
            CommandView::Insert { columns, values } => if self.takes(columns, values) {
                let movie = record_of(values);
                Store { order: self.order.push(movie.id), rows: self.rows.insert(movie.id, movie) }
            } else {
                self
            },
            CommandView::Update { id, assignments } => if self.has(id) {
                Store {
                    order: self.order,
                    rows: self.rows.insert(id, apply_all(assignments, self.rows[id])),
                }
            } else {
                self
            },
            CommandView::Delete { id } => if self.has(id) {
                Store {
                    order: self.order.remove(self.order.index_of(id)),
                    rows: self.rows.remove(id),
                }
            } else {
                self
            },
            _ => self,
        }
    }

    /// What the store gives back for the command.
    pub open spec fn answer(self, command: CommandView) -> Answer {
        match command {
            CommandView::Insert { columns, values } => if self.takes(columns, values) {
                Answer::Done
            } else {
                Answer::Failed
            },
            CommandView::Update { id, assignments } => Answer::Done,
            CommandView::Delete { id } => Answer::Done,
            CommandView::Read { id } => match self.read(id) {
                Some(movie) => Answer::Row(movie),
                None => Answer::Failed,
            },
            CommandView::ReadRange { offset, count } => {
                let len = self.order.len() as int;
                let start = clamp(offset as int, len);
                let end = if count < 0 {
                    len
                } else {
                    clamp(start + count, len)
                };
                Answer::Rows(self.scan().subrange(start, end))
            },
            CommandView::ReadAll => Answer::Rows(self.scan()),
        }
    }
}

/// Applying two sequences of assignments, one after the other, is
/// applying them joined.
proof fn lemma_apply_concat(a: Seq<AssignmentView>, b: Seq<AssignmentView>, movie: MovieView)
    ensures
        apply_all(a + b, movie) == apply_all(b, apply_all(a, movie)),
    decreases b.len(),
{
    if b.len() == 0 {
        assert(a + b =~= a);
    } else {
        assert((a + b).drop_last() =~= a + b.drop_last());
        assert((a + b).last() == b.last());
        lemma_apply_concat(a, b.drop_last(), movie);
    }
}

/// Applying the assignment of one optional field.
proof fn lemma_apply_single(s: Seq<AssignmentView>, movie: MovieView)
    requires
        s.len() <= 1,
    ensures
        apply_all(s, movie) == if s.len() == 0 {
            movie
        } else {
            s[0].apply(movie)
        },
{
    if s.len() == 1 {
        assert(s.drop_last().len() == 0);
        assert(apply_all(s.drop_last(), movie) == movie);
    }
}

/// Applying what follows a prefix of assignments that is already applied.
proof fn lemma_apply_step(a: Seq<AssignmentView>, b: Seq<AssignmentView>, movie: MovieView)
    requires
        b.len() <= 1,
    ensures
        apply_all(a + b, movie) == if b.len() == 0 {
            apply_all(a, movie)
        } else {
            b[0].apply(apply_all(a, movie))
        },
{
    lemma_apply_concat(a, b, movie);
    lemma_apply_single(b, apply_all(a, movie));
}

/// The assignments of a sparse update, applied to a record, replace the
/// fields that are present in the update and leave every other field,
/// and the identifier, as they were.
pub proof fn law_assignments_overlay(partial: PartialMovieView, movie: MovieView)
    ensures
        apply_all(assignments_of(partial), movie) == partial.overlay(movie),
{
    let b0 = integer_assignment(Column::Budget, partial.budget);
    let b1 = text_assignment(Column::Genres, partial.genres);
    let b2 = text_assignment(Column::Keywords, partial.keywords);
    let b3 = text_assignment(Column::Overview, partial.overview);
    let b4 = real_assignment(Column::Popularity, partial.popularity);
    let b5 = text_assignment(Column::ReleaseDate, partial.release_date);
    let b6 = integer_assignment(Column::Revenue, partial.revenue);
    let b7 = text_assignment(Column::Title, partial.title);
    let b8 = real_assignment(Column::VoteAverage, partial.vote_average);
    let b9 = integer_assignment(Column::VoteCount, partial.vote_count);
    let s0 = b0;
    let s1 = s0 + b1;
    let s2 = s1 + b2;
    let s3 = s2 + b3;
    let s4 = s3 + b4;
    let s5 = s4 + b5;
    let s6 = s5 + b6;
    let s7 = s6 + b7;
    let s8 = s7 + b8;
    let s9 = s8 + b9;
    lemma_apply_single(s0, movie);
    lemma_apply_step(s0, b1, movie);
    lemma_apply_step(s1, b2, movie);
    lemma_apply_step(s2, b3, movie);
    lemma_apply_step(s3, b4, movie);
    lemma_apply_step(s4, b5, movie);
    lemma_apply_step(s5, b6, movie);
    lemma_apply_step(s6, b7, movie);
    lemma_apply_step(s7, b8, movie);
    lemma_apply_step(s8, b9, movie);
    assert(s9 == assignments_of(partial));
}

/// The values of a record make a full record, and stand for that record.
pub proof fn law_values_round_trip(movie: MovieView)
    ensures
        is_record(Column::spec_all(), values_of(movie)),
        record_of(values_of(movie)) == movie,
{
}

/// Round trip: where the store takes the insert of a record, a read by
/// the record's identifier gives the record back. The store takes it
/// when the identifier is not in use.
pub proof fn law_insert_then_read(store: Store, movie: MovieView)
    requires
        store.wf(),
        !store.has(movie.id),
    ensures
        store.answer(insert_of(movie)) == Answer::Done,
        store.run(insert_of(movie)).read(movie.id) == Some(movie),
        store.run(insert_of(movie)).answer(CommandView::Read { id: movie.id }) == Answer::Row(
            movie,
        ),
        store.run(insert_of(movie)).wf(),
{
    law_values_round_trip(movie);
    let after = store.run(insert_of(movie));
    assert(after.order == store.order.push(movie.id));
    assert forall|id: i64| after.order.contains(id) <==> #[trigger] after.rows.dom().contains(
        id,
    ) by {
        if after.order.contains(id) {
            let i = choose|i: int| 0 <= i < after.order.len() && after.order[i] == id;
            if i < store.order.len() {
                assert(store.order[i] == id);
                assert(store.order.contains(id));
            }
        }
        if after.rows.dom().contains(id) {
            if id == movie.id {
                assert(after.order[store.order.len() as int] == id);
            } else {
                assert(store.order.contains(id));
                let i = choose|i: int| 0 <= i < store.order.len() && store.order[i] == id;
                assert(after.order[i] == id);
            }
        }
    }
    assert forall|i: int, j: int|
        0 <= i < after.order.len() && 0 <= j < after.order.len() && i != j implies after.order[i]
        != after.order[j] by {
        if i < store.order.len() && j < store.order.len() {
        } else if i < store.order.len() {
            assert(store.order.contains(store.order[i]));
        } else {
            assert(store.order.contains(store.order[j]));
        }
    }
}

/// Partial update: after the update that a sparse update makes for a
/// record in the store, the record has the fields that were present in
/// the update, and every other field, its identifier and its place in
/// the store's order as before; every other record is as before; and the
/// store reports success.
pub proof fn law_partial_update(store: Store, id: i64, partial: PartialMovieView)
    requires
        store.wf(),
        store.has(id),
    ensures
        store.answer(update_of(id, partial)) == Answer::Done,
        store.run(update_of(id, partial)).read(id) == Some(partial.overlay(store.rows[id])),
        forall|other: i64|
            other != id ==> store.run(update_of(id, partial)).read(other) == store.read(other),
        store.run(update_of(id, partial)).order == store.order,
        store.run(update_of(id, partial)).wf(),
{
    law_assignments_overlay(partial, store.rows[id]);
    let after = store.run(update_of(id, partial));
    assert forall|x: i64| #[trigger] after.rows.dom().contains(x) implies after.rows[x].id
        == x by {
        if x != id {
            assert(store.rows.dom().contains(x));
        }
    }
    assert forall|x: i64| after.order.contains(x) <==> #[trigger] after.rows.dom().contains(
        x,
    ) by {
        assert(store.order.contains(x) <==> store.rows.dom().contains(x));
    }
}

/// A sparse update without fields yields no assignment.
pub open spec fn is_empty_update(partial: PartialMovieView) -> bool {
    &&& partial.budget is None
    &&& partial.revenue is None
    &&& partial.vote_count is None
    &&& partial.popularity is None
    &&& partial.vote_average is None
    &&& partial.genres is None
    &&& partial.title is None
    &&& partial.keywords is None
    &&& partial.overview is None
    &&& partial.release_date is None
}

/// An update with no fields is sent with no assignment, changes nothing
/// in the store, whether the record is there or not, and still reports
/// success.
pub proof fn law_empty_update(store: Store, id: i64, partial: PartialMovieView)
    requires
        store.wf(),
        is_empty_update(partial),
    ensures
        assignments_of(partial).len() == 0,
        store.answer(update_of(id, partial)) == Answer::Done,
        store.run(update_of(id, partial)) == store,
{
    assert(assignments_of(partial) =~= Seq::<AssignmentView>::empty());
    if store.has(id) {
        assert(store.rows.insert(id, store.rows[id]) =~= store.rows);
    }
}

/// Delete: after the delete of an identifier a read of it finds nothing,
/// every other record is as before, and a second delete of it is
/// executed like the first and leaves the store as it is.
pub proof fn law_delete(store: Store, id: i64)
    requires
        store.wf(),
    ensures
        store.run(CommandView::Delete { id }).read(id) is None,
        store.run(CommandView::Delete { id }).answer(CommandView::Read { id }) == Answer::Failed,
        forall|other: i64|
            other != id ==> store.run(CommandView::Delete { id }).read(other) == store.read(
                other,
            ),
        store.run(CommandView::Delete { id }).answer(CommandView::Delete { id }) == Answer::Done,
        store.run(CommandView::Delete { id }).run(CommandView::Delete { id }) == store.run(
            CommandView::Delete { id },
        ),
        store.run(CommandView::Delete { id }).wf(),
{
    let after = store.run(CommandView::Delete { id });
    if store.has(id) {
        assert(store.order.contains(id));
        let k = store.order.index_of(id);
        assert(0 <= k < store.order.len() && store.order[k] == id);
        assert(after.order == store.order.remove(k));
        assert forall|x: i64| after.order.contains(x) <==> #[trigger] after.rows.dom().contains(
            x,
        ) by {
            if after.order.contains(x) {
                let i = choose|i: int| 0 <= i < after.order.len() && after.order[i] == x;
                if i < k {
                    assert(store.order[i] == x);
                } else {
                    assert(store.order[i + 1] == x);
                }
                assert(store.order.contains(x));
            }
            if after.rows.dom().contains(x) {
                assert(store.order.contains(x));
                let i = choose|i: int| 0 <= i < store.order.len() && store.order[i] == x;
                if i < k {
                    assert(after.order[i] == x);
                } else {
                    assert(after.order[i - 1] == x);
                }
            }
        }
        assert forall|i: int, j: int|
            0 <= i < after.order.len() && 0 <= j < after.order.len() && i != j implies after.order[i]
            != after.order[j] by {
            let si = if i < k {
                i
            } else {
                i + 1
            };
            let sj = if j < k {
                j
            } else {
                j + 1
            };
            assert(after.order[i] == store.order[si]);
            assert(after.order[j] == store.order[sj]);
        }
    }
}

/// Range read: for `from <= to` the read of the range gives the rows at
/// the positions `[from, to)` of the store's natural order, as far as
/// there are rows at these positions.
pub proof fn law_range(store: Store, from: i32, to: i32)
    requires
        from <= to,
    ensures
        store.answer(range_of(from as int, to as int)) == Answer::Rows(
            store.scan().subrange(
                clamp(from as int, store.order.len() as int),
                clamp(to as int, store.order.len() as int),
            ),
        ),
        store.run(range_of(from as int, to as int)) == store,
{
}

/// Hydration tolerates a missing record: where the ranked identifiers
/// are distinct and all in the store, hydration gives their records in
/// rank order; and once one of them is deleted, it gives the remaining
/// records, still in rank order.
pub proof fn law_hydration_skips_deleted(store: Store, ids: Seq<i64>, k: int)
    requires
        store.wf(),
        ids.no_duplicates(),
        forall|i: int| 0 <= i < ids.len() ==> store.has(#[trigger] ids[i]),
        0 <= k < ids.len(),
    ensures
        hydrated(store.lookups(ids)) == ids.map_values(|id: i64| store.rows[id]),
        hydrated(store.run(CommandView::Delete { id: ids[k] }).lookups(ids)) == hydrated(
            store.lookups(ids),
        ).remove(k),
{
    let after = store.run(CommandView::Delete { id: ids[k] });
    lemma_hydrated_all(store, ids);
    lemma_hydrated_without(store, after, ids, k);
}

/// Lookups that all find their record hydrate to these records.
proof fn lemma_hydrated_all(store: Store, ids: Seq<i64>)
    requires
        forall|i: int| 0 <= i < ids.len() ==> store.has(#[trigger] ids[i]),
    ensures
        hydrated(store.lookups(ids)) == ids.map_values(|id: i64| store.rows[id]),
    decreases ids.len(),
{
    let rows = ids.map_values(|id: i64| store.rows[id]);
    if ids.len() == 0 {
        assert(hydrated(store.lookups(ids)) =~= rows);
    } else {
        let front = ids.drop_last();
        assert forall|i: int| 0 <= i < front.len() implies store.has(#[trigger] front[i]) by {
            assert(front[i] == ids[i]);
        }
        lemma_hydrated_all(store, front);
        assert(store.lookups(ids).drop_last() =~= store.lookups(front));
        assert(store.has(ids[ids.len() - 1]));
        assert(store.lookups(ids).last() == Some(store.rows[ids.last()]));
        assert(hydrated(store.lookups(ids)) =~= rows);
    }
}

/// Hydration over a store that lost the record of `ids[k]` and no other.
proof fn lemma_hydrated_without(store: Store, after: Store, ids: Seq<i64>, k: int)
    requires
        ids.no_duplicates(),
        forall|i: int| 0 <= i < ids.len() ==> store.has(#[trigger] ids[i]),
        0 <= k < ids.len(),
        !after.has(ids[k]),
        forall|id: i64| id != ids[k] ==> after.read(id) == store.read(id),
    ensures
        hydrated(after.lookups(ids)) == ids.map_values(|id: i64| store.rows[id]).remove(k),
    decreases ids.len(),
{
    let rows = ids.map_values(|id: i64| store.rows[id]);
    let front = ids.drop_last();
    let last = ids.len() - 1;
    assert(after.lookups(ids).drop_last() =~= after.lookups(front));
    assert forall|i: int| 0 <= i < front.len() implies store.has(#[trigger] front[i]) by {
        assert(front[i] == ids[i]);
    }
    if k == last {
        assert forall|i: int| 0 <= i < front.len() implies after.has(#[trigger] front[i]) by {
            assert(front[i] == ids[i]);
            assert(ids[i] != ids[k]);
            assert(after.read(ids[i]) == store.read(ids[i]));
        }
        lemma_hydrated_all(after, front);
        assert(after.lookups(ids).last() == None::<MovieView>);
        assert forall|i: int| 0 <= i < front.len() implies after.rows[#[trigger] front[i]]
            == store.rows[front[i]] by {
            assert(front[i] == ids[i]);
            assert(ids[i] != ids[k]);
            assert(after.read(ids[i]) == store.read(ids[i]));
        }
        assert(hydrated(after.lookups(ids)) =~= rows.remove(k));
    } else {
        lemma_hydrated_without(store, after, front, k);
        assert(ids[last] != ids[k]);
        assert(after.read(ids[last]) == store.read(ids[last]));
        assert(store.has(ids[last]));
        assert(after.lookups(ids).last() == Some(store.rows[ids[last]]));
        assert(hydrated(after.lookups(ids)) =~= rows.remove(k));
    }
}

} // verus!
