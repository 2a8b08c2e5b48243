//! The columns of the movies table, and the values bound to them.
//!
//! A command names its columns by this enumeration only, so the set of
//! names that can reach a command text is fixed here.

use crate::schema::{Movie, MovieView, PartialMovie, PartialMovieView, Real};
use vstd::prelude::*;

verus! {

/// What a column stores.
#[derive(Clone, Copy, Debug, PartialEq, Eq, Structural)]
pub enum Kind {
    Integer,
    Real,
    Text,
}

/// A column of the movies table, in the order of the names.
#[derive(Clone, Copy, Debug, PartialEq, Eq, Structural)]
pub enum Column {
    Budget,
    Genres,
    Id,
    Keywords,
    Overview,
    Popularity,
    ReleaseDate,
    Revenue,
    Title,
    VoteAverage,
    VoteCount,
}

impl Column {
    /// The column's name in the table.
    pub open spec fn spec_name(self) -> Seq<char> {
        match self {
            Column::Budget => "budget"@,
            Column::Genres => "genres"@,
            Column::Id => "id"@,
            Column::Keywords => "keywords"@,
            Column::Overview => "overview"@,
            Column::Popularity => "popularity"@,
            Column::ReleaseDate => "release_date"@,
            Column::Revenue => "revenue"@,
            Column::Title => "title"@,
            Column::VoteAverage => "vote_average"@,
            Column::VoteCount => "vote_count"@,
        }
    }

    /// The kind of value the column stores.
    pub open spec fn spec_kind(self) -> Kind {
        match self {
            Column::Budget | Column::Id | Column::Revenue | Column::VoteCount => Kind::Integer,
            Column::Popularity | Column::VoteAverage => Kind::Real,
            Column::Genres | Column::Keywords | Column::Overview | Column::ReleaseDate
            | Column::Title => Kind::Text,
        }
    }

    /// Whether an update may assign the column: every column but the
    /// identifier.
    pub open spec fn spec_is_mutable(self) -> bool {
        self != Column::Id
    }

    /// Every column, in the order in which a full record lists them.
    pub open spec fn spec_all() -> Seq<Column> {
        seq![
            Column::Budget,
            Column::Genres,
            Column::Id,
            Column::Keywords,
            Column::Overview,
            Column::Popularity,
            Column::ReleaseDate,
            Column::Revenue,
            Column::Title,
            Column::VoteAverage,
            Column::VoteCount,
        ]
    }

    pub fn name(&self) -> (name: &'static str)
        ensures
            name@ == self.spec_name(),
    {
        match self {
            Column::Budget => "budget",
            Column::Genres => "genres",
            Column::Id => "id",
            Column::Keywords => "keywords",
            Column::Overview => "overview",
            Column::Popularity => "popularity",
            Column::ReleaseDate => "release_date",
            Column::Revenue => "revenue",
            Column::Title => "title",
            Column::VoteAverage => "vote_average",
            Column::VoteCount => "vote_count",
        }
    }

    pub fn kind(&self) -> (kind: Kind)
        ensures
            kind == self.spec_kind(),
    {
        match self {
            Column::Budget | Column::Id | Column::Revenue | Column::VoteCount => Kind::Integer,
            Column::Popularity | Column::VoteAverage => Kind::Real,
            Column::Genres | Column::Keywords | Column::Overview | Column::ReleaseDate
            | Column::Title => Kind::Text,
        }
    }

    pub fn is_mutable(&self) -> (mutable: bool)
        ensures
            mutable == self.spec_is_mutable(),
    {
        match self {
            Column::Id => false,
            _ => true,
        }
    }

    pub fn all() -> (columns: Vec<Column>)
        ensures
            columns@ == Column::spec_all(),
    {
        let columns = vec![
            Column::Budget,
            Column::Genres,
            Column::Id,
            Column::Keywords,
            Column::Overview,
            Column::Popularity,
            Column::ReleaseDate,
            Column::Revenue,
            Column::Title,
            Column::VoteAverage,
            Column::VoteCount,
        ];
        assert(columns@ =~= Column::spec_all());
        columns
    }
}

/// A value bound to a parameter of a command.
#[derive(Clone, Debug, PartialEq)]
pub enum Value {
    Integer(i64),
    Real(Real),
    Text(String),
}

/// The mathematical value of a [`Value`].
pub enum ValueView {
    Integer(i64),
    Real(Real),
    Text(Seq<char>),
}

impl ValueView {
    pub open spec fn kind(self) -> Kind {
        match self {
            ValueView::Integer(_) => Kind::Integer,
            ValueView::Real(_) => Kind::Real,
            ValueView::Text(_) => Kind::Text,
        }
    }
}

impl View for Value {
    type V = ValueView;

    open spec fn view(&self) -> ValueView {
        match self {
            Value::Integer(v) => ValueView::Integer(*v),
            Value::Real(v) => ValueView::Real(*v),
            Value::Text(v) => ValueView::Text(v@),
        }
    }
}

impl Value {
    /// A copy with the same mathematical value.
    pub fn duplicate(&self) -> (copy: Value)
        ensures
            copy@ == self@,
    {
        match self {
            Value::Integer(v) => Value::Integer(*v),
            Value::Real(v) => Value::Real(*v),
            Value::Text(v) => Value::Text(v.clone()),
        }
    }

    pub fn kind(&self) -> (kind: Kind)
        ensures
            kind == self@.kind(),
    {
        match self {
            Value::Integer(_) => Kind::Integer,
            Value::Real(_) => Kind::Real,
            Value::Text(_) => Kind::Text,
        }
    }
}

/// The views of a sequence of values, in the same order.
pub open spec fn value_views(values: Seq<Value>) -> Seq<ValueView> {
    values.map_values(|v: Value| v@)
}

/// One `column = value` of an update.
#[derive(Clone, Debug, PartialEq)]
pub struct Assignment {
    pub column: Column,
    pub value: Value,
}

/// The mathematical value of an [`Assignment`].
pub struct AssignmentView {
    pub column: Column,
    pub value: ValueView,
}

impl View for Assignment {
    type V = AssignmentView;

    open spec fn view(&self) -> AssignmentView {
        AssignmentView { column: self.column, value: self.value@ }
    }
}

impl AssignmentView {
    /// An assignment is allowed when its column is mutable and its value
    /// is of the column's kind.
    pub open spec fn allowed(self) -> bool {
        self.column.spec_is_mutable() && self.value.kind() == self.column.spec_kind()
    }

    /// The record after the assignment. One that is not allowed changes
    /// nothing.
    pub open spec fn apply(self, movie: MovieView) -> MovieView {
        match (self.column, self.value) {
            (Column::Budget, ValueView::Integer(v)) => MovieView { budget: v, ..movie },
            (Column::Revenue, ValueView::Integer(v)) => MovieView { revenue: v, ..movie },
            (Column::VoteCount, ValueView::Integer(v)) => MovieView { vote_count: v, ..movie },
            (Column::Popularity, ValueView::Real(v)) => MovieView { popularity: v, ..movie },
            (Column::VoteAverage, ValueView::Real(v)) => MovieView { vote_average: v, ..movie },
            (Column::Genres, ValueView::Text(v)) => MovieView { genres: v, ..movie },
            (Column::Title, ValueView::Text(v)) => MovieView { title: v, ..movie },
            (Column::Keywords, ValueView::Text(v)) => MovieView { keywords: v, ..movie },
            (Column::Overview, ValueView::Text(v)) => MovieView { overview: v, ..movie },
            (Column::ReleaseDate, ValueView::Text(v)) => MovieView { release_date: v, ..movie },
            _ => movie,
        }
    }
}

/// The views of a sequence of assignments, in the same order.
pub open spec fn assignment_views(assignments: Seq<Assignment>) -> Seq<AssignmentView> {
    assignments.map_values(|a: Assignment| a@)
}

/// The columns that a sequence of assignments names, in the same order.
pub open spec fn assigned_columns(assignments: Seq<AssignmentView>) -> Seq<Column> {
    assignments.map_values(|a: AssignmentView| a.column)
}

/// Whether every assignment of the sequence is allowed.
pub open spec fn all_allowed(assignments: Seq<AssignmentView>) -> bool {
    forall|i: int| 0 <= i < assignments.len() ==> (#[trigger] assignments[i]).allowed()
}

/// The record after the assignments were applied from first to last.
pub open spec fn apply_all(assignments: Seq<AssignmentView>, movie: MovieView) -> MovieView
    decreases assignments.len(),
{
    if assignments.len() == 0 {
        movie
    } else {
        assignments.last().apply(apply_all(assignments.drop_last(), movie))
    }
}

/// The values of a record, one for each column and in the columns' order.
pub open spec fn values_of(movie: MovieView) -> Seq<ValueView> {
    seq![
        ValueView::Integer(movie.budget),
        ValueView::Text(movie.genres),
        ValueView::Integer(movie.id),
        ValueView::Text(movie.keywords),
        ValueView::Text(movie.overview),
        ValueView::Real(movie.popularity),
        ValueView::Text(movie.release_date),
        ValueView::Integer(movie.revenue),
        ValueView::Text(movie.title),
        ValueView::Real(movie.vote_average),
        ValueView::Integer(movie.vote_count),
    ]
}

/// Whether the values make a full record under the columns: every column
/// is there once, in order, with a value of its kind.
pub open spec fn is_record(columns: Seq<Column>, values: Seq<ValueView>) -> bool {
    &&& columns == Column::spec_all()
    &&& values.len() == columns.len()
    &&& forall|i: int|
        0 <= i < columns.len() ==> (#[trigger] values[i]).kind() == columns[i].spec_kind()
}

/// The record that the values of a full record stand for.
pub open spec fn record_of(values: Seq<ValueView>) -> MovieView
    recommends
        is_record(Column::spec_all(), values),
{
    MovieView {
        budget: values[0]->Integer_0,
        genres: values[1]->Text_0,
        id: values[2]->Integer_0,
        keywords: values[3]->Text_0,
        overview: values[4]->Text_0,
        popularity: values[5]->Real_0,
        release_date: values[6]->Text_0,
        revenue: values[7]->Integer_0,
        title: values[8]->Text_0,
        vote_average: values[9]->Real_0,
        vote_count: values[10]->Integer_0,
    }
}

/// The assignments of a sparse update: one for each field that is
/// present, in the columns' order.
pub open spec fn assignments_of(partial: PartialMovieView) -> Seq<AssignmentView> {
    integer_assignment(Column::Budget, partial.budget)
        + text_assignment(Column::Genres, partial.genres)
        + text_assignment(Column::Keywords, partial.keywords)
        + text_assignment(Column::Overview, partial.overview)
        + real_assignment(Column::Popularity, partial.popularity)
        + text_assignment(Column::ReleaseDate, partial.release_date)
        + integer_assignment(Column::Revenue, partial.revenue)
        + text_assignment(Column::Title, partial.title)
        + real_assignment(Column::VoteAverage, partial.vote_average)
        + integer_assignment(Column::VoteCount, partial.vote_count)
}

/// No assignment for an absent field, one for a present integer.
pub open spec fn integer_assignment(column: Column, field: Option<i64>) -> Seq<AssignmentView> {
    match field {
        Some(v) => seq![AssignmentView { column, value: ValueView::Integer(v) }],
        None => Seq::empty(),
    }
}

/// No assignment for an absent field, one for a present number.
pub open spec fn real_assignment(column: Column, field: Option<Real>) -> Seq<AssignmentView> {
    match field {
        Some(v) => seq![AssignmentView { column, value: ValueView::Real(v) }],
        None => Seq::empty(),
    }
}

/// No assignment for an absent field, one for a present text.
pub open spec fn text_assignment(column: Column, field: Option<Seq<char>>) -> Seq<
    AssignmentView,
> {
    match field {
        Some(v) => seq![AssignmentView { column, value: ValueView::Text(v) }],
        None => Seq::empty(),
    }
}

impl Movie {
    /// The record's values, one for each column and in the columns' order.
    pub fn values(&self) -> (values: Vec<Value>)
        ensures
            value_views(values@) == values_of(self@),
            is_record(Column::spec_all(), values_of(self@)),
    {
        let values = vec![
            Value::Integer(self.budget),
            Value::Text(self.genres.clone()),
            Value::Integer(self.id),
            Value::Text(self.keywords.clone()),
            Value::Text(self.overview.clone()),
            Value::Real(self.popularity),
            Value::Text(self.release_date.clone()),
            Value::Integer(self.revenue),
            Value::Text(self.title.clone()),
            Value::Real(self.vote_average),
            Value::Integer(self.vote_count),
        ];
        assert(value_views(values@) =~= values_of(self@));
        values
    }
}

impl PartialMovie {
    /// The assignments of the update: one for each field that is present,
    /// in the columns' order. All of them are allowed.
    pub fn assignments(&self) -> (assignments: Vec<Assignment>)
        ensures
            assignment_views(assignments@) == assignments_of(self@),
            all_allowed(assignments_of(self@)),
    {
        let mut out: Vec<Assignment> = Vec::new();
        push_integer(&mut out, Column::Budget, &self.budget);
        assert(assignment_views(out@) =~= integer_assignment(Column::Budget, self.budget));
        push_text(&mut out, Column::Genres, &self.genres);
        push_text(&mut out, Column::Keywords, &self.keywords);
        push_text(&mut out, Column::Overview, &self.overview);
        push_real(&mut out, Column::Popularity, &self.popularity);
        push_text(&mut out, Column::ReleaseDate, &self.release_date);
        push_integer(&mut out, Column::Revenue, &self.revenue);
        push_text(&mut out, Column::Title, &self.title);
        push_real(&mut out, Column::VoteAverage, &self.vote_average);
        push_integer(&mut out, Column::VoteCount, &self.vote_count);
        proof {
            lemma_assignments_allowed(self@);
        }
        out
    }
}

/// Two sequences of allowed assignments make one when joined.
proof fn lemma_allowed_concat(a: Seq<AssignmentView>, b: Seq<AssignmentView>)
    requires
        all_allowed(a),
        all_allowed(b),
    ensures
        all_allowed(a + b),
{
    assert forall|i: int| 0 <= i < (a + b).len() implies (#[trigger] (a + b)[i]).allowed() by {
        if i < a.len() {
            assert((a + b)[i] == a[i]);
        } else {
            assert((a + b)[i] == b[i - a.len()]);
        }
    }
}

/// Every assignment that a sparse update yields is allowed.
pub proof fn lemma_assignments_allowed(partial: PartialMovieView)
    ensures
        all_allowed(assignments_of(partial)),
{
    let s0 = integer_assignment(Column::Budget, partial.budget);
    let s1 = s0 + text_assignment(Column::Genres, partial.genres);
    let s2 = s1 + text_assignment(Column::Keywords, partial.keywords);
    let s3 = s2 + text_assignment(Column::Overview, partial.overview);
    let s4 = s3 + real_assignment(Column::Popularity, partial.popularity);
    let s5 = s4 + text_assignment(Column::ReleaseDate, partial.release_date);
    let s6 = s5 + integer_assignment(Column::Revenue, partial.revenue);
    let s7 = s6 + text_assignment(Column::Title, partial.title);
    let s8 = s7 + real_assignment(Column::VoteAverage, partial.vote_average);
    lemma_allowed_concat(s0, text_assignment(Column::Genres, partial.genres));
    lemma_allowed_concat(s1, text_assignment(Column::Keywords, partial.keywords));
    lemma_allowed_concat(s2, text_assignment(Column::Overview, partial.overview));
    lemma_allowed_concat(s3, real_assignment(Column::Popularity, partial.popularity));
    lemma_allowed_concat(s4, text_assignment(Column::ReleaseDate, partial.release_date));
    lemma_allowed_concat(s5, integer_assignment(Column::Revenue, partial.revenue));
    lemma_allowed_concat(s6, text_assignment(Column::Title, partial.title));
    lemma_allowed_concat(s7, real_assignment(Column::VoteAverage, partial.vote_average));
    lemma_allowed_concat(s8, integer_assignment(Column::VoteCount, partial.vote_count));
}

fn push_integer(out: &mut Vec<Assignment>, column: Column, field: &Option<i64>)
    ensures
        assignment_views(final(out)@) == assignment_views(old(out)@) + integer_assignment(
            column,
            *field,
        ),
{
    if let Some(v) = field {
        out.push(Assignment { column, value: Value::Integer(*v) });
    }
    assert(assignment_views(out@) =~= assignment_views(old(out)@) + integer_assignment(
        column,
        *field,
    ));
}

fn push_real(out: &mut Vec<Assignment>, column: Column, field: &Option<Real>)
    ensures
        assignment_views(final(out)@) == assignment_views(old(out)@) + real_assignment(
            column,
            *field,
        ),
{
    if let Some(v) = field {
        out.push(Assignment { column, value: Value::Real(*v) });
    }
    assert(assignment_views(out@) =~= assignment_views(old(out)@) + real_assignment(
        column,
        *field,
    ));
}

fn push_text(out: &mut Vec<Assignment>, column: Column, field: &Option<String>)
    ensures
        assignment_views(final(out)@) == assignment_views(old(out)@) + text_assignment(
            column,
            crate::schema::text_view(*field),
        ),
{
    if let Some(v) = field {
        out.push(Assignment { column, value: Value::Text(v.clone()) });
    }
    assert(assignment_views(out@) =~= assignment_views(old(out)@) + text_assignment(
        column,
        crate::schema::text_view(*field),
    ));
}

} // verus!
