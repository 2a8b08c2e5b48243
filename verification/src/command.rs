//! Commands for the store: a text with placeholders and the values bound
//! to them.
//!
//! A command text is made of fixed words, column names and `?` marks. No
//! value ever enters the text: every value travels as a bound parameter.

use crate::column::{
    assigned_columns, assignment_views, value_views, Assignment, AssignmentView, Column, Value,
    ValueView,
};
use vstd::prelude::*;

verus! {

/// A command for the store.
#[derive(Clone, Debug, PartialEq)]
pub enum Command {
    /// Add the row that the values make under the columns.
    Insert { columns: Vec<Column>, values: Vec<Value> },
    /// Apply the assignments to the row with the identifier.
    Update { id: i64, assignments: Vec<Assignment> },
    /// Remove the row with the identifier.
    Delete { id: i64 },
    /// Read the row with the identifier.
    Read { id: i64 },
    /// Read up to `count` rows in the store's order, after skipping
    /// `offset` of them.
    ReadRange { offset: i64, count: i64 },
    /// Read every row in the store's order.
    ReadAll,
}

/// The mathematical value of a [`Command`].
pub enum CommandView {
    Insert { columns: Seq<Column>, values: Seq<ValueView> },
    Update { id: i64, assignments: Seq<AssignmentView> },
    Delete { id: i64 },
    Read { id: i64 },
    ReadRange { offset: i64, count: i64 },
    ReadAll,
}

impl View for Command {
    type V = CommandView;

    open spec fn view(&self) -> CommandView {
        match self {
            Command::Insert { columns, values } => CommandView::Insert {
                columns: columns@,
                values: value_views(values@),
            },
            Command::Update { id, assignments } => CommandView::Update {
                id: *id,
                assignments: assignment_views(assignments@),
            },
            Command::Delete { id } => CommandView::Delete { id: *id },
            Command::Read { id } => CommandView::Read { id: *id },
            Command::ReadRange { offset, count } => CommandView::ReadRange {
                offset: *offset,
                count: *count,
            },
            Command::ReadAll => CommandView::ReadAll,
        }
    }
}

/// The columns' names, each followed by the suffix, separated by `", "`.
pub open spec fn column_list(columns: Seq<Column>, suffix: Seq<char>) -> Seq<char>
    decreases columns.len(),
{
    if columns.len() == 0 {
        Seq::empty()
    } else if columns.len() == 1 {
        columns[0].spec_name() + suffix
    } else {
        column_list(columns.drop_last(), suffix) + ", "@ + columns.last().spec_name() + suffix
    }
}

/// `n` placeholders, separated by `", "`.
pub open spec fn marks(n: nat) -> Seq<char>
    decreases n,
{
    if n == 0 {
        Seq::empty()
    } else if n == 1 {
        "?"@
    } else {
        marks((n - 1) as nat) + ", ?"@
    }
}

/// The values of the assignments, in the same order.
pub open spec fn assigned_values(assignments: Seq<AssignmentView>) -> Seq<ValueView> {
    assignments.map_values(|a: AssignmentView| a.value)
}

impl CommandView {
    /// The command's text. An update without assignments sets the
    /// identifier to itself, which changes no row.
    pub open spec fn text(self) -> Seq<char> {
        match self {
            CommandView::Insert { columns, values } => "INSERT INTO movies ("@ + column_list(
                columns,
                ""@,
            ) + ") VALUES ("@ + marks(columns.len()) + ")"@,
            CommandView::Update { id, assignments } => if assignments.len() == 0 {
                "UPDATE movies SET id = id WHERE id = ?"@
            } else {
                "UPDATE movies SET "@ + column_list(assigned_columns(assignments), " = ?"@)
                    + " WHERE id = ?"@
            },
            CommandView::Delete { id } => "DELETE FROM movies WHERE id = ?"@,
            CommandView::Read { id } => "SELECT * FROM movies WHERE id = ?"@,
            CommandView::ReadRange { offset, count } => "SELECT * FROM movies LIMIT ?, ?"@,
            CommandView::ReadAll => "SELECT * FROM movies"@,
        }
    }

    /// The values bound to the placeholders of the text, in the order of
    /// the placeholders.
    pub open spec fn params(self) -> Seq<ValueView> {
        match self {
            CommandView::Insert { columns, values } => values,
            CommandView::Update { id, assignments } => assigned_values(assignments).push(
                ValueView::Integer(id),
            ),
            CommandView::Delete { id } => seq![ValueView::Integer(id)],
            CommandView::Read { id } => seq![ValueView::Integer(id)],
            CommandView::ReadRange { offset, count } => seq![
                ValueView::Integer(offset),
                ValueView::Integer(count),
            ],
            CommandView::ReadAll => Seq::empty(),
        }
    }
}

impl CommandView {
    /// The columns that the command's text names.
    pub open spec fn columns(self) -> Seq<Column> {
        match self {
            CommandView::Insert { columns, values } => columns,
            CommandView::Update { id, assignments } => assigned_columns(assignments),
            _ => Seq::empty(),
        }
    }

    /// Whether two commands are of one kind and name the same columns.
    pub open spec fn same_shape(self, other: CommandView) -> bool {
        &&& self.columns() == other.columns()
        &&& match self {
            CommandView::Insert { .. } => other is Insert,
            CommandView::Update { .. } => other is Update,
            CommandView::Delete { .. } => other is Delete,
            CommandView::Read { .. } => other is Read,
            CommandView::ReadRange { .. } => other is ReadRange,
            CommandView::ReadAll => other is ReadAll,
        }
    }
}

/// No value enters a command's text: two commands of one kind that name
/// the same columns have the same text, whatever they bind.
pub proof fn law_text_is_free_of_values(a: CommandView, b: CommandView)
    requires
        a.same_shape(b),
    ensures
        a.text() == b.text(),
{
    match (a, b) {
        (
            CommandView::Update { id: _, assignments: first },
            CommandView::Update { id: _, assignments: second },
        ) => {
            assert(assigned_columns(first).len() == first.len());
            assert(assigned_columns(second).len() == second.len());
        },
        _ => {},
    }
}

/// Writes the columns' names, each followed by the suffix, separated by
/// `", "`.
fn write_column_list(columns: &Vec<Column>, suffix: &str) -> (text: String)
    ensures
        text@ == column_list(columns@, suffix@),
{
    let mut text = String::new();
    let mut i: usize = 0;
    while i < columns.len()
        invariant
            i <= columns.len(),
            text@ == column_list(columns@.take(i as int), suffix@),
        decreases columns.len() - i,
    {
        let ghost before = text@;
        if i > 0 {
            text.append(", ");
        }
        text.append(columns[i].name());
        text.append(suffix);
        proof {
            let next = columns@.take(i + 1);
            assert(next.drop_last() =~= columns@.take(i as int));
            assert(next.last() == columns@[i as int]);
            if i == 0 {
                assert(text@ =~= columns@[0].spec_name() + suffix@);
            }
        }
        i += 1;
    }
    assert(columns@.take(columns.len() as int) =~= columns@);
    text
}

/// Writes `n` placeholders, separated by `", "`.
fn write_marks(n: usize) -> (text: String)
    ensures
        text@ == marks(n as nat),
{
    let mut text = String::new();
    let mut i: usize = 0;
    while i < n
        invariant
            i <= n,
            text@ == marks(i as nat),
        decreases n - i,
    {
        if i == 0 {
            text.append("?");
            assert(text@ =~= "?"@);
        } else {
            text.append(", ?");
        }
        i += 1;
    }
    text
}

/// The columns that the assignments name, in the same order.
fn columns_of(assignments: &Vec<Assignment>) -> (columns: Vec<Column>)
    ensures
        columns@ == assigned_columns(assignment_views(assignments@)),
{
    let mut columns: Vec<Column> = Vec::new();
    let mut i: usize = 0;
    while i < assignments.len()
        invariant
            i <= assignments.len(),
            columns@.len() == i,
            forall|j: int| 0 <= j < i ==> columns@[j] == (#[trigger] assignments@[j]).column,
        decreases assignments.len() - i,
    {
        columns.push(assignments[i].column);
        i += 1;
    }
    assert(columns@ =~= assigned_columns(assignment_views(assignments@)));
    columns
}

/// Copies of the values, in the same order.
fn copy_values(values: &Vec<Value>) -> (copies: Vec<Value>)
    ensures
        value_views(copies@) == value_views(values@),
{
    let mut copies: Vec<Value> = Vec::new();
    let mut i: usize = 0;
    while i < values.len()
        invariant
            i <= values.len(),
            copies@.len() == i,
            forall|j: int| 0 <= j < i ==> (#[trigger] copies@[j])@ == values@[j]@,
        decreases values.len() - i,
    {
        copies.push(values[i].duplicate());
        i += 1;
    }
    assert(value_views(copies@) =~= value_views(values@));
    copies
}

/// Copies of the assignments' values, in the same order.
fn copy_assigned(assignments: &Vec<Assignment>) -> (copies: Vec<Value>)
    ensures
        value_views(copies@) == assigned_values(assignment_views(assignments@)),
{
    let mut copies: Vec<Value> = Vec::new();
    let mut i: usize = 0;
    while i < assignments.len()
        invariant
            i <= assignments.len(),
            copies@.len() == i,
            forall|j: int| 0 <= j < i ==> (#[trigger] copies@[j])@ == assignments@[j].value@,
        decreases assignments.len() - i,
    {
        copies.push(assignments[i].value.duplicate());
        i += 1;
    }
    assert(value_views(copies@) =~= assigned_values(assignment_views(assignments@)));
    copies
}

impl Command {
    /// The command's text, with one `?` for each bound value.
    pub fn text(&self) -> (text: String)
        ensures
            text@ == self@.text(),
    {
        match self {
            Command::Insert { columns, values } => {
                let mut text = String::from_str("INSERT INTO movies (");
                let names = write_column_list(columns, "");
                text.append(names.as_str());
                text.append(") VALUES (");
                let places = write_marks(columns.len());
                text.append(places.as_str());
                text.append(")");
                text
            },
            Command::Update { id, assignments } => {
                if assignments.len() == 0 {
                    assert(assignment_views(assignments@).len() == 0);
                    String::from_str("UPDATE movies SET id = id WHERE id = ?")
                } else {
                    assert(assignment_views(assignments@).len() != 0);
                    let mut text = String::from_str("UPDATE movies SET ");
                    let columns = columns_of(assignments);
                    let sets = write_column_list(&columns, " = ?");
                    text.append(sets.as_str());
                    text.append(" WHERE id = ?");
                    text
                }
            },
            Command::Delete { id } => String::from_str("DELETE FROM movies WHERE id = ?"),
            Command::Read { id } => String::from_str("SELECT * FROM movies WHERE id = ?"),
            Command::ReadRange { offset, count } => String::from_str(
                "SELECT * FROM movies LIMIT ?, ?",
            ),
            Command::ReadAll => String::from_str("SELECT * FROM movies"),
        }
    }

    /// The values to bind to the placeholders of the text, in order.
    pub fn params(&self) -> (params: Vec<Value>)
        ensures
            value_views(params@) == self@.params(),
    {
        match self {
            Command::Insert { columns, values } => copy_values(values),
            Command::Update { id, assignments } => {
                let mut params = copy_assigned(assignments);
                params.push(Value::Integer(*id));
                assert(value_views(params@) =~= self@.params());
                params
            },
            Command::Delete { id } => {
                let params = vec![Value::Integer(*id)];
                assert(value_views(params@) =~= self@.params());
                params
            },
            Command::Read { id } => {
                let params = vec![Value::Integer(*id)];
                assert(value_views(params@) =~= self@.params());
                params
            },
            Command::ReadRange { offset, count } => {
                let params = vec![Value::Integer(*offset), Value::Integer(*count)];
                assert(value_views(params@) =~= self@.params());
                params
            },
            Command::ReadAll => {
                let params: Vec<Value> = Vec::new();
                assert(value_views(params@) =~= self@.params());
                params
            },
        }
    }
}

} // verus!
