//! The endpoints of the service, as decisions.
//!
//! An endpoint that needs the store is in two parts. The first takes what
//! the request holds and says what to do next: answer at once, or ask the
//! store. The second takes what the store gave back and makes the answer.
//! Executing a command is the caller's part.

use crate::column::{
    all_allowed, assignment_views, assignments_of, is_record, value_views, values_of, Assignment,
    Column, Value,
};
use crate::command::{Command, CommandView};
use crate::response::{Response, ResponseView, ServiceError, ServiceErrorView};
use crate::schema::{movie_views, Movie, MovieView, PartialMovie, PartialMovieView};
use crate::search::{query, ranks, spec_top, SearchEngine};
use vstd::prelude::*;

verus! {

/// What an endpoint on one command does next.
#[derive(Clone, Debug, PartialEq)]
pub enum Step {
    /// Answer at once; the store is not touched.
    Reply(Response),
    /// Execute the command, then hand its outcome to the endpoint's
    /// second part.
    Ask(Command),
}

/// The mathematical value of a [`Step`].
pub enum StepView {
    Reply(ResponseView),
    Ask(CommandView),
}

impl View for Step {
    type V = StepView;

    open spec fn view(&self) -> StepView {
        match self {
            Step::Reply(response) => StepView::Reply(response@),
            Step::Ask(command) => StepView::Ask(command@),
        }
    }
}

/// What a search does next.
#[derive(Clone, Debug, PartialEq)]
pub enum Fanout {
    /// Answer at once; the store is not touched.
    Reply(Response),
    /// Execute the commands independently of each other, wait for all of
    /// them, then hand the outcomes over in the commands' order.
    AskEach(Vec<Command>),
}

/// The mathematical value of a [`Fanout`].
pub enum FanoutView {
    Reply(ResponseView),
    AskEach(Seq<CommandView>),
}

/// The views of a sequence of commands, in the same order.
pub open spec fn command_views(commands: Seq<Command>) -> Seq<CommandView> {
    commands.map_values(|c: Command| c@)
}

impl View for Fanout {
    type V = FanoutView;

    open spec fn view(&self) -> FanoutView {
        match self {
            Fanout::Reply(response) => FanoutView::Reply(response@),
            Fanout::AskEach(commands) => FanoutView::AskEach(command_views(commands@)),
        }
    }
}

/// The failure for a payload that is no record or no update.
pub open spec fn invalid_payload() -> ServiceErrorView {
    ServiceErrorView::Validation("Invalid payload values."@)
}

/// The failure for a range whose start lies after its end.
pub open spec fn invalid_range() -> ServiceErrorView {
    ServiceErrorView::Validation("Invalid range."@)
}

/// The insert that adds the record with all its fields.
pub open spec fn insert_of(movie: MovieView) -> CommandView {
    CommandView::Insert { columns: Column::spec_all(), values: values_of(movie) }
}

/// The update that a sparse update makes for the identifier.
pub open spec fn update_of(id: i64, partial: PartialMovieView) -> CommandView {
    CommandView::Update { id, assignments: assignments_of(partial) }
}

/// The read of the rows at the positions `[from, to)`.
pub open spec fn range_of(from: int, to: int) -> CommandView {
    CommandView::ReadRange {
        offset: range_offset(from) as i64,
        count: range_count(from, to) as i64,
    }
}

/// The answer to a health check: 200 without a body.
pub fn health_check() -> (response: Response)
    ensures
        response@ == Response::spec_ok(),
{
    Response::ok()
}

/// The command that adds a row: accepted exactly when the values make a
/// full record under the fields, and then it binds these values to these
/// fields. Anything else is a validation failure.
pub fn insert(fields: Vec<Column>, values: Vec<Value>) -> (command: Result<Command, ServiceError>)
    ensures
        match command {
            Ok(c) => is_record(fields@, value_views(values@)) && c@ == (CommandView::Insert {
                columns: fields@,
                values: value_views(values@),
            }),
            Err(e) => !is_record(fields@, value_views(values@)) && e@ == invalid_payload(),
        },
{
    let all = Column::all();
    let mut valid = fields.len() == all.len() && values.len() == all.len();
    let mut i: usize = 0;
    while valid && i < all.len()
        invariant
            all@ == Column::spec_all(),
            i <= all.len(),
            valid ==> fields.len() == all.len() && values.len() == all.len(),
            valid ==> forall|j: int| 0 <= j < i ==> #[trigger] fields@[j] == all@[j],
            valid ==> forall|j: int|
                0 <= j < i ==> (#[trigger] values@[j])@.kind() == all@[j].spec_kind(),
            !valid ==> !is_record(fields@, value_views(values@)),
        decreases all.len() - i, valid as int,
    {
        if fields[i] != all[i] || values[i].kind() != all[i].kind() {
            valid = false;
            proof {
                let views = value_views(values@);
                if fields@ == Column::spec_all() {
                    assert(views[i as int] == values@[i as int]@);
                    assert(views[i as int].kind() != fields@[i as int].spec_kind());
                }
            }
        } else {
            i += 1;
        }
    }
    if valid {
        proof {
            let views = value_views(values@);
            assert(fields@ =~= Column::spec_all());
            assert forall|j: int| 0 <= j < fields@.len() implies (#[trigger] views[j]).kind()
                == fields@[j].spec_kind() by {
                assert(views[j] == values@[j]@);
            }
        }
        Ok(Command::Insert { columns: fields, values })
    } else {
        Err(ServiceError::Validation(String::from_str("Invalid payload values.")))
    }
}

/// The command that updates the row with the identifier: accepted exactly
/// when every assignment is allowed, that is, names a mutable column and
/// binds a value of the column's kind. An empty list is accepted: the
/// store gets an update that changes nothing.
pub fn update(assignments: Vec<Assignment>, id: i32) -> (command: Result<Command, ServiceError>)
    ensures
        match command {
            Ok(c) => all_allowed(assignment_views(assignments@)) && c@ == (CommandView::Update {
                id: id as i64,
                assignments: assignment_views(assignments@),
            }),
            Err(e) => !all_allowed(assignment_views(assignments@)) && e@ == invalid_payload(),
        },
{
    let mut i: usize = 0;
    while i < assignments.len()
        invariant
            i <= assignments.len(),
            forall|j: int| 0 <= j < i ==> (#[trigger] assignment_views(assignments@)[j]).allowed(),
        decreases assignments.len() - i,
    {
        let a = &assignments[i];
        assert(assignment_views(assignments@)[i as int] == a@);
        if !a.column.is_mutable() || a.value.kind() != a.column.kind() {
            return Err(ServiceError::Validation(String::from_str("Invalid payload values.")));
        }
        i += 1;
    }
    Ok(Command::Update { id: id as i64, assignments })
}

/// The command that removes the row with the identifier.
pub fn delete(id: i32) -> (command: Command)
    ensures
        command@ == (CommandView::Delete { id: id as i64 }),
{
    Command::Delete { id: id as i64 }
}

/// The command that reads the row with the identifier.
pub fn read(id: i32) -> (command: Command)
    ensures
        command@ == (CommandView::Read { id: id as i64 }),
{
    Command::Read { id: id as i64 }
}

/// The number of rows to skip for a range that starts at `from`.
pub open spec fn range_offset(from: int) -> int {
    if from < 0 {
        0
    } else {
        from
    }
}

/// The number of rows to read for the range `[from, to)`.
pub open spec fn range_count(from: int, to: int) -> int {
    if range_offset(to) <= range_offset(from) {
        0
    } else {
        range_offset(to) - range_offset(from)
    }
}

/// The command that reads the rows at the positions `[from, to)` of the
/// store's order: it skips `from` rows and reads `to - from`. Positions
/// below zero count as zero.
pub fn read_from_to(from: i32, to: i32) -> (command: Command)
    ensures
        command@ == range_of(from as int, to as int),
{
    let offset: i64 = if from < 0 {
        0
    } else {
        from as i64
    };
    let end: i64 = if to < 0 {
        0
    } else {
        to as i64
    };
    let count: i64 = if end <= offset {
        0
    } else {
        end - offset
    };
    Command::ReadRange { offset, count }
}

/// The first part of adding a record. `None` stands for a payload that
/// could not be read as a record: it is answered with 400. A record is
/// sent to the store with all its fields.
pub fn add(details: Option<Movie>) -> (step: Step)
    ensures
        step@ == (match details {
            Some(movie) => StepView::Ask(insert_of(movie@)),
            None => StepView::Reply(invalid_payload().response()),
        }),
{
    match details {
        Some(movie) => {
            match insert(Column::all(), movie.values()) {
                Ok(command) => Step::Ask(command),
                Err(failure) => Step::Reply(failure.response()),
            }
        },
        None => {
            let failure = ServiceError::Validation(String::from_str("Invalid payload values."));
            Step::Reply(failure.response())
        },
    }
}

/// The second part of adding a record: 200 where the store took it, 500
/// with the store's message where it did not.
pub fn added(outcome: Result<(), String>) -> (response: Response)
    ensures
        response@ == (match outcome {
            Ok(_) => Response::spec_ok(),
            Err(message) => ServiceErrorView::Store(message@).response(),
        }),
{
    match outcome {
        Ok(_) => Response::ok(),
        Err(message) => ServiceError::Store(message).response(),
    }
}

/// The first part of removing a record: the store is asked to remove it.
pub fn delete_movie(id: i32) -> (step: Step)
    ensures
        step@ == StepView::Ask(CommandView::Delete { id: id as i64 }),
{
    Step::Ask(delete(id))
}

/// The second part of removing a record: 200 where the store did so, 404
/// with the store's message where it failed.
pub fn deleted(outcome: Result<(), String>) -> (response: Response)
    ensures
        response@ == (match outcome {
            Ok(_) => Response::spec_ok(),
            Err(message) => ServiceErrorView::NotFound(message@).response(),
        }),
{
    match outcome {
        Ok(_) => Response::ok(),
        Err(message) => ServiceError::NotFound(message).response(),
    }
}

/// The first part of reading a range. A range whose start lies after its
/// end is answered with 400 and the store is not touched; any other is
/// read from the store.
pub fn fetch_from_to(from: i32, to: i32) -> (step: Step)
    ensures
        step@ == (if from > to {
            StepView::Reply(invalid_range().response())
        } else {
            StepView::Ask(range_of(from as int, to as int))
        }),
{
    if from > to {
        let failure = ServiceError::Validation(String::from_str("Invalid range."));
        Step::Reply(failure.response())
    } else {
        Step::Ask(read_from_to(from, to))
    }
}

/// The second part of reading a range: 200 with the rows in the store's
/// order, or 404 with the store's message where the read failed.
pub fn fetched_from_to(outcome: Result<Vec<Movie>, String>) -> (response: Response)
    ensures
        response@ == (match outcome {
            Ok(movies) => Response::spec_records(movie_views(movies@)),
            Err(message) => ServiceErrorView::NotFound(message@).response(),
        }),
{
    match outcome {
        Ok(movies) => Response::records(movies),
        Err(message) => ServiceError::NotFound(message).response(),
    }
}

/// The first part of reading a record: the store is asked for it.
pub fn fetch(id: i32) -> (step: Step)
    ensures
        step@ == StepView::Ask(CommandView::Read { id: id as i64 }),
{
    Step::Ask(read(id))
}

/// The second part of reading a record: 200 with the record, or 404 with
/// the store's message where there is none or the read failed.
pub fn fetched(outcome: Result<Movie, String>) -> (response: Response)
    ensures
        response@ == (match outcome {
            Ok(movie) => Response::spec_record(movie@),
            Err(message) => ServiceErrorView::NotFound(message@).response(),
        }),
{
    match outcome {
        Ok(movie) => Response::record(movie),
        Err(message) => ServiceError::NotFound(message).response(),
    }
}

/// The first part of updating a record. `None` stands for a payload that
/// could not be read as an update: it is answered with 400. An update is
/// sent to the store with one assignment for each field that is present,
/// also where none is.
pub fn modify(id: i32, details: Option<PartialMovie>) -> (step: Step)
    ensures
        step@ == (match details {
            Some(partial) => StepView::Ask(update_of(id as i64, partial@)),
            None => StepView::Reply(invalid_payload().response()),
        }),
{
    match details {
        Some(partial) => {
            match update(partial.assignments(), id) {
                Ok(command) => Step::Ask(command),
                Err(failure) => Step::Reply(failure.response()),
            }
        },
        None => {
            let failure = ServiceError::Validation(String::from_str("Invalid payload values."));
            Step::Reply(failure.response())
        },
    }
}

/// The second part of updating a record: 200 where the store took the
/// update, 500 with the store's message where it did not.
pub fn modified(outcome: Result<(), String>) -> (response: Response)
    ensures
        response@ == (match outcome {
            Ok(_) => Response::spec_ok(),
            Err(message) => ServiceErrorView::Store(message@).response(),
        }),
{
    match outcome {
        Ok(_) => Response::ok(),
        Err(message) => ServiceError::Store(message).response(),
    }
}

/// The reads that resolve ranked identifiers: one for each, in order.
pub open spec fn reads(ids: Seq<i64>) -> Seq<CommandView> {
    ids.map_values(|id: i64| CommandView::Read { id })
}

/// What a search does with the ranked identifiers: without any, it
/// answers at once with no records; else it asks for each record.
pub open spec fn spec_lookups(ids: Seq<i64>) -> FanoutView {
    if ids.len() == 0 {
        FanoutView::Reply(Response::spec_records(Seq::empty()))
    } else {
        FanoutView::AskEach(reads(ids))
    }
}

/// The step that resolves ranked identifiers to records: one independent
/// read for each, in rank order. Without identifiers the answer is given
/// at once, with no records and no read.
pub fn lookups(ids: Vec<i64>) -> (step: Fanout)
    ensures
        step@ == spec_lookups(ids@),
{
    if ids.len() == 0 {
        let none: Vec<Movie> = Vec::new();
        assert(movie_views(none@) =~= Seq::<MovieView>::empty());
        return Fanout::Reply(Response::records(none));
    }
    let mut commands: Vec<Command> = Vec::new();
    let mut i: usize = 0;
    while i < ids.len()
        invariant
            i <= ids.len(),
            commands@.len() == i,
            forall|j: int|
                0 <= j < i ==> (#[trigger] commands@[j])@ == (CommandView::Read { id: ids@[j] }),
        decreases ids.len() - i,
    {
        commands.push(Command::Read { id: ids[i] });
        i += 1;
    }
    assert(command_views(commands@) =~= reads(ids@));
    Fanout::AskEach(commands)
}

/// The first part of a search: [`lookups`] of the best `n` identifiers of
/// a ranking of the index for the text. A ranking holds exactly the
/// identifiers that the search finds, each once, with entries of the
/// same tokens in the order of insertion. With an empty text or an `n`
/// of zero or less no identifier is left, and the answer is given at
/// once.
pub fn search(engine: &SearchEngine, text: &str, n: i32) -> (step: Fanout)
    ensures
        exists|all: Seq<i64>|
            #[trigger] ranks(engine.entries(), text@, all) && step@ == spec_lookups(
                spec_top(all, n as int),
            ),
        n <= 0 || text@.len() == 0 ==> step@ == spec_lookups(Seq::empty()),
{
    let ids = query(engine, text, n);
    let ghost all = choose|all: Seq<i64>|
        #[trigger] ranks(engine.entries(), text@, all) && ids@ == spec_top(all, n as int);
    let step = lookups(ids);
    assert(ranks(engine.entries(), text@, all) && step@ == spec_lookups(spec_top(all, n as int)));
    step
}

/// The command that reads every record, for the scan that the index is
/// built from.
pub fn scan() -> (command: Command)
    ensures
        command@ == CommandView::ReadAll,
{
    Command::ReadAll
}

/// The seconds that one lookup of a search may take.
pub open spec fn spec_lookup_seconds() -> u64 {
    5
}

/// The bound on one lookup of a search, in seconds. A lookup that takes
/// longer is given up.
pub fn lookup_seconds() -> (seconds: u64)
    ensures
        seconds == spec_lookup_seconds(),
{
    5
}

/// The outcome of one lookup of a search, given its answer, or `None`
/// where it did not answer within the bound: a lookup that was given up
/// has failed, like one that found nothing.
pub fn lookup_outcome(answer: Option<Result<Movie, String>>) -> (outcome: Result<Movie, String>)
    ensures
        match answer {
            Some(result) => outcome == result,
            None => outcome is Err && outcome->Err_0@ == "lookup timed out"@,
        },
{
    match answer {
        Some(result) => result,
        None => Err(String::from_str("lookup timed out")),
    }
}

/// What a lookup found: the record, or nothing where it failed.
pub open spec fn found(outcome: Result<Movie, String>) -> Option<MovieView> {
    match outcome {
        Ok(movie) => Some(movie@),
        Err(_) => None,
    }
}

/// What the lookups found, in the same order.
pub open spec fn all_found(outcomes: Seq<Result<Movie, String>>) -> Seq<Option<MovieView>> {
    outcomes.map_values(|outcome: Result<Movie, String>| found(outcome))
}

/// The records among the lookups' results, in the same order; a lookup
/// that found nothing leaves no trace.
pub open spec fn hydrated(results: Seq<Option<MovieView>>) -> Seq<MovieView>
    decreases results.len(),
{
    if results.len() == 0 {
        Seq::empty()
    } else {
        match results.last() {
            Some(movie) => hydrated(results.drop_last()).push(movie),
            None => hydrated(results.drop_last()),
        }
    }
}

/// Collects the records of the lookups that succeeded, in the order of
/// the lookups, which is the rank order. A failed lookup is left out and
/// is no error.
pub fn hydrate(outcomes: Vec<Result<Movie, String>>) -> (movies: Vec<Movie>)
    ensures
        movie_views(movies@) == hydrated(all_found(outcomes@)),
{
    let ghost all = outcomes@;
    let mut movies: Vec<Movie> = Vec::new();
    assert(all_found(all).take(0) =~= Seq::<Option<MovieView>>::empty());
    assert(movie_views(movies@) =~= Seq::<MovieView>::empty());
    for outcome in it: outcomes
        invariant
            it.seq() == all,
            movie_views(movies@) == hydrated(all_found(all).take(it.index() as int)),
    {
        let ghost before = movie_views(movies@);
        proof {
            let k = it.index() as int;
            let next = all_found(all).take(k + 1);
            assert(next.drop_last() =~= all_found(all).take(k));
            assert(next.last() == found(all[k]));
        }
        if let Ok(movie) = outcome {
            movies.push(movie);
            assert(movie_views(movies@) =~= before.push(movie@));
        }
    }
    assert(all_found(all).take(all.len() as int) =~= all_found(all));
    movies
}

/// The second part of a search: 200 with the records that the lookups
/// found, in rank order.
pub fn searched(outcomes: Vec<Result<Movie, String>>) -> (response: Response)
    ensures
        response@ == Response::spec_records(hydrated(all_found(outcomes@))),
{
    Response::records(hydrate(outcomes))
}

} // verus!
