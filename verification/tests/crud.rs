use server::column::{Assignment, Column, Value};
use server::command::Command;
use server::response::{Body, Response};
use server::routes::{
    add, added, delete_movie, deleted, fetch, fetch_from_to, fetched, fetched_from_to, lookups,
    modified, modify, scan, searched, Fanout, Step,
};
use server::schema::{Movie, PartialMovie, Real};

/// A store in memory that executes the service's commands: it reads the
/// command's kind, and takes every value from the bound parameters.
struct MemoryStore {
    rows: Vec<Movie>,
}

fn integer(value: &Value) -> i64 {
    match value {
        Value::Integer(v) => *v,
        other => panic!("expected an integer, got {:?}", other),
    }
}

fn number(value: &Value) -> Real {
    match value {
        Value::Real(v) => *v,
        other => panic!("expected a number, got {:?}", other),
    }
}

fn text(value: &Value) -> String {
    match value {
        Value::Text(v) => v.clone(),
        other => panic!("expected a text, got {:?}", other),
    }
}

fn set(row: &mut Movie, column: Column, value: &Value) {
    match column {
        Column::Budget => row.budget = integer(value),
        Column::Genres => row.genres = text(value),
        Column::Id => row.id = integer(value),
        Column::Keywords => row.keywords = text(value),
        Column::Overview => row.overview = text(value),
        Column::Popularity => row.popularity = number(value),
        Column::ReleaseDate => row.release_date = text(value),
        Column::Revenue => row.revenue = integer(value),
        Column::Title => row.title = text(value),
        Column::VoteAverage => row.vote_average = number(value),
        Column::VoteCount => row.vote_count = integer(value),
    }
}

fn blank() -> Movie {
    Movie {
        id: 0,
        budget: 0,
        revenue: 0,
        vote_count: 0,
        popularity: Real { bits: 0 },
        vote_average: Real { bits: 0 },
        genres: String::new(),
        title: String::new(),
        keywords: String::new(),
        overview: String::new(),
        release_date: String::new(),
    }
}

impl MemoryStore {
    fn with(rows: Vec<Movie>) -> MemoryStore {
        MemoryStore { rows }
    }

    fn execute(&mut self, command: &Command) -> Result<(), String> {
        let params = command.params();
        let marks = command.text().matches('?').count();
        assert_eq!(marks, params.len());
        match command {
            Command::Insert { columns, .. } => {
                let mut row = blank();
                for (column, value) in columns.iter().zip(params.iter()) {
                    set(&mut row, *column, value);
                }
                if self.rows.iter().any(|r| r.id == row.id) {
                    return Err(String::from("UNIQUE constraint failed: movies.id"));
                }
                self.rows.push(row);
                Ok(())
            }
            Command::Update { assignments, .. } => {
                let id = integer(&params[params.len() - 1]);
                for row in self.rows.iter_mut().filter(|r| r.id == id) {
                    for (assignment, value) in assignments.iter().zip(params.iter()) {
                        set(row, assignment.column, value);
                    }
                }
                Ok(())
            }
            Command::Delete { .. } => {
                let id = integer(&params[0]);
                self.rows.retain(|r| r.id != id);
                Ok(())
            }
            other => panic!("not a write: {:?}", other),
        }
    }

    fn fetch_one(&self, command: &Command) -> Result<Movie, String> {
        let params = command.params();
        match command {
            Command::Read { .. } => {
                let id = integer(&params[0]);
                match self.rows.iter().find(|r| r.id == id) {
                    Some(row) => Ok(row.clone()),
                    None => Err(String::from("no rows returned")),
                }
            }
            other => panic!("not a read of one row: {:?}", other),
        }
    }

    fn fetch_all(&self, command: &Command) -> Result<Vec<Movie>, String> {
        let params = command.params();
        match command {
            Command::ReadRange { .. } => {
                let offset = integer(&params[0]) as usize;
                let count = integer(&params[1]) as usize;
                Ok(self.rows.iter().skip(offset).take(count).cloned().collect())
            }
            Command::ReadAll => Ok(self.rows.clone()),
            other => panic!("not a read of rows: {:?}", other),
        }
    }
}

fn asked(step: Step) -> Command {
    match step {
        Step::Ask(command) => command,
        other => panic!("expected a command, got {:?}", other),
    }
}

fn movie(id: i64, title: &str) -> Movie {
    Movie {
        id,
        budget: 1000 * id,
        revenue: 2000 * id,
        vote_count: 10 * id,
        popularity: Real { bits: 1.5f32.to_bits() },
        vote_average: Real { bits: 6.25f32.to_bits() },
        genres: String::from("Drama"),
        title: String::from(title),
        keywords: String::from("keyword"),
        overview: String::from("An overview."),
        release_date: String::from("2001-01-01"),
    }
}

fn catalog() -> Vec<Movie> {
    vec![
        movie(1, "Inception"),
        movie(2, "Interstellar"),
        movie(3, "Intermission"),
        movie(4, "Amadeus"),
        movie(5, "Arrival"),
    ]
}

fn harry_potter(id: i64) -> Movie {
    Movie {
        id,
        budget: 55000000,
        revenue: 677945399,
        vote_count: 14075,
        popularity: Real { bits: 21.946943f32.to_bits() },
        vote_average: Real { bits: 7.7f32.to_bits() },
        genres: String::from("Adventure, Fantasy, Action"),
        title: String::from("Harry Potter and the Order of the Phoenix"),
        keywords: String::from("saving the world, witch, magic, sorcery"),
        overview: String::from("Harry's fifth year of study at Hogwarts."),
        release_date: String::from("2007-06-28"),
    }
}

fn no_fields() -> PartialMovie {
    PartialMovie {
        budget: None,
        revenue: None,
        vote_count: None,
        popularity: None,
        vote_average: None,
        genres: None,
        title: None,
        keywords: None,
        overview: None,
        release_date: None,
    }
}

#[test]
fn test_read_movie() {
    let store = MemoryStore::with(catalog());
    let movie = store.rows[0].clone();

    let command = asked(fetch(movie.id as i32));
    let response = fetched(store.fetch_one(&command));

    assert_eq!(response.status, 200);
    assert_eq!(response.body, Body::Record(movie));
}

#[test]
fn test_insert_movie() {
    let mut store = MemoryStore::with(catalog());
    let count = store.rows.len() as i64;
    let movie = harry_potter(count + 1);

    let command = asked(add(Some(movie.clone())));
    let response = added(store.execute(&command));

    assert_eq!(response.status, 200);

    let inserted_movie = store.fetch_one(&asked(fetch((count + 1) as i32))).unwrap();
    assert_eq!(inserted_movie, movie);
}

#[test]
fn test_delete_movie() {
    let mut store = MemoryStore::with(catalog());
    let movie = store.rows[2].clone();

    let command = asked(delete_movie(movie.id as i32));
    let response = deleted(store.execute(&command));

    assert_eq!(response.status, 200);

    let deleted_movie = store.fetch_one(&asked(fetch(movie.id as i32))).ok();
    assert_eq!(deleted_movie, None);
}

#[test]
fn test_update_movie() {
    let mut store = MemoryStore::with(catalog());
    let movie = store.rows[3].clone();

    let new_title = "Updated Title";
    let new_budget = 12000;

    let details = PartialMovie {
        title: Some(String::from(new_title)),
        budget: Some(new_budget),
        ..no_fields()
    };
    let command = asked(modify(movie.id as i32, Some(details)));
    let response = modified(store.execute(&command));

    let mut updated_movie = store.fetch_one(&asked(fetch(movie.id as i32))).unwrap();

    assert_eq!(response.status, 200);
    assert_eq!(updated_movie.title, new_title);
    assert_eq!(updated_movie.budget, new_budget);

    updated_movie.title = movie.title.to_string();
    updated_movie.budget = movie.budget;
    assert_eq!(updated_movie, movie);
}

#[test]
fn test_read_from_to() {
    let store = MemoryStore::with(catalog());
    let movies = store.rows.clone();

    let from = 1;
    let to = movies.len();

    let command = asked(fetch_from_to(from as i32, to as i32));
    let response = fetched_from_to(store.fetch_all(&command));

    assert_eq!(response.status, 200);
    assert_eq!(response.body, Body::Records(movies[from..to].to_vec()));
}

#[test]
fn insert_then_read_gives_the_record_back() {
    let mut store = MemoryStore::with(Vec::new());
    let movie = harry_potter(42);
    assert_eq!(added(store.execute(&asked(add(Some(movie.clone()))))), Response {
        status: 200,
        body: Body::Empty,
    });
    let response = fetched(store.fetch_one(&asked(fetch(42))));
    assert_eq!(response, Response { status: 200, body: Body::Record(movie) });
}

#[test]
fn insert_of_a_used_identifier_is_a_failed_write() {
    let mut store = MemoryStore::with(catalog());
    let response = added(store.execute(&asked(add(Some(harry_potter(3))))));
    assert_eq!(response.status, 500);
    assert_eq!(
        response.body,
        Body::Json(String::from("{\"message\":\"UNIQUE constraint failed: movies.id\"}"))
    );
    assert_eq!(store.rows, catalog());
}

#[test]
fn update_leaves_other_fields_and_other_rows() {
    let mut store = MemoryStore::with(catalog());
    let details = PartialMovie {
        title: Some(String::from("Updated Title")),
        budget: Some(12000),
        ..no_fields()
    };
    let command = asked(modify(2, Some(details)));
    assert_eq!(command.text(), "UPDATE movies SET budget = ?, title = ? WHERE id = ?");
    assert_eq!(
        command.params(),
        vec![Value::Integer(12000), Value::Text(String::from("Updated Title")), Value::Integer(2)]
    );
    assert_eq!(modified(store.execute(&command)).status, 200);

    let mut expected = catalog();
    expected[1].title = String::from("Updated Title");
    expected[1].budget = 12000;
    assert_eq!(store.rows, expected);
}

#[test]
fn update_with_no_fields_changes_nothing_and_succeeds() {
    let mut store = MemoryStore::with(catalog());
    let command = asked(modify(2, Some(no_fields())));
    assert_eq!(command, Command::Update { id: 2, assignments: Vec::<Assignment>::new() });
    assert_eq!(command.text(), "UPDATE movies SET id = id WHERE id = ?");
    assert_eq!(command.params(), vec![Value::Integer(2)]);
    let response = modified(store.execute(&command));
    assert_eq!(response, Response { status: 200, body: Body::Empty });
    assert_eq!(store.rows, catalog());
}

#[test]
fn read_after_delete_is_not_found_and_second_delete_answers() {
    let mut store = MemoryStore::with(catalog());
    assert_eq!(deleted(store.execute(&asked(delete_movie(4)))).status, 200);

    let response = fetched(store.fetch_one(&asked(fetch(4))));
    assert_eq!(response.status, 404);
    assert_eq!(response.body, Body::Json(String::from("{\"message\":\"no rows returned\"}")));

    let rows = store.rows.clone();
    let again = deleted(store.execute(&asked(delete_movie(4))));
    assert!(again.status == 200 || again.status == 404);
    assert_eq!(store.rows, rows);
}

#[test]
fn range_is_the_slice_of_the_natural_order() {
    let store = MemoryStore::with(catalog());
    let all = catalog();

    let response = fetched_from_to(store.fetch_all(&asked(fetch_from_to(1, 3))));
    assert_eq!(response, Response { status: 200, body: Body::Records(all[1..3].to_vec()) });

    let response = fetched_from_to(store.fetch_all(&asked(fetch_from_to(0, 5))));
    assert_eq!(response.body, Body::Records(all.clone()));

    let response = fetched_from_to(store.fetch_all(&asked(fetch_from_to(2, 2))));
    assert_eq!(response.body, Body::Records(Vec::new()));

    let response = fetched_from_to(store.fetch_all(&asked(fetch_from_to(3, 9))));
    assert_eq!(response.body, Body::Records(all[3..5].to_vec()));

    let response = fetched_from_to(store.fetch_all(&asked(fetch_from_to(-4, 2))));
    assert_eq!(response.body, Body::Records(all[0..2].to_vec()));
}

#[test]
fn range_with_start_after_end_is_refused_without_the_store() {
    let step = fetch_from_to(5, 2);
    assert_eq!(
        step,
        Step::Reply(Response {
            status: 400,
            body: Body::Json(String::from("{\"message\":\"Invalid range.\"}")),
        })
    );
}

#[test]
fn hydration_leaves_out_a_record_deleted_after_ranking() {
    let mut store = MemoryStore::with(catalog());
    let ranked = vec![3, 1, 5, 2];

    let commands = match lookups(ranked.clone()) {
        Fanout::AskEach(commands) => commands,
        other => panic!("expected lookups, got {:?}", other),
    };
    assert_eq!(commands.len(), ranked.len());
    let outcomes: Vec<Result<Movie, String>> =
        commands.iter().map(|c| store.fetch_one(c)).collect();
    let all = catalog();
    assert_eq!(
        searched(outcomes).body,
        Body::Records(vec![all[2].clone(), all[0].clone(), all[4].clone(), all[1].clone()])
    );

    assert_eq!(deleted(store.execute(&asked(delete_movie(5)))).status, 200);
    let outcomes: Vec<Result<Movie, String>> =
        commands.iter().map(|c| store.fetch_one(c)).collect();
    assert_eq!(
        searched(outcomes),
        Response {
            status: 200,
            body: Body::Records(vec![all[2].clone(), all[0].clone(), all[1].clone()]),
        }
    );
}

#[test]
fn scan_reads_every_row_in_the_natural_order() {
    let store = MemoryStore::with(catalog());
    assert_eq!(scan(), Command::ReadAll);
    assert_eq!(store.fetch_all(&scan()), Ok(catalog()));
}
