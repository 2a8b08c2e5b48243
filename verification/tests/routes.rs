use server::column::{Assignment, Column, Value};
use server::command::Command;
use server::response::{Body, Response, ServiceError};
use server::routes::{
    add, added, delete, deleted, fetched, fetched_from_to, health_check, hydrate, insert,
    lookup_outcome, lookup_seconds, lookups, modified, modify, read, read_from_to, searched,
    update, Fanout, Step,
};
use server::schema::{Movie, PartialMovie, Real};

fn movie(id: i64, title: &str) -> Movie {
    Movie {
        id,
        budget: 55000000,
        revenue: 677945399,
        vote_count: 14075,
        popularity: Real { bits: 21.946943f32.to_bits() },
        vote_average: Real { bits: 7.7f32.to_bits() },
        genres: String::from("Adventure, Fantasy, Action"),
        title: String::from(title),
        keywords: String::from("saving the world, witch, magic, sorcery"),
        overview: String::from("Harry's fifth year of study at Hogwarts."),
        release_date: String::from("2007-06-28"),
    }
}

fn invalid_payload() -> Response {
    Response {
        status: 400,
        body: Body::Json(String::from("{\"message\":\"Invalid payload values.\"}")),
    }
}

#[test]
fn test_health_check() {
    let response = health_check();
    assert_eq!(response.status, 200);
    assert_eq!(response.body, Body::Empty);
}

#[test]
fn add_binds_every_field_in_column_order() {
    let m = movie(7, "Harry Potter and the Order of the Phoenix");
    let step = add(Some(m.clone()));
    let command = match step {
        Step::Ask(command) => command,
        other => panic!("expected a command, got {:?}", other),
    };
    assert_eq!(
        command.text(),
        "INSERT INTO movies (budget, genres, id, keywords, overview, popularity, release_date, \
         revenue, title, vote_average, vote_count) VALUES (?, ?, ?, ?, ?, ?, ?, ?, ?, ?, ?)"
    );
    assert_eq!(
        command.params(),
        vec![
            Value::Integer(55000000),
            Value::Text(String::from("Adventure, Fantasy, Action")),
            Value::Integer(7),
            Value::Text(String::from("saving the world, witch, magic, sorcery")),
            Value::Text(String::from("Harry's fifth year of study at Hogwarts.")),
            Value::Real(Real { bits: 21.946943f32.to_bits() }),
            Value::Text(String::from("2007-06-28")),
            Value::Integer(677945399),
            Value::Text(String::from("Harry Potter and the Order of the Phoenix")),
            Value::Real(Real { bits: 7.7f32.to_bits() }),
            Value::Integer(14075),
        ]
    );
    assert_eq!(command, Command::Insert { columns: Column::all(), values: m.values() });
}

#[test]
fn add_without_a_record_is_a_validation_failure() {
    assert_eq!(add(None), Step::Reply(invalid_payload()));
}

#[test]
fn modify_without_an_update_is_a_validation_failure() {
    assert_eq!(modify(3, None), Step::Reply(invalid_payload()));
}

#[test]
fn modify_keeps_text_out_of_the_command() {
    let details = PartialMovie {
        budget: None,
        revenue: None,
        vote_count: None,
        popularity: Some(Real { bits: 3.5f32.to_bits() }),
        vote_average: None,
        genres: None,
        title: Some(String::from("x'; DROP TABLE movies; --")),
        keywords: None,
        overview: None,
        release_date: None,
    };
    let command = match modify(9, Some(details)) {
        Step::Ask(command) => command,
        other => panic!("expected a command, got {:?}", other),
    };
    assert_eq!(command.text(), "UPDATE movies SET popularity = ?, title = ? WHERE id = ?");
    assert_eq!(
        command.params(),
        vec![
            Value::Real(Real { bits: 3.5f32.to_bits() }),
            Value::Text(String::from("x'; DROP TABLE movies; --")),
            Value::Integer(9),
        ]
    );
}

#[test]
fn assignments_follow_the_column_order() {
    let details = PartialMovie {
        budget: Some(1),
        revenue: Some(2),
        vote_count: Some(3),
        popularity: Some(Real { bits: 4 }),
        vote_average: Some(Real { bits: 5 }),
        genres: Some(String::from("g")),
        title: Some(String::from("t")),
        keywords: Some(String::from("k")),
        overview: Some(String::from("o")),
        release_date: Some(String::from("r")),
    };
    let columns: Vec<Column> = details.assignments().iter().map(|a| a.column).collect();
    assert_eq!(
        columns,
        vec![
            Column::Budget,
            Column::Genres,
            Column::Keywords,
            Column::Overview,
            Column::Popularity,
            Column::ReleaseDate,
            Column::Revenue,
            Column::Title,
            Column::VoteAverage,
            Column::VoteCount,
        ]
    );
    assert_eq!(details.assignments()[6], Assignment { column: Column::Revenue, value: Value::Integer(2) });
    assert_eq!(
        details.assignments()[3],
        Assignment { column: Column::Overview, value: Value::Text(String::from("o")) }
    );
}

#[test]
fn insert_refuses_what_is_no_full_record() {
    let m = movie(1, "Alien");
    let invalid = Err(ServiceError::Validation(String::from("Invalid payload values.")));

    assert!(insert(Column::all(), m.values()).is_ok());

    let mut short = m.values();
    short.pop();
    assert_eq!(insert(Column::all(), short), invalid);

    let mut columns = Column::all();
    columns.swap(0, 7);
    assert_eq!(insert(columns, m.values()), invalid);

    let mut values = m.values();
    values[2] = Value::Text(String::from("1"));
    assert_eq!(insert(Column::all(), values), invalid);

    assert_eq!(insert(Vec::new(), Vec::new()), invalid);
}

#[test]
fn update_refuses_what_is_outside_the_allow_list() {
    let invalid = Err(ServiceError::Validation(String::from("Invalid payload values.")));

    let id = vec![Assignment { column: Column::Id, value: Value::Integer(2) }];
    assert_eq!(update(id, 1), invalid);

    let mismatch = vec![
        Assignment { column: Column::Budget, value: Value::Integer(2) },
        Assignment { column: Column::Title, value: Value::Integer(2) },
    ];
    assert_eq!(update(mismatch, 1), invalid);

    let allowed = vec![
        Assignment { column: Column::VoteAverage, value: Value::Real(Real { bits: 7 }) },
        Assignment { column: Column::Genres, value: Value::Text(String::from("Comedy")) },
    ];
    let command = update(allowed.clone(), 1).unwrap();
    assert_eq!(command, Command::Update { id: 1, assignments: allowed });
    assert_eq!(command.text(), "UPDATE movies SET vote_average = ?, genres = ? WHERE id = ?");
}

#[test]
fn single_row_commands() {
    assert_eq!(read(12), Command::Read { id: 12 });
    assert_eq!(read(12).text(), "SELECT * FROM movies WHERE id = ?");
    assert_eq!(read(12).params(), vec![Value::Integer(12)]);
    assert_eq!(delete(-3), Command::Delete { id: -3 });
    assert_eq!(delete(-3).text(), "DELETE FROM movies WHERE id = ?");
    assert_eq!(delete(-3).params(), vec![Value::Integer(-3)]);
    assert_eq!(Command::ReadAll.text(), "SELECT * FROM movies");
    assert_eq!(Command::ReadAll.params(), Vec::<Value>::new());
}

#[test]
fn range_commands_skip_and_count() {
    assert_eq!(read_from_to(1, 4), Command::ReadRange { offset: 1, count: 3 });
    assert_eq!(read_from_to(1, 4).text(), "SELECT * FROM movies LIMIT ?, ?");
    assert_eq!(read_from_to(1, 4).params(), vec![Value::Integer(1), Value::Integer(3)]);
    assert_eq!(read_from_to(0, 0), Command::ReadRange { offset: 0, count: 0 });
    assert_eq!(read_from_to(-5, 2), Command::ReadRange { offset: 0, count: 2 });
    assert_eq!(read_from_to(-5, -2), Command::ReadRange { offset: 0, count: 0 });
    assert_eq!(read_from_to(7, 3), Command::ReadRange { offset: 7, count: 0 });
    assert_eq!(
        read_from_to(i32::MIN, i32::MAX),
        Command::ReadRange { offset: 0, count: 2147483647 }
    );
}

#[test]
fn store_failures_by_endpoint() {
    let message = || String::from("database is locked");
    let body = Body::Json(String::from("{\"message\":\"database is locked\"}"));
    assert_eq!(added(Err(message())), Response { status: 500, body: body.clone() });
    assert_eq!(modified(Err(message())), Response { status: 500, body: body.clone() });
    assert_eq!(deleted(Err(message())), Response { status: 404, body: body.clone() });
    assert_eq!(fetched(Err(message())), Response { status: 404, body: body.clone() });
    assert_eq!(fetched_from_to(Err(message())), Response { status: 404, body });
}

#[test]
fn failure_messages_are_escaped_json() {
    let response = fetched(Err(String::from("no \"row\"\nfound \\ here")));
    assert_eq!(
        response.body,
        Body::Json(String::from("{\"message\":\"no \\\"row\\\"\\nfound \\\\ here\"}"))
    );
}

#[test]
fn service_errors_have_their_status() {
    assert_eq!(ServiceError::Validation(String::from("a")).status(), 400);
    assert_eq!(ServiceError::NotFound(String::from("b")).status(), 404);
    assert_eq!(ServiceError::Store(String::from("c")).status(), 500);
    assert_eq!(ServiceError::Store(String::from("c")).message(), "c");
    assert_eq!(
        ServiceError::NotFound(String::from("b")).response(),
        Response { status: 404, body: Body::Json(String::from("{\"message\":\"b\"}")) }
    );
}

#[test]
fn lookups_ask_for_each_identifier_in_rank_order() {
    assert_eq!(
        lookups(vec![5, 2, 9]),
        Fanout::AskEach(vec![
            Command::Read { id: 5 },
            Command::Read { id: 2 },
            Command::Read { id: 9 },
        ])
    );
}

#[test]
fn lookups_without_identifiers_answer_at_once() {
    assert_eq!(
        lookups(Vec::new()),
        Fanout::Reply(Response { status: 200, body: Body::Records(Vec::new()) })
    );
}

#[test]
fn hydrate_drops_failed_lookups_and_keeps_rank_order() {
    let outcomes = vec![
        Ok(movie(5, "Arrival")),
        Err(String::from("no rows returned")),
        Ok(movie(2, "Interstellar")),
        Ok(movie(9, "Alien")),
        Err(String::from("timed out")),
    ];
    assert_eq!(
        hydrate(outcomes.clone()),
        vec![movie(5, "Arrival"), movie(2, "Interstellar"), movie(9, "Alien")]
    );
    assert_eq!(
        searched(outcomes),
        Response {
            status: 200,
            body: Body::Records(vec![
                movie(5, "Arrival"),
                movie(2, "Interstellar"),
                movie(9, "Alien"),
            ]),
        }
    );
}

#[test]
fn hydrate_of_nothing_or_of_failures_is_empty() {
    assert_eq!(hydrate(Vec::new()), Vec::<Movie>::new());
    assert_eq!(hydrate(vec![Err(String::from("a")), Err(String::from("b"))]), Vec::<Movie>::new());
    assert_eq!(searched(Vec::new()), Response { status: 200, body: Body::Records(Vec::new()) });
}

#[test]
fn column_names_kinds_and_allow_list() {
    let names: Vec<&str> = Column::all().iter().map(|c| c.name()).collect();
    assert_eq!(
        names,
        vec![
            "budget",
            "genres",
            "id",
            "keywords",
            "overview",
            "popularity",
            "release_date",
            "revenue",
            "title",
            "vote_average",
            "vote_count",
        ]
    );
    for column in Column::all() {
        assert_eq!(column.is_mutable(), column != Column::Id);
    }
    let m = movie(1, "Alien");
    for (column, value) in Column::all().iter().zip(m.values().iter()) {
        assert_eq!(column.kind(), value.kind());
        assert_eq!(value.duplicate(), *value);
    }
}

#[test]
fn lookup_that_was_given_up_has_failed() {
    assert_eq!(lookup_seconds(), 5);
    assert_eq!(lookup_outcome(None), Err(String::from("lookup timed out")));
    assert_eq!(lookup_outcome(Some(Ok(movie(4, "Amadeus")))), Ok(movie(4, "Amadeus")));
    assert_eq!(
        lookup_outcome(Some(Err(String::from("no rows returned")))),
        Err(String::from("no rows returned"))
    );
    let outcomes = vec![
        lookup_outcome(Some(Ok(movie(1, "Inception")))),
        lookup_outcome(None),
        lookup_outcome(Some(Ok(movie(5, "Arrival")))),
    ];
    assert_eq!(hydrate(outcomes), vec![movie(1, "Inception"), movie(5, "Arrival")]);
}
