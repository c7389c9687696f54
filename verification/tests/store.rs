use people_store::error::ErrorKind;
use people_store::error::StoreError;
use people_store::json::Json;
use people_store::json::Member;
use people_store::person::Gender;
use people_store::person::Person;
use people_store::person::YesNo;
use people_store::store::add_person;
use people_store::store::create_person;
use people_store::store::default_db;
use people_store::store::enroll;
use people_store::store::get_db;
use people_store::store::is_valid_db_shape;
use people_store::store::put_db;
use people_store::store::read_db;
use people_store::store::write_db;
use people_store::store::DbFile;

fn text(s: &str) -> Json {
    Json::Str(s.to_string())
}

fn object(members: Vec<(&str, Json)>) -> Json {
    Json::Object(
        members.into_iter().map(|(key, value)| Member { key: key.to_string(), value }).collect(),
    )
}

fn named(name: &str) -> Json {
    object(vec![("name", text(name))])
}

fn document(people: Vec<Json>, tasks: Vec<Json>) -> Json {
    object(vec![("people", Json::Array(people)), ("tasks", Json::Array(tasks))])
}

fn missing() -> DbFile {
    DbFile { content: None }
}

fn holding(content: &str) -> DbFile {
    DbFile { content: Some(content.to_string()) }
}

fn kind_of<T: std::fmt::Debug>(r: Result<T, StoreError>) -> ErrorKind {
    r.unwrap_err().kind
}

fn people_of(file: &DbFile) -> Vec<Json> {
    match get_db(file).unwrap() {
        Json::Object(members) => {
            for m in members {
                if m.key == "people" {
                    match m.value {
                        Json::Array(items) => return items,
                        _ => unreachable!(),
                    }
                }
            }
            unreachable!()
        },
        _ => unreachable!(),
    }
}

#[test]
fn default_db_has_no_people_and_no_tasks() {
    assert_eq!(default_db(), document(vec![], vec![]));
    assert!(is_valid_db_shape(&default_db()));
}

#[test]
fn shape_needs_both_arrays() {
    assert!(is_valid_db_shape(&document(vec![Json::Null, text("x")], vec![Json::Unsigned(1)])));
    assert!(is_valid_db_shape(&object(vec![
        ("extra", Json::Null),
        ("tasks", Json::Array(vec![])),
        ("people", Json::Array(vec![])),
    ])));
    assert!(!is_valid_db_shape(&object(vec![("people", Json::Array(vec![]))])));
    assert!(!is_valid_db_shape(&object(vec![("tasks", Json::Array(vec![]))])));
    assert!(!is_valid_db_shape(&object(vec![
        ("people", object(vec![])),
        ("tasks", Json::Array(vec![])),
    ])));
    assert!(!is_valid_db_shape(&object(vec![
        ("people", Json::Array(vec![])),
        ("tasks", Json::Null),
    ])));
    assert!(!is_valid_db_shape(&object(vec![])));
    assert!(!is_valid_db_shape(&Json::Array(vec![])));
    assert!(!is_valid_db_shape(&Json::Null));
}

#[test]
fn load_of_a_missing_file_is_the_default() {
    assert_eq!(read_db(&missing()), Ok(default_db()));
    assert_eq!(get_db(&missing()), Ok(default_db()));
}

#[test]
fn load_of_a_blank_file_is_the_default() {
    assert_eq!(read_db(&holding("")), Ok(default_db()));
    assert_eq!(read_db(&holding("  \n\t  \r\n")), Ok(default_db()));
    assert_eq!(get_db(&holding(" ")), Ok(default_db()));
}

#[test]
fn load_strips_a_byte_order_mark() {
    let doc = document(vec![], vec![Json::Unsigned(1)]);
    assert_eq!(read_db(&holding("\u{feff}{\"people\": [], \"tasks\": [1]}")), Ok(doc));
}

#[test]
fn load_of_a_lone_byte_order_mark_fails() {
    let r = read_db(&holding("\u{feff}"));
    let expected = serde_json::from_str::<serde_json::Value>("").unwrap_err().to_string();
    assert_eq!(r, Err(StoreError { kind: ErrorKind::DbParseFailed, detail: expected }));
}

#[test]
fn load_reports_what_is_no_json() {
    let r = read_db(&holding("{\"people\": ["));
    let e = r.unwrap_err();
    assert_eq!(e.kind, ErrorKind::DbParseFailed);
    let detail =
        serde_json::from_str::<serde_json::Value>("{\"people\": [").unwrap_err().to_string();
    assert_eq!(e.detail, detail);
    assert_eq!(e.message(), format!("DbParseFailed: {}", detail));
}

#[test]
fn load_does_not_look_at_the_shape() {
    assert_eq!(read_db(&holding("[1, 2]")), Ok(Json::Array(vec![Json::Unsigned(1), Json::Unsigned(2)])));
    assert_eq!(kind_of(get_db(&holding("[1, 2]"))), ErrorKind::DbInvalidShape);
    assert_eq!(kind_of(get_db(&holding("{\"people\": []}"))), ErrorKind::DbInvalidShape);
}

#[test]
fn save_then_load_gives_the_document_back() {
    let doc = object(vec![
        (
            "people",
            Json::Array(vec![
                object(vec![("id", text("p_001")), ("name", text("Ann Lee"))]),
                object(vec![("id", text("p_002")), ("name", text("Женя"))]),
            ]),
        ),
        (
            "tasks",
            Json::Array(vec![
                object(vec![("done", Json::Bool(false)), ("weight", Json::Signed(-3))]),
                Json::Null,
                Json::Real(serde_json::Number::from_f64(0.5).unwrap()),
            ]),
        ),
        ("version", Json::Unsigned(2)),
    ]);
    let mut file = missing();
    assert_eq!(write_db(&mut file, &doc), Ok(()));
    assert_eq!(read_db(&file), Ok(doc));
    let mut other = holding("old");
    assert_eq!(put_db(&mut other, &default_db()), Ok(()));
    assert_eq!(get_db(&other), Ok(default_db()));
}

#[test]
fn save_writes_indented_json_without_a_mark() {
    let mut file = missing();
    assert_eq!(write_db(&mut file, &default_db()), Ok(()));
    assert_eq!(file.content, Some("{\n  \"people\": [],\n  \"tasks\": []\n}".to_string()));
}

#[test]
fn save_without_tasks_fails_and_leaves_the_file() {
    let doc = object(vec![("people", Json::Array(vec![]))]);
    let mut file = holding("{\"people\": [], \"tasks\": [7]}");
    let r = write_db(&mut file, &doc);
    assert_eq!(r, Err(StoreError { kind: ErrorKind::DbInvalidShape, detail: String::new() }));
    assert_eq!(file, holding("{\"people\": [], \"tasks\": [7]}"));
    let mut none = missing();
    assert_eq!(kind_of(put_db(&mut none, &doc)), ErrorKind::DbInvalidShape);
    assert_eq!(none, missing());
}

#[test]
fn add_person_appends_to_the_people() {
    let doc = object(vec![
        ("people", Json::Array(vec![named("a")])),
        ("tasks", Json::Array(vec![Json::Null])),
        ("more", Json::Bool(true)),
    ]);
    let expected = object(vec![
        ("people", Json::Array(vec![named("a"), named("b")])),
        ("tasks", Json::Array(vec![Json::Null])),
        ("more", Json::Bool(true)),
    ]);
    assert_eq!(add_person(doc, named("b")), expected);
}

#[test]
fn add_person_leaves_other_documents() {
    assert_eq!(add_person(Json::Null, named("b")), Json::Null);
    assert_eq!(add_person(object(vec![]), named("b")), object(vec![]));
    assert_eq!(
        add_person(object(vec![("people", Json::Null)]), named("b")),
        object(vec![("people", Json::Null)])
    );
}

#[test]
fn create_normalizes_the_name() {
    let mut file = missing();
    let person = create_person(&mut file, &named("  Ann   Lee  ")).unwrap();
    assert_eq!(person.name, "Ann Lee");
    assert_eq!(person.id, "p_001");
    assert_eq!(people_of(&file), vec![person.to_json()]);
}

#[test]
fn create_applies_the_defaults() {
    let mut file = missing();
    let person = create_person(&mut file, &named("X")).unwrap();
    let expected = Person {
        id: "p_001".to_string(),
        name: "X".to_string(),
        gender: Gender::Male,
        group_number: 1,
        study_status: YesNo::No,
        impromptu_status: YesNo::No,
        limitations_status: YesNo::No,
        participation_status: YesNo::No,
        notes: String::new(),
    };
    assert_eq!(person, expected);
}

#[test]
fn create_writes_the_record_as_the_document_has_it() {
    let mut file = missing();
    create_person(&mut file, &named("X")).unwrap();
    let expected = "{\n  \"people\": [\n    {\n      \"gender\": \"М\",\n      \"groupNumber\": 1,\n      \"id\": \"p_001\",\n      \"impromptuStatus\": \"Нет\",\n      \"limitationsStatus\": \"Нет\",\n      \"name\": \"X\",\n      \"notes\": \"\",\n      \"participationStatus\": \"Нет\",\n      \"studyStatus\": \"Нет\"\n    }\n  ],\n  \"tasks\": []\n}";
    assert_eq!(file.content, Some(expected.to_string()));
}

#[test]
fn create_refuses_a_name_taken() {
    let mut file = missing();
    create_person(&mut file, &named("Ann Lee")).unwrap();
    let before = file.clone();
    let second = create_person(&mut file, &named("ann  lee"));
    assert_eq!(second, Err(StoreError { kind: ErrorKind::DuplicateName, detail: String::new() }));
    assert_eq!(file, before);
    assert_eq!(kind_of(create_person(&mut file, &named("Ann Lee"))), ErrorKind::DuplicateName);
    assert_eq!(people_of(&file).len(), 1);
}

#[test]
fn create_takes_the_next_identifier() {
    let mut file = holding(
        "{\"people\": [{\"id\": \"p_001\"}, {\"id\": \"p_003\"}, {\"id\": \"x\"}, {}], \"tasks\": []}",
    );
    let person = create_person(&mut file, &named("New")).unwrap();
    assert_eq!(person.id, "p_004");
    assert_eq!(people_of(&file).len(), 5);
    assert_eq!(people_of(&file)[4], person.to_json());
}

#[test]
fn create_needs_a_name() {
    let content = "{\"people\": [], \"tasks\": [1]}";
    for input in [named(""), object(vec![]), named("   "), object(vec![("name", Json::Unsigned(1))]), Json::Null] {
        let mut file = holding(content);
        let r = create_person(&mut file, &input);
        assert_eq!(r, Err(StoreError { kind: ErrorKind::NameRequired, detail: String::new() }));
        assert_eq!(file, holding(content));
    }
    let mut none = missing();
    assert_eq!(kind_of(create_person(&mut none, &object(vec![]))), ErrorKind::NameRequired);
    assert_eq!(none, missing());
}

#[test]
fn create_asks_for_the_name_before_it_loads() {
    let mut file = holding("not json");
    assert_eq!(kind_of(create_person(&mut file, &named(""))), ErrorKind::NameRequired);
    assert_eq!(kind_of(create_person(&mut file, &named("A"))), ErrorKind::DbParseFailed);
    assert_eq!(file, holding("not json"));
}

#[test]
fn create_refuses_a_document_without_shape() {
    let mut file = holding("{\"people\": []}");
    assert_eq!(kind_of(create_person(&mut file, &named("A"))), ErrorKind::DbInvalidShape);
    assert_eq!(file, holding("{\"people\": []}"));
}

#[test]
fn create_defaults_a_group_that_is_no_count() {
    let mut file = missing();
    let a = object(vec![("name", text("X")), ("groupNumber", Json::Signed(-5))]);
    assert_eq!(create_person(&mut file, &a).unwrap().group_number, 1);
    let b = object(vec![("name", text("Y")), ("groupNumber", text("three"))]);
    assert_eq!(create_person(&mut file, &b).unwrap().group_number, 1);
    let c = object(vec![("name", text("Z")), ("groupNumber", Json::Unsigned(3))]);
    assert_eq!(create_person(&mut file, &c).unwrap().group_number, 3);
}

#[test]
fn two_creations_get_consecutive_identifiers() {
    let mut file = missing();
    let a = create_person(&mut file, &named("Ann")).unwrap();
    let b = create_person(&mut file, &named("Bob")).unwrap();
    assert_eq!(a.id, "p_001");
    assert_eq!(b.id, "p_002");
    assert_eq!(people_of(&file), vec![a.to_json(), b.to_json()]);
}

#[test]
fn identifiers_repeat_past_the_largest_number() {
    let mut file = holding("{\"people\": [{\"id\": \"p_4294967295\"}], \"tasks\": []}");
    let a = create_person(&mut file, &named("Ann")).unwrap();
    let b = create_person(&mut file, &named("Bob")).unwrap();
    assert_eq!(a.id, "p_4294967296");
    assert_eq!(b.id, "p_4294967296");
}

#[test]
fn enroll_adds_to_the_document() {
    let (next, person) = enroll(default_db(), &named("Ann")).unwrap();
    assert_eq!(person.id, "p_001");
    assert_eq!(next, document(vec![person.to_json()], vec![]));
    assert_eq!(enroll(next, &named("ANN")), Err(ErrorKind::DuplicateName));
    assert_eq!(enroll(Json::Null, &named("Ann")), Err(ErrorKind::DbInvalidShape));
    assert_eq!(enroll(Json::Null, &named(" ")), Err(ErrorKind::NameRequired));
}

#[test]
fn messages_carry_the_code_and_the_detail() {
    let kinds = [
        (ErrorKind::AppDataDirUnavailable, "AppDataDirUnavailable", true),
        (ErrorKind::DbDirCreateFailed, "DbDirCreateFailed", true),
        (ErrorKind::DbReadFailed, "DbReadFailed", true),
        (ErrorKind::DbParseFailed, "DbParseFailed", true),
        (ErrorKind::DbSerializeFailed, "DbSerializeFailed", true),
        (ErrorKind::DbWriteFailed, "DbWriteFailed", true),
        (ErrorKind::DbInvalidShape, "DbInvalidShape", false),
        (ErrorKind::NameRequired, "NameRequired", false),
        (ErrorKind::DuplicateName, "DuplicateName", false),
        (ErrorKind::OpenDirFailed, "OpenDirFailed", true),
    ];
    for (kind, code, detailed) in kinds {
        assert_eq!(kind.code(), code);
        assert_eq!(kind.has_detail(), detailed);
        assert_eq!(StoreError::plain(kind).detail, "");
        let e = StoreError::with_detail(kind, "why".to_string());
        if detailed {
            assert_eq!(e.message(), format!("{}: why", code));
        } else {
            assert_eq!(e.message(), code);
        }
    }
}
