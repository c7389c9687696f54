use crate::codec::parse;
use crate::codec::parsed_json;
use crate::codec::render;
use crate::codec::written_json;
use crate::error::failure;
use crate::error::ErrorKind;
use crate::error::StoreError;
use crate::error::StoreErrorView;
use crate::json::find_member;
use crate::json::last_index;
use crate::json::lemma_array_view;
use crate::json::lemma_last_index;
use crate::json::lemma_last_index_is;
use crate::json::lemma_object_view;
use crate::json::member_views;
use crate::json::views;
use crate::json::Json;
use crate::json::JsonView;
use crate::json::Member;
use crate::people::build_person;
use crate::people::has_name;
use crate::people::lemma_next_id_is_new;
use crate::people::max_number;
use crate::people::name_taken;
use crate::people::new_person;
use crate::people::record_key;
use crate::people::record_number;
use crate::person::field_text;
use crate::person::lemma_person_json_fields;
use crate::person::person_json;
use crate::person::required_name;
use crate::person::requested_name;
use crate::person::Person;
use crate::person::PersonView;
use crate::text::blank;
use crate::person_id::lemma_person_number_of_id;
use crate::person_id::person_id_text;
use crate::text::is_blank;
use crate::text::lemma_normalized_empty;
use crate::text::lemma_normalized_twice;
use crate::text::lowercased;
use crate::text::normalized;
use vstd::prelude::*;
use vstd::string::StrSliceExecFns;
use vstd::string::StringExecFns;

verus! {

/// The document's file as the store sees it: its text, or `None` where the
/// file does not exist.
#[derive(Clone, Debug, PartialEq, Eq)]
pub struct DbFile {
    pub content: Option<String>,
}

impl View for DbFile {
    type V = Option<Seq<char>>;

    open spec fn view(&self) -> Option<Seq<char>> {
        match self.content {
            Some(text) => Some(text@),
            None => None,
        }
    }
}

/// The document that a store starts from: no people and no tasks.
pub open spec fn empty_db() -> JsonView {
    JsonView::Object(
        seq![
            ("people"@, JsonView::Array(Seq::empty())),
            ("tasks"@, JsonView::Array(Seq::empty())),
        ],
    )
}

/// A document has a valid shape when it is an object whose members `people`
/// and `tasks` are both there and both arrays.
pub open spec fn valid_shape(db: JsonView) -> bool {
    &&& db.member("people"@) matches Some(people)
    &&& people is Array
    &&& db.member("tasks"@) matches Some(tasks)
    &&& tasks is Array
}

/// The records of the people of a document.
pub open spec fn people_of(db: JsonView) -> Seq<JsonView> {
    match db.member("people"@) {
        Some(people) => people.items(),
        None => Seq::empty(),
    }
}

/// The document `db` with `record` added at the end of its people. A
/// document whose member `people` is missing or no array stays as it is.
pub open spec fn with_person(db: JsonView, record: JsonView) -> JsonView {
    match db {
        JsonView::Object(members) => {
            let i = last_index(members, "people"@);
            if i >= 0 && members[i].1 is Array {
                JsonView::Object(
                    members.update(
                        i,
                        (members[i].0, JsonView::Array(members[i].1.items().push(record))),
                    ),
                )
            } else {
                db
            }
        },
        _ => db,
    }
}

/// A text without the byte-order mark that may stand at its start.
pub open spec fn without_bom(text: Seq<char>) -> Seq<char> {
    if text.len() > 0 && text[0] == '\u{feff}' {
        text.subrange(1, text.len() as int)
    } else {
        text
    }
}

/// What loading yields for a file's content: the empty document where there
/// is no file or the file is blank; else what the text, without its
/// byte-order mark, holds as JSON, or `DbParseFailed` with the parser's
/// message.
pub open spec fn loaded(content: Option<Seq<char>>) -> Result<JsonView, StoreErrorView> {
    match content {
        None => Ok(empty_db()),
        Some(text) => if is_blank(text) {
            Ok(empty_db())
        } else {
            match parsed_json(without_bom(text)) {
                Ok(db) => Ok(db),
                Err(detail) => Err(StoreErrorView { kind: ErrorKind::DbParseFailed, detail }),
            }
        },
    }
}

/// What saving writes for a document: `DbInvalidShape` for a document
/// without a valid shape; else the document as indented JSON, or
/// `DbSerializeFailed` with the serializer's message.
pub open spec fn saved(db: JsonView) -> Result<Seq<char>, StoreErrorView> {
    if !valid_shape(db) {
        Err(failure(ErrorKind::DbInvalidShape))
    } else {
        match written_json(db) {
            Ok(text) => Ok(text),
            Err(detail) => Err(StoreErrorView { kind: ErrorKind::DbSerializeFailed, detail }),
        }
    }
}

/// What a caller gets who asks for the document: what loading yields, but
/// `DbInvalidShape` where that has no valid shape.
pub open spec fn fetched(content: Option<Seq<char>>) -> Result<JsonView, StoreErrorView> {
    match loaded(content) {
        Ok(db) => if valid_shape(db) {
            Ok(db)
        } else {
            Err(failure(ErrorKind::DbInvalidShape))
        },
        Err(e) => Err(e),
    }
}

/// Whom a request adds to a document: `NameRequired` where it asks for no
/// name, `DbInvalidShape` where the document has no valid shape,
/// `DuplicateName` where the name is taken; else the new person.
pub open spec fn enrolled(db: JsonView, input: JsonView) -> Result<PersonView, ErrorKind> {
    if requested_name(input).len() == 0 {
        Err(ErrorKind::NameRequired)
    } else if !valid_shape(db) {
        Err(ErrorKind::DbInvalidShape)
    } else if name_taken(people_of(db), requested_name(input)) {
        Err(ErrorKind::DuplicateName)
    } else {
        Ok(new_person(people_of(db), input))
    }
}

/// What creating a person does to a file with the content `content`: the
/// new person and the text that the file then holds, or the failure.
pub open spec fn created(content: Option<Seq<char>>, input: JsonView) -> Result<
    (PersonView, Seq<char>),
    StoreErrorView,
> {
    if requested_name(input).len() == 0 {
        Err(failure(ErrorKind::NameRequired))
    } else {
        match loaded(content) {
            Err(e) => Err(e),
            Ok(db) => match enrolled(db, input) {
                Err(kind) => Err(failure(kind)),
                Ok(person) => match saved(with_person(db, person_json(person))) {
                    Err(e) => Err(e),
                    Ok(text) => Ok((person, text)),
                },
            },
        }
    }
}

/// The empty document has a valid shape and no people.
pub proof fn lemma_empty_db()
    ensures
        valid_shape(empty_db()),
        people_of(empty_db()) == Seq::<JsonView>::empty(),
{
    reveal_strlit("people");
    reveal_strlit("tasks");
    let members = empty_db()->Object_0;
    assert("people"@.len() != "tasks"@.len());
    assert(members[1].0 == "tasks"@);
    lemma_last_index_is(members, "people"@, 0);
    lemma_last_index_is(members, "tasks"@, 1);
}

/// Where there is no file, and where the file is blank, a caller who asks
/// for the document gets the empty document.
pub proof fn lemma_bootstrap(text: Seq<char>)
    ensures
        fetched(None) == Ok::<JsonView, StoreErrorView>(empty_db()),
        is_blank(text) ==> fetched(Some(text)) == Ok::<JsonView, StoreErrorView>(empty_db()),
{
    lemma_empty_db();
}

/// Replacing the value of a member leaves every key where it was.
proof fn lemma_update_keeps_index(
    members: Seq<(Seq<char>, JsonView)>,
    i: int,
    value: JsonView,
    key: Seq<char>,
)
    requires
        0 <= i < members.len(),
    ensures
        last_index(members.update(i, (members[i].0, value)), key) == last_index(members, key),
    decreases members.len(),
{
    let changed = members.update(i, (members[i].0, value));
    assert(changed.last().0 == members.last().0);
    if members.last().0 != key {
        if i < members.len() - 1 {
            assert(changed.drop_last() == members.drop_last().update(
                i,
                (members.drop_last()[i].0, value),
            ));
            lemma_update_keeps_index(members.drop_last(), i, value, key);
        } else {
            assert(changed.drop_last() == members.drop_last());
        }
    }
}

/// Adding a person to a document with a valid shape puts the record at the
/// end of the people, keeps the shape valid, and changes no other member.
pub proof fn lemma_with_person(db: JsonView, record: JsonView)
    requires
        valid_shape(db),
    ensures
        valid_shape(with_person(db, record)),
        people_of(with_person(db, record)) == people_of(db).push(record),
        forall|key: Seq<char>|
            key != "people"@ ==> #[trigger] with_person(db, record).member(key) == db.member(key),
{
    let members = db->Object_0;
    let i = last_index(members, "people"@);
    lemma_last_index(members, "people"@);
    let value = JsonView::Array(members[i].1.items().push(record));
    let changed = members.update(i, (members[i].0, value));
    assert(with_person(db, record) == JsonView::Object(changed));
    assert forall|key: Seq<char>| #[trigger]
        last_index(changed, key) == last_index(members, key) by {
        lemma_update_keeps_index(members, i, value, key);
    }
    assert forall|key: Seq<char>| key != "people"@ implies #[trigger] with_person(
        db,
        record,
    ).member(key) == db.member(key) by {
        lemma_last_index(members, key);
    }
    reveal_strlit("people");
    reveal_strlit("tasks");
    assert("people"@.len() != "tasks"@.len());
}

/// A document that was saved and is loaded again is the same document,
/// wherever the JSON text that was written is not blank and reads back as
/// the document.
pub proof fn lemma_load_after_save(db: JsonView, text: Seq<char>)
    requires
        saved(db) == Ok::<Seq<char>, StoreErrorView>(text),
        !is_blank(text),
        parsed_json(without_bom(text)) == Ok::<JsonView, Seq<char>>(db),
    ensures
        loaded(Some(text)) == Ok::<JsonView, StoreErrorView>(db),
        fetched(Some(text)) == Ok::<JsonView, StoreErrorView>(db),
{
}

/// Creating a person fails with `NameRequired` exactly when the request has
/// no name that is a string, or a blank one, whatever the file holds.
pub proof fn lemma_name_required(content: Option<Seq<char>>, input: JsonView)
    ensures
        created(content, input) == Err::<(PersonView, Seq<char>), StoreErrorView>(
            failure(ErrorKind::NameRequired),
        ) <==> (field_text(input, "name"@) matches Some(name) ==> is_blank(name)),
{
    match field_text(input, "name"@) {
        Some(name) => {
            lemma_normalized_empty(name);
        },
        None => {},
    }
}

/// The name of a new person's record is compared as the name that was
/// asked for.
proof fn lemma_new_record_key(people: Seq<JsonView>, input: JsonView)
    ensures
        record_key(person_json(new_person(people, input))) == Some(
            lowercased(requested_name(input)),
        ),
{
    lemma_person_json_fields(new_person(people, input));
    match field_text(input, "name"@) {
        Some(name) => {
            lemma_normalized_twice(name);
        },
        None => {
            lemma_normalized_empty(Seq::empty());
            assert(normalized(Seq::empty()) =~= Seq::<char>::empty());
        },
    }
}

/// The record of a new person carries the next number, which is then the
/// largest.
proof fn lemma_new_record_number(people: Seq<JsonView>, input: JsonView)
    requires
        max_number(people) < u32::MAX,
    ensures
        record_number(person_json(new_person(people, input))) == Some(
            (max_number(people) + 1) as u32,
        ),
        max_number(people.push(person_json(new_person(people, input)))) == max_number(people) + 1,
{
    let person = new_person(people, input);
    lemma_person_json_fields(person);
    lemma_person_number_of_id(max_number(people) + 1);
    assert(people.push(person_json(person)).drop_last() == people);
}

/// The identifier of a new person is new: no record of the document has it,
/// as long as the largest number among the records is not the largest that
/// 32 bits hold.
pub proof fn lemma_new_id_is_new(db: JsonView, input: JsonView)
    requires
        enrolled(db, input) is Ok,
        max_number(people_of(db)) < u32::MAX,
    ensures
        forall|i: int|
            0 <= i < people_of(db).len() ==> #[trigger] field_text(people_of(db)[i], "id"@)
                != Some(enrolled(db, input)->Ok_0.id),
{
    lemma_next_id_is_new(people_of(db));
}

/// Once a person was created, a request for a name that equals the person's
/// but for case and white space fails with `DuplicateName`.
pub proof fn lemma_same_name_again(db: JsonView, first: JsonView, second: JsonView)
    requires
        enrolled(db, first) is Ok,
        requested_name(second).len() > 0,
        lowercased(requested_name(second)) == lowercased(requested_name(first)),
    ensures
        enrolled(with_person(db, person_json(enrolled(db, first)->Ok_0)), second) == Err::<
            PersonView,
            ErrorKind,
        >(ErrorKind::DuplicateName),
{
    let people = people_of(db);
    let person = new_person(people, first);
    let record = person_json(person);
    lemma_with_person(db, record);
    lemma_new_record_key(people, first);
    let after = people.push(record);
    assert(record_key(after[people.len() as int]) == Some(lowercased(requested_name(second))));
}

/// Two people created one after the other, under names that differ by more
/// than case and white space, are both in the document, the second right
/// after the first, and their identifiers carry consecutive numbers.
pub proof fn lemma_one_after_the_other(db: JsonView, first: JsonView, second: JsonView)
    requires
        valid_shape(db),
        requested_name(first).len() > 0,
        requested_name(second).len() > 0,
        !name_taken(people_of(db), requested_name(first)),
        !name_taken(people_of(db), requested_name(second)),
        lowercased(requested_name(first)) != lowercased(requested_name(second)),
        max_number(people_of(db)) < u32::MAX,
    ensures
        ({
            let a = new_person(people_of(db), first);
            let middle = with_person(db, person_json(a));
            let b = new_person(people_of(middle), second);
            let last = with_person(middle, person_json(b));
            &&& enrolled(db, first) == Ok::<PersonView, ErrorKind>(a)
            &&& enrolled(middle, second) == Ok::<PersonView, ErrorKind>(b)
            &&& a.id == person_id_text(max_number(people_of(db)) + 1)
            &&& b.id == person_id_text(max_number(people_of(db)) + 2)
            &&& a.id != b.id
            &&& valid_shape(last)
            &&& people_of(last) == people_of(db).push(person_json(a)).push(person_json(b))
        }),
{
    let people = people_of(db);
    let a = new_person(people, first);
    let middle = with_person(db, person_json(a));
    lemma_with_person(db, person_json(a));
    lemma_new_record_key(people, first);
    lemma_new_record_number(people, first);
    let after = people_of(middle);
    assert(after == people.push(person_json(a)));
    assert forall|i: int| 0 <= i < after.len() implies #[trigger] record_key(after[i]) != Some(
        lowercased(requested_name(second)),
    ) by {
        if i < people.len() {
            assert(after[i] == people[i]);
        }
    }
    let b = new_person(after, second);
    lemma_with_person(middle, person_json(b));
    lemma_person_number_of_id(max_number(people) + 1);
    lemma_person_number_of_id(max_number(people) + 2);
}

/// The document that a store starts from.
pub fn default_db() -> (r: Json)
    ensures
        r@ == empty_db(),
{
    let mut members: Vec<Member> = Vec::new();
    let people: Vec<Json> = Vec::new();
    let tasks: Vec<Json> = Vec::new();
    proof {
        lemma_array_view(people);
        lemma_array_view(tasks);
        assert(views(people@) =~= Seq::<JsonView>::empty());
        assert(views(tasks@) =~= Seq::<JsonView>::empty());
    }
    members.push(Member { key: String::from_str("people"), value: Json::Array(people) });
    members.push(Member { key: String::from_str("tasks"), value: Json::Array(tasks) });
    proof {
        lemma_object_view(members);
        assert(member_views(members@) =~= empty_db()->Object_0);
    }
    Json::Object(members)
}

/// Whether the document has a valid shape.
pub fn is_valid_db_shape(db: &Json) -> (r: bool)
    ensures
        r == valid_shape(db@),
{
    let people = match db.get("people") {
        Some(v) => v.is_array(),
        None => false,
    };
    let tasks = match db.get("tasks") {
        Some(v) => v.is_array(),
        None => false,
    };
    people && tasks
}

/// The document `db` with `record` added at the end of its people.
pub fn add_person(db: Json, record: Json) -> (r: Json)
    ensures
        r@ == with_person(db@, record@),
{
    match db {
        Json::Object(mut members) => {
            let ghost before = member_views(members@);
            proof {
                lemma_object_view(members);
            }
            match find_member(&members, "people") {
                Some(i) => {
                    let Member { key, value } = members.remove(i);
                    match value {
                        Json::Array(mut items) => {
                            proof {
                                lemma_array_view(items);
                            }
                            let ghost old_items = views(items@);
                            items.push(record);
                            proof {
                                lemma_array_view(items);
                                assert(views(items@) =~= old_items.push(record@));
                            }
                            members.insert(i, Member { key, value: Json::Array(items) });
                            proof {
                                lemma_object_view(members);
                                assert(member_views(members@) =~= before.update(
                                    i as int,
                                    (before[i as int].0, JsonView::Array(old_items.push(record@))),
                                ));
                            }
                            Json::Object(members)
                        },
                        other => {
                            members.insert(i, Member { key, value: other });
                            proof {
                                lemma_object_view(members);
                                assert(member_views(members@) =~= before);
                            }
                            Json::Object(members)
                        },
                    }
                },
                None => Json::Object(members),
            }
        },
        other => other,
    }
}

/// The text `raw` without the byte-order mark that may stand at its start.
fn strip_bom(raw: &str) -> (r: &str)
    ensures
        r@ == without_bom(raw@),
{
    let n = raw.unicode_len();
    if n > 0 && raw.get_char(0) == '\u{feff}' {
        raw.substring_char(1, n)
    } else {
        raw
    }
}

/// Loads the document from the file: the empty document where there is no
/// file or it is blank, else what the file holds as JSON. The document's
/// shape is not looked at.
pub fn read_db(file: &DbFile) -> (r: Result<Json, StoreError>)
    ensures
        match r {
            Ok(db) => loaded(file@) == Ok::<JsonView, StoreErrorView>(db@),
            Err(e) => loaded(file@) == Err::<JsonView, StoreErrorView>(e@),
        },
{
    match &file.content {
        None => Ok(default_db()),
        Some(raw) => {
            if blank(raw.as_str()) {
                Ok(default_db())
            } else {
                match parse(strip_bom(raw.as_str())) {
                    Ok(db) => Ok(db),
                    Err(detail) => Err(StoreError::with_detail(ErrorKind::DbParseFailed, detail)),
                }
            }
        },
    }
}

/// Saves the document to the file, as indented JSON. A document without a
/// valid shape is refused, and on any failure the file stays as it was.
pub fn write_db(file: &mut DbFile, db: &Json) -> (r: Result<(), StoreError>)
    ensures
        match r {
            Ok(_) => saved(db@) matches Ok(text) && final(file)@ == Some(text),
            Err(e) => saved(db@) == Err::<Seq<char>, StoreErrorView>(e@) && final(file)@ == old(
                file,
            )@,
        },
{
    if !is_valid_db_shape(db) {
        return Err(StoreError::plain(ErrorKind::DbInvalidShape));
    }
    match render(db) {
        Ok(text) => {
            file.content = Some(text);
            Ok(())
        },
        Err(detail) => Err(StoreError::with_detail(ErrorKind::DbSerializeFailed, detail)),
    }
}

/// Hands out the document of the file, which must have a valid shape.
pub fn get_db(file: &DbFile) -> (r: Result<Json, StoreError>)
    ensures
        match r {
            Ok(db) => fetched(file@) == Ok::<JsonView, StoreErrorView>(db@),
            Err(e) => fetched(file@) == Err::<JsonView, StoreErrorView>(e@),
        },
{
    match read_db(file) {
        Ok(db) => if is_valid_db_shape(&db) {
            Ok(db)
        } else {
            Err(StoreError::plain(ErrorKind::DbInvalidShape))
        },
        Err(e) => Err(e),
    }
}

/// Replaces the document of the file by `db`, which must have a valid shape.
/// Nothing else of `db` is looked at.
pub fn put_db(file: &mut DbFile, db: &Json) -> (r: Result<(), StoreError>)
    ensures
        match r {
            Ok(_) => saved(db@) matches Ok(text) && final(file)@ == Some(text),
            Err(e) => saved(db@) == Err::<Seq<char>, StoreErrorView>(e@) && final(file)@ == old(
                file,
            )@,
        },
{
    write_db(file, db)
}

/// Adds the person that the request `input` asks for to the document `db`.
pub fn enroll(db: Json, input: &Json) -> (r: Result<(Json, Person), ErrorKind>)
    ensures
        match r {
            Ok((next, person)) => enrolled(db@, input@) == Ok::<PersonView, ErrorKind>(person@)
                && next@ == with_person(db@, person_json(person@)),
            Err(kind) => enrolled(db@, input@) == Err::<PersonView, ErrorKind>(kind),
        },
{
    let name = match required_name(input) {
        Ok(name) => name,
        Err(kind) => {
            return Err(kind);
        },
    };
    if !is_valid_db_shape(&db) {
        return Err(ErrorKind::DbInvalidShape);
    }
    let person = match db.get("people") {
        Some(list) => match list.as_array() {
            Some(people) => {
                if has_name(people, name.as_str()) {
                    return Err(ErrorKind::DuplicateName);
                }
                build_person(people, input)
            },
            None => {
                return Err(ErrorKind::DbInvalidShape);
            },
        },
        None => {
            return Err(ErrorKind::DbInvalidShape);
        },
    };
    let record = person.to_json();
    Ok((add_person(db, record), person))
}

/// Creates the person that the request `input` asks for: loads the document
/// from the file, adds the person, and saves the document. On any failure
/// the file stays as it was.
pub fn create_person(file: &mut DbFile, input: &Json) -> (r: Result<Person, StoreError>)
    ensures
        match r {
            Ok(person) => created(old(file)@, input@) matches Ok((p, text)) && person@ == p
                && final(file)@ == Some(text),
            Err(e) => created(old(file)@, input@) == Err::<(PersonView, Seq<char>), StoreErrorView>(
                e@,
            ) && final(file)@ == old(file)@,
        },
{
    match required_name(input) {
        Ok(_) => {},
        Err(kind) => {
            return Err(StoreError::plain(kind));
        },
    }
    let db = match read_db(file) {
        Ok(db) => db,
        Err(e) => {
            return Err(e);
        },
    };
    let (next, person) = match enroll(db, input) {
        Ok(pair) => pair,
        Err(kind) => {
            return Err(StoreError::plain(kind));
        },
    };
    match write_db(file, &next) {
        Ok(_) => Ok(person),
        Err(e) => Err(e),
    }
}

} // verus!
