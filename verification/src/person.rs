use crate::error::ErrorKind;
use crate::json::lemma_last_index_is;
use crate::json::lemma_object_view;
use crate::json::Json;
use crate::json::JsonView;
use crate::json::Member;
use crate::text::normalize_name;
use crate::text::normalized;
use crate::text::same_text;
use vstd::prelude::*;
use vstd::string::StringExecFns;

verus! {

/// The gender recorded for a person.
#[derive(Clone, Copy, Debug, PartialEq, Eq, Structural)]
pub enum Gender {
    Female,
    Male,
}

/// A yes-or-no status of a person.
#[derive(Clone, Copy, Debug, PartialEq, Eq, Structural)]
pub enum YesNo {
    Yes,
    No,
}

/// The token that stands for a gender in a document: the Cyrillic capital
/// letter ZHE for `Female`, the Cyrillic capital letter EM for `Male`.
pub open spec fn gender_marker(g: Gender) -> Seq<char> {
    match g {
        Gender::Female => "\u{416}"@,
        Gender::Male => "\u{41c}"@,
    }
}

/// The token that stands for a status in a document: the Russian word for
/// yes, or the one for no.
pub open spec fn yes_no_marker(v: YesNo) -> Seq<char> {
    match v {
        YesNo::Yes => "\u{414}\u{430}"@,
        YesNo::No => "\u{41d}\u{435}\u{442}"@,
    }
}

impl Gender {
    /// The token that stands for this gender in a document.
    pub fn marker(self) -> (r: &'static str)
        ensures
            r@ == gender_marker(self),
    {
        match self {
            Gender::Female => "\u{416}",
            Gender::Male => "\u{41c}",
        }
    }
}

impl YesNo {
    /// The token that stands for this status in a document.
    pub fn marker(self) -> (r: &'static str)
        ensures
            r@ == yes_no_marker(self),
    {
        match self {
            YesNo::Yes => "\u{414}\u{430}",
            YesNo::No => "\u{41d}\u{435}\u{442}",
        }
    }
}

/// A person of the store.
#[derive(Clone, Debug, PartialEq, Eq)]
pub struct Person {
    pub id: String,
    pub name: String,
    pub gender: Gender,
    pub group_number: u64,
    pub study_status: YesNo,
    pub impromptu_status: YesNo,
    pub limitations_status: YesNo,
    pub participation_status: YesNo,
    pub notes: String,
}

/// What a [`Person`] holds.
pub struct PersonView {
    pub id: Seq<char>,
    pub name: Seq<char>,
    pub gender: Gender,
    pub group_number: u64,
    pub study_status: YesNo,
    pub impromptu_status: YesNo,
    pub limitations_status: YesNo,
    pub participation_status: YesNo,
    pub notes: Seq<char>,
}

impl View for Person {
    type V = PersonView;

    open spec fn view(&self) -> PersonView {
        PersonView {
            id: self.id@,
            name: self.name@,
            gender: self.gender,
            group_number: self.group_number,
            study_status: self.study_status,
            impromptu_status: self.impromptu_status,
            limitations_status: self.limitations_status,
            participation_status: self.participation_status,
            notes: self.notes@,
        }
    }
}

/// The record of a person in a document: an object with one member for each
/// field, the keys in ascending order.
pub open spec fn person_json(p: PersonView) -> JsonView {
    JsonView::Object(
        seq![
            ("gender"@, JsonView::Str(gender_marker(p.gender))),
            ("groupNumber"@, JsonView::Unsigned(p.group_number)),
            ("id"@, JsonView::Str(p.id)),
            ("impromptuStatus"@, JsonView::Str(yes_no_marker(p.impromptu_status))),
            ("limitationsStatus"@, JsonView::Str(yes_no_marker(p.limitations_status))),
            ("name"@, JsonView::Str(p.name)),
            ("notes"@, JsonView::Str(p.notes)),
            ("participationStatus"@, JsonView::Str(yes_no_marker(p.participation_status))),
            ("studyStatus"@, JsonView::Str(yes_no_marker(p.study_status))),
        ],
    )
}

/// A member whose value is a string.
fn text_member(key: &str, value: &str) -> (r: Member)
    ensures
        r@ == (key@, JsonView::Str(value@)),
{
    Member { key: String::from_str(key), value: Json::Str(String::from_str(value)) }
}

impl Person {
    /// The record of this person in a document.
    pub fn to_json(&self) -> (r: Json)
        ensures
            r@ == person_json(self@),
    {
        let mut members: Vec<Member> = Vec::new();
        members.push(text_member("gender", self.gender.marker()));
        members.push(
            Member { key: String::from_str("groupNumber"), value: Json::Unsigned(self.group_number) },
        );
        members.push(text_member("id", self.id.as_str()));
        members.push(text_member("impromptuStatus", self.impromptu_status.marker()));
        members.push(text_member("limitationsStatus", self.limitations_status.marker()));
        members.push(text_member("name", self.name.as_str()));
        members.push(text_member("notes", self.notes.as_str()));
        members.push(text_member("participationStatus", self.participation_status.marker()));
        members.push(text_member("studyStatus", self.study_status.marker()));
        proof {
            lemma_object_view(members);
            assert(crate::json::member_views(members@) =~= person_json(self@)->Object_0);
        }
        Json::Object(members)
    }
}

/// The text of the member `key` of `input`, where `input` is an object and
/// that member is a string.
pub open spec fn field_text(input: JsonView, key: Seq<char>) -> Option<Seq<char>> {
    match input.member(key) {
        Some(v) => v.text(),
        None => None,
    }
}

/// The name that a request asks for: its member `name`, normalized; the
/// empty text where the request has no such member or it is no string.
pub open spec fn requested_name(input: JsonView) -> Seq<char> {
    match field_text(input, "name"@) {
        Some(s) => normalized(s),
        None => Seq::empty(),
    }
}

/// The gender that a request asks for: `Female` where its member `gender` is
/// the token for it, `Male` in every other case.
pub open spec fn requested_gender(input: JsonView) -> Gender {
    if field_text(input, "gender"@) == Some(gender_marker(Gender::Female)) {
        Gender::Female
    } else {
        Gender::Male
    }
}

/// The group that a request asks for: its member `groupNumber` where that is
/// an integer that is not negative, 1 in every other case.
pub open spec fn requested_group(input: JsonView) -> u64 {
    match input.member("groupNumber"@) {
        Some(v) => match v.unsigned() {
            Some(n) => n,
            None => 1,
        },
        None => 1,
    }
}

/// The status that a request asks for under `key`: `Yes` where that member
/// is the token for it, `No` in every other case.
pub open spec fn requested_status(input: JsonView, key: Seq<char>) -> YesNo {
    if field_text(input, key) == Some(yes_no_marker(YesNo::Yes)) {
        YesNo::Yes
    } else {
        YesNo::No
    }
}

/// The notes that a request asks for: its member `notes` where that is a
/// string, the empty text in every other case.
pub open spec fn requested_notes(input: JsonView) -> Seq<char> {
    match field_text(input, "notes"@) {
        Some(s) => s,
        None => Seq::empty(),
    }
}

/// The members of a person's record are the person's fields: looking up a
/// field's key finds that field, as a string or, for the group, as a number.
pub proof fn lemma_person_json_fields(p: PersonView)
    ensures
        field_text(person_json(p), "id"@) == Some(p.id),
        field_text(person_json(p), "name"@) == Some(p.name),
        field_text(person_json(p), "gender"@) == Some(gender_marker(p.gender)),
        person_json(p).member("groupNumber"@) == Some(JsonView::Unsigned(p.group_number)),
        field_text(person_json(p), "studyStatus"@) == Some(yes_no_marker(p.study_status)),
        field_text(person_json(p), "impromptuStatus"@) == Some(yes_no_marker(p.impromptu_status)),
        field_text(person_json(p), "limitationsStatus"@) == Some(
            yes_no_marker(p.limitations_status),
        ),
        field_text(person_json(p), "participationStatus"@) == Some(
            yes_no_marker(p.participation_status),
        ),
        field_text(person_json(p), "notes"@) == Some(p.notes),
{
    reveal_strlit("gender");
    reveal_strlit("groupNumber");
    reveal_strlit("id");
    reveal_strlit("impromptuStatus");
    reveal_strlit("limitationsStatus");
    reveal_strlit("name");
    reveal_strlit("notes");
    reveal_strlit("participationStatus");
    reveal_strlit("studyStatus");
    let members = person_json(p)->Object_0;
    assert(members.len() == 9);
    assert("gender"@.len() == 6);
    assert("groupNumber"@.len() == 11);
    assert("id"@.len() == 2);
    assert("impromptuStatus"@.len() == 15);
    assert("limitationsStatus"@.len() == 17);
    assert("name"@.len() == 4);
    assert("notes"@.len() == 5);
    assert("participationStatus"@.len() == 19);
    assert("studyStatus"@.len() == 11);
    assert("groupNumber"@[0] != "studyStatus"@[0]);
    assert(members[0].0 == "gender"@);
    assert(members[1].0 == "groupNumber"@);
    assert(members[2].0 == "id"@);
    assert(members[3].0 == "impromptuStatus"@);
    assert(members[4].0 == "limitationsStatus"@);
    assert(members[5].0 == "name"@);
    assert(members[6].0 == "notes"@);
    assert(members[7].0 == "participationStatus"@);
    assert(members[8].0 == "studyStatus"@);
    lemma_last_index_is(members, "gender"@, 0);
    lemma_last_index_is(members, "groupNumber"@, 1);
    lemma_last_index_is(members, "id"@, 2);
    lemma_last_index_is(members, "impromptuStatus"@, 3);
    lemma_last_index_is(members, "limitationsStatus"@, 4);
    lemma_last_index_is(members, "name"@, 5);
    lemma_last_index_is(members, "notes"@, 6);
    lemma_last_index_is(members, "participationStatus"@, 7);
    lemma_last_index_is(members, "studyStatus"@, 8);
}

/// A person's record, read as a request, asks for the person's own fields.
pub proof fn lemma_record_reads_back(p: PersonView)
    ensures
        requested_name(person_json(p)) == normalized(p.name),
        requested_gender(person_json(p)) == p.gender,
        requested_group(person_json(p)) == p.group_number,
        requested_status(person_json(p), "studyStatus"@) == p.study_status,
        requested_status(person_json(p), "impromptuStatus"@) == p.impromptu_status,
        requested_status(person_json(p), "limitationsStatus"@) == p.limitations_status,
        requested_status(person_json(p), "participationStatus"@) == p.participation_status,
        requested_notes(person_json(p)) == p.notes,
{
    lemma_person_json_fields(p);
    reveal_strlit("\u{416}");
    reveal_strlit("\u{41c}");
    reveal_strlit("\u{414}\u{430}");
    reveal_strlit("\u{41d}\u{435}\u{442}");
    assert(gender_marker(Gender::Female) != gender_marker(Gender::Male)) by {
        assert(gender_marker(Gender::Female)[0] != gender_marker(Gender::Male)[0]);
    }
    assert(yes_no_marker(YesNo::Yes).len() != yes_no_marker(YesNo::No).len());
}

/// The text of the member `key` of `input`.
pub fn text_field<'a>(input: &'a Json, key: &str) -> (r: Option<&'a str>)
    ensures
        match r {
            Some(s) => field_text(input@, key@) == Some(s@),
            None => field_text(input@, key@) is None,
        },
{
    match input.get(key) {
        Some(v) => v.as_str(),
        None => None,
    }
}

/// The name that the request `input` asks for.
pub fn read_name(input: &Json) -> (r: String)
    ensures
        r@ == requested_name(input@),
{
    match text_field(input, "name") {
        Some(s) => normalize_name(s),
        None => String::new(),
    }
}

/// The name that the request `input` asks for, which must not be empty:
/// a request without one fails with `NameRequired`.
pub fn required_name(input: &Json) -> (r: Result<String, ErrorKind>)
    ensures
        match r {
            Ok(name) => name@ == requested_name(input@) && name@.len() > 0,
            Err(kind) => kind == ErrorKind::NameRequired && requested_name(input@).len() == 0,
        },
{
    let name = read_name(input);
    if name.as_str().is_empty() {
        Err(ErrorKind::NameRequired)
    } else {
        Ok(name)
    }
}

/// The gender that the request `input` asks for.
pub fn read_gender(input: &Json) -> (r: Gender)
    ensures
        r == requested_gender(input@),
{
    match text_field(input, "gender") {
        Some(s) => if same_text(s, Gender::Female.marker()) {
            Gender::Female
        } else {
            Gender::Male
        },
        None => Gender::Male,
    }
}

/// The group that the request `input` asks for.
pub fn read_group_number(input: &Json) -> (r: u64)
    ensures
        r == requested_group(input@),
{
    match input.get("groupNumber") {
        Some(v) => match v.as_u64() {
            Some(n) => n,
            None => 1,
        },
        None => 1,
    }
}

/// The status that the request `input` asks for under `key`.
pub fn read_status(input: &Json, key: &str) -> (r: YesNo)
    ensures
        r == requested_status(input@, key@),
{
    match text_field(input, key) {
        Some(s) => if same_text(s, YesNo::Yes.marker()) {
            YesNo::Yes
        } else {
            YesNo::No
        },
        None => YesNo::No,
    }
}

/// The notes that the request `input` asks for.
pub fn read_notes(input: &Json) -> (r: String)
    ensures
        r@ == requested_notes(input@),
{
    match text_field(input, "notes") {
        Some(s) => String::from_str(s),
        None => String::new(),
    }
}

} // verus!
