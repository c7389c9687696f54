use crate::json::views;
use crate::json::Json;
use crate::json::JsonView;
use crate::person::field_text;
use crate::person::read_gender;
use crate::person::read_group_number;
use crate::person::read_name;
use crate::person::read_notes;
use crate::person::read_status;
use crate::person::requested_gender;
use crate::person::requested_group;
use crate::person::requested_name;
use crate::person::requested_notes;
use crate::person::requested_status;
use crate::person::text_field;
use crate::person::Person;
use crate::person::PersonView;
use crate::person_id::extract_person_number;
use crate::person_id::format_person_id;
use crate::person_id::lemma_person_number_of_id;
use crate::person_id::person_id_text;
use crate::person_id::person_number;
use crate::text::lowercase;
use crate::text::lowercased;
use crate::text::normalize_name;
use crate::text::normalized;
use vstd::prelude::*;

verus! {

/// The number that a record carries in its member `id`; `None` where the
/// record has no such member, it is no string, or it has not the form of an
/// identifier.
pub open spec fn record_number(record: JsonView) -> Option<u32> {
    match field_text(record, "id"@) {
        Some(id) => person_number(id),
        None => None,
    }
}

/// The largest number that any of the records carries; 0 where none carries
/// a number.
pub open spec fn max_number(people: Seq<JsonView>) -> nat
    decreases people.len(),
{
    if people.len() == 0 {
        0
    } else {
        let before = max_number(people.drop_last());
        match record_number(people.last()) {
            Some(n) => if n > before {
                n as nat
            } else {
                before
            },
            None => before,
        }
    }
}

/// The form in which two names are compared: white space normalized, then
/// lowercase.
pub open spec fn name_key(name: Seq<char>) -> Seq<char> {
    lowercased(normalized(name))
}

/// The name of a record in the form in which names are compared; `None`
/// where the record has no member `name` or it is no string.
pub open spec fn record_key(record: JsonView) -> Option<Seq<char>> {
    match field_text(record, "name"@) {
        Some(n) => Some(name_key(n)),
        None => None,
    }
}

/// Whether one of the records has a name that equals `name` but for case and
/// white space. `name` is taken as it is: the caller has normalized it.
pub open spec fn name_taken(people: Seq<JsonView>, name: Seq<char>) -> bool {
    exists|i: int|
        0 <= i < people.len() && #[trigger] record_key(people[i]) == Some(lowercased(name))
}

/// The person that a request creates among the records `people`: the next
/// identifier, the name asked for, and every other field as asked for or at
/// its default.
pub open spec fn new_person(people: Seq<JsonView>, input: JsonView) -> PersonView {
    PersonView {
        id: person_id_text(max_number(people) + 1),
        name: requested_name(input),
        gender: requested_gender(input),
        group_number: requested_group(input),
        study_status: requested_status(input, "studyStatus"@),
        impromptu_status: requested_status(input, "impromptuStatus"@),
        limitations_status: requested_status(input, "limitationsStatus"@),
        participation_status: requested_status(input, "participationStatus"@),
        notes: requested_notes(input),
    }
}

/// `max_number` is the largest number among the records: no record carries a
/// larger one, and unless it is 0 some record carries it.
pub proof fn lemma_max_number(people: Seq<JsonView>)
    ensures
        max_number(people) <= u32::MAX,
        forall|i: int|
            0 <= i < people.len() ==> (#[trigger] record_number(people[i]) matches Some(n) ==> n
                <= max_number(people)),
        max_number(people) == 0 || exists|i: int|
            0 <= i < people.len() && #[trigger] record_number(people[i]) == Some(
                max_number(people) as u32,
            ),
    decreases people.len(),
{
    if people.len() > 0 {
        let front = people.drop_last();
        lemma_max_number(front);
        assert forall|i: int| 0 <= i < people.len() implies (#[trigger] record_number(
            people[i],
        ) matches Some(n) ==> n <= max_number(people)) by {
            if i < front.len() {
                assert(front[i] == people[i]);
            }
        }
        if max_number(people) != 0 {
            if max_number(people) == max_number(front) {
                let i = choose|i: int|
                    0 <= i < front.len() && #[trigger] record_number(front[i]) == Some(
                        max_number(front) as u32,
                    );
                assert(front[i] == people[i]);
            } else {
                assert(record_number(people[people.len() - 1]) == Some(max_number(people) as u32));
            }
        }
    }
}

/// The next identifier is new: no record has it, as long as the largest
/// number among the records is not the largest that 32 bits hold.
pub proof fn lemma_next_id_is_new(people: Seq<JsonView>)
    requires
        max_number(people) < u32::MAX,
    ensures
        forall|i: int|
            0 <= i < people.len() ==> #[trigger] field_text(people[i], "id"@) != Some(
                person_id_text(max_number(people) + 1),
            ),
{
    lemma_max_number(people);
    lemma_person_number_of_id(max_number(people) + 1);
    assert forall|i: int| 0 <= i < people.len() implies #[trigger] field_text(
        people[i],
        "id"@,
    ) != Some(person_id_text(max_number(people) + 1)) by {
        if field_text(people[i], "id"@) == Some(person_id_text(max_number(people) + 1)) {
            assert(record_number(people[i]) == Some((max_number(people) + 1) as u32));
        }
    }
}

/// The identifier for the next person: one more than the largest number that
/// the records carry.
pub fn next_person_id(people: &Vec<Json>) -> (r: String)
    ensures
        r@ == person_id_text(max_number(views(people@)) + 1),
{
    let ghost all = views(people@);
    let mut max: u32 = 0;
    let mut i: usize = 0;
    while i < people.len()
        invariant
            i <= people.len(),
            all == views(people@),
            max == max_number(all.take(i as int)),
        decreases people.len() - i,
    {
        proof {
            let upto = all.take(i + 1);
            assert(upto.drop_last() == all.take(i as int));
            assert(upto.last() == people@[i as int]@);
        }
        match text_field(&people[i], "id") {
            Some(id) => match extract_person_number(id) {
                Some(n) => if n > max {
                    max = n;
                },
                None => {},
            },
            None => {},
        }
        i += 1;
    }
    assert(all.take(people.len() as int) == all);
    format_person_id(max as u64 + 1)
}

/// Whether one of the records has a name that equals `name` but for case and
/// white space.
pub fn has_name(people: &Vec<Json>, name: &str) -> (r: bool)
    ensures
        r == name_taken(views(people@), name@),
{
    let ghost all = views(people@);
    let wanted = lowercase(name);
    let mut i: usize = 0;
    while i < people.len()
        invariant
            i <= people.len(),
            all == views(people@),
            wanted@ == lowercased(name@),
            !name_taken(all.take(i as int), name@),
        decreases people.len() - i,
    {
        let ghost upto = all.take(i + 1);
        match text_field(&people[i], "name") {
            Some(n) => {
                let known = normalize_name(n);
                let key = lowercase(known.as_str());
                if key == wanted {
                    assert(record_key(all[i as int]) == Some(lowercased(name@)));
                    return true;
                }
            },
            None => {},
        }
        proof {
            assert forall|j: int| 0 <= j < upto.len() implies #[trigger] record_key(upto[j])
                != Some(lowercased(name@)) by {
                if j < i {
                    assert(all.take(i as int)[j] == upto[j]);
                }
            }
        }
        i += 1;
    }
    assert(all.take(people.len() as int) == all);
    false
}

/// The person that the request `input` creates among the records `people`.
pub fn build_person(people: &Vec<Json>, input: &Json) -> (r: Person)
    ensures
        r@ == new_person(views(people@), input@),
{
    Person {
        id: next_person_id(people),
        name: read_name(input),
        gender: read_gender(input),
        group_number: read_group_number(input),
        study_status: read_status(input, "studyStatus"),
        impromptu_status: read_status(input, "impromptuStatus"),
        limitations_status: read_status(input, "limitationsStatus"),
        participation_status: read_status(input, "participationStatus"),
        notes: read_notes(input),
    }
}

} // verus!
