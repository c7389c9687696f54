use serde_json::Number;
use vstd::prelude::*;

verus! {

/// A number of `serde_json`, carried as it is.
#[verifier::external_type_specification]
#[verifier::external_body]
pub struct ExNumber(Number);

/// One member of a JSON object: a key and the value stored under it.
#[derive(Debug, PartialEq)]
pub struct Member {
    pub key: String,
    pub value: Json,
}

/// A JSON value.
///
/// An object is a list of members. Where a key occurs more than once, the
/// last member with that key is the one that counts.
///
/// A number is `Unsigned` or `Signed` where it is an integer that fits, and
/// `Real` in every other case. What stands in `Real` is never read as an
/// integer.
#[derive(Debug, PartialEq)]
pub enum Json {
    Null,
    Bool(bool),
    /// An integer that is not negative.
    Unsigned(u64),
    /// An integer with a sign.
    Signed(i64),
    /// Any other number, as `serde_json` holds it.
    Real(Number),
    Str(String),
    Array(Vec<Json>),
    Object(Vec<Member>),
}

/// What a [`Json`] value holds, as mathematical data.
pub enum JsonView {
    Null,
    Bool(bool),
    Unsigned(u64),
    Signed(i64),
    Real(Number),
    Str(Seq<char>),
    Array(Seq<JsonView>),
    Object(Seq<(Seq<char>, JsonView)>),
}

/// The index of the last member of `members` whose key is `key`; -1 where
/// no member has that key.
pub open spec fn last_index(members: Seq<(Seq<char>, JsonView)>, key: Seq<char>) -> int
    decreases members.len(),
{
    if members.len() == 0 {
        -1
    } else if members.last().0 == key {
        members.len() - 1
    } else {
        last_index(members.drop_last(), key)
    }
}

/// The value of the last member of `members` whose key is `key`.
pub open spec fn lookup(members: Seq<(Seq<char>, JsonView)>, key: Seq<char>) -> Option<JsonView> {
    let i = last_index(members, key);
    if i >= 0 {
        Some(members[i].1)
    } else {
        None
    }
}

/// `last_index` finds a member with the key, and no later member has it.
pub proof fn lemma_last_index(members: Seq<(Seq<char>, JsonView)>, key: Seq<char>)
    ensures
        -1 <= last_index(members, key) < members.len(),
        last_index(members, key) >= 0 ==> members[last_index(members, key)].0 == key,
        forall|j: int| last_index(members, key) < j < members.len() ==> members[j].0 != key,
    decreases members.len(),
{
    if members.len() > 0 && members.last().0 != key {
        lemma_last_index(members.drop_last(), key);
        assert forall|j: int| last_index(members, key) < j < members.len() implies members[j].0
            != key by {
            if j < members.len() - 1 {
                assert(members.drop_last()[j] == members[j]);
            }
        }
    }
}

/// A member with the key after which no member has it is the one that
/// `last_index` finds.
pub proof fn lemma_last_index_is(members: Seq<(Seq<char>, JsonView)>, key: Seq<char>, i: int)
    requires
        0 <= i < members.len(),
        members[i].0 == key,
        forall|j: int| i < j < members.len() ==> (#[trigger] members[j]).0 != key,
    ensures
        last_index(members, key) == i,
    decreases members.len(),
{
    if i < members.len() - 1 {
        assert(members.last() == members[members.len() - 1]);
        let front = members.drop_last();
        assert(front[i] == members[i]);
        assert forall|j: int| i < j < front.len() implies (#[trigger] front[j]).0 != key by {
            assert(front[j] == members[j]);
        }
        lemma_last_index_is(front, key, i);
    }
}

impl JsonView {
    /// The member `key` of an object; `None` for a value that is no object
    /// and for an object without that key.
    pub open spec fn member(self, key: Seq<char>) -> Option<JsonView> {
        match self {
            JsonView::Object(members) => lookup(members, key),
            _ => None,
        }
    }

    /// The text of a string; `None` for any other value.
    pub open spec fn text(self) -> Option<Seq<char>> {
        match self {
            JsonView::Str(s) => Some(s),
            _ => None,
        }
    }

    /// The value of an integer that is not negative; `None` for any other
    /// value.
    pub open spec fn unsigned(self) -> Option<u64> {
        match self {
            JsonView::Unsigned(n) => Some(n),
            JsonView::Signed(n) if n >= 0 => Some(n as u64),
            _ => None,
        }
    }

    /// The elements of an array; none for any other value.
    pub open spec fn items(self) -> Seq<JsonView> {
        match self {
            JsonView::Array(items) => items,
            _ => Seq::empty(),
        }
    }
}

impl View for Member {
    type V = (Seq<char>, JsonView);

    open spec fn view(&self) -> (Seq<char>, JsonView) {
        (self.key@, self.value@)
    }
}

impl Json {
    /// What the value holds, as mathematical data.
    pub open spec fn model(&self) -> JsonView
        decreases self,
    {
        match self {
            Json::Null => JsonView::Null,
            Json::Bool(b) => JsonView::Bool(*b),
            Json::Unsigned(n) => JsonView::Unsigned(*n),
            Json::Signed(n) => JsonView::Signed(*n),
            Json::Real(n) => JsonView::Real(*n),
            Json::Str(s) => JsonView::Str(s@),
            Json::Array(items) => JsonView::Array(
                Seq::new(
                    items@.len(),
                    |i: int|
                        if 0 <= i < items@.len() {
                            items@[i].model()
                        } else {
                            JsonView::Null
                        },
                ),
            ),
            Json::Object(members) => JsonView::Object(
                Seq::new(
                    members@.len(),
                    |i: int|
                        if 0 <= i < members@.len() {
                            (members@[i].key@, members@[i].value.model())
                        } else {
                            (Seq::empty(), JsonView::Null)
                        },
                ),
            ),
        }
    }
}

impl View for Json {
    type V = JsonView;

    open spec fn view(&self) -> JsonView {
        self.model()
    }
}

/// The views of the values `items`, in order.
pub open spec fn views(items: Seq<Json>) -> Seq<JsonView> {
    items.map_values(|j: Json| j@)
}

/// The views of the members `members`, in order.
pub open spec fn member_views(members: Seq<Member>) -> Seq<(Seq<char>, JsonView)> {
    members.map_values(|m: Member| m@)
}

/// The view of an array is the sequence of the views of its elements.
pub proof fn lemma_array_view(items: Vec<Json>)
    ensures
        Json::Array(items)@ == JsonView::Array(views(items@)),
{
    assert(Json::Array(items)@->Array_0 =~= views(items@));
}

/// The view of an object is the sequence of the views of its members.
pub proof fn lemma_object_view(members: Vec<Member>)
    ensures
        Json::Object(members)@ == JsonView::Object(member_views(members@)),
{
    assert(Json::Object(members)@->Object_0 =~= member_views(members@));
}

/// `Number::clone` yields the same number.
pub assume_specification[ <Number as Clone>::clone ](n: &Number) -> (r: Number)
    ensures
        r == *n,
;

impl Json {
    /// A copy of the value.
    pub fn duplicate(&self) -> (r: Json)
        ensures
            r@ == self@,
        decreases self,
    {
        match self {
            Json::Null => Json::Null,
            Json::Bool(b) => Json::Bool(*b),
            Json::Unsigned(n) => Json::Unsigned(*n),
            Json::Signed(n) => Json::Signed(*n),
            Json::Real(n) => Json::Real(n.clone()),
            Json::Str(s) => Json::Str(s.clone()),
            Json::Array(items) => {
                let mut copy: Vec<Json> = Vec::new();
                let mut i: usize = 0;
                while i < items.len()
                    invariant
                        i <= items.len(),
                        copy.len() == i,
                        self == Json::Array(*items),
                        views(copy@) == views(items@).take(i as int),
                    decreases items.len() - i,
                {
                    proof {
                        vstd::std_specs::vec::axiom_vec_index_decreases(*items, i as int);
                        assert(decreases_to!(*self => self->Array_0));
                    }
                    let ghost before = views(copy@);
                    let item = items[i].duplicate();
                    copy.push(item);
                    assert(views(copy@) =~= before.push(items@[i as int]@));
                    assert(views(items@).take(i + 1) =~= before.push(items@[i as int]@));
                    i += 1;
                }
                proof {
                    lemma_array_view(*items);
                    lemma_array_view(copy);
                    assert(views(items@).take(items.len() as int) == views(items@));
                }
                Json::Array(copy)
            },
            Json::Object(members) => {
                let mut copy: Vec<Member> = Vec::new();
                let mut i: usize = 0;
                while i < members.len()
                    invariant
                        i <= members.len(),
                        copy.len() == i,
                        self == Json::Object(*members),
                        member_views(copy@) == member_views(members@).take(i as int),
                    decreases members.len() - i,
                {
                    proof {
                        vstd::std_specs::vec::axiom_vec_index_decreases(*members, i as int);
                        assert(decreases_to!(*self => self->Object_0));
                        assert(decreases_to!(members@[i as int] => members@[i as int].value));
                    }
                    let ghost before = member_views(copy@);
                    let value = members[i].value.duplicate();
                    copy.push(Member { key: members[i].key.clone(), value });
                    assert(member_views(copy@) =~= before.push(members@[i as int]@));
                    assert(member_views(members@).take(i + 1) =~= before.push(members@[i as int]@));
                    i += 1;
                }
                proof {
                    lemma_object_view(*members);
                    lemma_object_view(copy);
                    assert(member_views(members@).take(members.len() as int) == member_views(
                        members@,
                    ));
                }
                Json::Object(copy)
            },
        }
    }
}

impl Clone for Json {
    fn clone(&self) -> (r: Json)
        ensures
            r@ == self@,
    {
        self.duplicate()
    }
}

impl Clone for Member {
    fn clone(&self) -> (r: Member)
        ensures
            r@ == self@,
    {
        Member { key: self.key.clone(), value: self.value.duplicate() }
    }
}

/// The index of the last member of `members` whose key is `key`.
pub fn find_member(members: &Vec<Member>, key: &str) -> (r: Option<usize>)
    ensures
        r matches Some(i) ==> i < members.len(),
        match r {
            Some(i) => i == last_index(member_views(members@), key@),
            None => last_index(member_views(members@), key@) == -1,
        },
{
    let wanted = key.to_owned();
    let ghost all = member_views(members@);
    assert(all.take(all.len() as int) == all);
    let mut i: usize = members.len();
    while i > 0
        invariant
            i <= members.len(),
            wanted@ == key@,
            all == member_views(members@),
            last_index(all, key@) == last_index(all.take(i as int), key@),
        decreases i,
    {
        i -= 1;
        let ghost upto = all.take(i + 1);
        assert(upto.last() == members@[i as int]@);
        assert(upto.drop_last() == all.take(i as int));
        if members[i].key == wanted {
            return Some(i);
        }
    }
    assert(all.take(0).len() == 0);
    None
}

impl Json {
    /// The member `key` of an object.
    pub fn get(&self, key: &str) -> (r: Option<&Json>)
        ensures
            match r {
                Some(v) => self@.member(key@) == Some(v@),
                None => self@.member(key@) is None,
            },
    {
        match self {
            Json::Object(members) => {
                proof {
                    lemma_object_view(*members);
                }
                match find_member(members, key) {
                    Some(i) => Some(&members[i].value),
                    None => None,
                }
            },
            _ => None,
        }
    }

    /// The text of a string.
    pub fn as_str(&self) -> (r: Option<&str>)
        ensures
            match r {
                Some(s) => self@.text() == Some(s@),
                None => self@.text() is None,
            },
    {
        match self {
            Json::Str(s) => Some(s.as_str()),
            _ => None,
        }
    }

    /// The value of an integer that is not negative.
    pub fn as_u64(&self) -> (r: Option<u64>)
        ensures
            r == self@.unsigned(),
    {
        match self {
            Json::Unsigned(n) => Some(*n),
            Json::Signed(n) => if *n >= 0 {
                Some(*n as u64)
            } else {
                None
            },
            _ => None,
        }
    }

    /// The elements of an array.
    pub fn as_array(&self) -> (r: Option<&Vec<Json>>)
        ensures
            match r {
                Some(items) => self@ == JsonView::Array(views(items@)),
                None => !(self@ is Array),
            },
    {
        match self {
            Json::Array(items) => {
                proof {
                    lemma_array_view(*items);
                }
                Some(items)
            },
            _ => None,
        }
    }

    /// Whether the value is an array.
    pub fn is_array(&self) -> (r: bool)
        ensures
            r == (self@ is Array),
    {
        match self {
            Json::Array(_) => true,
            _ => false,
        }
    }
}

} // verus!
