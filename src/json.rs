use vstd::prelude::*;

verus! {

/// A JSON document as a tree of plain values: the form in which the bundle
/// envelope and every module's parameters and results travel.
#[derive(Debug, PartialEq)]
pub enum Json {
    Null,
    Bool(bool),
    /// A non-negative integer.
    UInt(u64),
    /// A negative integer.
    NegInt(i64),
    /// Any other number, kept as its decimal text.
    Decimal(String),
    Str(String),
    Array(Vec<Json>),
    /// The members of an object, in the order they are held.
    Object(Vec<(String, Json)>),
}

/// `i` is the position of the first member named `key`.
pub open spec fn is_first_member(fields: Seq<(String, Json)>, key: Seq<char>, i: int) -> bool {
    &&& 0 <= i < fields.len()
    &&& fields[i].0@ == key
    &&& forall|k: int| 0 <= k < i ==> fields[k].0@ != key
}

pub open spec fn has_member(fields: Seq<(String, Json)>, key: Seq<char>) -> bool {
    exists|i: int| 0 <= i < fields.len() && fields[i].0@ == key
}

/// The value of the first member named `key` of an object; `None` when `j` is
/// no object or has no such member.
pub open spec fn member(j: Json, key: Seq<char>) -> Option<Json> {
    match j {
        Json::Object(fields) => if has_member(fields@, key) {
            Some(fields@[choose|i: int| is_first_member(fields@, key, i)].1)
        } else {
            None
        },
        _ => None,
    }
}

/// A string member.
pub open spec fn str_member(j: Json, key: Seq<char>) -> Option<Seq<char>> {
    match member(j, key) {
        Some(Json::Str(s)) => Some(s@),
        _ => None,
    }
}

/// A boolean member.
pub open spec fn bool_member(j: Json, key: Seq<char>) -> Option<bool> {
    match member(j, key) {
        Some(Json::Bool(b)) => Some(b),
        _ => None,
    }
}

/// An unsigned integer member that fits a `usize`.
pub open spec fn uint_member(j: Json, key: Seq<char>) -> Option<int> {
    match member(j, key) {
        Some(Json::UInt(n)) => if n <= usize::MAX {
            Some(n as int)
        } else {
            None
        },
        _ => None,
    }
}

/// An optional member: absent or `null` reads as `Some(None)`, a value of the
/// wrong kind as `None`.
pub open spec fn opt_str_member(j: Json, key: Seq<char>) -> Option<Option<Seq<char>>> {
    match member(j, key) {
        None => Some(None),
        Some(Json::Null) => Some(None),
        Some(Json::Str(s)) => Some(Some(s@)),
        _ => None,
    }
}

pub open spec fn opt_uint_member(j: Json, key: Seq<char>) -> Option<Option<int>> {
    match member(j, key) {
        None => Some(None),
        Some(Json::Null) => Some(None),
        Some(Json::UInt(n)) => if n <= usize::MAX {
            Some(Some(n as int))
        } else {
            None
        },
        _ => None,
    }
}

pub open spec fn opt_bool_member(j: Json, key: Seq<char>) -> Option<Option<bool>> {
    match member(j, key) {
        None => Some(None),
        Some(Json::Null) => Some(None),
        Some(Json::Bool(b)) => Some(Some(b)),
        _ => None,
    }
}

/// The items of an array member.
pub open spec fn array_member(j: Json, key: Seq<char>) -> Option<Seq<Json>> {
    match member(j, key) {
        Some(Json::Array(items)) => Some(items@),
        _ => None,
    }
}

/// An optional array member: absent or `null` reads as `Some(None)`.
pub open spec fn opt_array_member(j: Json, key: Seq<char>) -> Option<Option<Seq<Json>>> {
    match member(j, key) {
        None => Some(None),
        Some(Json::Null) => Some(None),
        Some(Json::Array(items)) => Some(Some(items@)),
        _ => None,
    }
}

/// The view of an optional string.
pub open spec fn opt_view(o: Option<String>) -> Option<Seq<char>> {
    match o {
        Some(s) => Some(s@),
        None => None,
    }
}

pub proof fn lemma_first_member_unique(fields: Seq<(String, Json)>, key: Seq<char>, i: int, k: int)
    requires
        is_first_member(fields, key, i),
        is_first_member(fields, key, k),
    ensures
        i == k,
{
}

/// The position of the first member named `key`.
pub fn find_member(fields: &Vec<(String, Json)>, key: &str) -> (r: Option<usize>)
    ensures
        match r {
            Some(i) => is_first_member(fields@, key@, i as int),
            None => !has_member(fields@, key@),
        },
{
    let name = key.to_owned();
    let mut i: usize = 0;
    while i < fields.len()
        invariant
            i <= fields.len(),
            name@ == key@,
            forall|k: int| 0 <= k < i ==> fields@[k].0@ != key@,
        decreases fields.len() - i,
    {
        if fields[i].0 == name {
            return Some(i);
        }
        i = i + 1;
    }
    None
}

/// The value of the first member named `key`, when `j` is an object.
pub fn get_member<'a>(j: &'a Json, key: &str) -> (r: Option<&'a Json>)
    ensures
        match r {
            Some(v) => member(*j, key@) == Some(*v),
            None => member(*j, key@) is None,
        },
{
    match j {
        Json::Object(fields) => match find_member(fields, key) {
            Some(i) => {
                proof {
                    assert forall|k: int| is_first_member(fields@, key@, k) implies k == i by {
                        lemma_first_member_unique(fields@, key@, i as int, k);
                    }
                }
                Some(&fields[i].1)
            },
            None => None,
        },
        _ => None,
    }
}

pub fn read_str(j: &Json, key: &str) -> (r: Option<String>)
    ensures
        opt_view(r) == str_member(*j, key@),
{
    match get_member(j, key) {
        Some(Json::Str(s)) => Some(s.clone()),
        _ => None,
    }
}

pub fn read_bool(j: &Json, key: &str) -> (r: Option<bool>)
    ensures
        r == bool_member(*j, key@),
{
    match get_member(j, key) {
        Some(Json::Bool(b)) => Some(*b),
        _ => None,
    }
}

pub fn read_uint(j: &Json, key: &str) -> (r: Option<usize>)
    ensures
        match r {
            Some(n) => uint_member(*j, key@) == Some(n as int),
            None => uint_member(*j, key@) is None,
        },
{
    match get_member(j, key) {
        Some(Json::UInt(n)) => if *n <= usize::MAX as u64 {
            Some(*n as usize)
        } else {
            None
        },
        _ => None,
    }
}

pub fn read_opt_str(j: &Json, key: &str) -> (r: Option<Option<String>>)
    ensures
        match r {
            Some(o) => opt_str_member(*j, key@) == Some(opt_view(o)),
            None => opt_str_member(*j, key@) is None,
        },
{
    match get_member(j, key) {
        None => Some(None),
        Some(Json::Null) => Some(None),
        Some(Json::Str(s)) => Some(Some(s.clone())),
        _ => None,
    }
}

pub fn read_opt_uint(j: &Json, key: &str) -> (r: Option<Option<usize>>)
    ensures
        match r {
            Some(Some(n)) => opt_uint_member(*j, key@) == Some(Some(n as int)),
            Some(None) => opt_uint_member(*j, key@) == Some(None::<int>),
            None => opt_uint_member(*j, key@) is None,
        },
{
    match get_member(j, key) {
        None => Some(None),
        Some(Json::Null) => Some(None),
        Some(Json::UInt(n)) => if *n <= usize::MAX as u64 {
            Some(Some(*n as usize))
        } else {
            None
        },
        _ => None,
    }
}

pub fn read_opt_bool(j: &Json, key: &str) -> (r: Option<Option<bool>>)
    ensures
        r == opt_bool_member(*j, key@),
{
    match get_member(j, key) {
        None => Some(None),
        Some(Json::Null) => Some(None),
        Some(Json::Bool(b)) => Some(Some(*b)),
        _ => None,
    }
}

pub fn read_array<'a>(j: &'a Json, key: &str) -> (r: Option<&'a Vec<Json>>)
    ensures
        match r {
            Some(v) => array_member(*j, key@) == Some(v@),
            None => array_member(*j, key@) is None,
        },
{
    match get_member(j, key) {
        Some(Json::Array(items)) => Some(items),
        _ => None,
    }
}

pub fn read_opt_array<'a>(j: &'a Json, key: &str) -> (r: Option<Option<&'a Vec<Json>>>)
    ensures
        match r {
            Some(Some(v)) => opt_array_member(*j, key@) == Some(Some(v@)),
            Some(None) => opt_array_member(*j, key@) == Some(None::<Seq<Json>>),
            None => opt_array_member(*j, key@) is None,
        },
{
    match get_member(j, key) {
        None => Some(None),
        Some(Json::Null) => Some(None),
        Some(Json::Array(items)) => Some(Some(items)),
        _ => None,
    }
}

/// Member `key` of an object built with the members `fields` holds `fields[i].1`.
pub proof fn lemma_member_at(j: Json, key: Seq<char>, i: int)
    requires
        j matches Json::Object(fields) && is_first_member(fields@, key, i),
    ensures
        member(j, key) == Some(j->Object_0@[i].1),
{
    let fields = j->Object_0@;
    assert forall|k: int| is_first_member(fields, key, k) implies k == i by {
        lemma_first_member_unique(fields, key, i, k);
    }
}

/// Takes the value of the first member named `key` out of an object.
pub fn take_member(j: Json, key: &str) -> (r: Option<Json>)
    ensures
        r == member(j, key@),
{
    match j {
        Json::Object(fields) => {
            let ghost g = Json::Object(fields);
            match find_member(&fields, key) {
                Some(i) => {
                    proof {
                        lemma_member_at(g, key@, i as int);
                    }
                    let mut fields = fields;
                    let (_, value) = fields.remove(i);
                    Some(value)
                },
                None => None,
            }
        },
        _ => None,
    }
}

/// Takes the items out of an array.
pub fn take_items(j: Json) -> (r: Option<Vec<Json>>)
    ensures
        match r {
            Some(v) => j == Json::Array(v),
            None => !(j is Array),
        },
{
    match j {
        Json::Array(items) => Some(items),
        _ => None,
    }
}

/// Takes the value of the first member named `key` out of the members of an
/// object, leaving an empty name and `null` in its place.
pub fn take_member_from(fields: &mut Vec<(String, Json)>, key: &str) -> (r: Option<Json>)
    requires
        key@.len() > 0,
    ensures
        r == member(Json::Object(*old(fields)), key@),
        forall|k: Seq<char>| k.len() > 0 && k != key@ ==> #[trigger] member(Json::Object(*final(fields)), k)
            == member(Json::Object(*old(fields)), k),
{
    let ghost before = *fields;
    match find_member(fields, key) {
        Some(i) => {
            proof {
                lemma_member_at(Json::Object(before), key@, i as int);
            }
            let mut slot = (String::new(), Json::Null);
            fields.set_and_swap(i, &mut slot);
            proof {
                let after = *fields;
                assert forall|k: Seq<char>| k.len() > 0 && k != key@ implies #[trigger] member(Json::Object(after), k)
                    == member(Json::Object(before), k) by {
                    assert(after@[i as int].0@ == Seq::<char>::empty());
                    assert forall|m: int| 0 <= m < after@.len() && m != i implies after@[m] == before@[m] by {}
                    if has_member(before@, k) {
                        let f = choose|f: int| is_first_member(before@, k, f);
                        assert(exists|f: int| is_first_member(before@, k, f)) by {
                            let w = choose|w: int| 0 <= w < before@.len() && before@[w].0@ == k;
                            first_index_exists(before@, k, w);
                        }
                        assert(is_first_member(after@, k, f));
                        assert(has_member(after@, k));
                        lemma_member_at(Json::Object(after), k, f);
                        lemma_member_at(Json::Object(before), k, f);
                    } else {
                        assert(!has_member(after@, k));
                    }
                }
            }
            Some(slot.1)
        },
        None => None,
    }
}

/// A member named `k` has a first occurrence.
proof fn first_index_exists(fields: Seq<(String, Json)>, k: Seq<char>, w: int)
    requires
        0 <= w < fields.len(),
        fields[w].0@ == k,
    ensures
        exists|f: int| is_first_member(fields, k, f),
    decreases w,
{
    if exists|m: int| 0 <= m < w && fields[m].0@ == k {
        let m = choose|m: int| 0 <= m < w && fields[m].0@ == k;
        first_index_exists(fields, k, m);
    } else {
        assert(is_first_member(fields, k, w));
    }
}

} // verus!
