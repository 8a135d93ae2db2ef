//! The query parameters of a request.
//!
//! Requests are taken apart by the `urlparse` crate. What it returns is not
//! derived here: the two functions below that call it are believed, and their
//! results have names, [`url_query`] and [`query_fields`], that the contracts
//! of this library speak of.

use vstd::prelude::*;
use vstd::string::*;

verus! {

/// The query component that `urlparse::urlparse` finds in a request, `None`
/// where it finds none or an empty one.
pub uninterp spec fn url_query(request: Seq<char>) -> Option<Seq<char>>;

/// The parameters that `urlparse::parse_qs` reads out of a query component:
/// each name with its values in order of appearance.
pub uninterp spec fn query_fields(query: Seq<char>) -> Map<Seq<char>, Seq<Seq<char>>>;

/// One parameter as the parser hands it out: its name and its values.
pub type Field = (String, Vec<String>);

/// The view of a parameter.
pub open spec fn field_view(field: Field) -> (Seq<char>, Seq<Seq<char>>) {
    (field.0@, field.1.deep_view())
}

/// The views of a list of parameters, in order.
pub open spec fn fields_view(fields: Seq<Field>) -> Seq<(Seq<char>, Seq<Seq<char>>)> {
    Seq::new(fields.len(), |i: int| field_view(fields[i]))
}

/// A list of parameters holds what a map holds: every entry of the list is in
/// the map with a value that is not empty, and every name of the map is in the list.
pub open spec fn lists(
    fields: Seq<(Seq<char>, Seq<Seq<char>>)>,
    map: Map<Seq<char>, Seq<Seq<char>>>,
) -> bool {
    &&& forall|i: int|
        0 <= i < fields.len() ==> map.contains_key((#[trigger] fields[i]).0) && map[fields[i].0]
            == fields[i].1 && fields[i].1.len() > 0
    &&& forall|name: Seq<char>| #[trigger]
        map.contains_key(name) ==> exists|i: int| 0 <= i < fields.len() && (#[trigger] fields[i]).0 == name
}

/// The values of the first parameter called `name` in a list.
pub open spec fn lookup(fields: Seq<(Seq<char>, Seq<Seq<char>>)>, name: Seq<char>) -> Option<
    Seq<Seq<char>>,
>
    decreases fields.len(),
{
    if fields.len() == 0 {
        None
    } else if fields[0].0 == name {
        Some(fields[0].1)
    } else {
        lookup(fields.skip(1), name)
    }
}

/// The parameters of a request: those of its query component, `None` where it has none.
pub open spec fn request_fields(request: Seq<char>) -> Option<Map<Seq<char>, Seq<Seq<char>>>> {
    match url_query(request) {
        Some(query) => Some(query_fields(query)),
        None => None,
    }
}

/// The view of an optional string.
pub open spec fn text_view(text: Option<String>) -> Option<Seq<char>> {
    match text {
        Some(t) => Some(t@),
        None => None,
    }
}

/// Calls `urlparse::urlparse` and picks the query component of the result.
/// Believed: the component is the one named [`url_query`]. Nothing else is claimed of it.
#[verifier::external_body]
pub(crate) fn request_query(request: &str) -> (query: Option<String>)
    ensures
        text_view(query) == url_query(request@),
{
    urlparse::urlparse(request).query
}

/// Calls `urlparse::parse_qs` and hands out the entries of the map it returns,
/// in no particular order. Believed: the entries are those of the map named
/// [`query_fields`], and no entry has an empty list of values (the parser
/// makes an entry only to push a value onto it).
#[verifier::external_body]
pub(crate) fn parse_query(query: &str) -> (fields: Vec<Field>)
    ensures
        lists(fields_view(fields@), query_fields(query@)),
{
    urlparse::parse_qs(query).into_iter().collect()
}

/// Where a list holds what a map holds, looking a name up in the list gives
/// what the map has for it.
pub proof fn lemma_lookup_lists(
    fields: Seq<(Seq<char>, Seq<Seq<char>>)>,
    map: Map<Seq<char>, Seq<Seq<char>>>,
    name: Seq<char>,
)
    requires
        lists(fields, map),
    ensures
        lookup(fields, name) == if map.contains_key(name) {
            Some(map[name])
        } else {
            None::<Seq<Seq<char>>>
        },
{
    lemma_lookup_finds(fields, name);
    match lookup(fields, name) {
        Some(values) => {
            let i = choose|i: int| 0 <= i < fields.len() && (#[trigger] fields[i]).0 == name && fields[i].1 == values;
            assert(map.contains_key(fields[i].0));
        },
        None => {
            if map.contains_key(name) {
                let i = choose|i: int| 0 <= i < fields.len() && (#[trigger] fields[i]).0 == name;
                assert(fields[i].0 == name);
            }
        },
    }
}

/// What `lookup` returns is the value of an entry with that name, and it
/// returns nothing only where no entry has the name.
pub proof fn lemma_lookup_finds(fields: Seq<(Seq<char>, Seq<Seq<char>>)>, name: Seq<char>)
    ensures
        match lookup(fields, name) {
            Some(values) => exists|i: int|
                0 <= i < fields.len() && (#[trigger] fields[i]).0 == name && fields[i].1 == values,
            None => forall|i: int| 0 <= i < fields.len() ==> (#[trigger] fields[i]).0 != name,
        },
    decreases fields.len(),
{
    if fields.len() == 0 {
    } else if fields[0].0 == name {
        assert(fields[0].0 == name && fields[0].1 == fields[0].1);
    } else {
        let rest = fields.skip(1);
        lemma_lookup_finds(rest, name);
        match lookup(rest, name) {
            Some(values) => {
                let j = choose|j: int| 0 <= j < rest.len() && (#[trigger] rest[j]).0 == name && rest[j].1 == values;
                assert(fields[j + 1] == rest[j]);
            },
            None => {
                assert forall|i: int| 0 <= i < fields.len() implies (#[trigger] fields[i]).0 != name by {
                    if i > 0 {
                        assert(fields[i] == rest[i - 1]);
                    }
                }
            },
        }
    }
}

/// Finds the values of the first parameter called `name`.
pub fn values_of<'a>(fields: &'a Vec<Field>, name: &str) -> (values: Option<&'a Vec<String>>)
    ensures
        match values {
            Some(v) => lookup(fields_view(fields@), name@) == Some(v.deep_view()),
            None => lookup(fields_view(fields@), name@) is None,
        },
{
    let wanted = name.to_owned();
    let mut i: usize = 0;
    let ghost all = fields_view(fields@);
    assert(all.skip(0) =~= all);
    while i < fields.len()
        invariant
            i <= fields.len(),
            all == fields_view(fields@),
            wanted@ == name@,
            lookup(all, name@) == lookup(all.skip(i as int), name@),
        decreases fields.len() - i,
    {
        assert(all.skip(i as int)[0] == all[i as int]);
        assert(all.skip(i as int).skip(1) =~= all.skip(i as int + 1));
        if fields[i].0 == wanted {
            return Some(&fields[i].1);
        }
        i += 1;
    }
    None
}

/// The first value of the first parameter called `name`, if there is one.
pub fn first_value(fields: &Vec<Field>, name: &str) -> (value: Option<String>)
    ensures
        text_view(value) == match lookup(fields_view(fields@), name@) {
            Some(values) => if values.len() > 0 {
                Some(values[0])
            } else {
                None
            },
            None => None,
        },
{
    match values_of(fields, name) {
        Some(values) => {
            if values.len() > 0 {
                assert(values.deep_view()[0] == values[0]@);
                Some(values[0].clone())
            } else {
                None
            }
        },
        None => None,
    }
}

/// Whether a parameter called `name` is among `fields`.
pub fn has_field(fields: &Vec<Field>, name: &str) -> (found: bool)
    ensures
        found == lookup(fields_view(fields@), name@).is_some(),
{
    values_of(fields, name).is_some()
}

} // verus!
