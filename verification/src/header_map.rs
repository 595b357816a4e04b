//! The headers that nothing else reads, by name.
use hashbrown::HashMap;
use vstd::prelude::*;

verus! {

/// The entries of a header map: the last value of each name.
pub uninterp spec fn header_entries(map: HeaderMap<'_>) -> Map<Seq<char>, Seq<char>>;

/// A map without entries.
pub open spec fn no_entries() -> Map<Seq<char>, Seq<char>> {
    Map::empty()
}

/// Header values by header name, kept in a `hashbrown::HashMap`.
#[verifier::external_body]
#[derive(Debug)]
pub struct HeaderMap<'data> {
    table: HashMap<&'data str, &'data str>,
}

impl<'data> View for HeaderMap<'data> {
    type V = Map<Seq<char>, Seq<char>>;

    open spec fn view(&self) -> Map<Seq<char>, Seq<char>> {
        header_entries(*self)
    }
}

/// Calls `hashbrown::HashMap::new`: a new map has no entries.
#[verifier::external_body]
fn new_table<'data>() -> (created: HeaderMap<'data>)
    ensures
        header_entries(created) == no_entries(),
{
    HeaderMap { table: HashMap::new() }
}

/// Calls `hashbrown::HashMap::insert`: the name then has the value, every other entry stays, and
/// the value that the name had comes back. Names are the same where they hold the same characters.
#[verifier::external_body]
fn insert_entry<'data>(map: &mut HeaderMap<'data>, name: &'data str, value: &'data str) -> (previous:
    Option<&'data str>)
    ensures
        header_entries(*final(map)) == header_entries(*old(map)).insert(name@, value@),
        match previous {
            Some(previous) => header_entries(*old(map)).contains_key(name@) && previous@
                == header_entries(*old(map))[name@],
            None => !header_entries(*old(map)).contains_key(name@),
        },
{
    map.table.insert(name, value)
}

/// Calls `hashbrown::HashMap::get`: the value of the name, where it has one.
#[verifier::external_body]
fn get_entry<'data>(map: &HeaderMap<'data>, name: &str) -> (value: Option<&'data str>)
    ensures
        match value {
            Some(value) => header_entries(*map).contains_key(name@) && value@ == header_entries(
                *map,
            )[name@],
            None => !header_entries(*map).contains_key(name@),
        },
{
    map.table.get(name).copied()
}

/// Whether a list holds each entry of a map once and nothing else, in some order.
pub open spec fn lists_entries(
    list: Seq<(&str, &str)>,
    entries: Map<Seq<char>, Seq<char>>,
) -> bool {
    &&& forall|i: int|
        0 <= i < list.len() ==> entries.contains_key((#[trigger] list[i]).0@) && entries[list[i].0@]
            == list[i].1@
    &&& forall|i: int, j: int|
        0 <= i < j < list.len() ==> (#[trigger] list[i]).0@ != (#[trigger] list[j]).0@
    &&& forall|name: Seq<char>| #[trigger]
        entries.contains_key(name) ==> exists|i: int|
            0 <= i < list.len() && (#[trigger] list[i]).0@ == name
}

/// A list of the entries of a map is as long as the map has entries.
pub proof fn list_is_as_long_as_map(
    list: Seq<(&str, &str)>,
    entries: Map<Seq<char>, Seq<char>>,
)
    requires
        lists_entries(list, entries),
    ensures
        has_entries(entries, list.len()),
{
    let names = list.map_values(|entry: (&str, &str)| entry.0@);
    assert forall|i: int, j: int| 0 <= i < names.len() && 0 <= j < names.len() && i != j implies
        names[i] != names[j] by {
        if i < j {
            assert(list[i].0@ != list[j].0@);
        } else {
            assert(list[j].0@ != list[i].0@);
        }
    }
    names.unique_seq_to_set();
    assert forall|name: Seq<char>| entries.contains_key(name) implies names.to_set().contains(
        name,
    ) by {
        let i = choose|i: int| 0 <= i < list.len() && (#[trigger] list[i]).0@ == name;
        assert(names[i] == name);
    }
    assert forall|name: Seq<char>| names.to_set().contains(name) implies entries.contains_key(
        name,
    ) by {
        let i = choose|i: int| 0 <= i < names.len() && names[i] == name;
        assert(entries.contains_key(list[i].0@));
    }
    assert(entries.dom() =~= names.to_set());
}

/// Whether a map has that many entries, and so finitely many.
pub open spec fn has_entries(entries: Map<Seq<char>, Seq<char>>, count: nat) -> bool {
    entries.dom().finite() && entries.dom().len() == count
}

/// Calls `hashbrown::HashMap::len`: how many entries the map has.
#[verifier::external_body]
fn count_entries(map: &HeaderMap<'_>) -> (count: usize)
    ensures
        has_entries(header_entries(*map), count as nat),
{
    map.table.len()
}

/// Calls `hashbrown::HashMap::iter`: it visits each entry once. Nothing is said of the order, which
/// the map leaves open.
#[verifier::external_body]
fn list_entries<'data>(map: &HeaderMap<'data>) -> (list: Vec<(&'data str, &'data str)>)
    ensures
        lists_entries(list@, header_entries(*map)),
{
    map.table.iter().map(|entry| (*entry.0, *entry.1)).collect()
}

/// Calls `Clone::clone` of `hashbrown::HashMap`: the copy has the same entries.
#[verifier::external_body]
fn clone_table<'data>(map: &HeaderMap<'data>) -> (copy: HeaderMap<'data>)
    ensures
        header_entries(copy) == header_entries(*map),
{
    HeaderMap { table: map.table.clone() }
}

impl<'data> Clone for HeaderMap<'data> {
    fn clone(&self) -> (copy: Self)
        ensures
            copy@ == self@,
    {
        clone_table(self)
    }
}

impl<'data> HeaderMap<'data> {
    /// A map without entries.
    pub fn new() -> (map: Self)
        ensures
            map@ == no_entries(),
    {
        new_table()
    }

    /// Gives `name` the value `value` and hands back the value that it had.
    pub fn insert(&mut self, name: &'data str, value: &'data str) -> (previous: Option<&'data str>)
        ensures
            final(self)@ == old(self)@.insert(name@, value@),
            match previous {
                Some(previous) => old(self)@.contains_key(name@) && previous@ == old(self)@[name@],
                None => !old(self)@.contains_key(name@),
            },
    {
        insert_entry(self, name, value)
    }

    /// The value of `name`.
    pub fn get(&self, name: &str) -> (value: Option<&'data str>)
        ensures
            match value {
                Some(value) => self@.contains_key(name@) && value@ == self@[name@],
                None => !self@.contains_key(name@),
            },
    {
        get_entry(self, name)
    }

    /// How many names have a value.
    pub fn len(&self) -> (count: usize)
        ensures
            has_entries(self@, count as nat),
    {
        count_entries(self)
    }

    /// Each name with its value, in no particular order.
    pub fn entries(&self) -> (list: Vec<(&'data str, &'data str)>)
        ensures
            lists_entries(list@, self@),
            has_entries(self@, list@.len()),
    {
        let list = list_entries(self);
        proof {
            list_is_as_long_as_map(list@, self@);
        }
        list
    }
}

} // verus!
