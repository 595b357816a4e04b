//! The data section of a log, to be read with the headers before it.
use vstd::prelude::*;

use crate::headers::Headers;
use crate::reader::Reader;

verus! {

/// The names of the fields to keep of a frame; every field where there is no list.
pub type FieldFilter = Option<Vec<String>>;

/// What a [`FieldFilter`] says.
pub open spec fn kept_names(filter: FieldFilter) -> Option<Seq<Seq<char>>> {
    match filter {
        Some(names) => Some(names@.map_values(|name: String| name@)),
        None => None,
    }
}

fn clone_filter(filter: &FieldFilter) -> (copy: FieldFilter)
    ensures
        kept_names(copy) == kept_names(*filter),
{
    match filter {
        Some(names) => {
            let mut copies: Vec<String> = Vec::new();
            let mut i: usize = 0;
            while i < names.len()
                invariant
                    i <= names@.len(),
                    copies@.len() == i,
                    forall|j: int| 0 <= j < i ==> (#[trigger] copies@[j])@ == names@[j]@,
                decreases names@.len() - i,
            {
                copies.push(names[i].clone());
                i += 1;
            }
            assert(copies@.map_values(|name: String| name@) =~= names@.map_values(
                |name: String| name@,
            ));
            Some(copies)
        },
        None => None,
    }
}

/// Which fields to keep of each frame.
#[derive(Debug)]
pub struct FilterSet {
    pub main: FieldFilter,
    pub slow: FieldFilter,
    pub gps: FieldFilter,
}

/// What a [`FilterSet`] says.
pub struct FilterView {
    pub main: Option<Seq<Seq<char>>>,
    pub slow: Option<Seq<Seq<char>>>,
    pub gps: Option<Seq<Seq<char>>>,
}

impl View for FilterSet {
    type V = FilterView;

    open spec fn view(&self) -> FilterView {
        FilterView {
            main: kept_names(self.main),
            slow: kept_names(self.slow),
            gps: kept_names(self.gps),
        }
    }
}

impl FilterView {
    /// Every field is kept.
    pub open spec fn everything() -> FilterView {
        FilterView { main: None, slow: None, gps: None }
    }
}

impl Default for FilterSet {
    fn default() -> (filters: Self)
        ensures
            filters@ == FilterView::everything(),
    {
        FilterSet { main: None, slow: None, gps: None }
    }
}

/// A parser at the start of the data section of a log.
#[derive(Debug)]
pub struct DataParser<'data, 'headers> {
    data: Reader<'data>,
    headers: &'headers Headers<'data>,
    filters: FilterSet,
}

impl<'data, 'headers> DataParser<'data, 'headers> {
    /// The bytes to parse.
    pub closed spec fn data(self) -> Seq<u8> {
        self.data@
    }

    /// The headers to parse them with.
    pub closed spec fn headers(self) -> Headers<'data> {
        *self.headers
    }

    /// The fields to keep.
    pub closed spec fn filters(self) -> FilterView {
        self.filters@
    }

    /// A parser that has not begun to parse.
    pub fn new(
        data: Reader<'data>,
        headers: &'headers Headers<'data>,
        filters: &FilterSet,
    ) -> (parser: Self)
        ensures
            parser.data() == data@,
            parser.headers() == *headers,
            parser.filters() == filters@,
    {
        DataParser {
            data,
            headers,
            filters: FilterSet {
                main: clone_filter(&filters.main),
                slow: clone_filter(&filters.slow),
                gps: clone_filter(&filters.gps),
            },
        }
    }

    /// The bytes that have not been parsed yet.
    pub fn remaining(&self) -> (bytes: &'data [u8])
        ensures
            bytes@ == self.data(),
    {
        self.data.remaining()
    }
}

} // verus!
