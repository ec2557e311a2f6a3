//! Search: indexes and queries.

use crate::connection::payload_view;
use crate::errors::{bytes_view, schema_failure, RiakErr, SchemaError};
use crate::rpb::utils::RpbGenerator;
use crate::rpb::wire::{
    as_u32, bytes_field, bytes_is, bytes_only, copy_opt_bytes, fields_of, last_bytes, last_varint,
    lemma_bytes_deep_view, lemma_fields_of_wire, lemma_picked_append, lemma_picked_bytes_is,
    lemma_picked_means, lemma_picked_opt_bytes_is, lemma_picked_opt_varint_is, lemma_wire_append,
    lemma_wire_bytes_is, lemma_wire_opt_bytes_is, lemma_wire_opt_varint_is, low_u32, opt_bytes,
    opt_bytes_field, opt_bytes_is, opt_fits, opt_varint_field, opt_varint_is, pick_bytes,
    pick_varint, put_checked_bytes, put_opt_bytes, put_opt_uint32, scan_fields, varints_only,
    WireField, WireFieldView, VALUE_LEN_MAX,
};
use vstd::prelude::*;

verus! {

/// A search index.
#[derive(Debug)]
pub struct YokozunaIndex {
    name: Vec<u8>,
    schema: Option<Vec<u8>>,
    n_val: Option<u32>,
}

/// What a `YokozunaIndex` holds.
pub struct YokozunaIndexView {
    /// The name of the index.
    pub name: Seq<u8>,
    /// The schema the index follows.
    pub schema: Option<Seq<u8>>,
    /// How many replicas an entry has.
    pub n_val: Option<u32>,
}

impl View for YokozunaIndex {
    type V = YokozunaIndexView;

    closed spec fn view(&self) -> YokozunaIndexView {
        YokozunaIndexView {
            name: self.name@,
            schema: opt_bytes(self.schema),
            n_val: self.n_val,
        }
    }
}

impl DeepView for YokozunaIndex {
    type V = YokozunaIndexView;

    open spec fn deep_view(&self) -> YokozunaIndexView {
        self@
    }
}

impl Clone for YokozunaIndex {
    fn clone(&self) -> (r: YokozunaIndex)
        ensures
            r@ == self@,
    {
        YokozunaIndex {
            name: self.name.clone(),
            schema: copy_opt_bytes(&self.schema),
            n_val: self.n_val,
        }
    }
}

impl YokozunaIndex {
    /// An index named `name`, with schema and replicas left to the server.
    pub fn new(name: Vec<u8>) -> (r: YokozunaIndex)
        ensures
            r@ == (YokozunaIndexView { name: name@, schema: None, n_val: None }),
    {
        YokozunaIndex { name, schema: None, n_val: None }
    }

    /// The name of the index.
    pub fn get_name(&self) -> (r: Vec<u8>)
        ensures
            r@ == self@.name,
    {
        self.name.clone()
    }

    /// Sets the name of the index.
    pub fn set_name(&mut self, name: Vec<u8>)
        ensures
            final(self)@ == (YokozunaIndexView { name: name@, ..old(self)@ }),
    {
        self.name = name;
    }

    /// The schema the index follows.
    pub fn get_schema(&self) -> (r: Option<Vec<u8>>)
        ensures
            opt_bytes(r) == self@.schema,
    {
        copy_opt_bytes(&self.schema)
    }

    /// Sets the schema the index follows.
    pub fn set_schema(&mut self, schema: Vec<u8>)
        ensures
            final(self)@ == (YokozunaIndexView { schema: Some(schema@), ..old(self)@ }),
    {
        self.schema = Some(schema);
    }

    /// How many replicas an entry has.
    pub fn get_n_val(&self) -> (r: Option<u32>)
        ensures
            r == self@.n_val,
    {
        self.n_val
    }

    /// Sets how many replicas an entry has.
    pub fn set_n_val(&mut self, n_val: u32)
        ensures
            final(self)@ == (YokozunaIndexView { n_val: Some(n_val), ..old(self)@ }),
    {
        self.n_val = Some(n_val);
    }

    /// Renders the index as a record. Fails with `TooLong` exactly when the
    /// name or the schema is longer than a field can hold.
    pub fn index_to_bytes(&self) -> (r: Result<Vec<u8>, SchemaError>)
        ensures
            bytes_view(r) == index_payload(self@),
    {
        let mut out: Vec<u8> = Vec::new();
        put_checked_bytes(&mut out, 1, self.name.as_slice())?;
        put_opt_bytes(&mut out, 2, &self.schema)?;
        put_opt_uint32(&mut out, 3, self.n_val);
        assert(out@ =~= index_bytes(self@));
        Ok(out)
    }

    /// Builds an index from the fields of its record.
    pub fn from_fields(fields: &Vec<WireField>) -> (r: Result<YokozunaIndex, SchemaError>)
        ensures
            index_view(r) == index(fields.deep_view()),
    {
        let name = pick_bytes(fields, 1)?;
        let schema = pick_bytes(fields, 2)?;
        let n_val = low_u32(pick_varint(fields, 3)?);
        match name {
            Some(name) => Ok(YokozunaIndex { name, schema, n_val }),
            None => Err(SchemaError::MissingField),
        }
    }

    /// Reads the bytes of an index record.
    pub fn new_from_rpb_yokozuna_index(rpb_yokozuna_index: &[u8]) -> (r: Result<
        YokozunaIndex,
        SchemaError,
    >)
        ensures
            index_view(r) == index_of(rpb_yokozuna_index@),
    {
        let fields = scan_fields(rpb_yokozuna_index)?;
        YokozunaIndex::from_fields(&fields)
    }
}

impl RpbGenerator for YokozunaIndex {
    open spec fn payload(&self) -> Result<Seq<u8>, SchemaError> {
        index_put_payload(self@)
    }

    /// The payload of the request to create this index. Fails with `TooLong`
    /// exactly when the name, the schema or the record of the index is
    /// longer than a field can hold.
    fn write_to_bytes(&self) -> (r: Result<Vec<u8>, RiakErr>)
        ensures
            payload_view(r) == schema_failure(index_put_payload(self@)),
    {
        let index = match self.index_to_bytes() {
            Ok(index) => index,
            Err(error) => {
                return Err(RiakErr::ProtobufError(error));
            },
        };
        let mut out: Vec<u8> = Vec::new();
        if let Err(error) = put_checked_bytes(&mut out, 1, index.as_slice()) {
            return Err(RiakErr::ProtobufError(error));
        }
        assert(out@ =~= bytes_field(1, index_bytes(self@)));
        Ok(out)
    }
}

/// Whether name and schema of an index are short enough for their fields.
pub open spec fn index_fits(index: YokozunaIndexView) -> bool {
    index.name.len() <= VALUE_LEN_MAX && opt_fits(index.schema)
}

/// An index on the wire: the name in field 1, the schema in field 2, the
/// number of replicas in field 3.
pub open spec fn index_bytes(index: YokozunaIndexView) -> Seq<u8> {
    bytes_field(1, index.name) + opt_bytes_field(2, index.schema) + opt_varint_field(
        3,
        index.n_val,
    )
}

/// What rendering an index gives.
pub open spec fn index_payload(index: YokozunaIndexView) -> Result<Seq<u8>, SchemaError> {
    if index_fits(index) {
        Ok(index_bytes(index))
    } else {
        Err(SchemaError::TooLong)
    }
}

/// The request to create an index: the index as a nested record in field 1.
pub open spec fn index_put_payload(index: YokozunaIndexView) -> Result<Seq<u8>, SchemaError> {
    if index_fits(index) && index_bytes(index).len() <= VALUE_LEN_MAX {
        Ok(bytes_field(1, index_bytes(index)))
    } else {
        Err(SchemaError::TooLong)
    }
}

/// The index that a run of fields stands for. The name is required.
pub open spec fn index(fields: Seq<WireFieldView>) -> Result<YokozunaIndexView, SchemaError> {
    if !(bytes_only(fields, 1) && bytes_only(fields, 2) && varints_only(fields, 3)) {
        Err(SchemaError::UnexpectedWireType)
    } else {
        match last_bytes(fields, 1) {
            None => Err(SchemaError::MissingField),
            Some(name) => Ok(
                YokozunaIndexView {
                    name,
                    schema: last_bytes(fields, 2),
                    n_val: as_u32(last_varint(fields, 3)),
                },
            ),
        }
    }
}

/// The index that the bytes of a nested record stand for.
pub open spec fn index_of(bytes: Seq<u8>) -> Result<YokozunaIndexView, SchemaError> {
    match fields_of(bytes) {
        Some(fields) => index(fields),
        None => Err(SchemaError::Malformed),
    }
}

/// The view of a decoded index.
pub open spec fn index_view(r: Result<YokozunaIndex, SchemaError>) -> Result<
    YokozunaIndexView,
    SchemaError,
> {
    match r {
        Ok(index) => Ok(index@),
        Err(error) => Err(error),
    }
}

/// Copies a list of names, entry by entry.
pub fn copy_names(names: &Vec<Vec<u8>>) -> (r: Vec<Vec<u8>>)
    ensures
        r.deep_view() == names.deep_view(),
{
    let mut copies: Vec<Vec<u8>> = Vec::new();
    let mut i: usize = 0;
    while i < names.len()
        invariant
            i <= names.len(),
            copies.len() == i,
            forall|k: int| 0 <= k < i ==> (#[trigger] copies[k])@ == names[k]@,
        decreases names.len() - i,
    {
        copies.push(names[i].clone());
        i += 1;
    }
    proof {
        assert forall|k: int| 0 <= k < names.len() implies copies.deep_view()[k]
            == names.deep_view()[k] by {
            lemma_bytes_deep_view(copies[k]);
            lemma_bytes_deep_view(names[k]);
        }
        assert(copies.deep_view() =~= names.deep_view());
    }
    copies
}

/// A search query.
#[derive(Debug)]
pub struct SearchQuery {
    q: Vec<u8>,
    index: Vec<u8>,
    rows: Option<u32>,
    start: Option<u32>,
    sort: Option<Vec<u8>>,
    filter: Option<Vec<u8>>,
    df: Option<Vec<u8>>,
    op: Option<Vec<u8>>,
    fl: Vec<Vec<u8>>,
    presort: Option<Vec<u8>>,
}

/// What a `SearchQuery` holds.
pub struct SearchQueryView {
    /// The query.
    pub q: Seq<u8>,
    /// The index to search.
    pub index: Seq<u8>,
    /// How many rows to return at most.
    pub rows: Option<u32>,
    /// The row to start from.
    pub start: Option<u32>,
    /// How to sort the rows.
    pub sort: Option<Seq<u8>>,
    /// A query that narrows the rows.
    pub filter: Option<Seq<u8>>,
    /// The field searched where the query names none.
    pub df: Option<Seq<u8>>,
    /// The operator between the terms of the query.
    pub op: Option<Seq<u8>>,
    /// The fields to return.
    pub fl: Seq<Seq<u8>>,
    /// How to sort before the rows are cut off.
    pub presort: Option<Seq<u8>>,
}

impl View for SearchQuery {
    type V = SearchQueryView;

    closed spec fn view(&self) -> SearchQueryView {
        SearchQueryView {
            q: self.q@,
            index: self.index@,
            rows: self.rows,
            start: self.start,
            sort: opt_bytes(self.sort),
            filter: opt_bytes(self.filter),
            df: opt_bytes(self.df),
            op: opt_bytes(self.op),
            fl: self.fl.deep_view(),
            presort: opt_bytes(self.presort),
        }
    }
}

impl Clone for SearchQuery {
    fn clone(&self) -> (r: SearchQuery)
        ensures
            r@ == self@,
    {
        SearchQuery {
            q: self.q.clone(),
            index: self.index.clone(),
            rows: self.rows,
            start: self.start,
            sort: copy_opt_bytes(&self.sort),
            filter: copy_opt_bytes(&self.filter),
            df: copy_opt_bytes(&self.df),
            op: copy_opt_bytes(&self.op),
            fl: copy_names(&self.fl),
            presort: copy_opt_bytes(&self.presort),
        }
    }
}

impl SearchQuery {
    /// The query `q` on `index`, with every setting left to the server.
    pub fn new(q: Vec<u8>, index: Vec<u8>) -> (r: SearchQuery)
        ensures
            r@ == (SearchQueryView {
                q: q@,
                index: index@,
                rows: None,
                start: None,
                sort: None,
                filter: None,
                df: None,
                op: None,
                fl: Seq::empty(),
                presort: None,
            }),
    {
        let fl: Vec<Vec<u8>> = Vec::new();
        assert(fl.deep_view() =~= Seq::<Seq<u8>>::empty());
        SearchQuery {
            q,
            index,
            rows: None,
            start: None,
            sort: None,
            filter: None,
            df: None,
            op: None,
            fl,
            presort: None,
        }
    }

    /// The query.
    pub fn get_q(&self) -> (r: Vec<u8>)
        ensures
            r@ == self@.q,
    {
        self.q.clone()
    }

    /// Sets the query.
    pub fn set_q(&mut self, q: Vec<u8>)
        ensures
            final(self)@ == (SearchQueryView { q: q@, ..old(self)@ }),
    {
        self.q = q;
    }

    /// The index to search.
    pub fn get_index(&self) -> (r: Vec<u8>)
        ensures
            r@ == self@.index,
    {
        self.index.clone()
    }

    /// Sets the index to search.
    pub fn set_index(&mut self, index: Vec<u8>)
        ensures
            final(self)@ == (SearchQueryView { index: index@, ..old(self)@ }),
    {
        self.index = index;
    }

    /// How many rows to return at most.
    pub fn get_rows(&self) -> (r: Option<u32>)
        ensures
            r == self@.rows,
    {
        self.rows
    }

    /// Sets how many rows to return at most.
    pub fn set_rows(&mut self, rows: u32)
        ensures
            final(self)@ == (SearchQueryView { rows: Some(rows), ..old(self)@ }),
    {
        self.rows = Some(rows);
    }

    /// The row to start from.
    pub fn get_start(&self) -> (r: Option<u32>)
        ensures
            r == self@.start,
    {
        self.start
    }

    /// Sets the row to start from.
    pub fn set_start(&mut self, start: u32)
        ensures
            final(self)@ == (SearchQueryView { start: Some(start), ..old(self)@ }),
    {
        self.start = Some(start);
    }

    /// How to sort the rows.
    pub fn get_sort(&self) -> (r: Option<Vec<u8>>)
        ensures
            opt_bytes(r) == self@.sort,
    {
        copy_opt_bytes(&self.sort)
    }

    /// Sets how to sort the rows.
    pub fn set_sort(&mut self, sort: Vec<u8>)
        ensures
            final(self)@ == (SearchQueryView { sort: Some(sort@), ..old(self)@ }),
    {
        self.sort = Some(sort);
    }

    /// A query that narrows the rows.
    pub fn get_filter(&self) -> (r: Option<Vec<u8>>)
        ensures
            opt_bytes(r) == self@.filter,
    {
        copy_opt_bytes(&self.filter)
    }

    /// Sets a query that narrows the rows.
    pub fn set_filter(&mut self, filter: Vec<u8>)
        ensures
            final(self)@ == (SearchQueryView { filter: Some(filter@), ..old(self)@ }),
    {
        self.filter = Some(filter);
    }

    /// The field searched where the query names none.
    pub fn get_df(&self) -> (r: Option<Vec<u8>>)
        ensures
            opt_bytes(r) == self@.df,
    {
        copy_opt_bytes(&self.df)
    }

    /// Sets the field searched where the query names none.
    pub fn set_df(&mut self, df: Vec<u8>)
        ensures
            final(self)@ == (SearchQueryView { df: Some(df@), ..old(self)@ }),
    {
        self.df = Some(df);
    }

    /// The operator between the terms of the query.
    pub fn get_op(&self) -> (r: Option<Vec<u8>>)
        ensures
            opt_bytes(r) == self@.op,
    {
        copy_opt_bytes(&self.op)
    }

    /// Sets the operator between the terms of the query.
    pub fn set_op(&mut self, op: Vec<u8>)
        ensures
            final(self)@ == (SearchQueryView { op: Some(op@), ..old(self)@ }),
    {
        self.op = Some(op);
    }

    /// The fields to return; `None` where none is named.
    pub fn get_fl(&self) -> (r: Option<Vec<Vec<u8>>>)
        ensures
            match r {
                Some(fl) => fl.deep_view() == self@.fl && self@.fl.len() > 0,
                None => self@.fl.len() == 0,
            },
    {
        if self.fl.len() > 0 {
            Some(copy_names(&self.fl))
        } else {
            None
        }
    }

    /// Sets the fields to return.
    pub fn set_fl(&mut self, fl: Vec<Vec<u8>>)
        ensures
            final(self)@ == (SearchQueryView { fl: fl.deep_view(), ..old(self)@ }),
    {
        self.fl = fl;
    }

    /// How to sort before the rows are cut off.
    pub fn get_presort(&self) -> (r: Option<Vec<u8>>)
        ensures
            opt_bytes(r) == self@.presort,
    {
        copy_opt_bytes(&self.presort)
    }

    /// Sets how to sort before the rows are cut off.
    pub fn set_presort(&mut self, presort: Vec<u8>)
        ensures
            final(self)@ == (SearchQueryView { presort: Some(presort@), ..old(self)@ }),
    {
        self.presort = Some(presort);
    }
}

/// The fields of an index, in the order they are written.
pub open spec fn index_fields(index: YokozunaIndexView) -> Seq<WireFieldView> {
    seq![bytes_is(1, index.name)] + opt_bytes_is(2, index.schema) + opt_varint_is(3, index.n_val)
}

/// An index comes back as it went out: an index that can be rendered is
/// read from its rendering as the same index.
pub proof fn lemma_index_round_trip(index: YokozunaIndexView)
    requires
        index_fits(index),
    ensures
        index_of(index_bytes(index)) == Ok::<YokozunaIndexView, SchemaError>(index),
{
    let name = seq![bytes_is(1, index.name)];
    let schema = opt_bytes_is(2, index.schema);
    let n_val = opt_varint_is(3, index.n_val);
    let fields = index_fields(index);
    lemma_wire_bytes_is(1, index.name);
    lemma_wire_opt_bytes_is(2, index.schema);
    lemma_wire_opt_varint_is(3, index.n_val);
    lemma_wire_append(name, schema);
    lemma_wire_append(name + schema, n_val);
    lemma_fields_of_wire(fields);
    lemma_picked_bytes_is(1, index.name);
    lemma_picked_opt_bytes_is(2, index.schema);
    lemma_picked_opt_varint_is(3, index.n_val);
    lemma_picked_append(name, schema);
    lemma_picked_append(name + schema, n_val);
    lemma_picked_means(fields, 1);
    lemma_picked_means(fields, 2);
    lemma_picked_means(fields, 3);
}

} // verus!
