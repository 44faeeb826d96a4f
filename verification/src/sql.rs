//! Ids as the durable store holds them: unsigned 64-bit ids are kept in signed
//! 64-bit columns, bit for bit.

use vstd::prelude::*;

verus! {

/// An id on its way to or from a signed 64-bit column.
#[derive(Debug, Clone, Copy, PartialEq, Eq)]
pub struct SqlId<T>(pub T);

/// The column value that stands for `id`.
pub open spec fn spec_to_sql(id: u64) -> i64 {
    id as i64
}

/// The id that a column value stands for.
pub open spec fn spec_from_sql(value: i64) -> u64 {
    value as u64
}

/// The column values that stand for a list of ids.
pub open spec fn spec_ids_to_sql(ids: Seq<u64>) -> Seq<i64> {
    Seq::new(ids.len(), |i: int| spec_to_sql(ids[i]))
}

/// The ids that a list of column values stands for.
pub open spec fn spec_ids_from_sql(values: Seq<i64>) -> Seq<u64> {
    Seq::new(values.len(), |i: int| spec_from_sql(values[i]))
}

/// Storing an id and loading it again gives the id back.
pub proof fn lemma_sql_round_trip(id: u64)
    ensures
        spec_from_sql(spec_to_sql(id)) == id,
{
    assert((id as i64) as u64 == id) by (bit_vector);
}

/// Storing a list of ids and loading it again gives the list back.
pub proof fn lemma_sql_ids_round_trip(ids: Seq<u64>)
    ensures
        spec_ids_from_sql(spec_ids_to_sql(ids)) == ids,
{
    assert forall|i: int| 0 <= i < ids.len() implies spec_ids_from_sql(spec_ids_to_sql(ids))[i]
        == ids[i] by {
        lemma_sql_round_trip(ids[i]);
    }
    assert(spec_ids_from_sql(spec_ids_to_sql(ids)) =~= ids);
}

impl SqlId<u64> {
    /// Reads an id from a column value.
    pub fn decode(value: i64) -> (id: Self)
        ensures
            id.0 == spec_from_sql(value),
    {
        SqlId(value as u64)
    }

    /// The column value for this id.
    pub fn encode(&self) -> (value: i64)
        ensures
            value == spec_to_sql(self.0),
    {
        self.0 as i64
    }
}

/// The column values for a list of ids.
pub fn ids_to_sql(ids: &Vec<u64>) -> (values: Vec<i64>)
    ensures
        values@ == spec_ids_to_sql(ids@),
{
    let mut values: Vec<i64> = Vec::new();
    let mut i: usize = 0;
    while i < ids.len()
        invariant
            i <= ids.len(),
            values@ == spec_ids_to_sql(ids@.take(i as int)),
        decreases ids.len() - i,
    {
        values.push(SqlId(ids[i]).encode());
        i += 1;
        assert(values@ =~= spec_ids_to_sql(ids@.take(i as int)));
    }
    assert(ids@.take(ids.len() as int) =~= ids@);
    values
}

/// The ids read from a list of column values.
pub fn ids_from_sql(values: &Vec<i64>) -> (ids: Vec<u64>)
    ensures
        ids@ == spec_ids_from_sql(values@),
{
    let mut ids: Vec<u64> = Vec::new();
    let mut i: usize = 0;
    while i < values.len()
        invariant
            i <= values.len(),
            ids@ == spec_ids_from_sql(values@.take(i as int)),
        decreases values.len() - i,
    {
        ids.push(SqlId::decode(values[i]).0);
        i += 1;
        assert(ids@ =~= spec_ids_from_sql(values@.take(i as int)));
    }
    assert(values@.take(values.len() as int) =~= values@);
    ids
}

} // verus!
