//! Shapes of the remote service's paged query and bulk mutation.
use crate::models::Stop;
use vstd::prelude::*;

verus! {

/// Page size asked for when a query names none.
pub const DEFAULT_TAKE: u64 = 250;

/// Points at the last record of the page before; the next page starts after it.
#[derive(Debug, Clone)]
pub struct Cursor {
    pub id: String,
}

/// An error the service reported beside (or instead of) data.
#[derive(Debug, Clone)]
pub struct GraphQLError {
    pub message: String,
}

/// A service answer: data when there is some, and any reported errors.
#[derive(Debug)]
pub struct GraphQLResponse<T> {
    pub data: Option<T>,
    pub errors: Option<Vec<GraphQLError>>,
}

/// The data of one page of stops.
#[derive(Debug)]
pub struct StopResponse {
    pub stops: Vec<Stop>,
}

/// The arguments of a paged stop query.
///
/// `organization_id`, when set, keeps only the stops of that organization.
/// `order_by` lists (field, direction) pairs. `skip` is 1 on every page but the
/// first, so that the record under the cursor is not returned again.
#[derive(Debug)]
pub struct QueryArgs {
    pub organization_id: Option<String>,
    pub order_by: Vec<(String, String)>,
    pub take: Option<u64>,
    pub skip: Option<u64>,
    pub cursor: Option<Cursor>,
}

/// The page size a query asks for.
pub open spec fn take_of(args: QueryArgs) -> nat {
    match args.take {
        Some(t) => t as nat,
        None => DEFAULT_TAKE as nat,
    }
}

impl Default for QueryArgs {
    /// All stops, by ascending stop number, 250 at a time, from the start.
    fn default() -> (r: QueryArgs)
        ensures
            r.organization_id is None,
            r.order_by@.len() == 1,
            r.order_by@[0].0@ == "stopNumber"@,
            r.order_by@[0].1@ == "asc"@,
            r.take == Some(DEFAULT_TAKE),
            r.skip == Some(0u64),
            r.cursor is None,
    {
        let field = String::from_str("stopNumber");
        let dir = String::from_str("asc");
        QueryArgs {
            organization_id: None,
            order_by: vec![(field, dir)],
            take: Some(DEFAULT_TAKE),
            skip: Some(0),
            cursor: None,
        }
    }
}

/// New field values for one record, and the predicate that picks it.
#[derive(Debug)]
pub struct MutationsData<D, W> {
    pub data: D,
    pub wheres: W,
}

/// An ordered list of updates submitted together.
#[derive(Debug)]
pub struct MutationArgs<D, W> {
    pub data: Vec<MutationsData<D, W>>,
}

/// The field an identifier assignment sets.
#[derive(Debug, Clone)]
pub struct StopData {
    pub stop_id: String,
}

/// Picks a stop by its identity.
#[derive(Debug, Clone)]
pub struct StopWhere {
    pub id: String,
}

} // verus!
