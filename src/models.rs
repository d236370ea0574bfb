//! Stop records and the capability that lets a record type be exported as rows.
use vstd::prelude::*;

verus! {

/// A stop record as held by the remote service.
#[derive(Debug, Clone)]
pub struct Stop {
    pub id: String,
    pub position: String,
    pub latitude: String,
    pub longitude: String,
    pub stop_id: String,
}

/// A record type that can be written as one spreadsheet row under a fixed
/// header row.
pub trait Model: Sized {
    /// The identity of a record.
    spec fn id_view(&self) -> Seq<char>;

    /// The name of the record type, as shown to people.
    spec fn display_view() -> Seq<char>;

    /// The column names, in order.
    spec fn header_view() -> Seq<Seq<char>>;

    /// The cells of a record's row, in column order.
    spec fn row_view(&self) -> Seq<Seq<char>>;

    fn id(&self) -> (r: &str)
        ensures
            r@ == self.id_view(),
    ;

    fn display_name() -> (r: &'static str)
        ensures
            r@ == Self::display_view(),
    ;

    fn headers() -> (r: Vec<&'static str>)
        ensures
            r@.len() == Self::header_view().len(),
            forall|i: int| 0 <= i < r@.len() ==> (#[trigger] r@[i])@ == Self::header_view()[i],
    ;

    fn to_row(&self) -> (r: Vec<String>)
        ensures
            r@.len() == self.row_view().len(),
            self.row_view().len() == Self::header_view().len(),
            forall|i: int| 0 <= i < r@.len() ==> (#[trigger] r@[i])@ == self.row_view()[i],
    ;
}

pub open spec fn stop_headers() -> Seq<Seq<char>> {
    seq!["ID"@, "StopID"@, "Address"@, "Latitude"@, "Longtitude"@]
}

impl Model for Stop {
    open spec fn id_view(&self) -> Seq<char> {
        self.id@
    }

    open spec fn display_view() -> Seq<char> {
        "Stop"@
    }

    open spec fn header_view() -> Seq<Seq<char>> {
        stop_headers()
    }

    open spec fn row_view(&self) -> Seq<Seq<char>> {
        seq![self.id@, self.stop_id@, self.position@, self.latitude@, self.longitude@]
    }

    fn id(&self) -> (r: &str) {
        self.id.as_str()
    }

    fn display_name() -> (r: &'static str) {
        "Stop"
    }

    fn headers() -> (r: Vec<&'static str>) {
        let r = vec!["ID", "StopID", "Address", "Latitude", "Longtitude"];
        assert(r@[0]@ == stop_headers()[0]);
        r
    }

    fn to_row(&self) -> (r: Vec<String>) {
        vec![
            self.id.clone(),
            self.stop_id.clone(),
            self.position.clone(),
            self.latitude.clone(),
            self.longitude.clone(),
        ]
    }
}

} // verus!
