//! Reading stop records from spreadsheet rows of text.
//!
//! The first row names the columns; each later row is one record. Columns
//! are found by name, so their order in the sheet is free.
use crate::models::Stop;
use vstd::prelude::*;

verus! {

/// The columns a stop sheet must have.
#[derive(Debug, Clone, Copy, PartialEq, Eq, Structural)]
pub enum Column {
    Id,
    StopId,
    Address,
    Latitude,
    Longitude,
}

pub open spec fn column_name(c: Column) -> Seq<char> {
    match c {
        Column::Id => "ID"@,
        Column::StopId => "StopID"@,
        Column::Address => "Address"@,
        Column::Latitude => "Latitude"@,
        Column::Longitude => "Longtitude"@,
    }
}

impl Column {
    /// The header text of the column.
    pub fn name(&self) -> (r: &'static str)
        ensures
            r@ == column_name(*self),
    {
        match self {
            Column::Id => "ID",
            Column::StopId => "StopID",
            Column::Address => "Address",
            Column::Latitude => "Latitude",
            Column::Longitude => "Longtitude",
        }
    }
}

/// Why a row is not a stop.
#[derive(Debug, Clone, Copy, PartialEq, Eq, Structural)]
pub enum RowError {
    MissingColumn(Column),
    InsufficientColumns,
}

/// Why a sheet cannot be read at all.
#[derive(Debug, Clone, Copy, PartialEq, Eq, Structural)]
pub enum SheetError {
    NoHeaderRow,
    MissingHeader(Column),
}

/// The position of the last header cell that reads `name`.
pub open spec fn header_index(header: Seq<String>, name: Seq<char>) -> Option<int>
    decreases header.len(),
{
    if header.len() == 0 {
        None
    } else if header.last()@ == name {
        Some(header.len() - 1)
    } else {
        header_index(header.drop_last(), name)
    }
}

proof fn lemma_header_index_bound(header: Seq<String>, name: Seq<char>)
    ensures
        match header_index(header, name) {
            Some(i) => 0 <= i < header.len(),
            None => true,
        },
    decreases header.len(),
{
    if header.len() > 0 {
        lemma_header_index_bound(header.drop_last(), name);
    }
}

/// Position of the column `c` in `header`.
fn find_column(header: &Vec<String>, c: Column) -> (r: Option<usize>)
    ensures
        r is Some <==> header_index(header@, column_name(c)) is Some,
        r is Some ==> r.unwrap() < header@.len() && header_index(header@, column_name(c)) == Some(
            r.unwrap() as int,
        ),
{
    let name = String::from_str(c.name());
    let mut found: Option<usize> = None;
    let mut i: usize = 0;
    while i < header.len()
        invariant
            i <= header@.len(),
            name@ == column_name(c),
            match header_index(header@.take(i as int), column_name(c)) {
                Some(j) => found == Some(j as usize) && 0 <= j < i,
                None => found is None,
            },
        decreases header@.len() - i,
    {
        assert(header@.take(i + 1).drop_last() =~= header@.take(i as int));
        if header[i] == name {
            found = Some(i);
        }
        i = i + 1;
    }
    assert(header@.take(i as int) =~= header@);
    found
}

pub open spec fn cell(row: Seq<String>, i: Option<int>) -> String {
    row[i.unwrap()]
}

/// The stop a row gives under `header`, or why it gives none.
pub open spec fn row_to_stop(header: Seq<String>, row: Seq<String>) -> Result<Stop, RowError> {
    let id = header_index(header, column_name(Column::Id));
    let stop_id = header_index(header, column_name(Column::StopId));
    let address = header_index(header, column_name(Column::Address));
    let latitude = header_index(header, column_name(Column::Latitude));
    let longitude = header_index(header, column_name(Column::Longitude));
    if id is None {
        Err(RowError::MissingColumn(Column::Id))
    } else if stop_id is None {
        Err(RowError::MissingColumn(Column::StopId))
    } else if address is None {
        Err(RowError::MissingColumn(Column::Address))
    } else if latitude is None {
        Err(RowError::MissingColumn(Column::Latitude))
    } else if longitude is None {
        Err(RowError::MissingColumn(Column::Longitude))
    } else if row.len() <= id.unwrap() || row.len() <= stop_id.unwrap() || row.len()
        <= address.unwrap() || row.len() <= latitude.unwrap() || row.len()
        <= longitude.unwrap() {
        Err(RowError::InsufficientColumns)
    } else {
        Ok(
            Stop {
                id: cell(row, id),
                stop_id: cell(row, stop_id),
                position: cell(row, address),
                latitude: cell(row, latitude),
                longitude: cell(row, longitude),
            },
        )
    }
}

impl Stop {
    /// Reads a stop from `row`, taking each field from the column that
    /// `header` names for it.
    pub fn from_row(row: &Vec<String>, header: &Vec<String>) -> (r: Result<Stop, RowError>)
        ensures
            r == row_to_stop(header@, row@),
    {
        let id = match find_column(header, Column::Id) {
            Some(i) => i,
            None => return Err(RowError::MissingColumn(Column::Id)),
        };
        let stop_id = match find_column(header, Column::StopId) {
            Some(i) => i,
            None => return Err(RowError::MissingColumn(Column::StopId)),
        };
        let address = match find_column(header, Column::Address) {
            Some(i) => i,
            None => return Err(RowError::MissingColumn(Column::Address)),
        };
        let latitude = match find_column(header, Column::Latitude) {
            Some(i) => i,
            None => return Err(RowError::MissingColumn(Column::Latitude)),
        };
        let longitude = match find_column(header, Column::Longitude) {
            Some(i) => i,
            None => return Err(RowError::MissingColumn(Column::Longitude)),
        };
        let n = row.len();
        if n <= id || n <= stop_id || n <= address || n <= latitude || n <= longitude {
            return Err(RowError::InsufficientColumns);
        }
        let r = Stop {
            id: row[id].clone(),
            stop_id: row[stop_id].clone(),
            position: row[address].clone(),
            latitude: row[latitude].clone(),
            longitude: row[longitude].clone(),
        };
        Ok(r)
    }
}

/// The first column, in the order of the header row written by `Model::headers`,
/// that `header` lacks.
pub open spec fn missing_column(header: Seq<String>) -> Option<Column> {
    if header_index(header, column_name(Column::Id)) is None {
        Some(Column::Id)
    } else if header_index(header, column_name(Column::StopId)) is None {
        Some(Column::StopId)
    } else if header_index(header, column_name(Column::Address)) is None {
        Some(Column::Address)
    } else if header_index(header, column_name(Column::Latitude)) is None {
        Some(Column::Latitude)
    } else if header_index(header, column_name(Column::Longitude)) is None {
        Some(Column::Longitude)
    } else {
        None
    }
}

/// The stops that `rows` give under `header`, rows that give none left out.
pub open spec fn stops_of(header: Seq<String>, rows: Seq<Vec<String>>) -> Seq<Stop>
    decreases rows.len(),
{
    if rows.len() == 0 {
        Seq::empty()
    } else {
        let prev = stops_of(header, rows.drop_last());
        match row_to_stop(header, rows.last()@) {
            Ok(s) => prev.push(s),
            Err(_) => prev,
        }
    }
}

/// Positions in the sheet of the `rows` that give no stop, counting the
/// header row as position 0.
pub open spec fn skipped_of(header: Seq<String>, rows: Seq<Vec<String>>) -> Seq<usize>
    decreases rows.len(),
{
    if rows.len() == 0 {
        Seq::empty()
    } else {
        let prev = skipped_of(header, rows.drop_last());
        match row_to_stop(header, rows.last()@) {
            Ok(_) => prev,
            Err(_) => prev.push(rows.len() as usize),
        }
    }
}

/// The stops read from a sheet, and the positions of the rows that were
/// malformed and left out.
pub struct SheetRead {
    pub items: Vec<Stop>,
    pub skipped: Vec<usize>,
}

/// Reads stops from the rows of a sheet. The first row must name every
/// column of a stop; a later row that is not a stop is skipped and its
/// position reported.
pub fn read_stops(sheet: &Vec<Vec<String>>) -> (r: Result<SheetRead, SheetError>)
    ensures
        sheet@.len() == 0 ==> r == Err::<SheetRead, SheetError>(SheetError::NoHeaderRow),
        sheet@.len() > 0 && missing_column(sheet@[0]@) is Some ==> r == Err::<
            SheetRead,
            SheetError,
        >(SheetError::MissingHeader(missing_column(sheet@[0]@).unwrap())),
        sheet@.len() > 0 && missing_column(sheet@[0]@) is None ==> r is Ok,
        r matches Ok(read) ==> read.items@ == stops_of(
            sheet@[0]@,
            sheet@.subrange(1, sheet@.len() as int),
        ) && read.skipped@ == skipped_of(sheet@[0]@, sheet@.subrange(1, sheet@.len() as int)),
{
    if sheet.len() == 0 {
        return Err(SheetError::NoHeaderRow);
    }
    let header = &sheet[0];
    if find_column(header, Column::Id).is_none() {
        return Err(SheetError::MissingHeader(Column::Id));
    }
    if find_column(header, Column::StopId).is_none() {
        return Err(SheetError::MissingHeader(Column::StopId));
    }
    if find_column(header, Column::Address).is_none() {
        return Err(SheetError::MissingHeader(Column::Address));
    }
    if find_column(header, Column::Latitude).is_none() {
        return Err(SheetError::MissingHeader(Column::Latitude));
    }
    if find_column(header, Column::Longitude).is_none() {
        return Err(SheetError::MissingHeader(Column::Longitude));
    }
    let mut items: Vec<Stop> = Vec::new();
    let mut skipped: Vec<usize> = Vec::new();
    let mut i: usize = 1;
    while i < sheet.len()
        invariant
            1 <= i <= sheet@.len(),
            header@ == sheet@[0]@,
            items@ == stops_of(header@, sheet@.subrange(1, i as int)),
            skipped@ == skipped_of(header@, sheet@.subrange(1, i as int)),
        decreases sheet@.len() - i,
    {
        let ghost rows = sheet@.subrange(1, i + 1);
        assert(rows.drop_last() =~= sheet@.subrange(1, i as int));
        assert(rows.last() == sheet@[i as int]);
        match Stop::from_row(&sheet[i], header) {
            Ok(s) => items.push(s),
            Err(_) => skipped.push(i),
        }
        i = i + 1;
    }
    Ok(SheetRead { items, skipped })
}

} // verus!
