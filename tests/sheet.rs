use stop_sync::models::{Model, Stop};
use stop_sync::sheet::{read_stops, Column, RowError, SheetError};

fn row(cells: &[&str]) -> Vec<String> {
    cells.iter().map(|c| c.to_string()).collect()
}

fn header() -> Vec<String> {
    row(&["ID", "StopID", "Address", "Latitude", "Longtitude"])
}

#[test]
fn reads_rows_by_header_name() {
    let sheet = vec![
        row(&["Longtitude", "Latitude", "Address", "StopID", "ID"]),
        row(&["-74.1", "4.6", "Calle 1", "ST1", "a"]),
    ];
    let r = read_stops(&sheet).unwrap();
    assert_eq!(r.items.len(), 1);
    let s = &r.items[0];
    assert_eq!(s.id, "a");
    assert_eq!(s.stop_id, "ST1");
    assert_eq!(s.position, "Calle 1");
    assert_eq!(s.latitude, "4.6");
    assert_eq!(s.longitude, "-74.1");
}

#[test]
fn short_row_is_skipped() {
    let sheet = vec![header(), row(&["a", "b"]), row(&["1", "2", "3", "4", "5"])];
    let r = read_stops(&sheet).unwrap();
    assert_eq!(r.items.len(), 1);
    assert_eq!(r.items[0].id, "1");
    assert_eq!(r.skipped, vec![1]);
}

#[test]
fn missing_header_is_an_error() {
    let sheet = vec![row(&["ID", "StopID", "Address", "Latitude"])];
    assert_eq!(read_stops(&sheet).err(), Some(SheetError::MissingHeader(Column::Longitude)));
    assert_eq!(read_stops(&Vec::new()).err(), Some(SheetError::NoHeaderRow));
}

#[test]
fn from_row_reports_missing_column() {
    let h = row(&["ID", "Address"]);
    assert_eq!(
        Stop::from_row(&row(&["a", "b"]), &h).err(),
        Some(RowError::MissingColumn(Column::StopId))
    );
    assert_eq!(
        Stop::from_row(&row(&["a"]), &header()).err(),
        Some(RowError::InsufficientColumns)
    );
}

#[test]
fn headers_match_row_layout() {
    let s = Stop {
        id: "1".to_string(),
        position: "p".to_string(),
        latitude: "la".to_string(),
        longitude: "lo".to_string(),
        stop_id: "s".to_string(),
    };
    assert_eq!(Stop::headers(), vec!["ID", "StopID", "Address", "Latitude", "Longtitude"]);
    assert_eq!(s.to_row(), vec!["1", "s", "p", "la", "lo"]);
    assert_eq!(s.id(), "1");
    assert_eq!(Stop::display_name(), "Stop");
    let back = Stop::from_row(&s.to_row(), &header()).unwrap();
    assert_eq!(back.position, "p");
    assert_eq!(back.stop_id, "s");
}
