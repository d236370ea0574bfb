use stop_sync::fetch::PagedFetch;
use stop_sync::models::Stop;
use stop_sync::query::QueryArgs;

fn stop(id: &str) -> Stop {
    Stop {
        id: id.to_string(),
        position: String::new(),
        latitude: String::new(),
        longitude: String::new(),
        stop_id: String::new(),
    }
}

fn page(prefix: &str, n: usize) -> Vec<Stop> {
    (0..n).map(|i| stop(&format!("{}{}", prefix, i))).collect()
}

#[test]
fn three_pages_take_three_calls() {
    let mut f = PagedFetch::new(QueryArgs::default());
    let pages = vec![page("a", 250), page("b", 250), page("c", 80)];
    let mut calls = 0;
    let mut pages = pages.into_iter();
    while !f.is_finished() {
        let p = pages.next().expect("asked for a page too many");
        calls += 1;
        f.on_page(Some(p));
    }
    assert_eq!(calls, 3);
    let items = f.into_items();
    assert_eq!(items.len(), 580);
    assert_eq!(items[0].id, "a0");
    assert_eq!(items[250].id, "b0");
    assert_eq!(items[579].id, "c79");
}

#[test]
fn cursor_follows_last_record() {
    let mut f = PagedFetch::new(QueryArgs::default());
    assert_eq!(f.query().skip, Some(0));
    assert!(f.query().cursor.is_none());
    assert!(f.on_page(Some(page("a", 250))));
    assert_eq!(f.query().skip, Some(1));
    assert_eq!(f.query().cursor.as_ref().unwrap().id, "a249");
    assert_eq!(f.query().take, Some(250));
}

#[test]
fn no_data_on_first_call_stops() {
    let mut f = PagedFetch::new(QueryArgs::default());
    assert!(!f.on_page(None));
    assert!(f.is_finished());
    assert!(f.items().is_empty());
}

#[test]
fn no_data_after_full_page_keeps_records() {
    let mut f = PagedFetch::new(QueryArgs::default());
    assert!(f.on_page(Some(page("a", 250))));
    assert!(!f.on_page(None));
    assert_eq!(f.items().len(), 250);
}

#[test]
fn empty_first_page_stops() {
    let mut f = PagedFetch::new(QueryArgs::default());
    assert!(!f.on_page(Some(Vec::new())));
    assert!(f.is_finished());
}

#[test]
fn custom_take_and_default_take() {
    let mut args = QueryArgs::default();
    args.take = Some(2);
    let mut f = PagedFetch::new(args);
    assert!(f.on_page(Some(page("a", 2))));
    assert!(!f.on_page(Some(page("b", 1))));
    assert_eq!(f.items().len(), 3);

    let mut args = QueryArgs::default();
    args.take = None;
    let mut f = PagedFetch::new(args);
    assert!(!f.on_page(Some(page("a", 249))));
}

#[test]
fn default_query_orders_by_stop_number() {
    let q = QueryArgs::default();
    assert_eq!(q.order_by, vec![("stopNumber".to_string(), "asc".to_string())]);
    assert!(q.organization_id.is_none());
}
