use deal_sync::data::{
    Attributes, CustomField, Embedded, FlexibleType, Lead, Link, Links, ProfitData, ProfitRecord,
    Record, Val,
};
use deal_sync::error::Error;
use deal_sync::fetch::{PageResponse, Pager, PagerStep};
use deal_sync::mapper::{sold_at_seconds, DealForAdd};
use deal_sync::store::{get_watermark, select_new_ids, SyncLogEntry, DEFAULT_WATERMARK};
use deal_sync::sync::{Phase, SyncAction, SyncRun};

fn contract_field() -> CustomField {
    CustomField {
        field_id: 1631153,
        field_name: "Тип договора".to_string(),
        values: vec![Val { value: FlexibleType::Str("ДКП".to_string()), enum_id: Some(4661181) }],
    }
}

fn lead(id: u64, fields: Vec<CustomField>) -> Lead {
    Lead { id, name: format!("lead {}", id), created_at: 1700000000, custom_fields_values: fields }
}

fn page(leads: Vec<Lead>, next: Option<&str>) -> Record {
    Record {
        _links: Links { next: next.map(|h| Link { href: h.to_string() }) },
        _embedded: Embedded { leads },
    }
}

fn property(number: &str, house_name: &str, project: &str) -> ProfitRecord {
    ProfitRecord {
        status: "success".to_string(),
        data: vec![ProfitData {
            number: number.to_string(),
            house_name: house_name.to_string(),
            project_name: project.to_string(),
            sold_at: "2025-03-12 04:38".to_string(),
            attributes: Attributes { facing: Some("white box".to_string()) },
        }],
    }
}

fn expect_fetch(a: SyncAction) -> String {
    match a {
        SyncAction::FetchPage(u) => u,
        _ => panic!("expected a page request"),
    }
}

#[test]
fn parse_date() {
    let res = sold_at_seconds("2025-03-12 04:38");
    assert!(res.is_some());
    assert_eq!(res, Some(1741754280));
}

#[test]
fn end_to_end_one_qualifying_lead_is_stored() {
    let mut run = SyncRun::new(1700000500, "https://crm/leads?x=1".to_string(), "https://pb".to_string());
    let url = expect_fetch(run.on_watermark(Ok(vec![])));
    assert_eq!(url, "https://crm/leads?x=1&filter[created_at][from]=1600437670");
    let action = run.on_listing(PageResponse::Page(page(vec![lead(42, vec![contract_field()])], None)));
    assert!(matches!(action, SyncAction::ReadSavedIds));
    assert!(matches!(run.on_saved_ids(Ok(vec![])), SyncAction::Authenticate));
    let action = run.on_token(Ok("tok".to_string()));
    match action {
        SyncAction::FetchProperty { deal_id, url } => {
            assert_eq!(deal_id, 42);
            assert_eq!(url, "https://pb/property/deal/42?access_token=tok");
        }
        _ => panic!("expected a property request"),
    }
    let action = run.on_property(Ok(property("12", "Дом №7", "City")));
    let stored: DealForAdd = match action {
        SyncAction::StoreDeal(d) => d,
        _ => panic!("expected a deal to store"),
    };
    assert_eq!(stored.deal_id, 42);
    assert_eq!(stored.project, "City");
    assert_eq!(stored.house, 7);
    assert_eq!(stored.object_type, "Квартиры");
    assert_eq!(stored.object, 12);
    assert_eq!(stored.facing, "white box");
    assert_eq!(stored.created_on, 1741754280);
    let action = run.on_stored(Ok(()));
    match action {
        SyncAction::RecordRun(e) => {
            assert_eq!(e.last_checked, 1700000500);
            assert_eq!(e.rows_found, 1);
        }
        _ => panic!("expected the run to be recorded"),
    }
    match run.on_recorded(Ok(())) {
        SyncAction::Finish(Ok((found, text))) => {
            assert!(found);
            assert!(text.contains("Дом № 7"));
            assert!(text.contains("№ 12"));
            assert_eq!(text, "Проект: Сити\nДом № 7 Квартиры № 12, \n");
        }
        _ => panic!("expected a report"),
    }
    assert!(run.phase() == Phase::Done);
}

#[test]
fn end_to_end_no_content_records_zero_rows() {
    let mut run = SyncRun::new(1700000500, "https://crm/leads?x=1".to_string(), "https://pb".to_string());
    expect_fetch(run.on_watermark(Ok(vec![])));
    match run.on_listing(PageResponse::NoContent) {
        SyncAction::RecordRun(e) => {
            assert_eq!(e.rows_found, 0);
            assert_eq!(e.last_checked, 1700000500);
        }
        _ => panic!("expected the run to be recorded"),
    }
    match run.on_recorded(Ok(())) {
        SyncAction::Finish(Ok((found, text))) => {
            assert!(!found);
            assert_eq!(text, "Новых сделок не найдено");
        }
        _ => panic!("expected a report"),
    }
}

#[test]
fn run_without_qualifying_leads_reports_sync_done() {
    let mut run = SyncRun::new(5, "u".to_string(), "p".to_string());
    expect_fetch(run.on_watermark(Ok(vec![])));
    let other = lead(7, vec![]);
    assert!(matches!(run.on_listing(PageResponse::Page(page(vec![other], None))), SyncAction::RecordRun(_)));
    match run.on_recorded(Ok(())) {
        SyncAction::Finish(Ok((found, text))) => {
            assert!(!found);
            assert_eq!(text, "Синхронизация выполнена");
        }
        _ => panic!("expected a report"),
    }
}

#[test]
fn second_run_over_same_data_stores_nothing() {
    let leads_page = || page(vec![lead(42, vec![contract_field()]), lead(43, vec![contract_field()])], None);
    let mut run = SyncRun::new(100, "u".to_string(), "p".to_string());
    expect_fetch(run.on_watermark(Ok(vec![])));
    run.on_listing(PageResponse::Page(leads_page()));
    run.on_saved_ids(Ok(vec![43]));
    match run.on_token(Ok("t".to_string())) {
        SyncAction::FetchProperty { deal_id, .. } => assert_eq!(deal_id, 42),
        _ => panic!("expected a property request"),
    }
    // The store now holds 42 and 43; the same listing again picks nothing.
    let mut again = SyncRun::new(200, "u".to_string(), "p".to_string());
    expect_fetch(again.on_watermark(Ok(vec![])));
    again.on_listing(PageResponse::Page(leads_page()));
    match again.on_saved_ids(Ok(vec![43, 42])) {
        SyncAction::RecordRun(e) => assert_eq!(e.rows_found, 0),
        _ => panic!("expected nothing to enrich"),
    }
}

#[test]
fn enrichment_failure_skips_only_that_deal() {
    let mut run = SyncRun::new(100, "u".to_string(), "p".to_string());
    expect_fetch(run.on_watermark(Ok(vec![])));
    run.on_listing(PageResponse::Page(page(
        vec![lead(1, vec![contract_field()]), lead(2, vec![contract_field()])],
        None,
    )));
    run.on_saved_ids(Ok(vec![]));
    run.on_token(Ok("t".to_string()));
    match run.on_property(Err(Error::ProfitGetDataFailed)) {
        SyncAction::FetchProperty { deal_id, .. } => assert_eq!(deal_id, 2),
        _ => panic!("expected the next deal"),
    }
    assert!(matches!(run.on_property(Ok(property("5", "Кладовка №3", "City"))), SyncAction::StoreDeal(_)));
    match run.on_stored(Ok(())) {
        SyncAction::RecordRun(e) => assert_eq!(e.rows_found, 1),
        _ => panic!("expected the run to be recorded"),
    }
    match run.on_recorded(Ok(())) {
        SyncAction::Finish(Ok((found, text))) => {
            assert!(found);
            assert_eq!(text, "Проект: Сити\nДом № 3 Кладовки № 5, \n");
        }
        _ => panic!("expected a report"),
    }
}

#[test]
fn object_number_that_is_no_integer_skips_the_deal() {
    let mut run = SyncRun::new(100, "u".to_string(), "p".to_string());
    expect_fetch(run.on_watermark(Ok(vec![])));
    run.on_listing(PageResponse::Page(page(vec![lead(1, vec![contract_field()])], None)));
    run.on_saved_ids(Ok(vec![]));
    run.on_token(Ok("t".to_string()));
    match run.on_property(Ok(property("12a", "Дом №7", "City"))) {
        SyncAction::RecordRun(e) => assert_eq!(e.rows_found, 0),
        _ => panic!("expected the run to be recorded"),
    }
}

#[test]
fn store_failure_ends_the_run_without_recording() {
    let mut run = SyncRun::new(100, "u".to_string(), "p".to_string());
    expect_fetch(run.on_watermark(Ok(vec![])));
    run.on_listing(PageResponse::Page(page(vec![lead(1, vec![contract_field()])], None)));
    run.on_saved_ids(Ok(vec![]));
    run.on_token(Ok("t".to_string()));
    run.on_property(Ok(property("4", "Дом №1", "City")));
    match run.on_stored(Err(Error::Persistence("locked".to_string()))) {
        SyncAction::Finish(Err(Error::Persistence(m))) => assert_eq!(m, "locked"),
        _ => panic!("expected the run to fail"),
    }
    assert!(run.phase() == Phase::Done);
}

#[test]
fn auth_failure_ends_the_run() {
    let mut run = SyncRun::new(100, "u".to_string(), "p".to_string());
    expect_fetch(run.on_watermark(Ok(vec![])));
    run.on_listing(PageResponse::Page(page(vec![lead(1, vec![contract_field()])], None)));
    run.on_saved_ids(Ok(vec![]));
    assert!(matches!(run.on_token(Err(Error::ProfitAuthFailed)), SyncAction::Finish(Err(Error::ProfitAuthFailed))));
}

#[test]
fn watermark_read_failure_ends_the_run() {
    let mut run = SyncRun::new(100, "u".to_string(), "p".to_string());
    let a = run.on_watermark(Err(Error::Persistence("gone".to_string())));
    assert!(matches!(a, SyncAction::Finish(Err(Error::Persistence(_)))));
    assert!(run.phase() == Phase::Done);
}

#[test]
fn watermark_of_previous_run_feeds_next_run() {
    let mut log: Vec<SyncLogEntry> = vec![];
    assert_eq!(get_watermark(&log), DEFAULT_WATERMARK);
    let mut run = SyncRun::new(1700000000, "u".to_string(), "p".to_string());
    expect_fetch(run.on_watermark(Ok(vec![])));
    let entry = match run.on_listing(PageResponse::NoContent) {
        SyncAction::RecordRun(e) => e,
        _ => panic!("expected the run to be recorded"),
    };
    log.push(entry);
    assert_eq!(get_watermark(&log), 1700000000);
    let mut next = SyncRun::new(1700003600, "u".to_string(), "p".to_string());
    let url = expect_fetch(next.on_watermark(Ok(log)));
    assert_eq!(url, "u&filter[created_at][from]=1700000000");
}

#[test]
fn watermark_takes_most_recent_entry() {
    let log = vec![
        SyncLogEntry { last_checked: 30, rows_found: 1, created_at: 30 },
        SyncLogEntry { last_checked: 10, rows_found: 0, created_at: 10 },
        SyncLogEntry { last_checked: 20, rows_found: 2, created_at: 20 },
    ];
    assert_eq!(get_watermark(&log), 30);
}

#[test]
fn pagination_gathers_every_page_once() {
    let mut pager = Pager::new("first".to_string());
    let s1 = pager.on_response(PageResponse::Page(page(vec![lead(1, vec![]), lead(2, vec![])], Some("p2"))));
    assert!(matches!(s1, PagerStep::Fetch(ref u) if u == "p2"));
    let s2 = pager.on_response(PageResponse::Page(page(vec![lead(3, vec![])], Some("p3"))));
    assert!(matches!(s2, PagerStep::Fetch(ref u) if u == "p3"));
    let s3 = pager.on_response(PageResponse::Page(page(vec![lead(4, vec![])], None)));
    assert!(matches!(s3, PagerStep::Done));
    let ids: Vec<u64> = pager.into_leads().iter().map(|l| l.id).collect();
    assert_eq!(ids, vec![1, 2, 3, 4]);
}

#[test]
fn pagination_fails_on_repeated_cursor() {
    let mut pager = Pager::new("first".to_string());
    pager.on_response(PageResponse::Page(page(vec![lead(1, vec![])], Some("p2"))));
    let s = pager.on_response(PageResponse::Page(page(vec![lead(2, vec![])], Some("p2"))));
    assert!(matches!(s, PagerStep::Failed(Error::ExternalService(_))));
    let mut selfref = Pager::new("first".to_string());
    let s = selfref.on_response(PageResponse::Page(page(vec![], Some("first"))));
    assert!(matches!(s, PagerStep::Failed(Error::ExternalService(_))));
}

#[test]
fn pagination_failed_request_fails_fetch() {
    let mut pager = Pager::new("first".to_string());
    let s = pager.on_response(PageResponse::Failed("timeout".to_string()));
    assert!(matches!(s, PagerStep::Failed(Error::ExternalService(ref m)) if m == "timeout"));
}

#[test]
fn pagination_empty_cursor_ends_fetch() {
    let mut pager = Pager::new("first".to_string());
    let s = pager.on_response(PageResponse::Page(page(vec![lead(9, vec![])], Some(""))));
    assert!(matches!(s, PagerStep::Done));
    assert_eq!(pager.leads().len(), 1);
}

#[test]
fn dedup_drops_saved_and_repeated_ids() {
    assert_eq!(select_new_ids(&vec![5, 3, 5, 8, 3], &vec![8]), vec![5, 3]);
    assert_eq!(select_new_ids(&vec![5, 3], &vec![5, 3]), Vec::<u64>::new());
    assert_eq!(select_new_ids(&vec![], &vec![1]), Vec::<u64>::new());
}
