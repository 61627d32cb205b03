use deal_sync::config::{config, get_env, get_env_as_parse, Config};
use deal_sync::data::{Attributes, CustomField, FlexibleType, Lead, ProfitData, ProfitRecord, Val};
use deal_sync::enrich::{auth_body, auth_payload, auth_token, auth_url, property_url};
use deal_sync::error::Error;
use deal_sync::fetch::listing_url;
use deal_sync::filter::{extract_deal_ids, is_qualifying, lead_ids, qualifying_field};
use deal_sync::mapper::{house_number, house_part, map_profit_data, object_type, to_deal};
use deal_sync::report::{numbers_or_empty, prepare_numbers_response, prepare_response, HouseData};
use deal_sync::schedule::{route_run_result, wait_seconds, Notice, Scheduler};
use deal_sync::store::new_log_entry;
use deal_sync::text::{contains_text, find_char, int_to_text, parse_i32, parse_i64, same_text, u64_text};

fn field(id: u64, name: &str, value: FlexibleType, enum_id: Option<u64>) -> CustomField {
    CustomField { field_id: id, field_name: name.to_string(), values: vec![Val { value, enum_id }] }
}

fn lead_with(id: u64, fields: Vec<CustomField>) -> Lead {
    Lead { id, name: String::new(), created_at: 0, custom_fields_values: fields }
}

fn data(number: &str, house_name: &str, sold_at: &str, facing: Option<&str>) -> ProfitData {
    ProfitData {
        number: number.to_string(),
        house_name: house_name.to_string(),
        project_name: "Формат".to_string(),
        sold_at: sold_at.to_string(),
        attributes: Attributes { facing: facing.map(|f| f.to_string()) },
    }
}

fn env(pairs: &[(&str, &str)]) -> Vec<(String, String)> {
    pairs.iter().map(|(k, v)| (k.to_string(), v.to_string())).collect()
}

fn full_env() -> Vec<(String, String)> {
    env(&[
        ("TG_HANMASTER_ID", "111"),
        ("TG_GROUP_ID", "-100200"),
        ("DB_URL", "sqlite://deals.db"),
        ("AMO_CITY_URL", "https://city.example/api?a=1"),
        ("AMO_CITY_TOKEN", "SECRET-REDACTED"),
        ("AMO_FORMAT_URL", "https://format.example/api"),
        ("AMO_FORMAT_TOKEN", "SECRET-REDACTED"),
        ("PROF_CITY_URL", "https://pb.example"),
        ("PROF_CITY_API_KEY", "key-city"),
        ("PROF_FORMAT_URL", "https://pb2.example"),
        ("PROF_FORMAT_API_KEY", "key-format"),
        ("SCHEDULE", "0 0 9 * * * *"),
    ])
}

#[test]
fn integers_parse_as_std_does() {
    assert_eq!(parse_i32("7"), Some(7));
    assert_eq!(parse_i32("+5"), Some(5));
    assert_eq!(parse_i32("-12"), Some(-12));
    assert_eq!(parse_i32("007"), Some(7));
    assert_eq!(parse_i32(""), None);
    assert_eq!(parse_i32("-"), None);
    assert_eq!(parse_i32(" 7"), None);
    assert_eq!(parse_i32("12a"), None);
    assert_eq!(parse_i32("2147483647"), Some(2147483647));
    assert_eq!(parse_i32("2147483648"), None);
    assert_eq!(parse_i32("-2147483648"), Some(-2147483648));
    assert_eq!(parse_i64("-9223372036854775808"), Some(i64::MIN));
    assert_eq!(parse_i64("9223372036854775808"), None);
    assert_eq!(parse_i64("99999999999999999999999"), None);
}

#[test]
fn integers_print_in_decimal() {
    assert_eq!(int_to_text(0), "0");
    assert_eq!(int_to_text(-45), "-45");
    assert_eq!(int_to_text(1600437670), "1600437670");
    assert_eq!(int_to_text(i64::MIN), i64::MIN.to_string());
    assert_eq!(u64_text(u64::MAX), u64::MAX.to_string());
}

#[test]
fn text_search() {
    assert!(contains_text("Кладовка №3", "Кладовк"));
    assert!(!contains_text("Дом №3", "Кладовк"));
    assert!(contains_text("abc", ""));
    assert!(!contains_text("ab", "abc"));
    assert_eq!(find_char("Дом №7", '№'), Some(4));
    assert_eq!(find_char("Дом 7", '№'), None);
    assert!(same_text("ДКП", "ДКП"));
    assert!(!same_text("ДКП", "ДК"));
}

#[test]
fn lead_with_exact_contract_field_qualifies() {
    let l = lead_with(1, vec![field(1, "x", FlexibleType::Int(3), None), qualifying_field()]);
    assert!(is_qualifying(&l));
    let exact = field(1631153, "Тип договора", FlexibleType::Str("ДКП".to_string()), Some(4661181));
    assert!(is_qualifying(&lead_with(2, vec![exact])));
}

#[test]
fn lead_without_contract_field_is_excluded() {
    assert!(!is_qualifying(&lead_with(1, vec![])));
    assert!(!is_qualifying(&lead_with(1, vec![field(99, "Тип договора", FlexibleType::Str("ДКП".to_string()), Some(4661181))])));
}

#[test]
fn lead_with_other_enum_id_is_excluded() {
    let other = field(1631153, "Тип договора", FlexibleType::Str("ДКП".to_string()), Some(4661182));
    assert!(!is_qualifying(&lead_with(1, vec![other])));
    let untagged = field(1631153, "Тип договора", FlexibleType::Str("ДКП".to_string()), None);
    assert!(!is_qualifying(&lead_with(1, vec![untagged])));
    let int_value = field(1631153, "Тип договора", FlexibleType::Int(0), Some(4661181));
    assert!(!is_qualifying(&lead_with(1, vec![int_value])));
    let mut two_values = qualifying_field();
    two_values.values.push(Val { value: FlexibleType::Int(1), enum_id: None });
    assert!(!is_qualifying(&lead_with(1, vec![two_values])));
}

#[test]
fn qualifying_ids_keep_listing_order() {
    let leads = vec![
        lead_with(5, vec![qualifying_field()]),
        lead_with(6, vec![]),
        lead_with(4, vec![qualifying_field()]),
    ];
    assert_eq!(lead_ids(&leads), vec![5, 4]);
    let record = deal_sync::data::Record {
        _links: deal_sync::data::Links { next: None },
        _embedded: deal_sync::data::Embedded { leads },
    };
    assert_eq!(extract_deal_ids(record), vec![5, 4]);
}

#[test]
fn custom_fields_compare_structurally() {
    assert!(qualifying_field() == qualifying_field());
    assert!(FlexibleType::Int(3) != FlexibleType::Str("3".to_string()));
    assert!(Val { value: FlexibleType::Int(3), enum_id: None } != Val { value: FlexibleType::Int(3), enum_id: Some(1) });
}

#[test]
fn house_number_after_delimiter() {
    assert_eq!(house_number("Дом №7"), 7);
    assert_eq!(house_part("Дом №7"), "7");
    assert_eq!(house_part("a№12№b"), "12");
    assert_eq!(house_number("Кладовка №3"), 3);
}

#[test]
fn house_number_without_delimiter_parses_whole_name() {
    assert_eq!(house_part("15"), "15");
    assert_eq!(house_number("15"), 15);
}

#[test]
fn house_number_falls_back_to_sentinel() {
    assert_eq!(house_number("Дом"), -1);
    assert_eq!(house_number("Дом № 7"), -1);
    assert_eq!(house_number("№"), -1);
}

#[test]
fn object_type_from_house_name() {
    assert_eq!(object_type("Кладовка №3"), "Кладовки");
    assert_eq!(object_type("Дом №3"), "Квартиры");
}

#[test]
fn mapping_fills_every_field() {
    let d = map_profit_data(9, &data("31", "Дом №2", "ignored", None), Some(77)).ok().unwrap();
    assert_eq!(d.deal_id, 9);
    assert_eq!(d.project, "Формат");
    assert_eq!(d.house, 2);
    assert_eq!(d.object_type, "Квартиры");
    assert_eq!(d.object, 31);
    assert_eq!(d.facing, "");
    assert_eq!(d.created_on, 77);
    let d = map_profit_data(9, &data("31", "Дом №2", "ignored", Some("clean")), None).ok().unwrap();
    assert_eq!(d.created_on, 0);
    assert_eq!(d.facing, "clean");
}

#[test]
fn mapping_rejects_object_number_that_is_no_integer() {
    assert!(matches!(map_profit_data(9, &data("3b", "Дом №2", "", None), None), Err(Error::Parse)));
}

#[test]
fn to_deal_parses_sold_at() {
    let rec = ProfitRecord { status: "success".to_string(), data: vec![data("8", "Дом №1", "2024-05-01 10:00", None)] };
    let d = to_deal(3, &rec).ok().unwrap();
    assert_eq!(d.created_on, 1714557600);
    let rec = ProfitRecord { status: "success".to_string(), data: vec![data("8", "Дом №1", "yesterday", None)] };
    assert_eq!(to_deal(3, &rec).ok().unwrap().created_on, 0);
}

#[test]
fn to_deal_rejects_unusable_payload() {
    let failed = ProfitRecord { status: "error".to_string(), data: vec![data("8", "Дом №1", "", None)] };
    assert!(matches!(to_deal(3, &failed), Err(Error::ProfitGetDataFailed)));
    let empty = ProfitRecord { status: "success".to_string(), data: vec![] };
    assert!(matches!(to_deal(3, &empty), Err(Error::ProfitGetDataFailed)));
    let bad_number = ProfitRecord { status: "success".to_string(), data: vec![data("x", "Дом №1", "", None)] };
    assert!(matches!(to_deal(3, &bad_number), Err(Error::Parse)));
}

#[test]
fn listing_url_carries_watermark() {
    assert_eq!(listing_url("https://c/api?limit=50", 1600437670), "https://c/api?limit=50&filter[created_at][from]=1600437670");
}

#[test]
fn enrichment_requests() {
    assert_eq!(auth_url("https://pb"), "https://pb/authentication");
    assert_eq!(property_url("https://pb", 42, "tok"), "https://pb/property/deal/42?access_token=tok");
    assert_eq!(
        auth_payload("k\"1"),
        "{\"type\":\"api-app\",\"credentials\":{\"pb_api_key\":\"k\\\"1\"}}"
    );
    assert_eq!(auth_body("\"a\""), "{\"type\":\"api-app\",\"credentials\":{\"pb_api_key\":\"a\"}}");
    let payload: serde_json::Value = serde_json::from_str(&auth_payload("abc")).unwrap();
    assert_eq!(payload["credentials"]["pb_api_key"], "abc");
    assert_eq!(payload["type"], "api-app");
}

#[test]
fn auth_token_needs_ok_status_and_token() {
    assert_eq!(auth_token(200, Some("t".to_string())).ok(), Some("t".to_string()));
    assert!(matches!(auth_token(401, Some("t".to_string())), Err(Error::ProfitAuthFailed)));
    assert!(matches!(auth_token(200, None), Err(Error::ProfitAuthFailed)));
}

#[test]
fn log_entry_stamps_now() {
    let e = new_log_entry(1234, 0);
    assert_eq!((e.last_checked, e.rows_found, e.created_at), (1234, 0, 1234));
}

#[test]
fn config_reads_every_setting() {
    let c: Config = config(&full_env()).ok().unwrap();
    assert_eq!(c.ADMIN_ID, 111);
    assert_eq!(c.TG_GROUP_ID, -100200);
    assert_eq!(c.DB_URL, "sqlite://deals.db");
    assert_eq!(c.PROF_CITY_API_KEY, "key-city");
    assert_eq!(c.SCHEDULE, "0 0 9 * * * *");
    assert!(Config::load_from_env(&full_env()).is_ok());
}

#[test]
fn config_reports_missing_setting() {
    let mut e = full_env();
    e.retain(|(k, _)| k != "AMO_CITY_TOKEN");
    assert!(matches!(config(&e), Err(Error::ConfigMissingEnv(ref n)) if n == "AMO_CITY_TOKEN"));
    assert!(matches!(get_env("NOPE", &e), Err(Error::ConfigMissingEnv(ref n)) if n == "NOPE"));
}

#[test]
fn config_reports_malformed_setting() {
    let mut e = full_env();
    e[1].1 = "group".to_string();
    assert!(matches!(config(&e), Err(Error::ConfigWrongFormat(ref n)) if n == "TG_GROUP_ID"));
    assert!(matches!(get_env_as_parse("TG_GROUP_ID", &e), Err(Error::ConfigWrongFormat(_))));
    assert_eq!(get_env_as_parse("TG_HANMASTER_ID", &e).ok(), Some(111));
}

#[test]
fn run_results_are_routed() {
    assert!(matches!(route_run_result(Ok((true, "x".to_string()))), Notice::Group(ref t) if t == "x"));
    assert!(matches!(route_run_result(Ok((false, "x".to_string()))), Notice::Nothing));
    assert!(matches!(route_run_result(Err(Error::ProfitAuthFailed)), Notice::Admin(ref t) if t == "ProfitAuthFailed"));
    assert!(matches!(
        route_run_result(Err(Error::ConfigMissingEnv("DB_URL".to_string()))),
        Notice::Admin(ref t) if t == "ConfigMissingEnv(DB_URL)"
    ));
}

#[test]
fn waits_until_next_fire_time() {
    assert_eq!(wait_seconds(100, Some(160)), Some(60));
    assert_eq!(wait_seconds(100, Some(90)), Some(0));
    assert_eq!(wait_seconds(100, None), None);
}

#[test]
fn schedule_expression_is_checked() {
    assert!(matches!(Scheduler::new("not a schedule"), Err(Error::ConfigSchedule)));
    assert!(Scheduler::new("0 0 * * * * *").is_ok());
    let s = Scheduler::new("0 0 * * * * *").ok().unwrap();
    let wait = s.wait_from(1700000000, 0).unwrap();
    assert!(wait > 0 && wait <= 3600);
}

#[test]
fn schedule_is_read_at_the_given_offset() {
    let s = Scheduler::new("0 0 9 * * * *").ok().unwrap();
    assert_eq!(s.wait_from(1700000000, 0), Some(38800));
    assert_eq!(s.wait_from(1700000000, 3 * 3600), Some(28000));
}

#[test]
fn auth_payload_escapes_control_characters() {
    assert_eq!(
        auth_payload("a\\b\n\u{1}"),
        "{\"type\":\"api-app\",\"credentials\":{\"pb_api_key\":\"a\\\\b\\n\\u0001\"}}"
    );
}

#[test]
fn numbers_response_lists_commands() {
    assert_eq!(prepare_numbers_response(Ok(vec![3, 14])), "Найдены объекты с номерами:\n/3, /14, ");
    assert_eq!(prepare_numbers_response(Ok(vec![])), "Объектов не найдено");
    assert_eq!(prepare_numbers_response(Err(Error::Persistence("x".to_string()))), "Ошибка при получении объектов");
    assert_eq!(numbers_or_empty(Ok(vec![1, 2])), vec![1, 2]);
    assert_eq!(numbers_or_empty(Err(Error::Persistence("x".to_string()))), Vec::<i32>::new());
}

#[test]
fn deal_report_shows_deadline() {
    let b = HouseData {
        id: 1,
        deal_id: 42,
        project: "DNS Сити".to_string(),
        house: 7,
        object_type: "Квартиры".to_string(),
        object: 12,
        facing: "white box".to_string(),
        created_on: 1714557600,
        updated_on: String::new(),
    };
    assert_eq!(
        prepare_response(Ok(b)),
        "Проект: DNS Сити\nДом № 7\nТип объекта: Квартиры\n№ 12\nТип отделки: white box\nДата регистрации: 01.05.2024\nПередать объект до: 31.05.2024\n"
    );
    let s = HouseData {
        id: 2,
        deal_id: 43,
        project: "ЖК Формат".to_string(),
        house: 2,
        object_type: "Кладовки".to_string(),
        object: 5,
        facing: String::new(),
        created_on: 0,
        updated_on: String::new(),
    };
    assert_eq!(
        prepare_response(Ok(s)),
        "Проект: ЖК Формат\nДом № 2\nТип объекта: Кладовки\n№ 5\nДата регистрации: 01.01.1970\nПередать объект до: 31.01.1970\n"
    );
    assert_eq!(prepare_response(Err(Error::Persistence("x".to_string()))), "Ошибка чтения данных");
}

#[test]
fn error_messages_name_the_variant() {
    assert_eq!(Error::Parse.message(), "Parse");
    assert_eq!(Error::ExternalService("down".to_string()).message(), "ExternalService(down)");
    assert!(Error::Parse.is_per_deal());
    assert!(!Error::ProfitAuthFailed.is_per_deal());
}

#[test]
fn report_uses_given_days() {
    let b = HouseData {
        id: 1,
        deal_id: 42,
        project: "DNS Сити".to_string(),
        house: -1,
        object_type: "Кладовки".to_string(),
        object: 3,
        facing: "x".to_string(),
        created_on: 0,
        updated_on: String::new(),
    };
    assert_eq!(
        deal_sync::report::report_with_days(&b, "D1", "D2"),
        "Проект: DNS Сити\nДом № -1\nТип объекта: Кладовки\n№ 3\nДата регистрации: D1\nПередать объект до: D2\n"
    );
}
