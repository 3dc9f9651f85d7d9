use teaclave_lifecycle::address::Ipv4Addr;
use teaclave_lifecycle::audit::index::{
    query_in_bounds, AuditError, AuditFields, DocumentFields, FieldName, LogService,
    MAX_QUERY_CHARS, MAX_QUERY_NESTING,
};
use teaclave_lifecycle::audit::record::{Entry, EntryBuilder};
use teaclave_lifecycle::error::ErrorKind;
use teaclave_lifecycle::frontend::gate;
use teaclave_lifecycle::management::save_logs;

fn service() -> LogService {
    let index = LogService::index_builder().create_in_ram().unwrap();
    LogService::try_new(index).unwrap()
}

fn record(micros: i64, message: &str) -> Entry {
    EntryBuilder::new()
        .date(micros)
        .ip(Ipv4Addr::new(127, 0, 0, 1))
        .user("alice".to_string())
        .message(message)
        .result(true)
        .build()
}

/// Asks until the reader has caught up with the writer, or for five seconds.
fn settled(service: &LogService, query: &str, limit: usize, expected: usize) -> Vec<Entry> {
    let started = std::time::Instant::now();
    loop {
        let found = service.query(query, limit).unwrap();
        if found.len() >= expected || started.elapsed().as_secs() >= 5 {
            return found;
        }
    }
}

#[test]
fn audit_query_returns_newest_first() {
    let mut service = service();
    service.add_log(record(100, "create task")).unwrap();
    service.add_log(record(200, "approve task")).unwrap();
    service.add_log(record(150, "invoke task")).unwrap();
    let found = settled(&service, "*", 10, 3);
    let dates: Vec<i64> = found.iter().map(|entry| entry.date()).collect();
    assert_eq!(dates, vec![200, 150, 100]);
}

#[test]
fn audit_query_is_ordered_within_one_second_and_across() {
    let mut service = service();
    let dates = [5_000_001, 5_000_000, 3, 9_999_999, 1_000_000, 999_999];
    for date in dates {
        service.add_log(record(date, "task step")).unwrap();
    }
    let found = settled(&service, "task", 10, 6);
    let seen: Vec<i64> = found.iter().map(|entry| entry.date()).collect();
    assert_eq!(seen, vec![9_999_999, 5_000_001, 5_000_000, 1_000_000, 999_999, 3]);
}

#[test]
fn audit_query_matches_the_message_and_keeps_the_limit() {
    let mut service = service();
    service.add_log(record(1, "register function")).unwrap();
    service.add_log(record(2, "delete function")).unwrap();
    service.add_log(record(3, "create task")).unwrap();
    let found = settled(&service, "function", 10, 2);
    let seen: Vec<(i64, String)> = found.iter().map(|e| (e.date(), e.message())).collect();
    assert_eq!(
        seen,
        vec![(2, "delete function".to_string()), (1, "register function".to_string())]
    );
    let _ = settled(&service, "*", 10, 3);
    let limited = service.query("*", 2).unwrap();
    assert_eq!(limited.iter().map(|e| e.date()).collect::<Vec<i64>>(), vec![3, 2]);
    assert_eq!(service.query("*", 0).unwrap().len(), 0);
}

#[test]
fn audit_query_refuses_a_malformed_query() {
    let service = service();
    assert_eq!(service.query("message:(", 5).err(), Some(AuditError::Query));
}

#[test]
fn audit_record_survives_the_document() {
    let fields = LogService::fields().unwrap();
    let entry = EntryBuilder::new()
        .date(1_700_000_000_123_456)
        .ip(Ipv4Addr::new(192, 168, 1, 20))
        .user("bob".to_string())
        .message("cancel task")
        .result(false)
        .build();
    let document = entry.to_document(&fields);
    let back = Entry::try_from(&fields, &document).unwrap();
    assert_eq!(back.date(), 1_700_000_000_123_456);
    assert_eq!(back.ip().octets, [0, 0, 0, 0, 0, 0, 0, 0, 0, 0, 0, 0, 192, 168, 1, 20]);
    assert_eq!(back.user(), "bob");
    assert_eq!(back.message(), "cancel task");
    assert!(!back.result());
}

#[test]
fn audit_record_names_the_first_missing_field() {
    let full = || DocumentFields {
        date: Some(7),
        ip: Some(Ipv4Addr::new(1, 2, 3, 4).to_ipv6_compatible()),
        user: Some("u".to_string()),
        message: Some("m".to_string()),
        result: Some(true),
    };
    assert_eq!(Entry::from_fields(full()).unwrap().date(), 7);
    let mut fields = full();
    fields.result = None;
    assert_eq!(Entry::from_fields(fields).err(), Some(AuditError::MissingField(FieldName::Result)));
    let mut fields = full();
    fields.message = None;
    fields.result = None;
    assert_eq!(Entry::from_fields(fields).err(), Some(AuditError::MissingField(FieldName::Message)));
    let mut fields = full();
    fields.user = None;
    assert_eq!(Entry::from_fields(fields).err(), Some(AuditError::MissingField(FieldName::User)));
    let mut fields = full();
    fields.ip = None;
    fields.user = None;
    assert_eq!(Entry::from_fields(fields).err(), Some(AuditError::MissingField(FieldName::Ip)));
    let mut fields = full();
    fields.date = None;
    fields.ip = None;
    assert_eq!(Entry::from_fields(fields).err(), Some(AuditError::MissingField(FieldName::Date)));
    assert_eq!(Entry::from_hit(7, full()).unwrap().date(), 7);
    assert_eq!(Entry::from_hit(8, full()).err(), Some(AuditError::RankMismatch));
}

#[test]
fn audit_builder_fills_defaults() {
    let entry = EntryBuilder::new().date(5).build();
    assert_eq!(entry.date(), 5);
    assert_eq!(entry.ip().octets, [0u8; 16]);
    assert_eq!(entry.user(), "");
    assert_eq!(entry.message(), "");
    assert!(!entry.result());
    let blank = Entry::default();
    assert_eq!(blank.date(), 0);
    let stamped = EntryBuilder::new().build_at(42);
    assert_eq!(stamped.date(), 42);
    let now = EntryBuilder::new().build();
    assert!(now.date() > 1_600_000_000_000_000);
}

#[test]
fn audit_saved_logs_can_be_queried() {
    let mut service = service();
    let logs = vec![
        teaclave_lifecycle::audit::entry::EntryBuilder::new()
            .microsecond(10)
            .ip(Ipv4Addr::new(10, 1, 2, 3))
            .user("carol".to_string())
            .message("approve_task".to_string())
            .result(true)
            .build(),
        teaclave_lifecycle::audit::entry::EntryBuilder::new()
            .microsecond(20)
            .user("dave".to_string())
            .message("invoke_task".to_string())
            .result(false)
            .build(),
    ];
    assert_eq!(service.save_logs(&logs), Ok(()));
    assert_eq!(service.save_logs(&Vec::new()), Ok(()));
    let found = settled(&service, "*", 10, 2);
    assert_eq!(found.len(), 2);
    assert_eq!(found[0].date(), 20);
    assert_eq!(found[0].user(), "dave");
    assert!(!found[0].result());
    assert_eq!(found[1].date(), 10);
    assert_eq!(found[1].ip().octets, [0, 0, 0, 0, 0, 0, 0, 0, 0, 0, 0, 0, 10, 1, 2, 3]);
    assert_eq!(found[1].message(), "approve_task");
}

#[test]
fn audit_service_wants_the_audit_fields() {
    let mut builder = tantivy::schema::Schema::builder();
    builder.add_text_field("message", tantivy::schema::TEXT);
    let foreign = tantivy::Index::create_in_ram(builder.build());
    assert_eq!(LogService::try_new(foreign).err(), Some(AuditError::Schema(FieldName::Date)));
    let mut builder = tantivy::schema::Schema::builder();
    builder.add_date_field("date", tantivy::schema::STORED);
    builder.add_ip_addr_field("ip", tantivy::schema::STORED);
    builder.add_text_field("user", tantivy::schema::STORED);
    let partial = tantivy::Index::create_in_ram(builder.build());
    assert_eq!(LogService::try_new(partial).err(), Some(AuditError::Schema(FieldName::Message)));
}

#[test]
fn audit_schema_has_the_five_fields_in_order() {
    let schema = LogService::schema();
    let fields: Vec<(u32, String)> = schema
        .fields()
        .map(|(field, entry)| (field.field_id(), entry.name().to_string()))
        .collect();
    assert_eq!(
        fields,
        vec![
            (0, "date".to_string()),
            (1, "ip".to_string()),
            (2, "user".to_string()),
            (3, "message".to_string()),
            (4, "result".to_string()),
        ]
    );
    let entry = |name: &str| schema.get_field_entry(schema.get_field(name).unwrap());
    let flags = |name: &str| {
        let e = entry(name);
        (e.is_indexed(), e.is_stored(), e.is_fast())
    };
    assert_eq!(flags("date"), (true, true, true));
    assert_eq!(flags("ip"), (true, true, false));
    assert_eq!(flags("user"), (true, true, false));
    assert_eq!(flags("message"), (true, true, false));
    assert_eq!(flags("result"), (true, true, false));
    assert_eq!(entry("date").field_type().value_type(), tantivy::schema::Type::Date);
    assert_eq!(entry("ip").field_type().value_type(), tantivy::schema::Type::IpAddr);
    assert_eq!(entry("user").field_type().value_type(), tantivy::schema::Type::Str);
    assert_eq!(entry("message").field_type().value_type(), tantivy::schema::Type::Str);
    assert_eq!(entry("result").field_type().value_type(), tantivy::schema::Type::Bool);
    match entry("date").field_type() {
        tantivy::schema::FieldType::Date(options) => {
            assert_eq!(options.get_precision(), tantivy::schema::DatePrecision::Microseconds)
        }
        _ => panic!("the date field holds no dates"),
    }
    match entry("message").field_type() {
        tantivy::schema::FieldType::Str(options) => {
            assert_eq!(options.get_indexing_options().unwrap().tokenizer(), "default")
        }
        _ => panic!("the message field holds no text"),
    }
}

#[test]
fn audit_index_builder_sorts_by_date_descending() {
    let index = LogService::index_builder().create_in_ram().unwrap();
    assert_eq!(index.schema(), LogService::schema());
    let sort = index.settings().sort_by_field.clone().unwrap();
    assert_eq!(sort.field, "date");
    assert_eq!(sort.order, tantivy::Order::Desc);
    let fields = LogService::fields().unwrap();
    let record = record(9, "probe");
    let document = record.to_document(&fields);
    let date = index.schema().get_field("date").unwrap();
    assert_eq!(document.get_first(date).unwrap().as_date().unwrap().into_timestamp_micros(), 9);
}

#[test]
fn audit_fields_come_from_five_lookups() {
    let all = AuditFields::from_lookups(Some(4), Some(3), Some(2), Some(1), Some(0)).unwrap();
    let entry = record(11, "swapped");
    let document = entry.to_document(&all);
    assert_eq!(Entry::try_from(&all, &document).unwrap().date(), 11);
    let at = tantivy::schema::Field::from_field_id;
    assert_eq!(document.get_first(at(4)).unwrap().as_date().unwrap().into_timestamp_micros(), 11);
    assert_eq!(document.get_first(at(1)).unwrap().as_text(), Some("swapped"));
    let missing = |d, i, u, m, r| AuditFields::from_lookups(d, i, u, m, r).err();
    let schema = |field| Some(AuditError::Schema(field));
    assert_eq!(missing(None, None, None, None, None), schema(FieldName::Date));
    assert_eq!(missing(Some(0), None, Some(2), None, Some(4)), schema(FieldName::Ip));
    assert_eq!(missing(Some(0), Some(1), None, Some(3), None), schema(FieldName::User));
    assert_eq!(missing(Some(0), Some(1), Some(2), None, None), schema(FieldName::Message));
    assert_eq!(missing(Some(0), Some(1), Some(2), Some(3), None), schema(FieldName::Result));
    assert_eq!(missing(Some(0), Some(1), Some(2), Some(3), Some(3)), schema(FieldName::Date));
    assert_eq!(missing(Some(7), Some(7), Some(2), Some(3), Some(4)), schema(FieldName::Date));
    // The audit schema numbers its fields in their order.
    let own = LogService::fields().unwrap();
    let document = entry.to_document(&own);
    assert_eq!(document.get_first(at(0)).unwrap().as_date().unwrap().into_timestamp_micros(), 11);
    assert_eq!(document.get_first(at(2)).unwrap().as_text(), Some("alice"));
    assert_eq!(document.get_first(at(3)).unwrap().as_text(), Some("swapped"));
    assert_eq!(document.get_first(at(4)).unwrap().as_bool(), Some(true));
}

#[test]
fn audit_service_finds_its_fields_in_any_order() {
    let mut builder = tantivy::schema::Schema::builder();
    builder.add_bool_field("result", tantivy::schema::INDEXED | tantivy::schema::STORED);
    builder.add_text_field("message", tantivy::schema::TEXT | tantivy::schema::STORED);
    builder.add_u64_field("count", tantivy::schema::STORED);
    builder.add_text_field("user", tantivy::schema::TEXT | tantivy::schema::STORED);
    builder.add_ip_addr_field("ip", tantivy::schema::INDEXED | tantivy::schema::STORED);
    let date = tantivy::schema::DateOptions::from(
        tantivy::schema::INDEXED | tantivy::schema::FAST | tantivy::schema::STORED,
    )
    .set_precision(tantivy::schema::DatePrecision::Microseconds);
    builder.add_date_field("date", date);
    let index = tantivy::Index::create_in_ram(builder.build());
    let mut service = LogService::try_new(index).unwrap();
    service.add_log(record(5, "first")).unwrap();
    service.add_log(record(6, "second")).unwrap();
    let found = settled(&service, "*", 10, 2);
    assert_eq!(found.iter().map(|e| e.date()).collect::<Vec<i64>>(), vec![6, 5]);
    assert_eq!(found[0].message(), "second");
}

#[test]
fn audit_query_takes_any_limit() {
    let mut service = service();
    service.add_log(record(1, "one")).unwrap();
    service.add_log(record(2, "two")).unwrap();
    let _ = settled(&service, "*", 10, 2);
    for limit in [2usize, 3, 1_000_000, 1_000_001, usize::MAX / 2, usize::MAX] {
        let found = service.query("*", limit).unwrap();
        assert_eq!(found.iter().map(|e| e.date()).collect::<Vec<i64>>(), vec![2, 1]);
    }
    assert_eq!(service.query("*", 1).unwrap().len(), 1);
    assert!(service.query("*", 0).unwrap().is_empty());
}

#[test]
fn audit_query_on_an_empty_index_finds_nothing() {
    let service = service();
    for limit in [1usize, 7, usize::MAX] {
        assert!(service.query("*", limit).unwrap().is_empty());
    }
}

#[test]
fn audit_query_text_is_measured() {
    assert_eq!(MAX_QUERY_CHARS, 1024);
    assert_eq!(MAX_QUERY_NESTING, 16);
    assert!(query_in_bounds(""));
    assert!(query_in_bounds("*"));
    assert!(query_in_bounds("authenticate AND (login OR logout)"));
    assert!(query_in_bounds(&"a".repeat(1024)));
    assert!(!query_in_bounds(&"a".repeat(1025)));
    assert!(query_in_bounds(&format!("{}a{}", "(".repeat(16), ")".repeat(16))));
    assert!(!query_in_bounds(&format!("{}a{}", "(".repeat(17), ")".repeat(17))));
    assert!(query_in_bounds(&format!("{}a", "NOT ".repeat(16))));
    assert!(!query_in_bounds(&format!("{}a", "NOT ".repeat(17))));
    assert!(!query_in_bounds(&format!("{}{}a", "NOT ".repeat(9), "(".repeat(8))));
    assert!(query_in_bounds(&format!("{}{}a", "NOT ".repeat(8), "(".repeat(8))));
}

#[test]
fn audit_query_refuses_a_text_out_of_bounds() {
    let mut service = service();
    service.add_log(record(1, "one")).unwrap();
    let _ = settled(&service, "*", 10, 1);
    let deep = format!("{}one{}", "(".repeat(17), ")".repeat(17));
    assert!(matches!(service.query(&deep, 5), Err(AuditError::Query)));
    let negated = format!("{}one", "NOT ".repeat(17));
    assert!(matches!(service.query(&negated, 5), Err(AuditError::Query)));
    let long = "one ".repeat(257);
    assert!(matches!(service.query(&long, 5), Err(AuditError::Query)));
    let huge = "(".repeat(200_000);
    assert!(matches!(service.query(&huge, 5), Err(AuditError::Query)));
    assert!(service.query(&huge, 0).unwrap().is_empty());
    let nested = format!("{}one{}", "(".repeat(16), ")".repeat(16));
    assert_eq!(service.query(&nested, 5).unwrap().len(), 1);
}

#[test]
fn audit_logs_are_saved_for_an_authorized_caller_only() {
    let mut service = service();
    let logs = vec![
        teaclave_lifecycle::audit::entry::EntryBuilder::new()
            .microsecond(5)
            .user("erin".to_string())
            .message("create_task".to_string())
            .result(true)
            .build(),
        teaclave_lifecycle::audit::entry::EntryBuilder::new()
            .microsecond(6)
            .user("erin".to_string())
            .message("cancel_task".to_string())
            .result(false)
            .build(),
    ];
    let stranger = gate("erin".to_string(), Ipv4Addr::new(10, 0, 0, 1), 9, true, false);
    assert_eq!(save_logs(&stranger, &mut service, &logs), Err(ErrorKind::PermissionDenied));
    let unknown = gate("erin".to_string(), Ipv4Addr::new(10, 0, 0, 1), 9, false, true);
    assert_eq!(save_logs(&unknown, &mut service, &logs), Err(ErrorKind::PermissionDenied));
    assert!(service.query("*", 10).unwrap().is_empty());
    let gateway = gate("frontend".to_string(), Ipv4Addr::new(10, 0, 0, 1), 9, true, true);
    assert_eq!(save_logs(&gateway, &mut service, &logs), Ok(()));
    let found = settled(&service, "*", 10, 2);
    assert_eq!(found.iter().map(|e| e.date()).collect::<Vec<i64>>(), vec![6, 5]);
    assert_eq!(found[0].message(), "cancel_task");
    assert!(!found[0].result());
    assert_eq!(found[1].user(), "erin");
    assert_eq!(save_logs(&gateway, &mut service, &Vec::new()), Ok(()));
    assert_eq!(service.query("*", 10).unwrap().len(), 2);
}
