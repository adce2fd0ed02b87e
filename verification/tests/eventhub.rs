use riffle::source_eventhub::{
    build_record_batch, collects_on, event_hub_arrow_schema, reader_step, received_to_row,
    sanitize_namespace, start_position_for, system_time_to_us, BatchCollector, CollectEvent,
    EventHubError, EventHubSourceConfig, EventRow, InitialPosition, PartitionSeq, ReaderStep,
    Received, ReceivedEvent, StartAt,
};

fn config() -> EventHubSourceConfig {
    EventHubSourceConfig {
        namespace: "ns.servicebus.windows.net".to_string(),
        event_hub: "hub".to_string(),
        consumer_group: "$Default".to_string(),
        initial_position: InitialPosition::Latest,
        max_events_per_batch: 5_000,
        batch_timeout_secs: 5,
        partitions: None,
        prefetch: 1_000,
    }
}

#[test]
fn initial_positions() {
    for s in ["", "  ", "latest", " Newest "] {
        assert_eq!(InitialPosition::parse(s), Ok(InitialPosition::Latest));
    }
    for s in ["earliest", "OLDEST", "beginning"] {
        assert_eq!(InitialPosition::parse(s), Ok(InitialPosition::Earliest));
    }
    let e = InitialPosition::parse(" Middle ").unwrap_err();
    assert_eq!(e, EventHubError::InvalidPosition { position: "middle".to_string() });
    assert_eq!(
        e.message(),
        "invalid initial position 'middle': expected 'earliest' or 'latest'"
    );
}

#[test]
fn signature_changes_with_each_part() {
    let a = config();
    assert_eq!(a.checkpoint_signature(), "eh:ns.servicebus.windows.net|hub|$Default");
    let mut b = config();
    b.consumer_group = "g".to_string();
    assert_ne!(a.checkpoint_signature(), b.checkpoint_signature());
    let mut b = config();
    b.event_hub = "h".to_string();
    assert_ne!(a.checkpoint_signature(), b.checkpoint_signature());
    let mut b = config();
    b.namespace = "n".to_string();
    assert_ne!(a.checkpoint_signature(), b.checkpoint_signature());
}

#[test]
fn limits_of_a_source() {
    let mut c = config();
    assert_eq!(c.channel_capacity(), 5_000);
    c.max_events_per_batch = 1;
    assert_eq!(c.channel_capacity(), 1_024);
    c.max_events_per_batch = 1_000_000;
    assert_eq!(c.channel_capacity(), 100_000);
    assert_eq!(c.prefetch_count(), 1_000);
    c.prefetch = 0;
    assert_eq!(c.prefetch_count(), 1);
    assert_eq!(c.named_consumer_group(), Some("$Default".to_string()));
    c.consumer_group = " ".to_string();
    assert_eq!(c.named_consumer_group(), None);
    assert_eq!(c.preflight_context(), "eventhub preflight ns.servicebus.windows.net/hub");
}

#[test]
fn partitions_are_listed_or_discovered() {
    let mut c = config();
    let found = vec!["0".to_string(), "1".to_string()];
    assert_eq!(c.partitions_to_read(found.clone()), Ok(found.clone()));
    let e = c.partitions_to_read(vec![]).unwrap_err();
    assert_eq!(e.message(), "no partitions discovered for hub");
    c.partitions = Some(vec!["7".to_string()]);
    assert_eq!(c.partitions_to_read(found.clone()), Ok(vec!["7".to_string()]));
    c.partitions = Some(vec![]);
    assert!(c.partitions_to_read(found).is_err());
}

#[test]
fn namespaces_as_users_type_them() {
    assert_eq!(sanitize_namespace("myns"), "myns");
    assert_eq!(sanitize_namespace(" myns.servicebus.windows.net "), "myns.servicebus.windows.net");
    assert_eq!(sanitize_namespace("sb://myns.servicebus.windows.net"), "myns.servicebus.windows.net");
    assert_eq!(
        sanitize_namespace("https://myns.servicebus.windows.net:443/hub"),
        "myns.servicebus.windows.net"
    );
    assert_eq!(sanitize_namespace("amqps://a:b:1/"), "a:b");
    assert_eq!(sanitize_namespace("http://sb://x"), "sb");
    assert_eq!(sanitize_namespace(""), "");
}

#[test]
fn start_positions() {
    let resume = vec![
        PartitionSeq { partition: "0".to_string(), sequence: 17 },
        PartitionSeq { partition: "1".to_string(), sequence: -1 },
    ];
    assert_eq!(start_position_for("0", &resume, InitialPosition::Latest), StartAt::After(17));
    assert_eq!(start_position_for("1", &resume, InitialPosition::Latest), StartAt::After(-1));
    assert_eq!(start_position_for("2", &resume, InitialPosition::Latest), StartAt::Latest);
    assert_eq!(start_position_for("2", &resume, InitialPosition::Earliest), StartAt::Earliest);
}

#[test]
fn readers_go_on_after_errors() {
    assert_eq!(reader_step(Received::Event), ReaderStep::Deliver);
    assert_eq!(reader_step(Received::Error), ReaderStep::Again);
    assert_eq!(reader_step(Received::TimedOut), ReaderStep::Again);
    assert_eq!(reader_step(Received::Ended), ReaderStep::Stop);
}

#[test]
fn times_that_fit() {
    assert_eq!(system_time_to_us(None), None);
    assert_eq!(system_time_to_us(Some(5)), Some(5));
    assert_eq!(system_time_to_us(Some(i64::MAX as u128)), Some(i64::MAX));
    assert_eq!(system_time_to_us(Some(i64::MAX as u128 + 1)), None);
}

fn event(body: Option<Vec<u8>>) -> ReceivedEvent {
    ReceivedEvent {
        offset: Some("42".to_string()),
        sequence_number: Some(7),
        enqueued_micros: Some(99),
        body,
        properties: Some(vec![
            ("b".to_string(), "say \"hi\"".to_string()),
            ("a".to_string(), "1".to_string()),
        ]),
    }
}

#[test]
fn events_become_rows() {
    let row = received_to_row("3", &event(Some(b"h\xc3\xa9".to_vec())));
    assert_eq!(row.partition_id, "3");
    assert_eq!(row.offset, Some("42".to_string()));
    assert_eq!((row.sequence_number, row.enqueued_us), (7, Some(99)));
    assert_eq!(row.body, "hé");
    let p = row.properties.unwrap();
    assert!(p.contains("\"a\":\"1\"") && p.contains("\"b\":\"say \\\"hi\\\"\""));
    assert!(p.starts_with('{') && p.ends_with('}'));
    let lossy = received_to_row("3", &event(Some(vec![b'a', 0xff, b'b'])));
    assert_eq!(lossy.body, "a\u{fffd}b");
    let bare = ReceivedEvent {
        offset: None,
        sequence_number: None,
        enqueued_micros: None,
        body: None,
        properties: None,
    };
    let row = received_to_row("0", &bare);
    assert_eq!((row.sequence_number, row.body.as_str(), row.properties), (-1, "", None));
}

#[test]
fn columns_of_events() {
    let names: Vec<(&str, bool)> =
        event_hub_arrow_schema().iter().map(|f| (f.name, f.nullable)).collect();
    assert_eq!(
        names,
        vec![
            ("partition_id", false),
            ("offset", true),
            ("sequence_number", false),
            ("enqueued_time", true),
            ("body", true),
            ("properties", true)
        ]
    );
}

fn row(partition: &str, sequence: i64) -> EventRow {
    EventRow {
        partition_id: partition.to_string(),
        offset: None,
        sequence_number: sequence,
        enqueued_us: Some(sequence),
        body: format!("{}-{}", partition, sequence),
        properties: None,
    }
}

#[test]
fn batch_tells_the_latest_event_of_each_partition() {
    let mut c = BatchCollector::new();
    assert!(!c.push(row("0", 5), 4));
    assert!(!c.push(row("1", 9), 4));
    assert!(!c.push(row("0", 3), 4));
    assert!(c.push(row("0", 8), 4));
    let b = c.finish().unwrap();
    assert_eq!(b.row_count, 4);
    assert_eq!(b.columns.body, vec!["0-5", "1-9", "0-3", "0-8"]);
    assert_eq!(b.columns.sequence_number, vec![5, 9, 3, 8]);
    assert_eq!(
        b.latest_seq_by_partition,
        vec![
            PartitionSeq { partition: "0".to_string(), sequence: 8 },
            PartitionSeq { partition: "1".to_string(), sequence: 9 }
        ]
    );
    let at = start_position_for("0", &b.latest_seq_by_partition, InitialPosition::Earliest);
    assert_eq!(at, StartAt::After(8));
    assert!(BatchCollector::new().finish().is_none());
    assert!(BatchCollector::new().push(row("0", 1), 0));
}

#[test]
fn rows_by_column() {
    let c = build_record_batch(&vec![row("0", 1), row("1", 2)]);
    assert_eq!(c.partition_id, vec!["0", "1"]);
    assert_eq!(c.enqueued_time, vec![Some(1), Some(2)]);
    assert_eq!(c.offset, vec![None, None]);
}

#[test]
fn collecting_ends() {
    assert!(collects_on(CollectEvent::Row { full: false }, false));
    assert!(!collects_on(CollectEvent::Row { full: true }, false));
    assert!(!collects_on(CollectEvent::Row { full: false }, true));
    assert!(!collects_on(CollectEvent::Ended, false));
    assert!(!collects_on(CollectEvent::TimedOut, false));
}
