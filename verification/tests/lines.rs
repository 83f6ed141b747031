use transmit_log::{Line, LogEntry, LogEntryBuilder, LogError, LogFile, MissingFields, Step, Timestamp};

fn at_noon() -> Timestamp {
    Timestamp { year: 2024, month: 2, day: 29, hour: 12, minute: 0, second: 0, nanosecond: 0 }
}

fn full_builder() -> LogEntryBuilder {
    let mut b = LogEntryBuilder::new();
    b.id("abc".to_string());
    b.message_type("lease".to_string());
    b.remote_id("host".to_string());
    b.server("dhcp".to_string());
    b.timestamp(at_noon());
    b
}

fn full_entry() -> LogEntry {
    LogEntry {
        id: "abc".to_string(),
        message_type: "lease".to_string(),
        remote_id: "host".to_string(),
        server: "dhcp".to_string(),
        timestamp: at_noon(),
    }
}

fn finish(step: Step) -> Result<LogEntry, LogError> {
    match step {
        Step::Continue(b) => b.build(),
        Step::Yield(_) => panic!("the block was closed"),
    }
}

#[test]
fn classify_tells_an_end_marker() {
    let file = LogFile::new(Vec::new()).unwrap();
    assert_eq!(file.classify("abc123 --- END TRANSMITTED"), Line::End);
    assert_eq!(file.classify("abc_1 - END TRANSMITTED and more"), Line::End);
    assert_ne!(file.classify(" abc123 --- END TRANSMITTED"), Line::End);
    assert_ne!(file.classify("abc123 END TRANSMITTED"), Line::End);
    assert_ne!(file.classify("abc123 --- END  TRANSMITTED"), Line::End);
}

#[test]
fn classify_reads_a_start_marker() {
    let file = LogFile::new(Vec::new()).unwrap();
    assert_eq!(
        file.classify("01/02/2023 03:04:05"),
        Line::Start(Timestamp { year: 2023, month: 1, day: 2, hour: 3, minute: 4, second: 5, nanosecond: 0 })
    );
    assert_eq!(file.classify("02/29/2024 12:00:00 and the rest"), Line::Start(at_noon()));
}

#[test]
fn classify_tells_a_malformed_start() {
    let file = LogFile::new(Vec::new()).unwrap();
    assert_eq!(file.classify("02/30/2023 03:04:05"), Line::MalformedStart);
    assert_eq!(file.classify("00/10/2023 03:04:05"), Line::MalformedStart);
    assert_eq!(file.classify("01/02/2023 24:00:00"), Line::MalformedStart);
}

#[test]
fn classify_reads_a_leap_second() {
    let file = LogFile::new(Vec::new()).unwrap();
    assert_eq!(
        file.classify("06/30/2015 23:59:60"),
        Line::Start(Timestamp {
            year: 2015,
            month: 6,
            day: 30,
            hour: 23,
            minute: 59,
            second: 59,
            nanosecond: 1_000_000_000,
        })
    );
}

#[test]
fn classify_passes_over_what_is_no_start() {
    let file = LogFile::new(Vec::new()).unwrap();
    let nothing = Line::Content { id: None, assignment: None };
    assert_eq!(file.classify("1/2/2023 03:04:05"), nothing);
    assert_eq!(file.classify(" 01/02/2023 03:04:05"), nothing);
    assert_eq!(file.classify("01/02/2023T03:04:05"), nothing);
    assert_eq!(file.classify(""), nothing);
    assert_eq!(file.classify("just some words"), nothing);
    assert_eq!(file.classify("a=b"), nothing);
    assert_eq!(file.classify("a =  b"), nothing);
}

#[test]
fn classify_reads_an_identifier() {
    let file = LogFile::new(Vec::new()).unwrap();
    assert_eq!(
        file.classify("abc123 -- TRANSMITTED -- info"),
        Line::Content { id: Some("abc123"), assignment: None }
    );
    assert_eq!(
        file.classify("x_9 - TRANSMITTED ----- "),
        Line::Content { id: Some("x_9"), assignment: None }
    );
    assert_eq!(
        file.classify("abc123 -- TRANSMITTED"),
        Line::Content { id: None, assignment: None }
    );
}

#[test]
fn classify_reads_an_assignment() {
    let file = LogFile::new(Vec::new()).unwrap();
    assert_eq!(
        file.classify("server = dhcp01"),
        Line::Content { id: None, assignment: Some(("server", "dhcp01")) }
    );
    assert_eq!(
        file.classify("  see colour = blue, size = big"),
        Line::Content { id: None, assignment: Some(("colour", "blue,")) }
    );
    assert_eq!(
        file.classify("abc123 -- TRANSMITTED -- remote_id = host-9"),
        Line::Content { id: Some("abc123"), assignment: Some(("remote_id", "host-9")) }
    );
}

#[test]
fn step_closes_a_full_block() {
    match full_builder().step(Line::End) {
        Step::Yield(r) => assert_eq!(r, Ok(full_entry())),
        Step::Continue(_) => panic!("the block stayed open"),
    }
}

#[test]
fn step_closes_an_empty_block_with_an_error() {
    match LogEntryBuilder::new().step(Line::End) {
        Step::Yield(r) => assert_eq!(
            r,
            Err(LogError::Incomplete(MissingFields {
                id: true,
                message_type: true,
                remote_id: true,
                server: true,
                timestamp: true,
            }))
        ),
        Step::Continue(_) => panic!("the block stayed open"),
    }
}

#[test]
fn step_stops_at_a_malformed_start() {
    match full_builder().step(Line::MalformedStart) {
        Step::Yield(r) => assert_eq!(r, Err(LogError::MalformedTimestamp)),
        Step::Continue(_) => panic!("the block stayed open"),
    }
}

#[test]
fn step_sets_the_timestamp() {
    let later = Timestamp { year: 2025, month: 1, day: 1, hour: 0, minute: 0, second: 1, nanosecond: 0 };
    let got = finish(full_builder().step(Line::Start(later)));
    assert_eq!(got, Ok(LogEntry { timestamp: later, ..full_entry() }));
}

#[test]
fn step_sets_identifier_and_assignment() {
    let line = Line::Content { id: Some("xyz"), assignment: Some(("server", "other")) };
    let got = finish(full_builder().step(line));
    assert_eq!(
        got,
        Ok(LogEntry { id: "xyz".to_string(), server: "other".to_string(), ..full_entry() })
    );
}

#[test]
fn step_leaves_the_slots_on_empty_content() {
    let got = finish(full_builder().step(Line::Content { id: None, assignment: None }));
    assert_eq!(got, Ok(full_entry()));
}

#[test]
fn assign_routes_by_name() {
    let mut b = full_builder();
    b.assign("message_type", "renew".to_string());
    assert_eq!(b.build(), Ok(LogEntry { message_type: "renew".to_string(), ..full_entry() }));
    let mut b = full_builder();
    b.assign("remote_id", "peer".to_string());
    assert_eq!(b.build(), Ok(LogEntry { remote_id: "peer".to_string(), ..full_entry() }));
    let mut b = full_builder();
    b.assign("server", "main".to_string());
    assert_eq!(b.build(), Ok(LogEntry { server: "main".to_string(), ..full_entry() }));
}

#[test]
fn assign_passes_over_other_names() {
    let mut b = full_builder();
    b.assign("id", "x".to_string());
    b.assign("timestamp", "x".to_string());
    b.assign("servers", "x".to_string());
    b.assign("", "x".to_string());
    assert_eq!(b.build(), Ok(full_entry()));
}

#[test]
fn setters_overwrite() {
    let mut b = full_builder();
    b.id("second".to_string());
    b.id("third".to_string());
    assert_eq!(b.build(), Ok(LogEntry { id: "third".to_string(), ..full_entry() }));
}

#[test]
fn build_lists_each_unset_field() {
    let mut b = LogEntryBuilder::new();
    b.message_type("lease".to_string());
    b.timestamp(at_noon());
    assert_eq!(
        b.build(),
        Err(LogError::Incomplete(MissingFields {
            id: true,
            message_type: false,
            remote_id: true,
            server: true,
            timestamp: false,
        }))
    );
}
