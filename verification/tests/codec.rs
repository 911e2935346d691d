use ugv_api::CommandAuthority;
use ugv_api::CommandDomain;
use ugv_api::CommandEnvelope;
use ugv_api::CommandPriority;
use ugv_api::CommandResult;
use ugv_api::CommandResultEvent;
use ugv_api::CommandStatus;
use ugv_api::RejectReason;
use ugv_api::UgvCommand;
use ugv_api::codec::encode_command;
use ugv_api::codec::encode_result;
use ugv_api::codec::parse_command_line;
use ugv_api::codec::parse_result_line;
use ugv_api::decimal::parse_u64;
use ugv_api::decimal::u64_to_dec;

use base64::Engine;

fn sample_envelope(payload: &str) -> CommandEnvelope {
    CommandEnvelope {
        command: UgvCommand { code: 7 },
        domain: CommandDomain::Mobility,
        priority: CommandPriority::High,
        authority: CommandAuthority::RemoteOperator,
        command_id: 42,
        issued_ns: 1_000_000,
        ttl_ns: 5_000_000,
        payload_json: payload.to_string(),
    }
}

fn assert_envelopes_equal(a: &CommandEnvelope, b: &CommandEnvelope) {
    assert_eq!(a.command, b.command);
    assert_eq!(a.domain, b.domain);
    assert_eq!(a.priority, b.priority);
    assert_eq!(a.authority, b.authority);
    assert_eq!(a.command_id, b.command_id);
    assert_eq!(a.issued_ns, b.issued_ns);
    assert_eq!(a.ttl_ns, b.ttl_ns);
    assert_eq!(a.payload_json, b.payload_json);
}

#[test]
fn command_round_trip_plain() {
    let e = sample_envelope("{\"gait\":\"walk\"}");
    let line = encode_command(&e);
    let decoded = parse_command_line(line.as_str()).expect("the encoded line must decode");
    assert_envelopes_equal(&e, &decoded);
}

#[test]
fn command_round_trip_delimiters_in_payload() {
    let e = sample_envelope("a|b|c\nd|e");
    let line = encode_command(&e);
    let decoded = parse_command_line(line.as_str()).expect("the encoded line must decode");
    assert_envelopes_equal(&e, &decoded);
}

#[test]
fn command_round_trip_non_ascii_payload() {
    let e = sample_envelope("gr\u{00fc}\u{00df}e \u{2713} \u{1f916}");
    let line = encode_command(&e);
    let decoded = parse_command_line(line.as_str()).expect("the encoded line must decode");
    assert_envelopes_equal(&e, &decoded);
}

#[test]
fn command_wire_form_is_exact() {
    let e = sample_envelope("{\"x\":1}");
    let line = encode_command(&e);
    let b64 = base64::engine::general_purpose::STANDARD.encode("{\"x\":1}".as_bytes());
    let expected = format!("C|42|7|0|2|2|1000000|5000000|{}", b64);
    assert_eq!(line, expected);
}

#[test]
fn command_payload_is_embedded_encoded_not_raw() {
    let e = sample_envelope("hi");
    let line = encode_command(&e);
    assert!(line.ends_with("|aGk="));
    assert!(!line.ends_with("|hi"));
}

#[test]
fn result_wire_form_is_exact() {
    let ev = CommandResultEvent {
        command_id: 42,
        result: CommandResult {
            status: CommandStatus::Succeeded,
            reject_reason: RejectReason::Unset,
            message: "done".to_string(),
        },
    };
    assert_eq!(encode_result(&ev), "R|42|5|0|done");
}

#[test]
fn result_round_trip() {
    let ev = CommandResultEvent {
        command_id: 9,
        result: CommandResult {
            status: CommandStatus::Rejected,
            reject_reason: RejectReason::Unsafe,
            message: "slope too steep".to_string(),
        },
    };
    let line = encode_result(&ev);
    let decoded = parse_result_line(line.as_str()).expect("the encoded line must decode");
    assert_eq!(decoded.command_id, 9);
    assert_eq!(decoded.result.status, CommandStatus::Rejected);
    assert_eq!(decoded.result.reject_reason, RejectReason::Unsafe);
    assert_eq!(decoded.result.message, "slope too steep");
}

#[test]
fn result_line_with_wrong_field_count_is_refused() {
    assert!(parse_result_line("R|1|2").is_none());
    assert!(parse_result_line("R|1|2|3|msg|extra").is_none());
}

#[test]
fn result_line_with_unknown_codes_reads_as_unset() {
    let decoded = parse_result_line("R|1|77|99|x").expect("within-range codes must decode");
    assert_eq!(decoded.result.status, CommandStatus::Unset);
    assert_eq!(decoded.result.reject_reason, RejectReason::Unset);
}

#[test]
fn command_line_with_bad_fields_is_refused() {
    assert!(parse_command_line("C|not-a-number|7|0|2|2|1|1|aGk=").is_none());
    assert!(parse_command_line("C|1|7|0|2|2|1|1|@@@not-base64@@@").is_none());
    assert!(parse_command_line("C|1|7|64|2|2|1|1|aGk=").is_none());
    assert!(parse_command_line("X|1|7|0|2|2|1|1|aGk=").is_none());
}

#[test]
fn decimal_text_round_trips() {
    assert_eq!(u64_to_dec(0), "0");
    assert_eq!(u64_to_dec(90210), "90210");
    assert_eq!(u64_to_dec(u64::MAX), "18446744073709551615");
    assert_eq!(parse_u64("18446744073709551615"), Some(u64::MAX));
    assert_eq!(parse_u64("18446744073709551616"), None);
    assert_eq!(parse_u64(""), None);
    assert_eq!(parse_u64("12a"), None);
    assert_eq!(parse_u64("-1"), None);
    assert_eq!(parse_u64("007"), Some(7));
}

#[test]
fn enum_codes_round_trip() {
    let statuses = [
        CommandStatus::Unset,
        CommandStatus::Received,
        CommandStatus::Accepted,
        CommandStatus::Rejected,
        CommandStatus::Running,
        CommandStatus::Succeeded,
        CommandStatus::Failed,
        CommandStatus::Aborted,
        CommandStatus::Preempted,
        CommandStatus::Expired,
    ];
    for (i, s) in statuses.iter().enumerate() {
        assert_eq!(s.code(), i as u16);
        assert_eq!(CommandStatus::from_code(i as u16), *s);
    }
    let reasons = [
        RejectReason::Unset,
        RejectReason::NotAuthorized,
        RejectReason::InvalidPayload,
        RejectReason::Unsupported,
        RejectReason::Unsafe,
        RejectReason::Busy,
        RejectReason::PreconditionsFail,
        RejectReason::Timeout,
        RejectReason::StaleCommand,
    ];
    for (i, r) in reasons.iter().enumerate() {
        assert_eq!(r.code(), i as u16);
        assert_eq!(RejectReason::from_code(i as u16), *r);
    }
    let domains = [
        CommandDomain::Mobility,
        CommandDomain::Posture,
        CommandDomain::Perception,
        CommandDomain::Security,
        CommandDomain::Mission,
        CommandDomain::Interaction,
        CommandDomain::Health,
        CommandDomain::Authority,
    ];
    for (i, d) in domains.iter().enumerate() {
        assert_eq!(d.code(), i as u16);
        assert_eq!(CommandDomain::from_code(i as u16), Some(*d));
    }
    let priorities = [
        CommandPriority::Background,
        CommandPriority::Normal,
        CommandPriority::High,
        CommandPriority::Critical,
    ];
    for (i, p) in priorities.iter().enumerate() {
        assert_eq!(p.code(), i as u16);
        assert_eq!(CommandPriority::from_code(i as u16), Some(*p));
    }
    assert_eq!(CommandStatus::from_code(10), CommandStatus::Unset);
    assert_eq!(RejectReason::from_code(9), RejectReason::Unset);
    assert_eq!(CommandDomain::from_code(8), None);
    assert_eq!(CommandPriority::from_code(4), None);
    assert_eq!(CommandAuthority::from_code(5), None);
}
