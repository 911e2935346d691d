use ugv_api::CommandAuthority;
use ugv_api::CommandDomain;
use ugv_api::CommandEnvelope;
use ugv_api::CommandPriority;
use ugv_api::CommandResult;
use ugv_api::CommandResultEvent;
use ugv_api::CommandStatus;
use ugv_api::JointState;
use ugv_api::RejectReason;
use ugv_api::SensorDescriptor;
use ugv_api::SensorField;
use ugv_api::SensorFrame;
use ugv_api::SensorPayload;
use ugv_api::TailReader;
use ugv_api::TelemetryFrame;
use ugv_api::Transport;
use ugv_api::UgvApi;
use ugv_api::UgvCommand;
use ugv_api::codec::encode_command;
use ugv_api::telemetry_codec::encode_telemetry;
use ugv_api::telemetry_codec::parse_telemetry_line;

fn sample_frame(timestamp_ns: u64) -> TelemetryFrame {
    TelemetryFrame {
        timestamp_ns,
        joints: vec![
            JointState {
                id: "j1".to_string(),
                name: "shoulder".to_string(),
                position: "1.25".to_string(),
                velocity: "-0.5".to_string(),
                load: "3.75".to_string(),
            },
        ],
        sensors: Vec::new(),
        payloads: vec![
            SensorPayload {
                id: "lidar0".to_string(),
                sensor_type: "pointcloud".to_string(),
                payload: "pts|1;2\n3;4".to_string(),
            },
        ],
    }
}

fn assert_frames_equal(a: &TelemetryFrame, b: &TelemetryFrame) {
    assert_eq!(a.timestamp_ns, b.timestamp_ns);
    assert_eq!(a.joints.len(), b.joints.len());
    for (x, y) in a.joints.iter().zip(b.joints.iter()) {
        assert_eq!(x.id, y.id);
        assert_eq!(x.name, y.name);
        assert_eq!(x.position, y.position);
        assert_eq!(x.velocity, y.velocity);
        assert_eq!(x.load, y.load);
    }
    assert_eq!(a.payloads.len(), b.payloads.len());
    for (x, y) in a.payloads.iter().zip(b.payloads.iter()) {
        assert_eq!(x.id, y.id);
        assert_eq!(x.sensor_type, y.sensor_type);
        assert_eq!(x.payload, y.payload);
    }
    assert!(b.sensors.is_empty());
}

#[test]
fn telemetry_round_trip_through_codec() {
    let frame = sample_frame(123_456);
    let line = encode_telemetry(&frame);
    let decoded = parse_telemetry_line(line.as_str()).expect("the encoded line must decode");
    assert_frames_equal(&frame, &decoded);
}

#[test]
fn fresh_reader_on_empty_log() {
    let mut reader = TailReader::new();
    reader.ingest("");
    assert!(reader.take_telemetry().is_empty());
    assert!(reader.take_results().is_empty());
    assert!(reader.take_commands().is_empty());
}

#[test]
fn one_record_then_quiet_poll() {
    let frame = sample_frame(77);
    let mut log = encode_telemetry(&frame);
    log.push('\n');
    let mut reader = TailReader::new();
    reader.ingest(log.as_str());
    let got = reader.take_telemetry();
    assert_eq!(got.len(), 1);
    assert_frames_equal(&frame, &got[0]);
    reader.ingest(log.as_str());
    assert!(reader.take_telemetry().is_empty());
    assert!(reader.take_results().is_empty());
}

#[test]
fn partial_line_not_consumed_until_completed() {
    let frame = sample_frame(9);
    let full = {
        let mut s = encode_telemetry(&frame);
        s.push('\n');
        s
    };
    let cut = full.len() / 2;
    let partial = &full[..cut];
    let mut reader = TailReader::new();
    reader.ingest(partial);
    assert!(reader.take_telemetry().is_empty());
    reader.ingest(full.as_str());
    let got = reader.take_telemetry();
    assert_eq!(got.len(), 1);
    assert_frames_equal(&frame, &got[0]);
    reader.ingest(full.as_str());
    assert!(reader.take_telemetry().is_empty());
}

#[test]
fn interleaved_lines_route_in_order() {
    let mut log = String::new();
    log.push_str(encode_telemetry(&sample_frame(1)).as_str());
    log.push('\n');
    log.push_str("R|5|2|0|accepted\n");
    log.push_str(encode_telemetry(&sample_frame(2)).as_str());
    log.push('\n');
    log.push_str("R|5|5|0|done\n");
    let mut reader = TailReader::new();
    reader.ingest(log.as_str());
    let frames = reader.take_telemetry();
    assert_eq!(frames.len(), 2);
    assert_eq!(frames[0].timestamp_ns, 1);
    assert_eq!(frames[1].timestamp_ns, 2);
    let results = reader.take_results();
    assert_eq!(results.len(), 2);
    assert_eq!(results[0].result.status, CommandStatus::Accepted);
    assert_eq!(results[1].result.status, CommandStatus::Succeeded);
}

#[test]
fn malformed_lines_do_not_block_later_records() {
    let mut log = String::new();
    log.push_str("Z|what|is|this\n");
    log.push_str("R|1|2\n");
    log.push_str("T|not-a-number|0|0\n");
    log.push_str(encode_telemetry(&sample_frame(5)).as_str());
    log.push('\n');
    let mut reader = TailReader::new();
    reader.ingest(log.as_str());
    let frames = reader.take_telemetry();
    assert_eq!(frames.len(), 1);
    assert_eq!(frames[0].timestamp_ns, 5);
    assert!(reader.take_results().is_empty());
    assert!(reader.take_commands().is_empty());
}

#[test]
fn result_example_line() {
    let mut reader = TailReader::new();
    reader.ingest("R|42|5|0|done\n");
    let results = reader.take_results();
    assert_eq!(results.len(), 1);
    assert_eq!(results[0].command_id, 42);
    assert_eq!(results[0].result.status, CommandStatus::Succeeded);
    assert_eq!(results[0].result.reject_reason, RejectReason::Unset);
    assert_eq!(results[0].result.message, "done");
}

#[test]
fn command_lines_route_to_command_buffer() {
    let envelope = CommandEnvelope {
        command: UgvCommand { code: 3 },
        domain: CommandDomain::Posture,
        priority: CommandPriority::Normal,
        authority: CommandAuthority::MissionControl,
        command_id: 11,
        issued_ns: 500,
        ttl_ns: 1_000,
        payload_json: "{\"pose\":\"sit\"}".to_string(),
    };
    let mut log = encode_command(&envelope);
    log.push('\n');
    let mut reader = TailReader::new();
    reader.ingest(log.as_str());
    let commands = reader.take_commands();
    assert_eq!(commands.len(), 1);
    assert_eq!(commands[0].command_id, 11);
    assert_eq!(commands[0].domain, CommandDomain::Posture);
    assert_eq!(commands[0].payload_json, "{\"pose\":\"sit\"}");
    assert!(reader.take_telemetry().is_empty());
}

struct RecordingTransport {
    published_frames: usize,
    published_results: usize,
}

impl Transport for RecordingTransport {
    fn publish_sensor_frame(&mut self, _frame: SensorFrame) -> bool {
        self.published_frames += 1;
        true
    }

    fn receive_commands(&mut self) -> Vec<CommandEnvelope> {
        Vec::new()
    }

    fn publish_command_result(&mut self, _command_id: u64, _result: CommandResult) -> bool {
        self.published_results += 1;
        true
    }
}

#[test]
fn facade_keeps_every_registration_in_order() {
    let transport = RecordingTransport { published_frames: 0, published_results: 0 };
    let mut api = UgvApi::new(transport);
    assert!(api.sensors().is_empty());
    api.register_sensor(SensorDescriptor {
        name: "imu".to_string(),
        fields: vec![SensorField { name: "yaw".to_string() }],
    });
    api.register_sensor(SensorDescriptor { name: "gps".to_string(), fields: Vec::new() });
    api.register_sensor(SensorDescriptor { name: "imu".to_string(), fields: Vec::new() });
    let names: Vec<&str> = api.sensors().iter().map(|d| d.name.as_str()).collect();
    assert_eq!(names, vec!["imu", "gps", "imu"]);
}

#[test]
fn facade_delegates_to_transport() {
    let transport = RecordingTransport { published_frames: 0, published_results: 0 };
    let mut api = UgvApi::new(transport);
    let ok = api.publish_sensor_frame(SensorFrame {
        timestamp_ns: 1,
        readings: Vec::new(),
        payloads: Vec::new(),
    });
    assert!(ok);
    assert!(api.poll_commands().is_empty());
    let ok = api.publish_command_result(
        4,
        CommandResult {
            status: CommandStatus::Running,
            reject_reason: RejectReason::Unset,
            message: String::new(),
        },
    );
    assert!(ok);
}
