use flare_profiler::connection::{Admission, Frame, Turn, HISTORY_ROOT, WS_PROTOCOL};
use flare_profiler::decode::decode_request;
use flare_profiler::handlers::{answer, Outcome};
use flare_profiler::profiler::Profiler;
use flare_profiler::protocol::{
    new_invalid_input_error, wrap_error_response, wrap_response, AttachSettings, ErrorKind,
    FlareResponse, HistoryEntry, Pending, ProfilerError, Request, RequestOptions, ResponseData, SessionEntry,
    Step, DEFAULT_SAMPLE_DURATION_SEC, DEFAULT_SAMPLE_INTERVAL_MS,
};
use flare_profiler::session::{DashboardInfo, SampleInfo, SampleType};

fn header_bytes(begin_time: i64, native_interval: i64, amount: u64) -> Vec<u8> {
    let mut bytes = vec![0x54, 0x53, 0x46, 0x31];
    bytes.extend_from_slice(&begin_time.to_be_bytes());
    bytes.extend_from_slice(&native_interval.to_be_bytes());
    bytes.extend_from_slice(&amount.to_be_bytes());
    bytes
}

fn response(result: &str, cmd: &str, data: ResponseData) -> FlareResponse<ResponseData> {
    FlareResponse { result: result.to_string(), cmd: cmd.to_string(), data: Box::new(data) }
}

fn error(cmd: &str, message: &str) -> FlareResponse<ResponseData> {
    response("error", cmd, ResponseData::Message(message.to_string()))
}

fn request(cmd: &str) -> Request {
    Request { cmd: cmd.to_string(), options: RequestOptions::new() }
}

fn text(json: &str) -> Frame {
    Frame::Text(json.to_string())
}

#[test]
fn the_fixed_names_of_the_protocol() {
    assert_eq!(WS_PROTOCOL, "flare-profiler");
    assert_eq!(HISTORY_ROOT, "flare-samples");
    assert_eq!(DEFAULT_SAMPLE_INTERVAL_MS, 20);
    assert_eq!(DEFAULT_SAMPLE_DURATION_SEC, 0);
}

#[test]
fn decode_reads_the_command_and_every_option() {
    let decoded = decode_request(
        "{\"cmd\":\"attach_jvm\",\"options\":{\"sample_data_dir\":\"d\",\"agent_addr\":\"a\",\
         \"session_id\":\"s\",\"target_pid\":42,\"sample_interval_ms\":5,\
         \"sample_duration_sec\":60,\"other\":true}}",
    )
    .unwrap();
    assert_eq!(
        decoded,
        Request {
            cmd: "attach_jvm".to_string(),
            options: RequestOptions {
                sample_data_dir: Some("d".to_string()),
                agent_addr: Some("a".to_string()),
                session_id: Some("s".to_string()),
                target_pid: Some(42),
                sample_interval_ms: Some(5),
                sample_duration_sec: Some(60),
            },
        }
    );
}

#[test]
fn decode_without_options_gives_none() {
    assert_eq!(decode_request("{\"cmd\":\"list_sessions\"}").unwrap(), request("list_sessions"));
    assert_eq!(
        decode_request("{\"cmd\":\"list_sessions\",\"options\":{}}").unwrap(),
        request("list_sessions")
    );
}

#[test]
fn decode_takes_options_that_are_no_object_as_none() {
    assert_eq!(
        decode_request("{\"cmd\":\"dashboard\",\"options\":[1,2]}").unwrap(),
        request("dashboard")
    );
    assert_eq!(
        decode_request("{\"cmd\":\"dashboard\",\"options\":\"session_id\"}").unwrap(),
        request("dashboard")
    );
}

#[test]
fn decode_takes_an_option_of_another_type_as_missing() {
    let decoded = decode_request(
        "{\"cmd\":\"x\",\"options\":{\"sample_data_dir\":7,\"target_pid\":\"42\",\
         \"sample_interval_ms\":-1,\"sample_duration_sec\":1.5,\"session_id\":null}}",
    )
    .unwrap();
    assert_eq!(decoded, request("x"));
}

#[test]
fn decode_without_a_command_gives_the_empty_command() {
    assert_eq!(decode_request("{}").unwrap(), request(""));
    assert_eq!(decode_request("{\"cmd\":5}").unwrap(), request(""));
    assert_eq!(decode_request("[1,2,3]").unwrap(), request(""));
    assert_eq!(decode_request("null").unwrap(), request(""));
    assert_eq!(decode_request("{\"CMD\":\"list_sessions\"}").unwrap(), request(""));
}

#[test]
fn decode_keeps_the_text_of_a_string() {
    let decoded =
        decode_request("{\"cmd\":\"open_sample\",\"options\":{\"sample_data_dir\":\"a\\\"b\\u00e9\"}}")
            .unwrap();
    assert_eq!(decoded.options.sample_data_dir, Some("a\"b\u{e9}".to_string()));
}

#[test]
fn decode_of_what_is_no_json_is_a_transport_failure() {
    let failure = decode_request("{\"cmd\":").unwrap_err();
    assert_eq!(failure.kind, ErrorKind::Transport);
    assert_eq!(failure.message, "EOF while parsing a value at line 1 column 7");
    let failure = decode_request("list_sessions").unwrap_err();
    assert_eq!(failure.kind, ErrorKind::Transport);
    assert_eq!(failure.message, "expected value at line 1 column 1");
    assert_eq!(decode_request("").unwrap_err().kind, ErrorKind::Transport);
}

#[test]
fn wrap_response_is_a_success_under_the_command() {
    let wrapped = wrap_response("history_samples", ResponseData::HistorySamples(vec![]));
    assert_eq!(wrapped.result, "success");
    assert_eq!(wrapped.cmd, "history_samples");
    assert_eq!(*wrapped.data, ResponseData::HistorySamples(vec![]));
}

#[test]
fn wrap_error_response_carries_the_message() {
    let wrapped = wrap_error_response("dashboard", "sample instance not found");
    assert_eq!(wrapped, error("dashboard", "sample instance not found"));
}

#[test]
fn answer_sends_a_failure_as_an_error_response() {
    let ok = wrap_response("c", ResponseData::Message("m".to_string()));
    assert_eq!(answer("c", Ok(ok.clone())), ok);
    assert_eq!(answer("c", Err(new_invalid_input_error("bad"))), error("c", "bad"));
}

#[test]
fn new_invalid_input_error_has_that_kind() {
    assert_eq!(
        new_invalid_input_error("missing attribute 'cmd'"),
        ProfilerError {
            kind: ErrorKind::InvalidInput,
            message: "missing attribute 'cmd'".to_string()
        }
    );
}

#[test]
fn list_sessions_is_answered_at_once() {
    let mut profiler = Profiler::new();
    profiler.connect_agent("agent:1", Ok(())).unwrap();
    profiler.open_sample("dir", Some(&header_bytes(0, 1, 1))).unwrap();
    let mut cmd = String::new();
    let step = profiler.handle_request("{\"cmd\":\"list_sessions\"}", &mut cmd).unwrap();
    assert_eq!(cmd, "list_sessions");
    assert_eq!(
        step,
        Step::Reply(response(
            "success",
            "list_sessions",
            ResponseData::SampleSessions(vec![
                SessionEntry { session_id: "agent:1".to_string(), sample_type: SampleType::Live },
                SessionEntry { session_id: "dir".to_string(), sample_type: SampleType::File },
            ])
        ))
    );
}

#[test]
fn handle_request_appends_the_command_to_what_is_there() {
    let profiler = Profiler::new();
    let mut cmd = "seen:".to_string();
    profiler.handle_request("{\"cmd\":\"nothing_known\"}", &mut cmd).unwrap();
    assert_eq!(cmd, "seen:nothing_known");
    let mut cmd = "seen:".to_string();
    assert!(profiler.handle_request("not json", &mut cmd).is_err());
    assert_eq!(cmd, "seen:");
    let mut cmd = "seen:".to_string();
    assert!(profiler.handle_request("{}", &mut cmd).is_err());
    assert_eq!(cmd, "seen:");
}

#[test]
fn a_request_without_a_command_is_invalid() {
    let profiler = Profiler::new();
    let mut cmd = String::new();
    let failure = profiler.handle_request("{\"options\":{}}", &mut cmd).unwrap_err();
    assert_eq!(failure, new_invalid_input_error("missing attribute 'cmd'"));
    assert_eq!(profiler.dispatch(&request("")).unwrap_err(), failure);
    assert_eq!(
        profiler.handle_frame(text("{\"cmd\":\"\"}")),
        Turn::Respond(error("", "missing attribute 'cmd'"))
    );
}

#[test]
fn an_unknown_command_is_not_answered() {
    let profiler = Profiler::new();
    assert_eq!(profiler.dispatch(&request("restart")).unwrap(), Step::Silent);
    assert_eq!(profiler.dispatch(&request("List_sessions")).unwrap(), Step::Silent);
    assert_eq!(profiler.handle_frame(text("{\"cmd\":\"restart\"}")), Turn::Idle);
}

#[test]
fn history_samples_waits_for_the_listing() {
    let mut profiler = Profiler::new();
    assert_eq!(
        profiler.dispatch(&request("history_samples")).unwrap(),
        Step::Await(Pending::ListHistory)
    );
    let turn = profiler.handle_frame(text("{\"cmd\":\"history_samples\"}"));
    assert_eq!(
        turn,
        Turn::Perform { cmd: "history_samples".to_string(), work: Pending::ListHistory }
    );
    let paths = vec!["flare-samples/run1".to_string(), "flare-samples/run2".to_string()];
    assert_eq!(
        profiler.complete(
            "history_samples",
            &Pending::ListHistory,
            Outcome::Listing(Ok(paths.clone()))
        ),
        response(
            "success",
            "history_samples",
            ResponseData::HistorySamples(vec![
                HistoryEntry {
                    path: "flare-samples/run1".to_string(),
                    sample_type: SampleType::File
                },
                HistoryEntry {
                    path: "flare-samples/run2".to_string(),
                    sample_type: SampleType::File
                },
            ])
        )
    );
    assert_eq!(
        profiler.complete("history_samples", &Pending::ListHistory, Outcome::Listing(Ok(vec![]))),
        response("success", "history_samples", ResponseData::HistorySamples(vec![]))
    );
}

#[test]
fn history_samples_fails_when_the_listing_does() {
    let mut profiler = Profiler::new();
    assert_eq!(
        profiler.complete(
            "history_samples",
            &Pending::ListHistory,
            Outcome::Listing(Err("No such file or directory".to_string()))
        ),
        error("history_samples", "No such file or directory")
    );
    let failure = profiler
        .handle_history_samples("history_samples", Err("denied".to_string()))
        .unwrap_err();
    assert_eq!(failure, ProfilerError { kind: ErrorKind::Io, message: "denied".to_string() });
}

#[test]
fn open_sample_without_a_directory_is_invalid() {
    let mut profiler = Profiler::new();
    profiler.connect_agent("agent:1", Ok(())).unwrap();
    let before = profiler.list_sessions();
    for json in [
        "{\"cmd\":\"open_sample\",\"options\":{}}",
        "{\"cmd\":\"open_sample\"}",
        "{\"cmd\":\"open_sample\",\"options\":{\"sample_data_dir\":\"\"}}",
        "{\"cmd\":\"open_sample\",\"options\":{\"sample_data_dir\":12}}",
    ] {
        let mut cmd = String::new();
        let failure = profiler.handle_request(json, &mut cmd).unwrap_err();
        assert_eq!(failure, new_invalid_input_error("missing option 'sample_data_dir'"));
        assert_eq!(cmd, "open_sample");
        assert_eq!(
            profiler.handle_frame(text(json)),
            Turn::Respond(error("open_sample", "missing option 'sample_data_dir'"))
        );
        assert_eq!(profiler.list_sessions(), before);
    }
}

#[test]
fn open_sample_waits_for_the_header_and_registers_the_session() {
    let mut profiler = Profiler::new();
    let turn = profiler.handle_frame(text(
        "{\"cmd\":\"open_sample\",\"options\":{\"sample_data_dir\":\"flare-samples/run1\"}}",
    ));
    let work = Pending::OpenSample { sample_data_dir: "flare-samples/run1".to_string() };
    assert_eq!(turn, Turn::Perform { cmd: "open_sample".to_string(), work: work.clone() });
    assert_eq!(profiler.list_sessions(), vec![]);
    let sent = profiler.complete(
        "open_sample",
        &work,
        Outcome::Header(Some(header_bytes(1000, 100, 500))),
    );
    let made = SessionEntry {
        session_id: "flare-samples/run1".to_string(),
        sample_type: SampleType::File,
    };
    assert_eq!(sent, response("success", "open_sample", ResponseData::Session(made.clone())));
    assert_eq!(profiler.list_sessions(), vec![made]);
}

#[test]
fn open_sample_fails_when_the_file_is_missing_or_broken() {
    let mut profiler = Profiler::new();
    let work = Pending::OpenSample { sample_data_dir: "flare-samples/run1".to_string() };
    assert_eq!(
        profiler.complete("open_sample", &work, Outcome::Header(None)),
        error("open_sample", "sample file not found")
    );
    assert_eq!(
        profiler.complete("open_sample", &work, Outcome::Header(Some(vec![1, 2, 3]))),
        error("open_sample", "sample file not found")
    );
    assert_eq!(profiler.list_sessions(), vec![]);
    let failure = profiler.handle_open_sample("open_sample", "d", None).unwrap_err();
    assert_eq!(failure.kind, ErrorKind::NotFound);
}

#[test]
fn connect_agent_without_an_address_is_invalid() {
    let profiler = Profiler::new();
    assert_eq!(
        profiler.dispatch(&request("connect_agent")).unwrap_err(),
        new_invalid_input_error("missing option 'agent_addr'")
    );
    assert_eq!(
        profiler.handle_frame(text("{\"cmd\":\"connect_agent\",\"options\":{\"agent_addr\":3}}")),
        Turn::Respond(error("connect_agent", "missing option 'agent_addr'"))
    );
}

#[test]
fn connect_agent_waits_for_the_handshake_and_registers_the_session() {
    let mut profiler = Profiler::new();
    let turn = profiler.handle_frame(text(
        "{\"cmd\":\"connect_agent\",\"options\":{\"agent_addr\":\"10.0.0.1:3333\"}}",
    ));
    let work = Pending::ConnectAgent { agent_addr: "10.0.0.1:3333".to_string() };
    assert_eq!(turn, Turn::Perform { cmd: "connect_agent".to_string(), work: work.clone() });
    let sent = profiler.complete("connect_agent", &work, Outcome::Handshake(Ok(())));
    let made =
        SessionEntry { session_id: "10.0.0.1:3333".to_string(), sample_type: SampleType::Live };
    assert_eq!(sent, response("success", "connect_agent", ResponseData::Session(made.clone())));
    assert_eq!(profiler.list_sessions(), vec![made]);
}

#[test]
fn connect_agent_to_an_unreachable_address_fails_and_lists_nothing_new() {
    let mut profiler = Profiler::new();
    let work = Pending::ConnectAgent { agent_addr: "10.255.255.1:1".to_string() };
    let sent = profiler.complete(
        "connect_agent",
        &work,
        Outcome::Handshake(Err("connection timed out".to_string())),
    );
    assert_eq!(sent, error("connect_agent", "connection timed out"));
    let mut cmd = String::new();
    assert_eq!(
        profiler.handle_request("{\"cmd\":\"list_sessions\"}", &mut cmd).unwrap(),
        Step::Reply(response("success", "list_sessions", ResponseData::SampleSessions(vec![])))
    );
    let failure = profiler
        .handle_connect_agent("connect_agent", "10.255.255.1:1", Err("refused".to_string()))
        .unwrap_err();
    assert_eq!(failure.kind, ErrorKind::Io);
}

#[test]
fn an_empty_agent_address_is_an_address() {
    let profiler = Profiler::new();
    let mut options = RequestOptions::new();
    options.agent_addr = Some(String::new());
    let step = profiler.dispatch(&Request { cmd: "connect_agent".to_string(), options }).unwrap();
    assert_eq!(step, Step::Await(Pending::ConnectAgent { agent_addr: String::new() }));
}

#[test]
fn attach_jvm_without_a_target_is_invalid() {
    let profiler = Profiler::new();
    assert_eq!(
        profiler.dispatch(&request("attach_jvm")).unwrap_err(),
        new_invalid_input_error("missing option 'target_pid'")
    );
    assert_eq!(
        profiler.handle_frame(text("{\"cmd\":\"attach_jvm\",\"options\":{\"target_pid\":-4}}")),
        Turn::Respond(error("attach_jvm", "missing option 'target_pid'"))
    );
}

#[test]
fn attach_jvm_fills_in_the_defaults() {
    let profiler = Profiler::new();
    let mut options = RequestOptions::new();
    options.target_pid = Some(4711);
    assert_eq!(
        profiler.handle_attach_jvm(&options).unwrap(),
        AttachSettings { target_pid: 4711, sample_interval_ms: 20, sample_duration_sec: 0 }
    );
    options.sample_interval_ms = Some(5);
    options.sample_duration_sec = Some(90);
    assert_eq!(
        profiler.handle_attach_jvm(&options).unwrap(),
        AttachSettings { target_pid: 4711, sample_interval_ms: 5, sample_duration_sec: 90 }
    );
    assert_eq!(
        profiler.handle_frame(text("{\"cmd\":\"attach_jvm\",\"options\":{\"target_pid\":1}}")),
        Turn::Attach(AttachSettings {
            target_pid: 1,
            sample_interval_ms: 20,
            sample_duration_sec: 0
        })
    );
}

#[test]
fn dashboard_of_a_session_that_was_never_opened_is_not_found() {
    let mut profiler = Profiler::new();
    profiler.connect_agent("agent:1", Ok(())).unwrap();
    let before = profiler.list_sessions();
    let json = "{\"cmd\":\"dashboard\",\"options\":{\"session_id\":\"flare-samples/run9\"}}";
    let mut cmd = String::new();
    let failure = profiler.handle_request(json, &mut cmd).unwrap_err();
    assert_eq!(failure.kind, ErrorKind::NotFound);
    assert_eq!(
        profiler.handle_frame(text(json)),
        Turn::Respond(error("dashboard", "sample instance not found"))
    );
    assert_eq!(profiler.list_sessions(), before);
}

#[test]
fn dashboard_without_a_session_is_invalid() {
    let profiler = Profiler::new();
    assert_eq!(
        profiler.handle_dashboard_request("dashboard", &RequestOptions::new()).unwrap_err(),
        new_invalid_input_error("missing option 'session_id'")
    );
    assert_eq!(
        profiler.handle_frame(text("{\"cmd\":\"dashboard\"}")),
        Turn::Respond(error("dashboard", "missing option 'session_id'"))
    );
}

#[test]
fn dashboard_of_an_open_session_shows_it() {
    let mut profiler = Profiler::new();
    profiler.open_sample("flare-samples/run1", Some(&header_bytes(1000, 100, 500))).unwrap();
    let turn = profiler.handle_frame(text(
        "{\"cmd\":\"dashboard\",\"options\":{\"session_id\":\"flare-samples/run1\"}}",
    ));
    assert_eq!(
        turn,
        Turn::Respond(response(
            "success",
            "dashboard",
            ResponseData::Dashboard(DashboardInfo {
                session_id: "flare-samples/run1".to_string(),
                sample_info: SampleInfo {
                    sample_type: SampleType::File,
                    begin_time: 1000,
                    end_time: 51000,
                    record_count: 500,
                    interval: 100,
                },
            })
        ))
    );
}

#[test]
fn an_outcome_of_other_work_is_answered_as_a_failure() {
    let mut profiler = Profiler::new();
    assert_eq!(
        profiler.complete("history_samples", &Pending::ListHistory, Outcome::Header(None)),
        error("history_samples", "unexpected outcome")
    );
    let work = Pending::OpenSample { sample_data_dir: "d".to_string() };
    assert_eq!(
        profiler.complete("open_sample", &work, Outcome::Handshake(Ok(()))),
        error("open_sample", "unexpected outcome")
    );
    let work = Pending::ConnectAgent { agent_addr: "a".to_string() };
    assert_eq!(
        profiler.complete("connect_agent", &work, Outcome::Listing(Ok(vec![]))),
        error("connect_agent", "unexpected outcome")
    );
    assert_eq!(profiler.list_sessions(), vec![]);
}

#[test]
fn every_answer_names_the_command_of_its_request() {
    let mut profiler = Profiler::new();
    profiler.connect_agent("agent:1", Ok(())).unwrap();
    for (cmd, options) in [
        ("list_sessions", "{}"),
        ("history_samples", "{}"),
        ("open_sample", "{\"sample_data_dir\":\"d\"}"),
        ("open_sample", "{}"),
        ("connect_agent", "{\"agent_addr\":\"a\"}"),
        ("connect_agent", "{}"),
        ("dashboard", "{\"session_id\":\"agent:1\"}"),
        ("dashboard", "{\"session_id\":\"none\"}"),
        ("dashboard", "{}"),
    ] {
        let json = format!("{{\"cmd\":\"{}\",\"options\":{}}}", cmd, options);
        let sent = match profiler.handle_frame(Frame::Text(json)) {
            Turn::Respond(sent) => sent,
            Turn::Perform { cmd: under, work } => {
                assert_eq!(under, cmd);
                let outcome = match work {
                    Pending::ListHistory => Outcome::Listing(Ok(vec![])),
                    Pending::OpenSample { .. } => Outcome::Header(None),
                    Pending::ConnectAgent { .. } => Outcome::Handshake(Ok(())),
                };
                profiler.complete(&under, &work, outcome)
            }
            other => panic!("no answer to {}: {:?}", cmd, other),
        };
        assert_eq!(sent.cmd, cmd);
    }
}

#[test]
fn a_text_that_is_no_json_ends_the_connection() {
    let profiler = Profiler::new();
    match profiler.handle_frame(text("{\"cmd\"")) {
        Turn::Abort(failure) => {
            assert_eq!(failure.kind, ErrorKind::Transport);
            assert_eq!(failure.message, "EOF while parsing an object at line 1 column 6");
        }
        other => panic!("the connection goes on: {:?}", other),
    }
}

#[test]
fn a_close_is_answered_with_a_close_and_ends_the_connection() {
    assert_eq!(Profiler::new().handle_frame(Frame::Close), Turn::Finish(Frame::Close));
}

#[test]
fn a_ping_is_answered_with_a_pong_of_the_same_payload() {
    assert_eq!(
        Profiler::new().handle_frame(Frame::Ping(vec![1, 2, 3])),
        Turn::Send(Frame::Pong(vec![1, 2, 3]))
    );
    assert_eq!(Profiler::new().handle_frame(Frame::Ping(vec![])), Turn::Send(Frame::Pong(vec![])));
}

#[test]
fn any_other_frame_is_sent_back_as_it_came() {
    assert_eq!(
        Profiler::new().handle_frame(Frame::Binary(vec![9, 8])),
        Turn::Send(Frame::Binary(vec![9, 8]))
    );
    assert_eq!(
        Profiler::new().handle_frame(Frame::Pong(vec![7])),
        Turn::Send(Frame::Pong(vec![7]))
    );
}

#[test]
fn a_client_is_taken_when_it_offers_the_subprotocol() {
    let profiler = Profiler::new();
    assert_eq!(profiler.on_upgrade(&vec!["flare-profiler".to_string()]), Admission::Accept);
    assert_eq!(
        profiler.on_upgrade(&vec!["chat".to_string(), "flare-profiler".to_string()]),
        Admission::Accept
    );
}

#[test]
fn a_client_is_turned_away_when_it_does_not_offer_the_subprotocol() {
    let profiler = Profiler::new();
    assert_eq!(profiler.on_upgrade(&vec![]), Admission::Reject);
    assert_eq!(profiler.on_upgrade(&vec!["flare-analysis".to_string()]), Admission::Reject);
    assert_eq!(profiler.on_upgrade(&vec!["Flare-Profiler".to_string()]), Admission::Reject);
}

#[test]
fn no_client_is_taken_after_shutdown() {
    let mut profiler = Profiler::new();
    profiler.shutdown();
    assert_eq!(profiler.on_upgrade(&vec!["flare-profiler".to_string()]), Admission::Stop);
    assert_eq!(profiler.on_upgrade(&vec![]), Admission::Stop);
}

#[test]
fn handle_open_sample_under_an_empty_directory_is_invalid() {
    let mut profiler = Profiler::new();
    profiler.connect_agent("agent:1", Ok(())).unwrap();
    let before = profiler.list_sessions();
    let header = header_bytes(1000, 100, 500);
    let failure = profiler.handle_open_sample("open_sample", "", Some(&header)).unwrap_err();
    assert_eq!(failure, new_invalid_input_error("missing option 'sample_data_dir'"));
    assert_eq!(profiler.list_sessions(), before);
    let failure = profiler.handle_open_sample("open_sample", "", None).unwrap_err();
    assert_eq!(failure.kind, ErrorKind::InvalidInput);
    assert_eq!(failure.to_string(), "missing option 'sample_data_dir'");
    assert_eq!(profiler.list_sessions(), before);
    assert!(profiler.is_running());
    assert!(profiler.get_dashboard("").is_err());
}

#[test]
fn handle_open_sample_on_a_new_profiler_without_a_directory_is_invalid() {
    let mut profiler = Profiler::new();
    let failure = profiler.handle_open_sample("open_sample", "", None).unwrap_err();
    assert_eq!(failure.kind, ErrorKind::InvalidInput);
    assert_eq!(failure.message, "missing option 'sample_data_dir'");
    assert_eq!(profiler.list_sessions(), vec![]);
}

#[test]
fn handle_open_sample_under_a_directory_is_never_that_failure() {
    let mut profiler = Profiler::new();
    let header = header_bytes(1000, 100, 500);
    let sent = profiler.handle_open_sample("open_sample", "d", Some(&header)).unwrap();
    assert_eq!(
        sent,
        response(
            "success",
            "open_sample",
            ResponseData::Session(SessionEntry {
                session_id: "d".to_string(),
                sample_type: SampleType::File
            })
        )
    );
    let failure = profiler.handle_open_sample("open_sample", " ", None).unwrap_err();
    assert_eq!(failure.kind, ErrorKind::NotFound);
    assert_eq!(failure.message, "sample file not found");
    assert_eq!(profiler.list_sessions().len(), 1);
}

#[test]
fn complete_under_an_empty_directory_opens_nothing() {
    let mut profiler = Profiler::new();
    let work = Pending::OpenSample { sample_data_dir: String::new() };
    assert_eq!(
        profiler.complete(
            "open_sample",
            &work,
            Outcome::Header(Some(header_bytes(1000, 100, 500)))
        ),
        error("open_sample", "missing option 'sample_data_dir'")
    );
    assert_eq!(profiler.list_sessions(), vec![]);
    assert_eq!(
        profiler.complete("open_sample", &work, Outcome::Header(None)),
        error("open_sample", "missing option 'sample_data_dir'")
    );
    assert_eq!(
        profiler.complete("open_sample", &work, Outcome::Listing(Ok(vec![]))),
        error("open_sample", "unexpected outcome")
    );
    assert_eq!(profiler.list_sessions(), vec![]);
}
