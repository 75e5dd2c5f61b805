use std::sync::Arc;

use kungfu::dns::{
    create_resolver, create_resolvers, filter_answers, listen_port, reply_header, start_step,
    Dispatch, DnsError, DnsServer, DnsServerOpt, Header, Host, IpAddress, LookupResult,
    MessageType,
    NameServer, OpCode, QueryHandler, Question, Record, Request, ResolverChoice, ResolverPlan,
    ServerAction, ServerEvent, ServerState, CACHE_SIZE, EXIT_FAILURE, NAME_SERVER_PORT,
    RECORD_TYPE_A,
};
use kungfu::setting::Setting;

fn setting(dns_port: i64) -> Setting {
    Setting {
        dns_port,
        dns_ttl: 10,
        dns_upstream: vec!["1.2.4.8".to_string()],
        dns_fallback: vec!["8.8.8.8".to_string()],
        metrics: String::new(),
        network: Vec::new(),
        proxy: Vec::new(),
        hosts: String::new(),
        rules: Vec::new(),
    }
}

fn plan(address: [u8; 4]) -> ResolverPlan {
    ResolverPlan {
        name_servers: vec![NameServer { address: IpAddress::V4(address), port: 53 }],
        cache_size: 1024,
    }
}

fn opt() -> Arc<DnsServerOpt> {
    Arc::new(DnsServerOpt {
        setting: Arc::new(setting(53)),
        resolvers: plan([1, 2, 4, 8]),
        resolver_fallbacks: plan([8, 8, 8, 8]),
    })
}

fn question(name: &str, record_type: u16) -> Question {
    Question { name: name.to_string(), record_type, class: 1 }
}

fn query(id: u16, op_code: OpCode, questions: Vec<Question>) -> Request {
    Request { header: Header { id, message_type: MessageType::Query, op_code }, questions }
}

fn record(record_type: u16, data: &[u8]) -> Record {
    Record { record_type, data: data.to_vec() }
}

fn host(text: &str, address: Option<[u8; 4]>) -> Host {
    Host { text: text.to_string(), address: address.map(IpAddress::V4) }
}

fn types_and_data(records: &[Record]) -> Vec<(u16, Vec<u8>)> {
    records.iter().map(|r| (r.record_type, r.data.clone())).collect()
}

#[test]
fn constants_of_the_handler() {
    assert_eq!(RECORD_TYPE_A, 1);
    assert_eq!(NAME_SERVER_PORT, 53);
    assert_eq!(CACHE_SIZE, 1024);
}

#[test]
fn only_address_records_are_kept_in_their_order() {
    let records = vec![
        record(5, b"cname"),
        record(1, &[10, 88, 0, 7]),
        record(28, b"aaaa"),
        record(1, &[10, 88, 0, 3]),
        record(1, &[10, 88, 0, 9]),
        record(16, b"txt"),
    ];
    let answers = filter_answers(&records);
    assert_eq!(
        types_and_data(&answers),
        vec![(1, vec![10, 88, 0, 7]), (1, vec![10, 88, 0, 3]), (1, vec![10, 88, 0, 9])]
    );
}

#[test]
fn filtering_nothing_gives_nothing() {
    assert!(filter_answers(&Vec::new()).is_empty());
    assert!(filter_answers(&vec![record(5, b"x"), record(2, b"y")]).is_empty());
}

#[test]
fn filtering_address_records_only_keeps_all() {
    let records = vec![record(1, &[1]), record(1, &[2]), record(1, &[1])];
    assert_eq!(types_and_data(&filter_answers(&records)), types_and_data(&records));
}

#[test]
fn response_header_echoes_id_and_operation() {
    for (id, op_code) in [
        (0u16, OpCode::Query),
        (0x1234, OpCode::Status),
        (0xffff, OpCode::Notify),
        (7, OpCode::Update),
    ] {
        let header = reply_header(&Header { id, message_type: MessageType::Query, op_code });
        assert_eq!(header, Header { id, message_type: MessageType::Response, op_code });
    }
}

#[test]
fn response_header_of_a_response_is_a_response() {
    let header =
        reply_header(&Header { id: 9, message_type: MessageType::Response, op_code: OpCode::Query });
    assert_eq!(header.message_type, MessageType::Response);
    assert_eq!(header.id, 9);
}

#[test]
fn standard_query_with_a_question_is_resolved() {
    let server = DnsServer::new(opt());
    let request = query(1, OpCode::Query, vec![question("example.com.", 1)]);
    assert_eq!(server.handle_request(&request), Dispatch::Resolve);
    let other_type = query(1, OpCode::Query, vec![question("example.com.", 28)]);
    assert_eq!(server.handle_request(&other_type), Dispatch::Resolve);
}

#[test]
fn anything_but_a_standard_query_is_not_answered() {
    let server = DnsServer::new(opt());
    for op_code in [OpCode::Status, OpCode::Notify, OpCode::Update] {
        let request = query(1, op_code, vec![question("example.com.", 1)]);
        assert_eq!(server.handle_request(&request), Dispatch::Ignore);
    }
    let response = Request {
        header: Header { id: 1, message_type: MessageType::Response, op_code: OpCode::Query },
        questions: vec![question("example.com.", 1)],
    };
    assert_eq!(server.handle_request(&response), Dispatch::Ignore);
    assert_eq!(server.handle_request(&query(1, OpCode::Query, Vec::new())), Dispatch::Ignore);
}

#[test]
fn only_the_first_question_is_looked_up() {
    let handler = DnsServer::new(opt()).handler();
    let request = query(
        1,
        OpCode::Query,
        vec![question("first.example.", 28), question("second.example.", 1)],
    );
    let key = handler.question(&request);
    assert_eq!(key.resolver, ResolverChoice::Upstream);
    assert_eq!(key.name, "first.example.");
    assert_eq!(key.record_type, 28);
}

#[test]
fn response_is_made_from_the_lookup() {
    let handler = QueryHandler::new(opt());
    let request = query(0xbeef, OpCode::Query, vec![question("example.com.", 1)]);
    let looked_up = LookupResult::Records(vec![
        record(5, b"alias"),
        record(1, &[93, 184, 216, 34]),
        record(46, b"sig"),
        record(1, &[93, 184, 216, 35]),
    ]);
    let response = handler.query_upstream(&request, looked_up).unwrap();
    assert_eq!(
        response.header,
        Header { id: 0xbeef, message_type: MessageType::Response, op_code: OpCode::Query }
    );
    assert_eq!(
        types_and_data(&response.answers),
        vec![(1, vec![93, 184, 216, 34]), (1, vec![93, 184, 216, 35])]
    );
    assert!(response.name_servers.is_empty());
    assert!(response.soa.is_empty());
    assert!(response.additionals.is_empty());
    assert_eq!(response.questions.len(), 1);
    assert_eq!(response.questions[0].name, "example.com.");
    assert_eq!(response.questions[0].record_type, 1);
    assert_eq!(response.questions[0].class, 1);
}

#[test]
fn response_sends_every_question_back() {
    let handler = QueryHandler::new(opt());
    let request = query(
        4,
        OpCode::Query,
        vec![question("first.example.", 28), question("second.example.", 1)],
    );
    let response = handler.query_upstream(&request, LookupResult::Records(Vec::new())).unwrap();
    let names: Vec<&str> = response.questions.iter().map(|q| q.name.as_str()).collect();
    assert_eq!(names, vec!["first.example.", "second.example."]);
    assert_eq!(response.questions[0].record_type, 28);
    assert_eq!(response.questions[1].record_type, 1);
}

#[test]
fn query_for_another_type_still_gets_address_records_only() {
    let handler = QueryHandler::new(opt());
    let request = query(3, OpCode::Query, vec![question("example.com.", 16)]);
    let looked_up = LookupResult::Records(vec![record(16, b"v=spf1"), record(16, b"hello")]);
    let response = handler.query_upstream(&request, looked_up).unwrap();
    assert!(response.answers.is_empty());
    assert_eq!(response.header.id, 3);
}

#[test]
fn failed_lookup_gives_no_response() {
    let handler = QueryHandler::new(opt());
    let request = query(3, OpCode::Query, vec![question("example.com.", 1)]);
    assert!(matches!(
        handler.query_upstream(&request, LookupResult::Failed),
        Err(DnsError::Lookup)
    ));
}

#[test]
fn response_that_was_not_sent_is_an_error() {
    let handler = QueryHandler::new(opt());
    assert!(handler.finish(true).is_ok());
    assert!(matches!(handler.finish(false), Err(DnsError::ResponseSend)));
}

#[test]
fn resolver_is_planned_for_the_hosts_in_order() {
    let hosts = vec![
        host("1.2.4.8", Some([1, 2, 4, 8])),
        host("114.114.114.114", Some([114, 114, 114, 114])),
        host("1.2.4.8", Some([1, 2, 4, 8])),
    ];
    let plan = create_resolver(&hosts).unwrap();
    assert_eq!(plan.cache_size, 1024);
    assert_eq!(
        plan.name_servers,
        vec![
            NameServer { address: IpAddress::V4([1, 2, 4, 8]), port: 53 },
            NameServer { address: IpAddress::V4([114, 114, 114, 114]), port: 53 },
            NameServer { address: IpAddress::V4([1, 2, 4, 8]), port: 53 },
        ]
    );
}

#[test]
fn resolver_takes_addresses_of_both_families() {
    let six: [u8; 16] = [0x20, 0x01, 0x48, 0x60, 0x48, 0x60, 0, 0, 0, 0, 0, 0, 0, 0, 0x88, 0x88];
    let hosts = vec![
        Host { text: "2001:4860:4860::8888".to_string(), address: Some(IpAddress::V6(six)) },
        host("8.8.8.8", Some([8, 8, 8, 8])),
    ];
    let plan = create_resolver(&hosts).unwrap();
    assert_eq!(
        plan.name_servers,
        vec![
            NameServer { address: IpAddress::V6(six), port: 53 },
            NameServer { address: IpAddress::V4([8, 8, 8, 8]), port: 53 },
        ]
    );
}

#[test]
fn resolver_for_no_hosts_has_no_servers() {
    let plan = create_resolver(&Vec::new()).unwrap();
    assert!(plan.name_servers.is_empty());
    assert_eq!(plan.cache_size, 1024);
}

#[test]
fn first_host_that_is_no_address_is_reported() {
    let hosts = vec![
        host("1.2.4.8", Some([1, 2, 4, 8])),
        host("dns.example", None),
        host("also bad", None),
    ];
    match create_resolver(&hosts) {
        Err(DnsError::InvalidHost(text)) => assert_eq!(text, "dns.example"),
        other => panic!("{:?}", other),
    }
}

#[test]
fn both_resolvers_or_none() {
    let good = vec![host("1.2.4.8", Some([1, 2, 4, 8]))];
    let other = vec![host("8.8.8.8", Some([8, 8, 8, 8]))];
    let bad_upstream = vec![host("up", None)];
    let bad_fallback = vec![host("down", None)];

    let plans = create_resolvers(&good, &other).unwrap();
    assert_eq!(plans.upstream.name_servers[0].address, IpAddress::V4([1, 2, 4, 8]));
    assert_eq!(plans.fallback.name_servers[0].address, IpAddress::V4([8, 8, 8, 8]));

    match create_resolvers(&bad_upstream, &other) {
        Err(DnsError::InvalidHost(text)) => assert_eq!(text, "up"),
        other => panic!("{:?}", other),
    }
    match create_resolvers(&good, &bad_fallback) {
        Err(DnsError::InvalidHost(text)) => assert_eq!(text, "down"),
        other => panic!("{:?}", other),
    }
    match create_resolvers(&bad_upstream, &bad_fallback) {
        Err(DnsError::InvalidHost(text)) => assert_eq!(text, "up"),
        other => panic!("{:?}", other),
    }
}

#[test]
fn start_goes_upstream_then_fallback_then_socket() {
    let (state, action) = start_step(ServerState::MakingUpstream, ServerEvent::ResolverMade);
    assert_eq!(state, ServerState::MakingFallback);
    assert!(matches!(action, ServerAction::MakeFallback));
    let (state, action) = start_step(state, ServerEvent::ResolverMade);
    assert_eq!(state, ServerState::Binding);
    assert!(matches!(action, ServerAction::Bind));
    let (state, action) = start_step(state, ServerEvent::SocketBound);
    assert_eq!(state, ServerState::Serving);
    assert!(matches!(action, ServerAction::Serve));
}

#[test]
fn resolver_that_could_not_be_made_ends_the_start() {
    let (state, action) = start_step(ServerState::MakingUpstream, ServerEvent::ResolverFailed);
    assert_eq!(state, ServerState::Stopped);
    assert!(matches!(action, ServerAction::Abort(DnsError::ResolverConstruct)));
    let (state, action) = start_step(ServerState::MakingFallback, ServerEvent::ResolverFailed);
    assert_eq!(state, ServerState::Stopped);
    assert!(matches!(action, ServerAction::Abort(DnsError::ResolverConstruct)));
}

#[test]
fn socket_that_could_not_be_bound_ends_the_process() {
    assert_eq!(EXIT_FAILURE, 1);
    let (state, action) = start_step(ServerState::Binding, ServerEvent::SocketFailed);
    assert_eq!(state, ServerState::Stopped);
    assert!(matches!(action, ServerAction::Exit(1)));
}

#[test]
fn start_events_out_of_turn_change_nothing() {
    for (state, event) in [
        (ServerState::MakingUpstream, ServerEvent::SocketBound),
        (ServerState::MakingUpstream, ServerEvent::SocketFailed),
        (ServerState::MakingFallback, ServerEvent::SocketBound),
        (ServerState::Binding, ServerEvent::ResolverMade),
        (ServerState::Binding, ServerEvent::ResolverFailed),
        (ServerState::Serving, ServerEvent::SocketFailed),
        (ServerState::Serving, ServerEvent::ResolverFailed),
        (ServerState::Stopped, ServerEvent::ResolverMade),
        (ServerState::Stopped, ServerEvent::SocketBound),
    ] {
        let (next, action) = start_step(state, event);
        assert_eq!(next, state);
        assert!(matches!(action, ServerAction::Nothing));
    }
}

#[test]
fn listen_port_is_taken_from_the_settings() {
    assert_eq!(listen_port(&setting(53)), Some(53));
    assert_eq!(listen_port(&setting(5353)), Some(5353));
    assert_eq!(listen_port(&setting(0)), Some(0));
    assert_eq!(listen_port(&setting(65535)), Some(65535));
    assert_eq!(listen_port(&setting(65536)), None);
    assert_eq!(listen_port(&setting(-1)), None);
    assert_eq!(listen_port(&setting(i64::MAX)), None);
}
