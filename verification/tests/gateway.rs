use std::sync::Arc;

use kungfu::gateway::{
    gateways, Gateway, GatewayAction, GatewayError, GatewayEvent, GatewayState, Layer,
    PacketAction, MTU,
};
use kungfu::reply::{ICMP_CODE_PORT_UNREACHABLE, PROBE_PORT_FLOOR, PROBE_TTL_LIMIT, REPLY_TTL};
use kungfu::route::{route_commands, Platform, RouteCommand, RouteLatch, RouteRun};
use kungfu::ipv4::{checksum, Ipv4};
use kungfu::setting::{Proxy, Rule, RuleType, Setting};
use kungfu::subnet::VirtualSubnet;

fn strings(items: &[&str]) -> Vec<String> {
    items.iter().map(|s| s.to_string()).collect()
}

fn setting_with(network: &[&str], rules: Vec<Rule>) -> Arc<Setting> {
    Arc::new(Setting {
        dns_port: 53,
        dns_ttl: 10,
        dns_upstream: strings(&["1.2.4.8", "114.114.114.114"]),
        dns_fallback: strings(&["8.8.8.8"]),
        metrics: "0.0.0.0:3001".to_string(),
        network: strings(network),
        proxy: vec![Proxy { name: "p".to_string(), values: strings(&["socks5://127.0.0.1:1080"]) }],
        hosts: String::new(),
        rules,
    })
}

fn rule(rule_type: RuleType, values: &[&str]) -> Rule {
    Rule { rule_type, target: "p".to_string(), values: strings(values) }
}

fn gateway() -> Gateway {
    Gateway::new(
        0,
        VirtualSubnet::parse("10.88.0.1/16").unwrap(),
        setting_with(&["10.88.0.1/16"], Vec::new()),
    )
}

fn echo_request() -> Vec<u8> {
    vec![
        0x45, 0, 0, 32, 0, 1, 0, 0, 64, 1, 0xae, 0xcd, 192, 168, 1, 10, 10, 88, 0, 5, 8, 0, 0x21,
        0x04, 0x12, 0x34, 0x00, 0x01, 0x61, 0x62, 0x63, 0x64,
    ]
}

fn probe() -> Vec<u8> {
    vec![
        69, 0, 0, 32, 0, 2, 0, 0, 1, 17, 234, 189, 192, 168, 1, 10, 10, 88, 3, 4, 156, 64, 130,
        154, 0, 12, 0, 0, 1, 2, 3, 4,
    ]
}

fn unreachable_for_probe() -> Vec<u8> {
    vec![
        69, 0, 0, 60, 0, 2, 0, 0, 64, 1, 171, 177, 10, 88, 3, 4, 192, 168, 1, 10, 3, 3, 218, 15,
        0, 0, 0, 0, 69, 0, 0, 32, 0, 2, 0, 0, 1, 17, 234, 189, 192, 168, 1, 10, 10, 88, 3, 4, 156,
        64, 130, 154, 0, 12, 0, 0, 1, 2, 3, 4,
    ]
}

fn sent(action: PacketAction) -> Vec<u8> {
    match action {
        PacketAction::Send(bytes) => bytes,
        other => panic!("nothing was sent: {:?}", other),
    }
}

#[test]
fn thresholds_and_limits() {
    assert_eq!(MTU, 1400);
    assert_eq!(PROBE_TTL_LIMIT, 10);
    assert_eq!(PROBE_PORT_FLOOR, 33000);
    assert_eq!(REPLY_TTL, 64);
    assert_eq!(ICMP_CODE_PORT_UNREACHABLE, 3);
}

#[test]
fn echo_request_becomes_echo_reply() {
    let reply = sent(gateway().handle_packet(echo_request()));
    let expected: Vec<u8> = vec![
        0x45, 0, 0, 32, 0, 1, 0, 0, 64, 1, 0xae, 0xcd, 10, 88, 0, 5, 192, 168, 1, 10, 0, 0, 0x29,
        0x04, 0x12, 0x34, 0x00, 0x01, 0x61, 0x62, 0x63, 0x64,
    ];
    assert_eq!(reply, expected);
}

#[test]
fn echo_reply_keeps_identifier_sequence_and_data() {
    let reply = sent(gateway().handle_packet(echo_request()));
    assert_eq!(reply[24..], echo_request()[24..]);
}

#[test]
fn echo_reply_verifies() {
    let reply = sent(gateway().handle_packet(echo_request()));
    assert_eq!(checksum(0, &reply[20..]), [0, 0]);
    assert_eq!(checksum(0, &reply[..20]), [0, 0]);
}

#[test]
fn echo_reply_read_by_pnet() {
    let reply = sent(gateway().handle_packet(echo_request()));
    let packet = pnet::packet::ipv4::Ipv4Packet::new(&reply).unwrap();
    assert_eq!(packet.get_source().octets(), [10, 88, 0, 5]);
    assert_eq!(packet.get_destination().octets(), [192, 168, 1, 10]);
    assert_eq!(packet.get_checksum(), pnet::packet::ipv4::checksum(&packet));
    let message = pnet::packet::icmp::IcmpPacket::new(&reply[20..]).unwrap();
    assert_eq!(message.get_icmp_type(), pnet::packet::icmp::IcmpTypes::EchoReply);
    assert_eq!(message.get_checksum(), pnet::packet::icmp::checksum(&message));
}

#[test]
fn handle_icmp_answers_in_place() {
    let mut packet = Ipv4::new(echo_request());
    gateway().handle_icmp(&mut packet);
    assert_eq!(packet.src(), [10, 88, 0, 5]);
    assert_eq!(packet.dst(), [192, 168, 1, 10]);
    assert_eq!(packet.payload()[0], 0);
}

#[test]
fn other_messages_are_mirrored_unchanged() {
    let mut request = echo_request();
    request[20] = 13;
    let reply = sent(gateway().handle_packet(request.clone()));
    assert_eq!(reply[..12], request[..12]);
    assert_eq!(reply[12..16], request[16..20]);
    assert_eq!(reply[16..20], request[12..16]);
    assert_eq!(reply[20..], request[20..]);
}

#[test]
fn echo_request_with_options_is_answered_behind_them() {
    let mut request = echo_request();
    request[0] = 0x46;
    for (at, byte) in [1u8, 1, 1, 0].iter().enumerate() {
        request.insert(20 + at, *byte);
    }
    let reply = sent(gateway().handle_packet(request.clone()));
    assert_eq!(reply.len(), request.len());
    assert_eq!(reply[20..24], [1, 1, 1, 0]);
    assert_eq!(reply[24], 0);
    assert_eq!(checksum(0, &reply[24..]), [0, 0]);
    assert_eq!(reply[12..16], [10, 88, 0, 5]);
}

#[test]
fn message_of_four_bytes_is_answered() {
    let mut request = echo_request();
    request.truncate(24);
    let reply = sent(gateway().handle_packet(request));
    assert_eq!(reply.len(), 24);
    assert_eq!(reply[20], 0);
    assert_eq!(checksum(0, &reply[20..]), [0, 0]);
}

#[test]
fn message_shorter_than_its_checksum_is_malformed() {
    let mut request = echo_request();
    request.truncate(23);
    assert!(matches!(gateway().handle_packet(request), PacketAction::Malformed));
}

#[test]
fn probe_into_the_subnet_is_reported_unreachable() {
    let reply = sent(gateway().handle_packet(probe()));
    assert_eq!(reply, unreachable_for_probe());
}

#[test]
fn unreachable_reply_fields() {
    let reply = sent(gateway().handle_packet(probe()));
    let packet = Ipv4::new(reply.clone());
    assert_eq!(packet.ttl(), 64);
    assert_eq!(packet.src(), [10, 88, 3, 4]);
    assert_eq!(packet.dst(), [192, 168, 1, 10]);
    assert_eq!(packet.total_len(), 60);
    assert_eq!(packet.payload()[0], 3);
    assert_eq!(packet.payload()[1], 3);
    assert_eq!(packet.payload()[4..8], [0, 0, 0, 0]);
    assert_eq!(packet.payload()[8..], probe()[..]);
    assert_eq!(checksum(0, &reply[..20]), [0, 0]);
    assert_eq!(checksum(0, &reply[20..]), [0, 0]);
}

#[test]
fn unreachable_reply_read_by_pnet() {
    let reply = sent(gateway().handle_packet(probe()));
    let packet = pnet::packet::ipv4::Ipv4Packet::new(&reply).unwrap();
    assert_eq!(packet.get_ttl(), 64);
    assert_eq!(
        packet.get_next_level_protocol(),
        pnet::packet::ip::IpNextHeaderProtocols::Icmp
    );
    assert_eq!(packet.get_total_length(), 60);
    assert_eq!(packet.get_source().octets(), [10, 88, 3, 4]);
    assert_eq!(packet.get_destination().octets(), [192, 168, 1, 10]);
    assert_eq!(packet.get_checksum(), pnet::packet::ipv4::checksum(&packet));
    let message = pnet::packet::icmp::IcmpPacket::new(&reply[20..]).unwrap();
    assert_eq!(message.get_icmp_type(), pnet::packet::icmp::IcmpTypes::DestinationUnreachable);
    assert_eq!(
        message.get_icmp_code(),
        pnet::packet::icmp::destination_unreachable::IcmpCodes::DestinationPortUnreachable
    );
    assert_eq!(message.get_checksum(), pnet::packet::icmp::checksum(&message));
}

#[test]
fn handle_udp_gives_the_reply_or_nothing() {
    let gateway = gateway();
    let reply = gateway.handle_udp(&Ipv4::new(probe())).unwrap();
    assert_eq!(reply.packet(), &unreachable_for_probe()[..]);
    let mut late = probe();
    late[8] = 10;
    assert!(gateway.handle_udp(&Ipv4::new(late)).is_none());
}

#[test]
fn probe_is_intercepted_for_every_ttl_below_ten() {
    for ttl in 0..10u8 {
        let mut packet = probe();
        packet[8] = ttl;
        let reply = sent(gateway().handle_packet(packet));
        assert_eq!(reply[8], 64);
        assert_eq!(reply.len(), 60);
    }
}

#[test]
fn probe_with_ttl_of_ten_or_more_is_ignored() {
    for ttl in [10u8, 11, 64, 255] {
        let mut packet = probe();
        packet[8] = ttl;
        assert!(matches!(gateway().handle_packet(packet), PacketAction::Ignore));
    }
}

#[test]
fn probe_port_threshold() {
    // 33000 is 0x80e8.
    let mut at_floor = probe();
    at_floor[22] = 0x80;
    at_floor[23] = 0xe8;
    assert!(matches!(gateway().handle_packet(at_floor), PacketAction::Send(_)));
    let mut below = probe();
    below[22] = 0x80;
    below[23] = 0xe7;
    assert!(matches!(gateway().handle_packet(below), PacketAction::Ignore));
    let mut top = probe();
    top[22] = 0xff;
    top[23] = 0xff;
    assert!(matches!(gateway().handle_packet(top), PacketAction::Send(_)));
    let mut dns = probe();
    dns[22] = 0;
    dns[23] = 53;
    assert!(matches!(gateway().handle_packet(dns), PacketAction::Ignore));
}

#[test]
fn probe_outside_the_subnet_is_ignored() {
    let mut packet = probe();
    packet[17] = 89;
    assert!(matches!(gateway().handle_packet(packet), PacketAction::Ignore));
    let mut edge = probe();
    edge[16] = 10;
    edge[17] = 88;
    edge[18] = 255;
    edge[19] = 255;
    assert!(matches!(gateway().handle_packet(edge), PacketAction::Send(_)));
}

#[test]
fn probe_source_port_does_not_matter() {
    let mut packet = probe();
    packet[20] = 0;
    packet[21] = 1;
    assert!(matches!(gateway().handle_packet(packet), PacketAction::Send(_)));
}

#[test]
fn datagram_shorter_than_its_header_is_malformed() {
    let mut packet = probe();
    packet.truncate(27);
    assert!(matches!(gateway().handle_packet(packet), PacketAction::Malformed));
    let mut bare = probe();
    bare.truncate(28);
    assert!(matches!(gateway().handle_packet(bare), PacketAction::Send(_)));
}

#[test]
fn tcp_and_other_protocols_are_ignored() {
    let mut tcp = probe();
    tcp[9] = 6;
    assert!(matches!(gateway().handle_packet(tcp), PacketAction::Ignore));
    let mut other = probe();
    other[9] = 47;
    assert!(matches!(gateway().handle_packet(other), PacketAction::Ignore));
    let mut bare = probe();
    bare[9] = 6;
    bare.truncate(20);
    assert!(matches!(gateway().handle_packet(bare), PacketAction::Ignore));
}

#[test]
fn packets_that_cannot_be_taken_apart_are_malformed() {
    assert!(matches!(gateway().handle_packet(Vec::new()), PacketAction::Malformed));
    assert!(matches!(gateway().handle_packet(vec![0x45; 19]), PacketAction::Malformed));
    let mut short_header = probe();
    short_header[0] = 0x44;
    assert!(matches!(gateway().handle_packet(short_header), PacketAction::Malformed));
    let mut long_header = probe();
    long_header[0] = 0x4f;
    assert!(matches!(gateway().handle_packet(long_header), PacketAction::Malformed));
    assert!(matches!(gateway().handle_packet(vec![0x45; 65536]), PacketAction::Malformed));
}

#[test]
fn interface_is_named_after_the_gateway() {
    let config = gateway().interface();
    assert_eq!(config.name, "kungfu_0");
    assert_eq!(config.address, [10, 88, 0, 1]);
    assert_eq!(config.netmask, [255, 255, 0, 0]);
    assert_eq!(config.mtu, 1400);
    assert_eq!(config.layer, Layer::L3);
    assert!(config.up);
    let other = Gateway::new(
        12,
        VirtualSubnet::parse("172.16.5.9/20").unwrap(),
        setting_with(&[], Vec::new()),
    );
    let config = other.interface();
    assert_eq!(config.name, "kungfu_12");
    assert_eq!(config.address, [172, 16, 5, 9]);
    assert_eq!(config.netmask, [255, 255, 240, 0]);
}

#[test]
fn interface_name_of_a_negative_number() {
    let odd = Gateway::new(
        -7,
        VirtualSubnet::parse("10.0.0.1/8").unwrap(),
        setting_with(&[], Vec::new()),
    );
    assert_eq!(odd.interface().name, "kungfu_-7");
}

fn routed() -> Gateway {
    Gateway::new(
        0,
        VirtualSubnet::parse("10.88.0.1/16").unwrap(),
        setting_with(
            &["10.88.0.1/16"],
            vec![
                rule(RuleType::Domain, &["example.com"]),
                rule(RuleType::Route, &["8.8.8.8/32", "1.1.1.0/24"]),
                rule(RuleType::Unknown("route ".to_string()), &["9.9.9.9/32"]),
                rule(RuleType::Route, &[]),
                rule(RuleType::DnsCidr, &["4.4.4.0/24"]),
                rule(RuleType::DnsCidrArea, &["cn"]),
                rule(RuleType::Route, &["172.16.0.0/12"]),
            ],
        ),
    )
}

fn flat(command: &RouteCommand) -> String {
    let mut line = command.program.clone();
    for arg in &command.args {
        line.push(' ');
        line.push_str(arg);
    }
    line
}

#[test]
fn route_commands_on_linux() {
    let commands = routed().route_commands(Platform::Linux);
    let lines: Vec<String> = commands.iter().map(flat).collect();
    assert_eq!(
        lines,
        vec![
            "ip route add 8.8.8.8/32 via 10.88.0.1",
            "ip route add 1.1.1.0/24 via 10.88.0.1",
            "ip route add 172.16.0.0/12 via 10.88.0.1",
        ]
    );
    assert_eq!(commands[0].program, "ip");
    assert_eq!(commands[0].args, strings(&["route", "add", "8.8.8.8/32", "via", "10.88.0.1"]));
}

#[test]
fn route_commands_on_macos() {
    let commands = routed().route_commands(Platform::MacOs);
    let lines: Vec<String> = commands.iter().map(flat).collect();
    assert_eq!(
        lines,
        vec![
            "route -n add -net 8.8.8.8/32 10.88.0.1",
            "route -n add -net 1.1.1.0/24 10.88.0.1",
            "route -n add -net 172.16.0.0/12 10.88.0.1",
        ]
    );
    assert_eq!(commands[2].program, "route");
    assert_eq!(commands[2].args, strings(&["-n", "add", "-net", "172.16.0.0/12", "10.88.0.1"]));
}

#[test]
fn route_commands_of_plain_rules() {
    let rules = vec![
        rule(RuleType::Route, &["8.8.4.4/32"]),
        rule(RuleType::Domain, &["example.org"]),
    ];
    let commands = route_commands(&rules, [192, 168, 0, 254], Platform::Linux);
    let lines: Vec<String> = commands.iter().map(flat).collect();
    assert_eq!(lines, vec!["ip route add 8.8.4.4/32 via 192.168.0.254"]);
}

#[test]
fn latch_is_set_once() {
    let mut latch = RouteLatch::new();
    assert!(latch.set());
    assert!(latch.is_set());
    assert!(!latch.set());
    assert!(!latch.set());
    assert!(latch.is_set());
}

#[test]
fn no_route_rules_no_commands() {
    assert!(gateway().route_commands(Platform::Linux).is_empty());
}

#[test]
fn routes_are_applied_once_for_all_gateways() {
    let first = routed();
    let second = routed();
    let mut latch = RouteLatch::new();
    assert!(!latch.is_set());
    assert_eq!(first.apply_rules(&mut latch, Platform::Linux).len(), 3);
    assert!(latch.is_set());
    assert!(second.apply_rules(&mut latch, Platform::Linux).is_empty());
    assert!(first.apply_rules(&mut latch, Platform::Linux).is_empty());
    assert!(latch.is_set());
}

#[test]
fn latch_is_set_even_without_routes() {
    let mut latch = RouteLatch::new();
    assert!(gateway().apply_rules(&mut latch, Platform::MacOs).is_empty());
    assert!(latch.is_set());
    assert!(routed().apply_rules(&mut latch, Platform::MacOs).is_empty());
}

#[test]
fn a_failed_route_does_not_stop_the_run() {
    let mut run = RouteRun::new(routed().route_commands(Platform::Linux));
    let mut tried: Vec<String> = Vec::new();
    let outcomes = [true, false, true];
    while let Some(command) = run.current() {
        tried.push(flat(command));
        let outcome = outcomes[run.tried()];
        run.record(outcome);
    }
    assert_eq!(tried.len(), 3);
    assert_eq!(tried[2], "ip route add 172.16.0.0/12 via 10.88.0.1");
    assert_eq!(run.tried(), 3);
    assert_eq!(run.failed(), 1);
    assert!(run.is_done());
}

#[test]
fn a_run_of_failures_tries_every_command() {
    let mut run = RouteRun::new(routed().route_commands(Platform::MacOs));
    assert!(!run.is_done());
    run.record(false);
    run.record(false);
    assert!(!run.is_done());
    assert_eq!(flat(run.current().unwrap()), "route -n add -net 172.16.0.0/12 10.88.0.1");
    run.record(false);
    assert!(run.is_done());
    assert!(run.current().is_none());
    assert_eq!(run.failed(), 3);
    run.record(false);
    assert_eq!(run.tried(), 3);
    assert_eq!(run.failed(), 3);
}

#[test]
fn an_empty_run_is_done_at_once() {
    let run = RouteRun::new(Vec::new());
    assert!(run.is_done());
    assert!(run.current().is_none());
    assert_eq!(run.tried(), 0);
}

#[test]
fn gateways_are_numbered_in_the_order_of_the_settings() {
    let setting = setting_with(&["10.88.0.1/16", "10.89.0.1/24", "192.168.7.1/32"], Vec::new());
    let made = gateways(&setting).unwrap();
    assert_eq!(made.len(), 3);
    assert_eq!(made[0].interface().name, "kungfu_0");
    assert_eq!(made[1].interface().name, "kungfu_1");
    assert_eq!(made[2].interface().name, "kungfu_2");
    assert_eq!(made[0].interface().address, [10, 88, 0, 1]);
    assert_eq!(made[1].interface().netmask, [255, 255, 255, 0]);
    assert_eq!(made[2].interface().netmask, [255, 255, 255, 255]);
}

#[test]
fn gateways_of_no_networks() {
    assert!(gateways(&setting_with(&[], Vec::new())).unwrap().is_empty());
}

#[test]
fn gateways_report_the_first_invalid_network() {
    let setting = setting_with(&["10.88.0.1/16", "10.89.0.1", "nonsense", "10.90.0.1/16"], Vec::new());
    assert!(matches!(gateways(&setting), Err(GatewayError::InvalidNetwork(1))));
    let setting = setting_with(&["10.88.0.1/33"], Vec::new());
    assert!(matches!(gateways(&setting), Err(GatewayError::InvalidNetwork(0))));
}

#[test]
fn each_gateway_answers_for_its_own_subnet() {
    let setting = setting_with(&["10.88.0.1/16", "10.89.0.1/16"], Vec::new());
    let made = gateways(&setting).unwrap();
    assert!(matches!(made[0].handle_packet(probe()), PacketAction::Send(_)));
    assert!(matches!(made[1].handle_packet(probe()), PacketAction::Ignore));
}

#[test]
fn startup_goes_interface_then_routes_then_packets() {
    let gateway = gateway();
    let (state, action) = gateway.step(GatewayState::Uninitialized, GatewayEvent::InterfaceCreated);
    assert_eq!(state, GatewayState::InterfaceUp);
    assert!(matches!(action, GatewayAction::ApplyRoutes));
    let (state, action) = gateway.step(state, GatewayEvent::RoutesHandled);
    assert_eq!(state, GatewayState::RoutesApplied);
    assert!(matches!(action, GatewayAction::Read));
    let (state, action) = gateway.step(state, GatewayEvent::PacketRead(probe()));
    assert_eq!(state, GatewayState::Serving);
    match action {
        GatewayAction::SendAndRead(bytes) => assert_eq!(bytes, unreachable_for_probe()),
        other => panic!("no reply: {:?}", other),
    }
}

#[test]
fn interface_failure_is_fatal() {
    let (state, action) =
        gateway().step(GatewayState::Uninitialized, GatewayEvent::InterfaceFailed);
    assert_eq!(state, GatewayState::Stopped);
    assert!(matches!(action, GatewayAction::GiveUp));
}

#[test]
fn serving_survives_bad_reads_and_bad_packets() {
    let gateway = gateway();
    let (state, action) = gateway.step(GatewayState::Serving, GatewayEvent::ReadFailed);
    assert_eq!(state, GatewayState::Serving);
    assert!(matches!(action, GatewayAction::ReportReadErrorAndRead));
    let (state, action) = gateway.step(state, GatewayEvent::PacketRead(vec![1, 2, 3]));
    assert_eq!(state, GatewayState::Serving);
    assert!(matches!(action, GatewayAction::ReportMalformedAndRead));
    let mut tcp = probe();
    tcp[9] = 6;
    let (state, action) = gateway.step(state, GatewayEvent::PacketRead(tcp));
    assert_eq!(state, GatewayState::Serving);
    assert!(matches!(action, GatewayAction::Read));
    let (state, action) = gateway.step(state, GatewayEvent::PacketRead(echo_request()));
    assert_eq!(state, GatewayState::Serving);
    assert!(matches!(action, GatewayAction::SendAndRead(_)));
    let (state, action) = gateway.step(state, GatewayEvent::InterfaceClosed);
    assert_eq!(state, GatewayState::Stopped);
    assert!(matches!(action, GatewayAction::Stop));
}

#[test]
fn events_out_of_turn_change_nothing() {
    let gateway = gateway();
    let (state, action) = gateway.step(GatewayState::Uninitialized, GatewayEvent::PacketRead(probe()));
    assert_eq!(state, GatewayState::Uninitialized);
    assert!(matches!(action, GatewayAction::Nothing));
    let (state, action) = gateway.step(GatewayState::InterfaceUp, GatewayEvent::ReadFailed);
    assert_eq!(state, GatewayState::InterfaceUp);
    assert!(matches!(action, GatewayAction::Nothing));
    let (state, action) = gateway.step(GatewayState::Serving, GatewayEvent::InterfaceCreated);
    assert_eq!(state, GatewayState::Serving);
    assert!(matches!(action, GatewayAction::Nothing));
    let (state, action) = gateway.step(GatewayState::Stopped, GatewayEvent::PacketRead(probe()));
    assert_eq!(state, GatewayState::Stopped);
    assert!(matches!(action, GatewayAction::Nothing));
    let (state, action) = gateway.step(GatewayState::Uninitialized, GatewayEvent::RoutesHandled);
    assert_eq!(state, GatewayState::Uninitialized);
    assert!(matches!(action, GatewayAction::Nothing));
    let (state, action) = gateway.step(GatewayState::InterfaceUp, GatewayEvent::InterfaceClosed);
    assert_eq!(state, GatewayState::InterfaceUp);
    assert!(matches!(action, GatewayAction::Nothing));
}
