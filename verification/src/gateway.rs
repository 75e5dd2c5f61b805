//! The gateway of one virtual subnet: what it does with each packet that
//! reaches its interface, how the interface is set up, which static routes
//! are installed, and in which order all of this happens.

use std::sync::Arc;
use vstd::prelude::*;
use vstd::slice::{slice_subrange, slice_to_vec};
use vstd::string::StringExecFns;
use crate::ipv4::{
    header_len, Ipv4, Protocol, ICMP, ICMP_KIND_DESTINATION_UNREACHABLE, ICMP_KIND_ECHO,
    ICMP_KIND_ECHO_REPLY, UDP,
};
use crate::reply::{
    destination, echo_reply, is_probe, port_unreachable, source, swap_addresses,
    unreachable_reply, verdict, with_message_checksum, Verdict, ICMP_CODE_PORT_UNREACHABLE,
    PROBE_PORT_FLOOR, PROBE_TTL_LIMIT, REPLY_TTL,
};
use crate::route::{
    command_views, commands_for, first_only, route_commands, route_values, Platform,
    RouteCommand, RouteCommandView, RouteLatch,
};
use crate::setting::{texts, Setting};
use crate::subnet::{address_value, netmask_value, network_text, VirtualSubnet};
use crate::text::{dotted_quad, format_integer, signed_decimal};

verus! {

/// The size of the largest packet that the interface of a gateway carries.
pub const MTU: usize = 1400;

/// What a gateway does with one packet that it has read.
#[derive(Debug)]
pub enum PacketAction {
    /// Nothing is sent.
    Ignore,
    /// These bytes are sent out of the interface that the packet came from.
    Send(Vec<u8>),
    /// The packet cannot be taken apart. It is reported and passed over.
    Malformed,
}

impl View for PacketAction {
    type V = Verdict;

    open spec fn view(&self) -> Verdict {
        match self {
            PacketAction::Ignore => Verdict::Ignore,
            PacketAction::Send(bytes) => Verdict::Send(bytes@),
            PacketAction::Malformed => Verdict::Malformed,
        }
    }
}

/// The gateway of one virtual subnet.
pub struct Gateway {
    id: i32,
    net: VirtualSubnet,
    setting: Arc<Setting>,
}

impl Gateway {
    /// The number of the gateway, from which its interface is named.
    pub closed spec fn spec_id(&self) -> i32 {
        self.id
    }

    /// The network that the gateway owns.
    pub closed spec fn spec_net(&self) -> VirtualSubnet {
        self.net
    }

    /// The settings of the process.
    pub closed spec fn spec_setting(&self) -> Setting {
        *self.setting
    }

    /// A gateway with the number `id` for the network `net`.
    pub fn new(id: i32, net: VirtualSubnet, setting: Arc<Setting>) -> (gateway: Self)
        ensures
            gateway.spec_id() == id,
            gateway.spec_net() == net,
            gateway.spec_setting() == *setting,
    {
        Gateway { id, net, setting }
    }

    /// Answers an ICMP message in place: an echo request is turned into its
    /// reply, and source and destination address change places.
    pub fn handle_icmp(&self, packet: &mut Ipv4)
        requires
            old(packet).well_formed(),
            header_len(old(packet)@) + 4 <= old(packet)@.len(),
        ensures
            final(packet)@ == echo_reply(old(packet)@),
    {
        let ghost p = packet@;
        let ghost h = header_len(p);
        let mut message: ICMP = ICMP::new(slice_to_vec(packet.payload()));
        let src: [u8; 4] = packet.src();
        let dst: [u8; 4] = packet.dst();
        if message.kind() == ICMP_KIND_ECHO {
            message.set_kind(ICMP_KIND_ECHO_REPLY);
            message.update_checksum();
            packet.set_payload(message.packet());
            proof {
                assert(packet@ =~= p.take(h) + with_message_checksum(
                    p.skip(h).update(0, ICMP_KIND_ECHO_REPLY),
                ));
            }
        }
        let ghost answered = packet@;
        packet.set_src(dst);
        packet.set_dst(src);
        proof {
            assert(src@ =~= source(answered));
            assert(dst@ =~= destination(answered));
            assert(packet@ =~= swap_addresses(answered));
        }
    }

    /// Answers a UDP datagram: where it is a traceroute probe into the
    /// gateway's own network, with the packet that reports its port as
    /// unreachable; otherwise with nothing.
    pub fn handle_udp(&self, packet: &Ipv4) -> (reply: Option<Ipv4>)
        requires
            packet.well_formed(),
            header_len(packet@) + 8 <= packet@.len(),
        ensures
            reply is Some <==> is_probe(self.spec_net(), packet@),
            reply matches Some(r) ==> r@ == unreachable_reply(packet@),
    {
        let ghost p = packet@;
        let ghost h = header_len(p);
        let datagram: UDP = UDP::new(slice_to_vec(packet.payload()));
        let d_port: u16 = datagram.dst();
        let src: [u8; 4] = packet.src();
        let dst: [u8; 4] = packet.dst();
        let ttl: u8 = packet.ttl();
        proof {
            assert(dst@ =~= destination(p));
        }
        if ttl < PROBE_TTL_LIMIT && d_port >= PROBE_PORT_FLOOR && self.net.contains(dst) {
            let mut message: ICMP = ICMP::new(vec![0u8;8]);
            message.set_payload(packet.packet());
            message.set_kind(ICMP_KIND_DESTINATION_UNREACHABLE);
            message.set_code(ICMP_CODE_PORT_UNREACHABLE);
            let ghost body = message@;
            proof {
                assert(body =~= seq![
                    ICMP_KIND_DESTINATION_UNREACHABLE,
                    ICMP_CODE_PORT_UNREACHABLE,
                    0u8,
                    0u8,
                    0u8,
                    0u8,
                    0u8,
                    0u8,
                ] + p);
            }
            message.update_checksum();
            let head_len: usize = packet.head_len() as usize;
            let mut reply: Ipv4 = Ipv4::new(
                slice_to_vec(slice_subrange(packet.packet(), 0, head_len)),
            );
            reply.set_payload(message.packet());
            let ghost whole = reply@;
            proof {
                assert(whole =~= p.take(h) + port_unreachable(p));
            }
            reply.set_ttl(REPLY_TTL);
            reply.set_protocol(Protocol::ICMP);
            reply.set_total_length();
            let ghost addressed = reply@;
            reply.set_src(dst);
            reply.set_dst(src);
            proof {
                assert(src@ =~= source(addressed));
                assert(dst@ =~= destination(addressed));
                assert(reply@ =~= swap_addresses(addressed));
            }
            reply.update_checksum();
            Some(reply)
        } else {
            None
        }
    }
}

impl Gateway {
    /// Decides what to do with the bytes `data` read from the interface.
    pub fn handle_packet(&self, data: Vec<u8>) -> (action: PacketAction)
        ensures
            action@ == verdict(self.spec_net(), data@),
    {
        let mut packet: Ipv4 = Ipv4::new(data);
        if !packet.is_well_formed() {
            return PacketAction::Malformed;
        }
        let carried: usize = packet.payload().len();
        match packet.protocol() {
            Protocol::ICMP => {
                if carried < 4 {
                    PacketAction::Malformed
                } else {
                    self.handle_icmp(&mut packet);
                    PacketAction::Send(slice_to_vec(packet.packet()))
                }
            },
            Protocol::UDP => {
                if carried < 8 {
                    PacketAction::Malformed
                } else {
                    match self.handle_udp(&packet) {
                        Some(reply) => PacketAction::Send(slice_to_vec(reply.packet())),
                        None => PacketAction::Ignore,
                    }
                }
            },
            _ => PacketAction::Ignore,
        }
    }
}

/// What a virtual interface carries: frames of layer 2 or packets of
/// layer 3.
#[derive(Clone, Copy, Debug, PartialEq, Eq, Structural)]
pub enum Layer {
    L2,
    L3,
}

/// How the interface of a gateway is set up.
#[derive(Debug)]
pub struct InterfaceConfig {
    pub name: String,
    pub address: [u8; 4],
    pub netmask: [u8; 4],
    pub mtu: usize,
    pub layer: Layer,
    /// Whether the interface is brought up as soon as it is created.
    pub up: bool,
}

/// The name of the interface of the gateway with the number `id`.
pub open spec fn interface_name(id: i32) -> Seq<char> {
    "kungfu_"@ + signed_decimal(id as int)
}

impl Gateway {
    /// How the interface of this gateway is set up: it is named after the
    /// gateway's number, gets the address and the mask of its network,
    /// carries IP packets of at most `MTU` bytes and is brought up at once.
    pub fn interface(&self) -> (config: InterfaceConfig)
        ensures
            config.name@ == interface_name(self.spec_id()),
            config.address == self.spec_net().spec_addr(),
            address_value(config.netmask@) == netmask_value(self.spec_net().spec_prefix_len()),
            config.mtu == MTU,
            config.layer == Layer::L3,
            config.up,
    {
        let mut name: String = "kungfu_".to_owned();
        name.append(format_integer(self.id as i64).as_str());
        InterfaceConfig {
            name,
            address: self.net.addr(),
            netmask: self.net.netmask(),
            mtu: MTU,
            layer: Layer::L3,
            up: true,
        }
    }

    /// The commands that install the static routes of the settings: one for
    /// every value of every route rule, each through the address of this
    /// gateway.
    pub fn route_commands(&self, platform: Platform) -> (commands: Vec<RouteCommand>)
        ensures
            command_views(commands@) == commands_for(
                platform,
                route_values(self.spec_setting()@.rules),
                dotted_quad(self.spec_net().spec_addr()@),
            ),
    {
        route_commands(&self.setting.rules, self.net.addr(), platform)
    }

    /// The commands that this gateway has to run for the static routes: all
    /// of them where it is the first to come to `latch`, none where another
    /// came before. The latch is set on return, whatever becomes of the
    /// commands.
    pub fn apply_rules(&self, latch: &mut RouteLatch, platform: Platform) -> (commands: Vec<
        RouteCommand,
    >)
        ensures
            final(latch).spec_is_set(),
            command_views(commands@) == first_only(
                old(latch).spec_is_set(),
                commands_for(
                    platform,
                    route_values(self.spec_setting()@.rules),
                    dotted_quad(self.spec_net().spec_addr()@),
                ),
            ),
    {
        if latch.set() {
            self.route_commands(platform)
        } else {
            let commands: Vec<RouteCommand> = Vec::new();
            proof {
                assert(command_views(commands@) =~= Seq::<RouteCommandView>::empty());
            }
            commands
        }
    }
}

/// Why the gateways of a process could not be made.
#[derive(Debug)]
pub enum GatewayError {
    /// The network with this index in the settings is no IPv4 network.
    InvalidNetwork(usize),
    /// The settings name more networks than gateways can be numbered.
    TooManyNetworks,
}

/// The index of the first of `networks` that is no IPv4 network, or their
/// number where each of them is one.
pub open spec fn first_invalid_network(networks: Seq<Seq<char>>) -> int
    decreases networks.len(),
{
    if networks.len() == 0 {
        0
    } else if first_invalid_network(networks.drop_last()) < networks.len() - 1 {
        first_invalid_network(networks.drop_last())
    } else if network_text(networks.last()) is None {
        networks.len() - 1
    } else {
        networks.len() as int
    }
}

/// One gateway for each network of the settings, numbered from zero in the
/// order of the settings.
pub fn gateways(setting: &Arc<Setting>) -> (made: Result<Vec<Gateway>, GatewayError>)
    ensures
        match made {
            Ok(gateways) => {
                &&& setting.network@.len() <= i32::MAX
                &&& gateways@.len() == setting.network@.len()
                &&& forall|i: int|
                    0 <= i < gateways@.len() ==> {
                        &&& (#[trigger] gateways@[i]).spec_id() == i
                        &&& network_text(setting.network@[i]@) == Some(
                            (gateways@[i].spec_net().spec_addr(), gateways@[i].spec_net().spec_prefix_len()),
                        )
                        &&& gateways@[i].spec_setting() == **setting
                    }
            },
            Err(GatewayError::TooManyNetworks) => setting.network@.len() > i32::MAX,
            Err(GatewayError::InvalidNetwork(k)) => {
                &&& setting.network@.len() <= i32::MAX
                &&& k < setting.network@.len()
                &&& k == first_invalid_network(texts(setting.network@))
            },
        },
{
    let n: usize = setting.network.len();
    if n > 0x7fff_ffff {
        return Err(GatewayError::TooManyNetworks);
    }
    let ghost networks = texts(setting.network@);
    let mut gateways: Vec<Gateway> = Vec::new();
    let mut id: i32 = 0;
    let mut i: usize = 0;
    while i < n
        invariant
            n == setting.network@.len(),
            n <= i32::MAX,
            networks == texts(setting.network@),
            i <= n,
            id == i,
            gateways@.len() == i,
            first_invalid_network(networks.take(i as int)) == i,
            forall|k: int|
                0 <= k < i ==> {
                    &&& (#[trigger] gateways@[k]).spec_id() == k
                    &&& network_text(setting.network@[k]@) == Some(
                        (gateways@[k].spec_net().spec_addr(), gateways@[k].spec_net().spec_prefix_len()),
                    )
                    &&& gateways@[k].spec_setting() == **setting
                },
        decreases n - i,
    {
        proof {
            assert(networks.take(i + 1).drop_last() =~= networks.take(i as int));
            assert(networks.take(i + 1).last() == setting.network@[i as int]@);
        }
        match VirtualSubnet::parse(setting.network[i].as_str()) {
            Some(net) => {
                gateways.push(Gateway::new(id, net, setting.clone()));
            },
            None => {
                proof {
                    lemma_first_invalid_network_prefix(networks, i + 1);
                }
                return Err(GatewayError::InvalidNetwork(i));
            },
        }
        id = id + 1;
        i = i + 1;
    }
    proof {
        assert(networks.take(n as int) =~= networks);
    }
    Ok(gateways)
}

/// The first invalid network among the first `k` of `networks`, where there
/// is one, is the first invalid one among all of them.
proof fn lemma_first_invalid_network_prefix(networks: Seq<Seq<char>>, k: int)
    requires
        0 <= k <= networks.len(),
        first_invalid_network(networks.take(k)) < k,
    ensures
        first_invalid_network(networks) == first_invalid_network(networks.take(k)),
    decreases networks.len(),
{
    if k < networks.len() {
        assert(networks.drop_last().take(k) =~= networks.take(k));
        lemma_first_invalid_network_prefix(networks.drop_last(), k);
    } else {
        assert(networks.take(k) =~= networks);
    }
}

/// Where a gateway stands between its start and its end.
#[derive(Clone, Copy, Debug, PartialEq, Eq, Structural)]
pub enum GatewayState {
    /// Nothing is set up.
    Uninitialized,
    /// The interface is up; the static routes are still to be seen to.
    InterfaceUp,
    /// The static routes have been seen to; no packet has been read yet.
    RoutesApplied,
    /// Packets are read and answered.
    Serving,
    /// The gateway has ended.
    Stopped,
}

/// What has happened outside, as a mathematical value.
pub enum Occurrence {
    InterfaceCreated,
    InterfaceFailed,
    RoutesHandled,
    PacketRead(Seq<u8>),
    ReadFailed,
    InterfaceClosed,
}

/// What has happened outside since the gateway was last asked.
#[derive(Debug)]
pub enum GatewayEvent {
    /// The interface was created and is up.
    InterfaceCreated,
    /// The interface could not be created.
    InterfaceFailed,
    /// The static routes have been seen to: installed by this gateway, with
    /// or without failures, or left to the gateway that came first.
    RoutesHandled,
    /// These bytes were read from the interface.
    PacketRead(Vec<u8>),
    /// Reading from the interface failed this once.
    ReadFailed,
    /// The interface gives no more packets.
    InterfaceClosed,
}

impl View for GatewayEvent {
    type V = Occurrence;

    open spec fn view(&self) -> Occurrence {
        match self {
            GatewayEvent::InterfaceCreated => Occurrence::InterfaceCreated,
            GatewayEvent::InterfaceFailed => Occurrence::InterfaceFailed,
            GatewayEvent::RoutesHandled => Occurrence::RoutesHandled,
            GatewayEvent::PacketRead(bytes) => Occurrence::PacketRead(bytes@),
            GatewayEvent::ReadFailed => Occurrence::ReadFailed,
            GatewayEvent::InterfaceClosed => Occurrence::InterfaceClosed,
        }
    }
}

/// What is to be done outside, as a mathematical value.
pub enum Order {
    ApplyRoutes,
    Read,
    SendAndRead(Seq<u8>),
    ReportMalformedAndRead,
    ReportReadErrorAndRead,
    GiveUp,
    Stop,
    Nothing,
}

/// What the caller is to do next.
#[derive(Debug)]
pub enum GatewayAction {
    /// See to the static routes, then report `RoutesHandled`.
    ApplyRoutes,
    /// Read the next packet.
    Read,
    /// Send these bytes out of the interface, then read the next packet.
    SendAndRead(Vec<u8>),
    /// Report that a packet could not be taken apart, then read the next.
    ReportMalformedAndRead,
    /// Report that reading failed, then read the next packet.
    ReportReadErrorAndRead,
    /// End the process: without its interface the gateway cannot run.
    GiveUp,
    /// End this gateway.
    Stop,
    /// The event does not belong to the state; nothing is to be done.
    Nothing,
}

impl View for GatewayAction {
    type V = Order;

    open spec fn view(&self) -> Order {
        match self {
            GatewayAction::ApplyRoutes => Order::ApplyRoutes,
            GatewayAction::Read => Order::Read,
            GatewayAction::SendAndRead(bytes) => Order::SendAndRead(bytes@),
            GatewayAction::ReportMalformedAndRead => Order::ReportMalformedAndRead,
            GatewayAction::ReportReadErrorAndRead => Order::ReportReadErrorAndRead,
            GatewayAction::GiveUp => Order::GiveUp,
            GatewayAction::Stop => Order::Stop,
            GatewayAction::Nothing => Order::Nothing,
        }
    }
}

/// Whether packets are read in `state`.
pub open spec fn reading(state: GatewayState) -> bool {
    state == GatewayState::RoutesApplied || state == GatewayState::Serving
}

/// The state that follows `state` when `event` has happened. The interface
/// comes first, the routes second, and from then on packets are served
/// until the interface closes. An event that does not belong to the state
/// changes nothing.
pub open spec fn next_state(state: GatewayState, event: Occurrence) -> GatewayState {
    match (state, event) {
        (GatewayState::Uninitialized, Occurrence::InterfaceCreated) => GatewayState::InterfaceUp,
        (GatewayState::Uninitialized, Occurrence::InterfaceFailed) => GatewayState::Stopped,
        (GatewayState::InterfaceUp, Occurrence::RoutesHandled) => GatewayState::RoutesApplied,
        (_, Occurrence::PacketRead(_)) => if reading(state) {
            GatewayState::Serving
        } else {
            state
        },
        (_, Occurrence::ReadFailed) => if reading(state) {
            GatewayState::Serving
        } else {
            state
        },
        (_, Occurrence::InterfaceClosed) => if reading(state) {
            GatewayState::Stopped
        } else {
            state
        },
        _ => state,
    }
}

/// What the gateway of the network `net` orders in `state` when `event` has
/// happened.
pub open spec fn order(net: VirtualSubnet, state: GatewayState, event: Occurrence) -> Order {
    match (state, event) {
        (GatewayState::Uninitialized, Occurrence::InterfaceCreated) => Order::ApplyRoutes,
        (GatewayState::Uninitialized, Occurrence::InterfaceFailed) => Order::GiveUp,
        (GatewayState::InterfaceUp, Occurrence::RoutesHandled) => Order::Read,
        (_, Occurrence::PacketRead(bytes)) => if reading(state) {
            match verdict(net, bytes) {
                Verdict::Send(reply) => Order::SendAndRead(reply),
                Verdict::Ignore => Order::Read,
                Verdict::Malformed => Order::ReportMalformedAndRead,
            }
        } else {
            Order::Nothing
        },
        (_, Occurrence::ReadFailed) => if reading(state) {
            Order::ReportReadErrorAndRead
        } else {
            Order::Nothing
        },
        (_, Occurrence::InterfaceClosed) => if reading(state) {
            Order::Stop
        } else {
            Order::Nothing
        },
        _ => Order::Nothing,
    }
}

impl Gateway {
    /// Takes one event in `state` and says which state follows and what the
    /// caller is to do next. The caller starts in `Uninitialized`, creates
    /// the interface that `interface` describes and reports how that went.
    pub fn step(&self, state: GatewayState, event: GatewayEvent) -> (next: (
        GatewayState,
        GatewayAction,
    ))
        ensures
            next.0 == next_state(state, event@),
            next.1@ == order(self.spec_net(), state, event@),
    {
        let reading: bool = match state {
            GatewayState::RoutesApplied => true,
            GatewayState::Serving => true,
            _ => false,
        };
        match event {
            GatewayEvent::InterfaceCreated => match state {
                GatewayState::Uninitialized => (
                    GatewayState::InterfaceUp,
                    GatewayAction::ApplyRoutes,
                ),
                _ => (state, GatewayAction::Nothing),
            },
            GatewayEvent::InterfaceFailed => match state {
                GatewayState::Uninitialized => (GatewayState::Stopped, GatewayAction::GiveUp),
                _ => (state, GatewayAction::Nothing),
            },
            GatewayEvent::RoutesHandled => match state {
                GatewayState::InterfaceUp => (GatewayState::RoutesApplied, GatewayAction::Read),
                _ => (state, GatewayAction::Nothing),
            },
            GatewayEvent::PacketRead(bytes) => {
                if reading {
                    match self.handle_packet(bytes) {
                        PacketAction::Send(reply) => (
                            GatewayState::Serving,
                            GatewayAction::SendAndRead(reply),
                        ),
                        PacketAction::Ignore => (GatewayState::Serving, GatewayAction::Read),
                        PacketAction::Malformed => (
                            GatewayState::Serving,
                            GatewayAction::ReportMalformedAndRead,
                        ),
                    }
                } else {
                    (state, GatewayAction::Nothing)
                }
            },
            GatewayEvent::ReadFailed => {
                if reading {
                    (GatewayState::Serving, GatewayAction::ReportReadErrorAndRead)
                } else {
                    (state, GatewayAction::Nothing)
                }
            },
            GatewayEvent::InterfaceClosed => {
                if reading {
                    (GatewayState::Stopped, GatewayAction::Stop)
                } else {
                    (state, GatewayAction::Nothing)
                }
            },
        }
    }
}

/// A gateway that serves keeps serving whatever it reads: neither a packet,
/// well formed or not, nor a failed read ends it. Only the closing of the
/// interface does.
pub proof fn lemma_serving_goes_on(state: GatewayState, event: Occurrence)
    requires
        reading(state),
    ensures
        event is InterfaceClosed ==> next_state(state, event) == GatewayState::Stopped,
        event is PacketRead || event is ReadFailed ==> next_state(state, event)
            == GatewayState::Serving,
        !(event is InterfaceClosed || event is PacketRead || event is ReadFailed) ==> next_state(
            state,
            event,
        ) == state,
{
}

/// The states come in one order: packets are read only after the routes
/// have been seen to, and those only after the interface is up.
pub proof fn lemma_order_of_states(state: GatewayState, event: Occurrence)
    ensures
        next_state(state, event) == GatewayState::InterfaceUp && state
            != GatewayState::InterfaceUp ==> state == GatewayState::Uninitialized,
        next_state(state, event) == GatewayState::RoutesApplied && state
            != GatewayState::RoutesApplied ==> state == GatewayState::InterfaceUp,
        next_state(state, event) == GatewayState::Serving ==> reading(state),
        state == GatewayState::Stopped ==> next_state(state, event) == GatewayState::Stopped,
{
}

} // verus!
