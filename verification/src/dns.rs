//! The DNS handler: how the server starts, which queries are answered, what
//! is looked up for them, and how the answer of the upstream resolver
//! becomes the response.
//!
//! Resolvers and sockets stay with the caller. The caller makes what
//! `create_resolvers` plans, in the order that `start_step` gives; for each
//! query it looks up what `QueryHandler::question` names and hands the
//! outcome to `QueryHandler::query_upstream`, which makes the response to
//! send.

use std::sync::Arc;
use vstd::prelude::*;
use vstd::slice::slice_to_vec;
use crate::setting::Setting;

verus! {

/// The record type of an IPv4 address record.
pub const RECORD_TYPE_A: u16 = 1;

/// The port on which a name server is asked.
pub const NAME_SERVER_PORT: u16 = 53;

/// The number of answers that a resolver keeps in its cache.
pub const CACHE_SIZE: usize = 1024;

/// Whether a message asks or answers.
#[derive(Clone, Copy, Debug, PartialEq, Eq, Structural)]
pub enum MessageType {
    Query,
    Response,
}

/// The kind of operation that a message is about.
#[derive(Clone, Copy, Debug, PartialEq, Eq, Structural)]
pub enum OpCode {
    Query,
    Status,
    Notify,
    Update,
}

/// What the handler reads and sets in the header of a message.
#[derive(Clone, Copy, Debug, PartialEq, Eq, Structural)]
pub struct Header {
    pub id: u16,
    pub message_type: MessageType,
    pub op_code: OpCode,
}

/// One question, as a mathematical value.
pub struct QuestionView {
    pub name: Seq<char>,
    pub record_type: u16,
    pub class: u16,
}

/// One question of a query: a name, a record type and a class.
#[derive(Debug)]
pub struct Question {
    pub name: String,
    pub record_type: u16,
    pub class: u16,
}

impl View for Question {
    type V = QuestionView;

    open spec fn view(&self) -> QuestionView {
        QuestionView { name: self.name@, record_type: self.record_type, class: self.class }
    }
}

/// One inbound message: its header and its questions.
#[derive(Debug)]
pub struct Request {
    pub header: Header,
    pub questions: Vec<Question>,
}

/// One resource record, as a mathematical value.
pub struct RecordView {
    pub record_type: u16,
    pub data: Seq<u8>,
}

/// One resource record: its type, and the whole record in wire format.
#[derive(Debug)]
pub struct Record {
    pub record_type: u16,
    pub data: Vec<u8>,
}

impl View for Record {
    type V = RecordView;

    open spec fn view(&self) -> RecordView {
        RecordView { record_type: self.record_type, data: self.data@ }
    }
}

/// The views of `records`, in the same order.
pub open spec fn record_views(records: Seq<Record>) -> Seq<RecordView> {
    records.map_values(|r: Record| r@)
}

/// The views of `questions`, in the same order.
pub open spec fn question_views(questions: Seq<Question>) -> Seq<QuestionView> {
    questions.map_values(|q: Question| q@)
}

/// One response, as a mathematical value.
pub struct ResponseView {
    pub header: Header,
    pub questions: Seq<QuestionView>,
    pub answers: Seq<RecordView>,
    pub name_servers: Seq<RecordView>,
    pub soa: Seq<RecordView>,
    pub additionals: Seq<RecordView>,
}

/// One outbound message: its header, the questions that it answers and
/// its four sections of records.
#[derive(Debug)]
pub struct Response {
    pub header: Header,
    pub questions: Vec<Question>,
    pub answers: Vec<Record>,
    pub name_servers: Vec<Record>,
    pub soa: Vec<Record>,
    pub additionals: Vec<Record>,
}

impl View for Response {
    type V = ResponseView;

    open spec fn view(&self) -> ResponseView {
        ResponseView {
            header: self.header,
            questions: question_views(self.questions@),
            answers: record_views(self.answers@),
            name_servers: record_views(self.name_servers@),
            soa: record_views(self.soa@),
            additionals: record_views(self.additionals@),
        }
    }
}

/// What went wrong, as a mathematical value.
pub enum Fault {
    InvalidHost(Seq<char>),
    ResolverConstruct,
    Lookup,
    ResponseSend,
}

/// What can go wrong in the DNS handler.
#[derive(Debug)]
pub enum DnsError {
    /// This entry of a host list is no IP address.
    InvalidHost(String),
    /// A resolver could not be made.
    ResolverConstruct,
    /// The lookup did not complete.
    Lookup,
    /// The response could not be sent.
    ResponseSend,
}

impl View for DnsError {
    type V = Fault;

    open spec fn view(&self) -> Fault {
        match self {
            DnsError::InvalidHost(text) => Fault::InvalidHost(text@),
            DnsError::ResolverConstruct => Fault::ResolverConstruct,
            DnsError::Lookup => Fault::Lookup,
            DnsError::ResponseSend => Fault::ResponseSend,
        }
    }
}

/// An IP address of either family, as its bytes in network order.
#[derive(Clone, Copy, Debug, PartialEq, Eq)]
pub enum IpAddress {
    V4([u8; 4]),
    V6([u8; 16]),
}

/// One entry of a host list, as a mathematical value.
pub struct HostView {
    pub text: Seq<char>,
    pub address: Option<IpAddress>,
}

/// One entry of a host list: the text from the settings and, where that text
/// is an IP address, the address.
#[derive(Debug)]
pub struct Host {
    pub text: String,
    pub address: Option<IpAddress>,
}

impl View for Host {
    type V = HostView;

    open spec fn view(&self) -> HostView {
        HostView { text: self.text@, address: self.address }
    }
}

/// The views of `hosts`, in the same order.
pub open spec fn host_views(hosts: Seq<Host>) -> Seq<HostView> {
    hosts.map_values(|h: Host| h@)
}

/// One server that a resolver asks.
#[derive(Clone, Copy, Debug, PartialEq, Eq)]
pub struct NameServer {
    pub address: IpAddress,
    pub port: u16,
}

/// What a resolver is made from, as a mathematical value.
pub struct PlanView {
    pub name_servers: Seq<NameServer>,
    pub cache_size: nat,
}

/// What a resolver is made from: the servers it asks, in order, and the size
/// of its cache.
#[derive(Debug)]
pub struct ResolverPlan {
    pub name_servers: Vec<NameServer>,
    pub cache_size: usize,
}

impl View for ResolverPlan {
    type V = PlanView;

    open spec fn view(&self) -> PlanView {
        PlanView { name_servers: self.name_servers@, cache_size: self.cache_size as nat }
    }
}

/// The index of the first of `hosts` that is no IP address, or their number
/// where each of them is one.
pub open spec fn first_invalid_host(hosts: Seq<HostView>) -> int
    decreases hosts.len(),
{
    if hosts.len() == 0 {
        0
    } else if first_invalid_host(hosts.drop_last()) < hosts.len() - 1 {
        first_invalid_host(hosts.drop_last())
    } else if hosts.last().address is None {
        hosts.len() - 1
    } else {
        hosts.len() as int
    }
}

/// The server behind a host that is an IP address.
pub open spec fn name_server(host: HostView) -> NameServer {
    NameServer { address: host.address->0, port: NAME_SERVER_PORT }
}

/// The plan of the resolver for `hosts`: one server for each host, in the
/// order of the hosts; or the first host that is no IP address.
pub open spec fn resolver_plan(hosts: Seq<HostView>) -> Result<PlanView, Fault> {
    if first_invalid_host(hosts) < hosts.len() {
        Err(Fault::InvalidHost(hosts[first_invalid_host(hosts)].text))
    } else {
        Ok(
            PlanView {
                name_servers: hosts.map_values(|h: HostView| name_server(h)),
                cache_size: CACHE_SIZE as nat,
            },
        )
    }
}

/// The view of the outcome of making a plan.
pub open spec fn plan_outcome(made: Result<ResolverPlan, DnsError>) -> Result<PlanView, Fault> {
    match made {
        Ok(plan) => Ok(plan@),
        Err(error) => Err(error@),
    }
}

/// The first invalid host among the first `k` of `hosts`, where there is
/// one, is the first invalid one among all of them.
proof fn lemma_first_invalid_host_prefix(hosts: Seq<HostView>, k: int)
    requires
        0 <= k <= hosts.len(),
        first_invalid_host(hosts.take(k)) < k,
    ensures
        first_invalid_host(hosts) == first_invalid_host(hosts.take(k)),
    decreases hosts.len(),
{
    if k < hosts.len() {
        assert(hosts.drop_last().take(k) =~= hosts.take(k));
        lemma_first_invalid_host_prefix(hosts.drop_last(), k);
    } else {
        assert(hosts.take(k) =~= hosts);
    }
}

/// Plans one resolver for the ordered list `hosts`. Every host has to be an
/// IP address; the first that is not is reported.
pub fn create_resolver(hosts: &Vec<Host>) -> (made: Result<ResolverPlan, DnsError>)
    ensures
        plan_outcome(made) == resolver_plan(host_views(hosts@)),
{
    let ghost all = host_views(hosts@);
    let n: usize = hosts.len();
    let mut name_servers: Vec<NameServer> = Vec::new();
    let mut i: usize = 0;
    while i < n
        invariant
            n == hosts@.len(),
            all == host_views(hosts@),
            i <= n,
            first_invalid_host(all.take(i as int)) == i,
            name_servers@ == all.take(i as int).map_values(|h: HostView| name_server(h)),
        decreases n - i,
    {
        proof {
            assert(all.take(i + 1).drop_last() =~= all.take(i as int));
            assert(all.take(i + 1).last() == hosts@[i as int]@);
        }
        match hosts[i].address {
            Some(address) => {
                name_servers.push(NameServer { address, port: NAME_SERVER_PORT });
                proof {
                    assert(name_servers@ =~= all.take(i + 1).map_values(
                        |h: HostView| name_server(h),
                    ));
                }
            },
            None => {
                proof {
                    lemma_first_invalid_host_prefix(all, i + 1);
                }
                return Err(DnsError::InvalidHost(hosts[i].text.clone()));
            },
        }
        i = i + 1;
    }
    proof {
        assert(all.take(n as int) =~= all);
    }
    Ok(ResolverPlan { name_servers, cache_size: CACHE_SIZE })
}

/// The plans of the two resolvers of a process.
#[derive(Debug)]
pub struct ResolverPlans {
    pub upstream: ResolverPlan,
    pub fallback: ResolverPlan,
}

/// What `create_resolvers` gives for the two host lists: the upstream plan
/// is made first; the first failure is the outcome.
pub open spec fn resolver_plans(upstream: Seq<HostView>, fallback: Seq<HostView>) -> Result<
    (PlanView, PlanView),
    Fault,
> {
    match resolver_plan(upstream) {
        Err(fault) => Err(fault),
        Ok(first) => match resolver_plan(fallback) {
            Err(fault) => Err(fault),
            Ok(second) => Ok((first, second)),
        },
    }
}

/// Plans the two resolvers of a process, the upstream one first. Where
/// either cannot be planned, neither is.
pub fn create_resolvers(upstream: &Vec<Host>, fallback: &Vec<Host>) -> (made: Result<
    ResolverPlans,
    DnsError,
>)
    ensures
        match made {
            Ok(plans) => resolver_plans(host_views(upstream@), host_views(fallback@)) == Ok::<
                (PlanView, PlanView),
                Fault,
            >((plans.upstream@, plans.fallback@)),
            Err(error) => resolver_plans(host_views(upstream@), host_views(fallback@)) == Err::<
                (PlanView, PlanView),
                Fault,
            >(error@),
        },
{
    match create_resolver(upstream) {
        Err(error) => Err(error),
        Ok(first) => match create_resolver(fallback) {
            Err(error) => Err(error),
            Ok(second) => Ok(ResolverPlans { upstream: first, fallback: second }),
        },
    }
}

/// Where the DNS server stands between its start and its end.
#[derive(Clone, Copy, Debug, PartialEq, Eq, Structural)]
pub enum ServerState {
    /// The upstream resolver is being made.
    MakingUpstream,
    /// The upstream resolver is there; the fallback resolver is being made.
    MakingFallback,
    /// Both resolvers are there; the socket is being bound.
    Binding,
    /// Queries are served.
    Serving,
    /// The server has ended.
    Stopped,
}

/// What has happened outside since the server was last asked.
#[derive(Clone, Copy, Debug, PartialEq, Eq, Structural)]
pub enum ServerEvent {
    /// The resolver that was being made is there.
    ResolverMade,
    /// The resolver that was being made could not be made.
    ResolverFailed,
    /// The socket is bound.
    SocketBound,
    /// The socket could not be bound.
    SocketFailed,
}

/// What the caller is to do next, as a mathematical value.
pub enum ServerOrder {
    MakeFallback,
    Bind,
    Serve,
    Abort(Fault),
    Exit(int),
    Nothing,
}

/// What the caller is to do next.
#[derive(Debug)]
pub enum ServerAction {
    /// Make the fallback resolver and report how that went.
    MakeFallback,
    /// Bind the socket and report how that went.
    Bind,
    /// Serve queries.
    Serve,
    /// End the start with this error: no resolver is used alone.
    Abort(DnsError),
    /// End the process with this exit status.
    Exit(i32),
    /// The event does not belong to the state; nothing is to be done.
    Nothing,
}

impl View for ServerAction {
    type V = ServerOrder;

    open spec fn view(&self) -> ServerOrder {
        match self {
            ServerAction::MakeFallback => ServerOrder::MakeFallback,
            ServerAction::Bind => ServerOrder::Bind,
            ServerAction::Serve => ServerOrder::Serve,
            ServerAction::Abort(error) => ServerOrder::Abort(error@),
            ServerAction::Exit(status) => ServerOrder::Exit(*status as int),
            ServerAction::Nothing => ServerOrder::Nothing,
        }
    }
}

/// The exit status of a process that could not bind its socket.
pub const EXIT_FAILURE: i32 = 1;

/// The state that follows `state` when `event` has happened: the upstream
/// resolver comes first, the fallback resolver second, the socket third,
/// and any failure on the way ends the server. An event that does not
/// belong to the state changes nothing.
pub open spec fn server_next(state: ServerState, event: ServerEvent) -> ServerState {
    match (state, event) {
        (ServerState::MakingUpstream, ServerEvent::ResolverMade) => ServerState::MakingFallback,
        (ServerState::MakingUpstream, ServerEvent::ResolverFailed) => ServerState::Stopped,
        (ServerState::MakingFallback, ServerEvent::ResolverMade) => ServerState::Binding,
        (ServerState::MakingFallback, ServerEvent::ResolverFailed) => ServerState::Stopped,
        (ServerState::Binding, ServerEvent::SocketBound) => ServerState::Serving,
        (ServerState::Binding, ServerEvent::SocketFailed) => ServerState::Stopped,
        _ => state,
    }
}

/// What is to be done in `state` when `event` has happened.
pub open spec fn server_order(state: ServerState, event: ServerEvent) -> ServerOrder {
    match (state, event) {
        (ServerState::MakingUpstream, ServerEvent::ResolverMade) => ServerOrder::MakeFallback,
        (ServerState::MakingUpstream, ServerEvent::ResolverFailed) => ServerOrder::Abort(
            Fault::ResolverConstruct,
        ),
        (ServerState::MakingFallback, ServerEvent::ResolverMade) => ServerOrder::Bind,
        (ServerState::MakingFallback, ServerEvent::ResolverFailed) => ServerOrder::Abort(
            Fault::ResolverConstruct,
        ),
        (ServerState::Binding, ServerEvent::SocketBound) => ServerOrder::Serve,
        (ServerState::Binding, ServerEvent::SocketFailed) => ServerOrder::Exit(EXIT_FAILURE as int),
        _ => ServerOrder::Nothing,
    }
}

/// Takes one event of the start in `state` and says which state follows and
/// what the caller is to do next. The caller starts in `MakingUpstream`,
/// makes the upstream resolver and reports how that went.
pub fn start_step(state: ServerState, event: ServerEvent) -> (next: (ServerState, ServerAction))
    ensures
        next.0 == server_next(state, event),
        next.1@ == server_order(state, event),
{
    match state {
        ServerState::MakingUpstream => match event {
            ServerEvent::ResolverMade => (ServerState::MakingFallback, ServerAction::MakeFallback),
            ServerEvent::ResolverFailed => (
                ServerState::Stopped,
                ServerAction::Abort(DnsError::ResolverConstruct),
            ),
            _ => (state, ServerAction::Nothing),
        },
        ServerState::MakingFallback => match event {
            ServerEvent::ResolverMade => (ServerState::Binding, ServerAction::Bind),
            ServerEvent::ResolverFailed => (
                ServerState::Stopped,
                ServerAction::Abort(DnsError::ResolverConstruct),
            ),
            _ => (state, ServerAction::Nothing),
        },
        ServerState::Binding => match event {
            ServerEvent::SocketBound => (ServerState::Serving, ServerAction::Serve),
            ServerEvent::SocketFailed => (ServerState::Stopped, ServerAction::Exit(EXIT_FAILURE)),
            _ => (state, ServerAction::Nothing),
        },
        _ => (state, ServerAction::Nothing),
    }
}

/// No server serves with one resolver only, or without its socket: serving
/// is reached from binding alone, binding from the making of the fallback
/// resolver alone, and that from the making of the upstream resolver alone;
/// and a server that has ended stays ended.
pub proof fn lemma_no_partial_start(state: ServerState, event: ServerEvent)
    ensures
        server_next(state, event) == ServerState::Serving && state != ServerState::Serving
            ==> state == ServerState::Binding && event == ServerEvent::SocketBound,
        server_next(state, event) == ServerState::Binding && state != ServerState::Binding
            ==> state == ServerState::MakingFallback && event == ServerEvent::ResolverMade,
        server_next(state, event) == ServerState::MakingFallback && state
            != ServerState::MakingFallback ==> state == ServerState::MakingUpstream && event
            == ServerEvent::ResolverMade,
        state == ServerState::Stopped ==> server_next(state, event) == ServerState::Stopped,
{
}

/// The port that the settings ask the DNS server to listen on, where it is
/// one.
pub fn listen_port(setting: &Setting) -> (port: Option<u16>)
    ensures
        port is Some <==> 0 <= setting.dns_port <= 0xffff,
        port matches Some(p) ==> p == setting.dns_port,
{
    if 0 <= setting.dns_port && setting.dns_port <= 0xffff {
        Some(setting.dns_port as u16)
    } else {
        None
    }
}

/// What the DNS server is started with: the settings and the plans of its
/// two resolvers.
#[derive(Debug)]
pub struct DnsServerOpt {
    pub setting: Arc<Setting>,
    pub resolvers: ResolverPlan,
    pub resolver_fallbacks: ResolverPlan,
}

/// What becomes of an inbound message.
#[derive(Clone, Copy, Debug, PartialEq, Eq, Structural)]
pub enum Dispatch {
    /// The message is handed to a `QueryHandler`.
    Resolve,
    /// The message is reported and not answered.
    Ignore,
}

/// Whether `header` is that of a standard query.
pub open spec fn standard_query(header: Header) -> bool {
    header.message_type == MessageType::Query && header.op_code == OpCode::Query
}

/// What becomes of `request`: a standard query with a question is resolved,
/// whatever the type of the record it asks for; anything else is not
/// answered.
pub open spec fn dispatch(request: Request) -> Dispatch {
    if standard_query(request.header) && request.questions@.len() > 0 {
        Dispatch::Resolve
    } else {
        Dispatch::Ignore
    }
}

/// The part of the DNS server that receives the inbound messages.
pub struct DnsServer {
    opt: Arc<DnsServerOpt>,
}

impl DnsServer {
    /// What the server was started with.
    pub closed spec fn spec_opt(&self) -> DnsServerOpt {
        *self.opt
    }

    /// A server started with `opt`.
    pub fn new(opt: Arc<DnsServerOpt>) -> (server: Self)
        ensures
            server.spec_opt() == *opt,
    {
        DnsServer { opt }
    }

    /// A handler for one query.
    pub fn handler(&self) -> (handler: QueryHandler)
        ensures
            handler.spec_opt() == self.spec_opt(),
    {
        QueryHandler::new(self.opt.clone())
    }

    /// Decides what becomes of `request`.
    pub fn handle_request(&self, request: &Request) -> (decision: Dispatch)
        ensures
            decision == dispatch(*request),
    {
        if request.header.message_type == MessageType::Query && request.header.op_code
            == OpCode::Query && request.questions.len() > 0 {
            Dispatch::Resolve
        } else {
            Dispatch::Ignore
        }
    }
}

/// Which of the two resolvers is asked.
#[derive(Clone, Copy, Debug, PartialEq, Eq, Structural)]
pub enum ResolverChoice {
    Upstream,
    Fallback,
}

/// What is looked up for a query, and where.
#[derive(Debug)]
pub struct LookupKey {
    pub resolver: ResolverChoice,
    pub name: String,
    pub record_type: u16,
}

/// How a lookup ended.
#[derive(Debug)]
pub enum LookupResult {
    /// The lookup completed with these records, in this order.
    Records(Vec<Record>),
    /// The lookup did not complete.
    Failed,
}

/// The header of the response to a request with the header `request`: the
/// transaction id and the operation are those of the request, and the
/// message is a response.
pub open spec fn response_header(request: Header) -> Header {
    Header { id: request.id, message_type: MessageType::Response, op_code: request.op_code }
}

/// The address records among `records`, in the order of `records`.
pub open spec fn address_records(records: Seq<RecordView>) -> Seq<RecordView>
    decreases records.len(),
{
    if records.len() == 0 {
        Seq::empty()
    } else if records.last().record_type == RECORD_TYPE_A {
        address_records(records.drop_last()).push(records.last())
    } else {
        address_records(records.drop_last())
    }
}

/// The response to a request with the header `request` and the questions
/// `questions` for which the resolver found `records`: the questions are
/// sent back as they came, the address records are the answer, and the
/// other three sections are empty.
pub open spec fn response_to(
    request: Header,
    questions: Seq<QuestionView>,
    records: Seq<RecordView>,
) -> ResponseView {
    ResponseView {
        header: response_header(request),
        questions: questions,
        answers: address_records(records),
        name_servers: Seq::empty(),
        soa: Seq::empty(),
        additionals: Seq::empty(),
    }
}

/// The header of the response to a request with the header `request`.
pub fn reply_header(request: &Header) -> (header: Header)
    ensures
        header == response_header(*request),
{
    Header { id: request.id, message_type: MessageType::Response, op_code: request.op_code }
}

/// The address records among `records`, in the order of `records`.
pub fn filter_answers(records: &Vec<Record>) -> (answers: Vec<Record>)
    ensures
        record_views(answers@) == address_records(record_views(records@)),
{
    let ghost all = record_views(records@);
    let n: usize = records.len();
    let mut answers: Vec<Record> = Vec::new();
    let mut i: usize = 0;
    while i < n
        invariant
            n == records@.len(),
            all == record_views(records@),
            i <= n,
            record_views(answers@) == address_records(all.take(i as int)),
        decreases n - i,
    {
        proof {
            assert(all.take(i + 1).drop_last() =~= all.take(i as int));
            assert(all.take(i + 1).last() == records@[i as int]@);
        }
        if records[i].record_type == RECORD_TYPE_A {
            let ghost kept = answers@;
            let record: Record = Record {
                record_type: records[i].record_type,
                data: slice_to_vec(records[i].data.as_slice()),
            };
            answers.push(record);
            proof {
                assert(record_views(answers@) =~= record_views(kept).push(records@[i as int]@));
            }
        }
        i = i + 1;
    }
    proof {
        assert(all.take(n as int) =~= all);
    }
    answers
}

/// A copy of `questions`.
fn copy_questions(questions: &Vec<Question>) -> (copy: Vec<Question>)
    ensures
        question_views(copy@) == question_views(questions@),
{
    let n: usize = questions.len();
    let mut copy: Vec<Question> = Vec::new();
    let mut i: usize = 0;
    while i < n
        invariant
            n == questions@.len(),
            i <= n,
            question_views(copy@) == question_views(questions@).take(i as int),
        decreases n - i,
    {
        let ghost copied = copy@;
        let question: Question = Question {
            name: questions[i].name.clone(),
            record_type: questions[i].record_type,
            class: questions[i].class,
        };
        copy.push(question);
        proof {
            assert(question_views(copy@) =~= question_views(copied).push(questions@[i as int]@));
            assert(question_views(questions@).take(i + 1) =~= question_views(questions@).take(
                i as int,
            ).push(questions@[i as int]@));
        }
        i = i + 1;
    }
    proof {
        assert(question_views(questions@).take(n as int) =~= question_views(questions@));
    }
    copy
}

/// The handler of one query.
pub struct QueryHandler {
    opt: Arc<DnsServerOpt>,
}

impl QueryHandler {
    /// What the server was started with.
    pub closed spec fn spec_opt(&self) -> DnsServerOpt {
        *self.opt
    }

    /// A handler in a server started with `opt`.
    pub fn new(opt: Arc<DnsServerOpt>) -> (handler: Self)
        ensures
            handler.spec_opt() == *opt,
    {
        QueryHandler { opt }
    }

    /// What is looked up for `request`: the name and the record type of its
    /// first question, at the upstream resolver. Further questions are
    /// passed over.
    pub fn question(&self, request: &Request) -> (key: LookupKey)
        requires
            request.questions@.len() > 0,
        ensures
            key.resolver == ResolverChoice::Upstream,
            key.name@ == request.questions@[0].name@,
            key.record_type == request.questions@[0].record_type,
    {
        LookupKey {
            resolver: ResolverChoice::Upstream,
            name: request.questions[0].name.clone(),
            record_type: request.questions[0].record_type,
        }
    }

    /// Makes the response to `request` from the outcome of the lookup. A
    /// lookup that did not complete gives no response.
    pub fn query_upstream(&self, request: &Request, looked_up: LookupResult) -> (made: Result<
        Response,
        DnsError,
    >)
        ensures
            match made {
                Ok(response) => looked_up matches LookupResult::Records(records) && response@
                    == response_to(
                    request.header,
                    question_views(request.questions@),
                    record_views(records@),
                ),
                Err(error) => looked_up is Failed && error@ == Fault::Lookup,
            },
    {
        match looked_up {
            LookupResult::Failed => Err(DnsError::Lookup),
            LookupResult::Records(records) => {
                let answers: Vec<Record> = filter_answers(&records);
                let name_servers: Vec<Record> = Vec::new();
                let soa: Vec<Record> = Vec::new();
                let additionals: Vec<Record> = Vec::new();
                let response: Response = Response {
                    header: reply_header(&request.header),
                    questions: copy_questions(&request.questions),
                    answers,
                    name_servers,
                    soa,
                    additionals,
                };
                proof {
                    assert(response@.name_servers =~= Seq::<RecordView>::empty());
                    assert(response@.soa =~= Seq::<RecordView>::empty());
                    assert(response@.additionals =~= Seq::<RecordView>::empty());
                }
                Ok(response)
            },
        }
    }

    /// Ends the handling of a query: a response that could not be sent is an
    /// error, and nothing is tried again.
    pub fn finish(&self, sent: bool) -> (ended: Result<(), DnsError>)
        ensures
            match ended {
                Ok(_) => sent,
                Err(error) => !sent && error@ == Fault::ResponseSend,
            },
    {
        if sent {
            Ok(())
        } else {
            Err(DnsError::ResponseSend)
        }
    }
}

/// The response carries the transaction id and the operation of the
/// request and is a response, and its sections other than the answer are
/// empty, whatever the questions were and whatever the resolver found.
pub proof fn lemma_response_echoes_header(
    request: Header,
    questions: Seq<QuestionView>,
    records: Seq<RecordView>,
)
    ensures
        response_to(request, questions, records).header.id == request.id,
        response_to(request, questions, records).header.op_code == request.op_code,
        response_to(request, questions, records).header.message_type == MessageType::Response,
        response_to(request, questions, records).questions == questions,
        response_to(request, questions, records).answers == address_records(records),
        response_to(request, questions, records).name_servers.len() == 0,
        response_to(request, questions, records).soa.len() == 0,
        response_to(request, questions, records).additionals.len() == 0,
{
}

/// Filtering goes record by record: the address records of two lists put
/// together are those of the first followed by those of the second. So the
/// records that are kept stay in the order in which they came.
pub proof fn lemma_address_records_concat(first: Seq<RecordView>, second: Seq<RecordView>)
    ensures
        address_records(first + second) == address_records(first) + address_records(second),
    decreases second.len(),
{
    if second.len() == 0 {
        assert(first + second =~= first);
        assert(address_records(first) + address_records(second) =~= address_records(first));
    } else {
        assert((first + second).drop_last() =~= first + second.drop_last());
        lemma_address_records_concat(first, second.drop_last());
        assert(address_records(first + second) =~= address_records(first) + address_records(
            second,
        ));
    }
}

/// An address record alone is kept, and any other record alone is dropped.
pub proof fn lemma_address_records_single(record: RecordView)
    ensures
        address_records(seq![record]) == if record.record_type == RECORD_TYPE_A {
            seq![record]
        } else {
            Seq::<RecordView>::empty()
        },
{
    reveal_with_fuel(address_records, 2);
    assert(seq![record].drop_last() =~= Seq::<RecordView>::empty());
    assert(address_records(seq![record]) =~= if record.record_type == RECORD_TYPE_A {
        seq![record]
    } else {
        Seq::<RecordView>::empty()
    });
}

/// Every record that is kept is an address record, and no more records are
/// kept than there were.
pub proof fn lemma_address_records_are_addresses(records: Seq<RecordView>)
    ensures
        address_records(records).len() <= records.len(),
        forall|i: int|
            0 <= i < address_records(records).len() ==> (#[trigger] address_records(
                records,
            )[i]).record_type == RECORD_TYPE_A,
    decreases records.len(),
{
    if records.len() > 0 {
        lemma_address_records_are_addresses(records.drop_last());
    }
}

} // verus!
