//! The tasks of the efficiency benchmark: for each question, the files,
//! symbols, kinds, facts and tags a good answer draws on.
use vstd::prelude::*;

use crate::bench::modes::EfficiencyTask;
use crate::bench::SourceKind;
use crate::text::{strings_view, Lines};

verus! {

broadcast use vstd::string::group_string_axioms;

/// A task as plain values.
pub struct TaskView {
    pub id: Seq<char>,
    pub question: Seq<char>,
    pub expected_files: Lines,
    pub expected_symbols: Lines,
    pub expected_source_kinds: Seq<SourceKind>,
    pub expected_facts: Lines,
    pub required_coverage_tags: Lines,
}

pub open spec fn task_view(t: EfficiencyTask) -> TaskView {
    TaskView {
        id: t.id@,
        question: t.question@,
        expected_files: strings_view(t.expected_files@),
        expected_symbols: strings_view(t.expected_symbols@),
        expected_source_kinds: t.expected_source_kinds@,
        expected_facts: strings_view(t.expected_facts@),
        required_coverage_tags: strings_view(t.required_coverage_tags@),
    }
}

/// The views of some string slices.
pub open spec fn strs_view(items: Seq<&str>) -> Lines {
    items.map_values(|s: &str| s@)
}

/// Owned copies of string slices.
fn owned(items: &[&str]) -> (r: Vec<String>)
    ensures
        strings_view(r@) == strs_view(items@),
{
    let mut out: Vec<String> = Vec::new();
    let mut i: usize = 0;
    while i < items.len()
        invariant
            i <= items.len(),
            strings_view(out@) == strs_view(items@).take(i as int),
        decreases items.len() - i,
    {
        let ghost before = strings_view(out@);
        out.push(items[i].to_owned());
        i += 1;
        assert(strings_view(out@) =~= before.push(items@[i - 1]@));
        assert(strs_view(items@).take(i as int) =~= strs_view(items@).take(i - 1).push(items@[i - 1]@));
    }
    assert(strs_view(items@).take(i as int) =~= strs_view(items@));
    out
}

/// Copies kinds into a vector.
fn kinds(items: &[SourceKind]) -> (r: Vec<SourceKind>)
    ensures
        r@ == items@,
{
    let mut out: Vec<SourceKind> = Vec::new();
    let mut i: usize = 0;
    while i < items.len()
        invariant
            i <= items.len(),
            out@ == items@.take(i as int),
        decreases items.len() - i,
    {
        out.push(items[i]);
        i += 1;
        assert(out@ =~= items@.take(i as int));
    }
    assert(items@.take(i as int) =~= items@);
    out
}

/// A task built from its parts.
fn task(
    id: &str,
    question: &str,
    files: &[&str],
    symbols: &[&str],
    source_kinds: &[SourceKind],
    facts: &[&str],
    tags: &[&str],
) -> (r: EfficiencyTask)
    ensures
        task_view(r) == (TaskView {
            id: id@,
            question: question@,
            expected_files: strs_view(files@),
            expected_symbols: strs_view(symbols@),
            expected_source_kinds: source_kinds@,
            expected_facts: strs_view(facts@),
            required_coverage_tags: strs_view(tags@),
        }),
{
    EfficiencyTask {
        id: id.to_owned(),
        question: question.to_owned(),
        expected_files: owned(files),
        expected_symbols: owned(symbols),
        expected_source_kinds: kinds(source_kinds),
        expected_facts: owned(facts),
        required_coverage_tags: owned(tags),
    }
}

/// The task `order_creation_flow`.
pub open spec fn order_creation_flow_task() -> TaskView {
    TaskView {
        id: "order_creation_flow"@,
        question: "find order creation flow"@,
        expected_files: seq!["rust/orders.rs"@, "next/app/api/orders/route.ts"@],
        expected_symbols: seq!["create_order"@, "POST"@],
        expected_source_kinds: seq![SourceKind::SymbolChunk, SourceKind::RouteChunk],
        expected_facts: seq!["order"@, "create"@],
        required_coverage_tags: seq!["order"@, "route"@],
    }
}

fn make_order_creation_flow() -> (r: EfficiencyTask)
    ensures
        task_view(r) == order_creation_flow_task(),
{
    let files = ["rust/orders.rs", "next/app/api/orders/route.ts"];
    let symbols = ["create_order", "POST"];
    let source_kinds = [SourceKind::SymbolChunk, SourceKind::RouteChunk];
    let facts = ["order", "create"];
    let tags = ["order", "route"];
    let r = task("order_creation_flow", "find order creation flow", &files, &symbols, &source_kinds, &facts, &tags);
    assert(strs_view(files@) =~= seq!["rust/orders.rs"@, "next/app/api/orders/route.ts"@]);
    assert(strs_view(symbols@) =~= seq!["create_order"@, "POST"@]);
    assert(source_kinds@ =~= seq![SourceKind::SymbolChunk, SourceKind::RouteChunk]);
    assert(strs_view(facts@) =~= seq!["order"@, "create"@]);
    assert(strs_view(tags@) =~= seq!["order"@, "route"@]);
    r
}

/// The task `user_create_route`.
pub open spec fn user_create_route_task() -> TaskView {
    TaskView {
        id: "user_create_route"@,
        question: "find API route that creates users"@,
        expected_files: seq!["web/users.controller.ts"@],
        expected_symbols: seq!["createUser"@],
        expected_source_kinds: seq![SourceKind::RouteChunk],
        expected_facts: seq!["users"@, "create"@],
        required_coverage_tags: seq!["api"@, "user"@],
    }
}

fn make_user_create_route() -> (r: EfficiencyTask)
    ensures
        task_view(r) == user_create_route_task(),
{
    let files = ["web/users.controller.ts"];
    let symbols = ["createUser"];
    let source_kinds = [SourceKind::RouteChunk];
    let facts = ["users", "create"];
    let tags = ["api", "user"];
    let r = task("user_create_route", "find API route that creates users", &files, &symbols, &source_kinds, &facts, &tags);
    assert(strs_view(files@) =~= seq!["web/users.controller.ts"@]);
    assert(strs_view(symbols@) =~= seq!["createUser"@]);
    assert(source_kinds@ =~= seq![SourceKind::RouteChunk]);
    assert(strs_view(facts@) =~= seq!["users"@, "create"@]);
    assert(strs_view(tags@) =~= seq!["api"@, "user"@]);
    r
}

/// The task `payment_created_producer`.
pub open spec fn payment_created_producer_task() -> TaskView {
    TaskView {
        id: "payment_created_producer"@,
        question: "find payment.created producer"@,
        expected_files: seq!["messaging/payments.ts"@],
        expected_symbols: seq!["publishPaymentCreated"@],
        expected_source_kinds: seq![SourceKind::MessagingChunk],
        expected_facts: seq!["payment.created"@],
        required_coverage_tags: seq!["messaging"@, "producer"@],
    }
}

fn make_payment_created_producer() -> (r: EfficiencyTask)
    ensures
        task_view(r) == payment_created_producer_task(),
{
    let files = ["messaging/payments.ts"];
    let symbols = ["publishPaymentCreated"];
    let source_kinds = [SourceKind::MessagingChunk];
    let facts = ["payment.created"];
    let tags = ["messaging", "producer"];
    let r = task("payment_created_producer", "find payment.created producer", &files, &symbols, &source_kinds, &facts, &tags);
    assert(strs_view(files@) =~= seq!["messaging/payments.ts"@]);
    assert(strs_view(symbols@) =~= seq!["publishPaymentCreated"@]);
    assert(source_kinds@ =~= seq![SourceKind::MessagingChunk]);
    assert(strs_view(facts@) =~= seq!["payment.created"@]);
    assert(strs_view(tags@) =~= seq!["messaging"@, "producer"@]);
    r
}

/// The task `order_created_consumer`.
pub open spec fn order_created_consumer_task() -> TaskView {
    TaskView {
        id: "order_created_consumer"@,
        question: "find order.created consumer"@,
        expected_files: seq!["messaging/payments.ts"@],
        expected_symbols: seq!["consumeOrderCreated"@],
        expected_source_kinds: seq![SourceKind::MessagingChunk],
        expected_facts: seq!["order.created"@],
        required_coverage_tags: seq!["messaging"@, "consumer"@],
    }
}

fn make_order_created_consumer() -> (r: EfficiencyTask)
    ensures
        task_view(r) == order_created_consumer_task(),
{
    let files = ["messaging/payments.ts"];
    let symbols = ["consumeOrderCreated"];
    let source_kinds = [SourceKind::MessagingChunk];
    let facts = ["order.created"];
    let tags = ["messaging", "consumer"];
    let r = task("order_created_consumer", "find order.created consumer", &files, &symbols, &source_kinds, &facts, &tags);
    assert(strs_view(files@) =~= seq!["messaging/payments.ts"@]);
    assert(strs_view(symbols@) =~= seq!["consumeOrderCreated"@]);
    assert(source_kinds@ =~= seq![SourceKind::MessagingChunk]);
    assert(strs_view(facts@) =~= seq!["order.created"@]);
    assert(strs_view(tags@) =~= seq!["messaging"@, "consumer"@]);
    r
}

/// The task `wpf_save_command`.
pub open spec fn wpf_save_command_task() -> TaskView {
    TaskView {
        id: "wpf_save_command"@,
        question: "find WPF SaveCommand binding"@,
        expected_files: seq!["wpf/MainWindow.xaml"@],
        expected_symbols: Seq::<Seq<char>>::empty(),
        expected_source_kinds: seq![SourceKind::WpfChunk],
        expected_facts: seq!["SaveCommand"@],
        required_coverage_tags: seq!["wpf"@, "binding"@],
    }
}

fn make_wpf_save_command() -> (r: EfficiencyTask)
    ensures
        task_view(r) == wpf_save_command_task(),
{
    let files = ["wpf/MainWindow.xaml"];
    let symbols: [&str; 0] = [];
    let source_kinds = [SourceKind::WpfChunk];
    let facts = ["SaveCommand"];
    let tags = ["wpf", "binding"];
    let r = task("wpf_save_command", "find WPF SaveCommand binding", &files, &symbols, &source_kinds, &facts, &tags);
    assert(strs_view(files@) =~= seq!["wpf/MainWindow.xaml"@]);
    assert(strs_view(symbols@) =~= Seq::<Seq<char>>::empty());
    assert(source_kinds@ =~= seq![SourceKind::WpfChunk]);
    assert(strs_view(facts@) =~= seq!["SaveCommand"@]);
    assert(strs_view(tags@) =~= seq!["wpf"@, "binding"@]);
    r
}

/// The task `kubernetes_api_deployment`.
pub open spec fn kubernetes_api_deployment_task() -> TaskView {
    TaskView {
        id: "kubernetes_api_deployment"@,
        question: "find Kubernetes deployment for api"@,
        expected_files: seq!["infra/deployment.yaml"@],
        expected_symbols: Seq::<Seq<char>>::empty(),
        expected_source_kinds: seq![SourceKind::InfrastructureChunk],
        expected_facts: seq!["Deployment"@, "api"@],
        required_coverage_tags: seq!["kubernetes"@, "deployment"@],
    }
}

fn make_kubernetes_api_deployment() -> (r: EfficiencyTask)
    ensures
        task_view(r) == kubernetes_api_deployment_task(),
{
    let files = ["infra/deployment.yaml"];
    let symbols: [&str; 0] = [];
    let source_kinds = [SourceKind::InfrastructureChunk];
    let facts = ["Deployment", "api"];
    let tags = ["kubernetes", "deployment"];
    let r = task("kubernetes_api_deployment", "find Kubernetes deployment for api", &files, &symbols, &source_kinds, &facts, &tags);
    assert(strs_view(files@) =~= seq!["infra/deployment.yaml"@]);
    assert(strs_view(symbols@) =~= Seq::<Seq<char>>::empty());
    assert(source_kinds@ =~= seq![SourceKind::InfrastructureChunk]);
    assert(strs_view(facts@) =~= seq!["Deployment"@, "api"@]);
    assert(strs_view(tags@) =~= seq!["kubernetes"@, "deployment"@]);
    r
}

/// The task `users_database_query`.
pub open spec fn users_database_query_task() -> TaskView {
    TaskView {
        id: "users_database_query"@,
        question: "find database query for users"@,
        expected_files: seq!["dotnet/UserRepository.cs"@],
        expected_symbols: seq!["FindUserByEmail"@],
        expected_source_kinds: seq![SourceKind::DataAccessChunk],
        expected_facts: seq!["SELECT"@, "Users"@],
        required_coverage_tags: seq!["database"@, "users"@],
    }
}

fn make_users_database_query() -> (r: EfficiencyTask)
    ensures
        task_view(r) == users_database_query_task(),
{
    let files = ["dotnet/UserRepository.cs"];
    let symbols = ["FindUserByEmail"];
    let source_kinds = [SourceKind::DataAccessChunk];
    let facts = ["SELECT", "Users"];
    let tags = ["database", "users"];
    let r = task("users_database_query", "find database query for users", &files, &symbols, &source_kinds, &facts, &tags);
    assert(strs_view(files@) =~= seq!["dotnet/UserRepository.cs"@]);
    assert(strs_view(symbols@) =~= seq!["FindUserByEmail"@]);
    assert(source_kinds@ =~= seq![SourceKind::DataAccessChunk]);
    assert(strs_view(facts@) =~= seq!["SELECT"@, "Users"@]);
    assert(strs_view(tags@) =~= seq!["database"@, "users"@]);
    r
}

/// The task `websocket_notification`.
pub open spec fn websocket_notification_task() -> TaskView {
    TaskView {
        id: "websocket_notification"@,
        question: "find websocket/signalr notification"@,
        expected_files: seq!["realtime/notifications.ts"@],
        expected_symbols: seq!["sendWebSocketNotification"@],
        expected_source_kinds: seq![SourceKind::RealtimeChunk],
        expected_facts: seq!["send"@, "notification"@],
        required_coverage_tags: seq!["realtime"@, "notification"@],
    }
}

fn make_websocket_notification() -> (r: EfficiencyTask)
    ensures
        task_view(r) == websocket_notification_task(),
{
    let files = ["realtime/notifications.ts"];
    let symbols = ["sendWebSocketNotification"];
    let source_kinds = [SourceKind::RealtimeChunk];
    let facts = ["send", "notification"];
    let tags = ["realtime", "notification"];
    let r = task("websocket_notification", "find websocket/signalr notification", &files, &symbols, &source_kinds, &facts, &tags);
    assert(strs_view(files@) =~= seq!["realtime/notifications.ts"@]);
    assert(strs_view(symbols@) =~= seq!["sendWebSocketNotification"@]);
    assert(source_kinds@ =~= seq![SourceKind::RealtimeChunk]);
    assert(strs_view(facts@) =~= seq!["send"@, "notification"@]);
    assert(strs_view(tags@) =~= seq!["realtime"@, "notification"@]);
    r
}

/// The task `go_health_endpoint`.
pub open spec fn go_health_endpoint_task() -> TaskView {
    TaskView {
        id: "go_health_endpoint"@,
        question: "find Go health endpoint"@,
        expected_files: seq!["go/main.go"@],
        expected_symbols: seq!["healthHandler"@],
        expected_source_kinds: seq![SourceKind::GoChunk],
        expected_facts: seq!["health"@, "http"@],
        required_coverage_tags: seq!["go"@, "endpoint"@],
    }
}

fn make_go_health_endpoint() -> (r: EfficiencyTask)
    ensures
        task_view(r) == go_health_endpoint_task(),
{
    let files = ["go/main.go"];
    let symbols = ["healthHandler"];
    let source_kinds = [SourceKind::GoChunk];
    let facts = ["health", "http"];
    let tags = ["go", "endpoint"];
    let r = task("go_health_endpoint", "find Go health endpoint", &files, &symbols, &source_kinds, &facts, &tags);
    assert(strs_view(files@) =~= seq!["go/main.go"@]);
    assert(strs_view(symbols@) =~= seq!["healthHandler"@]);
    assert(source_kinds@ =~= seq![SourceKind::GoChunk]);
    assert(strs_view(facts@) =~= seq!["health"@, "http"@]);
    assert(strs_view(tags@) =~= seq!["go"@, "endpoint"@]);
    r
}

/// The task `group_summary`.
pub open spec fn group_summary_task() -> TaskView {
    TaskView {
        id: "group_summary"@,
        question: "summarize local group metadata readiness"@,
        expected_files: seq!["web/users.controller.ts"@, "messaging/payments.ts"@, "infra/deployment.yaml"@],
        expected_symbols: seq!["createUser"@, "publishPaymentCreated"@],
        expected_source_kinds: seq![SourceKind::RouteChunk, SourceKind::MessagingChunk, SourceKind::InfrastructureChunk],
        expected_facts: seq!["route"@, "messaging"@, "deployment"@],
        required_coverage_tags: seq!["group"@, "summary"@],
    }
}

fn make_group_summary() -> (r: EfficiencyTask)
    ensures
        task_view(r) == group_summary_task(),
{
    let files = ["web/users.controller.ts", "messaging/payments.ts", "infra/deployment.yaml"];
    let symbols = ["createUser", "publishPaymentCreated"];
    let source_kinds = [SourceKind::RouteChunk, SourceKind::MessagingChunk, SourceKind::InfrastructureChunk];
    let facts = ["route", "messaging", "deployment"];
    let tags = ["group", "summary"];
    let r = task("group_summary", "summarize local group metadata readiness", &files, &symbols, &source_kinds, &facts, &tags);
    assert(strs_view(files@) =~= seq!["web/users.controller.ts"@, "messaging/payments.ts"@, "infra/deployment.yaml"@]);
    assert(strs_view(symbols@) =~= seq!["createUser"@, "publishPaymentCreated"@]);
    assert(source_kinds@ =~= seq![SourceKind::RouteChunk, SourceKind::MessagingChunk, SourceKind::InfrastructureChunk]);
    assert(strs_view(facts@) =~= seq!["route"@, "messaging"@, "deployment"@]);
    assert(strs_view(tags@) =~= seq!["group"@, "summary"@]);
    r
}

/// The tasks of the efficiency benchmark, in order.
pub open spec fn efficiency_task_table() -> Seq<TaskView> {
    seq![
        order_creation_flow_task(),
        user_create_route_task(),
        payment_created_producer_task(),
        order_created_consumer_task(),
        wpf_save_command_task(),
        kubernetes_api_deployment_task(),
        users_database_query_task(),
        websocket_notification_task(),
        go_health_endpoint_task(),
        group_summary_task(),
    ]
}

/// The tasks of the efficiency benchmark.
pub fn efficiency_tasks() -> (r: Vec<EfficiencyTask>)
    ensures
        r@.map_values(|t: EfficiencyTask| task_view(t)) == efficiency_task_table(),
{
    let mut r: Vec<EfficiencyTask> = Vec::new();
    r.push(make_order_creation_flow());
    r.push(make_user_create_route());
    r.push(make_payment_created_producer());
    r.push(make_order_created_consumer());
    r.push(make_wpf_save_command());
    r.push(make_kubernetes_api_deployment());
    r.push(make_users_database_query());
    r.push(make_websocket_notification());
    r.push(make_go_health_endpoint());
    r.push(make_group_summary());
    assert(r@.map_values(|t: EfficiencyTask| task_view(t)) =~= efficiency_task_table());
    r
}

} // verus!
