use epiphyte::config::Identifier;
use epiphyte::dispatch::{Action, Command, DispatchState, Dispatcher, Event};
use epiphyte::payload::{build_symbol_table, Export, Route};
use epiphyte::requests::MultiPayload;
use epiphyte::signature::RemoteProcSignature;

fn route(alias: &str, symbol: &str, address: u64, signature: RemoteProcSignature) -> Route {
    Route { alias: alias.to_string(), symbol: symbol.to_string(), address, signature }
}

fn command(identifier: &str, payload: Option<&str>) -> Event {
    Event::Received(Command {
        identifier: identifier.to_string(),
        payload: payload.map(|p| p.to_string()),
    })
}

#[test]
fn unregistered_identifier_is_discarded_and_stays_idle() {
    let mut d = Dispatcher::new(vec![route("greet", "greet", 0x401000, RemoteProcSignature::Text)]);
    let a = d.step(command("unknown_name", None));
    assert!(matches!(a, Action::Discard));
    assert_eq!(d.state(), DispatchState::Idle);
}

#[test]
fn unknown_route_request_leads_to_no_call() {
    let exports = vec![Export { symbol: "greet".to_string(), address: 0x401000 }];
    let ids = vec![Identifier {
        name: "greet".to_string(),
        symbol: "greet".to_string(),
        signature: RemoteProcSignature::Text,
    }];
    let table = build_symbol_table(&exports, &ids);
    let mut d = Dispatcher::new(table.routes());
    let payload = MultiPayload::from_body(&vec![]).unwrap();
    let cmd = Command::from_request("unknown_name".to_string(), payload);
    let mut calls = 0;
    for _ in 0..3 {
        if let Action::Invoke(_) = d.step(Event::Received(cmd.clone())) {
            calls += 1;
        }
    }
    assert_eq!(calls, 0);
    assert_eq!(d.state(), DispatchState::Idle);
}

#[test]
fn text_call_scenario_writes_argument_and_invokes_address() {
    let exports = vec![Export { symbol: "greet".to_string(), address: 0x401000 }];
    let ids = vec![Identifier {
        name: "greet".to_string(),
        symbol: "greet".to_string(),
        signature: RemoteProcSignature::from_tag("text").unwrap(),
    }];
    let table = build_symbol_table(&exports, &ids);
    let mut d = Dispatcher::new(table.routes());
    let payload = MultiPayload::from_body(&br#"{"message":"World"}"#.to_vec()).unwrap();
    let cmd = Command::from_request("greet".to_string(), payload);
    match d.step(Event::Received(cmd)) {
        Action::Invoke(inv) => {
            assert_eq!(inv.route, 0);
            assert_eq!(inv.address, 0x401000);
            assert_eq!(inv.signature, RemoteProcSignature::Text);
            assert_eq!(inv.argument.as_deref(), Some("World"));
        }
        other => panic!("expected a call, got {:?}", other),
    }
    assert_eq!(d.state(), DispatchState::Invoking);
    assert!(matches!(d.step(Event::CallFinished), Action::Wait));
    assert_eq!(d.state(), DispatchState::Idle);
}

#[test]
fn signal_call_drops_payload() {
    let mut d = Dispatcher::new(vec![route("ping", "ping", 0x10, RemoteProcSignature::Signal)]);
    match d.step(command("ping", Some("ignored"))) {
        Action::Invoke(inv) => {
            assert_eq!(inv.argument, None);
            assert_eq!(inv.address, 0x10);
        }
        other => panic!("expected a call, got {:?}", other),
    }
}

#[test]
fn lookup_is_by_alias_and_last_alias_wins() {
    let mut d = Dispatcher::new(vec![
        route("hello", "greet", 0x10, RemoteProcSignature::Text),
        route("hello", "greet2", 0x20, RemoteProcSignature::Blob),
    ]);
    assert!(matches!(d.step(command("greet", None)), Action::Discard));
    match d.step(command("hello", Some("x"))) {
        Action::Invoke(inv) => {
            assert_eq!(inv.route, 1);
            assert_eq!(inv.address, 0x20);
            assert_eq!(inv.argument.as_deref(), Some("x"));
        }
        other => panic!("expected a call, got {:?}", other),
    }
    assert_eq!(d.route(1).unwrap().symbol, "greet2");
    assert!(d.route(2).is_none());
}

#[test]
fn only_one_call_in_flight() {
    let mut d = Dispatcher::new(vec![route("ping", "ping", 0x10, RemoteProcSignature::Signal)]);
    assert!(matches!(d.step(command("ping", None)), Action::Invoke(_)));
    assert!(matches!(d.step(command("ping", None)), Action::Discard));
    assert_eq!(d.state(), DispatchState::Invoking);
}

#[test]
fn timeout_stops_only_after_host_finished() {
    let mut d = Dispatcher::new(vec![]);
    assert!(matches!(d.step(Event::Timeout { host_finished: false }), Action::Wait));
    assert_eq!(d.state(), DispatchState::Idle);
    assert!(matches!(d.step(Event::Timeout { host_finished: true }), Action::Stop));
    assert_eq!(d.state(), DispatchState::ShuttingDown);
    assert!(matches!(d.step(Event::Closed), Action::Wait));
    assert_eq!(d.state(), DispatchState::Terminated);
}

#[test]
fn closed_queue_stops() {
    let mut d = Dispatcher::new(vec![]);
    assert!(matches!(d.step(Event::Disconnected), Action::Stop));
    assert_eq!(d.state(), DispatchState::ShuttingDown);
}
