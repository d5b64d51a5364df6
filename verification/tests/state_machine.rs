use idkg::state_api::{
    dup_op_out, HasStateLabel, InstanceState, OpId, OpOut, PocketIc, PocketIcApiStateBuilder,
    StartOutcome, StateLabel, UserError, WasmResult,
};

fn label(b: u8) -> StateLabel {
    StateLabel([b; 32])
}

#[test]
fn builder_defaults_and_settings() {
    let api = PocketIcApiStateBuilder::new().build();
    assert_eq!(api.instances.len(), 0);
    assert_eq!(api.sync_wait_time_ms, 10000);
    assert_eq!(api.port, None);

    let api = PocketIcApiStateBuilder::new()
        .with_sync_wait_time(2500)
        .with_port(8080)
        .add_initial_instance(PocketIc { state_label: label(1) })
        .build();
    assert_eq!(api.instances.len(), 1);
    assert_eq!(api.sync_wait_time_ms, 2500);
    assert_eq!(api.port, Some(8080));
    assert!(matches!(api.instances[0], InstanceState::Available(p) if p.state_label == label(1)));
}

#[test]
fn state_label_from_bytes() {
    let ok = StateLabel::try_from_vec(&vec![7u8; 32]);
    assert!(matches!(ok, Ok(l) if l.0 == [7u8; 32]));
    assert!(StateLabel::try_from_vec(&vec![7u8; 31]).is_err());
    assert!(StateLabel::try_from_vec(&vec![7u8; 33]).is_err());
    assert!(StateLabel::try_from_vec(&vec![]).is_err());
}

#[test]
fn state_label_reported_by_instance() {
    let pic = PocketIc { state_label: label(3) };
    assert_eq!(pic.get_state_label(), label(3));
}

#[test]
fn update_lifecycle() {
    let mut api = PocketIcApiStateBuilder::new()
        .add_initial_instance(PocketIc { state_label: label(1) })
        .build();

    // Claim the instance for an operation.
    let started = api.start_update(0, OpId(42)).unwrap();
    let (old_label, instance) = match started {
        StartOutcome::Started { state_label, op_id, instance } => {
            assert_eq!(op_id, OpId(42));
            assert_eq!(state_label, label(1));
            (state_label, instance)
        }
        StartOutcome::Busy { .. } => panic!("expected to start"),
    };
    assert!(matches!(
        api.instances[0],
        InstanceState::Busy { state_label, op_id } if state_label == label(1) && op_id == OpId(42)
    ));

    // A second update sees the instance busy with the first.
    match api.start_update(0, OpId(43)).unwrap() {
        StartOutcome::Busy { state_label, op_id } => {
            assert_eq!(state_label, label(1));
            assert_eq!(op_id, OpId(42));
        }
        StartOutcome::Started { .. } => panic!("expected busy"),
    }

    // The operation advances the instance to a new state.
    let advanced = PocketIc { state_label: label(2) };
    let _ = instance;
    api.finish_update(0, old_label, OpId(42), advanced, OpOut::Time(99));
    assert!(matches!(api.instances[0], InstanceState::Available(p) if p.state_label == label(2)));

    // Polling the graph finds the result.
    let (new_label, out) = api.read_result(&label(1), OpId(42)).unwrap();
    assert_eq!(new_label, label(2));
    assert_eq!(out, OpOut::Time(99));
    assert!(api.read_result(&label(1), OpId(7)).is_none());
    assert!(api.read_result(&label(2), OpId(42)).is_none());

    // Pruning keeps the transition but forgets the value.
    api.prune_result(label(1), OpId(42));
    let (new_label, out) = api.read_result(&label(1), OpId(42)).unwrap();
    assert_eq!(new_label, label(2));
    assert_eq!(out, OpOut::Pruned);
}

#[test]
fn update_on_missing_or_deleted_instance() {
    let mut api = PocketIcApiStateBuilder::new()
        .add_initial_instance(PocketIc { state_label: label(1) })
        .build();
    let err = api.start_update(5, OpId(1)).unwrap_err();
    assert_eq!(err.message, "Instance not found");

    api.delete_instance(0);
    assert!(matches!(api.instances[0], InstanceState::Deleted));
    let err = api.start_update(0, OpId(1)).unwrap_err();
    assert_eq!(err.message, "Instance was deleted");
}

#[test]
fn add_instance_and_list_states() {
    let mut api = PocketIcApiStateBuilder::new().build();
    let id = api.add_instance(PocketIc { state_label: label(1) });
    assert_eq!(id, 0);
    let id = api.add_instance(PocketIc { state_label: label(2) });
    assert_eq!(id, 1);
    let _ = api.start_update(0, OpId(1)).unwrap();
    api.delete_instance(1);
    let id = api.add_instance(PocketIc { state_label: label(3) });
    assert_eq!(id, 2);
    let busy = format!("Busy(StateLabel({}), OpId(1))", "01".repeat(32));
    assert_eq!(
        api.list_instance_states(),
        vec![busy, "Deleted".to_string(), "Available".to_string()]
    );
}

#[test]
fn busy_listing_names_label_and_operation() {
    let mut api = PocketIcApiStateBuilder::new()
        .add_initial_instance(PocketIc { state_label: StateLabel([0xAB; 32]) })
        .build();
    let _ = api.start_update(0, OpId(507)).unwrap();
    assert_eq!(
        api.list_instance_states(),
        vec![format!("Busy(StateLabel({}), OpId(507))", "AB".repeat(32))]
    );
}

#[test]
fn http_gateway_flags() {
    let mut api = PocketIcApiStateBuilder::new().build();
    let a = api.register_http_gateway();
    let b = api.register_http_gateway();
    assert_eq!((a, b), (0, 1));
    assert_eq!(api.http_gateways, vec![true, true]);
    api.stop_http_gateway(0);
    assert_eq!(api.http_gateways, vec![false, true]);
    api.stop_http_gateway(9);
    assert_eq!(api.http_gateways, vec![false, true]);
}

#[test]
fn canister_results_flow_through_the_graph() {
    let mut api = PocketIcApiStateBuilder::new()
        .add_initial_instance(PocketIc { state_label: label(1) })
        .build();
    let started = api.start_update(0, OpId(9)).unwrap();
    let instance = match started {
        StartOutcome::Started { instance, .. } => instance,
        StartOutcome::Busy { .. } => panic!("expected to start"),
    };
    let reply = OpOut::from(Ok(WasmResult::Reply(vec![1, 2, 3])));
    api.finish_update(0, label(1), OpId(9), instance, reply);
    let (_, out) = api.read_result(&label(1), OpId(9)).unwrap();
    assert_eq!(out, OpOut::CanisterResult(Ok(WasmResult::Reply(vec![1, 2, 3]))));
    let rejected = OpOut::from(Err(UserError { code: 5, description: "no route".to_string() }));
    assert_eq!(
        dup_op_out(&rejected),
        OpOut::CanisterResult(Err(UserError { code: 5, description: "no route".to_string() }))
    );
}
