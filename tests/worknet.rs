use worknet::{
    can_register_device, CloseDeployment, CloseDevice, CloseWorkGroup, CloseWorkSpec,
    CreateDeployment, CreateWorkGroup, CreateWorkSpec, DeploymentArgType, DeviceStatus,
    ErrorCode, Pubkey, RegisterDevice, Schedule, UpdateDevice, WorkType, Worknet,
    SYSTEM_PROGRAM_ID,
};

const ALICE: Pubkey = 1000;
const MALLORY: Pubkey = 2000;

fn store_with_group(deposit: u64) -> (Worknet, Pubkey) {
    let mut w = Worknet::new();
    w.fund_license_wallet(ALICE, 100).unwrap();
    let g = w
        .create_work_group(
            &CreateWorkGroup { group_authority: ALICE },
            "group".to_string(),
            "grp-1".to_string(),
            "wss://signal".to_string(),
            deposit,
        )
        .unwrap();
    (w, g)
}

fn register(w: &mut Worknet, g: Pubkey, authority: Pubkey) -> Result<Pubkey, ErrorCode> {
    w.register_device(&RegisterDevice { group_authority: ALICE, work_group: g }, authority)
}

fn add_spec(w: &mut Worknet, g: Pubkey, name: &str) -> Pubkey {
    w.create_work_spec(
        &CreateWorkSpec { group_authority: ALICE, work_group: g },
        name.to_string(),
        WorkType::DockerCompose,
        "services: {}".to_string(),
        "abc123".to_string(),
        "https://meta".to_string(),
        false,
        1_700_000_000,
    )
    .unwrap()
}

fn add_deployment(w: &mut Worknet, g: Pubkey, spec: Pubkey, name: &str, replicas: u8) -> Pubkey {
    w.create_deployment(
        &CreateDeployment { group_authority: ALICE, spec, work_group: g },
        name.to_string(),
        replicas,
    )
    .unwrap()
}

fn schedule(w: &mut Worknet, g: Pubkey, d: Pubkey, device: Pubkey, n: u8) -> Result<(), ErrorCode> {
    w.schedule(
        &Schedule { group_authority: ALICE, work_group: g, deployment: d, device },
        n,
    )
}

fn device_pool(w: &Worknet, d: Pubkey, authority: Pubkey) -> (u64, u64, Pubkey) {
    let ledger = w.replica_ledgers.get(&d).unwrap();
    let mut amount = 0;
    let mut allowance = 0;
    let mut delegate = SYSTEM_PROGRAM_ID;
    for h in ledger.holdings.iter() {
        if h.device_authority == authority {
            amount += h.amount;
            allowance += h.delegated_amount;
            delegate = h.delegate;
        }
    }
    (amount, allowance, delegate)
}

#[test]
fn quota_formula_values() {
    assert!(can_register_device(0, 1));
    assert!(can_register_device(9, 1));
    assert!(!can_register_device(10, 1));
    assert!(!can_register_device(0, 0));
    assert!(can_register_device(19, 2));
    assert!(!can_register_device(20, 2));
    assert!(can_register_device(u64::MAX - 1, u64::MAX));
}

#[test]
fn one_license_unit_admits_ten_devices() {
    let (mut w, g) = store_with_group(1);
    let mut ids = Vec::new();
    for a in 1..=10u64 {
        ids.push(register(&mut w, g, a).unwrap());
        let grp = w.groups.get(&g).unwrap();
        assert!((grp.devices.len() as u64) <= w.license_of(g) * 10);
    }
    assert_eq!(register(&mut w, g, 11), Err(ErrorCode::InsufficentLicenseTokens));
    // A closed slot still counts against the quota.
    let ctx = CloseDevice { group_authority: ALICE, device: ids[3], work_group: g };
    w.close_device(&ctx).unwrap();
    assert_eq!(w.groups.get(&g).unwrap().devices.len(), 10);
    assert_eq!(register(&mut w, g, 11), Err(ErrorCode::InsufficentLicenseTokens));
}

#[test]
fn two_license_units_admit_twenty_devices() {
    let (mut w, g) = store_with_group(2);
    for a in 1..=20u64 {
        register(&mut w, g, a).unwrap();
    }
    assert_eq!(register(&mut w, g, 21), Err(ErrorCode::InsufficentLicenseTokens));
}

#[test]
fn registered_device_has_defaults() {
    let (mut w, g) = store_with_group(1);
    let d = register(&mut w, g, 77).unwrap();
    let dev = w.devices.get(&d).unwrap();
    assert_eq!(dev.device_authority, 77);
    assert_eq!(dev.work_group, g);
    assert_eq!(dev.status, DeviceStatus::RegistrationRequested);
    assert_eq!(dev.hostname, "");
    assert_eq!(dev.ipv4, [0, 0, 0, 0]);
    assert_eq!(w.groups.get(&g).unwrap().devices, vec![d]);
}

#[test]
fn one_device_per_authority() {
    let (mut w, g) = store_with_group(1);
    register(&mut w, g, 5).unwrap();
    assert_eq!(register(&mut w, g, 5), Err(ErrorCode::AccountAlreadyInUse));
}

#[test]
fn register_needs_group_and_its_authority() {
    let (mut w, g) = store_with_group(1);
    let wrong = RegisterDevice { group_authority: MALLORY, work_group: g };
    assert_eq!(w.register_device(&wrong, 5), Err(ErrorCode::Unauthorized));
    assert_eq!(register(&mut w, g + 999, 5), Err(ErrorCode::AccountNotFound));
}

#[test]
fn create_group_moves_deposit() {
    let (w, g) = store_with_group(30);
    assert_eq!(w.wallet_of(ALICE), 70);
    assert_eq!(w.license_of(g), 30);
    let grp = w.groups.get(&g).unwrap();
    assert_eq!(grp.group_authority, ALICE);
    assert_eq!(grp.name, "group");
    assert_eq!(grp.identifier, "grp-1");
    assert_eq!(grp.signal_server_url, "wss://signal");
    assert!(grp.specs.is_empty() && grp.devices.is_empty() && grp.deployments.is_empty());
}

#[test]
fn create_group_rejects_zero_deposit() {
    let mut w = Worknet::new();
    w.fund_license_wallet(ALICE, 10).unwrap();
    let r = w.create_work_group(
        &CreateWorkGroup { group_authority: ALICE },
        "n".to_string(),
        "id".to_string(),
        "u".to_string(),
        0,
    );
    assert_eq!(r, Err(ErrorCode::InsufficentLicenseTokens));
    assert_eq!(w.wallet_of(ALICE), 10);
    assert!(w.groups.is_empty());
}

#[test]
fn create_group_rejects_short_wallet() {
    let mut w = Worknet::new();
    w.fund_license_wallet(ALICE, 3).unwrap();
    let r = w.create_work_group(
        &CreateWorkGroup { group_authority: ALICE },
        "n".to_string(),
        "id".to_string(),
        "u".to_string(),
        4,
    );
    assert_eq!(r, Err(ErrorCode::InsufficentLicenseTokens));
    assert_eq!(w.wallet_of(ALICE), 3);
}

#[test]
fn same_identifier_collides() {
    let (mut w, _g) = store_with_group(1);
    let r = w.create_work_group(
        &CreateWorkGroup { group_authority: ALICE },
        "other".to_string(),
        "grp-1".to_string(),
        "u".to_string(),
        1,
    );
    assert_eq!(r, Err(ErrorCode::AccountAlreadyInUse));
    assert_eq!(w.wallet_of(ALICE), 99);
}

#[test]
fn group_round_trip_returns_deposit() {
    let (mut w, g) = store_with_group(25);
    assert_eq!(w.wallet_of(ALICE), 75);
    let ctx = CloseWorkGroup { group_authority: ALICE, group: g };
    assert_eq!(w.close_work_group(&ctx, false), Ok(()));
    assert_eq!(w.wallet_of(ALICE), 100);
    assert!(w.groups.get(&g).is_none());
    assert_eq!(w.license_of(g), 0);
    assert_eq!(w.close_work_group(&ctx, false), Err(ErrorCode::AccountNotFound));
}

#[test]
fn recreated_group_gets_same_identity() {
    let (mut w, g) = store_with_group(1);
    w.close_work_group(&CloseWorkGroup { group_authority: ALICE, group: g }, false)
        .unwrap();
    let again = w
        .create_work_group(
            &CreateWorkGroup { group_authority: ALICE },
            "renamed".to_string(),
            "grp-1".to_string(),
            "u".to_string(),
            1,
        )
        .unwrap();
    assert_eq!(again, g);
}

#[test]
fn close_group_refuses_specs() {
    let (mut w, g) = store_with_group(1);
    add_spec(&mut w, g, "s");
    let ctx = CloseWorkGroup { group_authority: ALICE, group: g };
    assert_eq!(w.close_work_group(&ctx, false), Err(ErrorCode::OrphanedSpecs));
    assert!(w.groups.get(&g).is_some());
}

#[test]
fn close_group_refuses_live_devices() {
    let (mut w, g) = store_with_group(1);
    let d = register(&mut w, g, 5).unwrap();
    let ctx = CloseWorkGroup { group_authority: ALICE, group: g };
    assert_eq!(w.close_work_group(&ctx, false), Err(ErrorCode::OrphanedDevices));
    w.close_device(&CloseDevice { group_authority: ALICE, device: d, work_group: g })
        .unwrap();
    // Only sentinel slots are left.
    assert_eq!(w.close_work_group(&ctx, false), Ok(()));
}

#[test]
fn close_group_refuses_deployments() {
    let (mut w, g) = store_with_group(1);
    let s = add_spec(&mut w, g, "s");
    add_deployment(&mut w, g, s, "dep", 2);
    w.close_work_spec(&CloseWorkSpec { group_authority: ALICE, spec: s, work_group: g })
        .unwrap();
    let ctx = CloseWorkGroup { group_authority: ALICE, group: g };
    assert_eq!(w.close_work_group(&ctx, false), Err(ErrorCode::OrphanedDeployments));
}

#[test]
fn forced_close_ignores_children() {
    let (mut w, g) = store_with_group(7);
    let s = add_spec(&mut w, g, "s");
    register(&mut w, g, 5).unwrap();
    add_deployment(&mut w, g, s, "dep", 2);
    let ctx = CloseWorkGroup { group_authority: ALICE, group: g };
    assert_eq!(w.close_work_group(&ctx, false), Err(ErrorCode::OrphanedSpecs));
    assert_eq!(w.close_work_group(&ctx, true), Ok(()));
    assert_eq!(w.wallet_of(ALICE), 100);
    assert!(w.groups.get(&g).is_none());
}

#[test]
fn close_group_needs_its_authority() {
    let (mut w, g) = store_with_group(1);
    let ctx = CloseWorkGroup { group_authority: MALLORY, group: g };
    assert_eq!(w.close_work_group(&ctx, true), Err(ErrorCode::Unauthorized));
}

#[test]
fn wallet_overflow_is_refused() {
    let mut w = Worknet::new();
    w.fund_license_wallet(ALICE, u64::MAX).unwrap();
    assert_eq!(w.fund_license_wallet(ALICE, 1), Err(ErrorCode::BalanceOverflow));
    assert_eq!(w.wallet_of(ALICE), u64::MAX);
}

#[test]
fn close_group_refuses_overflowing_withdrawal() {
    let (mut w, g) = store_with_group(50);
    w.fund_license_wallet(ALICE, u64::MAX - 50).unwrap();
    let ctx = CloseWorkGroup { group_authority: ALICE, group: g };
    assert_eq!(w.close_work_group(&ctx, false), Err(ErrorCode::BalanceOverflow));
}

#[test]
fn close_device_leaves_sentinel_in_place() {
    let (mut w, g) = store_with_group(1);
    let a = register(&mut w, g, 1).unwrap();
    let b = register(&mut w, g, 2).unwrap();
    let c = register(&mut w, g, 3).unwrap();
    let ctx = CloseDevice { group_authority: ALICE, device: b, work_group: g };
    assert_eq!(w.close_device(&ctx), Ok(()));
    assert_eq!(w.groups.get(&g).unwrap().devices, vec![a, SYSTEM_PROGRAM_ID, c]);
    assert!(w.devices.get(&b).is_none());
    // Closing again changes nothing.
    assert_eq!(w.close_device(&ctx), Err(ErrorCode::AccountNotFound));
    assert_eq!(w.groups.get(&g).unwrap().devices, vec![a, SYSTEM_PROGRAM_ID, c]);
}

#[test]
fn close_device_checks_group() {
    let mut w = Worknet::new();
    w.fund_license_wallet(ALICE, 10).unwrap();
    let g1 = w
        .create_work_group(&CreateWorkGroup { group_authority: ALICE }, "a".to_string(), "a".to_string(), "u".to_string(), 1)
        .unwrap();
    let g2 = w
        .create_work_group(&CreateWorkGroup { group_authority: ALICE }, "b".to_string(), "b".to_string(), "u".to_string(), 1)
        .unwrap();
    let d = register(&mut w, g1, 9).unwrap();
    let ctx = CloseDevice { group_authority: ALICE, device: d, work_group: g2 };
    assert_eq!(w.close_device(&ctx), Err(ErrorCode::Unauthorized));
    let ctx = CloseDevice { group_authority: MALLORY, device: d, work_group: g1 };
    assert_eq!(w.close_device(&ctx), Err(ErrorCode::Unauthorized));
}

#[test]
fn update_device_by_its_authority() {
    let (mut w, g) = store_with_group(1);
    let d = register(&mut w, g, 42).unwrap();
    let wrong = UpdateDevice { device_authority: ALICE, device: d };
    assert_eq!(
        w.update_device(&wrong, [1, 2, 3, 4], "h".to_string(), 1, DeviceStatus::Registered),
        Err(ErrorCode::Unauthorized)
    );
    let ctx = UpdateDevice { device_authority: 42, device: d };
    assert_eq!(
        w.update_device(&ctx, [10, 0, 0, 7], "node-7".to_string(), 254, DeviceStatus::Cordoned),
        Ok(())
    );
    let dev = w.devices.get(&d).unwrap();
    assert_eq!(dev.ipv4, [10, 0, 0, 7]);
    assert_eq!(dev.hostname, "node-7");
    assert_eq!(dev.bump, 254);
    assert_eq!(dev.status, DeviceStatus::Cordoned);
    // Any status may follow any other.
    w.update_device(&ctx, [10, 0, 0, 7], "node-7".to_string(), 254, DeviceStatus::RegistrationRequested)
        .unwrap();
    assert_eq!(w.devices.get(&d).unwrap().status, DeviceStatus::RegistrationRequested);
    let missing = UpdateDevice { device_authority: 42, device: d + 999 };
    assert_eq!(
        w.update_device(&missing, [0; 4], String::new(), 0, DeviceStatus::Delinquent),
        Err(ErrorCode::AccountNotFound)
    );
}

#[test]
fn spec_creation_and_removal_shift_list() {
    let (mut w, g) = store_with_group(1);
    let s1 = add_spec(&mut w, g, "one");
    let s2 = add_spec(&mut w, g, "two");
    let s3 = add_spec(&mut w, g, "three");
    let spec = w.specs.get(&s2).unwrap();
    assert_eq!(spec.name, "two");
    assert_eq!(spec.created_at, 1_700_000_000);
    assert_eq!(spec.modified_at, 1_700_000_000);
    assert_eq!(spec.work_type, WorkType::DockerCompose);
    assert_eq!(spec.contents_sha256, "abc123");
    assert!(!spec.mutable);
    let ctx = CloseWorkSpec { group_authority: ALICE, spec: s2, work_group: g };
    assert_eq!(w.close_work_spec(&ctx), Ok(()));
    assert_eq!(w.groups.get(&g).unwrap().specs, vec![s1, s3]);
    assert!(w.specs.get(&s2).is_none());
    assert_eq!(w.close_work_spec(&ctx), Err(ErrorCode::AccountNotFound));
}

#[test]
fn duplicate_spec_name_collides() {
    let (mut w, g) = store_with_group(1);
    add_spec(&mut w, g, "one");
    let r = w.create_work_spec(
        &CreateWorkSpec { group_authority: ALICE, work_group: g },
        "one".to_string(),
        WorkType::DockerCompose,
        String::new(),
        String::new(),
        String::new(),
        true,
        5,
    );
    assert_eq!(r, Err(ErrorCode::AccountAlreadyInUse));
}

#[test]
fn spec_of_other_group_is_not_found() {
    let mut w = Worknet::new();
    w.fund_license_wallet(ALICE, 10).unwrap();
    let g1 = w
        .create_work_group(&CreateWorkGroup { group_authority: ALICE }, "a".to_string(), "a".to_string(), "u".to_string(), 1)
        .unwrap();
    let g2 = w
        .create_work_group(&CreateWorkGroup { group_authority: ALICE }, "b".to_string(), "b".to_string(), "u".to_string(), 1)
        .unwrap();
    let s = add_spec(&mut w, g1, "one");
    let ctx = CloseWorkSpec { group_authority: ALICE, spec: s, work_group: g2 };
    assert_eq!(w.close_work_spec(&ctx), Err(ErrorCode::AccountNotFound));
}

#[test]
fn deployment_mints_replicas() {
    let (mut w, g) = store_with_group(1);
    let s = add_spec(&mut w, g, "s");
    let d = add_deployment(&mut w, g, s, "web", 5);
    let dep = w.deployments.get(&d).unwrap();
    assert_eq!(dep.spec, s);
    assert_eq!(dep.name, "web");
    assert_eq!(dep.replicas, 5);
    assert!(dep.args.is_empty());
    let ledger = w.replica_ledgers.get(&d).unwrap();
    assert_eq!((ledger.minted, ledger.pool, ledger.holdings.len()), (5, 5, 0));
    assert_eq!(w.groups.get(&g).unwrap().deployments, vec![d]);
}

#[test]
fn deployment_needs_existing_spec() {
    let (mut w, g) = store_with_group(1);
    let r = w.create_deployment(
        &CreateDeployment { group_authority: ALICE, spec: 123_456, work_group: g },
        "web".to_string(),
        1,
    );
    assert_eq!(r, Err(ErrorCode::AccountNotFound));
}

#[test]
fn schedule_moves_units_and_grants_allowance() {
    let (mut w, g) = store_with_group(1);
    let s = add_spec(&mut w, g, "s");
    let d = add_deployment(&mut w, g, s, "web", 5);
    let dev_a = register(&mut w, g, 71).unwrap();
    let dev_b = register(&mut w, g, 72).unwrap();
    assert_eq!(schedule(&mut w, g, d, dev_a, 3), Ok(()));
    assert_eq!(w.replica_ledgers.get(&d).unwrap().pool, 2);
    assert_eq!(device_pool(&w, d, 71), (3, 3, g));
    assert_eq!(schedule(&mut w, g, d, dev_b, 3), Err(ErrorCode::InsuffientReplicaTokens));
    assert_eq!(w.replica_ledgers.get(&d).unwrap().pool, 2);
    assert_eq!(schedule(&mut w, g, d, dev_a, 1), Ok(()));
    assert_eq!(device_pool(&w, d, 71), (4, 4, g));
    assert_eq!(schedule(&mut w, g, d, dev_b, 1), Ok(()));
    assert_eq!(device_pool(&w, d, 72), (1, 1, g));
    let ledger = w.replica_ledgers.get(&d).unwrap();
    assert_eq!(ledger.pool, 0);
    let held: u64 = ledger.holdings.iter().map(|h| h.amount).sum();
    assert_eq!(ledger.pool + held, 5);
    assert_eq!(schedule(&mut w, g, d, dev_b, 1), Err(ErrorCode::InsuffientReplicaTokens));
    assert_eq!(schedule(&mut w, g, d, dev_b, 0), Ok(()));
}

#[test]
fn schedule_checks_accounts() {
    let (mut w, g) = store_with_group(1);
    let s = add_spec(&mut w, g, "s");
    let d = add_deployment(&mut w, g, s, "web", 5);
    let dev = register(&mut w, g, 71).unwrap();
    assert_eq!(schedule(&mut w, g, d, dev + 999, 1), Err(ErrorCode::AccountNotFound));
    assert_eq!(schedule(&mut w, g, d + 999, dev, 1), Err(ErrorCode::AccountNotFound));
    let wrong = Schedule { group_authority: MALLORY, work_group: g, deployment: d, device: dev };
    assert_eq!(w.schedule(&wrong, 1), Err(ErrorCode::Unauthorized));
}

#[test]
fn close_deployment_burns_pool_and_keeps_device_units() {
    let (mut w, g) = store_with_group(1);
    let s = add_spec(&mut w, g, "s");
    let d1 = add_deployment(&mut w, g, s, "one", 4);
    let d2 = add_deployment(&mut w, g, s, "two", 4);
    let dev = register(&mut w, g, 71).unwrap();
    schedule(&mut w, g, d1, dev, 3).unwrap();
    let ctx = CloseDeployment { group_authority: ALICE, deployment: d1, work_group: g };
    assert_eq!(w.close_deployment(&ctx), Ok(()));
    assert_eq!(w.groups.get(&g).unwrap().deployments, vec![d2]);
    assert!(w.deployments.get(&d1).is_none());
    let ledger = w.replica_ledgers.get(&d1).unwrap();
    assert_eq!((ledger.pool, ledger.minted), (0, 3));
    assert_eq!(device_pool(&w, d1, 71), (3, 3, g));
    assert_eq!(w.close_deployment(&ctx), Err(ErrorCode::AccountNotFound));
    // The replica ledger of the closed deployment still holds its identity.
    let r = w.create_deployment(
        &CreateDeployment { group_authority: ALICE, spec: s, work_group: g },
        "one".to_string(),
        1,
    );
    assert_eq!(r, Err(ErrorCode::AccountAlreadyInUse));
}

#[test]
fn default_variants() {
    assert_eq!(WorkType::default(), WorkType::DockerCompose);
    assert_eq!(DeviceStatus::default(), DeviceStatus::RegistrationRequested);
    assert!(matches!(DeploymentArgType::default(), DeploymentArgType::String));
}
