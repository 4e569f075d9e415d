use wallet_pool::classify::{classify, mstaddress, subaddress};
use wallet_pool::registry::{Address, AssignError};
use wallet_pool::timeout::{overdue, PENDING_LIMIT_SECS, REPORT_LIMIT_SECS};
use wallet_pool::wallet::{AddressType, Deployed, Wallet};

const SUB_OK: &str = "{\"msg\": \"Task registered successfully\"}";

fn ok(text: &str) -> Result<String, String> {
    Ok(text.to_string())
}

fn failed() -> Result<String, String> {
    Err("connection refused".to_string())
}

fn pending(order: u32, server: u32) -> Deployed {
    Deployed::DEPLOYING { orderid: order, serverid: server, sshaddr: None, sshport: None }
}

fn registry_with_sub(address: &str) -> Address {
    let mut reg = Address::new();
    reg.check(address, &ok("Error: unknown address"), &ok(SUB_OK));
    reg
}

#[test]
fn sub_address_scenario_is_reaped() {
    let mut reg = registry_with_sub("A1");
    let w = reg.get("A1").unwrap();
    assert_eq!(w.addr_type, AddressType::SUB);
    assert_eq!(w.deploy, Deployed::NOTASSIGNED);
    let t0: i64 = 1_700_000_000;
    assert_eq!(reg.assign_at("A1", pending(7, 3), t0), Ok(()));
    let w = reg.get("A1").unwrap();
    assert_eq!(w.start_time, Some(t0));
    assert_eq!(w.deploy, pending(7, 3));
    assert_eq!(reg.timed_out_orders(t0 + 16 * 60), vec![7]);
}

#[test]
fn transport_failure_inserts_nothing() {
    let mut reg = Address::new();
    reg.check("A2", &failed(), &failed());
    assert!(!reg.contains("A2"));
    assert_eq!(reg.len(), 0);
}

#[test]
fn rerunning_check_keeps_role_and_binding() {
    let mut reg = registry_with_sub("A1");
    assert_eq!(reg.assign_at("A1", pending(1, 2), 100), Ok(()));
    reg.check("A1", &ok("balance: 10"), &failed());
    let w = reg.get("A1").unwrap();
    assert_eq!(w.addr_type, AddressType::SUB);
    assert_eq!(w.deploy, pending(1, 2));
    assert_eq!(reg.len(), 1);
}

#[test]
fn master_takes_precedence_over_sub() {
    assert_eq!(classify(&ok("balance: 3"), &ok(SUB_OK)), AddressType::MASTER);
    assert_eq!(classify(&ok("Error"), &ok(SUB_OK)), AddressType::SUB);
    assert_eq!(classify(&ok("Error"), &ok("Task not registered")), AddressType::NULL);
    assert_eq!(classify(&failed(), &ok(SUB_OK)), AddressType::NULL);
    assert_eq!(classify(&ok("balance: 3"), &failed()), AddressType::NULL);
}

#[test]
fn master_check_reads_error_marker() {
    assert_eq!(mstaddress(&ok("{\"error\": \"no\"}")), AddressType::MASTER);
    assert_eq!(mstaddress(&ok("xxErrorxx")), AddressType::NULL);
    assert_eq!(mstaddress(&ok("")), AddressType::MASTER);
    assert_eq!(mstaddress(&failed()), AddressType::NULL);
}

#[test]
fn sub_check_needs_success_phrase() {
    assert_eq!(subaddress(&ok(SUB_OK)), AddressType::SUB);
    assert_eq!(subaddress(&ok("Task registered")), AddressType::NULL);
    assert_eq!(subaddress(&ok("")), AddressType::NULL);
    assert_eq!(subaddress(&failed()), AddressType::NULL);
}

#[test]
fn master_wallet_is_registered() {
    let mut reg = Address::new();
    reg.check("M1", &ok("balance: 5"), &ok("nope"));
    assert_eq!(reg.get("M1").unwrap().addr_type, AddressType::MASTER);
}

#[test]
fn candidates_are_unbound_sub_wallets() {
    let mut reg = Address::new();
    reg.check("M1", &ok("balance"), &ok(SUB_OK));
    reg.check("S1", &ok("Error"), &ok(SUB_OK));
    reg.check("S2", &ok("Error"), &ok(SUB_OK));
    reg.check("S3", &ok("Error"), &ok(SUB_OK));
    assert_eq!(reg.assign_at("S2", pending(4, 4), 10), Ok(()));
    let c = reg.filter(&None);
    let names: Vec<String> = c.iter().map(|w| w.address.clone()).collect();
    assert_eq!(names, vec!["S1".to_string(), "S3".to_string()]);
}

#[test]
fn status_errors_abort_the_refresh() {
    let mut reg = registry_with_sub("S1");
    let report = Some((vec![("S1".to_string(), pending(9, 9))], vec!["ssh failed".to_string()]));
    assert!(reg.filter(&report).is_empty());
    assert_eq!(reg.get("S1").unwrap().deploy, Deployed::NOTASSIGNED);
}

#[test]
fn status_report_overwrites_bindings() {
    let mut reg = registry_with_sub("S1");
    reg.check("S2", &ok("Error"), &ok(SUB_OK));
    let report = Some((
        vec![
            ("S1".to_string(), pending(5, 6)),
            ("X9".to_string(), pending(1, 1)),
            ("S1".to_string(), pending(8, 6)),
        ],
        Vec::new(),
    ));
    let c = reg.filter(&report);
    assert_eq!(c.len(), 1);
    assert_eq!(c[0].address, "S2");
    assert_eq!(reg.get("S1").unwrap().deploy, pending(8, 6));
    assert!(!reg.contains("X9"));
}

#[test]
fn assign_unknown_address_is_not_found() {
    let mut reg = registry_with_sub("S1");
    assert_eq!(reg.assign_at("nobody", pending(1, 1), 5), Err(AssignError::NotFound));
    assert_eq!(reg.len(), 1);
    assert_eq!(reg.get("S1").unwrap().deploy, Deployed::NOTASSIGNED);
}

#[test]
fn assign_bound_wallet_is_conflict() {
    let mut reg = registry_with_sub("S1");
    assert_eq!(reg.assign_at("S1", pending(1, 2), 5), Ok(()));
    assert_eq!(reg.assign_at("S1", pending(3, 4), 6), Err(AssignError::Conflict));
    let w = reg.get("S1").unwrap();
    assert_eq!(w.deploy, pending(1, 2));
    assert_eq!(w.start_time, Some(5));
    assert!(reg.record_report_at("S1", 7));
    assert_eq!(reg.assign_at("S1", pending(3, 4), 8), Err(AssignError::Conflict));
}

#[test]
fn assign_with_clock_stamps_current_time() {
    let mut reg = registry_with_sub("S1");
    assert_eq!(reg.assgin_server("S1", pending(2, 2)), Ok(()));
    let w = reg.get("S1").unwrap();
    assert_eq!(w.deploy, pending(2, 2));
    assert!(w.start_time.unwrap() > 1_600_000_000);
    assert_eq!(reg.assgin_server("S1", pending(2, 2)), Err(AssignError::Conflict));
    assert_eq!(reg.assgin_server("nobody", pending(2, 2)), Err(AssignError::NotFound));
}

#[test]
fn report_activates_pending_binding() {
    let mut reg = registry_with_sub("S1");
    let dep = Deployed::DEPLOYING {
        orderid: 11,
        serverid: 12,
        sshaddr: Some("10.0.0.1".to_string()),
        sshport: Some(2222),
    };
    assert_eq!(reg.assign_at("S1", dep, 50), Ok(()));
    assert!(reg.record_report_at("S1", 60));
    let w = reg.get("S1").unwrap();
    assert_eq!(w.report_last_time, Some(60));
    assert_eq!(
        w.deploy,
        Deployed::DEPLOYED {
            orderid: 11,
            serverid: 12,
            sshaddr: Some("10.0.0.1".to_string()),
            sshport: Some(2222),
        }
    );
    assert!(reg.record_report_at("S1", 70));
    assert_eq!(reg.get("S1").unwrap().report_last_time, Some(60));
}

#[test]
fn report_on_unknown_or_unbound() {
    let mut reg = registry_with_sub("S1");
    assert!(!reg.record_report_at("nobody", 1));
    assert!(reg.record_report_at("S1", 1));
    let w = reg.get("S1").unwrap();
    assert_eq!(w.report_last_time, None);
    assert_eq!(w.deploy, Deployed::NOTASSIGNED);
    assert!(reg.update_log_collect_time("S1"));
    assert!(!reg.update_log_collect_time("nobody"));
}

#[test]
fn report_with_clock_stamps_current_time() {
    let mut reg = registry_with_sub("S1");
    assert_eq!(reg.assign_at("S1", pending(1, 1), 10), Ok(()));
    assert!(reg.update_log_collect_time("S1"));
    let w = reg.get("S1").unwrap();
    assert!(w.report_last_time.unwrap() > 1_600_000_000);
    assert!(matches!(w.deploy, Deployed::DEPLOYED { orderid: 1, .. }));
}

#[test]
fn pending_deadline_boundary() {
    let mut reg = registry_with_sub("S1");
    let t0: i64 = 1_000_000;
    assert_eq!(reg.assign_at("S1", pending(7, 3), t0), Ok(()));
    assert_eq!(reg.timed_out_orders(t0 + 15 * 60), Vec::<u32>::new());
    assert_eq!(reg.timed_out_orders(t0 + 15 * 60 + 1), vec![7]);
    assert_eq!(PENDING_LIMIT_SECS, 900);
}

#[test]
fn report_deadline_boundary() {
    let mut reg = registry_with_sub("S1");
    let t0: i64 = 2_000_000;
    assert_eq!(reg.assign_at("S1", pending(8, 3), t0 - 5000), Ok(()));
    assert!(reg.record_report_at("S1", t0));
    assert_eq!(reg.timed_out_orders(t0 + 10 * 60), Vec::<u32>::new());
    assert_eq!(reg.timed_out_orders(t0 + 10 * 60 + 1), vec![8]);
    assert_eq!(REPORT_LIMIT_SECS, 600);
}

#[test]
fn unbound_and_untimed_wallets_are_never_flagged() {
    let reg = registry_with_sub("S1");
    assert!(reg.timed_out_orders(i64::MAX).is_empty());
    let w = Wallet {
        address: "P".to_string(),
        addr_type: AddressType::SUB,
        start_time: None,
        report_last_time: None,
        deploy: pending(3, 3),
    };
    assert_eq!(overdue(&w, i64::MAX), None);
    let old = Wallet { start_time: Some(i64::MIN), ..w };
    assert_eq!(overdue(&old, i64::MAX), Some(3));
}

#[test]
fn timeout_scan_lists_each_stale_order() {
    let mut reg = Address::new();
    for name in ["S1", "S2", "S3"] {
        reg.check(name, &ok("Error"), &ok(SUB_OK));
    }
    assert_eq!(reg.assign_at("S1", pending(1, 1), 0), Ok(()));
    assert_eq!(reg.assign_at("S3", pending(3, 3), 0), Ok(()));
    assert_eq!(reg.timed_out_orders(10_000), vec![1, 3]);
    assert!(reg.filter_log_timeout().contains(&1));
}

#[test]
fn load_address_file_makes_unclassified_wallets() {
    let ws = Address::load_address_file(&vec!["a".to_string(), "b".to_string()]);
    assert_eq!(ws.len(), 2);
    assert_eq!(ws[1], Wallet::new("b".to_string(), AddressType::NULL));
    assert_eq!(ws[0].address, "a");
    assert_eq!(ws[0].deploy, Deployed::NOTASSIGNED);
}

#[test]
fn wallets_lists_registry_contents() {
    let mut reg = Address::default();
    reg.check("S1", &ok("Error"), &ok(SUB_OK));
    reg.check("M1", &ok("fine"), &ok("nope"));
    let all = reg.wallets();
    assert_eq!(all.len(), 2);
    assert_eq!(all[0].address, "S1");
    assert_eq!(all[1].addr_type, AddressType::MASTER);
    assert!(reg.get("Z").is_none());
}

#[test]
fn one_failed_check_discards_the_address() {
    let mut reg = Address::new();
    reg.check("A3", &failed(), &ok(SUB_OK));
    reg.check("A4", &ok("balance: 1"), &failed());
    assert!(!reg.contains("A3"));
    assert!(!reg.contains("A4"));
    assert_eq!(reg.len(), 0);
}

#[test]
fn shared_order_is_listed_once() {
    let mut reg = Address::new();
    for name in ["S1", "S2", "S3"] {
        reg.check(name, &ok("Error"), &ok(SUB_OK));
    }
    assert_eq!(reg.assign_at("S1", pending(5, 1), 0), Ok(()));
    assert_eq!(reg.assign_at("S2", pending(5, 2), 0), Ok(()));
    assert_eq!(reg.assign_at("S3", pending(6, 3), 0), Ok(()));
    assert_eq!(reg.timed_out_orders(10_000), vec![5, 6]);
}
