use smppd::collections::StringSet;
use smppd::filter::esme::{
    AuthResult, CountryPricing, Esme, EsmeManager, EsmeQuota, EsmeStatus, EsmeStore,
    MemoryEsmeStore,
};
use smppd::time::UtcTime;

#[test]
fn test_esme_creation() {
    let esme = Esme::new("cust1", "Test ESME", "test_user", "secret123");

    assert_eq!(esme.id, "cust1");
    assert_eq!(esme.credentials.system_id, "test_user");
    assert!(esme.status.can_send());
    assert!(esme.can_send());
}

#[test]
fn creation_notes_the_time() {
    let t = UtcTime { secs: 0, nanos: 0 };
    let esme = Esme::new_at("c", "C", "s", "p", &t);
    assert_eq!(esme.created_at, "1970-01-01T00:00:00+00:00");
    assert_eq!(esme.modified_at, esme.created_at);
}

#[test]
fn test_esme_status() {
    assert!(EsmeStatus::Active.can_send());
    assert!(EsmeStatus::Trial.can_send());
    assert!(!EsmeStatus::Suspended.can_send());
    assert!(!EsmeStatus::Disabled.can_send());
    assert!(!EsmeStatus::QuotaExceeded.can_send());
}

#[test]
fn test_destination_filtering() {
    let mut esme = Esme::new("c1", "Test", "sys1", "pwd");
    esme.firewall.destination_deny_list.insert("+25880".to_string());

    assert!(esme.is_destination_allowed("+258841234567"));
    assert!(!esme.is_destination_allowed("+258801234567"));
}

#[test]
fn allow_lists_of_destinations() {
    let mut esme = Esme::new("c1", "Test", "sys1", "pwd");
    esme.firewall.destination_allow_list =
        Some(StringSet::from_vec(vec!["+258".to_string(), "+27".to_string()]));
    esme.firewall.destination_deny_list.insert("+25880".to_string());
    assert!(esme.is_destination_allowed("+27821234567"));
    assert!(!esme.is_destination_allowed("+258801234567"));
    assert!(!esme.is_destination_allowed("+15551234567"));
}

#[test]
fn test_sender_filtering() {
    let mut esme = Esme::new("c1", "Test", "sys1", "pwd");
    esme.firewall.sender_allow_list =
        Some(StringSet::from_vec(vec!["KATEMBE".to_string(), "VODACOM".to_string()]));

    assert!(esme.is_sender_allowed("KATEMBE"));
    assert!(!esme.is_sender_allowed("UNKNOWN"));
    esme.firewall.sender_deny_list.insert("KATEMBE".to_string());
    assert!(!esme.is_sender_allowed("KATEMBE"));
}

#[test]
fn test_quota_checking() {
    let mut quota = EsmeQuota {
        monthly_messages: 1000,
        monthly_spend: 0,
        daily_messages: 100,
        current_monthly_messages: 500,
        current_monthly_spend: 0,
        current_daily_messages: 99,
    };

    assert!(!quota.is_exceeded());
    assert_eq!(quota.remaining_monthly(), Some(500));
    assert_eq!(quota.remaining_daily(), Some(1));

    quota.current_daily_messages = 100;
    assert!(quota.is_exceeded());
}

#[test]
fn quotas_without_limits() {
    let quota = EsmeQuota::default();
    assert!(!quota.is_exceeded());
    assert_eq!(quota.remaining_monthly(), None);
    assert_eq!(quota.remaining_daily(), None);
    let spent = EsmeQuota { monthly_spend: 10, current_monthly_spend: 10, ..quota };
    assert!(spent.is_exceeded());
    let over = EsmeQuota { monthly_messages: 1, current_monthly_messages: 5, ..quota };
    assert_eq!(over.remaining_monthly(), Some(0));
}

#[test]
fn sent_messages_use_up_the_quota() {
    let mut esme = Esme::new("c1", "Test", "sys1", "pwd");
    esme.quota.daily_messages = 2;
    esme.record_message(10);
    assert!(esme.can_send());
    esme.record_message(10);
    assert!(!esme.can_send());
    assert_eq!(esme.quota.current_monthly_spend, 20);
    assert_eq!(esme.quota.current_monthly_messages, 2);
}

#[test]
fn test_memory_store() {
    let mut store = MemoryEsmeStore::new();

    let esme = Esme::new("c1", "ESME One", "sys1", "pwd1");
    store.save(esme).unwrap();

    assert_eq!(store.count(), 1);

    let retrieved = store.get("c1").unwrap();
    assert_eq!(retrieved.name, "ESME One");

    let by_sys = store.get_by_system_id("sys1").unwrap();
    assert_eq!(by_sys.id, "c1");
}

#[test]
fn test_authentication() {
    let mut store = MemoryEsmeStore::new();

    let esme = Esme::new("c1", "Test", "test_sys", "secret");
    store.save(esme).unwrap();

    match store.authenticate("test_sys", "secret", None) {
        AuthResult::Success(c) => assert_eq!(c.id, "c1"),
        _ => panic!("expected success"),
    }

    match store.authenticate("test_sys", "wrong", None) {
        AuthResult::InvalidCredentials => {}
        _ => panic!("expected invalid credentials"),
    }

    match store.authenticate("unknown", "any", None) {
        AuthResult::NotFound => {}
        _ => panic!("expected not found"),
    }
}

#[test]
fn test_ip_filtering() {
    let mut store = MemoryEsmeStore::new();

    let mut esme = Esme::new("c1", "Test", "sys1", "pwd");
    esme.credentials.ip_allow_list = Some(StringSet::from_vec(vec!["192.168.1.100".to_string()]));
    store.save(esme).unwrap();

    match store.authenticate("sys1", "pwd", Some("192.168.1.100")) {
        AuthResult::Success(_) => {}
        _ => panic!("expected success for allowed IP"),
    }

    match store.authenticate("sys1", "pwd", Some("10.0.0.1")) {
        AuthResult::IpNotAllowed => {}
        _ => panic!("expected IP not allowed"),
    }
}

#[test]
fn test_suspended_esme() {
    let mut store = MemoryEsmeStore::new();

    let mut esme = Esme::new("c1", "Test", "sys1", "pwd");
    esme.status = EsmeStatus::Suspended;
    store.save(esme).unwrap();

    match store.authenticate("sys1", "pwd", None) {
        AuthResult::Suspended(status) => {
            assert_eq!(status, EsmeStatus::Suspended);
        }
        _ => panic!("expected suspended"),
    }
}

#[test]
fn test_pricing() {
    let mut esme = Esme::new("c1", "Test", "sys1", "pwd");
    esme.pricing
        .country_pricing
        .insert("ZA".to_string(), CountryPricing { cost: 5, price: 15 });

    let (cost, price) = esme.get_pricing(None);
    assert_eq!(cost, 10);
    assert_eq!(price, 25);

    let (cost, price) = esme.get_pricing(Some("ZA"));
    assert_eq!(cost, 5);
    assert_eq!(price, 15);
    assert_eq!(esme.get_pricing(Some("MW")), (10, 25));
}

#[test]
fn test_routing_preferences() {
    let mut esme = Esme::new("c1", "Test", "sys1", "pwd");
    esme.routing.preferred_cluster = Some("vodacom".to_string());
    esme.routing.country_routes.insert("ZA".to_string(), "mtn_za".to_string());

    assert_eq!(esme.get_preferred_cluster(None), Some("vodacom"));
    assert_eq!(esme.get_preferred_cluster(Some("ZA")), Some("mtn_za"));
    assert_eq!(esme.get_preferred_cluster(Some("MW")), Some("vodacom"));
}

#[test]
fn test_esme_manager() {
    let mut store = MemoryEsmeStore::new();
    let esme = Esme::new("c1", "Test", "sys1", "pwd");
    store.save(esme).unwrap();
    let mut manager = EsmeManager::new(store);

    manager.record_message("c1", 10, 25, true, 100);
    manager.record_message("c1", 10, 25, true, 150);
    manager.record_message("c1", 10, 25, false, 200);

    let stats = manager.get_stats("c1").unwrap();
    assert_eq!(stats.total_messages, 3);
    assert_eq!(stats.delivered_messages, 2);
    assert_eq!(stats.failed_messages, 1);
    assert_eq!(stats.total_cost, 30);
    assert_eq!(stats.total_revenue, 75);
    assert_eq!(stats.avg_latency_ms, 150);
    assert_eq!(manager.all_stats().len(), 1);
    assert!(manager.get("c1").is_some());
    assert!(manager.get_by_system_id("sys1").is_some());
    assert!(matches!(manager.authenticate("sys1", "pwd", None), AuthResult::Success(_)));
    assert_eq!(manager.store().count(), 1);
}

#[test]
fn saving_again_moves_the_system_id() {
    let mut store = MemoryEsmeStore::default();
    store.save(Esme::new("c1", "One", "old", "p")).unwrap();
    store.save(Esme::new("c1", "One", "new", "p")).unwrap();
    assert_eq!(store.count(), 1);
    assert!(store.get_by_system_id("old").is_none());
    assert_eq!(store.get_by_system_id("new").unwrap().id, "c1");
}

#[test]
fn deleting_accounts() {
    let mut store = MemoryEsmeStore::with_esmes(vec![
        Esme::new("a", "A", "sa", "p"),
        Esme::new("b", "B", "sb", "p"),
    ]);
    assert_eq!(store.list().len(), 2);
    assert!(store.delete("a").is_ok());
    assert!(store.get("a").is_none());
    assert!(store.get_by_system_id("sa").is_none());
    assert_eq!(store.delete("a"), Err("ESME not found: a".to_string()));
    assert_eq!(store.list()[0].id, "b");
}

#[test]
fn quotas_start_over() {
    let mut suspended = Esme::new("b", "B", "sb", "p");
    suspended.status = EsmeStatus::Disabled;
    let mut first = Esme::new("a", "A", "sa", "p");
    first.record_message(7);
    let mut store = MemoryEsmeStore::with_esmes(vec![first, suspended]);
    assert_eq!(store.active_esmes().len(), 1);
    store.reset_daily_quotas();
    assert_eq!(store.get("a").unwrap().quota.current_daily_messages, 0);
    assert_eq!(store.get("a").unwrap().quota.current_monthly_messages, 1);
    store.reset_monthly_quotas();
    assert_eq!(store.get("a").unwrap().quota.current_monthly_messages, 0);
    assert_eq!(store.get("a").unwrap().quota.current_monthly_spend, 0);
}
