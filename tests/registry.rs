use komari_tgbot::command::{base_url_from_parts, monitor_base_url};
use komari_tgbot::registry::{Monitor, MonitorRegistry};

fn monitor(id: u64, url: &str) -> Monitor {
    Monitor { telegram_id: id, monitor_url: url.to_string(), notification_token: None }
}

#[test]
fn empty_registry() {
    let r = MonitorRegistry::new();
    assert!(r.get(1).is_none());
    assert!(r.monitors().is_empty());
}

#[test]
fn reconnect_replaces_row() {
    let mut r = MonitorRegistry::new();
    r.upsert(monitor(1, "https://a.example"));
    r.upsert(monitor(2, "https://b.example"));
    r.upsert(monitor(1, "https://c.example"));
    assert_eq!(r.get(1).unwrap().monitor_url, "https://c.example");
    assert_eq!(r.get(2).unwrap().monitor_url, "https://b.example");
    assert_eq!(r.monitors().len(), 2);
}

#[test]
fn disconnect_drops_row() {
    let mut r = MonitorRegistry::new();
    r.upsert(monitor(1, "https://a.example"));
    r.upsert(monitor(2, "https://b.example"));
    r.remove(1);
    assert!(r.get(1).is_none());
    assert_eq!(r.get(2).unwrap().monitor_url, "https://b.example");
    r.remove(7);
    assert_eq!(r.monitors().len(), 1);
}

#[test]
fn base_url_parts() {
    assert_eq!(
        base_url_from_parts("https", Some("status.example.com"), None),
        Some("https://status.example.com".to_string())
    );
    assert_eq!(
        base_url_from_parts("http", Some("10.0.0.1"), Some(25774)),
        Some("http://10.0.0.1:25774".to_string())
    );
    assert_eq!(base_url_from_parts("data", None, None), None);
}

#[test]
fn base_url_from_text() {
    assert_eq!(
        monitor_base_url("https://status.example.com/admin?x=1"),
        Ok("https://status.example.com".to_string())
    );
    assert_eq!(
        monitor_base_url("http://status.example.com:8080/"),
        Ok("http://status.example.com:8080".to_string())
    );
    assert_eq!(
        monitor_base_url("https://status.example.com:443"),
        Ok("https://status.example.com".to_string())
    );
    assert_eq!(monitor_base_url("data:text/plain,hi"), Err("无效的 URL".to_string()));
    assert_eq!(
        monitor_base_url("status.example.com"),
        Err("无效的 URL: relative URL without a base".to_string())
    );
}
