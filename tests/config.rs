use phievse::config::{PhiEvseConfig, WifiConfig};

#[test]
fn defaults_for_missing_settings() {
    let c = PhiEvseConfig::from_stored(None, None, None, None);
    assert_eq!(c.hostname, "phievse");
    assert!(c.sta.is_none());
    assert_eq!(c.ap.ssid, "phievse");
    assert!(c.ap.psk.is_none());
    assert!(c.mqtt_uri.is_none());
}

#[test]
fn stored_settings_are_kept() {
    let sta = WifiConfig::from_stored(Some("home".into()), Some("SECRET-REDACTED".into()));
    let ap = WifiConfig::from_stored(Some("evse".into()), None);
    let c = PhiEvseConfig::from_stored(
        Some("garage".into()),
        sta,
        ap,
        Some("mqtt://broker".into()),
    );
    assert_eq!(c.hostname, "garage");
    assert_eq!(c.sta.as_ref().unwrap().ssid, "home");
    assert_eq!(c.sta.as_ref().unwrap().psk.as_deref(), Some("SECRET-REDACTED"));
    assert_eq!(c.ap.ssid, "evse");
    assert_eq!(c.mqtt_uri.as_deref(), Some("mqtt://broker"));
}

#[test]
fn no_network_without_ssid() {
    assert!(WifiConfig::from_stored(None, Some("x".into())).is_none());
}
