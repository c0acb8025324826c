use vstd::prelude::*;

verus! {

/// Wi-Fi network settings.
#[derive(Debug, Clone)]
pub struct WifiConfig {
    pub ssid: String,
    /// Pre-shared key; none for an open network.
    pub psk: Option<String>,
}

/// Settings of the charger, as kept in non-volatile storage.
#[derive(Debug, Clone)]
pub struct PhiEvseConfig {
    pub hostname: String,
    /// Network to join, if any.
    pub sta: Option<WifiConfig>,
    /// Access point the charger offers.
    pub ap: WifiConfig,
    /// MQTT broker to publish to, if any.
    pub mqtt_uri: Option<String>,
}

impl WifiConfig {
    /// Network settings from the stored values: none without an SSID.
    pub fn from_stored(ssid: Option<String>, psk: Option<String>) -> (r: Option<WifiConfig>)
        ensures
            ssid is None ==> r is None,
            ssid is Some ==> r is Some && r->0.ssid == ssid->0 && r->0.psk == psk,
    {
        match ssid {
            Some(ssid) => Some(WifiConfig { ssid, psk }),
            None => None,
        }
    }
}

impl PhiEvseConfig {
    /// Settings from the stored values, with the defaults for what is missing:
    /// hostname "phievse" and an open access point named "phievse".
    pub fn from_stored(
        hostname: Option<String>,
        sta: Option<WifiConfig>,
        ap: Option<WifiConfig>,
        mqtt_uri: Option<String>,
    ) -> (r: PhiEvseConfig)
        ensures
            hostname is Some ==> r.hostname == hostname->0,
            hostname is None ==> r.hostname@ == "phievse"@,
            r.sta == sta,
            ap is Some ==> r.ap == ap->0,
            ap is None ==> r.ap.ssid@ == "phievse"@ && r.ap.psk is None,
            r.mqtt_uri == mqtt_uri,
    {
        let hostname = match hostname {
            Some(h) => h,
            None => "phievse".to_owned(),
        };
        let ap = match ap {
            Some(a) => a,
            None => WifiConfig { ssid: "phievse".to_owned(), psk: None },
        };
        PhiEvseConfig { hostname, sta, ap, mqtt_uri }
    }
}

} // verus!
