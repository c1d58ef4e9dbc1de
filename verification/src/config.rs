//! Service configuration.
//!
//! Every recognized option has a safe default, so the process starts in a
//! bare environment. The caller reads the raw option texts from wherever
//! they live; `resolve` applies the defaults and builds the store
//! connection string, and its contract pins every resulting field.

use vstd::prelude::*;

verus! {

use crate::num::u16_of;

/// The resolved runtime configuration.
#[derive(Debug, Clone)]
pub struct AppConfig {
    pub mqtt_broker: String,
    pub mqtt_port: u16,
    pub mqtt_username: String,
    pub mqtt_password: String,
    pub mqtt_topic: String,
    pub database_url: String,
    pub log_level: String,
}

/// An option's text, or its default.
pub open spec fn text_or(v: Option<String>, dflt: Seq<char>) -> Seq<char> {
    match v {
        Some(s) => s@,
        None => dflt,
    }
}

/// The broker port an option text names: absent or unparseable falls back
/// to the default port.
pub open spec fn port_or_default(v: Option<String>) -> u16 {
    match v {
        Some(s) => match u16_of(s@) {
            Some(p) => p,
            None => 1883,
        },
        None => 1883,
    }
}

/// The store connection string built from its parts.
pub open spec fn database_url_of(
    user: Seq<char>,
    pwd: Seq<char>,
    host: Seq<char>,
    port: Seq<char>,
    name: Seq<char>,
) -> Seq<char> {
    "postgres://"@ + user + ":"@ + pwd + "@"@ + host + ":"@ + port + "/"@ + name
}

/// An option's text, or the given default.
fn or_text(v: Option<String>, dflt: &str) -> (r: String)
    ensures
        r@ == text_or(v, dflt@),
{
    match v {
        Some(s) => s,
        None => dflt.to_owned(),
    }
}

impl AppConfig {
    /// Resolves the raw option texts into a runnable configuration: each
    /// missing option takes its safe default, the port text is parsed (its
    /// default covers an unparseable value), and the store connection
    /// string is assembled from the five database options.
    pub fn resolve(
        mqtt_broker: Option<String>,
        mqtt_port: Option<String>,
        mqtt_username: Option<String>,
        mqtt_password: Option<String>,
        mqtt_topic: Option<String>,
        db_host: Option<String>,
        db_port: Option<String>,
        db_name: Option<String>,
        db_user: Option<String>,
        db_pwd: Option<String>,
        log_level: Option<String>,
    ) -> (r: AppConfig)
        ensures
            r.mqtt_broker@ == text_or(mqtt_broker, "localhost"@),
            r.mqtt_port == port_or_default(mqtt_port),
            r.mqtt_username@ == text_or(mqtt_username, ""@),
            r.mqtt_password@ == text_or(mqtt_password, ""@),
            r.mqtt_topic@ == text_or(mqtt_topic, "siscom/#"@),
            r.database_url@ == database_url_of(
                text_or(db_user, "siscom"@),
                text_or(db_pwd, "siscom"@),
                text_or(db_host, "localhost"@),
                text_or(db_port, "5432"@),
                text_or(db_name, "siscom_admin"@),
            ),
            r.log_level@ == text_or(log_level, "info"@),
    {
        let port: u16 = match mqtt_port {
            Some(s) => match crate::num::parse_u16(s.as_str()) {
                Some(p) => p,
                None => 1883,
            },
            None => 1883,
        };
        let user = or_text(db_user, "siscom");
        let pwd = or_text(db_pwd, "siscom");
        let host = or_text(db_host, "localhost");
        let dbport = or_text(db_port, "5432");
        let name = or_text(db_name, "siscom_admin");
        let mut url: String = "postgres://".to_owned();
        url.append(user.as_str());
        url.append(":");
        url.append(pwd.as_str());
        url.append("@");
        url.append(host.as_str());
        url.append(":");
        url.append(dbport.as_str());
        url.append("/");
        url.append(name.as_str());
        AppConfig {
            mqtt_broker: or_text(mqtt_broker, "localhost"),
            mqtt_port: port,
            mqtt_username: or_text(mqtt_username, ""),
            mqtt_password: or_text(mqtt_password, ""),
            mqtt_topic: or_text(mqtt_topic, "siscom/#"),
            database_url: url,
            log_level: or_text(log_level, "info"),
        }
    }
}

} // verus!
