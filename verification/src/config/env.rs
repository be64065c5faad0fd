//! The service's settings, read from its environment variables.

use vstd::prelude::*;
use vstd::string::StringExecFns;

use crate::config::number::{digits_value, parse_bool, parse_bool_text, parse_unsigned, parse_unsigned_text, unsigned_digits};
use crate::errors::{AppError, AppErrorView};
use crate::text::{chars_of, string_from_chars, text_eq};

verus! {

/// The value of the first variable named `name`.
pub open spec fn env_lookup(vars: Seq<(String, String)>, name: Seq<char>) -> Option<Seq<char>>
    decreases vars.len(),
{
    if vars.len() == 0 {
        None
    } else if vars[0].0@ == name {
        Some(vars[0].1@)
    } else {
        env_lookup(vars.skip(1), name)
    }
}

/// A required variable, or the error that names it as missing.
pub open spec fn required_var(vars: Seq<(String, String)>, name: Seq<char>) -> Result<Seq<char>, AppErrorView> {
    match env_lookup(vars, name) {
        Some(v) => Ok(v),
        None => Err(AppErrorView::MissingEnvVar(name)),
    }
}

/// An optional variable, or its default.
pub open spec fn optional_var(vars: Seq<(String, String)>, name: Seq<char>, default: Seq<char>) -> Seq<char> {
    match env_lookup(vars, name) {
        Some(v) => v,
        None => default,
    }
}

/// The unsigned number a variable's text holds, or the error that names the
/// variable as invalid.
pub open spec fn number_var(raw: Seq<char>, name: Seq<char>, max: nat) -> Result<nat, AppErrorView> {
    match parse_unsigned(raw, max) {
        Some(v) => Ok(v),
        None => Err(AppErrorView::InvalidEnvVar(name)),
    }
}

/// A text with every two-character `\n` escape turned into a line break,
/// read from left to right.
pub open spec fn unescape_newlines(s: Seq<char>) -> Seq<char>
    decreases s.len(),
{
    if s.len() == 0 {
        Seq::empty()
    } else if s.len() >= 2 && s[0] == '\\' && s[1] == 'n' {
        seq!['\n'] + unescape_newlines(s.skip(2))
    } else {
        seq![s[0]] + unescape_newlines(s.skip(1))
    }
}

/// The settings of the service.
#[derive(Clone, Debug)]
pub struct AppConfig {
    pub db_host: String,
    pub db_user: String,
    pub db_password: String,
    pub db_port: u16,
    pub db_name: String,
    pub kafka_brokers: String,
    pub kafka_topic: String,
    pub kafka_group_id: String,
    pub rust_log: String,
    pub kafka_sasl_mechanism: String,
    pub kafka_username: String,
    pub kafka_password: String,
    pub kafka_security_protocol: String,
    pub ws_bind_addr: String,
    pub ws_channel_capacity: usize,
    pub ws_heartbeat_interval_secs: u64,
    pub ws_heartbeat_timeout_secs: u64,
    pub jwt_public_key_pem: String,
    pub aws_region: String,
    pub sns_enabled: bool,
    pub sns_retry_count: u32,
    pub sns_batch_timeout_ms: u64,
}

/// The settings with their texts taken as character sequences.
pub struct AppConfigView {
    pub db_host: Seq<char>,
    pub db_user: Seq<char>,
    pub db_password: Seq<char>,
    pub db_port: nat,
    pub db_name: Seq<char>,
    pub kafka_brokers: Seq<char>,
    pub kafka_topic: Seq<char>,
    pub kafka_group_id: Seq<char>,
    pub rust_log: Seq<char>,
    pub kafka_sasl_mechanism: Seq<char>,
    pub kafka_username: Seq<char>,
    pub kafka_password: Seq<char>,
    pub kafka_security_protocol: Seq<char>,
    pub ws_bind_addr: Seq<char>,
    pub ws_channel_capacity: nat,
    pub ws_heartbeat_interval_secs: nat,
    pub ws_heartbeat_timeout_secs: nat,
    pub jwt_public_key_pem: Seq<char>,
    pub aws_region: Seq<char>,
    pub sns_enabled: bool,
    pub sns_retry_count: nat,
    pub sns_batch_timeout_ms: nat,
}

impl View for AppConfig {
    type V = AppConfigView;

    open spec fn view(&self) -> AppConfigView {
        AppConfigView {
            db_host: self.db_host@,
            db_user: self.db_user@,
            db_password: self.db_password@,
            db_port: self.db_port as nat,
            db_name: self.db_name@,
            kafka_brokers: self.kafka_brokers@,
            kafka_topic: self.kafka_topic@,
            kafka_group_id: self.kafka_group_id@,
            rust_log: self.rust_log@,
            kafka_sasl_mechanism: self.kafka_sasl_mechanism@,
            kafka_username: self.kafka_username@,
            kafka_password: self.kafka_password@,
            kafka_security_protocol: self.kafka_security_protocol@,
            ws_bind_addr: self.ws_bind_addr@,
            ws_channel_capacity: self.ws_channel_capacity as nat,
            ws_heartbeat_interval_secs: self.ws_heartbeat_interval_secs as nat,
            ws_heartbeat_timeout_secs: self.ws_heartbeat_timeout_secs as nat,
            jwt_public_key_pem: self.jwt_public_key_pem@,
            aws_region: self.aws_region@,
            sns_enabled: self.sns_enabled,
            sns_retry_count: self.sns_retry_count as nat,
            sns_batch_timeout_ms: self.sns_batch_timeout_ms as nat,
        }
    }
}

/// The connection settings, each required, in the order they are read.
pub struct ConnectionVars {
    pub db_host: Seq<char>,
    pub db_user: Seq<char>,
    pub db_password: Seq<char>,
    pub db_name: Seq<char>,
    pub kafka_brokers: Seq<char>,
    pub kafka_topic: Seq<char>,
    pub kafka_group_id: Seq<char>,
    pub rust_log: Seq<char>,
    pub kafka_sasl_mechanism: Seq<char>,
    pub kafka_username: Seq<char>,
    pub kafka_password: Seq<char>,
    pub kafka_security_protocol: Seq<char>,
    pub ws_bind_addr: Seq<char>,
}

pub struct DatabaseVars {
    pub db_host: Seq<char>,
    pub db_user: Seq<char>,
    pub db_password: Seq<char>,
    pub db_name: Seq<char>,
}

pub struct KafkaVars {
    pub kafka_brokers: Seq<char>,
    pub kafka_topic: Seq<char>,
    pub kafka_group_id: Seq<char>,
    pub rust_log: Seq<char>,
}

pub struct SaslVars {
    pub kafka_sasl_mechanism: Seq<char>,
    pub kafka_username: Seq<char>,
    pub kafka_password: Seq<char>,
    pub kafka_security_protocol: Seq<char>,
}

pub open spec fn database_vars(vars: Seq<(String, String)>) -> Result<DatabaseVars, AppErrorView> {
    match required_var(vars, "DB_HOST"@) {
        Err(e) => Err(e),
        Ok(db_host) => match required_var(vars, "DB_USER"@) {
            Err(e) => Err(e),
            Ok(db_user) => match required_var(vars, "DB_PASSWORD"@) {
                Err(e) => Err(e),
                Ok(db_password) => match required_var(vars, "DB_NAME"@) {
                    Err(e) => Err(e),
                    Ok(db_name) => Ok(DatabaseVars { db_host, db_user, db_password, db_name }),
                },
            },
        },
    }
}

pub open spec fn kafka_vars(vars: Seq<(String, String)>) -> Result<KafkaVars, AppErrorView> {
    match required_var(vars, "KAFKA_BROKERS"@) {
        Err(e) => Err(e),
        Ok(kafka_brokers) => match required_var(vars, "KAFKA_TOPIC"@) {
            Err(e) => Err(e),
            Ok(kafka_topic) => match required_var(vars, "KAFKA_GROUP_ID"@) {
                Err(e) => Err(e),
                Ok(kafka_group_id) => match required_var(vars, "RUST_LOG"@) {
                    Err(e) => Err(e),
                    Ok(rust_log) => Ok(KafkaVars { kafka_brokers, kafka_topic, kafka_group_id, rust_log }),
                },
            },
        },
    }
}

pub open spec fn sasl_vars(vars: Seq<(String, String)>) -> Result<SaslVars, AppErrorView> {
    match required_var(vars, "KAFKA_SASL_MECHANISM"@) {
        Err(e) => Err(e),
        Ok(kafka_sasl_mechanism) => match required_var(vars, "KAFKA_USERNAME"@) {
            Err(e) => Err(e),
            Ok(kafka_username) => match required_var(vars, "KAFKA_PASSWORD"@) {
                Err(e) => Err(e),
                Ok(kafka_password) => match required_var(vars, "KAFKA_SECURITY_PROTOCOL"@) {
                    Err(e) => Err(e),
                    Ok(kafka_security_protocol) => Ok(
                        SaslVars { kafka_sasl_mechanism, kafka_username, kafka_password, kafka_security_protocol },
                    ),
                },
            },
        },
    }
}

pub open spec fn port_and_capacity(vars: Seq<(String, String)>) -> Result<(nat, nat), AppErrorView> {
    match required_var(vars, "DB_PORT"@) {
        Err(e) => Err(e),
        Ok(raw_port) => match number_var(raw_port, "DB_PORT"@, u16::MAX as nat) {
            Err(e) => Err(e),
            Ok(db_port) => match required_var(vars, "WS_CHANNEL_CAPACITY"@) {
                Err(e) => Err(e),
                Ok(raw_capacity) => match number_var(raw_capacity, "WS_CHANNEL_CAPACITY"@, usize::MAX as nat) {
                    Err(e) => Err(e),
                    Ok(capacity) => Ok((db_port, capacity)),
                },
            },
        },
    }
}

pub open spec fn heartbeat_vars(vars: Seq<(String, String)>) -> Result<(nat, nat), AppErrorView> {
    match number_var(
        optional_var(vars, "WS_HEARTBEAT_INTERVAL_SECS"@, "30"@),
        "WS_HEARTBEAT_INTERVAL_SECS"@,
        u64::MAX as nat,
    ) {
        Err(e) => Err(e),
        Ok(interval) => match number_var(
            optional_var(vars, "WS_HEARTBEAT_TIMEOUT_SECS"@, "60"@),
            "WS_HEARTBEAT_TIMEOUT_SECS"@,
            u64::MAX as nat,
        ) {
            Err(e) => Err(e),
            Ok(timeout) => if timeout <= interval {
                Err(AppErrorView::InvalidEnvVar("WS_HEARTBEAT_TIMEOUT_SECS"@))
            } else {
                Ok((interval, timeout))
            },
        },
    }
}

/// The JWT key (escaped line breaks restored) and the SNS settings.
pub struct SnsVars {
    pub pem: Seq<char>,
    pub sns_enabled: bool,
    pub retries: nat,
    pub batch: nat,
}

pub open spec fn sns_vars(vars: Seq<(String, String)>) -> Result<SnsVars, AppErrorView> {
    match required_var(vars, "JWT_PUBLIC_KEY_PEM"@) {
        Err(e) => Err(e),
        Ok(pem) => match parse_bool(optional_var(vars, "SNS_ENABLED"@, "false"@)) {
            None => Err(AppErrorView::InvalidEnvVar("SNS_ENABLED"@)),
            Some(sns_enabled) => match number_var(optional_var(vars, "SNS_RETRY_COUNT"@, "3"@), "SNS_RETRY_COUNT"@, u32::MAX as nat) {
                Err(e) => Err(e),
                Ok(retries) => match number_var(
                    optional_var(vars, "SNS_BATCH_TIMEOUT_MS"@, "100"@),
                    "SNS_BATCH_TIMEOUT_MS"@,
                    u64::MAX as nat,
                ) {
                    Err(e) => Err(e),
                    Ok(batch) => Ok(SnsVars { pem: unescape_newlines(pem), sns_enabled, retries, batch }),
                },
            },
        },
    }
}

pub open spec fn assemble(
    vars: Seq<(String, String)>,
    pc: (nat, nat),
    hb: (nat, nat),
    s: SnsVars,
    d: DatabaseVars,
    k: KafkaVars,
    a: SaslVars,
    ws_bind_addr: Seq<char>,
) -> AppConfigView {
    AppConfigView {
        db_host: d.db_host,
        db_user: d.db_user,
        db_password: d.db_password,
        db_port: pc.0,
        db_name: d.db_name,
        kafka_brokers: k.kafka_brokers,
        kafka_topic: k.kafka_topic,
        kafka_group_id: k.kafka_group_id,
        rust_log: k.rust_log,
        kafka_sasl_mechanism: a.kafka_sasl_mechanism,
        kafka_username: a.kafka_username,
        kafka_password: a.kafka_password,
        kafka_security_protocol: a.kafka_security_protocol,
        ws_bind_addr,
        ws_channel_capacity: pc.1,
        ws_heartbeat_interval_secs: hb.0,
        ws_heartbeat_timeout_secs: hb.1,
        jwt_public_key_pem: s.pem,
        aws_region: optional_var(vars, "AWS_REGION"@, "us-east-1"@),
        sns_enabled: s.sns_enabled,
        sns_retry_count: s.retries,
        sns_batch_timeout_ms: s.batch,
    }
}

pub open spec fn connection_and_rest(
    vars: Seq<(String, String)>,
    pc: (nat, nat),
    hb: (nat, nat),
    s: SnsVars,
) -> Result<AppConfigView, AppErrorView> {
    match database_vars(vars) {
        Err(e) => Err(e),
        Ok(d) => match kafka_vars(vars) {
            Err(e) => Err(e),
            Ok(k) => match sasl_vars(vars) {
                Err(e) => Err(e),
                Ok(a) => match required_var(vars, "WS_BIND_ADDR"@) {
                    Err(e) => Err(e),
                    Ok(ws) => Ok(assemble(vars, pc, hb, s, d, k, a, ws)),
                },
            },
        },
    }
}

/// The settings that the variables give, or the first error in the order
/// the settings are read: the database port, the channel capacity, the two
/// heartbeat periods (the timeout must exceed the interval), the JWT key,
/// the SNS switch and its two numbers, then the connection settings.
pub open spec fn config_from_vars(vars: Seq<(String, String)>) -> Result<AppConfigView, AppErrorView> {
    match port_and_capacity(vars) {
        Err(e) => Err(e),
        Ok(pc) => match heartbeat_vars(vars) {
            Err(e) => Err(e),
            Ok(hb) => match sns_vars(vars) {
                Err(e) => Err(e),
                Ok(s) => connection_and_rest(vars, pc, hb, s),
            },
        },
    }
}

pub open spec fn text_result(r: Result<String, AppError>) -> Result<Seq<char>, AppErrorView> {
    match r {
        Ok(s) => Ok(s@),
        Err(e) => Err(e@),
    }
}

pub open spec fn number_result(r: Result<u64, AppError>) -> Result<nat, AppErrorView> {
    match r {
        Ok(v) => Ok(v as nat),
        Err(e) => Err(e@),
    }
}

pub open spec fn config_result(r: Result<AppConfig, AppError>) -> Result<AppConfigView, AppErrorView> {
    match r {
        Ok(c) => Ok(c@),
        Err(e) => Err(e@),
    }
}

/// The value of the first variable named `name`.
pub fn lookup_var(vars: &Vec<(String, String)>, name: &str) -> (r: Option<String>)
    ensures
        match r {
            Some(v) => env_lookup(vars@, name@) == Some(v@),
            None => env_lookup(vars@, name@) is None,
        },
{
    let n = vars.len();
    let mut i: usize = 0;
    assert(vars@.skip(0) =~= vars@);
    while i < n
        invariant
            n == vars@.len(),
            i <= n,
            env_lookup(vars@, name@) == env_lookup(vars@.skip(i as int), name@),
        decreases n - i,
    {
        let ghost rest = vars@.skip(i as int);
        assert(rest[0] == vars@[i as int]);
        assert(rest.skip(1) =~= vars@.skip(i + 1));
        if text_eq(vars[i].0.as_str(), name) {
            return Some(vars[i].1.clone());
        }
        i = i + 1;
    }
    assert(vars@.skip(n as int) =~= Seq::<(String, String)>::empty());
    None
}

fn required(vars: &Vec<(String, String)>, name: &str) -> (r: Result<String, AppError>)
    ensures
        text_result(r) == required_var(vars@, name@),
{
    match lookup_var(vars, name) {
        Some(v) => Ok(v),
        None => Err(AppError::MissingEnvVar(String::from_str(name))),
    }
}

fn optional(vars: &Vec<(String, String)>, name: &str, default: &str) -> (r: String)
    ensures
        r@ == optional_var(vars@, name@, default@),
{
    match lookup_var(vars, name) {
        Some(v) => v,
        None => String::from_str(default),
    }
}

fn number(raw: &str, name: &str, max: u64) -> (r: Result<u64, AppError>)
    ensures
        number_result(r) == number_var(raw@, name@, max as nat),
{
    match parse_unsigned_text(raw, max) {
        Some(v) => Ok(v),
        None => Err(AppError::InvalidEnvVar(String::from_str(name))),
    }
}

/// Turns every two-character `\n` escape into a line break.
pub fn unescape_newlines_text(text: &str) -> (r: String)
    ensures
        r@ == unescape_newlines(text@),
{
    let chars = chars_of(text);
    let n = chars.len();
    let mut out: Vec<char> = Vec::new();
    let mut i: usize = 0;
    assert(text@.skip(0) =~= text@);
    assert(out@ + unescape_newlines(text@) =~= unescape_newlines(text@));
    while i < n
        invariant
            chars@ == text@,
            n == chars@.len(),
            i <= n,
            out@ + unescape_newlines(text@.skip(i as int)) == unescape_newlines(text@),
        decreases n - i,
    {
        let ghost rest = text@.skip(i as int);
        if i + 1 < n && chars[i] == '\\' && chars[i + 1] == 'n' {
            proof {
                assert(rest[0] == '\\' && rest[1] == 'n');
                assert(rest.skip(2) =~= text@.skip(i + 2));
                assert(out@.push('\n') + unescape_newlines(rest.skip(2)) =~= out@ + unescape_newlines(rest));
            }
            out.push('\n');
            i = i + 2;
        } else {
            proof {
                assert(rest[0] == chars@[i as int]);
                assert(rest.skip(1) =~= text@.skip(i + 1));
                assert(!(rest.len() >= 2 && rest[0] == '\\' && rest[1] == 'n'));
                assert(out@.push(chars@[i as int]) + unescape_newlines(rest.skip(1)) =~= out@ + unescape_newlines(rest));
            }
            out.push(chars[i]);
            i = i + 1;
        }
    }
    proof {
        assert(text@.skip(n as int) =~= Seq::<char>::empty());
        assert(out@ + Seq::<char>::empty() =~= out@);
    }
    string_from_chars(&out)
}

impl AppConfig {
    /// Reads the settings from the environment's variables, given as
    /// name-value pairs.
    pub fn from_vars(vars: &Vec<(String, String)>) -> (r: Result<AppConfig, AppError>)
        ensures
            config_result(r) == config_from_vars(vars@),
    {
        let raw_port = match required(vars, "DB_PORT") { Ok(v) => v, Err(e) => { return Err(e); } };
        let db_port = match number(raw_port.as_str(), "DB_PORT", 65535) { Ok(v) => v as u16, Err(e) => { return Err(e); } };
        let raw_capacity = match required(vars, "WS_CHANNEL_CAPACITY") { Ok(v) => v, Err(e) => { return Err(e); } };
        let ws_channel_capacity = match number(raw_capacity.as_str(), "WS_CHANNEL_CAPACITY", usize::MAX as u64) { Ok(v) => v as usize, Err(e) => { return Err(e); } };
        let raw_interval = optional(vars, "WS_HEARTBEAT_INTERVAL_SECS", "30");
        let ws_heartbeat_interval_secs = match number(raw_interval.as_str(), "WS_HEARTBEAT_INTERVAL_SECS", u64::MAX) { Ok(v) => v, Err(e) => { return Err(e); } };
        let raw_timeout = optional(vars, "WS_HEARTBEAT_TIMEOUT_SECS", "60");
        let ws_heartbeat_timeout_secs = match number(raw_timeout.as_str(), "WS_HEARTBEAT_TIMEOUT_SECS", u64::MAX) { Ok(v) => v, Err(e) => { return Err(e); } };
        if ws_heartbeat_timeout_secs <= ws_heartbeat_interval_secs {
            return Err(AppError::InvalidEnvVar(String::from_str("WS_HEARTBEAT_TIMEOUT_SECS")));
        }
        let raw_pem = match required(vars, "JWT_PUBLIC_KEY_PEM") { Ok(v) => v, Err(e) => { return Err(e); } };
        let jwt_public_key_pem = unescape_newlines_text(raw_pem.as_str());
        let aws_region = optional(vars, "AWS_REGION", "us-east-1");
        let raw_enabled = optional(vars, "SNS_ENABLED", "false");
        let sns_enabled = match parse_bool_text(raw_enabled.as_str()) {
            Some(b) => b,
            None => { return Err(AppError::InvalidEnvVar(String::from_str("SNS_ENABLED"))); },
        };
        let raw_retries = optional(vars, "SNS_RETRY_COUNT", "3");
        let sns_retry_count = match number(raw_retries.as_str(), "SNS_RETRY_COUNT", u32::MAX as u64) { Ok(v) => v as u32, Err(e) => { return Err(e); } };
        let raw_batch = optional(vars, "SNS_BATCH_TIMEOUT_MS", "100");
        let sns_batch_timeout_ms = match number(raw_batch.as_str(), "SNS_BATCH_TIMEOUT_MS", u64::MAX) { Ok(v) => v, Err(e) => { return Err(e); } };
        let db_host = match required(vars, "DB_HOST") { Ok(v) => v, Err(e) => { return Err(e); } };
        let db_user = match required(vars, "DB_USER") { Ok(v) => v, Err(e) => { return Err(e); } };
        let db_password = match required(vars, "DB_PASSWORD") { Ok(v) => v, Err(e) => { return Err(e); } };
        let db_name = match required(vars, "DB_NAME") { Ok(v) => v, Err(e) => { return Err(e); } };
        let kafka_brokers = match required(vars, "KAFKA_BROKERS") { Ok(v) => v, Err(e) => { return Err(e); } };
        let kafka_topic = match required(vars, "KAFKA_TOPIC") { Ok(v) => v, Err(e) => { return Err(e); } };
        let kafka_group_id = match required(vars, "KAFKA_GROUP_ID") { Ok(v) => v, Err(e) => { return Err(e); } };
        let rust_log = match required(vars, "RUST_LOG") { Ok(v) => v, Err(e) => { return Err(e); } };
        let kafka_sasl_mechanism = match required(vars, "KAFKA_SASL_MECHANISM") { Ok(v) => v, Err(e) => { return Err(e); } };
        let kafka_username = match required(vars, "KAFKA_USERNAME") { Ok(v) => v, Err(e) => { return Err(e); } };
        let kafka_password = match required(vars, "KAFKA_PASSWORD") { Ok(v) => v, Err(e) => { return Err(e); } };
        let kafka_security_protocol = match required(vars, "KAFKA_SECURITY_PROTOCOL") { Ok(v) => v, Err(e) => { return Err(e); } };
        let ws_bind_addr = match required(vars, "WS_BIND_ADDR") { Ok(v) => v, Err(e) => { return Err(e); } };
        Ok(AppConfig {
            db_host,
            db_user,
            db_password,
            db_port,
            db_name,
            kafka_brokers,
            kafka_topic,
            kafka_group_id,
            rust_log,
            kafka_sasl_mechanism,
            kafka_username,
            kafka_password,
            kafka_security_protocol,
            ws_bind_addr,
            ws_channel_capacity,
            ws_heartbeat_interval_secs,
            ws_heartbeat_timeout_secs,
            jwt_public_key_pem,
            aws_region,
            sns_enabled,
            sns_retry_count,
            sns_batch_timeout_ms,
        })
    }
}


/// Settings that read without error have a heartbeat timeout longer than
/// the heartbeat interval.
pub proof fn law_heartbeat_timeout_exceeds_interval(vars: Seq<(String, String)>)
    ensures
        config_from_vars(vars) matches Ok(c) ==> c.ws_heartbeat_timeout_secs > c.ws_heartbeat_interval_secs,
{
}


/// The default texts read as the numbers and the switch they show.
proof fn lemma_default_numbers()
    ensures
        parse_unsigned("30"@, u64::MAX as nat) == Some(30nat),
        parse_unsigned("60"@, u64::MAX as nat) == Some(60nat),
        parse_unsigned("3"@, u32::MAX as nat) == Some(3nat),
        parse_unsigned("100"@, u64::MAX as nat) == Some(100nat),
        parse_bool("false"@) == Some(false),
{
    reveal_strlit("true");
    reveal_strlit("false");
    assert("false"@ != "true"@) by {
        assert("false"@.len() != "true"@.len());
    }
    reveal_strlit("30");
    reveal_strlit("60");
    reveal_strlit("3");
    reveal_strlit("100");
    reveal_with_fuel(digits_value, 4);
    assert("30"@.drop_last() =~= seq!['3']);
    assert(seq!['3'].drop_last() =~= Seq::<char>::empty());
    assert("60"@.drop_last() =~= seq!['6']);
    assert(seq!['6'].drop_last() =~= Seq::<char>::empty());
    assert("3"@.drop_last() =~= Seq::<char>::empty());
    assert("100"@.drop_last() =~= seq!['1', '0']);
    assert(seq!['1', '0'].drop_last() =~= seq!['1']);
    assert(seq!['1'].drop_last() =~= Seq::<char>::empty());
    assert(unsigned_digits("30"@) == "30"@);
    assert(unsigned_digits("60"@) == "60"@);
    assert(unsigned_digits("3"@) == "3"@);
    assert(unsigned_digits("100"@) == "100"@);
}

/// Every setting is read from its own variable: a text setting is the
/// variable's text, the JWT key with its escaped line breaks restored, a
/// number is the number the variable's text holds, and a setting whose
/// optional variable is absent takes its default.
pub proof fn law_settings_come_from_their_variables(vars: Seq<(String, String)>)
    ensures
        config_from_vars(vars) matches Ok(c) ==> {
            &&& env_lookup(vars, "DB_HOST"@) == Some(c.db_host)
            &&& env_lookup(vars, "DB_USER"@) == Some(c.db_user)
            &&& env_lookup(vars, "DB_PASSWORD"@) == Some(c.db_password)
            &&& env_lookup(vars, "DB_NAME"@) == Some(c.db_name)
            &&& env_lookup(vars, "KAFKA_BROKERS"@) == Some(c.kafka_brokers)
            &&& env_lookup(vars, "KAFKA_TOPIC"@) == Some(c.kafka_topic)
            &&& env_lookup(vars, "KAFKA_GROUP_ID"@) == Some(c.kafka_group_id)
            &&& env_lookup(vars, "RUST_LOG"@) == Some(c.rust_log)
            &&& env_lookup(vars, "KAFKA_SASL_MECHANISM"@) == Some(c.kafka_sasl_mechanism)
            &&& env_lookup(vars, "KAFKA_USERNAME"@) == Some(c.kafka_username)
            &&& env_lookup(vars, "KAFKA_PASSWORD"@) == Some(c.kafka_password)
            &&& env_lookup(vars, "KAFKA_SECURITY_PROTOCOL"@) == Some(c.kafka_security_protocol)
            &&& env_lookup(vars, "WS_BIND_ADDR"@) == Some(c.ws_bind_addr)
            &&& env_lookup(vars, "JWT_PUBLIC_KEY_PEM"@) matches Some(t) && c.jwt_public_key_pem == unescape_newlines(t)
            &&& env_lookup(vars, "DB_PORT"@) matches Some(t) && parse_unsigned(t, u16::MAX as nat) == Some(c.db_port)
            &&& env_lookup(vars, "WS_CHANNEL_CAPACITY"@) matches Some(t) && parse_unsigned(t, usize::MAX as nat) == Some(
                c.ws_channel_capacity,
            )
            &&& (env_lookup(vars, "WS_HEARTBEAT_INTERVAL_SECS"@) matches Some(t) ==> parse_unsigned(t, u64::MAX as nat) == Some(c.ws_heartbeat_interval_secs))
            &&& (env_lookup(vars, "WS_HEARTBEAT_INTERVAL_SECS"@) is None ==> c.ws_heartbeat_interval_secs == 30)
            &&& (env_lookup(vars, "WS_HEARTBEAT_TIMEOUT_SECS"@) matches Some(t) ==> parse_unsigned(t, u64::MAX as nat) == Some(c.ws_heartbeat_timeout_secs))
            &&& (env_lookup(vars, "WS_HEARTBEAT_TIMEOUT_SECS"@) is None ==> c.ws_heartbeat_timeout_secs == 60)
            &&& (env_lookup(vars, "SNS_RETRY_COUNT"@) matches Some(t) ==> parse_unsigned(t, u32::MAX as nat) == Some(c.sns_retry_count))
            &&& (env_lookup(vars, "SNS_RETRY_COUNT"@) is None ==> c.sns_retry_count == 3)
            &&& (env_lookup(vars, "SNS_BATCH_TIMEOUT_MS"@) matches Some(t) ==> parse_unsigned(t, u64::MAX as nat) == Some(c.sns_batch_timeout_ms))
            &&& (env_lookup(vars, "SNS_BATCH_TIMEOUT_MS"@) is None ==> c.sns_batch_timeout_ms == 100)
            &&& (env_lookup(vars, "SNS_ENABLED"@) matches Some(t) ==> parse_bool(t) == Some(c.sns_enabled))
            &&& (env_lookup(vars, "SNS_ENABLED"@) is None ==> !c.sns_enabled)
            &&& (env_lookup(vars, "AWS_REGION"@) matches Some(t) ==> c.aws_region == t)
            &&& (env_lookup(vars, "AWS_REGION"@) is None ==> c.aws_region == "us-east-1"@)
        },
{
    lemma_default_numbers();
}

/// Settings are refused where a required variable is missing, or where a
/// number's variable holds no number that fits the setting.
pub proof fn law_invalid_settings_refused(vars: Seq<(String, String)>)
    ensures
        env_lookup(vars, "DB_HOST"@) is None ==> config_from_vars(vars) is Err,
        env_lookup(vars, "DB_USER"@) is None ==> config_from_vars(vars) is Err,
        env_lookup(vars, "DB_PASSWORD"@) is None ==> config_from_vars(vars) is Err,
        env_lookup(vars, "DB_NAME"@) is None ==> config_from_vars(vars) is Err,
        env_lookup(vars, "KAFKA_BROKERS"@) is None ==> config_from_vars(vars) is Err,
        env_lookup(vars, "KAFKA_TOPIC"@) is None ==> config_from_vars(vars) is Err,
        env_lookup(vars, "KAFKA_GROUP_ID"@) is None ==> config_from_vars(vars) is Err,
        env_lookup(vars, "RUST_LOG"@) is None ==> config_from_vars(vars) is Err,
        env_lookup(vars, "KAFKA_SASL_MECHANISM"@) is None ==> config_from_vars(vars) is Err,
        env_lookup(vars, "KAFKA_USERNAME"@) is None ==> config_from_vars(vars) is Err,
        env_lookup(vars, "KAFKA_PASSWORD"@) is None ==> config_from_vars(vars) is Err,
        env_lookup(vars, "KAFKA_SECURITY_PROTOCOL"@) is None ==> config_from_vars(vars) is Err,
        env_lookup(vars, "WS_BIND_ADDR"@) is None ==> config_from_vars(vars) is Err,
        env_lookup(vars, "JWT_PUBLIC_KEY_PEM"@) is None ==> config_from_vars(vars) is Err,
        env_lookup(vars, "DB_PORT"@) is None ==> config_from_vars(vars) is Err,
        env_lookup(vars, "WS_CHANNEL_CAPACITY"@) is None ==> config_from_vars(vars) is Err,
        (env_lookup(vars, "DB_PORT"@) matches Some(t) && parse_unsigned(t, u16::MAX as nat) is None) ==> config_from_vars(vars) is Err,
        (env_lookup(vars, "WS_CHANNEL_CAPACITY"@) matches Some(t) && parse_unsigned(t, usize::MAX as nat) is None) ==> config_from_vars(vars) is Err,
        (env_lookup(vars, "WS_HEARTBEAT_INTERVAL_SECS"@) matches Some(t) && parse_unsigned(t, u64::MAX as nat) is None) ==> config_from_vars(vars) is Err,
        (env_lookup(vars, "WS_HEARTBEAT_TIMEOUT_SECS"@) matches Some(t) && parse_unsigned(t, u64::MAX as nat) is None) ==> config_from_vars(vars) is Err,
        (env_lookup(vars, "SNS_RETRY_COUNT"@) matches Some(t) && parse_unsigned(t, u32::MAX as nat) is None) ==> config_from_vars(vars) is Err,
        (env_lookup(vars, "SNS_BATCH_TIMEOUT_MS"@) matches Some(t) && parse_unsigned(t, u64::MAX as nat) is None) ==> config_from_vars(vars) is Err,
        (env_lookup(vars, "SNS_ENABLED"@) matches Some(t) && parse_bool(t) is None) ==> config_from_vars(vars) is Err,
{
}

} // verus!
