//! The configuration of the service: storage connections, uploads, logging
//! and cross-origin access.

use vstd::prelude::*;
use vstd::string::StringExecFns;

use crate::text;
use crate::text::{decimal, decimal_string};

verus! {

/// Limits on uploaded media.
pub struct UploadContentConfig {
    pub support_mime: Vec<String>,
    pub max_size: usize,
    pub max_image_on_campaign: usize,
}

/// The connection to the cache.
pub struct RedisConfig {
    pub host: String,
    pub port: usize,
    pub db: usize,
}

/// The connection to the database.
pub struct PostgresConfig {
    pub max_connections: u32,
    pub postgres_conn: String,
}

/// The connections to the database and the cache.
pub struct DatabaseConfig {
    pub postgres: PostgresConfig,
    pub redis: RedisConfig,
}

/// Cross-origin access.
pub struct CorsConfig {
    pub allowed_methods: Vec<String>,
    pub allowed_headers: Vec<String>,
    pub max_age: usize,
}

/// The most detailed level a log records.
#[derive(PartialEq, Eq, Structural, Clone, Copy, Debug)]
pub enum LevelFilter {
    Off,
    Error,
    Warn,
    Info,
    Debug,
    Trace,
}

/// Where and how much the service logs.
pub struct LoggerConfig {
    pub max_level_cmd: LevelFilter,
    pub max_level_file: LevelFilter,
    pub max_level_error_file: LevelFilter,
    pub log_dir: String,
}

/// The address of the cache: `redis://<host>:<port>/<db>`.
pub open spec fn redis_url(host: Seq<char>, port: nat, db: nat) -> Seq<char> {
    "redis://"@ + host + ":"@ + decimal(port) + "/"@ + decimal(db)
}

impl RedisConfig {
    /// The address of the cache.
    pub fn url(&self) -> (r: String)
        ensures
            r@ == redis_url(self.host@, self.port as nat, self.db as nat),
    {
        let mut r = String::from_str("redis://");
        r.append(self.host.as_str());
        r.append(":");
        r.append(decimal_string(self.port as u64).as_str());
        r.append("/");
        r.append(decimal_string(self.db as u64).as_str());
        r
    }
}

/// `n` in decimal, padded with zeros to at least `width` digits.
pub open spec fn zero_padded(n: nat, width: nat) -> Seq<char> {
    let d = decimal(n);
    if d.len() < width {
        Seq::new((width - d.len()) as nat, |i: int| '0') + d
    } else {
        d
    }
}

/// Pads the decimal digits of `n` with zeros to at least `width` digits.
fn zero_padded_string(n: u64, width: usize) -> (r: String)
    ensures
        r@ == zero_padded(n as nat, width as nat),
{
    let d = text::decimal_chars(n);
    let mut v: Vec<char> = Vec::new();
    if d.len() < width {
        let pad = width - d.len();
        let mut k: usize = 0;
        while k < pad
            invariant
                k <= pad,
                v@ == Seq::new(k as nat, |i: int| '0'),
            decreases pad - k,
        {
            v.push('0');
            assert(v@ =~= Seq::new((k + 1) as nat, |i: int| '0'));
            k = k + 1;
        }
    }
    let mut k: usize = 0;
    let ghost base = v@;
    while k < d.len()
        invariant
            k <= d.len(),
            v@ == base + d@.take(k as int),
        decreases d.len() - k,
    {
        v.push(d[k]);
        assert(base + d@.take(k + 1) =~= (base + d@.take(k as int)).push(d@[k as int]));
        k = k + 1;
    }
    assert(d@.take(d.len() as int) =~= d@);
    if d.len() >= width {
        assert(base =~= seq![]);
        assert(v@ =~= d@);
    }
    text::string_of(&v)
}

/// The name of a log file opened at a given moment:
/// `<name>-YYYY-MM-DD-HH-MM-SS.log`.
pub open spec fn log_file_name(name: Seq<char>, year: nat, month: nat, day: nat, hour: nat, minute: nat, second: nat) -> Seq<char> {
    name + "-"@ + zero_padded(year, 4) + "-"@ + zero_padded(month, 2) + "-"@ + zero_padded(day, 2)
        + "-"@ + zero_padded(hour, 2) + "-"@ + zero_padded(minute, 2) + "-"@ + zero_padded(second, 2)
        + ".log"@
}

impl LoggerConfig {
    /// The name of the log file `file_name` opened at the given moment.
    pub fn log_file_name(&self, file_name: &str, year: u32, month: u32, day: u32, hour: u32, minute: u32, second: u32) -> (r: String)
        ensures
            r@ == log_file_name(
                file_name@,
                year as nat,
                month as nat,
                day as nat,
                hour as nat,
                minute as nat,
                second as nat,
            ),
    {
        let mut r = String::from_str(file_name);
        r.append("-");
        r.append(zero_padded_string(year as u64, 4).as_str());
        r.append("-");
        r.append(zero_padded_string(month as u64, 2).as_str());
        r.append("-");
        r.append(zero_padded_string(day as u64, 2).as_str());
        r.append("-");
        r.append(zero_padded_string(hour as u64, 2).as_str());
        r.append("-");
        r.append(zero_padded_string(minute as u64, 2).as_str());
        r.append("-");
        r.append(zero_padded_string(second as u64, 2).as_str());
        r.append(".log");
        r
    }
}

} // verus!
