//! Configuration records and their defaults. Loading them from files and
//! the environment is the binary's concern; the values themselves and
//! their defaults live here.

use vstd::prelude::*;

verus! {

use vstd::string::StringExecFns;
use crate::util::{str_eq, clone_option_string};

pub fn default_true() -> (r: bool)
    ensures
        r,
{
    true
}

pub fn default_false() -> (r: bool)
    ensures
        !r,
{
    false
}

/// Token signing configuration: the signing secret and the token lifetime
/// in hours.
#[derive(Debug)]
pub struct JwtConfig {
    pub secret: String,
    pub expiry: i64,
}

impl JwtConfig {
    pub fn new(secret: String, expiry: i64) -> (r: Self)
        ensures
            r.secret == secret,
            r.expiry == expiry,
    {
        JwtConfig { secret, expiry }
    }
}

/// The token lifetime used when none is configured, in hours.
pub fn default_expiry() -> (r: i64)
    ensures
        r == 24,
{
    24
}

/// Where the durable relational store lives.
#[derive(Debug)]
pub struct DbConfig {
    pub host: String,
    pub port: u16,
    pub username: String,
    pub password: String,
    pub database: String,
}

/// Where the key-value store lives.
#[derive(Debug)]
pub struct RedisConfig {
    pub host: String,
    pub port: u16,
    pub db: u8,
    pub password: Option<String>,
}

impl RedisConfig {
    pub fn new(host: String, port: u16, db: u8, password: Option<String>) -> (r: Self)
        ensures
            r.host == host,
            r.port == port,
            r.db == db,
            r.password == password,
    {
        RedisConfig { host, port, db, password }
    }
}

pub fn default_redis_host() -> (r: String)
    ensures
        r@ == "127.0.0.1"@,
{
    String::from_str("127.0.0.1")
}

pub fn default_redis_port() -> (r: u16)
    ensures
        r == 6379,
{
    6379
}

impl Default for RedisConfig {
    fn default() -> (r: Self)
        ensures
            r.host@ == "127.0.0.1"@,
            r.port == 6379,
            r.db == 0,
            r.password is None,
    {
        RedisConfig { host: default_redis_host(), port: default_redis_port(), db: 0, password: None }
    }
}

/// Upload handling limits and switches.
#[derive(Debug)]
pub struct UploadConfig {
    pub path: String,
    pub max_image_size_mb: u64,
    pub max_file_size_mb: u64,
    pub enable_image_processing: bool,
    pub image_quality: u8,
    pub thumbnail_max_width: u32,
    pub thumbnail_max_height: u32,
    pub save_original: bool,
}

pub fn default_upload_path() -> (r: String)
    ensures
        r@ == "uploads"@,
{
    String::from_str("uploads")
}

pub fn default_max_image_size_mb() -> (r: u64)
    ensures
        r == 10,
{
    10
}

pub fn default_max_file_size_mb() -> (r: u64)
    ensures
        r == 50,
{
    50
}

pub fn default_image_quality() -> (r: u8)
    ensures
        r == 85,
{
    85
}

pub fn default_thumbnail_max_width() -> (r: u32)
    ensures
        r == 800,
{
    800
}

pub fn default_thumbnail_max_height() -> (r: u32)
    ensures
        r == 800,
{
    800
}

/// The first page asked for when a listing request names none.
pub fn default_page() -> (r: i64)
    ensures
        r == 1,
{
    1
}

/// The page size used when a listing request names none.
pub fn default_page_size() -> (r: i64)
    ensures
        r == 10,
{
    10
}

/// Structured-logging configuration, with a builder for each knob.
#[derive(Debug)]
pub struct LogConfig {
    pub filter_level: String,
    pub with_ansi: bool,
    pub stdout: bool,
    pub directory: String,
    pub file_name: String,
    pub rolling: String,
    pub format: String,
    pub with_level: bool,
    pub with_target: bool,
    pub with_thread_ids: bool,
    pub with_thread_names: bool,
    pub with_source_location: bool,
}

pub fn default_filter_level() -> (r: String)
    ensures
        r@ == "info"@,
{
    String::from_str("info")
}

pub fn default_directory() -> (r: String)
    ensures
        r@ == "./log"@,
{
    String::from_str("./log")
}

pub fn default_file_name() -> (r: String)
    ensures
        r@ == "app.log"@,
{
    String::from_str("app.log")
}

pub fn default_rolling() -> (r: String)
    ensures
        r@ == "daily"@,
{
    String::from_str("daily")
}

pub fn default_format() -> (r: String)
    ensures
        r@ == "full"@,
{
    String::from_str("full")
}

/// A rolling cadence the log writer understands.
pub open spec fn spec_valid_rolling(value: Seq<char>) -> bool {
    value == "minutely"@ || value == "hourly"@ || value == "daily"@ || value == "never"@
}

/// An output layout the log writer understands.
pub open spec fn spec_valid_format(value: Seq<char>) -> bool {
    value == "pretty"@ || value == "compact"@ || value == "json"@ || value == "full"@
}

impl Default for LogConfig {
    fn default() -> (r: Self)
        ensures
            r.filter_level@ == "info"@,
            !r.stdout,
            r.with_ansi && r.with_level && r.with_target && r.with_thread_ids
                && r.with_thread_names && r.with_source_location,
            r.directory@ == "./log"@,
            r.file_name@ == "app.log"@,
            r.rolling@ == "daily"@,
            r.format@ == "full"@,
    {
        LogConfig {
            filter_level: default_filter_level(),
            with_ansi: true,
            stdout: false,
            directory: default_directory(),
            file_name: default_file_name(),
            rolling: default_rolling(),
            format: default_format(),
            with_level: true,
            with_target: true,
            with_thread_ids: true,
            with_thread_names: true,
            with_source_location: true,
        }
    }
}

impl LogConfig {
    pub fn filter_level(self, filter_level: &str) -> (r: Self)
        ensures
            r == (LogConfig { filter_level: r.filter_level, ..self }),
            r.filter_level@ == filter_level@,
    {
        LogConfig { filter_level: String::from_str(filter_level), ..self }
    }

    pub fn with_ansi(self, with_ansi: bool) -> (r: Self)
        ensures
            r == (LogConfig { with_ansi, ..self }),
    {
        LogConfig { with_ansi, ..self }
    }

    pub fn stdout(self, stdout: bool) -> (r: Self)
        ensures
            r == (LogConfig { stdout, ..self }),
    {
        LogConfig { stdout, ..self }
    }

    pub fn directory(self, directory: &str) -> (r: Self)
        ensures
            r == (LogConfig { directory: r.directory, ..self }),
            r.directory@ == directory@,
    {
        LogConfig { directory: String::from_str(directory), ..self }
    }

    pub fn file_name(self, file_name: &str) -> (r: Self)
        ensures
            r == (LogConfig { file_name: r.file_name, ..self }),
            r.file_name@ == file_name@,
    {
        LogConfig { file_name: String::from_str(file_name), ..self }
    }

    /// Valid values: minutely, hourly, daily, never; anything else is
    /// rejected before it can reach the log writer.
    pub fn rolling(self, rolling: &str) -> (r: Result<Self, Self>)
        ensures
            spec_valid_rolling(rolling@) ==> (r matches Ok(c) && c == (LogConfig {
                rolling: c.rolling,
                ..self
            }) && c.rolling@ == rolling@),
            !spec_valid_rolling(rolling@) ==> r == Err::<Self, Self>(self),
    {
        if str_eq(rolling, "minutely") || str_eq(rolling, "hourly") || str_eq(rolling, "daily")
            || str_eq(rolling, "never") {
            Ok(LogConfig { rolling: String::from_str(rolling), ..self })
        } else {
            Err(self)
        }
    }

    /// Valid values: pretty, compact, json, full; anything else is rejected
    /// before it can reach the log writer.
    pub fn format(self, format: &str) -> (r: Result<Self, Self>)
        ensures
            spec_valid_format(format@) ==> (r matches Ok(c) && c == (LogConfig {
                format: c.format,
                ..self
            }) && c.format@ == format@),
            !spec_valid_format(format@) ==> r == Err::<Self, Self>(self),
    {
        if str_eq(format, "pretty") || str_eq(format, "compact") || str_eq(format, "json")
            || str_eq(format, "full") {
            Ok(LogConfig { format: String::from_str(format), ..self })
        } else {
            Err(self)
        }
    }

    pub fn with_level(self, with_level: bool) -> (r: Self)
        ensures
            r == (LogConfig { with_level, ..self }),
    {
        LogConfig { with_level, ..self }
    }

    pub fn with_target(self, with_target: bool) -> (r: Self)
        ensures
            r == (LogConfig { with_target, ..self }),
    {
        LogConfig { with_target, ..self }
    }

    pub fn with_thread_ids(self, with_thread_ids: bool) -> (r: Self)
        ensures
            r == (LogConfig { with_thread_ids, ..self }),
    {
        LogConfig { with_thread_ids, ..self }
    }

    pub fn with_thread_names(self, with_thread_names: bool) -> (r: Self)
        ensures
            r == (LogConfig { with_thread_names, ..self }),
    {
        LogConfig { with_thread_names, ..self }
    }

    pub fn with_source_location(self, with_source_location: bool) -> (r: Self)
        ensures
            r == (LogConfig { with_source_location, ..self }),
    {
        LogConfig { with_source_location, ..self }
    }
}

/// Everything the server reads at startup.
#[derive(Debug)]
pub struct ServerConfig {
    pub log: LogConfig,
    pub db: DbConfig,
    pub jwt: JwtConfig,
    pub redis: RedisConfig,
}

} // verus!
