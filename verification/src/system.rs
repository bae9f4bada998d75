//! The host that a test runs on.

use crate::clock::since_epoch_micros;
use crate::VERSION;
use vstd::prelude::*;
use vstd::string::*;

verus! {

/// System information for test environment.
///
/// Contains version information and system details about the host running the test.
#[derive(Debug)]
pub struct SystemInfo {
    /// The program and its version
    pub version: String,
    /// Operating system, architecture and name of the host
    pub system_info: String,
    /// Seconds since the UNIX epoch
    pub timestamp: i64,
    /// The same moment for people
    pub timestamp_str: String,
}

impl Clone for SystemInfo {
    fn clone(&self) -> (r: Self)
        ensures
            r == *self,
    {
        SystemInfo {
            version: self.version.clone(),
            system_info: self.system_info.clone(),
            timestamp: self.timestamp,
            timestamp_str: self.timestamp_str.clone(),
        }
    }
}

/// The program and its version.
pub open spec fn version_text() -> Seq<char> {
    "rperf3 "@ + VERSION@
}

/// Operating system and architecture, as they are shown.
pub open spec fn platform_text(os: Seq<char>, arch: Seq<char>) -> Seq<char> {
    os + " "@ + arch
}

/// The program and its version.
pub fn program_version() -> (r: String)
    ensures
        r@ == version_text(),
{
    let mut text: String = String::from_str("rperf3 ");
    text.append(VERSION);
    text
}

/// Operating system and architecture, as they are shown.
pub fn platform_name(os: &str, arch: &str) -> (r: String)
    ensures
        r@ == platform_text(os@, arch@),
{
    let mut text: String = String::from_str(os);
    text.append(" ");
    text.append(arch);
    text
}

/// The last second of the year 9999, counted from the UNIX epoch. Later moments have no form in
/// RFC 2822.
pub const LAST_SECOND: i64 = 253_402_300_799;

/// What `chrono::DateTime::to_rfc2822` gives for the UTC moment so many seconds after the UNIX
/// epoch.
pub uninterp spec fn rfc2822_text(seconds: int) -> Seq<char>;

/// `chrono::DateTime::from_timestamp` and `chrono::DateTime::to_rfc2822`: a moment in words, by its
/// whole seconds since the UNIX epoch. The words depend on those seconds alone. Both calls
/// succeed on every moment up to the end of the year 9999.
#[verifier::external_body]
fn rfc2822_of(seconds: i64) -> (r: String)
    requires
        0 <= seconds <= LAST_SECOND,
    ensures
        r@ == rfc2822_text(seconds as int),
{
    chrono::DateTime::from_timestamp(seconds, 0).unwrap().to_rfc2822()
}

/// The whole seconds of a reading of the wall clock, which is in microseconds since the UNIX epoch.
/// A clock that stands before the epoch reads zero, and one that stands beyond the year 9999 reads
/// its last second.
pub open spec fn shown_seconds(reading: Option<u128>) -> int {
    match reading {
        Some(micros) => if micros / 1_000_000 <= LAST_SECOND {
            (micros / 1_000_000) as int
        } else {
            LAST_SECOND as int
        },
        None => 0,
    }
}

/// The moment of a reading of the wall clock: its seconds since the UNIX epoch, and the same moment
/// in words.
pub fn moment_of(reading: Option<u128>) -> (r: (i64, String))
    ensures
        r.0 == shown_seconds(reading),
        r.1@ == rfc2822_text(shown_seconds(reading)),
{
    let seconds: i64 = match reading {
        Some(micros) => if micros / 1_000_000 <= LAST_SECOND as u128 {
            (micros / 1_000_000) as i64
        } else {
            LAST_SECOND
        },
        None => 0,
    };
    (seconds, rfc2822_of(seconds))
}

/// The present moment by the wall clock: its seconds since the UNIX epoch, and the same moment in
/// words.
pub(crate) fn present_moment() -> (r: (i64, String))
    ensures
        0 <= r.0 <= LAST_SECOND,
        r.1@ == rfc2822_text(r.0 as int),
{
    moment_of(since_epoch_micros(std::time::SystemTime::now()))
}

/// `rand::random`: a random number of 128 bits. Nothing is claimed of it.
#[verifier::external_body]
pub(crate) fn random_cookie() -> (r: u128)
{
    rand::random::<u128>()
}

/// `hostname::get`: the name of the host, or `None` when it cannot be had or is no Unicode text.
/// It depends on the host, so nothing is claimed of it.
#[verifier::external_body]
fn host_name() -> (r: Option<String>)
{
    hostname::get().ok().and_then(|name| name.into_string().ok())
}

/// System information from what was read of the host.
pub fn system_info_from(
    os: &str,
    arch: &str,
    host: Option<String>,
    timestamp: i64,
    timestamp_str: String,
) -> (r: SystemInfo)
    ensures
        r.version@ == version_text(),
        r.system_info@ == platform_text(os@, arch@) + " "@ + (match host {
            Some(name) => name@,
            None => "unknown"@,
        }),
        r.timestamp == timestamp,
        r.timestamp_str == timestamp_str,
{
    let mut text: String = platform_name(os, arch);
    text.append(" ");
    match host {
        Some(name) => {
            text.append(name.as_str());
        },
        None => {
            text.append("unknown");
        },
    }
    SystemInfo { version: program_version(), system_info: text, timestamp, timestamp_str }
}

/// Retrieves system information for the current host.
///
/// Collects version, OS, architecture, hostname, and timestamp information.
pub fn get_system_info(os: &str, arch: &str) -> (r: SystemInfo)
    ensures
        r.version@ == version_text(),
        exists|host: Seq<char>|
            r.system_info@ == #[trigger] (platform_text(os@, arch@) + " "@ + host),
        0 <= r.timestamp <= LAST_SECOND,
        r.timestamp_str@ == rfc2822_text(r.timestamp as int),
{
    let (timestamp, timestamp_str): (i64, String) = present_moment();
    system_info_from(os, arch, host_name(), timestamp, timestamp_str)
}

/// Law: the seconds that are shown of a reading are all that have passed, from the UNIX epoch to the
/// end of the year 9999.
pub proof fn law_shown_seconds_have_passed(reading: Option<u128>)
    ensures
        0 <= shown_seconds(reading) <= 253_402_300_799,
        reading matches Some(micros) ==> shown_seconds(reading) * 1_000_000 <= micros,
        reading matches Some(micros) ==> micros < 253_402_300_800_000_000 ==> micros < (
        shown_seconds(reading) + 1) * 1_000_000,
        reading is None ==> shown_seconds(reading) == 0,
{
}

/// Law: a platform is named by its operating system and its architecture, in this order and with one
/// space between, and a version by the name of the program and the version.
pub proof fn law_names_are_joined(os: Seq<char>, arch: Seq<char>)
    ensures
        platform_text(os, arch).len() == os.len() + 1 + arch.len(),
        platform_text(os, arch).take(os.len() as int) == os,
        platform_text(os, arch)[os.len() as int] == ' ',
        platform_text(os, arch).skip(os.len() as int + 1) == arch,
        version_text().take(7) == "rperf3 "@,
        version_text().skip(7) == VERSION@,
{
    reveal_strlit(" ");
    reveal_strlit("rperf3 ");
    assert(platform_text(os, arch).take(os.len() as int) =~= os);
    assert(platform_text(os, arch).skip(os.len() as int + 1) =~= arch);
    assert(version_text().take(7) =~= "rperf3 "@);
    assert(version_text().skip(7) =~= VERSION@);
}

} // verus!
