//! The agent's metrics service: assemble one snapshot from what the host
//! files said.
//!
//! The process edge reads the hostname file and the memory table and hands
//! their contents over, or `None` where a read failed; everything decided
//! about the contents is decided here.

use vstd::prelude::*;

use crate::meminfo::{parse_meminfo, spec_parse_meminfo};
use crate::messages::{Memory, MetricsResponse};

verus! {

/// The Unicode white-space characters, the set a standard string trim
/// removes: the ASCII controls and space, next line, no-break space, ogham
/// space mark, the en-quad..hair-space range, the two separators, narrow
/// no-break space, medium mathematical space, and ideographic space.
pub open spec fn is_ws_char(c: char) -> bool {
    let u = c as u32;
    (9 <= u <= 13) || u == 32 || u == 0x85 || u == 0xA0 || u == 0x1680 || (0x2000 <= u <= 0x200A)
        || u == 0x2028 || u == 0x2029 || u == 0x202F || u == 0x205F || u == 0x3000
}

pub open spec fn trim_front(s: Seq<char>) -> Seq<char>
    decreases s.len(),
{
    if s.len() > 0 && is_ws_char(s[0]) {
        trim_front(s.drop_first())
    } else {
        s
    }
}

pub open spec fn trim_back(s: Seq<char>) -> Seq<char>
    decreases s.len(),
{
    if s.len() > 0 && is_ws_char(s.last()) {
        trim_back(s.drop_last())
    } else {
        s
    }
}

/// The string with its leading and trailing white space removed.
pub open spec fn spec_trim(s: Seq<char>) -> Seq<char> {
    trim_back(trim_front(s))
}

fn is_ws_char_exec(c: char) -> (r: bool)
    ensures
        r == is_ws_char(c),
{
    let u: u32 = c as u32;
    (9 <= u && u <= 13) || u == 32 || u == 0x85 || u == 0xA0 || u == 0x1680 || (0x2000 <= u && u
        <= 0x200A) || u == 0x2028 || u == 0x2029 || u == 0x202F || u == 0x205F || u == 0x3000
}

/// Trim white space off both ends, the way a hostname file's trailing
/// newline is dropped.
pub fn trim_whitespace(s: &str) -> (r: String)
    ensures
        r@ == spec_trim(s@),
{
    let n: usize = s.unicode_len();
    let mut a: usize = 0;
    proof {
        assert(s@.skip(0) =~= s@);
    }
    while a < n && is_ws_char_exec(s.get_char(a))
        invariant
            a <= n,
            n == s@.len(),
            trim_front(s@) == trim_front(s@.skip(a as int)),
        decreases n - a,
    {
        proof {
            assert(s@.skip(a as int).drop_first() =~= s@.skip(a + 1));
        }
        a = a + 1;
    }
    proof {
        assert(trim_front(s@) == s@.skip(a as int));
        assert(s@.skip(a as int) =~= s@.subrange(a as int, n as int));
    }
    let mut b: usize = n;
    while b > a && is_ws_char_exec(s.get_char(b - 1))
        invariant
            a <= b <= n,
            n == s@.len(),
            trim_back(s@.skip(a as int)) == trim_back(s@.subrange(a as int, b as int)),
        decreases b,
    {
        proof {
            assert(s@.subrange(a as int, b as int).drop_last() =~= s@.subrange(a as int, b - 1));
            assert(s@.subrange(a as int, b as int).last() == s@[b - 1]);
        }
        b = b - 1;
    }
    proof {
        assert(trim_back(s@.subrange(a as int, b as int)) == s@.subrange(a as int, b as int));
    }
    let trimmed = s.substring_char(a, b);
    trimmed.to_owned()
}

/// Why one metrics call failed. Either way it is an internal error of this
/// one call: the host's state could not be read.
#[derive(Clone, Copy, PartialEq, Eq, Structural, Debug)]
pub enum MetricsError {
    /// The host's name could not be read, so there is nothing to report
    /// the snapshot under.
    HostnameUnavailable,
    /// The host's memory table could not be read, or some recognized line
    /// of it could not be parsed.
    MemoryUnavailable,
}

/// The agent's metrics service: remembers where the host keeps its name
/// and its statistic tables.
pub struct CollectorMetricService {
    pub hostname_file: String,
    pub proc_dir: String,
}

impl CollectorMetricService {
    pub fn new(host: String, proc_dir: String) -> (s: CollectorMetricService)
        ensures
            s.hostname_file == host,
            s.proc_dir == proc_dir,
    {
        CollectorMetricService { hostname_file: host, proc_dir }
    }

    /// Assemble one snapshot. The call fails, with an internal error of its
    /// own, exactly when some piece of host state cannot be read: the
    /// hostname file, or the memory table (unreadable or malformed). The
    /// CPU and network placeholders are zero.
    pub fn request_metrics(
        &self,
        hostname_read: Option<String>,
        meminfo_read: Option<Vec<u8>>,
    ) -> (r: Result<MetricsResponse, MetricsError>)
        ensures
            match r {
                Ok(resp) => {
                    &&& hostname_read is Some
                    &&& meminfo_read is Some
                    &&& spec_parse_meminfo(meminfo_read->0@) is Some
                    &&& resp.host@ == spec_trim(hostname_read->0@)
                    &&& resp.cpu_usage == 0
                    &&& resp.net_usage == 0
                    &&& resp.memory == spec_parse_meminfo(meminfo_read->0@)
                },
                Err(e) => {
                    &&& (hostname_read is None || meminfo_read is None || spec_parse_meminfo(
                        meminfo_read->0@,
                    ) is None)
                    &&& e == (if hostname_read is None {
                        MetricsError::HostnameUnavailable
                    } else {
                        MetricsError::MemoryUnavailable
                    })
                },
            },
    {
        let host = match hostname_read {
            Some(h) => trim_whitespace(h.as_str()),
            None => {
                return Err(MetricsError::HostnameUnavailable);
            },
        };
        let memory: Option<Memory> = match meminfo_read {
            Some(text) => match parse_meminfo(text.as_slice()) {
                Ok(mem) => Some(mem),
                Err(_) => {
                    return Err(MetricsError::MemoryUnavailable);
                },
            },
            None => {
                return Err(MetricsError::MemoryUnavailable);
            },
        };
        Ok(MetricsResponse { host, cpu_usage: 0, memory, net_usage: 0 })
    }
}

} // verus!
