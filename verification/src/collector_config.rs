//! The agent's configuration: where the aggregator listens, where the host
//! tables live, and the validated port of the agent's own metrics endpoint.
//!
//! The process edge reads the raw values and hands them here as plain
//! strings; everything decided about them is decided here.

use vstd::prelude::*;

verus! {

/// Why a configuration value was refused.
#[derive(Debug)]
pub enum Error {
    /// The value is present but does not denote what it should.
    BadConfigValue(String),
    /// A required value is empty or absent.
    MissingConfigValue,
}

pub open spec fn is_digit_char(c: char) -> bool {
    48 <= c as u32 <= 57
}

pub open spec fn all_digit_chars(s: Seq<char>) -> bool {
    forall|i: int| 0 <= i < s.len() ==> is_digit_char(#[trigger] s[i])
}

/// The value of a decimal digit string, most significant digit first.
pub open spec fn dec_chars_value(s: Seq<char>) -> int
    decreases s.len(),
{
    if s.len() == 0 {
        0
    } else {
        dec_chars_value(s.drop_last()) * 10 + s.last() as u32 - 48
    }
}

proof fn lemma_dec_chars_value_nonneg(s: Seq<char>)
    requires
        all_digit_chars(s),
    ensures
        dec_chars_value(s) >= 0,
    decreases s.len(),
{
    if s.len() > 0 {
        assert(all_digit_chars(s.drop_last()));
        lemma_dec_chars_value_nonneg(s.drop_last());
    }
}

/// A digit string is worth at least any of its prefixes.
proof fn lemma_dec_chars_value_take_bound(s: Seq<char>, i: int)
    requires
        all_digit_chars(s),
        0 <= i <= s.len(),
    ensures
        dec_chars_value(s.take(i)) <= dec_chars_value(s),
    decreases s.len(),
{
    if i == s.len() {
        assert(s.take(i) =~= s);
    } else {
        assert(all_digit_chars(s.drop_last()));
        assert(s.drop_last().take(i) =~= s.take(i));
        lemma_dec_chars_value_take_bound(s.drop_last(), i);
        lemma_dec_chars_value_nonneg(s.drop_last());
    }
}

/// The digits of a number written the way an unsigned parse reads it: an
/// optional leading plus sign, then the digits themselves.
pub open spec fn digits_of(s: Seq<char>) -> Seq<char> {
    if s.len() > 0 && s[0] == '+' {
        s.drop_first()
    } else {
        s
    }
}

/// What an unsigned 16-bit parse of the string yields, if anything.
pub open spec fn spec_parse_u16(s: Seq<char>) -> Option<u16> {
    let d = digits_of(s);
    if d.len() > 0 && all_digit_chars(d) && dec_chars_value(d) <= u16::MAX {
        Some(dec_chars_value(d) as u16)
    } else {
        None
    }
}

/// The lowest port an agent may advertise; everything below is reserved.
pub const MIN_PORT: u16 = 1024;

/// A validated metrics-endpoint port, always between 1024 and 65535.
#[derive(Clone, Copy, PartialEq, Eq, Structural, Debug)]
pub struct Port {
    value: u16,
}

impl Port {
    pub closed spec fn spec_value(&self) -> u16 {
        self.value
    }

    pub open spec fn valid(&self) -> bool {
        self.spec_value() >= MIN_PORT
    }

    pub fn value(&self) -> (v: u16)
        ensures
            v == self.spec_value(),
    {
        self.value
    }

    /// Validate a port string: empty is missing; anything that is not an
    /// unsigned 16-bit decimal, or that names a reserved port, is bad. A
    /// returned port is the number the string denotes.
    pub fn from_str(s: &str) -> (r: Result<Port, Error>)
        ensures
            match r {
                Ok(p) => {
                    &&& s@.len() > 0
                    &&& spec_parse_u16(s@) is Some
                    &&& p.spec_value() == spec_parse_u16(s@)->Some_0
                    &&& p.spec_value() >= MIN_PORT
                    &&& p.valid()
                },
                Err(Error::MissingConfigValue) => s@.len() == 0,
                Err(Error::BadConfigValue(t)) => {
                    &&& s@.len() > 0
                    &&& t@ == s@
                    &&& (spec_parse_u16(s@) is None || spec_parse_u16(s@)->Some_0 < MIN_PORT)
                },
            },
    {
        let n: usize = s.unicode_len();
        if n == 0 {
            return Err(Error::MissingConfigValue);
        }
        let mut ds: usize = 0;
        let first: char = s.get_char(0);
        if first == '+' {
            ds = 1;
        }
        let ghost d = digits_of(s@);
        proof {
            assert(s@.skip(ds as int) =~= d);
        }
        if ds == n {
            return Err(Error::BadConfigValue(s.to_owned()));
        }
        let mut val: u64 = 0;
        let mut i: usize = ds;
        while i < n
            invariant
                ds <= i <= n,
                n == s@.len(),
                d == s@.skip(ds as int),
                d == digits_of(s@),
                all_digit_chars(d.take(i - ds)),
                val == dec_chars_value(d.take(i - ds)),
        decreases n - i,
        {
            let c: char = s.get_char(i);
            let cu: u32 = c as u32;
            proof {
                assert(d[i - ds] == s@[i as int]);
                assert(d.take(i - ds + 1).drop_last() =~= d.take(i - ds));
                assert(d.take(i - ds + 1).last() == d[i - ds]);
            }
            if cu < 48 || cu > 57 {
                proof {
                    assert(!is_digit_char(d[i - ds]));
                    assert(!all_digit_chars(d));
                }
                return Err(Error::BadConfigValue(s.to_owned()));
            }
            let dv: u64 = (cu - 48) as u64;
            if val > (u64::MAX - dv) / 10 {
                proof {
                    assert(dec_chars_value(d.take(i - ds + 1)) == val * 10 + dv);
                    assert(val * 10 + dv > u64::MAX);
                    if all_digit_chars(d) {
                        lemma_dec_chars_value_take_bound(d, i - ds + 1);
                        assert(dec_chars_value(d) > u64::MAX);
                    }
                }
                return Err(Error::BadConfigValue(s.to_owned()));
            }
            val = val * 10 + dv;
            i = i + 1;
        }
        proof {
            assert(d.take(i - ds) =~= d);
        }
        if val > u16::MAX as u64 {
            return Err(Error::BadConfigValue(s.to_owned()));
        }
        let value: u16 = val as u16;
        if value < MIN_PORT {
            return Err(Error::BadConfigValue(s.to_owned()));
        }
        Ok(Port { value })
    }
}

/// Everything the agent needs to run, validated.
pub struct Config {
    /// The aggregator's registration endpoint.
    pub web_url: String,
    /// The directory holding the host's statistic tables.
    pub proc_dir: String,
    /// The file holding the host's name.
    pub hostname_path: String,
    /// The port the agent's own metrics endpoint listens on.
    pub server_port: Port,
}

impl Config {
    /// Build a configuration from plain values; the port string is
    /// validated and refusing it refuses the whole configuration.
    pub fn new(
        web_url: String,
        proc_dir: String,
        hostname_path: String,
        server_port_text: &str,
    ) -> (r: Result<Config, Error>)
        ensures
            match r {
                Ok(c) => {
                    &&& c.web_url == web_url
                    &&& c.proc_dir == proc_dir
                    &&& c.hostname_path == hostname_path
                    &&& spec_parse_u16(server_port_text@) is Some
                    &&& c.server_port.spec_value() == spec_parse_u16(server_port_text@)->Some_0
                    &&& c.server_port.valid()
                },
                Err(Error::MissingConfigValue) => server_port_text@.len() == 0,
                Err(Error::BadConfigValue(t)) => {
                    &&& server_port_text@.len() > 0
                    &&& t@ == server_port_text@
                    &&& (spec_parse_u16(server_port_text@) is None || spec_parse_u16(
                        server_port_text@,
                    )->Some_0 < MIN_PORT)
                },
            },
    {
        let server_port = match Port::from_str(server_port_text) {
            Ok(p) => p,
            Err(e) => {
                return Err(e);
            },
        };
        Ok(Config { web_url, proc_dir, hostname_path, server_port })
    }
}

} // verus!
