//! Broker and server settings read out of the process environment.
//!
//! The environment itself is read at the edge of the program; this module
//! takes the variables as plain key–value pairs and builds the configuration,
//! parsing the numeric settings.  The keys are looked up under their
//! lower-case names, as an environment source renders them.

use vstd::prelude::*;

use crate::utils::{digit_run, digit_val, is_digit};

verus! {

/// Broker settings: the bootstrap address, the topic, and the per-message
/// send timeout in milliseconds.
#[derive(Debug)]
pub struct KafkaConfig {
    /// The broker bootstrap address.
    pub bootstrapserver: String,
    /// The topic the messages go to.
    pub topics: String,
    /// Per-message send timeout, in milliseconds.
    pub timeout: i32,
}

/// Listen settings of the request front end.
#[allow(non_camel_case_types)]
#[derive(Debug)]
pub struct gRPCServer {
    /// The address to listen on.
    pub server: String,
    /// The port to listen on.
    pub port: i32,
}

/// The whole configuration: broker and front-end settings.
#[derive(Debug)]
pub struct Config {
    /// Broker settings.
    pub kafka: KafkaConfig,
    /// Front-end listen settings.
    pub grpcserver: gRPCServer,
}

/// Why the configuration could not be built.
#[derive(Clone, Copy, Debug, PartialEq, Eq, Structural)]
pub enum ConfigError {
    /// A required variable is not in the environment.
    MissingKey,
    /// A numeric variable is present but is no integer in range.
    InvalidNumber,
}

/// The value of the first pair whose key is `key`.
pub open spec fn lookup(vars: Seq<(String, String)>, key: Seq<char>) -> Option<Seq<char>>
    decreases vars.len(),
{
    if vars.len() == 0 {
        None
    } else if vars[0].0@ == key {
        Some(vars[0].1@)
    } else {
        lookup(vars.drop_first(), key)
    }
}

/// Value of the decimal numeral `s`, most significant digit first.
pub open spec fn numeral_val(s: Seq<char>) -> int
    decreases s.len(),
{
    if s.len() == 0 {
        0
    } else {
        numeral_val(s.drop_last()) * 10 + digit_val(s.last())
    }
}

/// A numeral's value never goes down as digits are appended.
pub proof fn lemma_numeral_monotone(s: Seq<char>, k: int)
    requires
        0 <= k <= s.len(),
        forall|i: int| 0 <= i < s.len() ==> is_digit(#[trigger] s[i]),
    ensures
        0 <= numeral_val(s.take(k)) <= numeral_val(s),
    decreases s.len() - k,
{
    if k == s.len() {
        assert(s.take(k) =~= s);
        lemma_numeral_nonneg(s);
    } else {
        lemma_numeral_monotone(s, k + 1);
        assert(s.take(k + 1).drop_last() =~= s.take(k));
        assert(is_digit(s[k]));
        lemma_numeral_nonneg(s.take(k));
    }
}

/// A numeral's value is never negative.
pub proof fn lemma_numeral_nonneg(s: Seq<char>)
    requires
        forall|i: int| 0 <= i < s.len() ==> is_digit(#[trigger] s[i]),
    ensures
        numeral_val(s) >= 0,
    decreases s.len(),
{
    if s.len() > 0 {
        lemma_numeral_nonneg(s.drop_last());
    }
}

/// The signed integer that `s` names: an optional sign, then only digits,
/// with a value in the range of the machine's 32-bit signed integers.
pub open spec fn parsed_i32(s: Seq<char>) -> Option<int> {
    let digits = if s.len() > 0 && (s[0] == '-' || s[0] == '+') {
        s.drop_first()
    } else {
        s
    };
    if digits.len() > 0 && digit_run(digits) == digits.len() {
        let v = if s.len() > 0 && s[0] == '-' {
            -numeral_val(digits)
        } else {
            numeral_val(digits)
        };
        if i32::MIN <= v <= i32::MAX {
            Some(v)
        } else {
            None
        }
    } else {
        None
    }
}

/// Parses `s` as a 32-bit signed integer: an optional sign and digits only.
fn parse_i32(s: &str) -> (r: Option<i32>)
    ensures
        r is Some <==> parsed_i32(s@) is Some,
        r matches Some(v) ==> parsed_i32(s@) == Some(v as int),
{
    let chars = crate::utils::str_chars(s);
    let n: usize = chars.len();
    let neg: bool = n > 0 && chars[0] == '-';
    let start: usize = if n > 0 && (chars[0] == '-' || chars[0] == '+') {
        1
    } else {
        0
    };
    let ghost digits = chars@.skip(start as int);
    proof {
        if n > 0 && (chars@[0] == '-' || chars@[0] == '+') {
            assert(digits =~= s@.drop_first());
        } else {
            assert(digits =~= s@);
        }
    }
    if start >= n {
        return None;
    }
    let mut acc: i64 = 0;
    let mut i: usize = start;
    while i < n
        invariant
            start <= i <= n,
            n == chars@.len(),
            chars@ == s@,
            digits == chars@.skip(start as int),
            digits == (if s@.len() > 0 && (s@[0] == '-' || s@[0] == '+') {
                s@.drop_first()
            } else {
                s@
            }),
            neg == (s@.len() > 0 && s@[0] == '-'),
            digits.len() > 0,
            start <= 1,
            forall|j: int| start <= j < i ==> is_digit(#[trigger] chars@[j]),
            acc == numeral_val(chars@.subrange(start as int, i as int)),
            0 <= acc <= 0x8000_0000,
        decreases n - i,
    {
        let c = chars[i];
        if !crate::utils::digit_char(c) {
            proof {
                assert(digits[i - start] == chars@[i as int]);
                crate::utils::lemma_digit_run_bounds(digits);
            }
            return None;
        }
        let ghost pre = chars@.subrange(start as int, i as int);
        acc = acc * 10 + ((c as u32 - 48) as i64);
        i = i + 1;
        proof {
            let cur = chars@.subrange(start as int, i as int);
            assert(cur.drop_last() =~= pre);
            assert(cur.last() == chars@[i - 1]);
        }
        if acc > 0x8000_0000 {
            proof {
                if digits.len() > 0 && digit_run(digits) == digits.len() {
                    crate::utils::lemma_digit_run_bounds(digits);
                    assert(chars@.subrange(start as int, i as int) =~= digits.take(i - start));
                    lemma_numeral_monotone(digits, i - start);
                }
            }
            return None;
        }
    }
    proof {
        assert forall|j: int| 0 <= j < digits.len() implies is_digit(#[trigger] digits[j]) by {
            assert(digits[j] == chars@[start + j]);
        }
        crate::utils::lemma_digit_run_from_scan(digits, digits.len() as int);
        assert(chars@.subrange(start as int, n as int) =~= digits);
    }
    if neg {
        Some((-acc) as i32)
    } else {
        if acc > 0x7fff_ffff {
            None
        } else {
            Some(acc as i32)
        }
    }
}

/// The value of the first pair whose key is `key`, searched front to back.
fn lookup_var(vars: &Vec<(String, String)>, key: &str) -> (r: Option<String>)
    ensures
        r matches Some(v) ==> lookup(vars@, key@) == Some(v@),
        r is None ==> lookup(vars@, key@) is None,
{
    let needle = String::from_str(key);
    let mut i: usize = 0;
    proof {
        assert(vars@.skip(0) =~= vars@);
    }
    while i < vars.len()
        invariant
            i <= vars@.len(),
            needle@ == key@,
            lookup(vars@, key@) == lookup(vars@.skip(i as int), key@),
        decreases vars@.len() - i,

    {
        proof {
            assert(vars@.skip(i as int)[0] == vars@[i as int]);
            assert(vars@.skip(i as int).drop_first() =~= vars@.skip(i as int + 1));
        }
        if vars[i].0 == needle {
            return Some(vars[i].1.clone());
        }
        i = i + 1;
    }
    proof {
        assert(vars@.skip(i as int) =~= Seq::<(String, String)>::empty());
    }
    None
}

/// A required configuration variable is not among `vars`.
pub open spec fn config_key_missing(vars: Seq<(String, String)>) -> bool {
    ||| lookup(vars, "kafka.bootstrapserver"@) is None
    ||| lookup(vars, "kafka.topics"@) is None
    ||| lookup(vars, "kafka.timeout"@) is None
    ||| lookup(vars, "grpcserver.server"@) is None
    ||| lookup(vars, "grpcserver.port"@) is None
}

/// A numeric configuration variable is among `vars` but names no 32-bit
/// signed integer.
pub open spec fn config_number_invalid(vars: Seq<(String, String)>) -> bool {
    ||| (lookup(vars, "kafka.timeout"@) matches Some(t) && parsed_i32(t) is None)
    ||| (lookup(vars, "grpcserver.port"@) matches Some(t) && parsed_i32(t) is None)
}

/// `c` is the configuration that `vars` names.
pub open spec fn config_agrees(vars: Seq<(String, String)>, c: Config) -> bool {
    &&& lookup(vars, "kafka.bootstrapserver"@) == Some(c.kafka.bootstrapserver@)
    &&& lookup(vars, "kafka.topics"@) == Some(c.kafka.topics@)
    &&& (lookup(vars, "kafka.timeout"@) matches Some(t) && parsed_i32(t) == Some(
        c.kafka.timeout as int,
    ))
    &&& lookup(vars, "grpcserver.server"@) == Some(c.grpcserver.server@)
    &&& (lookup(vars, "grpcserver.port"@) matches Some(t) && parsed_i32(t) == Some(
        c.grpcserver.port as int,
    ))
}

impl Config {
    /// Builds the configuration out of the environment's key–value pairs.
    /// Fails with `MissingKey` when any of the five required variables is
    /// absent, and with `InvalidNumber` when all are present but a numeric
    /// one does not parse; succeeds exactly otherwise, with every field
    /// taken from its variable.
    pub fn from_env(vars: &Vec<(String, String)>) -> (r: Result<Config, ConfigError>)
        ensures
            r is Ok <==> !config_key_missing(vars@) && !config_number_invalid(vars@),
            r matches Ok(c) ==> config_agrees(vars@, c),
            r matches Err(e) ==> e == (if config_key_missing(vars@) {
                ConfigError::MissingKey
            } else {
                ConfigError::InvalidNumber
            }),
    {
        let bootstrapserver = match lookup_var(vars, "kafka.bootstrapserver") {
            Some(v) => v,
            None => {
                return Err(ConfigError::MissingKey);
            },
        };
        let topics = match lookup_var(vars, "kafka.topics") {
            Some(v) => v,
            None => {
                return Err(ConfigError::MissingKey);
            },
        };
        let timeout_text = match lookup_var(vars, "kafka.timeout") {
            Some(v) => v,
            None => {
                return Err(ConfigError::MissingKey);
            },
        };
        let server = match lookup_var(vars, "grpcserver.server") {
            Some(v) => v,
            None => {
                return Err(ConfigError::MissingKey);
            },
        };
        let port_text = match lookup_var(vars, "grpcserver.port") {
            Some(v) => v,
            None => {
                return Err(ConfigError::MissingKey);
            },
        };
        let timeout = match parse_i32(timeout_text.as_str()) {
            Some(v) => v,
            None => {
                return Err(ConfigError::InvalidNumber);
            },
        };
        let port = match parse_i32(port_text.as_str()) {
            Some(v) => v,
            None => {
                return Err(ConfigError::InvalidNumber);
            },
        };
        Ok(
            Config {
                kafka: KafkaConfig { bootstrapserver, topics, timeout },
                grpcserver: gRPCServer { server, port },
            },
        )
    }
}

} // verus!
