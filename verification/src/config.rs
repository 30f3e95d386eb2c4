//! The configuration record and the rules by which it is made from the
//! values of the three configuration options.

use vstd::prelude::*;
use vstd::string::StrSliceExecFns;

verus! {

/// The option that names the root of the recursive scan. Required.
pub const DIRECTORY_PATH: &'static str = "DIRECTORY_PATH";

/// The option that names the endpoint to which each file is posted. Required.
pub const ORTHANC_ADDRESS: &'static str = "ORTHANC_ADDRESS";

/// The option that gives the seconds to wait between two scans. Optional.
pub const SLEEP_DURATION: &'static str = "SLEEP_DURATION";

/// Seconds between two scans when the interval option is absent.
pub const DEFAULT_SLEEP_SECONDS: u64 = 5;

/// Why no configuration could be made.
#[derive(Clone, Copy, Debug, PartialEq, Eq, Structural)]
pub enum ConfigError {
    /// The root of the scan was not given.
    MissingDirectoryPath,
    /// The endpoint that receives the uploads was not given.
    MissingServerAddress,
    /// The interval was given but is not a decimal number that fits 64 bits.
    InvalidSleepDuration,
}

impl ConfigError {
    /// The text with which the process reports the error before it exits.
    pub fn message(&self) -> (text: &'static str)
        ensures
            text@ == match *self {
                ConfigError::MissingDirectoryPath => "DIRECTORY_PATH must be set"@,
                ConfigError::MissingServerAddress => "ORTHANC_ADDRESS must be set"@,
                ConfigError::InvalidSleepDuration => "SLEEP_DURATION must be a valid integer"@,
            },
    {
        match self {
            ConfigError::MissingDirectoryPath => "DIRECTORY_PATH must be set",
            ConfigError::MissingServerAddress => "ORTHANC_ADDRESS must be set",
            ConfigError::InvalidSleepDuration => "SLEEP_DURATION must be a valid integer",
        }
    }
}

/// The validated configuration. It is made once and offers no way to change
/// it afterwards.
#[derive(Debug, PartialEq, Eq)]
pub struct Config {
    directory_path: String,
    server_address: String,
    sleep_seconds: u64,
}

/// What a configuration holds, as mathematical values.
pub struct ConfigView {
    pub directory_path: Seq<char>,
    pub server_address: Seq<char>,
    pub sleep_seconds: u64,
}

impl Clone for Config {
    fn clone(&self) -> (c: Config)
        ensures
            c@ == self@,
    {
        Config {
            directory_path: self.directory_path.clone(),
            server_address: self.server_address.clone(),
            sleep_seconds: self.sleep_seconds,
        }
    }
}

impl View for Config {
    type V = ConfigView;

    closed spec fn view(&self) -> ConfigView {
        ConfigView {
            directory_path: self.directory_path@,
            server_address: self.server_address@,
            sleep_seconds: self.sleep_seconds,
        }
    }
}

/// `c` is one of the ten decimal digits of ASCII.
pub open spec fn is_digit(c: char) -> bool {
    '0' <= c <= '9'
}

/// The number that a decimal digit stands for.
pub open spec fn digit_value(c: char) -> nat {
    (c as nat - '0' as nat) as nat
}

/// Every character of `s` is a decimal digit.
pub open spec fn all_digits(s: Seq<char>) -> bool {
    forall|i: int| 0 <= i < s.len() ==> is_digit(#[trigger] s[i])
}

/// The number written by the digits `s`, most significant digit first.
pub open spec fn decimal_value(s: Seq<char>) -> nat
    decreases s.len(),
{
    if s.len() == 0 {
        0
    } else {
        10 * decimal_value(s.drop_last()) + digit_value(s.last())
    }
}

/// `s` without the one plus sign that may lead it.
pub open spec fn without_sign(s: Seq<char>) -> Seq<char> {
    if s.len() > 0 && s[0] == '+' {
        s.drop_first()
    } else {
        s
    }
}

/// The interval that a text denotes: an optional plus sign followed by one or
/// more decimal digits and nothing else, whose value fits in 64 bits. Any
/// other text, the empty one included, denotes no interval.
pub open spec fn seconds_of(text: Seq<char>) -> Option<u64> {
    let digits = without_sign(text);
    if digits.len() > 0 && all_digits(digits) && decimal_value(digits) <= u64::MAX {
        Some(decimal_value(digits) as u64)
    } else {
        None
    }
}

/// The configuration that the three option values give, or the reason why
/// they give none. An absent root is reported before an absent endpoint, and
/// both before a bad interval. An absent interval means the default.
pub open spec fn config_of(
    directory_path: Option<Seq<char>>,
    server_address: Option<Seq<char>>,
    sleep_duration: Option<Seq<char>>,
) -> Result<ConfigView, ConfigError> {
    match (directory_path, server_address, sleep_duration) {
        (None, _, _) => Err(ConfigError::MissingDirectoryPath),
        (Some(_), None, _) => Err(ConfigError::MissingServerAddress),
        (Some(directory_path), Some(server_address), None) => Ok(
            ConfigView { directory_path, server_address, sleep_seconds: DEFAULT_SLEEP_SECONDS },
        ),
        (Some(directory_path), Some(server_address), Some(text)) => match seconds_of(text) {
            Some(sleep_seconds) => Ok(ConfigView { directory_path, server_address, sleep_seconds }),
            None => Err(ConfigError::InvalidSleepDuration),
        },
    }
}

/// The characters of an optional string.
pub open spec fn text_of(value: Option<String>) -> Option<Seq<char>> {
    match value {
        Some(s) => Some(s@),
        None => None,
    }
}

/// A number written with more digits is no smaller than the number written by
/// its leading digits.
proof fn lemma_decimal_value_prefix(s: Seq<char>, k: int)
    requires
        0 <= k <= s.len(),
    ensures
        decimal_value(s.subrange(0, k)) <= decimal_value(s),
    decreases s.len(),
{
    if k == s.len() {
        assert(s.subrange(0, k) =~= s);
    } else {
        lemma_decimal_value_prefix(s.drop_last(), k);
        assert(s.drop_last().subrange(0, k) =~= s.subrange(0, k));
    }
}

/// Reads an interval in seconds from the text of the interval option.
pub fn parse_seconds(text: &str) -> (r: Option<u64>)
    ensures
        r == seconds_of(text@),
{
    let ghost digits = without_sign(text@);
    if !text.is_ascii() {
        proof {
            let i = choose|i: int| 0 <= i < text@.len() && !('\0' <= #[trigger] text@[i] <= '\u{7f}');
            if digits.len() == text@.len() {
                assert(!is_digit(digits[i]));
            } else {
                assert(i > 0);
                assert(!is_digit(digits[i - 1]));
            }
        }
        return None;
    }
    let n: usize = text.unicode_len();
    let start: usize = if n > 0 && text.get_ascii(0) == 43u8 {
        1
    } else {
        0
    };
    if start == n {
        return None;
    }
    let mut value: u64 = 0;
    let mut i: usize = start;
    while i < n
        invariant
            text.is_ascii(),
            n == text@.len(),
            digits == without_sign(text@),
            digits.len() == n - start,
            forall|j: int| 0 <= j < digits.len() ==> digits[j] == text@[j + start],
            start <= i <= n,
            all_digits(digits.subrange(0, i - start)),
            value == decimal_value(digits.subrange(0, i - start)),
        decreases n - i,
    {
        let b: u8 = text.get_ascii(i);
        let ghost seen = digits.subrange(0, i - start);
        let ghost next = digits.subrange(0, i + 1 - start);
        proof {
            assert(next.drop_last() =~= seen);
            assert(next.last() == text@[i as int]);
            lemma_decimal_value_prefix(digits, i + 1 - start);
        }
        if b < 48u8 || b > 57u8 {
            proof {
                assert(!is_digit(digits[i - start]));
            }
            return None;
        }
        let d: u64 = (b - 48u8) as u64;
        assert(d == digit_value(next.last()));
        match value.checked_mul(10) {
            None => {
                return None;
            },
            Some(tens) => match tens.checked_add(d) {
                None => {
                    return None;
                },
                Some(sum) => {
                    value = sum;
                },
            },
        }
        proof {
            assert forall|j: int| 0 <= j < next.len() implies is_digit(#[trigger] next[j]) by {
                if j < seen.len() {
                    assert(next[j] == seen[j]);
                }
            }
        }
        i = i + 1;
    }
    proof {
        assert(digits.subrange(0, n - start) =~= digits);
    }
    Some(value)
}

impl Config {
    /// A configuration of the given root, endpoint and interval.
    pub fn new(directory_path: String, server_address: String, sleep_seconds: u64) -> (c: Config)
        ensures
            c@ == (ConfigView {
                directory_path: directory_path@,
                server_address: server_address@,
                sleep_seconds,
            }),
    {
        Config { directory_path, server_address, sleep_seconds }
    }

    /// Makes the configuration from the values of the three options, each
    /// absent or present as the process found it.
    pub fn load(
        directory_path: Option<String>,
        server_address: Option<String>,
        sleep_duration: Option<String>,
    ) -> (r: Result<Config, ConfigError>)
        ensures
            match r {
                Ok(c) => config_of(
                    text_of(directory_path),
                    text_of(server_address),
                    text_of(sleep_duration),
                ) == Ok::<ConfigView, ConfigError>(c@),
                Err(e) => config_of(
                    text_of(directory_path),
                    text_of(server_address),
                    text_of(sleep_duration),
                ) == Err::<ConfigView, ConfigError>(e),
            },
    {
        let directory_path = match directory_path {
            Some(value) => value,
            None => {
                return Err(ConfigError::MissingDirectoryPath);
            },
        };
        let server_address = match server_address {
            Some(value) => value,
            None => {
                return Err(ConfigError::MissingServerAddress);
            },
        };
        let sleep_seconds: u64 = match sleep_duration {
            None => DEFAULT_SLEEP_SECONDS,
            Some(text) => match parse_seconds(text.as_str()) {
                Some(seconds) => seconds,
                None => {
                    return Err(ConfigError::InvalidSleepDuration);
                },
            },
        };
        Ok(Config { directory_path, server_address, sleep_seconds })
    }

    /// The root of the recursive scan.
    pub fn directory_path(&self) -> (r: &str)
        ensures
            r@ == self@.directory_path,
    {
        self.directory_path.as_str()
    }

    /// The endpoint that receives each upload.
    pub fn server_address(&self) -> (r: &str)
        ensures
            r@ == self@.server_address,
    {
        self.server_address.as_str()
    }

    /// Seconds to wait between the end of one scan and the start of the next.
    pub fn sleep_seconds(&self) -> (r: u64)
        ensures
            r == self@.sleep_seconds,
    {
        self.sleep_seconds
    }
}

} // verus!
