//! Configuration of the tracing store.

use vstd::prelude::*;
use crate::errors::TracingError;
use crate::errors::TracingResult;
use vstd::string::StringExecFns;
use vstd::string::StrSliceExecFns;

verus! {

/// The stored sampling rate is a fixed-point fraction of one, in parts per
/// million: this is one itself, the largest admissible rate.
pub const RATE_SCALE_PPM: u32 = 1000000;

/// How many completed spans a store retains when not told otherwise.
pub const DEFAULT_MAX_SPANS: usize = 1000;

/// The runtime environment a service reports itself as running in.
#[derive(Clone, Copy, Debug, PartialEq, Eq, Structural)]
pub enum Environment {
    Development,
    Testing,
    Production,
}

/// Tracing configuration: an immutable-once-validated value object.
#[derive(Debug)]
pub struct TraceConfig {
    /// Name of the traced service; must not be empty.
    pub service_name: String,
    /// The environment tag recorded with the configuration.
    pub environment: Environment,
    /// Sampling rate as parts per million of one, clamped by the builders to
    /// `RATE_SCALE_PPM`; only stored, never interpreted by the store.
    pub sampling_rate_ppm: u32,
    /// How many completed spans the store retains; must be positive.
    pub max_spans: usize,
}

/// Does `c` spell a decimal digit?
pub open spec fn is_decimal_digit(c: char) -> bool {
    48 <= c as u32 <= 57
}

/// The numeric value of a decimal digit.
pub open spec fn digit_value(c: char) -> nat {
    ((c as u32) - 48) as nat
}

/// Does every character of `s` spell a decimal digit?
pub open spec fn all_decimal_digits(s: Seq<char>) -> bool {
    forall|i: int| 0 <= i < s.len() ==> is_decimal_digit(s[i])
}

/// The number a sequence of decimal digits spells, most significant first.
pub open spec fn decimal_value(s: Seq<char>) -> nat
    decreases s.len(),
{
    if s.len() == 0 {
        0
    } else {
        decimal_value(s.drop_last()) * 10 + digit_value(s.last())
    }
}

/// The digit portion of a decimal numeral: one optional leading plus sign
/// is shed, as std's unsigned parsing accepts one.
pub open spec fn numeral_digits(s: Seq<char>) -> Seq<char> {
    if s.len() > 0 && s[0] == '+' {
        s.skip(1)
    } else {
        s
    }
}

/// Does `s` spell a decimal numeral whose value fits a `usize`?
pub open spec fn is_usize_numeral(s: Seq<char>) -> bool {
    let d = numeral_digits(s);
    d.len() > 0 && all_decimal_digits(d) && decimal_value(d) <= usize::MAX
}

/// The value a decimal numeral spells.
pub open spec fn numeral_value(s: Seq<char>) -> nat {
    decimal_value(numeral_digits(s))
}

/// A digit string's value only grows as more digits follow.
pub proof fn lemma_decimal_value_monotone(s: Seq<char>, i: int)
    requires
        0 <= i <= s.len(),
    ensures
        decimal_value(s) >= decimal_value(s.take(i)),
    decreases s.len(),
{
    if i == s.len() {
        assert(s.take(i) =~= s);
    } else {
        lemma_decimal_value_monotone(s.drop_last(), i);
        assert(s.drop_last().take(i) =~= s.take(i));
    }
}

/// The environment a strict, lowercase tag names, if any.
pub open spec fn spec_environment_of(name: Seq<char>) -> Option<Environment> {
    if name == "development"@ || name == "dev"@ {
        Some(Environment::Development)
    } else if name == "production"@ || name == "prod"@ {
        Some(Environment::Production)
    } else if name == "test"@ || name == "testing"@ {
        Some(Environment::Testing)
    } else {
        None
    }
}

/// The environment a lenient, lowercase tag names: unrecognised tags fall
/// back to `Development`.
pub open spec fn spec_environment_lenient(name: Seq<char>) -> Environment {
    if name == "prod"@ || name == "production"@ {
        Environment::Production
    } else if name == "test"@ || name == "testing"@ {
        Environment::Testing
    } else {
        Environment::Development
    }
}

/// Compares two string slices by the characters they spell.
fn str_eq(a: &str, b: &str) -> (r: bool)
    ensures
        r == (a@ == b@),
{
    let a_owned: String = a.to_owned();
    let b_owned: String = b.to_owned();
    a_owned == b_owned
}

/// Parses a decimal numeral: digits with at most one leading plus sign, no
/// blanks, no other signs.
pub fn parse_usize(s: &str) -> (r: Option<usize>)
    ensures
        r is Some <==> is_usize_numeral(s@),
        r matches Some(v) ==> v == numeral_value(s@),
{
    let n = s.unicode_len();
    if n == 0 {
        return None;
    }
    let first = s.get_char(0);
    let start: usize = if first == '+' {
        1
    } else {
        0
    };
    let ghost d = numeral_digits(s@);
    proof {
        assert(d =~= s@.skip(start as int));
    }
    if start == n {
        return None;
    }
    let mut acc: usize = 0;
    let mut i: usize = start;
    while i < n
        invariant
            start <= 1,
            start < n == s@.len(),
            start <= i <= n,
            d == numeral_digits(s@),
            d == s@.skip(start as int),
            d.len() == n - start,
            all_decimal_digits(d.take(i - start)),
            acc == decimal_value(d.take(i - start)),
        decreases n - i,
    {
        let c = s.get_char(i);
        let cv = c as u32;
        if cv < 48 || cv > 57 {
            assert(!is_decimal_digit(d[i - start]));
            return None;
        }
        let dg = (cv - 48) as usize;
        proof {
            assert(d.take(i - start + 1).drop_last() =~= d.take(i - start));
            assert(d.take(i - start + 1).last() == d[i - start]);
            assert(d[i - start] == s@[i as int]);
        }
        let next = match acc.checked_mul(10) {
            Some(m) => match m.checked_add(dg) {
                Some(x) => x,
                None => {
                    proof {
                        lemma_decimal_value_monotone(d, i - start + 1);
                    }
                    return None;
                },
            },
            None => {
                proof {
                    lemma_decimal_value_monotone(d, i - start + 1);
                }
                return None;
            },
        };
        acc = next;
        i = i + 1;
    }
    proof {
        assert(d.take(n - start) =~= d);
    }
    Some(acc)
}

impl Environment {
    /// The environment a strict tag names; the tag is matched exactly, so
    /// callers fold case before asking.
    pub fn from_name(name: &str) -> (r: Option<Environment>)
        ensures
            r == spec_environment_of(name@),
    {
        if str_eq(name, "development") || str_eq(name, "dev") {
            Some(Environment::Development)
        } else if str_eq(name, "production") || str_eq(name, "prod") {
            Some(Environment::Production)
        } else if str_eq(name, "test") || str_eq(name, "testing") {
            Some(Environment::Testing)
        } else {
            None
        }
    }

    /// The environment a lenient tag names, `Development` when the tag is
    /// unrecognised; the tag is matched exactly, so callers fold case first.
    pub fn from_name_lenient(name: &str) -> (r: Environment)
        ensures
            r == spec_environment_lenient(name@),
    {
        if str_eq(name, "prod") || str_eq(name, "production") {
            Environment::Production
        } else if str_eq(name, "test") || str_eq(name, "testing") {
            Environment::Testing
        } else {
            Environment::Development
        }
    }
}

impl Clone for TraceConfig {
    /// A copy indistinguishable from the original.
    fn clone(&self) -> (r: Self)
        ensures
            r == *self,
    {
        TraceConfig {
            service_name: self.service_name.clone(),
            environment: self.environment,
            sampling_rate_ppm: self.sampling_rate_ppm,
            max_spans: self.max_spans,
        }
    }
}

impl TraceConfig {
    /// A configuration is valid when the service has a name, the sampling
    /// rate lies within one, and at least one completed span may be retained.
    pub open spec fn valid(self) -> bool {
        self.service_name@.len() > 0 && self.sampling_rate_ppm <= RATE_SCALE_PPM && self.max_spans
            > 0
    }

    /// The account `validate` gives of the first failed check.
    pub open spec fn spec_validate_message(self) -> Seq<char> {
        if self.service_name@.len() == 0 {
            "service_name cannot be empty"@
        } else if self.sampling_rate_ppm > RATE_SCALE_PPM {
            "sampling_rate must be between 0 and 1"@
        } else {
            "max_spans must be greater than 0"@
        }
    }

    /// A fresh configuration for the named service: development environment,
    /// full sampling, and the default retention bound.
    pub fn new(service_name: &str) -> (r: TraceConfig)
        ensures
            r.service_name@ == service_name@,
            r.environment == Environment::Development,
            r.sampling_rate_ppm == RATE_SCALE_PPM,
            r.max_spans == DEFAULT_MAX_SPANS,
    {
        TraceConfig {
            service_name: service_name.to_owned(),
            environment: Environment::Development,
            sampling_rate_ppm: RATE_SCALE_PPM,
            max_spans: DEFAULT_MAX_SPANS,
        }
    }

    /// The same configuration with the environment replaced.
    pub fn with_environment(self, environment: Environment) -> (r: TraceConfig)
        ensures
            r.service_name == self.service_name,
            r.environment == environment,
            r.sampling_rate_ppm == self.sampling_rate_ppm,
            r.max_spans == self.max_spans,
    {
        TraceConfig { environment, ..self }
    }

    /// The same configuration with the sampling rate replaced, clamped into
    /// the unit interval.
    pub fn with_sampling_rate(self, rate_ppm: u32) -> (r: TraceConfig)
        ensures
            r.service_name == self.service_name,
            r.environment == self.environment,
            r.sampling_rate_ppm == (if rate_ppm > RATE_SCALE_PPM {
                RATE_SCALE_PPM
            } else {
                rate_ppm
            }),
            r.max_spans == self.max_spans,
    {
        let clamped = if rate_ppm > RATE_SCALE_PPM {
            RATE_SCALE_PPM
        } else {
            rate_ppm
        };
        TraceConfig { sampling_rate_ppm: clamped, ..self }
    }

    /// The same configuration with the retention bound replaced.
    pub fn with_max_spans(self, max_spans: usize) -> (r: TraceConfig)
        ensures
            r.service_name == self.service_name,
            r.environment == self.environment,
            r.sampling_rate_ppm == self.sampling_rate_ppm,
            r.max_spans == max_spans,
    {
        TraceConfig { max_spans, ..self }
    }

    /// Checks the configuration: the service name must not be empty, the
    /// sampling rate must not pass one, and the retention bound must be
    /// positive.  The first failed check names itself in the error.
    pub fn validate(&self) -> (r: TracingResult<()>)
        ensures
            r is Ok <==> self.valid(),
            !self.valid() ==> (r matches Err(TracingError::Configuration { message })
                && message@ == self.spec_validate_message()),
    {
        if self.service_name.as_str().is_empty() {
            return Err(
                TracingError::Configuration { message: "service_name cannot be empty".to_owned() },
            );
        }
        if self.sampling_rate_ppm > RATE_SCALE_PPM {
            return Err(
                TracingError::Configuration {
                    message: "sampling_rate must be between 0 and 1".to_owned(),
                },
            );
        }
        if self.max_spans == 0 {
            return Err(
                TracingError::Configuration {
                    message: "max_spans must be greater than 0".to_owned(),
                },
            );
        }
        Ok(())
    }

    /// Merges values read from the process environment, in order: service
    /// name, sampling rate, retention bound, environment tag.  The first
    /// malformed value stops the merge, leaving the earlier fields merged and
    /// the later ones untouched.  The sampling rate arrives already as parts
    /// per million and is clamped; the retention bound arrives as its decimal
    /// numeral and must parse; the environment tag must be a known,
    /// lowercase name.
    pub fn merge_values(
        &mut self,
        service_name: Option<String>,
        sampling_rate_ppm: Option<u32>,
        max_spans: Option<String>,
        environment: Option<String>,
    ) -> (r: TracingResult<()>)
        ensures
            final(self).service_name == (match service_name {
                Some(n) => n,
                None => old(self).service_name,
            }),
            final(self).sampling_rate_ppm == (match sampling_rate_ppm {
                Some(p) => if p > RATE_SCALE_PPM {
                    RATE_SCALE_PPM
                } else {
                    p
                },
                None => old(self).sampling_rate_ppm,
            }),
            ({
                let max_ok = match max_spans {
                    Some(m) => is_usize_numeral(m@),
                    None => true,
                };
                let env_ok = match environment {
                    Some(e) => spec_environment_of(e@) is Some,
                    None => true,
                };
                &&& (r is Ok <==> max_ok && env_ok)
                &&& final(self).max_spans == (if max_ok {
                    match max_spans {
                        Some(m) => numeral_value(m@) as usize,
                        None => old(self).max_spans,
                    }
                } else {
                    old(self).max_spans
                })
                &&& final(self).environment == (if max_ok && env_ok {
                    match environment {
                        Some(e) => spec_environment_of(e@)->0,
                        None => old(self).environment,
                    }
                } else {
                    old(self).environment
                })
                &&& (!max_ok ==> (r matches Err(TracingError::Configuration { message })
                    && message@ == "invalid max spans: "@ + max_spans->0@))
                &&& (max_ok && !env_ok ==> (r matches Err(TracingError::Configuration { message })
                    && message@ == "invalid environment: "@ + environment->0@))
            }),
    {
        if let Some(name) = service_name {
            self.service_name = name;
        }
        if let Some(ppm) = sampling_rate_ppm {
            self.sampling_rate_ppm = if ppm > RATE_SCALE_PPM {
                RATE_SCALE_PPM
            } else {
                ppm
            };
        }
        if let Some(numeral) = max_spans {
            match parse_usize(numeral.as_str()) {
                Some(v) => {
                    self.max_spans = v;
                },
                None => {
                    return Err(
                        TracingError::Configuration {
                            message: "invalid max spans: ".to_owned().concat(numeral.as_str()),
                        },
                    );
                },
            }
        }
        if let Some(tag) = environment {
            match Environment::from_name(tag.as_str()) {
                Some(env) => {
                    self.environment = env;
                },
                None => {
                    return Err(
                        TracingError::Configuration {
                            message: "invalid environment: ".to_owned().concat(tag.as_str()),
                        },
                    );
                },
            }
        }
        Ok(())
    }
}

} // verus!
