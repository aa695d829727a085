//! The decisions of one trial: which format decodes next, from which encoded
//! form, and what its outcome makes of the trial.
use vstd::prelude::*;
use crate::durations::Durations;

verus! {

/// The wire syntaxes; each is encoded once per trial.
#[derive(Clone, Copy, Debug, PartialEq, Eq, Structural)]
pub enum Syntax {
    Json,
    Toml,
    Yaml,
}

/// The competing decoders, in the order a trial runs them.
#[derive(Clone, Copy, Debug, PartialEq, Eq, Structural)]
pub enum Format {
    SerdeJson,
    SonicRs,
    DeserHjson,
    Json5,
    Toml,
    BasicToml,
    SerdeYaml,
}

/// How many formats a trial runs.
pub const FORMAT_COUNT: usize = 7;

/// The `i`-th format of a trial.
pub open spec fn spec_format_at(i: int) -> Format {
    if i == 0 {
        Format::SerdeJson
    } else if i == 1 {
        Format::SonicRs
    } else if i == 2 {
        Format::DeserHjson
    } else if i == 3 {
        Format::Json5
    } else if i == 4 {
        Format::Toml
    } else if i == 5 {
        Format::BasicToml
    } else {
        Format::SerdeYaml
    }
}

/// The `i`-th format of a trial.
pub fn format_at(i: usize) -> (f: Format)
    requires
        i < FORMAT_COUNT,
    ensures
        f == spec_format_at(i as int),
{
    if i == 0 {
        Format::SerdeJson
    } else if i == 1 {
        Format::SonicRs
    } else if i == 2 {
        Format::DeserHjson
    } else if i == 3 {
        Format::Json5
    } else if i == 4 {
        Format::Toml
    } else if i == 5 {
        Format::BasicToml
    } else {
        Format::SerdeYaml
    }
}

impl Format {
    pub open spec fn spec_syntax(self) -> Syntax {
        match self {
            Format::SerdeJson | Format::SonicRs | Format::DeserHjson | Format::Json5 => Syntax::Json,
            Format::Toml | Format::BasicToml => Syntax::Toml,
            Format::SerdeYaml => Syntax::Yaml,
        }
    }

    /// The syntax this format decodes.
    pub fn syntax(self) -> (s: Syntax)
        ensures
            s == self.spec_syntax(),
    {
        match self {
            Format::SerdeJson | Format::SonicRs | Format::DeserHjson | Format::Json5 => Syntax::Json,
            Format::Toml | Format::BasicToml => Syntax::Toml,
            Format::SerdeYaml => Syntax::Yaml,
        }
    }

    pub open spec fn spec_name(self) -> Seq<char> {
        match self {
            Format::SerdeJson => "serde_json"@,
            Format::SonicRs => "sonic-rs"@,
            Format::DeserHjson => "deser-hjson"@,
            Format::Json5 => "json5"@,
            Format::Toml => "toml"@,
            Format::BasicToml => "basic-toml"@,
            Format::SerdeYaml => "serde_yaml"@,
        }
    }

    /// The name under which the format is reported.
    pub fn name(self) -> (s: &'static str)
        ensures
            s@ == self.spec_name(),
    {
        match self {
            Format::SerdeJson => "serde_json",
            Format::SonicRs => "sonic-rs",
            Format::DeserHjson => "deser-hjson",
            Format::Json5 => "json5",
            Format::Toml => "toml",
            Format::BasicToml => "basic-toml",
            Format::SerdeYaml => "serde_yaml",
        }
    }
}

/// The size in bytes of the thing encoded in each syntax.
#[derive(Clone, Copy, Debug, PartialEq, Eq, Structural)]
pub struct EncodedLens {
    pub json: usize,
    pub toml: usize,
    pub yaml: usize,
}

impl EncodedLens {
    pub open spec fn spec_of(self, s: Syntax) -> usize {
        match s {
            Syntax::Json => self.json,
            Syntax::Toml => self.toml,
            Syntax::Yaml => self.yaml,
        }
    }

    /// The size of the form in syntax `s`.
    pub fn of(&self, s: Syntax) -> (n: usize)
        ensures
            n == self.spec_of(s),
    {
        match s {
            Syntax::Json => self.json,
            Syntax::Toml => self.toml,
            Syntax::Yaml => self.yaml,
        }
    }
}

/// What came of decoding with one format.
#[derive(Clone, Copy, Debug, PartialEq, Eq, Structural)]
pub enum Outcome {
    /// The decode took `nanos` nanoseconds; `equal` tells whether the decoded
    /// value equals the encoded one.
    Decoded { nanos: u128, equal: bool },
    /// The decoder rejected its input.
    Failed,
}

/// Why a trial cannot go on.
#[derive(Clone, Copy, Debug, PartialEq, Eq, Structural)]
pub enum TrialError {
    DecodeFailed(Format),
    RoundTripMismatch(Format),
}

/// One trial in progress: the formats before `next` have been recorded.
#[derive(Debug)]
pub struct Trial {
    pub durations: Durations,
    pub lens: EncodedLens,
    pub next: usize,
}

impl Trial {
    /// A trial over sources of the sizes `lens`, before any format ran.
    pub fn new(lens: EncodedLens) -> (t: Trial)
        ensures
            t.lens == lens,
            t.next == 0,
            t.durations.entries@.len() == 0,
            t.durations.samples_count == 1,
    {
        Trial { durations: Durations::default(), lens, next: 0 }
    }

    /// The format to run next, if any is left.
    pub fn next_format(&self) -> (r: Option<Format>)
        ensures
            self.next < FORMAT_COUNT ==> r == Some(spec_format_at(self.next as int)),
            self.next >= FORMAT_COUNT ==> r is None,
    {
        if self.next < FORMAT_COUNT {
            Some(format_at(self.next))
        } else {
            None
        }
    }

    /// Records the outcome of the next format. A decoded value equal to the
    /// encoded one adds the format's entry, with the size of its syntax's form; a
    /// failed decode or an unequal value ends the trial with an error.
    pub fn record(&mut self, outcome: Outcome) -> (r: Result<(), TrialError>)
        requires
            old(self).next < FORMAT_COUNT,
        ensures
            ({
                let f = spec_format_at(old(self).next as int);
                match outcome {
                    Outcome::Failed => r == Err::<(), TrialError>(TrialError::DecodeFailed(f))
                        && *final(self) == *old(self),
                    Outcome::Decoded { nanos, equal } => if !equal {
                        r == Err::<(), TrialError>(TrialError::RoundTripMismatch(f))
                            && *final(self) == *old(self)
                    } else {
                        &&& r is Ok
                        &&& final(self).next == old(self).next + 1
                        &&& final(self).lens == old(self).lens
                        &&& final(self).durations.samples_count
                            == old(self).durations.samples_count
                        &&& final(self).durations.entries@.len()
                            == old(self).durations.entries@.len() + 1
                        &&& forall|i: int|
                            0 <= i < old(self).durations.entries@.len()
                                ==> #[trigger] final(self).durations.entries@[i]
                                == old(self).durations.entries@[i]
                        &&& final(self).durations.entries@.last().name@ == f.spec_name()
                        &&& final(self).durations.entries@.last().duration == nanos
                        &&& final(self).durations.entries@.last().src_len == old(
                            self,
                        ).lens.spec_of(f.spec_syntax())
                    },
                }
            }),
    {
        let f = format_at(self.next);
        match outcome {
            Outcome::Failed => Err(TrialError::DecodeFailed(f)),
            Outcome::Decoded { nanos, equal } => {
                if !equal {
                    return Err(TrialError::RoundTripMismatch(f));
                }
                let len = self.lens.of(f.syntax());
                self.durations.add(f.name(), nanos, len);
                self.next = self.next + 1;
                Ok(())
            },
        }
    }
}

} // verus!
