use deser_bench::trial::{format_at, EncodedLens, Format, Outcome, Syntax, Trial, TrialError, FORMAT_COUNT};

fn lens() -> EncodedLens {
    EncodedLens { json: 100, toml: 80, yaml: 60 }
}

#[test]
fn formats_run_in_order() {
    let names: Vec<&str> = (0..FORMAT_COUNT).map(|i| format_at(i).name()).collect();
    assert_eq!(
        names,
        vec!["serde_json", "sonic-rs", "deser-hjson", "json5", "toml", "basic-toml", "serde_yaml"]
    );
}

#[test]
fn syntax_of_each_format() {
    assert_eq!(Format::SerdeJson.syntax(), Syntax::Json);
    assert_eq!(Format::Json5.syntax(), Syntax::Json);
    assert_eq!(Format::BasicToml.syntax(), Syntax::Toml);
    assert_eq!(Format::SerdeYaml.syntax(), Syntax::Yaml);
    assert_eq!(lens().of(Syntax::Toml), 80);
}

#[test]
fn full_trial_records_every_format() {
    let mut t = Trial::new(lens());
    let mut k: u128 = 1;
    while let Some(_) = t.next_format() {
        t.record(Outcome::Decoded { nanos: k, equal: true }).unwrap();
        k += 1;
    }
    assert_eq!(t.next, FORMAT_COUNT);
    let d = t.durations;
    assert_eq!(d.entries.len(), 7);
    assert_eq!(d.entries[0].name, "serde_json");
    assert_eq!(d.entries[0].src_len, 100);
    assert_eq!(d.entries[4].name, "toml");
    assert_eq!(d.entries[4].src_len, 80);
    assert_eq!(d.entries[6].name, "serde_yaml");
    assert_eq!(d.entries[6].src_len, 60);
    assert_eq!(d.entries[6].duration, 7);
    assert!(d.check());
}

#[test]
fn mismatch_ends_trial() {
    let mut t = Trial::new(lens());
    t.record(Outcome::Decoded { nanos: 3, equal: true }).unwrap();
    let r = t.record(Outcome::Decoded { nanos: 3, equal: false });
    assert_eq!(r, Err(TrialError::RoundTripMismatch(Format::SonicRs)));
    assert_eq!(t.durations.entries.len(), 1);
}

#[test]
fn failed_decode_ends_trial() {
    let mut t = Trial::new(lens());
    let r = t.record(Outcome::Failed);
    assert_eq!(r, Err(TrialError::DecodeFailed(Format::SerdeJson)));
    assert!(t.durations.entries.is_empty());
}
