//! Timing samples per format, and their aggregation over many trials.
use vstd::prelude::*;
use vstd::multiset::Multiset;

verus! {

/// The time that one format took to decode its source, and the source's size.
#[derive(Debug)]
pub struct Entry {
    pub name: String,
    /// Elapsed time in nanoseconds.
    pub duration: u128,
    /// Size of the decoded source in bytes.
    pub src_len: usize,
}

/// One entry per format, in the order the formats were run, summed over
/// `samples_count` trials.
#[derive(Debug)]
pub struct Durations {
    pub entries: Vec<Entry>,
    pub samples_count: usize,
}

/// Why a set of samples cannot be summed.
#[derive(Debug, PartialEq, Eq, Structural)]
pub enum SumError {
    /// Two samples do not list the same formats in the same order.
    MismatchedFormats,
    /// A summed duration or source length does not fit its type.
    Overflow,
}

/// Whether every sample lists the formats of the first one, in the same order.
pub open spec fn same_formats(samples: Seq<Durations>) -> bool {
    forall|k: int|
        0 <= k < samples.len() ==> (#[trigger] samples[k]).entries@.len()
            == samples[0].entries@.len() && forall|i: int|
            0 <= i < samples[0].entries@.len() ==> (#[trigger] samples[k].entries@[i]).name@
                == samples[0].entries@[i].name@
}

/// The sum of the durations of entry `i` over the first `n` samples.
pub open spec fn total_duration(samples: Seq<Durations>, i: int, n: int) -> int
    decreases n,
{
    if n <= 0 {
        0
    } else {
        total_duration(samples, i, n - 1) + samples[n - 1].entries@[i].duration
    }
}

/// The sum of the source lengths of entry `i` over the first `n` samples.
pub open spec fn total_src_len(samples: Seq<Durations>, i: int, n: int) -> int
    decreases n,
{
    if n <= 0 {
        0
    } else {
        total_src_len(samples, i, n - 1) + samples[n - 1].entries@[i].src_len
    }
}

/// Whether every summed duration and source length fits its type.
pub open spec fn sums_fit(samples: Seq<Durations>) -> bool {
    forall|i: int|
        0 <= i < samples[0].entries@.len() ==> #[trigger] total_duration(
            samples,
            i,
            samples.len() as int,
        ) <= u128::MAX && total_src_len(samples, i, samples.len() as int) <= usize::MAX
}

/// The sum of the durations of the first `n` entries.
pub open spec fn sum_durations(entries: Seq<Entry>, n: int) -> int
    decreases n,
{
    if n <= 0 {
        0
    } else {
        sum_durations(entries, n - 1) + entries[n - 1].duration
    }
}

/// Whether `i` is the first entry of least duration.
pub open spec fn is_first_fastest(entries: Seq<Entry>, i: int) -> bool {
    &&& 0 <= i < entries.len()
    &&& forall|j: int| 0 <= j < entries.len() ==> entries[i].duration <= #[trigger] entries[j].duration
    &&& forall|j: int| 0 <= j < i ==> entries[i].duration < #[trigger] entries[j].duration
}

proof fn lemma_totals_grow(samples: Seq<Durations>, i: int, m: int, n: int)
    requires
        0 <= m <= n <= samples.len(),
    ensures
        total_duration(samples, i, m) <= total_duration(samples, i, n),
        total_src_len(samples, i, m) <= total_src_len(samples, i, n),
    decreases n - m,
{
    if m < n {
        lemma_totals_grow(samples, i, m, n - 1);
    }
}

/// A sum of durations is positive exactly when one of them is.
pub proof fn lemma_sum_positive(entries: Seq<Entry>, n: int)
    requires
        0 <= n <= entries.len(),
    ensures
        (sum_durations(entries, n) > 0) == (exists|j: int|
            0 <= j < n && #[trigger] entries[j].duration > 0),
    decreases n,
{
    if n > 0 {
        lemma_sum_positive(entries, n - 1);
        assert(sum_durations(entries, n - 1) >= 0) by {
            lemma_sum_nonneg(entries, n - 1);
        }
        if entries[n - 1].duration > 0 {
            assert(exists|j: int| 0 <= j < n && #[trigger] entries[j].duration > 0);
        }
    }
}

proof fn lemma_sum_nonneg(entries: Seq<Entry>, n: int)
    ensures
        sum_durations(entries, n) >= 0,
    decreases n,
{
    if n > 0 {
        lemma_sum_nonneg(entries, n - 1);
    }
}

/// Whether the entries are in ascending order of duration.
pub open spec fn sorted_by_duration(entries: Seq<Entry>) -> bool {
    forall|i: int, j: int| 0 <= i < j < entries.len() ==> entries[i].duration <= entries[j].duration
}

/// The entries of duration `d`, in their order.
pub open spec fn of_duration(entries: Seq<Entry>, d: u128) -> Seq<Entry> {
    entries.filter(|e: Entry| e.duration == d)
}

proof fn lemma_of_duration_empty(d: u128)
    ensures
        of_duration(Seq::<Entry>::empty(), d) == Seq::<Entry>::empty(),
{
    reveal(Seq::filter);
    assert(of_duration(Seq::<Entry>::empty(), d) =~= Seq::<Entry>::empty());
}

proof fn lemma_of_duration_single(e: Entry, d: u128)
    ensures
        of_duration(seq![e], d) == (if e.duration == d {
            seq![e]
        } else {
            Seq::<Entry>::empty()
        }),
{
    lemma_of_duration_empty(d);
    Seq::<Entry>::empty().lemma_filter_prepend(e, |x: Entry| x.duration == d);
    assert(seq![e] + Seq::<Entry>::empty() =~= seq![e]);
}

/// Inserting `e` after the entries of `out` no longer than it and before
/// those longer keeps, for every duration, the order of the entries taken
/// from `out` and then from `seq![e] + rest`.
proof fn lemma_insert_keeps_order(out: Seq<Entry>, p: int, e: Entry, rest: Seq<Entry>, d: u128)
    requires
        0 <= p <= out.len(),
        forall|j: int| 0 <= j < p ==> (#[trigger] out[j]).duration <= e.duration,
        forall|j: int| p <= j < out.len() ==> (#[trigger] out[j]).duration > e.duration,
    ensures
        of_duration(out.insert(p, e), d) + of_duration(rest, d) == of_duration(out, d)
            + of_duration(seq![e] + rest, d),
{
    broadcast use Seq::filter_distributes_over_add;

    let a = out.subrange(0, p);
    let b = out.subrange(p, out.len() as int);
    assert(out =~= a + b);
    assert(out.insert(p, e) =~= a + seq![e] + b);
    lemma_of_duration_single(e, d);
    if e.duration == d {
        assert(b.all(|x: Entry| !(x.duration == d))) by {
            assert forall|j: int| 0 <= j < b.len() implies !(#[trigger] b[j].duration == d) by {
                assert(b[j] == out[p + j]);
            }
        }
        b.lemma_all_neg_filter_empty(|x: Entry| x.duration == d);
        assert(of_duration(b, d) =~= Seq::<Entry>::empty());
    }
    assert(of_duration(out.insert(p, e), d) + of_duration(rest, d) =~= of_duration(out, d)
        + of_duration(seq![e] + rest, d));
}

impl Default for Durations {
    fn default() -> (r: Durations)
        ensures
            r.entries@.len() == 0,
            r.samples_count == 1,
    {
        Durations { entries: Vec::new(), samples_count: 1 }
    }
}

impl Durations {
    /// Appends the entry of one format.
    pub fn add(&mut self, name: &str, duration: u128, src_len: usize)
        ensures
            final(self).samples_count == old(self).samples_count,
            final(self).entries@.len() == old(self).entries@.len() + 1,
            forall|i: int|
                0 <= i < old(self).entries@.len() ==> #[trigger] final(self).entries@[i]
                    == old(self).entries@[i],
            final(self).entries@.last().name@ == name@,
            final(self).entries@.last().duration == duration,
            final(self).entries@.last().src_len == src_len,
    {
        self.entries.push(Entry { name: name.to_owned(), duration, src_len });
    }

    /// The first entry named `name`.
    pub fn get(&self, name: &str) -> (r: &Entry)
        requires
            exists|i: int| 0 <= i < self.entries@.len() && (#[trigger] self.entries@[i]).name@ == name@,
        ensures
            exists|i: int|
                0 <= i < self.entries@.len() && *r == self.entries@[i] && r.name@ == name@
                    && forall|j: int| 0 <= j < i ==> (#[trigger] self.entries@[j]).name@ != name@,
    {
        let wanted = name.to_owned();
        let mut i: usize = 0;
        while i < self.entries.len()
            invariant
                i <= self.entries@.len(),
                wanted@ == name@,
                exists|k: int| i <= k < self.entries@.len() && (#[trigger] self.entries@[k]).name@ == name@,
                forall|j: int| 0 <= j < i ==> (#[trigger] self.entries@[j]).name@ != name@,
            decreases self.entries@.len() - i,
        {
            if self.entries[i].name == wanted {
                return &self.entries[i];
            }
            i = i + 1;
        }
        &self.entries[0]
    }

    /// Sums samples entry by entry: the names come from the first sample, the
    /// durations and source lengths are summed over all, and `samples_count`
    /// is the number of samples. No samples give the default value.
    pub fn sum(samples: &[Durations]) -> (r: Result<Durations, SumError>)
        ensures
            samples@.len() == 0 ==> (r matches Ok(d) && d.entries@.len() == 0 && d.samples_count
                == 1),
            samples@.len() > 0 && !same_formats(samples@) ==> r == Err::<Durations, SumError>(
                SumError::MismatchedFormats,
            ),
            samples@.len() > 0 && same_formats(samples@) && !sums_fit(samples@) ==> r == Err::<
                Durations,
                SumError,
            >(SumError::Overflow),
            samples@.len() > 0 && same_formats(samples@) && sums_fit(samples@) ==> (r matches Ok(d)
                && d.samples_count == samples@.len() && d.entries@.len()
                == samples@[0].entries@.len() && forall|i: int|
                0 <= i < d.entries@.len() ==> (#[trigger] d.entries@[i]).name@
                    == samples@[0].entries@[i].name@ && d.entries@[i].duration == total_duration(
                    samples@,
                    i,
                    samples@.len() as int,
                ) && d.entries@[i].src_len == total_src_len(samples@, i, samples@.len() as int)),
    {
        if samples.len() == 0 {
            return Ok(Durations::default());
        }
        let ghost s = samples@;
        let n_entries = samples[0].entries.len();
        let mut k: usize = 0;
        while k < samples.len()
            invariant
                k <= s.len(),
                s == samples@,
                s.len() > 0,
                n_entries == s[0].entries@.len(),
                forall|q: int|
                    0 <= q < k ==> (#[trigger] s[q]).entries@.len() == n_entries && forall|i: int|
                        0 <= i < n_entries ==> (#[trigger] s[q].entries@[i]).name@
                            == s[0].entries@[i].name@,
            decreases s.len() - k,
        {
            if samples[k].entries.len() != n_entries {
                return Err(SumError::MismatchedFormats);
            }
            let mut i: usize = 0;
            while i < n_entries
                invariant
                    i <= n_entries,
                    k < s.len(),
                    s == samples@,
                    n_entries == s[0].entries@.len(),
                    s[k as int].entries@.len() == n_entries,
                    forall|j: int|
                        0 <= j < i ==> (#[trigger] s[k as int].entries@[j]).name@
                            == s[0].entries@[j].name@,
                decreases n_entries - i,
            {
                if samples[k].entries[i].name != samples[0].entries[i].name {
                    return Err(SumError::MismatchedFormats);
                }
                i = i + 1;
            }
            k = k + 1;
        }
        assert(same_formats(s));
        let mut entries: Vec<Entry> = Vec::new();
        let mut i: usize = 0;
        while i < n_entries
            invariant
                i <= n_entries,
                s == samples@,
                s.len() > 0,
                same_formats(s),
                n_entries == s[0].entries@.len(),
                entries@.len() == i,
                forall|j: int|
                    0 <= j < i ==> (#[trigger] entries@[j]).name@ == s[0].entries@[j].name@
                        && entries@[j].duration == total_duration(s, j, s.len() as int)
                        && entries@[j].src_len == total_src_len(s, j, s.len() as int),
                forall|j: int|
                    0 <= j < i ==> #[trigger] total_duration(s, j, s.len() as int) <= u128::MAX
                        && total_src_len(s, j, s.len() as int) <= usize::MAX,
            decreases n_entries - i,
        {
            let mut duration: u128 = 0;
            let mut src_len: usize = 0;
            let mut k: usize = 0;
            while k < samples.len()
                invariant
                    k <= s.len(),
                    i < n_entries,
                    s == samples@,
                    same_formats(s),
                    n_entries == s[0].entries@.len(),
                    duration == total_duration(s, i as int, k as int),
                    src_len == total_src_len(s, i as int, k as int),
                decreases s.len() - k,
            {
                assert(s[k as int].entries@.len() == n_entries);
                let e = &samples[k].entries[i];
                match (duration.checked_add(e.duration), src_len.checked_add(e.src_len)) {
                    (Some(d), Some(l)) => {
                        duration = d;
                        src_len = l;
                    },
                    _ => {
                        proof {
                            lemma_totals_grow(s, i as int, k + 1, s.len() as int);
                        }
                        assert(!sums_fit(s));
                        return Err(SumError::Overflow);
                    },
                }
                k = k + 1;
            }
            entries.push(Entry { name: samples[0].entries[i].name.clone(), duration, src_len });
            i = i + 1;
        }
        Ok(Durations { entries, samples_count: samples.len() })
    }

    /// Whether the durations sum to more than zero, which shows that the timed
    /// work was really done.
    pub fn check(&self) -> (r: bool)
        ensures
            r == (sum_durations(self.entries@, self.entries@.len() as int) > 0),
    {
        let mut i: usize = 0;
        while i < self.entries.len()
            invariant
                i <= self.entries@.len(),
                forall|j: int| 0 <= j < i ==> (#[trigger] self.entries@[j]).duration == 0,
            decreases self.entries@.len() - i,
        {
            if self.entries[i].duration > 0 {
                proof {
                    lemma_sum_positive(self.entries@, self.entries@.len() as int);
                    assert(self.entries@[i as int].duration > 0);
                }
                return true;
            }
            i = i + 1;
        }
        proof {
            lemma_sum_positive(self.entries@, self.entries@.len() as int);
        }
        false
    }

    /// The first entry of least duration.
    pub fn fastest(&self) -> (r: &Entry)
        requires
            self.entries@.len() > 0,
        ensures
            exists|i: int| is_first_fastest(self.entries@, i) && *r == self.entries@[i],
    {
        let mut best: usize = 0;
        let mut i: usize = 1;
        while i < self.entries.len()
            invariant
                1 <= i <= self.entries@.len(),
                best < i,
                forall|j: int|
                    0 <= j < i ==> self.entries@[best as int].duration
                        <= #[trigger] self.entries@[j].duration,
                forall|j: int|
                    0 <= j < best ==> self.entries@[best as int].duration
                        < #[trigger] self.entries@[j].duration,
            decreases self.entries@.len() - i,
        {
            if self.entries[i].duration < self.entries[best].duration {
                best = i;
            }
            i = i + 1;
        }
        assert(is_first_fastest(self.entries@, best as int));
        &self.entries[best]
    }

    /// The same entries, in ascending order of duration; entries of equal
    /// duration keep their order.
    pub fn sorted(self) -> (r: Durations)
        ensures
            r.samples_count == self.samples_count,
            r.entries@.to_multiset() == self.entries@.to_multiset(),
            sorted_by_duration(r.entries@),
            forall|d: u128| #[trigger] of_duration(r.entries@, d) == of_duration(self.entries@, d),
    {
        broadcast use vstd::seq_lib::group_to_multiset_ensures, vstd::multiset::group_multiset_axioms, vstd::multiset::group_multiset_properties;

        let ghost all = self.entries@;
        let Durations { mut entries, samples_count } = self;
        let mut out: Vec<Entry> = Vec::new();
        assert(out@.to_multiset().len() == 0);
        assert(out@.to_multiset().add(entries@.to_multiset()) =~= all.to_multiset());
        assert forall|d: u128| #[trigger] of_duration(out@, d) + of_duration(entries@, d) == of_duration(all, d) by {
            lemma_of_duration_empty(d);
            assert(out@ =~= Seq::<Entry>::empty());
            assert(Seq::<Entry>::empty() + of_duration(all, d) =~= of_duration(all, d));
        }
        while entries.len() > 0
            invariant
                sorted_by_duration(out@),
                forall|d: u128| #[trigger] of_duration(out@, d) + of_duration(entries@, d) == of_duration(all, d),
                out@.to_multiset().add(entries@.to_multiset()) == all.to_multiset(),
            decreases entries@.len(),
        {
            let ghost before = entries@;
            let e = entries.remove(0);
            assert(before.remove(0) == entries@);
            let mut p: usize = 0;
            while p < out.len() && out[p].duration <= e.duration
                invariant
                    p <= out@.len(),
                    forall|j: int| 0 <= j < p ==> (#[trigger] out@[j]).duration <= e.duration,
                decreases out@.len() - p,
            {
                p = p + 1;
            }
            let ghost prev = out@;
            assert(forall|j: int| p <= j < prev.len() ==> (#[trigger] prev[j]).duration > e.duration) by {
                assert forall|j: int| p <= j < prev.len() implies (#[trigger] prev[j]).duration > e.duration by {
                    assert(prev[p as int].duration <= prev[j].duration);
                }
            }
            out.insert(p, e);
            assert(out@ == prev.insert(p as int, e));
            assert forall|a: int, b: int| 0 <= a < b < out@.len() implies out@[a].duration
                <= out@[b].duration by {
                if b < p {
                    assert(out@[a] == prev[a] && out@[b] == prev[b]);
                } else if b == p {
                    assert(out@[a] == prev[a]);
                } else if a < p {
                    assert(out@[a] == prev[a] && out@[b] == prev[b - 1]);
                } else if a == p {
                    assert(out@[b] == prev[b - 1]);
                } else {
                    assert(out@[a] == prev[a - 1] && out@[b] == prev[b - 1]);
                }
            }
            proof {
                vstd::seq_lib::to_multiset_insert(prev, p as int, e);
                vstd::seq_lib::to_multiset_remove(before, 0);
                vstd::seq_lib::to_multiset_contains(before, e);
            }
            assert(out@.to_multiset() == prev.to_multiset().insert(e));
            assert(entries@.to_multiset() == before.to_multiset().remove(e));
            assert(before.contains(e)) by {
                assert(before[0] == e);
            }
            assert(before.to_multiset().count(e) > 0);
            assert(out@.to_multiset().add(entries@.to_multiset()) =~= all.to_multiset());
            assert(before =~= seq![e] + entries@);
            assert forall|d: u128| #[trigger] of_duration(out@, d) + of_duration(entries@, d) == of_duration(all, d) by {
                lemma_insert_keeps_order(prev, p as int, e, entries@, d);
            }
        }
        assert(entries@.to_multiset().len() == 0);
        assert(entries@.to_multiset() =~= Multiset::empty());
        assert(out@.to_multiset() =~= all.to_multiset());
        assert forall|d: u128| #[trigger] of_duration(out@, d) == of_duration(all, d) by {
            assert(entries@ =~= Seq::<Entry>::empty());
            lemma_of_duration_empty(d);
            assert(of_duration(out@, d) + Seq::<Entry>::empty() =~= of_duration(out@, d));
        }
        Durations { entries: out, samples_count }
    }
}

} // verus!
