//! Continuous-mode ring buffer and downsampler: accumulates fixed-rate
//! sample batches under synthetic timestamps, trims to a retention
//! horizon, and answers windowed queries with one representative point
//! per time bin.

use vstd::prelude::*;

verus! {

/// Most samples a buffer accepts over its lifetime; keeps every
/// synthetic timestamp within `u64` microseconds.
pub const MAX_TOTAL_SAMPLES: u64 = 1_000_000_000_000;

/// Synthetic timestamp of global sample `k` at a fixed rate:
/// microseconds since the stream began.
pub open spec fn spec_time_of(k: int, rate: u32) -> int {
    k * 1_000_000 / rate as int
}

/// Synthetic timestamp of global sample `k`.
fn time_of(k: u64, rate: u32) -> (r: u64)
    requires
        k <= MAX_TOTAL_SAMPLES,
        rate >= 1,
    ensures
        r == spec_time_of(k as int, rate),
{
    k * 1_000_000 / (rate as u64)
}

/// Append-only sample table with synthetic monotonically-increasing
/// timestamps derived from a fixed sample rate, trimmed to a retention
/// horizon.  Trimming advances an offset, so it is amortized constant
/// time; the storage is compacted once the dead prefix dominates.
pub struct ContinuousBuffer {
    times_us: Vec<u64>,
    values: Vec<i64>,
    sample_rate_hz: u32,
    head: usize,
    sample_count: u64,
}

impl ContinuousBuffer {
    /// The fixed sample rate, in hertz.
    pub closed spec fn rate(&self) -> u32 {
        self.sample_rate_hz
    }

    /// How many samples were ever appended.
    pub closed spec fn count(&self) -> int {
        self.sample_count as int
    }

    /// The retained timestamps, oldest first.
    pub closed spec fn times(&self) -> Seq<u64> {
        self.times_us@.skip(self.head as int)
    }

    /// The retained sample values, oldest first.
    pub closed spec fn vals(&self) -> Seq<i64> {
        self.values@.skip(self.head as int)
    }

    /// Internal consistency: the two columns describe the same retained
    /// samples, which are the newest ones, each under its synthetic
    /// timestamp.
    pub closed spec fn wf(&self) -> bool {
        &&& self.sample_rate_hz >= 1
        &&& self.sample_count <= MAX_TOTAL_SAMPLES
        &&& self.head <= self.times_us@.len()
        &&& self.times_us@.len() == self.values@.len()
        &&& self.times().len() <= self.count()
        &&& forall|j: int|
            0 <= j < self.times().len() ==> #[trigger] self.times()[j] == spec_time_of(
                self.count() - self.times().len() + j,
                self.rate(),
            )
    }

    /// An empty buffer for a stream at the given fixed rate.
    pub fn new(sample_rate_hz: u32) -> (r: Self)
        requires
            sample_rate_hz >= 1,
        ensures
            r.wf(),
            r.rate() == sample_rate_hz,
            r.count() == 0,
            r.times() =~= Seq::<u64>::empty(),
            r.vals() =~= Seq::<i64>::empty(),
    {
        ContinuousBuffer {
            times_us: Vec::new(),
            values: Vec::new(),
            sample_rate_hz,
            head: 0,
            sample_count: 0,
        }
    }

    /// How many samples were ever appended.
    pub fn total_samples(&self) -> (r: u64)
        ensures
            r == self.count(),
    {
        self.sample_count
    }

    /// Appends one batch of samples; each gets the next synthetic
    /// timestamp, extrapolated from the running sample counter at the
    /// fixed rate.
    pub fn add_batch(&mut self, batch: Vec<i64>)
        requires
            old(self).wf(),
            old(self).count() + batch@.len() <= MAX_TOTAL_SAMPLES,
        ensures
            final(self).wf(),
            final(self).rate() == old(self).rate(),
            final(self).count() == old(self).count() + batch@.len(),
            final(self).vals() == old(self).vals() + batch@,
            final(self).times().len() == old(self).times().len() + batch@.len(),
            final(self).times().subrange(0, old(self).times().len() as int) == old(self).times(),
    {
        let ghost orig_times = self.times();
        let ghost orig_vals = self.vals();
        let ghost orig_count = self.count();
        let mut i: usize = 0;
        while i < batch.len()
            invariant
                i <= batch@.len(),
                self.sample_rate_hz == old(self).rate(),
                self.sample_rate_hz >= 1,
                self.head == old(self).head,
                orig_count + batch@.len() <= MAX_TOTAL_SAMPLES,
                self.sample_count as int == orig_count + i,
                self.head <= self.times_us@.len(),
                self.times_us@.len() == self.values@.len(),
                self.times().len() == orig_times.len() + i,
                self.times().len() <= self.sample_count,
                self.vals() =~= orig_vals + batch@.subrange(0, i as int),
                self.times().subrange(0, orig_times.len() as int) == orig_times,
                forall|j: int|
                    0 <= j < self.times().len() ==> #[trigger] self.times()[j] == spec_time_of(
                        self.count() - self.times().len() + j,
                        self.rate(),
                    ),
            decreases batch@.len() - i,
        {
            let ghost pre_times = self.times();
            let ghost pre_vals = self.vals();
            let t = time_of(self.sample_count, self.sample_rate_hz);
            self.times_us.push(t);
            self.values.push(batch[i]);
            self.sample_count = self.sample_count + 1;
            proof {
                assert(self.times() =~= pre_times.push(t));
                assert(self.vals() =~= pre_vals.push(batch@[i as int]));
                assert(self.vals() =~= orig_vals + batch@.subrange(0, i + 1));
                assert(self.times().subrange(0, orig_times.len() as int) =~= orig_times);
                assert forall|j: int| 0 <= j < self.times().len() implies #[trigger] self.times()[j]
                    == spec_time_of(self.count() - self.times().len() + j, self.rate()) by {
                    if j < pre_times.len() {
                        assert(self.times()[j] == pre_times[j]);
                    } else {
                        assert(self.times()[j] == t);
                    }
                }
            }
            i = i + 1;
        }
        proof {
            assert(batch@.subrange(0, batch@.len() as int) =~= batch@);
        }
    }

    /// How many retained samples a retention horizon denotes.
    pub open spec fn spec_keep_samples(keep_time_us: u64, rate: u32) -> int {
        keep_time_us as int * rate as int / 1_000_000
    }

    /// Drops every sample but the newest `keep_time_us` worth.  Only an
    /// offset moves; the storage is compacted when the dead prefix
    /// outgrows the live data.
    pub fn cleanup_old_batches(&mut self, keep_time_us: u64)
        requires
            old(self).wf(),
        ensures
            final(self).wf(),
            final(self).rate() == old(self).rate(),
            final(self).count() == old(self).count(),
            ({
                let keep = Self::spec_keep_samples(keep_time_us, old(self).rate());
                let drop = if old(self).times().len() > keep {
                    old(self).times().len() - keep
                } else {
                    0
                };
                final(self).times() == old(self).times().skip(drop) && final(self).vals() == old(
                    self,
                ).vals().skip(drop)
            }),
    {
        let len = self.times_us.len();
        let logical: usize = len - self.head;
        proof {
            assert((keep_time_us as u128) * (self.sample_rate_hz as u128) < 0x1_0000_0000_0000_0000_0000_0000u128)
                by (nonlinear_arith)
                requires
                    keep_time_us <= u64::MAX,
                    self.sample_rate_hz <= u32::MAX,
            ;
        }
        let keep_wide: u128 = (keep_time_us as u128) * (self.sample_rate_hz as u128) / 1_000_000;
        if (logical as u128) > keep_wide {
            let keep: usize = keep_wide as usize;
            let drop: usize = logical - keep;
            self.head = self.head + drop;
        }
        proof {
            assert(self.times() =~= old(self).times().skip(
                if old(self).times().len() > Self::spec_keep_samples(keep_time_us, old(self).rate()) {
                    old(self).times().len() - Self::spec_keep_samples(keep_time_us, old(self).rate())
                } else {
                    0
                },
            ));
            assert(self.vals() =~= old(self).vals().skip(
                if old(self).times().len() > Self::spec_keep_samples(keep_time_us, old(self).rate()) {
                    old(self).times().len() - Self::spec_keep_samples(keep_time_us, old(self).rate())
                } else {
                    0
                },
            ));
        }
        if self.head > self.times_us.len() - self.head {
            self.compact();
        }
    }

    /// Copies the live samples to the front and resets the offset; the
    /// retained data is unchanged.
    fn compact(&mut self)
        requires
            old(self).head <= old(self).times_us@.len(),
            old(self).times_us@.len() == old(self).values@.len(),
        ensures
            final(self).times() == old(self).times(),
            final(self).vals() == old(self).vals(),
            final(self).head == 0,
            final(self).sample_rate_hz == old(self).sample_rate_hz,
            final(self).sample_count == old(self).sample_count,
            final(self).times_us@.len() == final(self).values@.len(),
            final(self).times_us@ == final(self).times(),
    {
        let mut new_times: Vec<u64> = Vec::new();
        let mut new_values: Vec<i64> = Vec::new();
        let mut j: usize = self.head;
        while j < self.times_us.len()
            invariant
                old(self).head <= j <= self.times_us@.len(),
                self.times_us@ == old(self).times_us@,
                self.values@ == old(self).values@,
                self.head == old(self).head,
                self.times_us@.len() == self.values@.len(),
                new_times@ == self.times_us@.subrange(self.head as int, j as int),
                new_values@ == self.values@.subrange(self.head as int, j as int),
            decreases self.times_us@.len() - j,
        {
            new_times.push(self.times_us[j]);
            new_values.push(self.values[j]);
            proof {
                assert(new_times@ =~= self.times_us@.subrange(self.head as int, j + 1));
                assert(new_values@ =~= self.values@.subrange(self.head as int, j + 1));
            }
            j = j + 1;
        }
        self.times_us = new_times;
        self.values = new_values;
        self.head = 0;
        proof {
            assert(self.times() =~= old(self).times());
            assert(self.vals() =~= old(self).vals());
        }
    }
}

/// Ascending order on sample values.
pub open spec fn leq_val() -> spec_fn(i64, i64) -> bool {
    |a: i64, b: i64| a <= b
}

/// Lexicographic order on plot points: by time, ties by value.
pub open spec fn leq_point() -> spec_fn((u64, i64), (u64, i64)) -> bool {
    |a: (u64, i64), b: (u64, i64)| a.0 < b.0 || (a.0 == b.0 && a.1 <= b.1)
}

proof fn lemma_leq_val_total()
    ensures
        vstd::relations::total_ordering(leq_val()),
{
}

proof fn lemma_leq_point_total()
    ensures
        vstd::relations::total_ordering(leq_point()),
{
    assert forall|a: (u64, i64), b: (u64, i64)|
        #[trigger] leq_point()(a, b) && leq_point()(b, a) implies a == b by {
        assert(a.0 == b.0 && a.1 == b.1);
    }
}

/// Inserting anywhere adds the element to the sequence's multiset.
proof fn lemma_insert_to_multiset<A>(s: Seq<A>, p: int, x: A)
    requires
        0 <= p <= s.len(),
    ensures
        s.insert(p, x).to_multiset() =~= s.to_multiset().insert(x),
{
    broadcast use vstd::seq_lib::group_to_multiset_ensures;

    let t = s.insert(p, x);
    assert(t.remove(p) =~= s);
    assert(t[p] == x);
    assert(t.remove(p).to_multiset() =~= t.to_multiset().remove(t[p]));
    assert(t.contains(x));
    assert(t.to_multiset().count(x) > 0);
    assert forall|y: A| t.to_multiset().count(y) == #[trigger] s.to_multiset().insert(x).count(
        y,
    ) by {
        if y == x {
            assert(s.to_multiset().count(x) == t.to_multiset().remove(x).count(x));
        } else {
            assert(s.to_multiset().count(y) == t.to_multiset().remove(x).count(y));
        }
    }
}

/// The values of a sequence, sorted ascending.
pub open spec fn spec_sorted_vals(s: Seq<i64>) -> Seq<i64> {
    s.sort_by(leq_val())
}

/// Sorts sample values ascending: the executable face of
/// [`spec_sorted_vals`].
fn sort_vals(v: &Vec<i64>) -> (r: Vec<i64>)
    ensures
        r@ == spec_sorted_vals(v@),
        r@.len() == v@.len(),
{
    let mut r: Vec<i64> = Vec::new();
    proof {
        assert(v@.subrange(0, 0) =~= Seq::<i64>::empty());
        assert(r@ =~= Seq::<i64>::empty());
    }
    let mut i: usize = 0;
    while i < v.len()
        invariant
            i <= v@.len(),
            r@.len() == i,
            vstd::relations::sorted_by(r@, leq_val()),
            r@.to_multiset() == v@.subrange(0, i as int).to_multiset(),
        decreases v@.len() - i,
    {
        let x = v[i];
        let mut p: usize = r.len();
        while p > 0 && r[p - 1] > x
            invariant
                p <= r@.len(),
                forall|k: int| p <= k < r@.len() ==> #[trigger] r@[k] > x,
            decreases p,
        {
            p = p - 1;
        }
        let ghost pre = r@;
        r.insert(p, x);
        proof {
            broadcast use vstd::seq_lib::group_to_multiset_ensures;

            assert forall|k1: int, k2: int| 0 <= k1 < k2 < r@.len() implies #[trigger] leq_val()(
                r@[k1],
                r@[k2],
            ) by {
                if k2 < p {
                    assert(r@[k1] == pre[k1] && r@[k2] == pre[k2]);
                } else if k1 > p {
                    assert(r@[k1] == pre[k1 - 1] && r@[k2] == pre[k2 - 1]);
                } else if k1 == p {
                    assert(r@[k1] == x && r@[k2] == pre[k2 - 1] && pre[k2 - 1] > x);
                } else if k2 == p {
                    assert(r@[k1] == pre[k1] && r@[k2] == x);
                    assert(pre[p - 1] <= x);
                    if k1 < p - 1 {
                        assert(leq_val()(pre[k1], pre[p - 1]));
                    }
                } else {
                    assert(r@[k1] == pre[k1] && r@[k2] == pre[k2 - 1]);
                    assert(leq_val()(pre[k1], pre[k2 - 1]));
                }
            }
            lemma_insert_to_multiset(pre, p as int, x);
            assert(v@.subrange(0, i + 1) =~= v@.subrange(0, i as int).push(x));
            assert(v@.subrange(0, i + 1).to_multiset() =~= v@.subrange(
                0,
                i as int,
            ).to_multiset().insert(x));
        }
        i = i + 1;
    }
    proof {
        assert(v@.subrange(0, v@.len() as int) =~= v@);
        v@.lemma_sort_by_ensures(leq_val());
        lemma_leq_val_total();
        vstd::seq_lib::lemma_sorted_unique(r@, v@.sort_by(leq_val()), leq_val());
    }
    r
}

/// Plot points sorted by time, ties by value.
pub open spec fn spec_sorted_points(s: Seq<(u64, i64)>) -> Seq<(u64, i64)> {
    s.sort_by(leq_point())
}

/// Sorts plot points by time: the executable face of
/// [`spec_sorted_points`].
fn sort_points(v: &Vec<(u64, i64)>) -> (r: Vec<(u64, i64)>)
    ensures
        r@ == spec_sorted_points(v@),
        r@.len() == v@.len(),
{
    let mut r: Vec<(u64, i64)> = Vec::new();
    proof {
        assert(v@.subrange(0, 0) =~= Seq::<(u64, i64)>::empty());
        assert(r@ =~= Seq::<(u64, i64)>::empty());
    }
    let mut i: usize = 0;
    while i < v.len()
        invariant
            i <= v@.len(),
            r@.len() == i,
            vstd::relations::sorted_by(r@, leq_point()),
            r@.to_multiset() == v@.subrange(0, i as int).to_multiset(),
        decreases v@.len() - i,
    {
        let x = v[i];
        let mut p: usize = r.len();
        while p > 0 && !(r[p - 1].0 < x.0 || (r[p - 1].0 == x.0 && r[p - 1].1 <= x.1))
            invariant
                p <= r@.len(),
                forall|k: int| p <= k < r@.len() ==> !(#[trigger] leq_point()(r@[k], x)),
            decreases p,
        {
            p = p - 1;
        }
        let ghost pre = r@;
        r.insert(p, x);
        proof {
            broadcast use vstd::seq_lib::group_to_multiset_ensures;

            lemma_leq_point_total();
            assert forall|k1: int, k2: int| 0 <= k1 < k2 < r@.len() implies #[trigger] leq_point()(
                r@[k1],
                r@[k2],
            ) by {
                if k2 < p {
                    assert(r@[k1] == pre[k1] && r@[k2] == pre[k2]);
                } else if k1 > p {
                    assert(r@[k1] == pre[k1 - 1] && r@[k2] == pre[k2 - 1]);
                } else if k1 == p {
                    assert(r@[k1] == x && r@[k2] == pre[k2 - 1]);
                    assert(!leq_point()(pre[k2 - 1], x));
                    assert(leq_point()(x, pre[k2 - 1]));
                } else if k2 == p {
                    assert(r@[k1] == pre[k1] && r@[k2] == x);
                    assert(leq_point()(pre[p - 1], x));
                    if k1 < p - 1 {
                        assert(leq_point()(pre[k1], pre[p - 1]));
                        assert(leq_point()(pre[k1], x));
                    }
                } else {
                    assert(r@[k1] == pre[k1] && r@[k2] == pre[k2 - 1]);
                    assert(leq_point()(pre[k1], pre[k2 - 1]));
                }
            }
            lemma_insert_to_multiset(pre, p as int, x);
            assert(v@.subrange(0, i + 1) =~= v@.subrange(0, i as int).push(x));
            assert(v@.subrange(0, i + 1).to_multiset() =~= v@.subrange(
                0,
                i as int,
            ).to_multiset().insert(x));
        }
        i = i + 1;
    }
    proof {
        assert(v@.subrange(0, v@.len() as int) =~= v@);
        v@.lemma_sort_by_ensures(leq_point());
        lemma_leq_point_total();
        vstd::seq_lib::lemma_sorted_unique(r@, v@.sort_by(leq_point()), leq_point());
    }
    r
}

/// One (time, value) pair per retained sample.
pub open spec fn spec_pairs(times: Seq<u64>, vals: Seq<i64>) -> Seq<(u64, i64)> {
    Seq::new(times.len(), |i: int| (times[i], vals[i]))
}

/// The samples at or after the window start.
pub open spec fn spec_in_window(ps: Seq<(u64, i64)>, window_start: u64) -> Seq<(u64, i64)> {
    ps.filter(|p: (u64, i64)| p.0 >= window_start)
}

/// Maximal consecutive groups of samples whose times share a bin of
/// `bin_size` microseconds.
pub open spec fn spec_runs(ps: Seq<(u64, i64)>, bin_size: u64) -> Seq<Seq<(u64, i64)>>
    decreases ps.len(),
{
    if ps.len() == 0 {
        Seq::empty()
    } else {
        let rest = spec_runs(ps.drop_last(), bin_size);
        let x = ps.last();
        if rest.len() > 0 && rest.last().len() > 0 && rest.last().last().0 as int / bin_size as int
            == x.0 as int / bin_size as int {
            rest.update(rest.len() - 1, rest.last().push(x))
        } else {
            rest.push(seq![x])
        }
    }
}

/// Sum of a value sequence.
pub open spec fn spec_sum(s: Seq<i64>) -> int
    decreases s.len(),
{
    if s.len() == 0 {
        0
    } else {
        spec_sum(s.drop_last()) + s.last()
    }
}

/// Smallest value of a non-empty sequence.
pub open spec fn spec_min_val(s: Seq<i64>) -> i64 {
    spec_sorted_vals(s).first()
}

/// Largest value of a non-empty sequence.
pub open spec fn spec_max_val(s: Seq<i64>) -> i64 {
    spec_sorted_vals(s).last()
}

/// Mean of a non-empty sequence, rounded towards negative infinity.
pub open spec fn spec_mean(s: Seq<i64>) -> int {
    spec_sum(s) / s.len() as int
}

/// Median of a non-empty sequence: the middle of the sorted values, or
/// for an even count the rounded-down midpoint of the two middle ones.
pub open spec fn spec_median(s: Seq<i64>) -> int {
    let t = spec_sorted_vals(s);
    if s.len() % 2 == 1 {
        t[s.len() as int / 2] as int
    } else {
        (t[s.len() as int / 2 - 1] + t[s.len() as int / 2]) / 2
    }
}

/// What one bin reduces to: its time extent and the summary statistics
/// of its values.  The median is the representative value plotted;
/// minimum, maximum and mean are kept for envelope rendering.
#[derive(Clone, Copy, Debug, PartialEq, Eq)]
pub struct BinSummary {
    pub time_min: u64,
    pub time_max: u64,
    pub min_val: i64,
    pub max_val: i64,
    pub mean_val: i64,
    pub median: i64,
}

/// The summary of one non-empty run of time-ordered samples.
pub open spec fn spec_summary(run: Seq<(u64, i64)>) -> BinSummary {
    let vs = run.map_values(|p: (u64, i64)| p.1);
    BinSummary {
        time_min: run.first().0,
        time_max: run.last().0,
        min_val: spec_min_val(vs),
        max_val: spec_max_val(vs),
        mean_val: spec_mean(vs) as i64,
        median: spec_median(vs) as i64,
    }
}

/// A sequence without its first and last element: the two edge bins of
/// a window may be partially populated and are discarded.
pub open spec fn spec_inner<A>(s: Seq<A>) -> Seq<A> {
    if s.len() >= 2 {
        s.subrange(1, s.len() - 1)
    } else {
        Seq::empty()
    }
}

/// The horizontal position of one bin: its earliest time, mapped
/// modulo the window in wrap mode.
pub open spec fn spec_point_x(b: BinSummary, wrap: bool, window_us: u64) -> u64 {
    if wrap {
        (b.time_min as int % window_us as int) as u64
    } else {
        b.time_min
    }
}

/// The plotted points of the kept bins, in time order; wrap mode
/// re-sorts by the wrapped position.
pub open spec fn spec_window_points(sums: Seq<BinSummary>, wrap: bool, window_us: u64) -> Seq<
    (u64, i64),
> {
    let base = Seq::new(
        spec_inner(sums).len(),
        |i: int|
            (
                spec_point_x(spec_inner(sums)[i], wrap, window_us),
                spec_inner(sums)[i].median,
            ),
    );
    if wrap {
        spec_sorted_points(base)
    } else {
        base
    }
}

/// The whole windowed downsampling query over the retained samples.
pub open spec fn spec_window_query(
    times: Seq<u64>,
    vals: Seq<i64>,
    count: int,
    rate: u32,
    window_us: u64,
    wrap: bool,
    plot_width: u32,
) -> Seq<(u64, i64)> {
    if times.len() == 0 {
        Seq::empty()
    } else {
        let latest = spec_time_of(count, rate);
        let ws = if latest >= window_us { latest - window_us } else { 0 };
        let bs = (window_us - 1) / plot_width as int + 1;
        let filtered = spec_in_window(spec_pairs(times, vals), ws as u64);
        let runs = spec_runs(filtered, bs as u64);
        spec_window_points(
            runs.map_values(|r: Seq<(u64, i64)>| spec_summary(r)),
            wrap,
            window_us,
        )
    }
}

/// The sum of a sequence bounded below and above by a bound on its
/// elements.
proof fn lemma_sum_bounds(s: Seq<i64>, lo: i64, hi: i64)
    requires
        forall|k: int| 0 <= k < s.len() ==> lo <= #[trigger] s[k] <= hi,
    ensures
        s.len() * (lo as int) <= spec_sum(s) <= s.len() * (hi as int),
    decreases s.len(),
{
    if s.len() == 0 {
    } else {
        lemma_sum_bounds(s.drop_last(), lo, hi);
        assert((s.len() - 1) * (lo as int) + lo == s.len() * (lo as int)) by (nonlinear_arith);
        assert((s.len() - 1) * (hi as int) + hi == s.len() * (hi as int)) by (nonlinear_arith);
    }
}

/// Every element of a sequence lies between its smallest and largest
/// value.
proof fn lemma_min_max_bound(s: Seq<i64>, k: int)
    requires
        0 <= k < s.len(),
    ensures
        spec_min_val(s) <= s[k] <= spec_max_val(s),
{
    broadcast use vstd::seq_lib::group_to_multiset_ensures;

    s.lemma_sort_by_ensures(leq_val());
    let t = spec_sorted_vals(s);
    assert(s.contains(s[k]));
    assert(s.to_multiset().count(s[k]) > 0);
    assert(t.to_multiset().count(s[k]) > 0);
    assert(t.contains(s[k]));
    let j = choose|j: int| 0 <= j < t.len() && t[j] == s[k];
    if j > 0 {
        assert(leq_val()(t[0], t[j]));
    }
    if j < t.len() - 1 {
        assert(leq_val()(t[j], t[t.len() - 1]));
    }
}

/// Prefix sums step with the sequence.
proof fn lemma_sum_step(s: Seq<i64>, i: int)
    requires
        0 <= i < s.len(),
    ensures
        spec_sum(s.subrange(0, i + 1)) == spec_sum(s.subrange(0, i)) + s[i],
{
    assert(s.subrange(0, i + 1).drop_last() =~= s.subrange(0, i));
    assert(s.subrange(0, i + 1).last() == s[i]);
}

/// The summary statistics of one non-empty group of time-ordered
/// samples.
fn summarize_group(g: &Vec<(u64, i64)>) -> (r: BinSummary)
    requires
        g@.len() > 0,
        g@.len() <= 0x1_0000_0000_0000,
    ensures
        r == spec_summary(g@),
{
    let ghost vs_spec = g@.map_values(|p: (u64, i64)| p.1);
    let mut vs: Vec<i64> = Vec::new();
    let mut i: usize = 0;
    while i < g.len()
        invariant
            i <= g@.len(),
            vs@.len() == i,
            forall|k: int| 0 <= k < i ==> vs@[k] == (#[trigger] g@[k]).1,
        decreases g@.len() - i,
    {
        vs.push(g[i].1);
        i = i + 1;
    }
    proof {
        assert(vs@ =~= vs_spec);
    }
    let n = vs.len();
    let sorted = sort_vals(&vs);
    proof {
        vs@.lemma_sort_by_ensures(leq_val());
    }
    let min_val = sorted[0];
    let max_val = sorted[n - 1];
    let median: i64 = if n % 2 == 1 {
        sorted[n / 2]
    } else {
        let a = sorted[n / 2 - 1];
        let b = sorted[n / 2];
        proof {
            assert(leq_val()(sorted@[n as int / 2 - 1], sorted@[n as int / 2]));
            vstd::arithmetic::div_mod::lemma_hoist_over_denominator(b - a, a as int, 2nat);
            assert((b - a) / 2 + a == (b - a + a * 2) / 2);
            assert(b - a + a * 2 == a + b);
        }
        let d: u128 = ((b as i128) - (a as i128)) as u128;
        let half: u128 = d / 2;
        proof {
            assert(half as int == (b - a) / 2);
            assert(a as int + half as int <= b as int);
        }
        (a as i128 + half as i128) as i64
    };
    let mut acc: u128 = 0;
    let mut j: usize = 0;
    proof {
        assert forall|k: int| 0 <= k < vs@.len() implies min_val <= #[trigger] vs@[k] <= max_val by {
            lemma_min_max_bound(vs@, k);
        }
    }
    while j < n
        invariant
            j <= n,
            n == vs@.len(),
            n <= 0x1_0000_0000_0000,
            min_val == spec_min_val(vs@),
            max_val == spec_max_val(vs@),
            forall|k: int| 0 <= k < vs@.len() ==> min_val <= #[trigger] vs@[k] <= max_val,
            acc as int == spec_sum(vs@.subrange(0, j as int)) - (j as int) * (min_val as int),
            acc as int <= (j as int) * 0x1_0000_0000_0000_0000,
        decreases n - j,
    {
        let v = vs[j];
        let diff: u128 = ((v as i128) - (min_val as i128)) as u128;
        proof {
            lemma_sum_step(vs@, j as int);
            assert(diff as int == v - min_val);
            assert((j as int + 1) * (min_val as int) == (j as int) * (min_val as int)
                + min_val) by (nonlinear_arith);
            assert(diff <= 0xFFFF_FFFF_FFFF_FFFF);
            assert((j as int + 1) * 0x1_0000_0000_0000_0000 == (j as int) * 0x1_0000_0000_0000_0000
                + 0x1_0000_0000_0000_0000) by (nonlinear_arith);
        }
        acc = acc + diff;
        j = j + 1;
    }
    proof {
        assert(vs@.subrange(0, n as int) =~= vs@);
    }
    let mean_shift: u128 = acc / (n as u128);
    let mean_val: i64;
    proof {
        vstd::arithmetic::div_mod::lemma_hoist_over_denominator(
            spec_sum(vs@) - (n as int) * (min_val as int),
            min_val as int,
            n as nat,
        );
        assert((spec_sum(vs@) - (n as int) * (min_val as int) + (min_val as int) * (n as int))
            == spec_sum(vs@)) by (nonlinear_arith);
        assert(mean_shift as int + min_val == spec_mean(vs@));
        lemma_sum_bounds(vs@, min_val, max_val);
        assert(spec_mean(vs@) >= min_val) by {
            vstd::arithmetic::div_mod::lemma_div_is_ordered(
                vs@.len() * (min_val as int),
                spec_sum(vs@),
                vs@.len() as int,
            );
            vstd::arithmetic::div_mod::lemma_div_multiples_vanish(
                min_val as int,
                vs@.len() as int,
            );
        }
        assert(spec_mean(vs@) <= max_val) by {
            vstd::arithmetic::div_mod::lemma_div_is_ordered(
                spec_sum(vs@),
                vs@.len() * (max_val as int),
                vs@.len() as int,
            );
            vstd::arithmetic::div_mod::lemma_div_multiples_vanish(
                max_val as int,
                vs@.len() as int,
            );
        }
    }
    mean_val = (min_val as i128 + mean_shift as i128) as i64;
    BinSummary {
        time_min: g[0].0,
        time_max: g[g.len() - 1].0,
        min_val,
        max_val,
        mean_val,
        median,
    }
}

/// The time bin a timestamp falls into.
pub open spec fn spec_bin(t: u64, bin_size: u64) -> int {
    t as int / bin_size as int
}

/// Sample times are in non-decreasing order.
pub open spec fn time_sorted(ps: Seq<(u64, i64)>) -> bool {
    forall|i: int, j: int| 0 <= i < j < ps.len() ==> (#[trigger] ps[i]).0 <= (#[trigger] ps[j]).0
}

/// Filtering to the window keeps only conforming samples, all drawn
/// from the input, still in time order.
proof fn lemma_in_window_props(ps: Seq<(u64, i64)>, ws: u64)
    requires
        time_sorted(ps),
    ensures
        forall|k: int|
            0 <= k < spec_in_window(ps, ws).len() ==> (#[trigger] spec_in_window(ps, ws)[k]).0
                >= ws,
        forall|k: int|
            0 <= k < spec_in_window(ps, ws).len() ==> ps.contains(
                #[trigger] spec_in_window(ps, ws)[k],
            ),
        time_sorted(spec_in_window(ps, ws)),
    decreases ps.len(),
{
    reveal(Seq::filter);
    let f = spec_in_window(ps, ws);
    if ps.len() == 0 {
    } else {
        let prev = ps.drop_last();
        assert(time_sorted(prev)) by {
            assert forall|i: int, j: int| 0 <= i < j < prev.len() implies (#[trigger] prev[i]).0
                <= (#[trigger] prev[j]).0 by {
                assert(prev[i] == ps[i] && prev[j] == ps[j]);
            }
        }
        lemma_in_window_props(prev, ws);
        let fp = spec_in_window(prev, ws);
        assert forall|e: (u64, i64)| prev.contains(e) implies ps.contains(e) by {
            let k = choose|k: int| 0 <= k < prev.len() && prev[k] == e;
            assert(ps[k] == e);
        }
        if ps.last().0 >= ws {
            assert(f == fp.push(ps.last()));
            assert forall|i: int, j: int| 0 <= i < j < f.len() implies (#[trigger] f[i]).0
                <= (#[trigger] f[j]).0 by {
                if j < fp.len() {
                    assert(f[i] == fp[i] && f[j] == fp[j]);
                } else {
                    assert(f[j] == ps.last());
                    assert(prev.contains(fp[i]));
                    let k = choose|k: int| 0 <= k < prev.len() && prev[k] == fp[i];
                    assert(ps[k].0 <= ps.last().0);
                }
            }
        } else {
            assert(f == fp);
        }
    }
}

/// Structure of the run split: every run is non-empty, made of input
/// samples sharing one bin, runs carry strictly increasing bins, and
/// the last run ends with the last sample.
proof fn lemma_runs_props(ps: Seq<(u64, i64)>, bs: u64)
    requires
        bs >= 1,
        time_sorted(ps),
    ensures
        spec_runs(ps, bs).len() <= ps.len(),
        ps.len() > 0 ==> spec_runs(ps, bs).len() > 0 && spec_runs(ps, bs).last().len() > 0
            && spec_runs(ps, bs).last().last() == ps.last(),
        forall|i: int|
            0 <= i < spec_runs(ps, bs).len() ==> 0 < (#[trigger] spec_runs(ps, bs)[i]).len()
                <= ps.len(),
        forall|i: int, j: int|
            0 <= i < spec_runs(ps, bs).len() && 0 <= j < spec_runs(ps, bs)[i].len() ==> ps.contains(
                #[trigger] spec_runs(ps, bs)[i][j],
            ),
        forall|i: int, j: int|
            0 <= i < spec_runs(ps, bs).len() && 0 <= j < spec_runs(ps, bs)[i].len() ==> spec_bin(
                (#[trigger] spec_runs(ps, bs)[i][j]).0,
                bs,
            ) == spec_bin(spec_runs(ps, bs)[i][0].0, bs),
        forall|i: int|
            0 <= i && i + 1 < spec_runs(ps, bs).len() ==> spec_bin(
                (#[trigger] spec_runs(ps, bs)[i])[0].0,
                bs,
            ) < spec_bin(spec_runs(ps, bs)[i + 1][0].0, bs),
    decreases ps.len(),
{
    if ps.len() == 0 {
    } else {
        let prev = ps.drop_last();
        let x = ps.last();
        assert(time_sorted(prev)) by {
            assert forall|i: int, j: int| 0 <= i < j < prev.len() implies (#[trigger] prev[i]).0
                <= (#[trigger] prev[j]).0 by {
                assert(prev[i] == ps[i] && prev[j] == ps[j]);
            }
        }
        lemma_runs_props(prev, bs);
        let rest = spec_runs(prev, bs);
        let runs = spec_runs(ps, bs);
        assert forall|e: (u64, i64)| prev.contains(e) implies ps.contains(e) by {
            let k = choose|k: int| 0 <= k < prev.len() && prev[k] == e;
            assert(ps[k] == e);
        }
        if rest.len() > 0 && rest.last().len() > 0 && spec_bin(rest.last().last().0, bs)
            == spec_bin(x.0, bs) {
            assert(runs == rest.update(rest.len() - 1, rest.last().push(x)));
            assert(runs.last() == rest.last().push(x));
            assert(spec_bin(x.0, bs) == spec_bin(rest.last()[0].0, bs)) by {
                assert(spec_bin(rest.last().last().0, bs) == spec_bin(rest.last()[0].0, bs));
            }
            assert forall|i: int, j: int|
                0 <= i < runs.len() && 0 <= j < runs[i].len() implies ps.contains(
                #[trigger] runs[i][j],
            ) by {
                if i < runs.len() - 1 {
                    assert(runs[i] == rest[i]);
                } else {
                    if j < runs[i].len() - 1 {
                        assert(runs[i][j] == rest[i][j]);
                    } else {
                        assert(runs[i][j] == x);
                        assert(ps[ps.len() - 1] == x);
                    }
                }
            }
            assert forall|i: int, j: int|
                0 <= i < runs.len() && 0 <= j < runs[i].len() implies spec_bin(
                (#[trigger] runs[i][j]).0,
                bs,
            ) == spec_bin(runs[i][0].0, bs) by {
                if i < runs.len() - 1 {
                    assert(runs[i] == rest[i]);
                } else {
                    assert(runs[i][0] == rest[i][0]);
                    if j < runs[i].len() - 1 {
                        assert(runs[i][j] == rest[i][j]);
                    } else {
                        assert(runs[i][j] == x);
                    }
                }
            }
            assert forall|i: int| 0 <= i && i + 1 < runs.len() implies spec_bin(
                (#[trigger] runs[i])[0].0,
                bs,
            ) < spec_bin(runs[i + 1][0].0, bs) by {
                assert(runs[i][0] == rest[i][0]);
                assert(runs[i + 1][0] == rest[i + 1][0]);
            }
        } else {
            assert(runs == rest.push(seq![x]));
            assert(runs.last() == seq![x]);
            assert forall|i: int, j: int|
                0 <= i < runs.len() && 0 <= j < runs[i].len() implies ps.contains(
                #[trigger] runs[i][j],
            ) by {
                if i < runs.len() - 1 {
                    assert(runs[i] == rest[i]);
                } else {
                    assert(runs[i][j] == x);
                    assert(ps[ps.len() - 1] == x);
                }
            }
            assert forall|i: int, j: int|
                0 <= i < runs.len() && 0 <= j < runs[i].len() implies spec_bin(
                (#[trigger] runs[i][j]).0,
                bs,
            ) == spec_bin(runs[i][0].0, bs) by {
                if i < runs.len() - 1 {
                    assert(runs[i] == rest[i]);
                }
            }
            assert forall|i: int| 0 <= i && i + 1 < runs.len() implies spec_bin(
                (#[trigger] runs[i])[0].0,
                bs,
            ) < spec_bin(runs[i + 1][0].0, bs) by {
                if i + 1 < runs.len() - 1 {
                    assert(runs[i] == rest[i]);
                    assert(runs[i + 1] == rest[i + 1]);
                } else {
                    assert(runs[i] == rest[i]);
                    assert(runs[i + 1] == seq![x]);
                    if prev.len() > 0 {
                        assert(rest.last().last() == prev.last());
                        assert(prev[prev.len() - 1].0 <= x.0) by {
                            assert(ps[ps.len() - 2].0 <= ps[ps.len() - 1].0);
                        }
                        vstd::arithmetic::div_mod::lemma_div_is_ordered(
                            prev.last().0 as int,
                            x.0 as int,
                            bs as int,
                        );
                        assert(spec_bin(rest[i][0].0, bs) <= spec_bin(rest.last()[0].0, bs));
                        assert(spec_bin(rest.last()[0].0, bs) == spec_bin(rest.last().last().0, bs));
                        assert(spec_bin(rest.last().last().0, bs) != spec_bin(x.0, bs));
                        assert(spec_bin(rest.last().last().0, bs) <= spec_bin(x.0, bs));
                        if i < rest.len() - 1 {
                            assert(spec_bin(rest[i][0].0, bs) < spec_bin(rest.last()[0].0, bs))
                                by {
                                lemma_bins_chain(rest, bs, i, rest.len() - 1);
                            }
                        }
                    }
                }
            }
        }
    }
}

/// With strictly increasing adjacent bins, the bin grows at least as
/// fast as the run index.
proof fn lemma_bins_chain(runs: Seq<Seq<(u64, i64)>>, bs: u64, i: int, j: int)
    requires
        forall|k: int|
            0 <= k && k + 1 < runs.len() ==> spec_bin((#[trigger] runs[k])[0].0, bs) < spec_bin(
                runs[k + 1][0].0,
                bs,
            ),
        0 <= i < j < runs.len(),
    ensures
        spec_bin(runs[i][0].0, bs) + (j - i) <= spec_bin(runs[j][0].0, bs),
    decreases j - i,
{
    if j > i + 1 {
        lemma_bins_chain(runs, bs, i, j - 1);
    }
}

/// The difference of two floored quotients overshoots the quotient of
/// the difference by at most one.
proof fn lemma_div_diff(x: int, y: int, d: int)
    requires
        d >= 1,
        y <= x,
    ensures
        x / d - y / d <= (x - y) / d + 1,
{
    vstd::arithmetic::div_mod::lemma_fundamental_div_mod(x, d);
    vstd::arithmetic::div_mod::lemma_fundamental_div_mod(y, d);
    vstd::arithmetic::div_mod::lemma_fundamental_div_mod(x - y, d);
    vstd::arithmetic::div_mod::lemma_mod_division_less_than_divisor(x, d);
    vstd::arithmetic::div_mod::lemma_mod_division_less_than_divisor(y, d);
    vstd::arithmetic::div_mod::lemma_mod_division_less_than_divisor(x - y, d);
    assert(x / d - y / d <= (x - y) / d + 1) by (nonlinear_arith)
        requires
            d >= 1,
            x == d * (x / d) + (x % d),
            y == d * (y / d) + (y % d),
            x - y == d * ((x - y) / d) + ((x - y) % d),
            0 <= x % d < d,
            0 <= y % d < d,
            0 <= (x - y) % d < d,
    ;
}

/// Law: a windowed query returns at most the point budget, and every
/// returned timestamp lies inside the requested window — below the
/// window length in wrap mode.
pub proof fn lemma_query_bounds(
    times: Seq<u64>,
    vals: Seq<i64>,
    count: int,
    rate: u32,
    window_us: u64,
    wrap: bool,
    plot_width: u32,
)
    requires
        times.len() == vals.len(),
        times.len() <= count,
        count <= MAX_TOTAL_SAMPLES,
        rate >= 1,
        window_us >= 1,
        plot_width >= 1,
        forall|j: int|
            0 <= j < times.len() ==> #[trigger] times[j] == spec_time_of(
                count - times.len() + j,
                rate,
            ),
    ensures
        spec_window_query(times, vals, count, rate, window_us, wrap, plot_width).len()
            <= plot_width,
        ({
            let q = spec_window_query(times, vals, count, rate, window_us, wrap, plot_width);
            let latest = spec_time_of(count, rate);
            let ws = if latest >= window_us { latest - window_us } else { 0 };
            forall|i: int|
                0 <= i < q.len() ==> (!wrap ==> ws <= (#[trigger] q[i]).0 <= latest) && (wrap
                    ==> (q[i]).0 < window_us)
        }),
        ({
            let q = spec_window_query(times, vals, count, rate, window_us, wrap, plot_width);
            forall|i: int, j: int| 0 <= i < j < q.len() ==> (#[trigger] q[i]).0 <= (#[trigger] q[j]).0
        }),
{
    broadcast use vstd::seq_lib::group_to_multiset_ensures;

    let q = spec_window_query(times, vals, count, rate, window_us, wrap, plot_width);
    if times.len() == 0 {
        return ;
    }
    let latest = spec_time_of(count, rate);
    let ws = if latest >= window_us { latest - window_us } else { 0 };
    let bs = (window_us - 1) / plot_width as int + 1;
    assert(latest >= 0) by {
        vstd::arithmetic::div_mod::lemma_div_pos_is_pos(count * 1_000_000, rate as int);
    }
    assert(latest <= count * 1_000_000) by {
        vstd::arithmetic::div_mod::lemma_div_nonincreasing(count * 1_000_000, rate as int);
    }
    assert(0 <= ws <= u64::MAX);
    assert(bs >= 1) by {
        vstd::arithmetic::div_mod::lemma_div_pos_is_pos(window_us - 1, plot_width as int);
    }
    assert(bs <= window_us) by {
        vstd::arithmetic::div_mod::lemma_div_nonincreasing(window_us - 1, plot_width as int);
    }
    let pairs = spec_pairs(times, vals);
    assert forall|j: int| 0 <= j < times.len() implies 0 <= #[trigger] times[j] <= latest by {
        vstd::arithmetic::div_mod::lemma_div_is_ordered(
            (count - times.len() + j) * 1_000_000,
            count * 1_000_000,
            rate as int,
        );
        vstd::arithmetic::div_mod::lemma_div_pos_is_pos(
            (count - times.len() + j) * 1_000_000,
            rate as int,
        );
    }
    assert(time_sorted(pairs)) by {
        assert forall|i: int, j: int| 0 <= i < j < pairs.len() implies (#[trigger] pairs[i]).0
            <= (#[trigger] pairs[j]).0 by {
            vstd::arithmetic::div_mod::lemma_div_is_ordered(
                (count - times.len() + i) * 1_000_000,
                (count - times.len() + j) * 1_000_000,
                rate as int,
            );
        }
    }
    lemma_in_window_props(pairs, ws as u64);
    let f = spec_in_window(pairs, ws as u64);
    assert(time_sorted(f));
    lemma_runs_props(f, bs as u64);
    let runs = spec_runs(f, bs as u64);
    assert forall|i: int| 0 <= i < runs.len() implies ws <= (#[trigger] runs[i])[0].0 <= latest by {
        assert(f.contains(runs[i][0]));
        let k = choose|k: int| 0 <= k < f.len() && f[k] == runs[i][0];
        assert(pairs.contains(f[k]));
        let k2 = choose|k2: int| 0 <= k2 < pairs.len() && pairs[k2] == f[k];
        assert(pairs[k2].0 == times[k2]);
    }
    if runs.len() >= 2 {
        lemma_bins_chain(runs, bs as u64, 0, runs.len() - 1);
        assert(spec_bin(runs[0][0].0, bs as u64) >= spec_bin(ws as u64, bs as u64)) by {
            vstd::arithmetic::div_mod::lemma_div_is_ordered(ws, runs[0][0].0 as int, bs);
        }
        assert(spec_bin(runs[runs.len() - 1][0].0, bs as u64) <= latest / bs) by {
            vstd::arithmetic::div_mod::lemma_div_is_ordered(
                runs[runs.len() - 1][0].0 as int,
                latest,
                bs,
            );
        }
        lemma_div_diff(latest, ws, bs);
        assert(latest - ws <= window_us);
        assert((latest - ws) / bs <= window_us as int / bs) by {
            vstd::arithmetic::div_mod::lemma_div_is_ordered(latest - ws, window_us as int, bs);
        }
        assert(window_us <= bs * plot_width) by {
            vstd::arithmetic::div_mod::lemma_fundamental_div_mod(window_us - 1, plot_width as int);
            vstd::arithmetic::div_mod::lemma_mod_division_less_than_divisor(
                window_us - 1,
                plot_width as int,
            );
            assert(window_us <= ((window_us - 1) / plot_width as int + 1) * plot_width as int)
                by (nonlinear_arith)
                requires
                    plot_width >= 1,
                    window_us >= 1,
                    window_us - 1 == (plot_width as int) * ((window_us - 1) / (plot_width as int))
                        + ((window_us - 1) % (plot_width as int)),
                    0 <= ((window_us - 1) % (plot_width as int)) < (plot_width as int),
            ;
        }
        assert(window_us as int / bs <= plot_width) by {
            vstd::arithmetic::div_mod::lemma_div_is_ordered(
                window_us as int,
                bs * plot_width as int,
                bs,
            );
            vstd::arithmetic::div_mod::lemma_div_multiples_vanish(plot_width as int, bs);
        }
        assert(runs.len() - 1 <= latest / bs - spec_bin(ws as u64, bs as u64));
        assert(runs.len() <= plot_width + 2);
    }
    let sums = runs.map_values(|r: Seq<(u64, i64)>| spec_summary(r));
    let inner = spec_inner(sums);
    assert(inner.len() <= plot_width);
    let base = Seq::new(
        inner.len(),
        |i: int| (spec_point_x(inner[i], wrap, window_us), inner[i].median),
    );
    assert forall|i: int| 0 <= i < base.len() implies (!wrap ==> ws <= (#[trigger] base[i]).0
        <= latest) && (wrap ==> (base[i]).0 < window_us) by {
        assert(inner[i] == sums[i + 1]);
        assert(sums[i + 1] == spec_summary(runs[i + 1]));
        assert(ws <= runs[i + 1][0].0 <= latest);
        assert(spec_summary(runs[i + 1]).time_min == runs[i + 1][0].0);
        if wrap {
            vstd::arithmetic::div_mod::lemma_mod_division_less_than_divisor(
                runs[i + 1][0].0 as int,
                window_us as int,
            );
        }
    }
    if wrap {
        let sorted = spec_sorted_points(base);
        base.lemma_sort_by_ensures(leq_point());
        assert(sorted.len() == base.len()) by {
            assert(base.to_multiset().len() == base.len());
            assert(sorted.to_multiset().len() == sorted.len());
        }
        assert forall|i: int| 0 <= i < sorted.len() implies (#[trigger] sorted[i]).0
            < window_us by {
            assert(sorted.contains(sorted[i]));
            if !base.contains(sorted[i]) {
                assert(!sorted.contains(sorted[i]));
            }
            let k = choose|k: int| 0 <= k < base.len() && base[k] == sorted[i];
        }
        assert forall|i: int, j: int| 0 <= i < j < sorted.len() implies (#[trigger] sorted[i]).0
            <= (#[trigger] sorted[j]).0 by {
            assert(leq_point()(sorted[i], sorted[j]));
        }
        assert(q == sorted);
    } else {
        assert forall|i: int, j: int| 0 <= i < j < base.len() implies (#[trigger] base[i]).0 <= (
        #[trigger] base[j]).0 by {
            lemma_bins_chain(runs, bs as u64, i + 1, j + 1);
            assert(base[i].0 == spec_summary(runs[i + 1]).time_min);
            assert(base[j].0 == spec_summary(runs[j + 1]).time_min);
            if base[j].0 < base[i].0 {
                vstd::arithmetic::div_mod::lemma_div_is_ordered(
                    runs[j + 1][0].0 as int,
                    runs[i + 1][0].0 as int,
                    bs,
                );
            }
        }
        assert(q == base);
    }
}

/// Law: the windowed query is a function of the retained samples and
/// the query parameters alone — identical parameters against an
/// unchanged buffer state yield identical output.
pub proof fn lemma_query_idempotent(
    times1: Seq<u64>,
    vals1: Seq<i64>,
    count1: int,
    rate1: u32,
    times2: Seq<u64>,
    vals2: Seq<i64>,
    count2: int,
    rate2: u32,
    window_us: u64,
    wrap: bool,
    plot_width: u32,
)
    requires
        times1 == times2,
        vals1 == vals2,
        count1 == count2,
        rate1 == rate2,
    ensures
        spec_window_query(times1, vals1, count1, rate1, window_us, wrap, plot_width)
            == spec_window_query(times2, vals2, count2, rate2, window_us, wrap, plot_width),
{
}

impl ContinuousBuffer {
    /// Answers "about `plot_width` points for the last `window_us`
    /// microseconds": bins the window into equal-width time bins,
    /// reduces each bin to its median, drops the two possibly partial
    /// edge bins, and in wrap mode maps times modulo the window so a
    /// rolling sweep stands still.  Returns the bins' times and values.
    pub fn get_data_in_window(&self, window_us: u64, wrap: bool, plot_width: u32) -> (r: (
        Vec<u64>,
        Vec<i64>,
    ))
        requires
            self.wf(),
            window_us >= 1,
            plot_width >= 1,
        ensures
            r.0@.len() == r.1@.len(),
            r.0@.len() <= plot_width,
            Seq::new(r.0@.len(), |i: int| (r.0@[i], r.1@[i])) == spec_window_query(
                self.times(),
                self.vals(),
                self.count(),
                self.rate(),
                window_us,
                wrap,
                plot_width,
            ),
            ({
                let latest = spec_time_of(self.count(), self.rate());
                let ws = if latest >= window_us { latest - window_us } else { 0 };
                forall|i: int|
                    0 <= i < r.0@.len() ==> (!wrap ==> ws <= #[trigger] r.0@[i] <= latest) && (wrap
                        ==> r.0@[i] < window_us)
            }),
            forall|i: int, j: int|
                0 <= i < j < r.0@.len() ==> #[trigger] r.0@[i] <= #[trigger] r.0@[j],
    {
        proof {
            lemma_query_bounds(
                self.times(),
                self.vals(),
                self.count(),
                self.rate(),
                window_us,
                wrap,
                plot_width,
            );
        }
        let ghost q = spec_window_query(
            self.times(),
            self.vals(),
            self.count(),
            self.rate(),
            window_us,
            wrap,
            plot_width,
        );
        let len = self.times_us.len();
        if len == self.head {
            proof {
                assert(self.times().len() == 0);
                assert(Seq::new(0, |i: int| (Seq::<u64>::empty()[i], Seq::<i64>::empty()[i])) =~= q);
            }
            return (Vec::new(), Vec::new());
        }
        let rate = self.sample_rate_hz;
        let latest = time_of(self.sample_count, rate);
        let ws: u64 = if latest >= window_us { latest - window_us } else { 0 };
        proof {
            vstd::arithmetic::div_mod::lemma_div_nonincreasing(window_us - 1, plot_width as int);
            vstd::arithmetic::div_mod::lemma_div_pos_is_pos(window_us - 1, plot_width as int);
        }
        let bs: u64 = (window_us - 1) / (plot_width as u64) + 1;
        let ghost pairs = spec_pairs(self.times(), self.vals());
        let ghost f = spec_in_window(pairs, ws);

        let logical = len - self.head;
        let mut filtered: Vec<(u64, i64)> = Vec::new();
        proof {
            reveal(Seq::filter);
            assert(pairs.subrange(0, 0) =~= Seq::<(u64, i64)>::empty());
        }
        let mut j: usize = 0;
        while j < logical
            invariant
                self.wf(),
                logical == self.times().len(),
                logical == self.times_us@.len() - self.head,
                self.head + logical <= usize::MAX,
                j <= logical,
                pairs == spec_pairs(self.times(), self.vals()),
                ws < u64::MAX,
                filtered@ == spec_in_window(pairs.subrange(0, j as int), ws),
            decreases logical - j,
        {
            let t = self.times_us[self.head + j];
            let v = self.values[self.head + j];
            proof {
                reveal(Seq::filter);
                assert(pairs[j as int] == (t, v)) by {
                    assert(self.times()[j as int] == self.times_us@[self.head + j]);
                    assert(self.vals()[j as int] == self.values@[self.head + j]);
                }
                assert(pairs.subrange(0, j + 1).drop_last() =~= pairs.subrange(0, j as int));
                assert(pairs.subrange(0, j + 1).last() == pairs[j as int]);
            }
            if t >= ws {
                filtered.push((t, v));
            }
            j = j + 1;
        }
        proof {
            assert(pairs.subrange(0, pairs.len() as int) =~= pairs);
            assert(filtered@ == f);
        }

        let ghost gview = |g: Vec<(u64, i64)>| g@;
        let mut finished: Vec<Vec<(u64, i64)>> = Vec::new();
        let mut current: Vec<(u64, i64)> = Vec::new();
        let mut k: usize = 0;
        while k < filtered.len()
            invariant
                k <= filtered@.len(),
                filtered@ == f,
                bs >= 1,
                (gview == (|g: Vec<(u64, i64)>| g@)),
                k == 0 ==> current@.len() == 0 && finished@.len() == 0,
                k > 0 ==> current@.len() > 0 && spec_runs(filtered@.subrange(0, k as int), bs)
                    == finished@.map_values(gview).push(current@),
            decreases filtered@.len() - k,
        {
            let p = filtered[k];
            proof {
                assert(filtered@.subrange(0, k + 1).drop_last() =~= filtered@.subrange(0, k as int));
                assert(filtered@.subrange(0, k + 1).last() == filtered@[k as int]);
            }
            let ghost pre_finished = finished@.map_values(gview);
            let ghost pre_current = current@;
            if current.len() == 0 {
                current.push(p);
                proof {
                    assert(spec_runs(filtered@.subrange(0, k as int), bs) =~= Seq::<
                        Seq<(u64, i64)>,
                    >::empty());
                    assert(current@ =~= seq![p]);
                    assert(spec_runs(filtered@.subrange(0, k + 1), bs) =~= finished@.map_values(
                        gview,
                    ).push(current@));
                }
            } else {
                let lastp = current[current.len() - 1];
                if lastp.0 / bs == p.0 / bs {
                    current.push(p);
                    proof {
                        let rest = spec_runs(filtered@.subrange(0, k as int), bs);
                        assert(rest == pre_finished.push(pre_current));
                        assert(rest.last() == pre_current);
                        assert(rest.last().last() == lastp);
                        assert(spec_runs(filtered@.subrange(0, k + 1), bs) == rest.update(
                            rest.len() - 1,
                            rest.last().push(p),
                        ));
                        assert(rest.update(rest.len() - 1, rest.last().push(p))
                            =~= pre_finished.push(pre_current.push(p)));
                        assert(current@ == pre_current.push(p));
                    }
                } else {
                    finished.push(current);
                    current = Vec::new();
                    current.push(p);
                    proof {
                        let rest = spec_runs(filtered@.subrange(0, k as int), bs);
                        assert(rest == pre_finished.push(pre_current));
                        assert(rest.last() == pre_current);
                        assert(rest.last().last() == lastp);
                        assert(spec_runs(filtered@.subrange(0, k + 1), bs) == rest.push(seq![p]));
                        assert(finished@.map_values(gview) =~= pre_finished.push(pre_current));
                        assert(current@ =~= seq![p]);
                    }
                }
            }
            k = k + 1;
        }
        if current.len() > 0 {
            finished.push(current);
        }
        let ghost runs = spec_runs(f, bs);
        proof {
            assert(filtered@.subrange(0, filtered@.len() as int) =~= filtered@);
            assert(finished@.map_values(gview) =~= runs);
        }

        let ghost sums_spec = runs.map_values(|r: Seq<(u64, i64)>| spec_summary(r));
        proof {
            assert(time_sorted(pairs)) by {
                assert forall|i1: int, j1: int| 0 <= i1 < j1 < pairs.len() implies (
                #[trigger] pairs[i1]).0 <= (#[trigger] pairs[j1]).0 by {
                    vstd::arithmetic::div_mod::lemma_div_is_ordered(
                        (self.count() - self.times().len() + i1) * 1_000_000,
                        (self.count() - self.times().len() + j1) * 1_000_000,
                        rate as int,
                    );
                }
            }
            lemma_in_window_props(pairs, ws);
            lemma_runs_props(f, bs);
        }
        let mut sums: Vec<BinSummary> = Vec::new();
        let mut g: usize = 0;
        while g < finished.len()
            invariant
                g <= finished@.len(),
                (gview == (|gg: Vec<(u64, i64)>| gg@)),
                finished@.map_values(gview) == runs,
                runs == spec_runs(f, bs),
                f.len() <= MAX_TOTAL_SAMPLES,
                forall|i: int| 0 <= i < runs.len() ==> 0 < (#[trigger] runs[i]).len() <= f.len(),
                sums@.len() == g,
                forall|i: int| 0 <= i < g ==> #[trigger] sums@[i] == spec_summary(runs[i]),
            decreases finished@.len() - g,
        {
            proof {
                assert(runs[g as int] == finished@[g as int]@);
            }
            let s = summarize_group(&finished[g]);
            sums.push(s);
            g = g + 1;
        }
        proof {
            assert(sums@ =~= sums_spec);
        }

        let mut pts: Vec<(u64, i64)> = Vec::new();
        if sums.len() >= 2 {
            let mut m: usize = 1;
            while m < sums.len() - 1
                invariant
                    sums@.len() >= 2,
                    1 <= m <= sums@.len() - 1,
                    window_us >= 1,
                    pts@.len() == m - 1,
                    forall|i: int|
                        0 <= i < m - 1 ==> #[trigger] pts@[i] == (
                            spec_point_x(sums@[i + 1], wrap, window_us),
                            sums@[i + 1].median,
                        ),
                decreases sums@.len() - m,
            {
                let b = &sums[m];
                let x: u64 = if wrap {
                    b.time_min % window_us
                } else {
                    b.time_min
                };
                proof {
                    if wrap {
                        vstd::arithmetic::div_mod::lemma_mod_division_less_than_divisor(
                            b.time_min as int,
                            window_us as int,
                        );
                    }
                }
                pts.push((x, b.median));
                m = m + 1;
            }
        }
        let ghost inner = spec_inner(sums_spec);
        let ghost base = Seq::new(
            inner.len(),
            |i: int| (spec_point_x(inner[i], wrap, window_us), inner[i].median),
        );
        proof {
            assert(pts@ =~= base);
        }
        let pts = if wrap {
            sort_points(&pts)
        } else {
            pts
        };
        proof {
            assert(pts@ == q);
        }
        let mut xs: Vec<u64> = Vec::new();
        let mut ys: Vec<i64> = Vec::new();
        let mut t: usize = 0;
        while t < pts.len()
            invariant
                t <= pts@.len(),
                xs@.len() == t,
                ys@.len() == t,
                forall|i: int| 0 <= i < t ==> #[trigger] xs@[i] == pts@[i].0,
                forall|i: int| 0 <= i < t ==> #[trigger] ys@[i] == pts@[i].1,
            decreases pts@.len() - t,
        {
            let p = pts[t];
            xs.push(p.0);
            ys.push(p.1);
            t = t + 1;
        }
        proof {
            assert(Seq::new(xs@.len(), |i: int| (xs@[i], ys@[i])) =~= pts@);
        }
        (xs, ys)
    }
}

} // verus!
