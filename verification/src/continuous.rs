//! The continuous-inference state: a fixed-capacity sliding window of
//! streamed samples, plus one smoothing filter per output-class label.
//!
//! Streamed feature slices accumulate into the window; once the window has
//! reached its capacity (the slice size) it stays exactly at capacity, the
//! oldest samples leaving first. Until then the state is warming up and
//! inference must not invoke the engine. Engine scores pass through the
//! per-label filters on their way to the caller.

use vstd::prelude::*;
use crate::filter::{seq_sum, spec_next_window, MovingAverageFilter, Score};
use crate::labels::{
    distinct_labels, index_of_label, lemma_index_of_label, lemma_index_of_label_push,
};
use crate::projection::{raw_labels_of, ClassEntry, ClassEntryView, RawClassification,
    RawClassificationView};

verus! {

/// Window size of the per-label smoothing filters in continuous mode.
pub const MAF_WINDOW_SIZE: usize = 4;

/// One label's smoothing filter.
#[derive(Debug)]
struct LabelFilter {
    label: String,
    filter: MovingAverageFilter,
}

/// State of continuous (streaming) inference.
#[derive(Debug)]
pub struct ContinuousState {
    feature_matrix: Vec<i32>,
    feature_buffer_full: bool,
    maf_buffers: Vec<LabelFilter>,
    slice_size: usize,
}

/// The labels of a filter bank, in order.
pub open spec fn maf_label_seq(maf: Seq<(Seq<char>, Seq<i32>)>) -> Seq<Seq<char>> {
    Seq::new(maf.len(), |i: int| maf[i].0)
}

/// The window after appending `features` and trimming from the front to
/// the most recent `cap` samples.
pub open spec fn spec_updated_window(prev: Seq<i32>, features: Seq<i32>, cap: int) -> Seq<i32> {
    let all = prev + features;
    if all.len() >= cap {
        all.skip(all.len() - cap)
    } else {
        all
    }
}

/// The classification after each entry's score passes through its label's
/// filter: entries keep their order and labels; an entry whose label has a
/// filter carries the filter's new running average, any other entry keeps
/// its raw value.
pub open spec fn spec_smoothed(
    maf: Seq<(Seq<char>, Seq<i32>)>,
    c: Seq<RawClassificationView>,
) -> Seq<ClassEntryView> {
    Seq::new(
        c.len(),
        |i: int|
            ClassEntryView {
                label: c[i].label,
                score: {
                    let j = index_of_label(maf_label_seq(maf), c[i].label);
                    if j >= 0 {
                        let nb = spec_next_window(maf[j].1, MAF_WINDOW_SIZE as int, c[i].value);
                        Score { num: seq_sum(nb) as i64, den: nb.len() as u64 }
                    } else {
                        Score { num: c[i].value as i64, den: 1 }
                    }
                },
            },
    )
}

/// The filter bank after one classification passes through it: the filter
/// of each label that occurs in the classification advances by that
/// label's raw score; every other filter is unchanged.
pub open spec fn spec_maf_after(
    maf: Seq<(Seq<char>, Seq<i32>)>,
    c: Seq<RawClassificationView>,
) -> Seq<(Seq<char>, Seq<i32>)> {
    Seq::new(maf.len(), |j: int| (maf[j].0, spec_filter_after(maf[j], c)))
}

/// One filter's window after a classification passes by: it advances by
/// its label's raw score if that label occurs, else it is unchanged.
pub open spec fn spec_filter_after(
    entry: (Seq<char>, Seq<i32>),
    c: Seq<RawClassificationView>,
) -> Seq<i32> {
    let k = index_of_label(raw_labels_of(c), entry.0);
    if k >= 0 {
        spec_next_window(entry.1, MAF_WINDOW_SIZE as int, c[k].value)
    } else {
        entry.1
    }
}

impl ContinuousState {
    /// The buffered samples, oldest first.
    pub closed spec fn window(&self) -> Seq<i32> {
        self.feature_matrix@
    }

    /// The fixed capacity of the window: the slice size.
    pub closed spec fn capacity(&self) -> int {
        self.slice_size as int
    }

    /// Whether the window has reached capacity.
    pub closed spec fn is_full_spec(&self) -> bool {
        self.feature_buffer_full
    }

    /// The filter bank: each label with its current filter window.
    pub closed spec fn maf(&self) -> Seq<(Seq<char>, Seq<i32>)> {
        Seq::new(
            self.maf_buffers@.len(),
            |i: int| (self.maf_buffers@[i].label@, self.maf_buffers@[i].filter@),
        )
    }

    /// The labels that have a filter, in order.
    pub open spec fn maf_labels(&self) -> Seq<Seq<char>> {
        maf_label_seq(self.maf())
    }

    /// Internal consistency: a positive capacity, a window within it that
    /// is full exactly at capacity, and one well-formed filter per label,
    /// labels pairwise distinct.
    pub closed spec fn wf(&self) -> bool {
        &&& 1 <= self.slice_size
        &&& self.feature_matrix@.len() <= self.slice_size
        &&& (self.feature_buffer_full <==> self.feature_matrix@.len() == self.slice_size)
        &&& distinct_labels(self.maf_labels())
        &&& forall|i: int|
            0 <= i < self.maf_buffers@.len() ==> (#[trigger] self.maf_buffers@[i]).filter.wf()
                && self.maf_buffers@[i].filter.spec_window_size() == MAF_WINDOW_SIZE
    }

    /// What callers may rely on from well-formedness.
    pub proof fn lemma_wf_consequences(&self)
        requires
            self.wf(),
        ensures
            1 <= self.capacity(),
            self.window().len() <= self.capacity(),
            self.is_full_spec() <==> self.window().len() == self.capacity(),
            distinct_labels(self.maf_labels()),
            forall|i: int|
                0 <= i < self.maf().len() ==> (#[trigger] self.maf()[i]).1.len()
                    <= MAF_WINDOW_SIZE,
    {
        assert forall|i: int| 0 <= i < self.maf().len() implies (#[trigger] self.maf()[i]).1.len()
            <= MAF_WINDOW_SIZE by {
            self.maf_buffers@[i].filter.lemma_wf_bounds();
        }
    }

    /// A fresh state: an empty window of the given capacity and one empty
    /// filter per label.
    pub fn new(labels: Vec<String>, slice_size: usize) -> (r: ContinuousState)
        requires
            slice_size >= 1,
            distinct_labels(labels.deep_view()),
        ensures
            r.wf(),
            r.window() == Seq::<i32>::empty(),
            !r.is_full_spec(),
            r.capacity() == slice_size,
            r.maf().len() == labels.deep_view().len(),
            forall|i: int|
                0 <= i < r.maf().len() ==> r.maf()[i].0 == labels.deep_view()[i] && r.maf()[i].1
                    == Seq::<i32>::empty(),
    {
        let mut maf_buffers: Vec<LabelFilter> = Vec::new();
        let mut i: usize = 0;
        while i < labels.len()
            invariant
                i <= labels@.len(),
                maf_buffers@.len() == i,
                forall|k: int|
                    0 <= k < i ==> (#[trigger] maf_buffers@[k]).label@ == labels.deep_view()[k]
                        && maf_buffers@[k].filter.wf() && maf_buffers@[k].filter.spec_window_size()
                        == MAF_WINDOW_SIZE && maf_buffers@[k].filter@ == Seq::<i32>::empty(),
            decreases labels@.len() - i,
        {
            let filter = MovingAverageFilter::new(MAF_WINDOW_SIZE);
            maf_buffers.push(LabelFilter { label: labels[i].clone(), filter });
            i += 1;
        }
        let r = ContinuousState {
            feature_matrix: Vec::new(),
            feature_buffer_full: false,
            maf_buffers,
            slice_size,
        };
        proof {
            assert(r.maf_labels() =~= labels.deep_view());
        }
        r
    }

    /// Whether the window has reached capacity.
    pub fn is_full(&self) -> (r: bool)
        ensures
            r == self.is_full_spec(),
    {
        self.feature_buffer_full
    }

    /// A copy of the buffered samples, oldest first.
    pub fn window_samples(&self) -> (r: Vec<i32>)
        ensures
            r@ == self.window(),
    {
        let mut out: Vec<i32> = Vec::new();
        let mut i: usize = 0;
        while i < self.feature_matrix.len()
            invariant
                i <= self.feature_matrix@.len(),
                out@ == self.feature_matrix@.take(i as int),
            decreases self.feature_matrix@.len() - i,
        {
            out.push(self.feature_matrix[i]);
            proof {
                assert(self.feature_matrix@.take(i + 1) =~= self.feature_matrix@.take(
                    i as int,
                ).push(self.feature_matrix@[i as int]));
            }
            i += 1;
        }
        proof {
            assert(self.feature_matrix@.take(self.feature_matrix@.len() as int)
                =~= self.feature_matrix@);
        }
        out
    }

    /// Append a slice of samples to the window, then trim from the front
    /// so that at most `capacity` samples remain — the most recent ones
    /// are kept. Marks the window full once capacity has been reached.
    pub fn update_features(&mut self, features: &[i32])
        requires
            old(self).wf(),
            old(self).window().len() + features@.len() <= usize::MAX,
        ensures
            final(self).wf(),
            final(self).window() == spec_updated_window(
                old(self).window(),
                features@,
                old(self).capacity(),
            ),
            final(self).is_full_spec() == (old(self).window().len() + features@.len()
                >= old(self).capacity()),
            final(self).capacity() == old(self).capacity(),
            final(self).maf() == old(self).maf(),
    {
        let ghost prev = self.feature_matrix@;
        let mut i: usize = 0;
        while i < features.len()
            invariant
                i <= features@.len(),
                prev.len() + features@.len() <= usize::MAX,
                self.feature_matrix@ == prev + features@.take(i as int),
                self.feature_buffer_full == old(self).feature_buffer_full,
                self.slice_size == old(self).slice_size,
                self.maf_buffers == old(self).maf_buffers,
            decreases features@.len() - i,
        {
            let v = features[i];
            self.feature_matrix.push(v);
            proof {
                assert(prev + features@.take(i + 1) =~= (prev + features@.take(i as int)).push(
                    features@[i as int],
                ));
            }
            i += 1;
        }
        proof {
            assert(features@.take(features@.len() as int) =~= features@);
        }
        if self.feature_matrix.len() >= self.slice_size {
            self.feature_buffer_full = true;
            if self.feature_matrix.len() > self.slice_size {
                let excess = self.feature_matrix.len() - self.slice_size;
                let mut trimmed: Vec<i32> = Vec::new();
                let mut j: usize = excess;
                while j < self.feature_matrix.len()
                    invariant
                        excess <= j <= self.feature_matrix@.len(),
                        excess == self.feature_matrix@.len() - self.slice_size,
                        trimmed@ == self.feature_matrix@.subrange(excess as int, j as int),
                        self.feature_matrix@ == prev + features@,
                        self.feature_buffer_full == true,
                        self.slice_size == old(self).slice_size,
                        self.maf_buffers == old(self).maf_buffers,
                    decreases self.feature_matrix@.len() - j,
                {
                    let v = self.feature_matrix[j];
                    trimmed.push(v);
                    proof {
                        assert(self.feature_matrix@.subrange(excess as int, j + 1)
                            =~= self.feature_matrix@.subrange(excess as int, j as int).push(
                            self.feature_matrix@[j as int],
                        ));
                    }
                    j += 1;
                }
                self.feature_matrix = trimmed;
            }
        }
        proof {
            assert(final(self).window() =~= spec_updated_window(
                prev,
                features@,
                old(self).capacity(),
            ));
            assert(final(self).maf() =~= old(self).maf());
        }
    }

    /// Pass one classification through the filter bank: each entry's score
    /// becomes its label's new running average (entries without a filter
    /// keep their raw value), and the touched filters advance.
    pub fn apply_maf(&mut self, classification: &Vec<RawClassification>) -> (out: Vec<ClassEntry>)
        requires
            old(self).wf(),
            distinct_labels(raw_labels_of(classification.deep_view())),
        ensures
            final(self).wf(),
            final(self).window() == old(self).window(),
            final(self).is_full_spec() == old(self).is_full_spec(),
            final(self).capacity() == old(self).capacity(),
            out.deep_view() == spec_smoothed(old(self).maf(), classification.deep_view()),
            final(self).maf() == spec_maf_after(old(self).maf(), classification.deep_view()),
    {
        let ghost c = classification.deep_view();
        let ghost m0 = self.maf();
        proof {
            assert(raw_labels_of(c.take(0)) =~= Seq::<Seq<char>>::empty());
            assert forall|j: int| 0 <= j < m0.len() implies (#[trigger] self.maf()[j]).1
                == spec_maf_after(m0, c.take(0))[j].1 by {
                assert(index_of_label(raw_labels_of(c.take(0)), m0[j].0) == -1);
            }
        }
        let mut out: Vec<ClassEntry> = Vec::new();
        let mut i: usize = 0;
        while i < classification.len()
            invariant
                i <= c.len(),
                c == classification.deep_view(),
                distinct_labels(raw_labels_of(c)),
                m0 == old(self).maf(),
                old(self).wf(),
                self.feature_matrix == old(self).feature_matrix,
                self.feature_buffer_full == old(self).feature_buffer_full,
                self.slice_size == old(self).slice_size,
                self.maf_buffers@.len() == m0.len(),
                forall|j: int|
                    0 <= j < m0.len() ==> (#[trigger] self.maf_buffers@[j]).label@ == m0[j].0
                        && self.maf_buffers@[j].filter.wf()
                        && self.maf_buffers@[j].filter.spec_window_size() == MAF_WINDOW_SIZE,
                forall|j: int|
                    0 <= j < m0.len() ==> (#[trigger] self.maf()[j]).1 == spec_maf_after(
                        m0,
                        c.take(i as int),
                    )[j].1,
                out.deep_view().len() == i,
                forall|m: int|
                    0 <= m < i ==> out.deep_view()[m] == spec_smoothed(m0, c)[m],
            decreases c.len() - i,
        {
            let entry = &classification[i];
            let ghost prefix = c.take(i as int);
            let found = find_filter_index(&self.maf_buffers, &entry.label);
            proof {
                assert(buffer_labels(self.maf_buffers@) =~= maf_label_seq(m0));
                // this label has not occurred among the entries already processed
                assert forall|m: int| 0 <= m < i implies raw_labels_of(prefix)[m] != c[i as int].label by {
                    assert(raw_labels_of(c)[m] == raw_labels_of(prefix)[m]);
                    assert(raw_labels_of(c)[m] != raw_labels_of(c)[i as int]);
                }
                lemma_index_of_label(raw_labels_of(prefix), c[i as int].label);
                assert(index_of_label(raw_labels_of(prefix), c[i as int].label) == -1);
                assert(raw_labels_of(c.take(i + 1)) =~= raw_labels_of(prefix).push(
                    c[i as int].label,
                ));
            }
            match found {
                Some(j) => {
                    proof {
                        // the filter at j has not advanced yet: its label is this
                        // entry's label, which no earlier entry carries
                        lemma_index_of_label(maf_label_seq(m0), c[i as int].label);
                        assert(m0[j as int].0 == c[i as int].label);
                        lemma_index_of_label(raw_labels_of(prefix), m0[j as int].0);
                        assert(self.maf()[j as int].1 == m0[j as int].1);
                    }
                    let ghost pre_bufs = self.maf_buffers@;
                    let ghost pre_maf = self.maf();
                    let ghost out0 = out.deep_view();
                    let mut lf = self.maf_buffers.remove(j);
                    let ghost lf0 = lf;
                    let score = lf.filter.update(entry.value);
                    let ghost lfg = lf;
                    out.push(ClassEntry { label: entry.label.clone(), score });
                    self.maf_buffers.insert(j, lf);
                    proof {
                        assert(lfg.label == lf0.label);
                        assert(self.maf_buffers@ =~= pre_bufs.update(j as int, lfg));
                        assert forall|t: int| 0 <= t < m0.len() && t != j implies (
                        #[trigger] self.maf()[t]) == pre_maf[t] by {
                            assert(self.maf_buffers@[t] == pre_bufs[t]);
                        }
                        assert(self.maf()[j as int].1 == lfg.filter@);
                        assert(self.maf()[j as int].0 == m0[j as int].0);
                        assert(distinct_labels(maf_label_seq(m0)));
                        lemma_maf_step_found(m0, c, i as int, j as int, self.maf());
                        assert(out.deep_view()[i as int] == spec_smoothed(m0, c)[i as int]);
                        assert forall|m: int| 0 <= m < i implies out.deep_view()[m]
                            == spec_smoothed(m0, c)[m] by {
                            assert(out.deep_view()[m] == out0[m]);
                        }
                    }
                },
                None => {
                    let ghost out0 = out.deep_view();
                    out.push(ClassEntry { label: entry.label.clone(), score: Score::from_raw(
                        entry.value,
                    ) });
                    proof {
                        assert(out.deep_view()[i as int] == spec_smoothed(m0, c)[i as int]);
                        assert forall|m: int| 0 <= m < i implies out.deep_view()[m]
                            == spec_smoothed(m0, c)[m] by {
                            assert(out.deep_view()[m] == out0[m]);
                        }
                        lemma_maf_step_absent(m0, c, i as int, self.maf());
                    }
                },
            }
            i += 1;
        }
        proof {
            assert(c.take(c.len() as int) =~= c);
            assert(out.deep_view() =~= spec_smoothed(m0, c));
            assert(final(self).maf() =~= spec_maf_after(m0, c));
            assert(final(self).maf_labels() =~= old(self).maf_labels());
        }
        out
    }
}

/// The labels of a filter-bank vector, in order.
spec fn buffer_labels(bufs: Seq<LabelFilter>) -> Seq<Seq<char>> {
    Seq::new(bufs.len(), |i: int| bufs[i].label@)
}

/// The position of the filter that serves `label`, if any.
fn find_filter_index(maf_buffers: &Vec<LabelFilter>, label: &String) -> (r: Option<usize>)
    ensures
        ({
            let idx = index_of_label(buffer_labels(maf_buffers@), label@);
            match r {
                Some(j) => idx == j && j < maf_buffers@.len(),
                None => idx == -1,
            }
        }),
{
    let ghost lbls = buffer_labels(maf_buffers@);
    let mut i: usize = 0;
    while i < maf_buffers.len()
        invariant
            i <= maf_buffers@.len(),
            lbls == buffer_labels(maf_buffers@),
            forall|m: int| 0 <= m < i ==> lbls[m] != label@,
        decreases maf_buffers@.len() - i,
    {
        if maf_buffers[i].label == *label {
            proof {
                assert(lbls[i as int] == label@);
                lemma_index_of_label(lbls, label@);
                let found = index_of_label(lbls, label@);
                assert(found >= 0);
                if found < i as int {
                    assert(lbls[found] != label@);
                }
                if found > i as int {
                    assert(lbls[i as int] != label@);
                }
                assert(found == i as int);
            }
            return Some(i);
        }
        i += 1;
    }
    proof {
        lemma_index_of_label(lbls, label@);
    }
    None
}

/// One step of `spec_maf_after`, when the entry at `i` has the filter at
/// `j`: that filter advances now, every other filter stands as it did
/// after the first `i` entries.
proof fn lemma_maf_step_found(
    m0: Seq<(Seq<char>, Seq<i32>)>,
    c: Seq<RawClassificationView>,
    i: int,
    j: int,
    now: Seq<(Seq<char>, Seq<i32>)>,
)
    requires
        0 <= i < c.len(),
        0 <= j < m0.len(),
        distinct_labels(raw_labels_of(c)),
        distinct_labels(maf_label_seq(m0)),
        now.len() == m0.len(),
        m0[j].0 == c[i].label,
        index_of_label(maf_label_seq(m0), c[i].label) == j,
        now[j].1 == spec_next_window(m0[j].1, MAF_WINDOW_SIZE as int, c[i].value),
        forall|t: int| 0 <= t < m0.len() ==> (#[trigger] now[t]).0 == m0[t].0,
        forall|t: int|
            0 <= t < m0.len() && t != j ==> (#[trigger] now[t]).1 == spec_maf_after(
                m0,
                c.take(i),
            )[t].1,
    ensures
        forall|t: int|
            0 <= t < m0.len() ==> (#[trigger] now[t]).1 == spec_maf_after(m0, c.take(i + 1))[t].1,
{
    assert(raw_labels_of(c.take(i + 1)) =~= raw_labels_of(c.take(i)).push(c[i].label));
    lemma_index_of_label(maf_label_seq(m0), c[i].label);
    assert forall|t: int| 0 <= t < m0.len() implies (#[trigger] now[t]).1 == spec_maf_after(
        m0,
        c.take(i + 1),
    )[t].1 by {
        lemma_index_of_label_push(raw_labels_of(c.take(i)), c[i].label, m0[t].0);
        lemma_index_of_label(raw_labels_of(c.take(i)), m0[t].0);
        if t == j {
            // no earlier entry carries this label, else c would repeat it
            let k = index_of_label(raw_labels_of(c.take(i)), m0[t].0);
            if k >= 0 {
                assert(raw_labels_of(c.take(i))[k] == m0[t].0);
                assert(raw_labels_of(c)[k] == raw_labels_of(c)[i]);
                assert(false);
            }
            assert(index_of_label(raw_labels_of(c.take(i + 1)), m0[t].0) == i);
            assert(c.take(i + 1)[i] == c[i]);
        } else {
            // this filter's label differs from the entry's label: filter
            // labels are distinct, and the entry's label is the one at j
            if m0[t].0 == c[i].label {
                assert(maf_label_seq(m0)[t] == maf_label_seq(m0)[j]);
                if t < j {
                    assert(maf_label_seq(m0)[t] != maf_label_seq(m0)[j]);
                } else {
                    assert(maf_label_seq(m0)[j] != maf_label_seq(m0)[t]);
                }
                assert(false);
            }
            let k = index_of_label(raw_labels_of(c.take(i)), m0[t].0);
            if k >= 0 {
                assert(c.take(i + 1)[k] == c.take(i)[k]);
            }
        }
    }
}

/// One step of `spec_maf_after`, when the entry at `i` has no filter:
/// every filter stands as it did after the first `i` entries.
proof fn lemma_maf_step_absent(
    m0: Seq<(Seq<char>, Seq<i32>)>,
    c: Seq<RawClassificationView>,
    i: int,
    now: Seq<(Seq<char>, Seq<i32>)>,
)
    requires
        0 <= i < c.len(),
        now.len() == m0.len(),
        index_of_label(maf_label_seq(m0), c[i].label) == -1,
        forall|t: int| 0 <= t < m0.len() ==> (#[trigger] now[t]).0 == m0[t].0,
        forall|t: int|
            0 <= t < m0.len() ==> (#[trigger] now[t]).1 == spec_maf_after(m0, c.take(i))[t].1,
    ensures
        forall|t: int|
            0 <= t < m0.len() ==> (#[trigger] now[t]).1 == spec_maf_after(m0, c.take(i + 1))[t].1,
{
    assert(raw_labels_of(c.take(i + 1)) =~= raw_labels_of(c.take(i)).push(c[i].label));
    lemma_index_of_label(maf_label_seq(m0), c[i].label);
    assert forall|t: int| 0 <= t < m0.len() implies (#[trigger] now[t]).1 == spec_maf_after(
        m0,
        c.take(i + 1),
    )[t].1 by {
        lemma_index_of_label_push(raw_labels_of(c.take(i)), c[i].label, m0[t].0);
        // the entry's label has no filter, so it is not this filter's label
        assert(maf_label_seq(m0)[t] == m0[t].0);
        assert(m0[t].0 != c[i].label);
        let k = index_of_label(raw_labels_of(c.take(i)), m0[t].0);
        lemma_index_of_label(raw_labels_of(c.take(i)), m0[t].0);
        if k >= 0 {
            assert(c.take(i + 1)[k] == c.take(i)[k]);
        }
    }
}

/// The window after a whole sequence of pushes into a fresh state.
pub open spec fn spec_window_after_pushes(pushes: Seq<Seq<i32>>, cap: int) -> Seq<i32>
    decreases pushes.len(),
{
    if pushes.len() == 0 {
        Seq::empty()
    } else {
        spec_updated_window(spec_window_after_pushes(pushes.drop_last(), cap), pushes.last(), cap)
    }
}

/// The total number of samples in a sequence of pushed slices.
pub open spec fn spec_total_len(pushes: Seq<Seq<i32>>) -> int
    decreases pushes.len(),
{
    if pushes.len() == 0 {
        0
    } else {
        spec_total_len(pushes.drop_last()) + pushes.last().len()
    }
}

/// Law (warm-up): as long as the slices pushed so far hold fewer samples
/// than the capacity, the window is exactly their concatenation and has
/// not reached capacity — so inference answers the zero-valued
/// classification without the engine ever being invoked.
pub proof fn lemma_warmup_window(pushes: Seq<Seq<i32>>, cap: int)
    requires
        cap >= 1,
        spec_total_len(pushes) < cap,
    ensures
        spec_window_after_pushes(pushes, cap).len() == spec_total_len(pushes),
        spec_window_after_pushes(pushes, cap).len() < cap,
    decreases pushes.len(),
{
    if pushes.len() > 0 {
        lemma_total_len_nonneg(pushes.drop_last());
        lemma_warmup_window(pushes.drop_last(), cap);
    }
}

pub proof fn lemma_total_len_nonneg(pushes: Seq<Seq<i32>>)
    ensures
        spec_total_len(pushes) >= 0,
    decreases pushes.len(),
{
    if pushes.len() > 0 {
        lemma_total_len_nonneg(pushes.drop_last());
    }
}

/// Law (FIFO eviction): pushing one more slice of `k` samples onto a
/// window exactly at capacity preserves length == capacity, and for
/// `k <= capacity` it evicts exactly the `k` oldest samples.
pub proof fn lemma_fifo_eviction(window: Seq<i32>, features: Seq<i32>, cap: int)
    requires
        window.len() == cap,
    ensures
        spec_updated_window(window, features, cap).len() == cap,
        features.len() <= cap ==> spec_updated_window(window, features, cap) == window.skip(
            features.len() as int,
        ) + features,
{
    if features.len() <= cap {
        assert(spec_updated_window(window, features, cap) =~= window.skip(features.len() as int)
            + features);
    }
}

} // verus!
