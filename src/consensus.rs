use vstd::prelude::*;

use crate::config::Config;
use crate::enums::{CustomError, InvalidReason, ValidReason, Validity};
use crate::fingerprint::{copy_opt, opt_view, screenshot_distance_of, State};
use crate::classify::Target;
use crate::history::{keys_unique, DataStore, PageData};

verus! {

/// A value whose occurrences can be counted: it compares and copies by view.
pub trait Tally: View + Sized {
    fn same(&self, other: &Self) -> (r: bool)
        ensures
            r == (self@ == other@);

    fn duplicate_value(&self) -> (r: Self)
        ensures
            r@ == self@;
}

impl Tally for usize {
    fn same(&self, other: &usize) -> (r: bool) {
        *self == *other
    }

    fn duplicate_value(&self) -> (r: usize) {
        *self
    }
}

impl Tally for String {
    fn same(&self, other: &String) -> (r: bool) {
        *self == *other
    }

    fn duplicate_value(&self) -> (r: String) {
        self.clone()
    }
}

/// The most frequent value of a sequence, and its share of the sequence in
/// percent (rounded down). Both are absent for an empty sequence.
#[derive(Debug)]
pub struct Mode<T> {
    pub value: Option<T>,
    pub confidence: Option<usize>,
}

/// The consensus of earlier samples, field by field.
#[derive(Debug)]
pub struct DiffReport {
    pub page_hash: Mode<String>,
    pub compression: Mode<usize>,
    pub title: Mode<String>,
    pub screenshot_hash: Mode<String>,
}

/// How often `v` occurs in `s`.
pub open spec fn count_of<V>(s: Seq<V>, v: V) -> nat
    decreases s.len(),
{
    if s.len() == 0 {
        0
    } else {
        count_of(s.drop_last(), v) + if s.last() == v {
            1nat
        } else {
            0nat
        }
    }
}

/// Index `i` holds a most frequent value of `s`, and no earlier index holds
/// one (ties go to the value that occurs first).
pub open spec fn is_mode_index<V>(s: Seq<V>, i: int) -> bool {
    &&& 0 <= i < s.len()
    &&& forall|j: int| 0 <= j < s.len() ==> count_of(s, #[trigger] s[j]) <= count_of(s, s[i])
    &&& forall|j: int| 0 <= j < i ==> count_of(s, #[trigger] s[j]) < count_of(s, s[i])
}

/// The index of the mode of a non-empty sequence.
pub open spec fn mode_index<V>(s: Seq<V>) -> int {
    choose|i: int| is_mode_index(s, i)
}

/// The most frequent value of `s`, the one that occurs first among ties.
pub open spec fn mode_value<V>(s: Seq<V>) -> Option<V> {
    if s.len() == 0 {
        None
    } else {
        Some(s[mode_index(s)])
    }
}

/// The share of the mode in `s`, in percent rounded down.
pub open spec fn mode_confidence<V>(s: Seq<V>) -> Option<usize> {
    if s.len() == 0 {
        None
    } else {
        Some((count_of(s, s[mode_index(s)]) * 100 / s.len()) as usize)
    }
}

/// The views of the elements of `s`.
pub open spec fn views<T: View>(s: Seq<T>) -> Seq<T::V> {
    s.map_values(|v: T| v@)
}

/// The view of an optional value.
pub open spec fn opt_views<T: View>(o: Option<T>) -> Option<T::V> {
    match o {
        Some(v) => Some(v@),
        None => None,
    }
}

/// `m` is the mode of `s`.
pub open spec fn describes<T: View>(m: Mode<T>, s: Seq<T::V>) -> bool {
    opt_views(m.value) == mode_value(s) && m.confidence == mode_confidence(s)
}

proof fn lemma_mode_index_unique<V>(s: Seq<V>, i: int, k: int)
    requires
        is_mode_index(s, i),
        is_mode_index(s, k),
    ensures
        i == k,
{
    if i < k {
        assert(count_of(s, s[i]) < count_of(s, s[k]));
        assert(count_of(s, s[i]) >= count_of(s, s[k]));
    } else if k < i {
        assert(count_of(s, s[k]) < count_of(s, s[i]));
        assert(count_of(s, s[k]) >= count_of(s, s[i]));
    }
}

proof fn lemma_count_bound<V>(s: Seq<V>, v: V)
    ensures
        count_of(s, v) <= s.len(),
    decreases s.len(),
{
    if s.len() > 0 {
        lemma_count_bound(s.drop_last(), v);
    }
}

/// How often the view of `v` occurs among the views of `values`.
fn count_occurrences<T: Tally>(values: &[T], v: &T) -> (r: usize)
    ensures
        r == count_of(views(values@), v@),
{
    let ghost vs = views(values@);
    let mut acc: usize = 0;
    let mut k: usize = 0;
    while k < values.len()
        invariant
            k <= values@.len(),
            vs == views(values@),
            acc == count_of(vs.subrange(0, k as int), v@),
            acc <= k,
        decreases values@.len() - k,
    {
        assert(vs.subrange(0, k + 1).drop_last() =~= vs.subrange(0, k as int));
        if values[k].same(v) {
            acc = acc + 1;
        }
        k = k + 1;
    }
    assert(vs.subrange(0, values@.len() as int) =~= vs);
    acc
}

/// The most frequent value among `values` (the first to occur among ties),
/// with its share in percent; nothing for an empty slice.
pub fn mode<T: Tally>(values: &[T]) -> (r: Mode<T>)
    ensures
        describes(r, views(values@)),
{
    let ghost vs = views(values@);
    let n = values.len();
    if n == 0 {
        return Mode { value: None, confidence: None };
    }
    let mut best: usize = 0;
    let mut best_count = count_occurrences(values, &values[0]);
    let mut i: usize = 1;
    while i < n
        invariant
            n == values@.len(),
            vs == views(values@),
            best < i <= n,
            best_count == count_of(vs, vs[best as int]),
            forall|j: int| 0 <= j < i ==> count_of(vs, #[trigger] vs[j]) <= best_count,
            forall|j: int| 0 <= j < best ==> count_of(vs, #[trigger] vs[j]) < best_count,
        decreases n - i,
    {
        let c = count_occurrences(values, &values[i]);
        if c > best_count {
            best = i;
            best_count = c;
        }
        i = i + 1;
    }
    proof {
        assert(is_mode_index(vs, best as int));
        lemma_mode_index_unique(vs, best as int, mode_index(vs));
        lemma_count_bound(vs, vs[best as int]);
    }
    let confidence = ((best_count as u128) * 100 / (n as u128)) as usize;
    Mode { value: Some(values[best].duplicate_value()), confidence: Some(confidence) }
}

/// The content digests of `h`.
pub open spec fn hashes_of(h: Seq<State>) -> Seq<Seq<char>> {
    h.map_values(|s: State| s.hash@)
}

/// The compressed sizes of `h`.
pub open spec fn sizes_of(h: Seq<State>) -> Seq<usize> {
    h.map_values(|s: State| s.compress_length)
}

/// The titles of the samples of `h` that have one.
pub open spec fn titles_of(h: Seq<State>) -> Seq<Seq<char>>
    decreases h.len(),
{
    if h.len() == 0 {
        Seq::empty()
    } else {
        titles_of(h.drop_last()) + match h.last().title {
            Some(t) => seq![t@],
            None => Seq::empty(),
        }
    }
}

/// The screenshot hashes of the samples of `h` that have one.
pub open spec fn shots_of(h: Seq<State>) -> Seq<Seq<char>>
    decreases h.len(),
{
    if h.len() == 0 {
        Seq::empty()
    } else {
        shots_of(h.drop_last()) + match h.last().screenshot_hash {
            Some(t) => seq![t@],
            None => Seq::empty(),
        }
    }
}

/// The consensus of `history`, field by field: content digest, compressed
/// size, title and screenshot hash (the last two over the samples that have
/// one).
pub fn diff_report(history: &[State]) -> (r: DiffReport)
    ensures
        describes(r.page_hash, hashes_of(history@)),
        describes(r.compression, sizes_of(history@)),
        describes(r.title, titles_of(history@)),
        describes(r.screenshot_hash, shots_of(history@)),
{
    let ghost h = history@;
    let mut hashes: Vec<String> = Vec::new();
    let mut sizes: Vec<usize> = Vec::new();
    let mut titles: Vec<String> = Vec::new();
    let mut shots: Vec<String> = Vec::new();
    let mut k: usize = 0;
    while k < history.len()
        invariant
            k <= h.len(),
            h == history@,
            views(hashes@) == hashes_of(h.subrange(0, k as int)),
            views(sizes@) == sizes_of(h.subrange(0, k as int)),
            views(titles@) == titles_of(h.subrange(0, k as int)),
            views(shots@) == shots_of(h.subrange(0, k as int)),
        decreases h.len() - k,
    {
        let s = &history[k];
        let ghost prefix = h.subrange(0, k + 1);
        assert(prefix.drop_last() =~= h.subrange(0, k as int));
        let ghost old_hashes = hashes@;
        let ghost old_sizes = sizes@;
        hashes.push(s.hash.clone());
        sizes.push(s.compress_length);
        assert(views(hashes@) =~= views(old_hashes).push(s.hash@));
        assert(hashes_of(prefix) =~= hashes_of(h.subrange(0, k as int)).push(s.hash@));
        assert(views(sizes@) =~= views(old_sizes).push(s.compress_length));
        assert(sizes_of(prefix) =~= sizes_of(h.subrange(0, k as int)).push(s.compress_length));
        match &s.title {
            Some(t) => {
                titles.push(t.clone());
            },
            None => {},
        }
        assert(views(titles@) =~= titles_of(prefix));
        match &s.screenshot_hash {
            Some(t) => {
                shots.push(t.clone());
            },
            None => {},
        }
        assert(views(shots@) =~= shots_of(prefix));
        k = k + 1;
    }
    assert(h.subrange(0, h.len() as int) =~= h);
    DiffReport {
        page_hash: mode(hashes.as_slice()),
        compression: mode(sizes.as_slice()),
        title: mode(titles.as_slice()),
        screenshot_hash: mode(shots.as_slice()),
    }
}

/// `value` lies within `tolerance` of `target`: `target - tolerance <= value
/// <= target + tolerance`, both bounds included.
pub open spec fn within_spec(value: int, target: int, tolerance: int) -> bool {
    target - tolerance <= value <= target + tolerance
}

/// Whether `value` lies within `tolerance` of `target`, bounds included.
pub fn within(value: usize, target: usize, tolerance: usize) -> (r: bool)
    ensures
        r == within_spec(value as int, target as int, tolerance as int),
{
    value >= target.saturating_sub(tolerance) && value <= target.saturating_add(tolerance)
}

/// The outcome of comparing one field of a sample with the consensus.
#[derive(Debug, PartialEq, Eq, Structural, Clone, Copy)]
pub enum Verdict {
    Valid(ValidReason),
    Invalid(InvalidReason),
    /// The field has no consensus to compare with.
    Skipped,
}

/// The content digest matches the consensus exactly, or it does not.
pub open spec fn hash_verdict(last: Seq<char>, mode: Option<Seq<char>>) -> Verdict {
    if mode == Some(last) {
        Verdict::Valid(ValidReason::PageHash)
    } else {
        Verdict::Invalid(InvalidReason::PageHash)
    }
}

/// The compressed size matches the consensus exactly, lies within the
/// tolerance of it, or neither.
pub open spec fn compression_verdict(last: usize, mode: Option<usize>, confidence: Option<usize>, tolerance: usize) -> Verdict {
    match (mode, confidence) {
        (Some(m), Some(_)) => if last == m {
            Verdict::Valid(ValidReason::CompressionExact)
        } else if within_spec(last as int, m as int, tolerance as int) {
            Verdict::Valid(ValidReason::CompressionWithinTolerance)
        } else {
            Verdict::Invalid(InvalidReason::Compression)
        },
        _ => Verdict::Skipped,
    }
}

/// The screenshot hash matches the consensus exactly (both absent counts),
/// or, where the consensus is confident enough, lies within the distance
/// tolerance (bound included); otherwise it departs.
pub open spec fn screenshot_verdict(
    last: Option<Seq<char>>,
    mode: Option<Seq<char>>,
    confidence: Option<usize>,
    distance: Option<u32>,
    min_confidence: usize,
    tolerance: u32,
) -> Verdict {
    if last == mode {
        Verdict::Valid(ValidReason::ScreenshotHashExact)
    } else if confidence.unwrap_or(0) > min_confidence {
        if distance matches Some(d) && d <= tolerance {
            Verdict::Valid(ValidReason::ScreenshotHashWithinTolerance)
        } else {
            Verdict::Invalid(InvalidReason::ScreenshotHash)
        }
    } else {
        Verdict::Invalid(InvalidReason::ScreenshotHash)
    }
}

/// The title equals the consensus exactly (a sample without a title never
/// does), or it does not; no verdict without a consensus.
pub open spec fn title_verdict(last: Option<Seq<char>>, mode: Option<Seq<char>>, confidence: Option<usize>) -> Verdict {
    match (mode, confidence) {
        (Some(m), Some(_)) => if last == Some(m) {
            Verdict::Valid(ValidReason::Title)
        } else {
            Verdict::Invalid(InvalidReason::Title)
        },
        _ => Verdict::Skipped,
    }
}

/// The valid reason a verdict contributes.
pub open spec fn valid_part(v: Verdict) -> Seq<ValidReason> {
    match v {
        Verdict::Valid(r) => seq![r],
        _ => Seq::empty(),
    }
}

/// The invalid reason a verdict contributes.
pub open spec fn invalid_part(v: Verdict) -> Seq<InvalidReason> {
    match v {
        Verdict::Invalid(r) => seq![r],
        _ => Seq::empty(),
    }
}

/// The bucket a judged sample falls in.
#[derive(Debug, PartialEq, Eq, Structural, Clone, Copy)]
pub enum Status {
    /// The sample carries an error tag.
    Error,
    /// Every signal agrees with the consensus.
    Valid,
    /// Only the content digest departs: the content drifted softly.
    HashOnly,
    /// Anything else.
    Unknown,
}

/// The bucket of a sample with error tag `error` and invalid reasons
/// `invalid`.
pub open spec fn status_of(error: Option<CustomError>, invalid: Seq<InvalidReason>) -> Status {
    if error is Some {
        Status::Error
    } else if invalid.len() == 0 {
        Status::Valid
    } else if invalid == seq![InvalidReason::PageHash] {
        Status::HashOnly
    } else {
        Status::Unknown
    }
}

/// The judgement of the newest sample of a target.
#[derive(Debug, Clone)]
pub struct Classification {
    pub status: Status,
    pub validity: Validity,
}

/// The views of an optional vector.
pub open spec fn opt_seq<T>(o: Option<Vec<T>>) -> Option<Seq<T>> {
    match o {
        Some(v) => Some(v@),
        None => None,
    }
}

/// `s`, or nothing when it is empty.
pub open spec fn nonempty<T>(s: Seq<T>) -> Option<Seq<T>> {
    if s.len() == 0 {
        None
    } else {
        Some(s)
    }
}

/// `r` judges a sample with error tag `error` by the four field verdicts, in
/// the order digest, compressed size, screenshot, title.
pub open spec fn judged(r: Classification, error: Option<CustomError>, v: (Verdict, Verdict, Verdict, Verdict)) -> bool {
    let valid = valid_part(v.0) + valid_part(v.1) + valid_part(v.2) + valid_part(v.3);
    let invalid = invalid_part(v.0) + invalid_part(v.1) + invalid_part(v.2) + invalid_part(v.3);
    &&& r.status == status_of(error, invalid)
    &&& opt_seq(r.validity.valid) == nonempty(valid)
    &&& opt_seq(r.validity.invalid) == nonempty(invalid)
    &&& r.validity.error == error
}

/// The field verdicts of `last` against a computed consensus `dr`, given the
/// distance between its screenshot hash and the consensus one.
pub open spec fn report_verdicts(last: State, dr: DiffReport, distance: Option<u32>, cfg: Config) -> (Verdict, Verdict, Verdict, Verdict) {
    (
        hash_verdict(last.hash@, opt_view(dr.page_hash.value)),
        compression_verdict(last.compress_length, dr.compression.value, dr.compression.confidence, cfg.compression_length_tolerance),
        screenshot_verdict(
            opt_view(last.screenshot_hash),
            opt_view(dr.screenshot_hash.value),
            dr.screenshot_hash.confidence,
            distance,
            cfg.screenshot_diff_confidence,
            cfg.screenshot_diff_tolerance,
        ),
        title_verdict(opt_view(last.title), opt_view(dr.title.value), dr.title.confidence),
    )
}

/// The distance between the screenshot hash of `last` and the consensus
/// hash `mode`, when both are present.
pub open spec fn distance_to(last: State, mode: Option<Seq<char>>) -> Option<u32> {
    match (last.screenshot_hash, mode) {
        (Some(a), Some(b)) => screenshot_distance_of(a@, b),
        _ => None,
    }
}

/// The field verdicts of `last` against the consensus of `prior`.
pub open spec fn history_verdicts(last: State, prior: Seq<State>, cfg: Config) -> (Verdict, Verdict, Verdict, Verdict) {
    (
        hash_verdict(last.hash@, mode_value(hashes_of(prior))),
        compression_verdict(last.compress_length, mode_value(sizes_of(prior)), mode_confidence(sizes_of(prior)), cfg.compression_length_tolerance),
        screenshot_verdict(
            opt_view(last.screenshot_hash),
            mode_value(shots_of(prior)),
            mode_confidence(shots_of(prior)),
            distance_to(last, mode_value(shots_of(prior))),
            cfg.screenshot_diff_confidence,
            cfg.screenshot_diff_tolerance,
        ),
        title_verdict(opt_view(last.title), mode_value(titles_of(prior)), mode_confidence(titles_of(prior))),
    )
}

fn same_opt(a: &Option<String>, b: &Option<String>) -> (r: bool)
    ensures
        r == (opt_view(*a) == opt_view(*b)),
{
    match (a, b) {
        (Some(x), Some(y)) => *x == *y,
        (None, None) => true,
        _ => false,
    }
}

fn push_verdict(valid: &mut Vec<ValidReason>, invalid: &mut Vec<InvalidReason>, v: Verdict)
    ensures
        final(valid)@ == old(valid)@ + valid_part(v),
        final(invalid)@ == old(invalid)@ + invalid_part(v),
{
    match v {
        Verdict::Valid(r) => {
            valid.push(r);
            assert(final(valid)@ =~= old(valid)@ + valid_part(v));
            assert(final(invalid)@ =~= old(invalid)@ + invalid_part(v));
        },
        Verdict::Invalid(r) => {
            invalid.push(r);
            assert(final(valid)@ =~= old(valid)@ + valid_part(v));
            assert(final(invalid)@ =~= old(invalid)@ + invalid_part(v));
        },
        Verdict::Skipped => {
            assert(final(valid)@ =~= old(valid)@ + valid_part(v));
            assert(final(invalid)@ =~= old(invalid)@ + invalid_part(v));
        },
    }
}

/// Judges the newest sample `last` against the consensus `report` of the
/// earlier ones, given the bit distance between its screenshot hash and the
/// consensus hash.
pub fn judge_sample(last: &State, report: &DiffReport, screenshot_distance: Option<u32>, config: &Config) -> (r: Classification)
    ensures
        judged(r, last.error, report_verdicts(*last, *report, screenshot_distance, *config)),
{
    let ghost v = report_verdicts(*last, *report, screenshot_distance, *config);

    let hash = match &report.page_hash.value {
        Some(m) => if *m == last.hash {
            Verdict::Valid(ValidReason::PageHash)
        } else {
            Verdict::Invalid(InvalidReason::PageHash)
        },
        None => Verdict::Invalid(InvalidReason::PageHash),
    };
    assert(hash == v.0);

    let compression = match (report.compression.value, report.compression.confidence) {
        (Some(m), Some(_)) => if last.compress_length == m {
            Verdict::Valid(ValidReason::CompressionExact)
        } else if within(last.compress_length, m, config.compression_length_tolerance) {
            Verdict::Valid(ValidReason::CompressionWithinTolerance)
        } else {
            Verdict::Invalid(InvalidReason::Compression)
        },
        _ => Verdict::Skipped,
    };
    assert(compression == v.1);

    let screenshot = if same_opt(&last.screenshot_hash, &report.screenshot_hash.value) {
        Verdict::Valid(ValidReason::ScreenshotHashExact)
    } else if report.screenshot_hash.confidence.unwrap_or(0) > config.screenshot_diff_confidence {
        match screenshot_distance {
            Some(d) => if d <= config.screenshot_diff_tolerance {
                Verdict::Valid(ValidReason::ScreenshotHashWithinTolerance)
            } else {
                Verdict::Invalid(InvalidReason::ScreenshotHash)
            },
            None => Verdict::Invalid(InvalidReason::ScreenshotHash),
        }
    } else {
        Verdict::Invalid(InvalidReason::ScreenshotHash)
    };
    assert(screenshot == v.2);

    let title = match (&report.title.value, report.title.confidence) {
        (Some(m), Some(_)) => {
            let same = match &last.title {
                Some(t) => *t == *m,
                None => false,
            };
            if same {
                Verdict::Valid(ValidReason::Title)
            } else {
                Verdict::Invalid(InvalidReason::Title)
            }
        },
        _ => Verdict::Skipped,
    };
    assert(title == v.3);

    let mut valid: Vec<ValidReason> = Vec::new();
    let mut invalid: Vec<InvalidReason> = Vec::new();
    push_verdict(&mut valid, &mut invalid, hash);
    push_verdict(&mut valid, &mut invalid, compression);
    push_verdict(&mut valid, &mut invalid, screenshot);
    push_verdict(&mut valid, &mut invalid, title);
    assert(valid@ =~= valid_part(v.0) + valid_part(v.1) + valid_part(v.2) + valid_part(v.3));
    assert(invalid@ =~= invalid_part(v.0) + invalid_part(v.1) + invalid_part(v.2) + invalid_part(v.3));

    let status = if last.error.is_some() {
        Status::Error
    } else if invalid.len() == 0 {
        Status::Valid
    } else if invalid.len() == 1 && invalid[0] == InvalidReason::PageHash {
        assert(invalid@ =~= seq![InvalidReason::PageHash]);
        Status::HashOnly
    } else {
        Status::Unknown
    };

    let valid = if valid.len() == 0 {
        None
    } else {
        Some(valid)
    };
    let invalid = if invalid.len() == 0 {
        None
    } else {
        Some(invalid)
    };
    Classification { status, validity: Validity { valid, invalid, error: last.error } }
}

/// Judges the newest sample of `record` against the consensus of the earlier
/// ones. Nothing when the history holds fewer than two samples: the target
/// cannot be judged yet.
pub fn validate(record: &PageData, config: &Config) -> (r: Option<Classification>)
    ensures
        r is None <==> record.history@.len() < 2,
        r matches Some(c) ==> judged(
            c,
            record.history@.last().error,
            history_verdicts(record.history@.last(), record.history@.drop_last(), *config),
        ),
{
    let n = record.history.len();
    if n < 2 {
        return None;
    }
    let last = &record.history[n - 1];
    let prior = record.history.as_slice().split_at(n - 1).0;
    assert(prior@ =~= record.history@.drop_last());
    let report = diff_report(prior);
    let distance = last.cal_screenshot_similarity(copy_opt(&report.screenshot_hash.value));
    Some(judge_sample(last, &report, distance, config))
}

/// `c` is the judgement of the record `p`.
pub open spec fn judgement_of(p: PageData, c: Classification, cfg: Config) -> bool {
    &&& p.history@.len() >= 2
    &&& judged(c, p.history@.last().error, history_verdicts(p.history@.last(), p.history@.drop_last(), cfg))
}

/// Some record of `store` for the target `t` has the judgement `c`.
pub open spec fn judged_in(store: Seq<(Target, PageData)>, t: Target, c: Classification, cfg: Config) -> bool {
    exists|i: int| 0 <= i < store.len() && store[i].0 == t && judgement_of(store[i].1, c, cfg)
}

/// Some result of `r` names the target `t`.
pub open spec fn listed(r: Seq<(Target, Classification)>, t: Target) -> bool {
    exists|k: int| 0 <= k < r.len() && r[k].0 == t
}

/// `t` is the target of one of the first `n` records of `store`.
pub open spec fn among_first(store: Seq<(Target, PageData)>, t: Target, n: int) -> bool {
    exists|j: int| 0 <= j < n && j < store.len() && store[j].0 == t
}

/// Judges every target of `store` that can be judged, in the store's order:
/// each result names a target of the store with its judgement, every target
/// with at least two samples has one, and no target has two.
pub fn validate_all(store: &DataStore, config: &Config) -> (r: Vec<(Target, Classification)>)
    requires
        store.wf(),
    ensures
        forall|k1: int, k2: int| 0 <= k1 < k2 < r@.len() ==> (#[trigger] r@[k1]).0@ != (#[trigger] r@[k2]).0@,
        forall|k: int| 0 <= k < r@.len() ==> judged_in(store@, (#[trigger] r@[k]).0, r@[k].1, *config),
        forall|i: int|
            0 <= i < store@.len() && (#[trigger] store@[i]).1.history@.len() >= 2 ==> listed(r@, store@[i].0),
{
    proof {
        store.lemma_keys_unique();
    }
    let mut r: Vec<(Target, Classification)> = Vec::new();
    let mut i: usize = 0;
    while i < store.len()
        invariant
            i <= store@.len(),
            keys_unique(store@),
            forall|k: int| 0 <= k < r@.len() ==> among_first(store@, (#[trigger] r@[k]).0, i as int),
            forall|k1: int, k2: int| 0 <= k1 < k2 < r@.len() ==> (#[trigger] r@[k1]).0@ != (#[trigger] r@[k2]).0@,
            forall|k: int| 0 <= k < r@.len() ==> judged_in(store@, (#[trigger] r@[k]).0, r@[k].1, *config),
            forall|j: int| 0 <= j < i && (#[trigger] store@[j]).1.history@.len() >= 2 ==> listed(r@, store@[j].0),
        decreases store@.len() - i,
    {
        let (t, p) = store.entry(i);
        match validate(p, config) {
            Some(c) => {
                let ghost before = r@;
                r.push((t.clone_target(), c));
                assert(r@[before.len() as int].0 == store@[i as int].0);
                assert forall|k: int| 0 <= k < r@.len() implies among_first(store@, (#[trigger] r@[k]).0, i + 1) by {
                    if k < before.len() {
                        assert(r@[k] == before[k]);
                    } else {
                        assert(store@[i as int].0 == r@[k].0);
                    }
                }
                assert forall|k1: int, k2: int| 0 <= k1 < k2 < r@.len() implies (#[trigger] r@[k1]).0@ != (#[trigger] r@[k2]).0@ by {
                    assert(r@[k1] == before[k1]);
                    if k2 < before.len() {
                        assert(r@[k2] == before[k2]);
                    } else {
                        assert(among_first(store@, before[k1].0, i as int));
                        let j = choose|j: int| 0 <= j < i && j < store@.len() && store@[j].0 == before[k1].0;
                        assert(store@[j].0@ != store@[i as int].0@);
                    }
                }
                assert forall|k: int| 0 <= k < r@.len() implies judged_in(store@, (#[trigger] r@[k]).0, r@[k].1, *config) by {
                    if k < before.len() {
                        assert(r@[k] == before[k]);
                    } else {
                        assert(judgement_of(store@[i as int].1, r@[k].1, *config));
                    }
                }
                assert forall|j: int| 0 <= j < i + 1 && (#[trigger] store@[j]).1.history@.len() >= 2 implies listed(r@, store@[j].0) by {
                    if j < i {
                        let k = choose|k: int| 0 <= k < before.len() && before[k].0 == store@[j].0;
                        assert(r@[k] == before[k]);
                    } else {
                        assert(r@[before.len() as int].0 == store@[j].0);
                    }
                }
            },
            None => {},
        }
        i = i + 1;
    }
    r
}

/// Both ends of the tolerance window count as within it.
pub proof fn lemma_tolerance_bounds_included(m: int, t: int)
    requires
        t >= 0,
    ensures
        within_spec(m - t, m, t),
        within_spec(m + t, m, t),
        forall|v: int| within_spec(v, m, t) <==> m - t <= v <= m + t,
{
}

/// A sample with an error tag is judged an error, whatever its fields say.
pub proof fn lemma_error_tag_wins(r: Classification, error: Option<CustomError>, v: (Verdict, Verdict, Verdict, Verdict))
    requires
        judged(r, error, v),
        error is Some,
    ensures
        r.status == Status::Error,
{
}

/// A sample whose fields all match the consensus exactly and that carries no
/// error tag is judged valid.
pub proof fn lemma_all_matching_is_valid(r: Classification, last: State, prior: Seq<State>, cfg: Config)
    requires
        judged(r, last.error, history_verdicts(last, prior, cfg)),
        last.error is None,
        mode_value(hashes_of(prior)) == Some(last.hash@),
        mode_value(sizes_of(prior)) == Some(last.compress_length),
        mode_value(shots_of(prior)) == opt_view(last.screenshot_hash),
        titles_of(prior).len() == 0 || mode_value(titles_of(prior)) == opt_view(last.title),
    ensures
        r.status == Status::Valid,
{
}

/// A sample that differs from the consensus in its content digest alone and
/// carries no error tag is judged a soft drift of content.
pub proof fn lemma_digest_only_is_hash_only(r: Classification, last: State, prior: Seq<State>, cfg: Config)
    requires
        judged(r, last.error, history_verdicts(last, prior, cfg)),
        last.error is None,
        mode_value(hashes_of(prior)) != Some(last.hash@),
        mode_value(sizes_of(prior)) == Some(last.compress_length),
        mode_value(shots_of(prior)) == opt_view(last.screenshot_hash),
        titles_of(prior).len() == 0 || mode_value(titles_of(prior)) == opt_view(last.title),
    ensures
        r.status == Status::HashOnly,
{
}

} // verus!
