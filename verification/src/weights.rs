use vstd::prelude::*;

use rand::seq::IndexedRandom;
use rand::Rng;

verus! {

/// Nanoseconds in a second.
pub const NANOS_PER_SEC: i128 = 1_000_000_000;

/// The earliest time the system clock represents, in nanoseconds since the
/// Unix epoch: `i64::MIN` whole seconds.
pub open spec fn min_time_nanos() -> int {
    i64::MIN as int * 1_000_000_000
}

/// The latest time the system clock represents, in nanoseconds since the
/// Unix epoch: `i64::MAX` whole seconds and 999 999 999 nanoseconds.
pub open spec fn max_time_nanos() -> int {
    i64::MAX as int * 1_000_000_000 + 999_999_999
}

/// A point in time as the system clock keeps it, to the nanosecond.
pub struct SystemTimestamp {
    nanos: i128,
}

impl View for SystemTimestamp {
    type V = int;

    /// Nanoseconds since the Unix epoch, negative before it.
    closed spec fn view(&self) -> int {
        self.nanos as int
    }
}

impl SystemTimestamp {
    #[verifier::type_invariant]
    spec fn within_clock_range(self) -> bool {
        min_time_nanos() <= self.nanos <= max_time_nanos()
    }

    /// The time `secs` seconds and `subsec_nanos` nanoseconds after the
    /// epoch; `None` where the sub-second part is a second or more, or the
    /// time lies beyond the clock's range.
    pub fn after_epoch(secs: u64, subsec_nanos: u32) -> (t: Option<SystemTimestamp>)
        ensures
            t is None <==> (subsec_nanos >= 1_000_000_000 || secs > i64::MAX),
            t matches Some(t) ==> t@ == secs as int * 1_000_000_000 + subsec_nanos as int,
    {
        if subsec_nanos >= 1_000_000_000 || secs > i64::MAX as u64 {
            return None;
        }
        let nanos: i128 = secs as i128 * NANOS_PER_SEC + subsec_nanos as i128;
        Some(SystemTimestamp { nanos })
    }

    /// The time `secs` seconds and `subsec_nanos` nanoseconds before the
    /// epoch; `None` where the sub-second part is a second or more, or the
    /// time lies before the clock's range.
    pub fn before_epoch(secs: u64, subsec_nanos: u32) -> (t: Option<SystemTimestamp>)
        ensures
            t is None <==> (subsec_nanos >= 1_000_000_000 || secs as int * 1_000_000_000
                + subsec_nanos as int > 9_223_372_036_854_775_808_000_000_000),
            t matches Some(t) ==> t@ == -(secs as int * 1_000_000_000 + subsec_nanos as int),
    {
        if subsec_nanos >= 1_000_000_000 {
            return None;
        }
        let total: i128 = secs as i128 * NANOS_PER_SEC + subsec_nanos as i128;
        if total > 9_223_372_036_854_775_808_000_000_000i128 {
            return None;
        }
        Some(SystemTimestamp { nanos: -total })
    }

    /// Nanoseconds since the Unix epoch, negative before it.
    pub fn nanos_since_epoch(&self) -> (n: i128)
        ensures
            n == self@,
            min_time_nanos() <= n <= max_time_nanos(),
    {
        proof {
            use_type_invariant(self);
        }
        self.nanos
    }
}

/// How far a time lies after the moment it was compared with.
#[derive(Clone, Copy, Debug, PartialEq, Eq, Structural)]
pub struct FutureTime {
    pub secs: u64,
    pub subsec_nanos: u32,
}

/// The whole seconds elapsed from `time` until `now`, or how far `time`
/// lies after `now`.
pub open spec fn elapsed_seconds(now: int, time: int) -> Result<u64, FutureTime> {
    if time <= now {
        Ok(((now - time) / 1_000_000_000) as u64)
    } else {
        Err(
            FutureTime {
                secs: ((time - now) / 1_000_000_000) as u64,
                subsec_nanos: ((time - now) % 1_000_000_000) as u32,
            },
        )
    }
}

/// The weight of a file in the random choice: the whole seconds since it
/// was last accessed, or 0 where that time is unknown or lies in the future.
pub open spec fn access_weight(now: int, access: Result<SystemTimestamp, String>) -> u64 {
    match access {
        Ok(t) => match elapsed_seconds(now, t@) {
            Ok(secs) => secs,
            Err(_) => 0,
        },
        Err(_) => 0,
    }
}

/// The sum of a sequence of weights.
pub open spec fn total_weight(weights: Seq<u64>) -> int
    decreases weights.len(),
{
    if weights.len() == 0 {
        0
    } else {
        total_weight(weights.drop_last()) + weights.last()
    }
}

/// The weights of (item, weight) pairs.
pub open spec fn pair_weights(items: Seq<(usize, u64)>) -> Seq<u64> {
    items.map_values(|p: (usize, u64)| p.1)
}

/// The message with which playing a random video fails when the folder
/// holds no video.
pub open spec fn no_video_message() -> Seq<char> {
    "No video files found in folder"@
}

/// Something that can tell when it was last accessed.
pub trait LastAccessible {
    /// The time of the last access, or why it cannot be told.
    fn last_accessed(&self) -> Result<SystemTimestamp, String>;
}

/// Seconds elapsed from `time` until `now` (the current time, read by the
/// caller), rounded down; where `time` lies after `now`, how far after.
pub fn seconds_since_system_time(now: &SystemTimestamp, time: &SystemTimestamp) -> (r: Result<
    u64,
    FutureTime,
>)
    ensures
        r == elapsed_seconds(now@, time@),
        time@ <= now@ ==> (r matches Ok(secs) && secs == (now@ - time@) / 1_000_000_000),
        now@ < time@ ==> (r matches Err(f) && f.secs == (time@ - now@) / 1_000_000_000
            && f.subsec_nanos == (time@ - now@) % 1_000_000_000),
{
    proof {
        use_type_invariant(now);
        use_type_invariant(time);
    }
    let n = now.nanos;
    let t = time.nanos;
    if t <= n {
        let diff: i128 = n - t;
        let secs: i128 = diff / NANOS_PER_SEC;
        assert(secs <= u64::MAX) by (nonlinear_arith)
            requires
                secs == diff / 1_000_000_000,
                0 <= diff <= max_time_nanos() - min_time_nanos(),
        ;
        Ok(secs as u64)
    } else {
        let diff: i128 = t - n;
        let secs: i128 = diff / NANOS_PER_SEC;
        let sub: i128 = diff % NANOS_PER_SEC;
        assert(secs <= u64::MAX) by (nonlinear_arith)
            requires
                secs == diff / 1_000_000_000,
                0 <= diff <= max_time_nanos() - min_time_nanos(),
        ;
        Err(FutureTime { secs: secs as u64, subsec_nanos: sub as u32 })
    }
}

/// The weight of a file whose last access is `access`, at time `now`.
pub fn weight_of_access(now: &SystemTimestamp, access: &Result<SystemTimestamp, String>) -> (w: u64)
    ensures
        w == access_weight(now@, *access),
        access matches Ok(t) ==> (t@ <= now@ ==> w == (now@ - t@) / 1_000_000_000),
        access matches Ok(t) ==> (now@ < t@ ==> w == 0),
        access is Err ==> w == 0,
{
    match access {
        Ok(t) => match seconds_since_system_time(now, t) {
            Ok(secs) => secs,
            Err(_) => 0,
        },
        Err(_) => 0,
    }
}

/// The weight of a file in the random choice at time `now`: the whole
/// seconds since it was last accessed, 0 where that cannot be told. The
/// access time is what the file's own `last_accessed` answers.
pub fn weight_by_last_accessed<F: LastAccessible>(file: &F, now: &SystemTimestamp) -> (w: u64)
    ensures
        exists|access: Result<SystemTimestamp, String>|
            call_ensures(F::last_accessed, (file,), access) && w == access_weight(now@, access) && (
            access matches Ok(t) ==> (t@ <= now@ ==> w == (now@ - t@) / 1_000_000_000)) && (
            access matches Ok(t) ==> (now@ < t@ ==> w == 0)) && (access is Err ==> w == 0),
{
    let access = file.last_accessed();
    weight_of_access(now, &access)
}

/// The error of rand's weighted choice.
#[verifier::external_type_specification]
#[verifier::external_body]
pub struct ExWeightError(rand::distr::weighted::Error);

/// Calls rand's `IndexedRandom::choose_weighted` on `items` with the
/// thread-local generator, weighing each pair by its second field, and
/// hands back the first field of the chosen pair. Claimed, as rand's source
/// shows (`WeightedIndex::new` and its `sample`): the call fails exactly
/// when there are no items, the weights sum to 0, or their sum overflows
/// `u64`; otherwise it picks a pair whose weight is not 0. Which pair comes
/// out rests on chance and is not stated.
#[verifier::external_body]
fn choose_weighted_pair(items: &Vec<(usize, u64)>) -> (chosen: Result<
    usize,
    rand::distr::weighted::Error,
>)
    ensures
        chosen is Err <==> (items@.len() == 0 || total_weight(pair_weights(items@)) == 0
            || total_weight(pair_weights(items@)) > u64::MAX),
        chosen matches Ok(k) ==> exists|j: int|
            0 <= j < items@.len() && #[trigger] items@[j].0 == k && items@[j].1 > 0,
{
    items.choose_weighted(&mut rand::rng(), |item| item.1).map(|item| item.0)
}

/// Calls rand's `Rng::random_range` on `0..count` with the thread-local
/// generator. Claimed, as rand documents and its source shows: for a
/// non-empty range the result lies in it (an empty range panics, which the
/// `requires` rules out). Which number comes out rests on chance.
#[verifier::external_body]
fn random_below(count: usize) -> (r: usize)
    requires
        count > 0,
    ensures
        r < count,
{
    rand::rng().random_range(0..count)
}

/// The (position, weight) pairs of a list of weights, in order.
pub fn weighted_positions(weights: &Vec<u64>) -> (items: Vec<(usize, u64)>)
    ensures
        items@ == Seq::new(weights@.len(), |j: int| (j as usize, weights@[j])),
{
    let mut items: Vec<(usize, u64)> = Vec::new();
    let mut i: usize = 0;
    while i < weights.len()
        invariant
            i <= weights.len(),
            items@ == Seq::new(i as nat, |j: int| (j as usize, weights@[j])),
        decreases weights.len() - i,
    {
        items.push((i, weights[i]));
        assert(items@ =~= Seq::new((i + 1) as nat, |j: int| (j as usize, weights@[j])));
        i = i + 1;
    }
    items
}

/// Chooses at random which of the videos of a folder to play. Each video's
/// chance is proportional to its weight (see [`weight_by_last_accessed`]),
/// so a video with weight 0 is never chosen while another weighs more.
/// Where every weight is 0 (all were accessed within the last second, or no
/// access time could be told), or their sum does not fit in `u64`, any of
/// the videos may be chosen. Fails with "No video files found in folder"
/// only when there is no video.
pub fn choose_random_video(weights: &Vec<u64>) -> (r: Result<usize, String>)
    ensures
        r is Err <==> weights@.len() == 0,
        r matches Err(m) ==> m@ == no_video_message(),
        r matches Ok(i) ==> i < weights@.len(),
        r matches Ok(i) ==> (0 < total_weight(weights@) <= u64::MAX ==> weights@[i as int]
            > 0),
{
    if weights.len() == 0 {
        return Err("No video files found in folder".to_owned());
    }
    let items = weighted_positions(weights);
    assert(pair_weights(items@) =~= weights@);
    match choose_weighted_pair(&items) {
        Ok(i) => Ok(i),
        Err(_) => Ok(random_below(weights.len())),
    }
}

/// A file accessed earlier never weighs less than one accessed later
/// (times within the clock's range).
pub proof fn lemma_older_access_weighs_more(
    now: SystemTimestamp,
    older: SystemTimestamp,
    newer: SystemTimestamp,
)
    requires
        older@ <= newer@,
        min_time_nanos() <= now@ <= max_time_nanos(),
        min_time_nanos() <= older@ <= max_time_nanos(),
        min_time_nanos() <= newer@ <= max_time_nanos(),
    ensures
        access_weight(now@, Ok::<SystemTimestamp, String>(older)) >= access_weight(
            now@,
            Ok::<SystemTimestamp, String>(newer),
        ),
{
    if newer@ <= now@ {
        let a = now@ - older@;
        let b = now@ - newer@;
        assert(a / 1_000_000_000 >= b / 1_000_000_000 && a / 1_000_000_000 <= u64::MAX && b
            / 1_000_000_000 >= 0) by (nonlinear_arith)
            requires
                a >= b >= 0,
                a <= max_time_nanos() - min_time_nanos(),
        ;
    }
}

/// A file's weight is the whole seconds from its last access until now
/// (rounded down, without any cap), 0 where the access lies in the future
/// or its time is unknown.
pub proof fn lemma_weight_is_seconds_since_access(
    now: SystemTimestamp,
    time: SystemTimestamp,
    reason: String,
)
    requires
        min_time_nanos() <= now@ <= max_time_nanos(),
        min_time_nanos() <= time@ <= max_time_nanos(),
    ensures
        time@ <= now@ ==> access_weight(now@, Ok::<SystemTimestamp, String>(time)) == (now@
            - time@) / 1_000_000_000,
        now@ < time@ ==> access_weight(now@, Ok::<SystemTimestamp, String>(time)) == 0,
        access_weight(now@, Err::<SystemTimestamp, String>(reason)) == 0,
{
    if time@ <= now@ {
        let d = now@ - time@;
        assert(0 <= d / 1_000_000_000 <= u64::MAX) by (nonlinear_arith)
            requires
                0 <= d <= max_time_nanos() - min_time_nanos(),
        ;
    }
}

} // verus!
