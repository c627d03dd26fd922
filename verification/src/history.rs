//! Adaptive history logging: the sampling policy that decides, record
//! by record, what is interesting enough to persist; the in-memory
//! history store with its retention operations — windowed query,
//! compaction, pruning, aggregation; and the laws those operations
//! obey.  The storage engine behind `NutDB` persists what this policy
//! decides; the policy itself lives here, fully verified.

use vstd::prelude::*;
use crate::models::{trunc_div, UpsData, UpsModel};

verus! {

/// Persisted telemetry projection: one chart point.
#[derive(Debug)]
pub struct HistoryEntry {
    /// Storage row identity; assigned on insert.
    pub id: Option<u64>,
    /// Seconds since the epoch.
    pub timestamp: u64,
    /// Centi-volts.
    pub input_voltage: Option<i64>,
    /// Centi-volts.
    pub output_voltage: Option<i64>,
    /// Centi-percent.
    pub load_percent: Option<i64>,
    /// Centi-percent.
    pub battery_charge: Option<i64>,
    /// Operational status token set at the time of the sample.
    pub status: String,
}

/// Mathematical model of a history entry.
pub struct EntryModel {
    pub id: Option<u64>,
    pub timestamp: u64,
    pub input_voltage: Option<i64>,
    pub output_voltage: Option<i64>,
    pub load_percent: Option<i64>,
    pub battery_charge: Option<i64>,
    pub status: Seq<char>,
}

impl View for HistoryEntry {
    type V = EntryModel;

    open spec fn view(&self) -> EntryModel {
        EntryModel {
            id: self.id,
            timestamp: self.timestamp,
            input_voltage: self.input_voltage,
            output_voltage: self.output_voltage,
            load_percent: self.load_percent,
            battery_charge: self.battery_charge,
            status: self.status@,
        }
    }
}

/// The last persisted sample, the baseline every sampling decision
/// compares against.  The baseline advances only on an actual
/// persist: discarded samples never count toward elapsed-time math.
pub struct LoggerBaseline {
    /// Milliseconds since the epoch at the persist.
    pub time_ms: u64,
    pub input_voltage: Option<i64>,
    pub load_percent: Option<i64>,
    pub battery_charge: Option<i64>,
    pub status: String,
}

/// Mathematical model of the baseline.
pub struct BaselineModel {
    pub time_ms: u64,
    pub input_voltage: Option<i64>,
    pub load_percent: Option<i64>,
    pub battery_charge: Option<i64>,
    pub status: Seq<char>,
}

impl View for LoggerBaseline {
    type V = BaselineModel;

    open spec fn view(&self) -> BaselineModel {
        BaselineModel {
            time_ms: self.time_ms,
            input_voltage: self.input_voltage,
            load_percent: self.load_percent,
            battery_charge: self.battery_charge,
            status: self.status@,
        }
    }
}

/// Absolute difference.
pub open spec fn abs_diff(a: int, b: int) -> int {
    if a >= b {
        a - b
    } else {
        b - a
    }
}

/// Milliseconds elapsed since the baseline; a clock that runs
/// backwards counts as no time elapsed.
pub open spec fn elapsed_ms(b: BaselineModel, now_ms: u64) -> int {
    if now_ms >= b.time_ms {
        now_ms - b.time_ms
    } else {
        0
    }
}

/// The voltage moved faster than half a volt per second since the
/// baseline: in centi-volts and milliseconds, `|dv| * 1000 > 50 * dt`.
/// Undefined readings on either side never fire the rule.
pub open spec fn voltage_velocity_exceeded(
    bv: Option<i64>,
    nv: Option<i64>,
    dt_ms: int,
) -> bool {
    bv matches Some(b) && nv matches Some(n) && abs_diff(n as int, b as int) * 1000 > 50 * dt_ms
}

/// Both readings present and apart by more than `limit` centi-units.
pub open spec fn delta_exceeds(a: Option<i64>, b: Option<i64>, limit: int) -> bool {
    a matches Some(x) && b matches Some(y) && abs_diff(y as int, x as int) > limit
}

/// The sampling decision:
/// - the very first record observed is always persisted;
/// - a status change against the baseline always persists;
/// - otherwise a fast-moving input voltage (over half a volt per
///   second), a load step over five points, or a charge step over two
///   points persists;
/// - otherwise a heartbeat persists once at least 600 seconds have
///   passed since the last persist, keeping long stable periods
///   visible;
/// - everything else is discarded.
pub open spec fn spec_should_persist(b: Option<BaselineModel>, m: UpsModel, now_ms: u64) -> bool {
    match b {
        None => true,
        Some(base) => {
            if m.status != base.status {
                true
            } else {
                let dt = elapsed_ms(base, now_ms);
                voltage_velocity_exceeded(base.input_voltage, m.input_voltage, dt)
                    || delta_exceeds(base.load_percent, m.ups_load, 500)
                    || delta_exceeds(base.battery_charge, m.battery_charge, 200)
                    || dt >= 600000
            }
        },
    }
}

/// The baseline a persisted sample leaves behind.
pub open spec fn baseline_of(m: UpsModel, now_ms: u64) -> BaselineModel {
    BaselineModel {
        time_ms: now_ms,
        input_voltage: m.input_voltage,
        load_percent: m.ups_load,
        battery_charge: m.battery_charge,
        status: m.status,
    }
}

/// The adaptive history logger: holds the baseline, decides sample by
/// sample.
pub struct HistoryLogger {
    pub baseline: Option<LoggerBaseline>,
}

/// The logger's baseline as a model.
pub open spec fn baseline_model(l: HistoryLogger) -> Option<BaselineModel> {
    match l.baseline {
        None => None,
        Some(b) => Some(b@),
    }
}

impl HistoryLogger {
    /// A logger that has persisted nothing yet.
    pub fn new() -> (l: HistoryLogger)
        ensures
            l.baseline is None,
    {
        HistoryLogger { baseline: None }
    }

    /// Decide whether to persist the record observed at `now_ms`.  On
    /// a persist the baseline advances to this sample; on a discard
    /// nothing moves, and the sample never counts toward elapsed-time
    /// math.
    pub fn observe(&mut self, data: &UpsData, now_ms: u64) -> (persist: bool)
        ensures
            persist == spec_should_persist(baseline_model(*old(self)), data@, now_ms),
            persist ==> baseline_model(*final(self)) == Some(baseline_of(data@, now_ms)),
            !persist ==> baseline_model(*final(self)) == baseline_model(*old(self)),
    {
        let persist = match &self.baseline {
            None => true,
            Some(base) => {
                if !crate::text::str_eq(data.status.as_str(), base.status.as_str()) {
                    true
                } else {
                    let dt: u64 = if now_ms >= base.time_ms {
                        now_ms - base.time_ms
                    } else {
                        0
                    };
                    let mut hit = dt >= 600000;
                    if let (Some(b), Some(n)) = (base.input_voltage, data.input_voltage) {
                        let dv: i128 = if (n as i128) >= (b as i128) {
                            (n as i128) - (b as i128)
                        } else {
                            (b as i128) - (n as i128)
                        };
                        if dv * 1000 > 50 * (dt as i128) {
                            hit = true;
                        }
                    }
                    if let (Some(x), Some(y)) = (base.load_percent, data.ups_load) {
                        let d: i128 = if (y as i128) >= (x as i128) {
                            (y as i128) - (x as i128)
                        } else {
                            (x as i128) - (y as i128)
                        };
                        if d > 500 {
                            hit = true;
                        }
                    }
                    if let (Some(x), Some(y)) = (base.battery_charge, data.battery_charge) {
                        let d: i128 = if (y as i128) >= (x as i128) {
                            (y as i128) - (x as i128)
                        } else {
                            (x as i128) - (y as i128)
                        };
                        if d > 200 {
                            hit = true;
                        }
                    }
                    hit
                }
            },
        };
        if persist {
            self.baseline = Some(
                LoggerBaseline {
                    time_ms: now_ms,
                    input_voltage: data.input_voltage,
                    load_percent: data.ups_load,
                    battery_charge: data.battery_charge,
                    status: data.status.clone(),
                },
            );
        }
        persist
    }
}

/// Once 600 seconds have passed since the last persist, the
/// heartbeat persists the sample whatever it holds: long stable
/// periods stay visible.
pub proof fn lemma_heartbeat_persists(b: BaselineModel, m: UpsModel, now_ms: u64)
    requires
        now_ms >= b.time_ms + 600000,
    ensures
        spec_should_persist(Some(b), m, now_ms),
{
}

/// A status change against the baseline persists, whatever the
/// numeric deltas and however little time has passed.
pub proof fn lemma_status_change_persists(b: BaselineModel, m: UpsModel, now_ms: u64)
    requires
        m.status != b.status,
    ensures
        spec_should_persist(Some(b), m, now_ms),
{
}

impl Clone for HistoryEntry {
    /// A field-for-field copy.
    fn clone(&self) -> (r: Self)
        ensures
            r@ == self@,
    {
        HistoryEntry {
            id: self.id,
            timestamp: self.timestamp,
            input_voltage: self.input_voltage,
            output_voltage: self.output_voltage,
            load_percent: self.load_percent,
            battery_charge: self.battery_charge,
            status: self.status.clone(),
        }
    }
}

/// The rows of a store, as models, in storage order.
pub open spec fn rows_model(rows: Seq<HistoryEntry>) -> Seq<EntryModel> {
    rows.map_values(|e: HistoryEntry| e@)
}

/// The rows whose timestamp lies at or after the cutoff, in order.
pub open spec fn window_filter(rows: Seq<EntryModel>, cutoff: int) -> Seq<EntryModel> {
    rows.filter(|m: EntryModel| m.timestamp >= cutoff)
}

/// Start of a lookback window of `hours` hours ending at `now`
/// seconds, clamped at the epoch.
pub open spec fn cutoff_secs(now: u64, hours: u64) -> int {
    if hours * 3600 > now {
        0
    } else {
        now - hours * 3600
    }
}

/// The entry as it is persisted, with its assigned row identity.
pub open spec fn with_id(e: EntryModel, id: u64) -> EntryModel {
    EntryModel { id: Some(id), ..e }
}

/// The nominal, mains-powered, non-alarm operating state: exactly the
/// online token.  Anything else — alarms, on-battery, combined token
/// sets — is treated as an anomaly and is permanent in history.
pub open spec fn is_nominal(st: Seq<char>) -> bool {
    st == "OL"@
}

/// The fixed 300-second compaction bucket an entry falls in.
pub open spec fn bucket_of(m: EntryModel) -> int {
    m.timestamp as int / 300
}

/// A row is deleted by compaction exactly when its status is nominal
/// and an earlier row — smaller index, hence smaller id — in the same
/// bucket is nominal too: the earliest nominal row of each bucket and
/// every anomaly survive.
pub open spec fn is_victim(rows: Seq<EntryModel>, i: int) -> bool {
    is_nominal(rows[i].status) && exists|j: int|
        0 <= j < i && is_nominal(#[trigger] rows[j].status) && bucket_of(rows[j]) == bucket_of(
            rows[i],
        )
}

/// The rows compaction leaves behind, in order.
pub open spec fn compacted(rows: Seq<EntryModel>) -> Seq<EntryModel>
    decreases rows.len(),
{
    if rows.len() == 0 {
        rows
    } else {
        let prefix = compacted(rows.drop_last());
        if is_victim(rows, rows.len() - 1) {
            prefix
        } else {
            prefix.push(rows.last())
        }
    }
}

/// Every entry's timestamp lies at or under the bound.
pub open spec fn all_ts_le(s: Seq<EntryModel>, b: int) -> bool {
    forall|i: int| 0 <= i < s.len() ==> (#[trigger] s[i]).timestamp <= b
}

/// Ascending by timestamp.
pub open spec fn ts_sorted(s: Seq<EntryModel>) -> bool {
    forall|i: int, j: int| 0 <= i < j < s.len() ==> s[i].timestamp <= s[j].timestamp
}

/// Insert one entry into a timestamp-sorted sequence, after every
/// entry with an equal or earlier timestamp.
pub open spec fn insert_by_ts(s: Seq<EntryModel>, e: EntryModel) -> Seq<EntryModel>
    decreases s.len(),
{
    if s.len() == 0 {
        seq![e]
    } else if s.last().timestamp <= e.timestamp {
        s.push(e)
    } else {
        insert_by_ts(s.drop_last(), e).push(s.last())
    }
}

/// The rows ordered by ascending timestamp; entries with equal
/// timestamps keep their relative order.
pub open spec fn sort_by_ts(rows: Seq<EntryModel>) -> Seq<EntryModel>
    decreases rows.len(),
{
    if rows.len() == 0 {
        rows
    } else {
        insert_by_ts(sort_by_ts(rows.drop_last()), rows.last())
    }
}

proof fn lemma_insert_by_ts_ensures(s: Seq<EntryModel>, e: EntryModel)
    requires
        ts_sorted(s),
    ensures
        ts_sorted(insert_by_ts(s, e)),
        insert_by_ts(s, e).to_multiset() == s.to_multiset().insert(e),
        insert_by_ts(s, e).len() == s.len() + 1,
        forall|b: int|
            all_ts_le(s, b) && e.timestamp <= b ==> #[trigger] all_ts_le(insert_by_ts(s, e), b),
    decreases s.len(),
{
    broadcast use vstd::seq_lib::group_to_multiset_ensures;

    if s.len() == 0 {
        assert(seq![e] =~= Seq::<EntryModel>::empty().push(e));
        assert(Seq::<EntryModel>::empty().to_multiset() =~= vstd::multiset::Multiset::<EntryModel>::empty());
        assert(seq![e].to_multiset() =~= s.to_multiset().insert(e));
        assert forall|b: int| all_ts_le(s, b) && e.timestamp <= b implies #[trigger] all_ts_le(
            insert_by_ts(s, e),
            b,
        ) by {
            assert(forall|i: int|
                0 <= i < seq![e].len() ==> (#[trigger] seq![e][i]).timestamp <= b);
        }
    } else if s.last().timestamp <= e.timestamp {
        let r = s.push(e);
        assert forall|i: int, j: int| 0 <= i < j < r.len() implies r[i].timestamp
            <= r[j].timestamp by {
            if j == r.len() - 1 {
                assert(s[i].timestamp <= s[s.len() - 1].timestamp);
            }
        }
        assert forall|b: int| all_ts_le(s, b) && e.timestamp <= b implies #[trigger] all_ts_le(
            r,
            b,
        ) by {
            assert(forall|i: int| 0 <= i < s.len() ==> r[i] == s[i]);
            assert(forall|i: int| 0 <= i < r.len() ==> (#[trigger] r[i]).timestamp <= b);
        }
    } else {
        assert(ts_sorted(s.drop_last()));
        lemma_insert_by_ts_ensures(s.drop_last(), e);
        let inner = insert_by_ts(s.drop_last(), e);
        let r = inner.push(s.last());
        assert(all_ts_le(s.drop_last(), s.last().timestamp as int));
        assert(all_ts_le(inner, s.last().timestamp as int));
        assert forall|i: int, j: int| 0 <= i < j < r.len() implies r[i].timestamp
            <= r[j].timestamp by {
            if j == r.len() - 1 {
                assert(inner[i].timestamp <= s.last().timestamp);
            }
        }
        assert(s.drop_last().push(s.last()) =~= s);
        assert(s.to_multiset() == s.drop_last().to_multiset().insert(s.last()));
        assert(r.to_multiset() =~= s.to_multiset().insert(e)) by {
            assert(r.to_multiset() == inner.to_multiset().insert(s.last()));
            assert(inner.to_multiset() == s.drop_last().to_multiset().insert(e));
            assert(s.drop_last().to_multiset().insert(e).insert(s.last())
                =~= s.drop_last().to_multiset().insert(s.last()).insert(e));
        }
        assert forall|b: int| all_ts_le(s, b) && e.timestamp <= b implies #[trigger] all_ts_le(
            r,
            b,
        ) by {
            assert(forall|i: int|
                0 <= i < s.drop_last().len() ==> (#[trigger] s.drop_last()[i]).timestamp <= b);
            assert(all_ts_le(inner, b));
            assert(forall|i: int| 0 <= i < r.len() ==> (#[trigger] r[i]).timestamp <= b);
        }
    }
}

/// Sorting by timestamp yields an ascending sequence holding exactly
/// the given rows.
pub proof fn lemma_sort_by_ts_ensures(rows: Seq<EntryModel>)
    ensures
        ts_sorted(sort_by_ts(rows)),
        sort_by_ts(rows).to_multiset() == rows.to_multiset(),
        sort_by_ts(rows).len() == rows.len(),
    decreases rows.len(),
{
    broadcast use vstd::seq_lib::group_to_multiset_ensures;

    if rows.len() > 0 {
        lemma_sort_by_ts_ensures(rows.drop_last());
        lemma_insert_by_ts_ensures(sort_by_ts(rows.drop_last()), rows.last());
        assert(rows.drop_last().push(rows.last()) =~= rows);
        assert(rows.to_multiset() == rows.drop_last().to_multiset().insert(rows.last()));
    }
}

/// Where a positional insert lands is where `insert_by_ts` puts it.
proof fn lemma_insert_by_ts_at(s: Seq<EntryModel>, e: EntryModel, idx: int)
    requires
        0 <= idx <= s.len(),
        forall|k: int| idx <= k < s.len() ==> (#[trigger] s[k]).timestamp > e.timestamp,
        idx > 0 ==> s[idx - 1].timestamp <= e.timestamp,
    ensures
        insert_by_ts(s, e) == s.insert(idx, e),
    decreases s.len(),
{
    if idx == s.len() {
        if s.len() == 0 {
            assert(seq![e] =~= s.insert(0, e));
        } else {
            assert(s.push(e) =~= s.insert(idx, e));
        }
    } else {
        assert(s.last().timestamp > e.timestamp);
        assert(forall|k: int|
            idx <= k < s.drop_last().len() ==> (#[trigger] s.drop_last()[k]).timestamp
                > e.timestamp);
        if idx > 0 {
            assert(s.drop_last()[idx - 1] == s[idx - 1]);
        }
        lemma_insert_by_ts_at(s.drop_last(), e, idx);
        assert(s.drop_last().insert(idx, e).push(s.last()) =~= s.insert(idx, e));
    }
}

/// Insert one entry into a vector kept ascending by timestamp.
fn insert_sorted(out: &mut Vec<HistoryEntry>, e: HistoryEntry)
    ensures
        rows_model(final(out)@) == insert_by_ts(rows_model(old(out)@), e@),
{
    let mut idx: usize = out.len();
    while idx > 0 && out[idx - 1].timestamp > e.timestamp
        invariant
            idx <= out@.len(),
            out == old(out),
            forall|k: int|
                idx <= k < out@.len() ==> (#[trigger] out@[k]@).timestamp > e@.timestamp,
        decreases idx,
    {
        idx = idx - 1;
    }
    proof {
        let rm = rows_model(out@);
        assert(forall|k: int| idx <= k < rm.len() ==> (#[trigger] rm[k]).timestamp
            > e@.timestamp);
        lemma_insert_by_ts_at(rm, e@, idx as int);
    }
    out.insert(idx, e);
    proof {
        assert(rows_model(out@) =~= rows_model(old(out)@).insert(idx as int, e@));
    }
}

/// The in-memory history store: append-only but for compaction and
/// pruning, with row identities assigned in insertion order.
pub struct HistoryStore {
    pub rows: Vec<HistoryEntry>,
    pub next_id: u64,
}

impl HistoryStore {
    /// Row identities are assigned, unique, below the insertion
    /// counter, and strictly increasing along the storage order.
    pub open spec fn wf(self) -> bool {
        &&& forall|i: int|
            0 <= i < self.rows@.len() ==> (#[trigger] self.rows@[i]@.id) is Some
                && self.rows@[i]@.id.unwrap() < self.next_id
        &&& forall|i: int, j: int|
            0 <= i < j < self.rows@.len() ==> (#[trigger] self.rows@[i]@.id.unwrap()) < (
            #[trigger] self.rows@[j]@.id.unwrap())
    }

    /// The stored rows as models, in storage order.
    pub open spec fn model(self) -> Seq<EntryModel> {
        rows_model(self.rows@)
    }

    /// An empty store.
    pub fn new() -> (s: HistoryStore)
        ensures
            s.wf(),
            s.model() == Seq::<EntryModel>::empty(),
            s.next_id == 0,
    {
        let s = HistoryStore { rows: Vec::new(), next_id: 0 };
        proof {
            assert(s.model() =~= Seq::<EntryModel>::empty());
        }
        s
    }

    /// Append one entry, assigning it the next row identity.  `None`
    /// only when the identity space is exhausted, in which case
    /// nothing changes.
    pub fn insert(&mut self, e: HistoryEntry) -> (r: Option<u64>)
        requires
            old(self).wf(),
        ensures
            final(self).wf(),
            match r {
                Some(id) => {
                    &&& id == old(self).next_id
                    &&& final(self).next_id == old(self).next_id + 1
                    &&& final(self).model() == old(self).model().push(with_id(e@, id))
                },
                None => {
                    &&& old(self).next_id == u64::MAX
                    &&& final(self).model() == old(self).model()
                    &&& final(self).next_id == old(self).next_id
                },
            },
    {
        if self.next_id == u64::MAX {
            return None;
        }
        let id = self.next_id;
        let row = HistoryEntry {
            id: Some(id),
            timestamp: e.timestamp,
            input_voltage: e.input_voltage,
            output_voltage: e.output_voltage,
            load_percent: e.load_percent,
            battery_charge: e.battery_charge,
            status: e.status,
        };
        self.rows.push(row);
        self.next_id = id + 1;
        proof {
            assert(self.model() =~= old(self).model().push(with_id(e@, id)));
            assert(forall|i: int|
                0 <= i < old(self).rows@.len() ==> self.rows@[i] == old(self).rows@[i]);
        }
        Some(id)
    }

    /// The stored rows no older than the lookback window of `hours`
    /// hours ending at `now_secs`, ordered by ascending timestamp;
    /// rows with equal timestamps keep their storage order.
    pub fn query_range(&self, now_secs: u64, hours: u64) -> (r: Vec<HistoryEntry>)
        ensures
            rows_model(r@) == sort_by_ts(
                window_filter(self.model(), cutoff_secs(now_secs, hours)),
            ),
    {
        let cutoff: u64 = match hours.checked_mul(3600) {
            Some(span) => if span > now_secs {
                0
            } else {
                now_secs - span
            },
            None => 0,
        };
        proof {
            assert(cutoff as int == cutoff_secs(now_secs, hours));
        }
        let mut out: Vec<HistoryEntry> = Vec::new();
        let ghost rm = self.model();
        proof {
            reveal(Seq::filter);
            assert(rows_model(out@) =~= sort_by_ts(window_filter(rm.take(0), cutoff as int)));
        }
        let mut i: usize = 0;
        while i < self.rows.len()
            invariant
                i <= self.rows@.len(),
                rm == self.model(),
                cutoff as int == cutoff_secs(now_secs, hours),
                rows_model(out@) == sort_by_ts(window_filter(rm.take(i as int), cutoff as int)),
            decreases self.rows@.len() - i,
        {
            let ghost prefix = rm.take(i as int);
            proof {
                reveal(Seq::filter);
                assert(rm.take(i + 1).drop_last() =~= prefix);
                assert(rm.take(i + 1).last() == rm[i as int]);
            }
            if self.rows[i].timestamp >= cutoff {
                let ghost wf_next = window_filter(rm.take(i + 1), cutoff as int);
                proof {
                    assert(wf_next == window_filter(prefix, cutoff as int).push(rm[i as int]));
                    assert(wf_next.drop_last() =~= window_filter(prefix, cutoff as int));
                    assert(wf_next.last() == rm[i as int]);
                }
                insert_sorted(&mut out, self.rows[i].clone());
            }
            i = i + 1;
        }
        proof {
            assert(rm.take(rm.len() as int) =~= rm);
        }
        out
    }
}

/// Whether row `i` of the rows read so far is a compaction victim:
/// nominal, with an earlier nominal row in the same bucket.
pub fn is_victim_row(rows: &Vec<HistoryEntry>, i: usize) -> (v: bool)
    requires
        i < rows@.len(),
    ensures
        v == is_victim(rows_model(rows@).take(i as int + 1), i as int),
{
    let ghost rm = rows_model(rows@);
    let nominal = crate::text::str_eq(rows[i].status.as_str(), "OL");
    let mut victim = false;
    if nominal {
        let b_i = rows[i].timestamp / 300;
        let mut j: usize = 0;
        while j < i
            invariant
                j <= i < rows@.len(),
                rm == rows_model(rows@),
                b_i == rows@[i as int].timestamp / 300,
                victim == (exists|k: int|
                    0 <= k < j && is_nominal(#[trigger] rm[k].status) && bucket_of(rm[k])
                        == bucket_of(rm[i as int])),
            decreases i - j,
        {
            if crate::text::str_eq(rows[j].status.as_str(), "OL") && rows[j].timestamp / 300
                == b_i {
                proof {
                    assert(is_nominal(rm[j as int].status) && bucket_of(rm[j as int])
                        == bucket_of(rm[i as int]));
                }
                victim = true;
            }
            j = j + 1;
        }
    }
    let ghost t = rm.take(i + 1);
    proof {
        assert(forall|k: int| 0 <= k <= i ==> t[k] == rm[k]);
        if victim {
            let k = choose|k: int|
                0 <= k < i && is_nominal(#[trigger] rm[k].status) && bucket_of(rm[k])
                    == bucket_of(rm[i as int]);
            assert(is_nominal(t[k].status) && bucket_of(t[k]) == bucket_of(t[i as int]));
            assert(is_victim(t, i as int));
        } else {
            if is_victim(t, i as int) {
                let k = choose|k: int|
                    0 <= k < i && is_nominal(#[trigger] t[k].status) && bucket_of(t[k])
                        == bucket_of(t[i as int]);
                assert(is_nominal(rm[k].status) && bucket_of(rm[k]) == bucket_of(rm[i as int]));
                assert(false);
            }
        }
    }
    victim
}

impl HistoryStore {
    /// Compaction: among the nominal-status rows of each 300-second
    /// bucket keep only the earliest (by id), delete the rest; rows
    /// with any other status are never touched.  Returns the number
    /// of deleted rows.
    pub fn compact(&mut self) -> (deleted: usize)
        requires
            old(self).wf(),
        ensures
            final(self).wf(),
            final(self).model() == compacted(old(self).model()),
            final(self).next_id == old(self).next_id,
            deleted == old(self).model().len() - final(self).model().len(),
    {
        let ghost rm = self.model();
        let mut out: Vec<HistoryEntry> = Vec::new();
        let mut deleted: usize = 0;
        proof {
            assert(rows_model(out@) =~= compacted(rm.take(0)));
        }
        let mut i: usize = 0;
        while i < self.rows.len()
            invariant
                i <= self.rows@.len(),
                rm == self.model(),
                old(self).wf(),
                self.rows == old(self).rows,
                self.next_id == old(self).next_id,
                rows_model(out@) == compacted(rm.take(i as int)),
                deleted == i - out@.len(),
                out@.len() <= i,
                forall|a: int|
                    0 <= a < out@.len() ==> (#[trigger] out@[a]@.id) is Some
                        && out@[a]@.id.unwrap() < self.next_id,
                forall|a: int, b: int|
                    0 <= a < b < out@.len() ==> (#[trigger] out@[a]@.id.unwrap()) < (
                    #[trigger] out@[b]@.id.unwrap()),
                out@.len() > 0 && i > 0 ==> out@[out@.len() - 1]@.id.unwrap()
                    <= self.rows@[i - 1]@.id.unwrap(),
            decreases self.rows@.len() - i,
        {
            let victim = is_victim_row(&self.rows, i);
            proof {
                let t = rm.take(i + 1);
                assert(t.drop_last() =~= rm.take(i as int));
                assert(t.last() == rm[i as int]);
            }
            if victim {
                deleted = deleted + 1;
            } else {
                out.push(self.rows[i].clone());
                proof {
                    assert(rows_model(out@) =~= rows_model(out@.drop_last()).push(rm[i as int]));
                    assert(forall|a: int|
                        0 <= a < out@.len() - 1 ==> out@[a] == out@.drop_last()[a]);
                }
            }
            i = i + 1;
        }
        proof {
            assert(rm.take(rm.len() as int) =~= rm);
        }
        self.rows = out;
        deleted
    }

    /// Pruning: permanently delete every row strictly older than the
    /// cutoff.  Returns the number of deleted rows.
    pub fn delete_older_than(&mut self, cutoff: u64) -> (deleted: usize)
        requires
            old(self).wf(),
        ensures
            final(self).wf(),
            final(self).model() == window_filter(old(self).model(), cutoff as int),
            final(self).next_id == old(self).next_id,
            deleted == old(self).model().len() - final(self).model().len(),
    {
        let ghost rm = self.model();
        let mut out: Vec<HistoryEntry> = Vec::new();
        let mut deleted: usize = 0;
        proof {
            reveal(Seq::filter);
            assert(rows_model(out@) =~= window_filter(rm.take(0), cutoff as int));
        }
        let mut i: usize = 0;
        while i < self.rows.len()
            invariant
                i <= self.rows@.len(),
                rm == self.model(),
                old(self).wf(),
                self.rows == old(self).rows,
                self.next_id == old(self).next_id,
                rows_model(out@) == window_filter(rm.take(i as int), cutoff as int),
                deleted == i - out@.len(),
                out@.len() <= i,
                forall|a: int|
                    0 <= a < out@.len() ==> (#[trigger] out@[a]@.id) is Some
                        && out@[a]@.id.unwrap() < self.next_id,
                forall|a: int, b: int|
                    0 <= a < b < out@.len() ==> (#[trigger] out@[a]@.id.unwrap()) < (
                    #[trigger] out@[b]@.id.unwrap()),
                out@.len() > 0 && i > 0 ==> out@[out@.len() - 1]@.id.unwrap()
                    <= self.rows@[i - 1]@.id.unwrap(),
            decreases self.rows@.len() - i,
        {
            proof {
                reveal(Seq::filter);
                assert(rm.take(i + 1).drop_last() =~= rm.take(i as int));
                assert(rm.take(i + 1).last() == rm[i as int]);
            }
            if self.rows[i].timestamp >= cutoff {
                out.push(self.rows[i].clone());
                proof {
                    assert(rows_model(out@) =~= rows_model(out@.drop_last()).push(rm[i as int]));
                    assert(forall|a: int|
                        0 <= a < out@.len() - 1 ==> out@[a] == out@.drop_last()[a]);
                }
            } else {
                deleted = deleted + 1;
            }
            i = i + 1;
        }
        proof {
            assert(rm.take(rm.len() as int) =~= rm);
        }
        self.rows = out;
        deleted
    }
}

/// Every row compaction does not select survives the pass: the
/// earliest nominal row of each bucket and every anomaly stay.
pub proof fn lemma_compaction_keeps_survivors(rows: Seq<EntryModel>, i: int)
    requires
        0 <= i < rows.len(),
        !is_victim(rows, i),
    ensures
        compacted(rows).contains(rows[i]),
    decreases rows.len(),
{
    if i == rows.len() - 1 {
        let c = compacted(rows);
        assert(c == compacted(rows.drop_last()).push(rows.last()));
        assert(c[c.len() - 1] == rows[i]);
    } else {
        assert(rows.drop_last()[i] == rows[i]);
        if is_victim(rows.drop_last(), i) {
            let k = choose|k: int|
                0 <= k < i && is_nominal(#[trigger] rows.drop_last()[k].status) && bucket_of(
                    rows.drop_last()[k],
                ) == bucket_of(rows.drop_last()[i]);
            assert(rows[k] == rows.drop_last()[k]);
            assert(is_nominal(rows[k].status) && bucket_of(rows[k]) == bucket_of(rows[i]));
            assert(is_victim(rows, i));
            assert(false);
        }
        lemma_compaction_keeps_survivors(rows.drop_last(), i);
        let cp = compacted(rows.drop_last());
        let k = choose|k: int| 0 <= k < cp.len() && cp[k] == rows[i];
        if is_victim(rows, rows.len() - 1) {
            assert(compacted(rows)[k] == rows[i]);
        } else {
            assert(compacted(rows)[k] == rows[i]);
        }
    }
}

/// Anomalies are permanent: a row whose status is not the nominal
/// online state is never a victim and survives every compaction pass.
pub proof fn lemma_compaction_keeps_anomalies(rows: Seq<EntryModel>, i: int)
    requires
        0 <= i < rows.len(),
        !is_nominal(rows[i].status),
    ensures
        compacted(rows).contains(rows[i]),
{
    assert(!is_victim(rows, i));
    lemma_compaction_keeps_survivors(rows, i);
}

/// Round trip: an entry just inserted falls inside any window whose
/// cutoff does not exclude its timestamp, and the sorted sequence a
/// query returns holds it, equal in all fields.
pub proof fn lemma_insert_query_round_trip(rows: Seq<EntryModel>, e: EntryModel, cutoff: int)
    requires
        e.timestamp >= cutoff,
    ensures
        window_filter(rows.push(e), cutoff) == window_filter(rows, cutoff).push(e),
        window_filter(rows.push(e), cutoff).contains(e),
        sort_by_ts(window_filter(rows.push(e), cutoff)).contains(e),
{
    broadcast use vstd::seq_lib::group_to_multiset_ensures;

    reveal(Seq::filter);
    assert(rows.push(e).drop_last() =~= rows);
    let q = window_filter(rows.push(e), cutoff);
    assert(q == window_filter(rows, cutoff).push(e));
    assert(q[q.len() - 1] == e);
    lemma_sort_by_ts_ensures(q);
    assert(q.to_multiset().count(e) > 0);
    assert(sort_by_ts(q).to_multiset().count(e) > 0);
}

/// The values a field takes over the rows, skipping absent readings,
/// in row order.
pub open spec fn opt_vals(rows: Seq<EntryModel>, f: spec_fn(EntryModel) -> Option<i64>) -> Seq<
    i64,
>
    decreases rows.len(),
{
    if rows.len() == 0 {
        Seq::empty()
    } else {
        opt_vals(rows.drop_last(), f) + (match f(rows.last()) {
            None => Seq::empty(),
            Some(v) => seq![v],
        })
    }
}

pub open spec fn vals_input_voltage(rows: Seq<EntryModel>) -> Seq<i64> {
    opt_vals(rows, |m: EntryModel| m.input_voltage)
}

pub open spec fn vals_output_voltage(rows: Seq<EntryModel>) -> Seq<i64> {
    opt_vals(rows, |m: EntryModel| m.output_voltage)
}

pub open spec fn vals_load(rows: Seq<EntryModel>) -> Seq<i64> {
    opt_vals(rows, |m: EntryModel| m.load_percent)
}

pub open spec fn vals_charge(rows: Seq<EntryModel>) -> Seq<i64> {
    opt_vals(rows, |m: EntryModel| m.battery_charge)
}

/// Least element of a non-empty value sequence.
pub open spec fn seq_min_i(s: Seq<i64>) -> int
    recommends
        s.len() > 0,
    decreases s.len(),
{
    if s.len() <= 1 {
        s[0] as int
    } else {
        let m = seq_min_i(s.drop_last());
        if (s.last() as int) < m {
            s.last() as int
        } else {
            m
        }
    }
}

/// Greatest element of a non-empty value sequence.
pub open spec fn seq_max_i(s: Seq<i64>) -> int
    recommends
        s.len() > 0,
    decreases s.len(),
{
    if s.len() <= 1 {
        s[0] as int
    } else {
        let m = seq_max_i(s.drop_last());
        if (s.last() as int) > m {
            s.last() as int
        } else {
            m
        }
    }
}

/// Sum of a value sequence.
pub open spec fn seq_sum_i(s: Seq<i64>) -> int
    decreases s.len(),
{
    if s.len() == 0 {
        0
    } else {
        seq_sum_i(s.drop_last()) + s.last() as int
    }
}

/// Minimum over the present readings; absent when there are none.
pub open spec fn stat_min(vs: Seq<i64>) -> Option<i64> {
    if vs.len() == 0 {
        None
    } else {
        Some(seq_min_i(vs) as i64)
    }
}

/// Maximum over the present readings; absent when there are none.
pub open spec fn stat_max(vs: Seq<i64>) -> Option<i64> {
    if vs.len() == 0 {
        None
    } else {
        Some(seq_max_i(vs) as i64)
    }
}

/// Average over the present readings, truncated toward zero; absent
/// when there are none or the quotient does not fit.
pub open spec fn stat_avg(vs: Seq<i64>) -> Option<i64> {
    if vs.len() == 0 {
        None
    } else {
        let q = trunc_div(seq_sum_i(vs), vs.len() as int);
        if i64::MIN <= q <= i64::MAX {
            Some(q as i64)
        } else {
            None
        }
    }
}

/// An outage entry: the status lacks the nominal-online marker or
/// carries the on-battery marker.
pub open spec fn is_outage(st: Seq<char>) -> bool {
    !crate::text::has_marker(st, "OL"@) || crate::text::has_marker(st, "OB"@)
}

/// How many rows are outage entries.
pub open spec fn count_outages(rows: Seq<EntryModel>) -> int
    decreases rows.len(),
{
    if rows.len() == 0 {
        0
    } else {
        count_outages(rows.drop_last()) + (if is_outage(rows.last().status) {
            1int
        } else {
            0int
        })
    }
}

/// Aggregate electrical statistics over a lookback window.
pub struct HistoryStats {
    /// Rows in the window.
    pub row_count: usize,
    /// Rows whose status shows an outage.
    pub outage_count: usize,
    pub input_voltage_min: Option<i64>,
    pub input_voltage_max: Option<i64>,
    pub input_voltage_avg: Option<i64>,
    pub output_voltage_min: Option<i64>,
    pub output_voltage_max: Option<i64>,
    pub output_voltage_avg: Option<i64>,
    pub load_max: Option<i64>,
    pub load_avg: Option<i64>,
    pub charge_min: Option<i64>,
    pub charge_avg: Option<i64>,
}

/// Least present value, as executable scan.
fn vec_min(v: &Vec<i64>) -> (r: Option<i64>)
    ensures
        r == stat_min(v@),
{
    let mut r: Option<i64> = None;
    let mut i: usize = 0;
    proof {
        assert(v@.take(0) =~= Seq::<i64>::empty());
    }
    while i < v.len()
        invariant
            i <= v@.len(),
            (r is Some) == (i > 0),
            r matches Some(m) ==> m as int == seq_min_i(v@.take(i as int)),
        decreases v@.len() - i,
    {
        proof {
            assert(v@.take(i + 1).drop_last() =~= v@.take(i as int));
            assert(v@.take(i + 1).last() == v@[i as int]);
        }
        r = match r {
            None => Some(v[i]),
            Some(m) => if v[i] < m {
                Some(v[i])
            } else {
                Some(m)
            },
        };
        i = i + 1;
    }
    proof {
        assert(v@.take(v@.len() as int) =~= v@);
        if v@.len() > 0 {
            let m = r.unwrap();
            assert(m as int == seq_min_i(v@));
        }
    }
    r
}

/// Greatest present value, as executable scan.
fn vec_max(v: &Vec<i64>) -> (r: Option<i64>)
    ensures
        r == stat_max(v@),
{
    let mut r: Option<i64> = None;
    let mut i: usize = 0;
    proof {
        assert(v@.take(0) =~= Seq::<i64>::empty());
    }
    while i < v.len()
        invariant
            i <= v@.len(),
            (r is Some) == (i > 0),
            r matches Some(m) ==> m as int == seq_max_i(v@.take(i as int)),
        decreases v@.len() - i,
    {
        proof {
            assert(v@.take(i + 1).drop_last() =~= v@.take(i as int));
            assert(v@.take(i + 1).last() == v@[i as int]);
        }
        r = match r {
            None => Some(v[i]),
            Some(m) => if v[i] > m {
                Some(v[i])
            } else {
                Some(m)
            },
        };
        i = i + 1;
    }
    proof {
        assert(v@.take(v@.len() as int) =~= v@);
        if v@.len() > 0 {
            let m = r.unwrap();
            assert(m as int == seq_max_i(v@));
        }
    }
    r
}

/// Truncated average of the present values, as executable scan.
fn vec_avg(v: &Vec<i64>) -> (r: Option<i64>)
    ensures
        r == stat_avg(v@),
{
    if v.len() == 0 {
        return None;
    }
    let mut sum: i128 = 0;
    let mut i: usize = 0;
    proof {
        assert(v@.take(0) =~= Seq::<i64>::empty());
    }
    while i < v.len()
        invariant
            i <= v@.len(),
            sum == seq_sum_i(v@.take(i as int)),
            (i as int) * (i64::MIN as int) <= sum <= (i as int) * (i64::MAX as int),
        decreases v@.len() - i,
    {
        proof {
            assert(v@.take(i + 1).drop_last() =~= v@.take(i as int));
            assert(v@.take(i + 1).last() == v@[i as int]);
            assert((i + 1) as int * (i64::MIN as int) == (i as int) * (i64::MIN as int) + (
            i64::MIN as int));
            assert((i + 1) as int * (i64::MAX as int) == (i as int) * (i64::MAX as int) + (
            i64::MAX as int));
        }
        sum = sum + (v[i] as i128);
        i = i + 1;
    }
    proof {
        assert(v@.take(v@.len() as int) =~= v@);
    }
    let n = v.len();
    let q = match sum.checked_div(n as i128) {
        Some(q) => q,
        None => {
            proof {
                if sum >= 0 {
                    vstd::arithmetic::div_mod::lemma_div_nonincreasing(sum as int, n as int);
                    vstd::arithmetic::div_mod::lemma_div_pos_is_pos(sum as int, n as int);
                } else {
                    vstd::arithmetic::div_mod::lemma_div_nonincreasing(-(sum as int), n as int);
                    vstd::arithmetic::div_mod::lemma_div_pos_is_pos(-(sum as int), n as int);
                }
                assert(false);
            }
            0
        },
    };
    proof {
        assert(q == trunc_div(seq_sum_i(v@), v@.len() as int));
    }
    if q >= i64::MIN as i128 && q <= i64::MAX as i128 {
        Some(q as i64)
    } else {
        None
    }
}

impl HistoryStore {
    /// Aggregate the window of `hours` hours ending at `now_secs`:
    /// extremes and truncated averages of the electrical readings,
    /// the row count, and the outage count.
    pub fn aggregate(&self, now_secs: u64, hours: u64) -> (r: HistoryStats)
        ensures
            ({
                let win = sort_by_ts(window_filter(self.model(), cutoff_secs(now_secs, hours)));
                &&& r.row_count == win.len()
                &&& r.outage_count == count_outages(win)
                &&& r.input_voltage_min == stat_min(vals_input_voltage(win))
                &&& r.input_voltage_max == stat_max(vals_input_voltage(win))
                &&& r.input_voltage_avg == stat_avg(vals_input_voltage(win))
                &&& r.output_voltage_min == stat_min(vals_output_voltage(win))
                &&& r.output_voltage_max == stat_max(vals_output_voltage(win))
                &&& r.output_voltage_avg == stat_avg(vals_output_voltage(win))
                &&& r.load_max == stat_max(vals_load(win))
                &&& r.load_avg == stat_avg(vals_load(win))
                &&& r.charge_min == stat_min(vals_charge(win))
                &&& r.charge_avg == stat_avg(vals_charge(win))
            }),
    {
        let rows = self.query_range(now_secs, hours);
        let ghost win = sort_by_ts(window_filter(self.model(), cutoff_secs(now_secs, hours)));
        proof {
            assert(rows_model(rows@).len() == win.len());
        }
        let mut iv: Vec<i64> = Vec::new();
        let mut ov: Vec<i64> = Vec::new();
        let mut ld: Vec<i64> = Vec::new();
        let mut ch: Vec<i64> = Vec::new();
        let mut outages: usize = 0;
        proof {
            assert(rows_model(rows@).take(0) =~= Seq::<EntryModel>::empty());
            assert(iv@ =~= vals_input_voltage(rows_model(rows@).take(0)));
            assert(ov@ =~= vals_output_voltage(rows_model(rows@).take(0)));
            assert(ld@ =~= vals_load(rows_model(rows@).take(0)));
            assert(ch@ =~= vals_charge(rows_model(rows@).take(0)));
        }
        let mut i: usize = 0;
        while i < rows.len()
            invariant
                i <= rows@.len(),
                win == rows_model(rows@),
                iv@ == vals_input_voltage(rows_model(rows@).take(i as int)),
                ov@ == vals_output_voltage(rows_model(rows@).take(i as int)),
                ld@ == vals_load(rows_model(rows@).take(i as int)),
                ch@ == vals_charge(rows_model(rows@).take(i as int)),
                outages == count_outages(rows_model(rows@).take(i as int)),
                outages <= i,
            decreases rows@.len() - i,
        {
            let ghost rm = rows_model(rows@);
            proof {
                assert(rm.take(i + 1).drop_last() =~= rm.take(i as int));
                assert(rm.take(i + 1).last() == rm[i as int]);
            }
            if let Some(x) = rows[i].input_voltage {
                iv.push(x);
                proof {
                    assert(iv@ =~= iv@.drop_last() + seq![x]);
                }
            } else {
                proof {
                    assert(iv@ =~= iv@ + Seq::<i64>::empty());
                }
            }
            if let Some(x) = rows[i].output_voltage {
                ov.push(x);
                proof {
                    assert(ov@ =~= ov@.drop_last() + seq![x]);
                }
            } else {
                proof {
                    assert(ov@ =~= ov@ + Seq::<i64>::empty());
                }
            }
            if let Some(x) = rows[i].load_percent {
                ld.push(x);
                proof {
                    assert(ld@ =~= ld@.drop_last() + seq![x]);
                }
            } else {
                proof {
                    assert(ld@ =~= ld@ + Seq::<i64>::empty());
                }
            }
            if let Some(x) = rows[i].battery_charge {
                ch.push(x);
                proof {
                    assert(ch@ =~= ch@.drop_last() + seq![x]);
                }
            } else {
                proof {
                    assert(ch@ =~= ch@ + Seq::<i64>::empty());
                }
            }
            let lacks_online = !crate::text::str_contains(rows[i].status.as_str(), "OL");
            let on_battery = crate::text::str_contains(rows[i].status.as_str(), "OB");
            if lacks_online || on_battery {
                outages = outages + 1;
            }
            i = i + 1;
        }
        proof {
            let rm = rows_model(rows@);
            assert(rm.take(rm.len() as int) =~= rm);
        }
        HistoryStats {
            row_count: rows.len(),
            outage_count: outages,
            input_voltage_min: vec_min(&iv),
            input_voltage_max: vec_max(&iv),
            input_voltage_avg: vec_avg(&iv),
            output_voltage_min: vec_min(&ov),
            output_voltage_max: vec_max(&ov),
            output_voltage_avg: vec_avg(&ov),
            load_max: vec_max(&ld),
            load_avg: vec_avg(&ld),
            charge_min: vec_min(&ch),
            charge_avg: vec_avg(&ch),
        }
    }
}

} // verus!
