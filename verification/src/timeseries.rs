//! Fixed-interval sample files: the header, the records, and range queries.
//!
//! A sample file is a header of `HEADER_SIZE` bytes followed by records of
//! `RECORD_SIZE` bytes each. Record `i` was sampled at
//! `begin_time + i * native_interval` milliseconds. All integers are stored
//! big-endian; a record is a signed 64-bit value.

use vstd::prelude::*;

verus! {

/// Number of bytes of the file header.
pub const HEADER_SIZE: u64 = 28;

/// Number of bytes of one record.
pub const RECORD_SIZE: u64 = 8;

/// First of the four bytes that every sample file starts with: `T`.
pub const MAGIC_0: u8 = 0x54;

/// Second byte of a sample file: `S`.
pub const MAGIC_1: u8 = 0x53;

/// Third byte of a sample file: `F`.
pub const MAGIC_2: u8 = 0x46;

/// Fourth byte of a sample file: `1`.
pub const MAGIC_3: u8 = 0x31;

/// Why a store operation failed.
#[derive(Clone, Copy, Debug, PartialEq, Eq, Structural)]
pub enum StoreError {
    /// The file is missing, or its header cannot be read as one.
    NotFound,
    /// The requested range is empty, reversed, or starts before the file does.
    InvalidRange,
    /// The range rounded outward ends after the last representable
    /// timestamp, or has more buckets than a vector can hold.
    Unrepresentable,
}

/// The unsigned integer that eight bytes spell, most significant first.
pub open spec fn be_u64(b: Seq<u8>) -> int
    recommends
        b.len() == 8,
{
    ((((((b[0] as int * 256 + b[1] as int) * 256 + b[2] as int) * 256 + b[3] as int) * 256
        + b[4] as int) * 256 + b[5] as int) * 256 + b[6] as int) * 256 + b[7] as int
}

/// The signed integer that eight bytes spell in two's complement.
pub open spec fn be_i64(b: Seq<u8>) -> int
    recommends
        b.len() == 8,
{
    let u = be_u64(b);
    if u < 0x8000_0000_0000_0000 {
        u
    } else {
        u - 0x1_0000_0000_0000_0000
    }
}

/// Reads the unsigned 64-bit integer at byte `at`.
pub fn read_u64(bytes: &[u8], at: usize) -> (v: u64)
    requires
        at + 8 <= bytes.len(),
    ensures
        v == be_u64(bytes@.subrange(at as int, at + 8)),
{
    let b0: u64 = bytes[at] as u64;
    let b1: u64 = bytes[at + 1] as u64;
    let b2: u64 = bytes[at + 2] as u64;
    let b3: u64 = bytes[at + 3] as u64;
    let b4: u64 = bytes[at + 4] as u64;
    let b5: u64 = bytes[at + 5] as u64;
    let b6: u64 = bytes[at + 6] as u64;
    let b7: u64 = bytes[at + 7] as u64;
    ((((((b0 * 256 + b1) * 256 + b2) * 256 + b3) * 256 + b4) * 256 + b5) * 256 + b6) * 256 + b7
}

/// Reads the signed 64-bit integer at byte `at`.
pub fn read_i64(bytes: &[u8], at: usize) -> (v: i64)
    requires
        at + 8 <= bytes.len(),
    ensures
        v == be_i64(bytes@.subrange(at as int, at + 8)),
{
    let u: u64 = read_u64(bytes, at);
    if u < 0x8000_0000_0000_0000 {
        u as i64
    } else {
        let below: u64 = u64::MAX - u;
        -(below as i64) - 1
    }
}

/// What the header of a sample file records.
#[derive(Clone, Copy, Debug, PartialEq, Eq, Structural)]
pub struct TimeSeriesHeader {
    /// Timestamp of the first record, in milliseconds.
    pub begin_time: i64,
    /// Number of records in the file.
    pub amount: u64,
    /// Milliseconds between two consecutive records.
    pub native_interval: i64,
}

impl TimeSeriesHeader {
    /// A header is valid when its interval is positive, the time just after
    /// its last record is a representable timestamp, and the length of the
    /// file it describes is a representable offset.
    pub open spec fn valid(self) -> bool {
        &&& self.native_interval >= 1
        &&& self.begin_time + self.amount * self.native_interval <= i64::MAX
        &&& HEADER_SIZE + self.amount * RECORD_SIZE <= u64::MAX
    }

    /// The time at which record `i` was sampled.
    pub open spec fn record_time(self, i: int) -> int {
        self.begin_time + i * self.native_interval
    }

    /// The time just after the last record: where record `amount` would be.
    pub open spec fn end_time(self) -> int {
        self.record_time(self.amount as int)
    }

    /// Tells whether the header is valid.
    pub fn is_valid(&self) -> (ok: bool)
        ensures
            ok == self.valid(),
    {
        if self.native_interval < 1 {
            return false;
        }
        let amount: i128 = self.amount as i128;
        let interval: i128 = self.native_interval as i128;
        assert(0 <= amount * interval <= 0xFFFF_FFFF_FFFF_FFFF * 0x7FFF_FFFF_FFFF_FFFF)
            by (nonlinear_arith)
            requires
                0 <= amount <= 0xFFFF_FFFF_FFFF_FFFF,
                0 <= interval <= 0x7FFF_FFFF_FFFF_FFFF,
        ;
        let span: i128 = amount * interval;
        let last: i128 = self.begin_time as i128 + span;
        let bytes: i128 = 28 + amount * 8;
        last <= i64::MAX as i128 && bytes <= u64::MAX as i128
    }
}

/// The header that the first bytes of a file spell, if they spell a valid one.
pub open spec fn header_of(bytes: Seq<u8>) -> Option<TimeSeriesHeader> {
    if bytes.len() >= HEADER_SIZE && bytes[0] == MAGIC_0 && bytes[1] == MAGIC_1 && bytes[2]
        == MAGIC_2 && bytes[3] == MAGIC_3 {
        let header = TimeSeriesHeader {
            begin_time: be_i64(bytes.subrange(4, 12)) as i64,
            native_interval: be_i64(bytes.subrange(12, 20)) as i64,
            amount: be_u64(bytes.subrange(20, 28)) as u64,
        };
        if header.valid() {
            Some(header)
        } else {
            None
        }
    } else {
        None
    }
}

/// Reads the header at the start of `bytes`.
pub fn parse_header(bytes: &[u8]) -> (result: Result<TimeSeriesHeader, StoreError>)
    ensures
        match result {
            Ok(header) => header_of(bytes@) == Some(header),
            Err(e) => e == StoreError::NotFound && header_of(bytes@).is_none(),
        },
{
    if bytes.len() < HEADER_SIZE as usize {
        return Err(StoreError::NotFound);
    }
    if bytes[0] != MAGIC_0 || bytes[1] != MAGIC_1 || bytes[2] != MAGIC_2 || bytes[3] != MAGIC_3 {
        return Err(StoreError::NotFound);
    }
    let header = TimeSeriesHeader {
        begin_time: read_i64(bytes, 4),
        native_interval: read_i64(bytes, 12),
        amount: read_u64(bytes, 20),
    };
    if header.is_valid() {
        Ok(header)
    } else {
        Err(StoreError::NotFound)
    }
}

/// `a / b` rounded up, for `a >= 0` and `b > 0`.
pub open spec fn ceil_div(a: int, b: int) -> int {
    (a + b - 1) / b
}

/// The bucket width a query is answered with: the requested one, but never
/// narrower than the interval at which the file was sampled.
pub open spec fn effective_unit(header: TimeSeriesHeader, unit_time: int) -> int {
    if unit_time < header.native_interval {
        header.native_interval as int
    } else {
        unit_time
    }
}

/// The index of the first record sampled at or after `t`, or `amount` if no
/// record was. Meant for `t >= begin_time`.
pub open spec fn first_record_at(header: TimeSeriesHeader, t: int) -> int {
    let i = ceil_div(t - header.begin_time, header.native_interval as int);
    if i < header.amount {
        i
    } else {
        header.amount as int
    }
}

/// Whether record `first + j` was sampled in `[lo, hi)`.
pub open spec fn in_span(header: TimeSeriesHeader, first: int, j: int, lo: int, hi: int) -> bool {
    lo <= header.record_time(first + j) < hi
}

/// The sum of those of the first `n` records of `records` that were sampled
/// in `[lo, hi)`, where `records[j]` is record `first + j` of the file.
pub open spec fn span_sum(
    header: TimeSeriesHeader,
    first: int,
    records: Seq<int>,
    lo: int,
    hi: int,
    n: nat,
) -> int
    decreases n,
{
    if n == 0 {
        0
    } else {
        span_sum(header, first, records, lo, hi, (n - 1) as nat) + if in_span(
            header,
            first,
            n - 1,
            lo,
            hi,
        ) {
            records[n - 1]
        } else {
            0
        }
    }
}

/// How many of the first `n` records of `records` were sampled in `[lo, hi)`.
pub open spec fn span_count(header: TimeSeriesHeader, first: int, lo: int, hi: int, n: nat) -> int
    decreases n,
{
    if n == 0 {
        0
    } else {
        span_count(header, first, lo, hi, (n - 1) as nat) + if in_span(
            header,
            first,
            n - 1,
            lo,
            hi,
        ) {
            1int
        } else {
            0int
        }
    }
}

/// The arithmetic mean of `count` values that add up to `sum`, rounded
/// toward zero; zero when there are no values.
pub open spec fn mean(sum: int, count: int) -> int {
    if count <= 0 {
        0
    } else if sum >= 0 {
        sum / count
    } else {
        -((-sum) / count)
    }
}

/// The records that a window of file bytes holds, when its first byte is the
/// first byte of record `first`: as many whole records as the window has,
/// but none beyond the `amount` that the header counts.
pub open spec fn window_records(header: TimeSeriesHeader, first: int, window: Seq<u8>) -> Seq<int> {
    let held = window.len() as int / 8;
    let left = header.amount - first;
    let n = if held < left {
        held
    } else {
        left
    };
    Seq::new(n as nat, |j: int| be_i64(window.subrange(8 * j, 8 * j + 8)))
}

/// The value of bucket `k` of a query that starts at `start` with buckets
/// `unit` wide: the mean of the records sampled in
/// `[start + k * unit, start + (k + 1) * unit)`, zero if there are none.
pub open spec fn bucket_value(
    header: TimeSeriesHeader,
    first: int,
    records: Seq<int>,
    start: int,
    unit: int,
    k: int,
) -> int {
    let lo = start + k * unit;
    let hi = lo + unit;
    mean(
        span_sum(header, first, records, lo, hi, records.len()),
        span_count(header, first, lo, hi, records.len()),
    )
}

/// The answer to a range query, as mathematical values.
pub struct RangeModel {
    pub begin_time: int,
    pub end_time: int,
    pub unit_time: int,
    pub steps: int,
    pub values: Seq<int>,
}

/// What a range query over `[start, end)` with buckets `unit` wide returns,
/// given the header and the window of file bytes that starts at record
/// `first_record_at(header, start)`.
pub open spec fn range_query(
    header: TimeSeriesHeader,
    window: Seq<u8>,
    start: int,
    end: int,
    unit: int,
) -> Result<RangeModel, StoreError> {
    if start >= end || start < header.begin_time {
        Err(StoreError::InvalidRange)
    } else {
        let width = effective_unit(header, unit);
        let steps = ceil_div(end - start, width);
        let stop = start + steps * width;
        if stop > i64::MAX || steps > usize::MAX {
            Err(StoreError::Unrepresentable)
        } else {
            let first = first_record_at(header, start);
            let records = window_records(header, first, window);
            Ok(
                RangeModel {
                    begin_time: start,
                    end_time: stop,
                    unit_time: width,
                    steps,
                    values: Seq::new(
                        steps as nat,
                        |k: int| bucket_value(header, first, records, start, width, k),
                    ),
                },
            )
        }
    }
}

/// The answer to a range query.
#[derive(Clone, Debug, PartialEq, Eq)]
pub struct RangeQueryResult {
    /// The requested start time.
    pub begin_time: i64,
    /// The end of the last bucket: `begin_time + steps * unit_time`.
    pub end_time: i64,
    /// The width of one bucket.
    pub unit_time: i64,
    /// The number of buckets.
    pub steps: u64,
    /// One aggregated value per bucket, in time order.
    pub values: Vec<i64>,
}

impl View for RangeQueryResult {
    type V = RangeModel;

    open spec fn view(&self) -> RangeModel {
        RangeModel {
            begin_time: self.begin_time as int,
            end_time: self.end_time as int,
            unit_time: self.unit_time as int,
            steps: self.steps as int,
            values: Seq::new(self.values@.len(), |k: int| self.values@[k] as int),
        }
    }
}

/// Where in the file the records of a range query lie.
#[derive(Clone, Copy, Debug, PartialEq, Eq, Structural)]
pub struct RangePlan {
    /// The requested start time.
    pub begin_time: i64,
    /// The end of the last bucket.
    pub end_time: i64,
    /// The width of one bucket.
    pub unit_time: i64,
    /// The number of buckets.
    pub steps: u64,
    /// Index of the first record sampled at or after `begin_time`.
    pub first_record: u64,
    /// Number of records sampled in `[begin_time, end_time)`.
    pub record_count: u64,
    /// Offset in the file of the first byte of record `first_record`.
    pub byte_offset: u64,
    /// Number of bytes that the `record_count` records take.
    pub byte_len: u64,
}

/// What `plan_range` returns for a query.
pub open spec fn range_plan(header: TimeSeriesHeader, start: int, end: int, unit: int) -> Result<
    RangePlan,
    StoreError,
> {
    if start >= end || start < header.begin_time {
        Err(StoreError::InvalidRange)
    } else {
        let width = effective_unit(header, unit);
        let steps = ceil_div(end - start, width);
        let stop = start + steps * width;
        if stop > i64::MAX || steps > usize::MAX {
            Err(StoreError::Unrepresentable)
        } else {
            let first = first_record_at(header, start);
            let last = first_record_at(header, stop);
            Ok(
                RangePlan {
                    begin_time: start as i64,
                    end_time: stop as i64,
                    unit_time: width as i64,
                    steps: steps as u64,
                    first_record: first as u64,
                    record_count: (last - first) as u64,
                    byte_offset: (HEADER_SIZE + first * RECORD_SIZE) as u64,
                    byte_len: ((last - first) * RECORD_SIZE) as u64,
                },
            )
        }
    }
}

/// For `a >= 0` and `b > 0`, `ceil_div(a, b)` is the least `q` with `q * b >= a`.
pub proof fn lemma_ceil_div(a: int, b: int)
    requires
        a >= 0,
        b > 0,
    ensures
        ceil_div(a, b) >= 0,
        (ceil_div(a, b) - 1) * b < a <= ceil_div(a, b) * b,
        a > 0 ==> ceil_div(a, b) >= 1,
        ceil_div(a, b) <= a,
{
    let q = (a + b - 1) / b;
    let r = (a + b - 1) % b;
    assert(a + b - 1 == b * q + r && 0 <= r < b) by (nonlinear_arith)
        requires
            b > 0,
            q == (a + b - 1) / b,
            r == (a + b - 1) % b,
    ;
    assert((q - 1) * b == b * q - b) by (nonlinear_arith);
    assert(q * b == b * q) by (nonlinear_arith);
    assert(q >= 0 && q <= a && (a > 0 ==> q >= 1)) by (nonlinear_arith)
        requires
            a >= 0,
            b > 0,
            a + b - 1 == b * q + r,
            0 <= r < b,
    ;
}

/// Record `i` was sampled at or after `t` exactly when `i` is at least
/// `ceil_div(t - begin_time, native_interval)`.
pub proof fn lemma_index_at(header: TimeSeriesHeader, t: int, i: int)
    requires
        header.native_interval >= 1,
        t >= header.begin_time,
    ensures
        header.record_time(i) >= t <==> i >= ceil_div(
            t - header.begin_time,
            header.native_interval as int,
        ),
{
    let d = header.native_interval as int;
    let x = t - header.begin_time;
    let q = ceil_div(x, d);
    lemma_ceil_div(x, d);
    if i >= q {
        assert(i * d >= q * d) by (nonlinear_arith)
            requires
                i >= q,
                d > 0,
        ;
    } else {
        assert(i * d <= (q - 1) * d) by (nonlinear_arith)
            requires
                i <= q - 1,
                d > 0,
        ;
    }
}

/// The sum of `records[a..b)`.
pub open spec fn range_sum(records: Seq<int>, a: int, b: int) -> int
    decreases b - a,
{
    if a >= b {
        0
    } else {
        range_sum(records, a, b - 1) + records[b - 1]
    }
}

/// Where the records sampled in `[lo, hi)` are exactly those at positions
/// `[a, b)`, their sum is the sum of that stretch and their number its length.
pub proof fn lemma_span_is_range(
    header: TimeSeriesHeader,
    first: int,
    records: Seq<int>,
    lo: int,
    hi: int,
    a: int,
    b: int,
    n: nat,
)
    requires
        0 <= a <= b,
        forall|j: int|
            0 <= j < n ==> (#[trigger] in_span(header, first, j, lo, hi) <==> a <= j < b),
    ensures
        span_sum(header, first, records, lo, hi, n) == range_sum(
            records,
            if a < n { a } else { n as int },
            if b < n { b } else { n as int },
        ),
        span_count(header, first, lo, hi, n) == (if b < n { b } else { n as int }) - (if a < n {
            a
        } else {
            n as int
        }),
    decreases n,
{
    if n > 0 {
        lemma_span_is_range(header, first, records, lo, hi, a, b, (n - 1) as nat);
    }
}

/// The mean of `count` values that each fit 64 bits.
fn mean_of(sum: i128, count: usize) -> (m: i64)
    requires
        count * i64::MIN <= sum <= count * i64::MAX,
    ensures
        m == mean(sum as int, count as int),
{
    if count == 0 {
        0
    } else if sum >= 0 {
        let c: i128 = count as i128;
        assert(sum / c <= i64::MAX && sum / c >= 0) by (nonlinear_arith)
            requires
                0 <= sum <= c * i64::MAX,
                c > 0,
        ;
        let q: i128 = sum / c;
        q as i64
    } else {
        let c: i128 = count as i128;
        let negated: i128 = -sum;
        assert(0 <= negated / c <= 0x8000_0000_0000_0000) by (nonlinear_arith)
            requires
                0 <= negated <= c * 0x8000_0000_0000_0000,
                c > 0,
        ;
        let q: i128 = negated / c;
        (-q) as i64
    }
}

/// A sample file that has been opened: its header, read once and kept.
///
/// The store holds no record. A query is answered from the window of file
/// bytes that `plan_range` asks for, so that no more of the file is read
/// than the query covers.
#[derive(Clone, Copy, Debug, PartialEq, Eq)]
pub struct TimeSeriesStore {
    header: TimeSeriesHeader,
}

impl TimeSeriesStore {
    #[verifier::type_invariant]
    spec fn header_is_valid(self) -> bool {
        self.header.valid()
    }

    /// The header of the file.
    pub closed spec fn header(self) -> TimeSeriesHeader {
        self.header
    }

    /// Opens a store on a header that is already at hand.
    pub fn new(header: TimeSeriesHeader) -> (result: Result<TimeSeriesStore, StoreError>)
        ensures
            match result {
                Ok(store) => header.valid() && store.header() == header,
                Err(e) => e == StoreError::NotFound && !header.valid(),
            },
    {
        if header.is_valid() {
            Ok(TimeSeriesStore { header })
        } else {
            Err(StoreError::NotFound)
        }
    }

    /// Opens a store on the first bytes of a sample file.
    pub fn open(bytes: &[u8]) -> (result: Result<TimeSeriesStore, StoreError>)
        ensures
            match result {
                Ok(store) => header_of(bytes@) == Some(store.header()),
                Err(e) => e == StoreError::NotFound && header_of(bytes@).is_none(),
            },
    {
        match parse_header(bytes) {
            Ok(header) => Ok(TimeSeriesStore { header }),
            Err(e) => Err(e),
        }
    }

    /// The header of the file, as it was read when the store was opened.
    pub fn get_header_info(&self) -> (header: TimeSeriesHeader)
        ensures
            header == self.header(),
            header.valid(),
    {
        proof {
            use_type_invariant(self);
        }
        self.header
    }

    /// The index of the first record sampled at or after `t`, among all the
    /// records that a file without end would hold.
    fn index_at(&self, t: i128) -> (i: u128)
        requires
            self.header().begin_time <= t <= i64::MAX,
        ensures
            i == ceil_div(t - self.header().begin_time, self.header().native_interval as int),
            i <= t - self.header().begin_time,
    {
        proof {
            use_type_invariant(self);
            lemma_ceil_div(t - self.header.begin_time, self.header.native_interval as int);
        }
        let x: u128 = (t - self.header.begin_time as i128) as u128;
        let d: u128 = self.header.native_interval as u128;
        (x + d - 1) / d
    }

    /// Works out the buckets of a range query and where in the file its
    /// records lie, without reading any record.
    pub fn plan_range(&self, start_time: i64, end_time: i64, unit_time: i64) -> (result: Result<
        RangePlan,
        StoreError,
    >)
        ensures
            result == range_plan(
                self.header(),
                start_time as int,
                end_time as int,
                unit_time as int,
            ),
    {
        proof {
            use_type_invariant(self);
        }
        if start_time >= end_time || start_time < self.header.begin_time {
            return Err(StoreError::InvalidRange);
        }
        let width: i64 = if unit_time < self.header.native_interval {
            self.header.native_interval
        } else {
            unit_time
        };
        let length: u128 = (end_time as i128 - start_time as i128) as u128;
        let w: u128 = width as u128;
        proof {
            lemma_ceil_div(length as int, w as int);
        }
        let steps: u128 = (length + w - 1) / w;
        assert(steps * w < length + w) by (nonlinear_arith)
            requires
                (steps - 1) * w < length,
        ;
        let stop: i128 = start_time as i128 + (steps * w) as i128;
        if stop > i64::MAX as i128 || steps > usize::MAX as u128 {
            return Err(StoreError::Unrepresentable);
        }
        let amount: u128 = self.header.amount as u128;
        let at_start: u128 = self.index_at(start_time as i128);
        let first: u128 = if at_start < amount {
            at_start
        } else {
            amount
        };
        let at_stop: u128 = self.index_at(stop);
        let last: u128 = if at_stop < amount {
            at_stop
        } else {
            amount
        };
        proof {
            lemma_index_at(self.header, start_time as int, at_stop as int);
            lemma_index_at(self.header, stop as int, at_stop as int);
            assert(steps * w >= 0) by (nonlinear_arith)
                requires
                    steps >= 0,
                    w >= 0,
            ;
        }
        Ok(
            RangePlan {
                begin_time: start_time,
                end_time: stop as i64,
                unit_time: width,
                steps: steps as u64,
                first_record: first as u64,
                record_count: (last - first) as u64,
                byte_offset: (28 + first * 8) as u64,
                byte_len: ((last - first) * 8) as u64,
            },
        )
    }

    /// The position in a window of the first record sampled at or after
    /// `t`, when the window starts at record `first` and holds `n` records;
    /// `n` if it holds no such record.
    fn window_index(&self, first: u64, n: usize, t: i128) -> (j: usize)
        requires
            self.header().begin_time <= t <= i64::MAX,
            first <= ceil_div(t - self.header().begin_time, self.header().native_interval as int),
        ensures
            j <= n,
            j as int == {
                let off = ceil_div(
                    t - self.header().begin_time,
                    self.header().native_interval as int,
                ) - first;
                if off < n {
                    off
                } else {
                    n as int
                }
            },
    {
        let at: u128 = self.index_at(t);
        let off: u128 = at - first as u128;
        if off < n as u128 {
            off as usize
        } else {
            n
        }
    }

    /// Answers a range query over `[start_time, end_time)` with buckets
    /// `unit_time` wide, from a window of the file's bytes.
    ///
    /// `window` holds the bytes of the file from `byte_offset` on, as
    /// `plan_range` gives it for the same query; `byte_len` bytes are enough.
    /// A bucket in which the window holds no record has the value zero.
    pub fn get_range_value(
        &self,
        start_time: i64,
        end_time: i64,
        unit_time: i64,
        window: &[u8],
    ) -> (result: Result<RangeQueryResult, StoreError>)
        ensures
            match result {
                Ok(answer) => range_query(
                    self.header(),
                    window@,
                    start_time as int,
                    end_time as int,
                    unit_time as int,
                ) == Ok::<RangeModel, StoreError>(answer@),
                Err(e) => range_query(
                    self.header(),
                    window@,
                    start_time as int,
                    end_time as int,
                    unit_time as int,
                ) == Err::<RangeModel, StoreError>(e),
            },
    {
        proof {
            use_type_invariant(self);
        }
        let plan = match self.plan_range(start_time, end_time, unit_time) {
            Ok(plan) => plan,
            Err(e) => {
                return Err(e);
            },
        };
        let header = self.header;
        let first: u64 = plan.first_record;
        let width: i64 = plan.unit_time;
        let steps: u64 = plan.steps;
        let held: usize = window.len() / 8;
        let left: u64 = header.amount - first;
        let n: usize = if (held as u64) < left {
            held
        } else {
            left as usize
        };
        let ghost records = window_records(header, first as int, window@);
        let mut values: Vec<i64> = Vec::new();
        let mut k: u64 = 0;
        while k < steps
            invariant
                header == self.header(),
                header.valid(),
                header.begin_time <= start_time,
                width >= 1,
                start_time + steps * width <= i64::MAX,
                first == first_record_at(header, start_time as int),
                records == window_records(header, first as int, window@),
                n == records.len(),
                n * 8 <= window.len(),
                k <= steps,
                values@.len() == k,
                forall|i: int|
                    0 <= i < k ==> values@[i] as int == bucket_value(
                        header,
                        first as int,
                        records,
                        start_time as int,
                        width as int,
                        i,
                    ),
            decreases steps - k,
        {
            assert(0 <= k * width && (k + 1) * width <= steps * width && (k + 1) * width == k
                * width + width) by (nonlinear_arith)
                requires
                    0 <= k < steps,
                    width >= 1,
            ;
            let lo: i128 = start_time as i128 + (k as i128) * (width as i128);
            let hi: i128 = lo + width as i128;
            proof {
                let d = header.native_interval as int;
                let at_lo = ceil_div(lo - header.begin_time, d);
                let at_hi = ceil_div(hi - header.begin_time, d);
                lemma_index_at(header, lo as int, at_lo);
                lemma_index_at(header, start_time as int, at_lo);
                lemma_index_at(header, hi as int, at_hi);
                lemma_index_at(header, lo as int, at_hi);
                assert(first <= at_lo <= at_hi);
            }
            let ja: usize = self.window_index(first, n, lo);
            let jb: usize = self.window_index(first, n, hi);
            let mut sum: i128 = 0;
            let mut j: usize = ja;
            while j < jb
                invariant
                    ja <= j <= jb <= n,
                    n == records.len(),
                    n * 8 <= window.len(),
                    records == window_records(header, first as int, window@),
                    sum == range_sum(records, ja as int, j as int),
                    (j - ja) * i64::MIN <= sum <= (j - ja) * i64::MAX,
                decreases jb - j,
            {
                let value: i64 = read_i64(window, j * 8);
                sum = sum + value as i128;
                j = j + 1;
            }
            proof {
                let d = header.native_interval as int;
                let a = ceil_div(lo - header.begin_time, d) - first;
                let b = ceil_div(hi - header.begin_time, d) - first;
                assert forall|i: int| 0 <= i < n implies (#[trigger] in_span(
                    header,
                    first as int,
                    i,
                    lo as int,
                    hi as int,
                ) <==> a <= i < b) by {
                    lemma_index_at(header, lo as int, first + i);
                    lemma_index_at(header, hi as int, first + i);
                }
                lemma_span_is_range(
                    header,
                    first as int,
                    records,
                    lo as int,
                    hi as int,
                    a,
                    b,
                    n as nat,
                );
            }
            let value: i64 = mean_of(sum, jb - ja);
            values.push(value);
            k = k + 1;
        }
        let answer = RangeQueryResult {
            begin_time: plan.begin_time,
            end_time: plan.end_time,
            unit_time: width,
            steps,
            values,
        };
        proof {
            let model = range_query(
                self.header(),
                window@,
                start_time as int,
                end_time as int,
                unit_time as int,
            );
            assert(model->Ok_0.values =~= answer@.values);
        }
        Ok(answer)
    }
}

/// The number of records, among the first `n` of a window that starts at
/// record `first`, that fall into one of the first `steps` buckets of a
/// query that starts at `start` with buckets `unit` wide.
pub open spec fn records_covered(
    header: TimeSeriesHeader,
    first: int,
    n: nat,
    start: int,
    unit: int,
    steps: nat,
) -> int
    decreases steps,
{
    if steps == 0 {
        0
    } else {
        records_covered(header, first, n, start, unit, (steps - 1) as nat) + span_count(
            header,
            first,
            start + (steps - 1) * unit,
            start + (steps - 1) * unit + unit,
            n,
        )
    }
}

/// A query that succeeds has as many buckets as its range divided by the
/// bucket width, rounded up, and its answer spans exactly that many widths:
/// it ends at or after the requested end, less than one width after it.
/// The width is the requested one unless that is narrower than the file's
/// interval.
pub proof fn lemma_steps_cover_range(
    header: TimeSeriesHeader,
    window: Seq<u8>,
    start: int,
    end: int,
    unit: int,
)
    requires
        header.valid(),
        range_query(header, window, start, end, unit) is Ok,
    ensures
        ({
            let answer = range_query(header, window, start, end, unit)->Ok_0;
            &&& unit >= header.native_interval ==> answer.unit_time == unit
            &&& answer.unit_time >= header.native_interval
            &&& answer.steps == ceil_div(end - start, answer.unit_time)
            &&& answer.steps >= 1
            &&& (answer.steps - 1) * answer.unit_time < end - start <= answer.steps
                * answer.unit_time
            &&& answer.begin_time == start
            &&& answer.end_time - answer.begin_time == answer.steps * answer.unit_time
            &&& end <= answer.end_time < end + answer.unit_time
            &&& answer.values.len() == answer.steps
        }),
{
    let width = effective_unit(header, unit);
    lemma_ceil_div(end - start, width);
    let steps = ceil_div(end - start, width);
    assert((steps - 1) * width == steps * width - width) by (nonlinear_arith);
}

/// A bucket width narrower than the file's interval is answered exactly as
/// the file's interval is.
pub proof fn lemma_fine_unit_is_clamped(
    header: TimeSeriesHeader,
    window: Seq<u8>,
    start: int,
    end: int,
    unit: int,
)
    requires
        unit < header.native_interval,
    ensures
        range_query(header, window, start, end, unit) == range_query(
            header,
            window,
            start,
            end,
            header.native_interval as int,
        ),
        range_plan(header, start, end, unit) == range_plan(
            header,
            start,
            end,
            header.native_interval as int,
        ),
{
}

/// At the file's own interval, bucket `k` of a query that starts where the
/// file does holds record `k` and no other.
pub proof fn lemma_native_bucket_is_one_record(
    header: TimeSeriesHeader,
    records: Seq<int>,
    k: int,
)
    requires
        header.valid(),
        records.len() == header.amount,
        0 <= k < header.amount,
    ensures
        span_count(
            header,
            0,
            header.begin_time + k * header.native_interval,
            header.begin_time + k * header.native_interval + header.native_interval,
            records.len(),
        ) == 1,
        bucket_value(
            header,
            0,
            records,
            header.begin_time as int,
            header.native_interval as int,
            k,
        ) == records[k],
{
    let d = header.native_interval as int;
    let lo = header.begin_time + k * d;
    let hi = lo + d;
    assert forall|j: int| 0 <= j < records.len() implies (#[trigger] in_span(header, 0, j, lo, hi)
        <==> k <= j < k + 1) by {
        assert(k * d <= j * d <==> k <= j) by (nonlinear_arith)
            requires
                d >= 1,
        ;
        assert(j * d < k * d + d <==> j < k + 1) by (nonlinear_arith)
            requires
                d >= 1,
        ;
    }
    lemma_span_is_range(header, 0, records, lo, hi, k, k + 1, records.len());
    reveal_with_fuel(range_sum, 2);
}

/// The buckets `[0, steps)` of a query at the file's own interval, from
/// where the file starts, cover `steps` records.
pub proof fn lemma_native_buckets_cover(header: TimeSeriesHeader, records: Seq<int>, steps: nat)
    requires
        header.valid(),
        records.len() == header.amount,
        steps <= header.amount,
    ensures
        records_covered(
            header,
            0,
            records.len(),
            header.begin_time as int,
            header.native_interval as int,
            steps,
        ) == steps,
    decreases steps,
{
    if steps > 0 {
        lemma_native_buckets_cover(header, records, (steps - 1) as nat);
        lemma_native_bucket_is_one_record(header, records, steps - 1);
    }
}

/// Querying the whole file at its own interval gives one bucket per record:
/// there are `amount` buckets, bucket `k` has the value of record `k`, and
/// the records that the buckets cover are `amount` in number.
pub proof fn lemma_full_range_counts_every_record(header: TimeSeriesHeader, window: Seq<u8>)
    requires
        header.valid(),
        1 <= header.amount <= usize::MAX,
        window.len() >= header.amount * RECORD_SIZE,
    ensures
        ({
            let interval = header.native_interval as int;
            let result = range_query(
                header,
                window,
                header.begin_time as int,
                header.end_time(),
                interval,
            );
            let records = window_records(header, 0, window);
            &&& result is Ok
            &&& result->Ok_0.steps == header.amount
            &&& result->Ok_0.unit_time == interval
            &&& result->Ok_0.end_time == header.end_time()
            &&& records.len() == header.amount
            &&& forall|k: int|
                0 <= k < header.amount ==> #[trigger] result->Ok_0.values[k] == records[k]
            &&& records_covered(
                header,
                0,
                records.len(),
                header.begin_time as int,
                interval,
                header.amount as nat,
            ) == header.amount
        }),
{
    let d = header.native_interval as int;
    let n = header.amount as int;
    let start = header.begin_time as int;
    assert(n * d >= d && (n * d + d - 1) / d == n && (0 + d - 1) / d == 0) by (nonlinear_arith)
        requires
            n >= 1,
            d >= 1,
    ;
    let records = window_records(header, 0, window);
    assert forall|k: int| 0 <= k < n implies bucket_value(header, 0, records, start, d, k)
        == records[k] by {
        lemma_native_bucket_is_one_record(header, records, k);
    }
    lemma_native_buckets_cover(header, records, n as nat);
}

/// Two windows that agree on their first `n` records have the same sum
/// over any span of those.
pub proof fn lemma_span_sum_of_equal_records(
    header: TimeSeriesHeader,
    first: int,
    one: Seq<int>,
    other: Seq<int>,
    lo: int,
    hi: int,
    n: nat,
)
    requires
        forall|j: int| 0 <= j < n ==> one[j] == other[j],
    ensures
        span_sum(header, first, one, lo, hi, n) == span_sum(header, first, other, lo, hi, n),
    decreases n,
{
    if n > 0 {
        lemma_span_sum_of_equal_records(header, first, one, other, lo, hi, (n - 1) as nat);
    }
}

/// Records that lie outside a span add nothing to it: where none of the
/// records at positions `[m, n)` was sampled in `[lo, hi)`, the first `n`
/// records have the sum and the count of the first `m`.
pub proof fn lemma_span_without_tail(
    header: TimeSeriesHeader,
    first: int,
    records: Seq<int>,
    lo: int,
    hi: int,
    m: nat,
    n: nat,
)
    requires
        m <= n,
        forall|j: int| m <= j < n ==> !#[trigger] in_span(header, first, j, lo, hi),
    ensures
        span_sum(header, first, records, lo, hi, n) == span_sum(header, first, records, lo, hi, m),
        span_count(header, first, lo, hi, n) == span_count(header, first, lo, hi, m),
    decreases n,
{
    if n > m {
        lemma_span_without_tail(header, first, records, lo, hi, m, (n - 1) as nat);
    }
}

/// The bytes that `plan_range` asks for are enough: a window that holds
/// more than `byte_len` bytes is answered as its first `byte_len` bytes are.
pub proof fn lemma_planned_window_is_enough(
    header: TimeSeriesHeader,
    window: Seq<u8>,
    start: int,
    end: int,
    unit: int,
)
    requires
        header.valid(),
        range_plan(header, start, end, unit) is Ok,
        window.len() >= range_plan(header, start, end, unit)->Ok_0.byte_len,
    ensures
        range_query(header, window, start, end, unit) == range_query(
            header,
            window.take(range_plan(header, start, end, unit)->Ok_0.byte_len as int),
            start,
            end,
            unit,
        ),
{
    let plan = range_plan(header, start, end, unit)->Ok_0;
    let width = effective_unit(header, unit);
    let steps = ceil_div(end - start, width);
    let stop = start + steps * width;
    let d = header.native_interval as int;
    lemma_ceil_div(end - start, width);
    assert(steps * width >= width) by (nonlinear_arith)
        requires
            steps >= 1,
            width >= 1,
    ;
    let first = first_record_at(header, start);
    let last = first_record_at(header, stop);
    lemma_index_at(header, start, ceil_div(stop - header.begin_time, d));
    lemma_index_at(header, stop, ceil_div(stop - header.begin_time, d));
    assert((last - first) * 8 <= header.amount * 8) by (nonlinear_arith)
        requires
            0 <= first <= last <= header.amount,
    ;
    let count = last - first;
    let short = window.take(plan.byte_len as int);
    let all = window_records(header, first, window);
    let planned = window_records(header, first, short);
    assert forall|j: int| 0 <= j < count implies all[j] == planned[j] by {
        assert(short.subrange(8 * j, 8 * j + 8) =~= window.subrange(8 * j, 8 * j + 8));
    }
    assert forall|k: int| 0 <= k < steps implies bucket_value(header, first, all, start, width, k)
        == bucket_value(header, first, planned, start, width, k) by {
        let lo = start + k * width;
        let hi = lo + width;
        assert(k * width + width <= steps * width) by (nonlinear_arith)
            requires
                0 <= k < steps,
                width >= 1,
        ;
        assert forall|j: int| count <= j < all.len() implies !#[trigger] in_span(
            header,
            first,
            j,
            lo,
            hi,
        ) by {
            lemma_index_at(header, stop, first + j);
        }
        lemma_span_without_tail(header, first, all, lo, hi, count as nat, all.len());
        lemma_span_sum_of_equal_records(header, first, all, planned, lo, hi, count as nat);
    }
    let one = range_query(header, window, start, end, unit)->Ok_0;
    let other = range_query(header, short, start, end, unit)->Ok_0;
    assert(one.values =~= other.values);
}

} // verus!
