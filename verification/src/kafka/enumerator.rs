//! Which part of a Kafka topic is read: one split for each partition.

use std::collections::HashMap;

use vstd::prelude::*;
use vstd::string::*;

use crate::util::id_map::{opt_view, views};
use crate::util::outside::{lower_case, to_lowercase};

verus! {

/// Where reading starts or stops.
#[derive(Debug, Copy, Clone, Eq, PartialEq, Structural)]
pub enum KafkaEnumeratorOffset {
    Earliest,
    Latest,
    Timestamp(i64),
    /// Nowhere in particular.
    Unset,
}

/// Why a text does not stand for a 64-bit number.
#[derive(Debug, Clone, Copy, PartialEq, Eq, Structural)]
pub enum NumberFault {
    Empty,
    InvalidDigit,
    TooLarge,
    TooSmall,
}

impl NumberFault {
    /// The words of the fault.
    pub open spec fn words(self) -> Seq<char> {
        match self {
            NumberFault::Empty => "cannot parse integer from empty string"@,
            NumberFault::InvalidDigit => "invalid digit found in string"@,
            NumberFault::TooLarge => "number too large to fit in target type"@,
            NumberFault::TooSmall => "number too small to fit in target type"@,
        }
    }

    fn text(&self) -> (r: &'static str)
        ensures
            r@ == self.words(),
    {
        match self {
            NumberFault::Empty => "cannot parse integer from empty string",
            NumberFault::InvalidDigit => "invalid digit found in string",
            NumberFault::TooLarge => "number too large to fit in target type",
            NumberFault::TooSmall => "number too small to fit in target type",
        }
    }
}

/// Why splits cannot be listed.
#[derive(Debug, PartialEq, Eq)]
pub enum KafkaError {
    /// The startup mode is neither of the known ones.
    ScanStartupMode,
    /// The time offset is not a number.
    TimeOffset(NumberFault),
    /// There is no such topic, or it has no partition.
    TopicNotFound(String),
}

/// The mathematical model of [`KafkaError`].
#[verifier::ext_equal]
pub enum KafkaErrorModel {
    ScanStartupMode,
    TimeOffset(NumberFault),
    TopicNotFound(Seq<char>),
}

impl View for KafkaError {
    type V = KafkaErrorModel;

    open spec fn view(&self) -> KafkaErrorModel {
        match *self {
            KafkaError::ScanStartupMode => KafkaErrorModel::ScanStartupMode,
            KafkaError::TimeOffset(fault) => KafkaErrorModel::TimeOffset(fault),
            KafkaError::TopicNotFound(s) => KafkaErrorModel::TopicNotFound(s@),
        }
    }
}

impl KafkaErrorModel {
    /// The words of the error.
    pub open spec fn message(self) -> Seq<char> {
        match self {
            KafkaErrorModel::ScanStartupMode =>
                "properties `scan_startup_mode` only supports earliest and latest or leaving it empty"@,
            KafkaErrorModel::TimeOffset(fault) => fault.words(),
            KafkaErrorModel::TopicNotFound(s) => "topic "@ + s + " not found"@,
        }
    }
}

impl KafkaError {
    /// The words of the error.
    pub fn message(&self) -> (r: String)
        ensures
            r@ == self@.message(),
    {
        let mut r = String::new();
        match self {
            KafkaError::ScanStartupMode => {
                r.append(
                    "properties `scan_startup_mode` only supports earliest and latest or leaving it empty",
                );
            },
            KafkaError::TimeOffset(fault) => {
                r.append(fault.text());
            },
            KafkaError::TopicNotFound(s) => {
                r.append("topic ");
                r.append(s.as_str());
                r.append(" not found");
            },
        }
        assert(r@ =~= self@.message());
        r
    }
}

/// A part of a topic: a partition, with the offset behind which reading starts and the one at
/// which it stops.
#[derive(Debug, PartialEq, Eq)]
pub struct KafkaSplit {
    pub topic: String,
    pub partition: i32,
    pub start_offset: Option<i64>,
    pub stop_offset: Option<i64>,
    pub hack_seek_to_latest: bool,
}

/// The mathematical model of [`KafkaSplit`].
#[verifier::ext_equal]
pub struct KafkaSplitModel {
    pub topic: Seq<char>,
    pub partition: i32,
    pub start_offset: Option<i64>,
    pub stop_offset: Option<i64>,
    pub hack_seek_to_latest: bool,
}

impl View for KafkaSplit {
    type V = KafkaSplitModel;

    open spec fn view(&self) -> KafkaSplitModel {
        KafkaSplitModel {
            topic: self.topic@,
            partition: self.partition,
            start_offset: self.start_offset,
            stop_offset: self.stop_offset,
            hack_seek_to_latest: self.hack_seek_to_latest,
        }
    }
}

/// Lists the splits of a topic.
#[derive(Debug, PartialEq, Eq)]
pub struct KafkaSplitEnumerator {
    pub broker_address: String,
    pub topic: String,
    pub start_offset: KafkaEnumeratorOffset,
    /// maybe used in the future for batch processing
    pub stop_offset: KafkaEnumeratorOffset,
}

/// The mathematical model of [`KafkaSplitEnumerator`].
#[verifier::ext_equal]
pub struct KafkaSplitEnumeratorModel {
    pub broker_address: Seq<char>,
    pub topic: Seq<char>,
    pub start_offset: KafkaEnumeratorOffset,
    pub stop_offset: KafkaEnumeratorOffset,
}

impl View for KafkaSplitEnumerator {
    type V = KafkaSplitEnumeratorModel;

    open spec fn view(&self) -> KafkaSplitEnumeratorModel {
        KafkaSplitEnumeratorModel {
            broker_address: self.broker_address@,
            topic: self.topic@,
            start_offset: self.start_offset,
            stop_offset: self.stop_offset,
        }
    }
}

// ---------------------------------------------------------------------------
// Numbers in text.
// ---------------------------------------------------------------------------

/// The value of a decimal digit.
pub open spec fn digit_value(c: char) -> Option<nat> {
    if '0' <= c && c <= '9' {
        Some((c as int - '0' as int) as nat)
    } else {
        None
    }
}

/// The number that the digits in `q` stand for, where all of them are digits.
pub open spec fn digits_value(q: Seq<char>) -> Option<nat>
    decreases q.len(),
{
    if q.len() == 0 {
        Some(0)
    } else {
        match (digits_value(q.drop_last()), digit_value(q.last())) {
            (Some(n), Some(d)) => Some(n * 10 + d),
            _ => None,
        }
    }
}

/// The digits behind the sign.
pub open spec fn unsigned_part(s: Seq<char>) -> Seq<char> {
    if s.len() > 0 && (s[0] == '-' || s[0] == '+') {
        s.skip(1)
    } else {
        s
    }
}

/// The number that a text stands for: digits, with a sign before them or not.
pub open spec fn number_in(s: Seq<char>) -> Option<int> {
    let digits = unsigned_part(s);
    if digits.len() == 0 {
        None
    } else {
        match digits_value(digits) {
            Some(n) => if s[0] == '-' {
                Some(-(n as int))
            } else {
                Some(n as int)
            },
            None => None,
        }
    }
}

/// The largest 64-bit number with the sign of the text, without its sign.
pub open spec fn magnitude_limit(s: Seq<char>) -> nat {
    if s[0] == '-' {
        0x8000_0000_0000_0000
    } else {
        0x7fff_ffff_ffff_ffff
    }
}

/// Some of the leading digits stand for a number beyond the limit.
pub open spec fn runs_past(digits: Seq<char>, limit: nat) -> bool {
    exists|k: int|
        0 <= k <= digits.len() && digits_value(#[trigger] digits.take(k)) is Some && digits_value(
            digits.take(k),
        )->0 > limit
}

/// The 64-bit number that a text stands for, or the first fault in it.
pub open spec fn i64_in(s: Seq<char>) -> Result<i64, NumberFault> {
    let digits = unsigned_part(s);
    if s.len() == 0 {
        Err(NumberFault::Empty)
    } else if digits.len() == 0 {
        Err(NumberFault::InvalidDigit)
    } else if runs_past(digits, magnitude_limit(s)) {
        Err(
            if s[0] == '-' {
                NumberFault::TooSmall
            } else {
                NumberFault::TooLarge
            },
        )
    } else {
        match number_in(s) {
            Some(n) => Ok(n as i64),
            None => Err(NumberFault::InvalidDigit),
        }
    }
}

/// Once a list of characters is no number, or too large a one, so is every longer one.
proof fn lemma_digits_grow(q: Seq<char>, k: int)
    requires
        0 <= k <= q.len(),
    ensures
        digits_value(q.take(k)) is None ==> digits_value(q) is None,
        digits_value(q.take(k)) is Some && digits_value(q) is Some ==> digits_value(q.take(k))->0
            <= digits_value(q)->0,
    decreases q.len() - k,
{
    if k < q.len() {
        assert(q.take(k + 1).drop_last() =~= q.take(k));
        lemma_digits_grow(q, k + 1);
    } else {
        assert(q.take(k) =~= q);
    }
}

fn parse_i64(s: &String) -> (r: Result<i64, NumberFault>)
    ensures
        r == i64_in(s@),
{
    let len: usize = s.as_str().unicode_len();
    if len == 0 {
        return Err(NumberFault::Empty);
    }
    let first = s.as_str().get_char(0);
    let negative = first == '-';
    let start: usize = if first == '-' || first == '+' {
        1
    } else {
        0
    };
    let limit: i128 = if negative {
        0x8000_0000_0000_0000
    } else {
        0x7fff_ffff_ffff_ffff
    };
    let ghost digits = unsigned_part(s@);
    if start == len {
        assert(digits.len() == 0);
        return Err(NumberFault::InvalidDigit);
    }
    let mut n: i128 = 0;
    let mut i: usize = start;
    assert(digits.take(0) =~= Seq::empty());
    while i < len
        invariant
            start <= i <= len,
            len == s@.len(),
            start == 0 || start == 1,
            digits == s@.skip(start as int),
            digits.len() > 0,
            digits == unsigned_part(s@),
            negative == (s@[0] == '-'),
            limit == magnitude_limit(s@),
            digits_value(digits.take(i - start)) == Some(n as nat),
            0 <= n <= limit,
            limit <= 0x8000_0000_0000_0000,
            forall|k: int|
                0 <= k <= i - start && digits_value(#[trigger] digits.take(k)) is Some
                    ==> digits_value(digits.take(k))->0 <= limit,
        decreases len - i,
    {
        let c = s.as_str().get_char(i);
        let ghost p = i - start + 1;
        proof {
            assert(digits.take(p).drop_last() =~= digits.take(p - 1));
            assert(digits.take(p).last() == c);
        }
        if c < '0' || c > '9' {
            proof {
                assert forall|k: int| p <= k <= digits.len() implies digits_value(
                    #[trigger] digits.take(k),
                ) is None by {
                    assert(digits.take(k).take(p) =~= digits.take(p));
                    lemma_digits_grow(digits.take(k), p);
                }
                assert(digits.take(digits.len() as int) =~= digits);
            }
            return Err(NumberFault::InvalidDigit);
        }
        let d: i128 = (c as u32 - '0' as u32) as i128;
        n = n * 10 + d;
        if n > limit {
            assert(digits_value(digits.take(p))->0 > limit);
            return Err(
                if negative {
                    NumberFault::TooSmall
                } else {
                    NumberFault::TooLarge
                },
            );
        }
        i = i + 1;
    }
    assert(digits.take(i - start) =~= digits);
    if negative {
        Ok((-n) as i64)
    } else {
        Ok(n as i64)
    }
}

// ---------------------------------------------------------------------------
// Where reading starts.
// ---------------------------------------------------------------------------

/// Where reading starts for a startup mode in lower case.
pub open spec fn mode_offset(mode: Option<Seq<char>>) -> Result<KafkaEnumeratorOffset, KafkaErrorModel> {
    match mode {
        None => Ok(KafkaEnumeratorOffset::Earliest),
        Some(mode) => if mode == "earliest"@ {
            Ok(KafkaEnumeratorOffset::Earliest)
        } else if mode == "latest"@ {
            Ok(KafkaEnumeratorOffset::Latest)
        } else {
            Err(KafkaErrorModel::ScanStartupMode)
        },
    }
}

/// Where reading starts: at the time offset where there is one, else as the startup mode, which
/// is in lower case, tells. A mode that is not known is refused either way.
pub open spec fn start_of(mode: Option<Seq<char>>, time_offset: Option<Seq<char>>) -> Result<
    KafkaEnumeratorOffset,
    KafkaErrorModel,
> {
    match mode_offset(mode) {
        Err(e) => Err(e),
        Ok(offset) => match time_offset {
            None => Ok(offset),
            Some(s) => match i64_in(s) {
                Ok(time) => Ok(KafkaEnumeratorOffset::Timestamp(time)),
                Err(fault) => Err(KafkaErrorModel::TimeOffset(fault)),
            },
        },
    }
}

/// Where reading starts, for a startup mode in lower case.
pub fn scan_start_offset(mode: &Option<String>, time_offset: &Option<String>) -> (r: Result<
    KafkaEnumeratorOffset,
    KafkaError,
>)
    ensures
        match start_of(opt_view(*mode), opt_view(*time_offset)) {
            Ok(offset) => r is Ok && r->Ok_0 == offset,
            Err(e) => r is Err && r->Err_0@ == e,
        },
{
    let offset = match mode {
        Some(mode) => if *mode == String::from_str("earliest") {
            KafkaEnumeratorOffset::Earliest
        } else if *mode == String::from_str("latest") {
            KafkaEnumeratorOffset::Latest
        } else {
            return Err(KafkaError::ScanStartupMode);
        },
        None => KafkaEnumeratorOffset::Earliest,
    };
    match time_offset {
        Some(s) => match parse_i64(s) {
            Ok(time) => Ok(KafkaEnumeratorOffset::Timestamp(time)),
            Err(fault) => Err(KafkaError::TimeOffset(fault)),
        },
        None => Ok(offset),
    }
}

/// The mode in lower case.
pub open spec fn lower_mode(mode: Option<Seq<char>>) -> Option<Seq<char>> {
    match mode {
        Some(mode) => Some(lower_case(mode)),
        None => None,
    }
}

impl KafkaSplitEnumerator {
    pub fn new(
        brokers: String,
        topic: String,
        scan_startup_mode: &Option<String>,
        time_offset: &Option<String>,
    ) -> (r: Result<KafkaSplitEnumerator, KafkaError>)
        ensures
            match start_of(lower_mode(opt_view(*scan_startup_mode)), opt_view(*time_offset)) {
                Ok(start_offset) => r is Ok && r->Ok_0@ == (KafkaSplitEnumeratorModel {
                    broker_address: brokers@,
                    topic: topic@,
                    start_offset,
                    stop_offset: KafkaEnumeratorOffset::Unset,
                }),
                Err(e) => r is Err && r->Err_0@ == e,
            },
    {
        let mode = match scan_startup_mode {
            Some(mode) => Some(to_lowercase(mode)),
            None => None,
        };
        match scan_start_offset(&mode, time_offset) {
            Ok(start_offset) => Ok(
                KafkaSplitEnumerator {
                    broker_address: brokers,
                    topic,
                    start_offset,
                    stop_offset: KafkaEnumeratorOffset::Unset,
                },
            ),
            Err(e) => Err(e),
        }
    }

    /// The partitions of the topic, out of what was told of the topics with its name.
    pub fn fetch_topic_partition(&self, topics: &Vec<Vec<i32>>) -> (r: Result<Vec<i32>, KafkaError>)
        ensures
            if topics@.len() == 1 && topics@[0]@.len() > 0 {
                r is Ok && r->Ok_0@ == topics@[0]@
            } else {
                r is Err && r->Err_0@ == KafkaErrorModel::TopicNotFound(self@.topic)
            },
    {
        if topics.len() != 1 || topics[0].len() == 0 {
            return Err(KafkaError::TopicNotFound(self.topic.clone()));
        }
        Ok(crate::util::id_map::copy_all(&topics[0]))
    }
}

// ---------------------------------------------------------------------------
// Offsets of a time.
// ---------------------------------------------------------------------------

/// What was told of a partition when it was asked for the offset of a time: the offset, where
/// there is one, and else its high watermark.
#[derive(Debug, Clone, Copy, PartialEq, Eq, Structural)]
pub struct TimeOffset {
    pub partition: i32,
    pub offset: Option<i64>,
    pub high_watermark: i64,
}

/// The last consumed offset that stands for a time: the one before that of the time, or the high
/// watermark.
pub open spec fn consumed_offset(t: TimeOffset) -> i64 {
    match t.offset {
        Some(offset) => (offset - 1) as i64,
        None => t.high_watermark,
    }
}

/// The offsets of a time, by their partitions.
pub open spec fn offsets_for_time(q: Seq<TimeOffset>) -> Map<i32, Option<i64>>
    decreases q.len(),
{
    if q.len() == 0 {
        Map::empty()
    } else {
        offsets_for_time(q.drop_last()).insert(q.last().partition, Some(consumed_offset(q.last())))
    }
}

/// The offsets of a time, by their partitions. Currently, an offset means the last consumed one,
/// so one is subtracted.
pub fn fetch_offset_for_time(elements: &Vec<TimeOffset>) -> (r: HashMap<i32, Option<i64>>)
    requires
        forall|i: int|
            0 <= i < elements@.len() && (#[trigger] elements@[i]).offset is Some
                ==> elements@[i].offset->0 > i64::MIN,
    ensures
        r@ == offsets_for_time(elements@),
{
    let mut r: HashMap<i32, Option<i64>> = HashMap::new();
    let mut i: usize = 0;
    assert(elements@.take(0) =~= Seq::empty());
    while i < elements.len()
        invariant
            i <= elements.len(),
            forall|i: int|
                0 <= i < elements@.len() && (#[trigger] elements@[i]).offset is Some
                    ==> elements@[i].offset->0 > i64::MIN,
            r@ == offsets_for_time(elements@.take(i as int)),
        decreases elements.len() - i,
    {
        let t = elements[i];
        proof {
            assert(elements@.take(i + 1).drop_last() =~= elements@.take(i as int));
            assert(elements@.take(i + 1).last() == t);
        }
        let offset: i64 = match t.offset {
            Some(offset) => offset - 1,
            None => t.high_watermark,
        };
        r.insert(t.partition, Some(offset));
        i = i + 1;
    }
    assert(elements@.take(i as int) =~= elements@);
    r
}

// ---------------------------------------------------------------------------
// Splits for a stream.
// ---------------------------------------------------------------------------

/// The offset behind which reading of a partition starts. `at_time` holds the offsets of the time
/// at which it starts, where it starts at one.
pub open spec fn start_for(
    start: KafkaEnumeratorOffset,
    watermark: (i64, i64),
    at_time: Option<i64>,
) -> Option<i64> {
    match start {
        KafkaEnumeratorOffset::Earliest => Some((watermark.0 - 1) as i64),
        KafkaEnumeratorOffset::Latest => Some((watermark.1 - 1) as i64),
        KafkaEnumeratorOffset::Timestamp(_) => at_time,
        KafkaEnumeratorOffset::Unset => None,
    }
}

/// The offset at which reading of a partition stops.
pub open spec fn stop_for(
    stop: KafkaEnumeratorOffset,
    watermark: (i64, i64),
    at_time: Option<i64>,
) -> Option<i64> {
    match stop {
        KafkaEnumeratorOffset::Latest => Some(watermark.1),
        KafkaEnumeratorOffset::Timestamp(_) => at_time,
        _ => None,
    }
}

/// What listing the split of one partition presumes.
pub open spec fn partition_presumes(
    e: KafkaSplitEnumeratorModel,
    p: i32,
    watermarks: Map<i32, (i64, i64)>,
    start_times: Map<i32, Option<i64>>,
    stop_times: Map<i32, Option<i64>>,
) -> bool {
    &&& watermarks.contains_key(p)
    &&& e.start_offset is Earliest ==> watermarks[p].0 > i64::MIN
    &&& e.start_offset is Latest ==> watermarks[p].1 > i64::MIN
    &&& e.start_offset is Timestamp ==> start_times.contains_key(p)
    &&& e.stop_offset is Timestamp ==> stop_times.contains_key(p)
}

/// What listing the splits presumes: of each partition the watermarks are known, and the offset
/// of a time at which reading starts or stops; reading does not stop at the earliest offset.
pub open spec fn listing_presumes(
    e: KafkaSplitEnumeratorModel,
    partitions: Seq<i32>,
    watermarks: Map<i32, (i64, i64)>,
    start_times: Map<i32, Option<i64>>,
    stop_times: Map<i32, Option<i64>>,
) -> bool {
    &&& partitions.no_duplicates()
    &&& e.stop_offset != KafkaEnumeratorOffset::Earliest
    &&& forall|i: int|
        0 <= i < partitions.len() ==> partition_presumes(
            e,
            #[trigger] partitions[i],
            watermarks,
            start_times,
            stop_times,
        )
}

/// The split of a partition.
pub open spec fn split_of(
    e: KafkaSplitEnumeratorModel,
    p: i32,
    watermarks: Map<i32, (i64, i64)>,
    start_times: Map<i32, Option<i64>>,
    stop_times: Map<i32, Option<i64>>,
) -> KafkaSplitModel {
    KafkaSplitModel {
        topic: e.topic,
        partition: p,
        start_offset: start_for(e.start_offset, watermarks[p], start_times[p]),
        stop_offset: stop_for(e.stop_offset, watermarks[p], stop_times[p]),
        hack_seek_to_latest: false,
    }
}

impl KafkaSplitEnumerator {
    fn fetch_start_offset(
        &self,
        partition: i32,
        watermarks: &HashMap<i32, (i64, i64)>,
        times: &HashMap<i32, Option<i64>>,
    ) -> (r: Option<i64>)
        requires
            watermarks@.contains_key(partition),
            self@.start_offset is Earliest ==> watermarks@[partition].0 > i64::MIN,
            self@.start_offset is Latest ==> watermarks@[partition].1 > i64::MIN,
            self@.start_offset is Timestamp ==> times@.contains_key(partition),
        ensures
            r == start_for(self@.start_offset, watermarks@[partition], times@[partition]),
    {
        let (low, high) = match watermarks.get(&partition) {
            Some(watermark) => *watermark,
            None => (1i64, 1i64),
        };
        match self.start_offset {
            KafkaEnumeratorOffset::Earliest => Some(low - 1),
            KafkaEnumeratorOffset::Latest => Some(high - 1),
            KafkaEnumeratorOffset::Timestamp(_) => match times.get(&partition) {
                Some(offset) => *offset,
                None => None,
            },
            KafkaEnumeratorOffset::Unset => None,
        }
    }

    fn fetch_stop_offset(
        &self,
        partition: i32,
        watermarks: &HashMap<i32, (i64, i64)>,
        times: &HashMap<i32, Option<i64>>,
    ) -> (r: Option<i64>)
        requires
            watermarks@.contains_key(partition),
            self@.stop_offset != KafkaEnumeratorOffset::Earliest,
            self@.stop_offset is Timestamp ==> times@.contains_key(partition),
        ensures
            r == stop_for(self@.stop_offset, watermarks@[partition], times@[partition]),
    {
        match self.stop_offset {
            KafkaEnumeratorOffset::Latest => match watermarks.get(&partition) {
                Some(watermark) => Some(watermark.1),
                None => None,
            },
            KafkaEnumeratorOffset::Timestamp(_) => match times.get(&partition) {
                Some(offset) => *offset,
                None => None,
            },
            _ => None,
        }
    }

    /// The splits of the topic: one for each partition, in the order of the partitions.
    pub fn list_splits(
        &self,
        topic_partitions: &Vec<i32>,
        watermarks: &HashMap<i32, (i64, i64)>,
        start_times: &HashMap<i32, Option<i64>>,
        stop_times: &HashMap<i32, Option<i64>>,
    ) -> (r: Vec<KafkaSplit>)
        requires
            listing_presumes(
                self@,
                topic_partitions@,
                watermarks@,
                start_times@,
                stop_times@,
            ),
        ensures
            views(r@) == Seq::new(
                topic_partitions@.len(),
                |i: int|
                    split_of(
                        self@,
                        topic_partitions@[i],
                        watermarks@,
                        start_times@,
                        stop_times@,
                    ),
            ),
    {
        let mut r: Vec<KafkaSplit> = Vec::new();
        let mut i: usize = 0;
        while i < topic_partitions.len()
            invariant
                i <= topic_partitions.len(),
                listing_presumes(
                    self@,
                    topic_partitions@,
                    watermarks@,
                    start_times@,
                    stop_times@,
                ),
                r@.len() == i,
                forall|k: int|
                    0 <= k < i ==> (#[trigger] r@[k])@ == split_of(
                        self@,
                        topic_partitions@[k],
                        watermarks@,
                        start_times@,
                        stop_times@,
                    ),
            decreases topic_partitions.len() - i,
        {
            let partition: i32 = topic_partitions[i];
            assert(topic_partitions@[i as int] == partition);
            r.push(
                KafkaSplit {
                    topic: self.topic.clone(),
                    partition,
                    start_offset: self.fetch_start_offset(partition, watermarks, start_times),
                    stop_offset: self.fetch_stop_offset(partition, watermarks, stop_times),
                    hack_seek_to_latest: false,
                },
            );
            i = i + 1;
        }
        assert(views(r@) =~= Seq::new(
            topic_partitions@.len(),
            |i: int|
                split_of(self@, topic_partitions@[i], watermarks@, start_times@, stop_times@),
        ));
        r
    }
}

// ---------------------------------------------------------------------------
// Splits for a batch.
// ---------------------------------------------------------------------------

/// The offset that is known of a partition at a time.
pub open spec fn known_offset(times: Option<Map<i32, Option<i64>>>, p: i32) -> Option<i64> {
    match times {
        Some(m) => if m.contains_key(p) {
            m[p]
        } else {
            None
        },
        None => None,
    }
}

/// Where a batch starts to read a partition: behind the one before the low watermark, or before
/// the offset of the time, whichever is later.
pub open spec fn batch_start(times: Option<Map<i32, Option<i64>>>, p: i32, watermark: (i64, i64)) -> int {
    let low = watermark.0 - 1;
    match known_offset(times, p) {
        Some(offset) => if offset - 1 > low {
            offset - 1
        } else {
            low
        },
        None => low,
    }
}

/// Where a batch stops to read a partition: at the high watermark, or at the offset of the time,
/// whichever is earlier.
pub open spec fn batch_stop(times: Option<Map<i32, Option<i64>>>, p: i32, watermark: (i64, i64)) -> int {
    let high = watermark.1 as int;
    match known_offset(times, p) {
        Some(offset) => if offset < high {
            offset as int
        } else {
            high
        },
        None => high,
    }
}

/// The split of a partition for a batch.
pub open spec fn batch_split(
    topic: Seq<char>,
    p: i32,
    watermarks: Map<i32, (i64, i64)>,
    start: Option<Map<i32, Option<i64>>>,
    stop: Option<Map<i32, Option<i64>>>,
) -> KafkaSplitModel {
    KafkaSplitModel {
        topic,
        partition: p,
        start_offset: Some(batch_start(start, p, watermarks[p]) as i64),
        stop_offset: Some(batch_stop(stop, p, watermarks[p]) as i64),
        hack_seek_to_latest: false,
    }
}

/// The view of the offsets of a time.
pub open spec fn times_view(times: Option<HashMap<i32, Option<i64>>>) -> Option<
    Map<i32, Option<i64>>,
> {
    match times {
        Some(m) => Some(m@),
        None => None,
    }
}

/// What listing the split of one partition for a batch presumes.
pub open spec fn batch_partition_presumes(
    p: i32,
    watermarks: Map<i32, (i64, i64)>,
    start: Option<Map<i32, Option<i64>>>,
) -> bool {
    &&& watermarks.contains_key(p)
    &&& watermarks[p].0 > i64::MIN
    &&& known_offset(start, p) is Some ==> known_offset(start, p)->0 > i64::MIN
}

/// What listing the splits for a batch presumes: the watermarks of each partition are known, and
/// no offset is the least number there is.
pub open spec fn batch_presumes(
    partitions: Seq<i32>,
    watermarks: Map<i32, (i64, i64)>,
    start: Option<Map<i32, Option<i64>>>,
) -> bool {
    &&& partitions.no_duplicates()
    &&& forall|i: int|
        0 <= i < partitions.len() ==> batch_partition_presumes(
            #[trigger] partitions[i],
            watermarks,
            start,
        )
}

fn lookup(times: &Option<HashMap<i32, Option<i64>>>, partition: i32) -> (r: Option<i64>)
    ensures
        r == known_offset(times_view(*times), partition),
{
    match times {
        Some(m) => match m.get(&partition) {
            Some(offset) => *offset,
            None => None,
        },
        None => None,
    }
}

impl KafkaSplitEnumerator {
    /// The splits of the topic for a batch: one for each partition, in the order of the
    /// partitions. If the timestamp is not given, the low watermark and high watermark are the
    /// start and end offset; if it is, the watermark narrows down the range.
    pub fn list_splits_batch(
        &self,
        topic_partitions: &Vec<i32>,
        expect_start_offset: &Option<HashMap<i32, Option<i64>>>,
        expect_stop_offset: &Option<HashMap<i32, Option<i64>>>,
        watermarks: &HashMap<i32, (i64, i64)>,
    ) -> (r: Vec<KafkaSplit>)
        requires
            batch_presumes(
                topic_partitions@,
                watermarks@,
                times_view(*expect_start_offset),
            ),
        ensures
            views(r@) == Seq::new(
                topic_partitions@.len(),
                |i: int|
                    batch_split(
                        self@.topic,
                        topic_partitions@[i],
                        watermarks@,
                        times_view(*expect_start_offset),
                        times_view(*expect_stop_offset),
                    ),
            ),
    {
        let ghost start = times_view(*expect_start_offset);
        let ghost stop = times_view(*expect_stop_offset);
        let mut r: Vec<KafkaSplit> = Vec::new();
        let mut i: usize = 0;
        while i < topic_partitions.len()
            invariant
                i <= topic_partitions.len(),
                start == times_view(*expect_start_offset),
                stop == times_view(*expect_stop_offset),
                batch_presumes(topic_partitions@, watermarks@, start),
                r@.len() == i,
                forall|k: int|
                    0 <= k < i ==> (#[trigger] r@[k])@ == batch_split(
                        self@.topic,
                        topic_partitions@[k],
                        watermarks@,
                        start,
                        stop,
                    ),
            decreases topic_partitions.len() - i,
        {
            let partition: i32 = topic_partitions[i];
            assert(topic_partitions@[i as int] == partition);
            let (low, high) = match watermarks.get(&partition) {
                Some(watermark) => (watermark.0 - 1, watermark.1),
                None => (0i64, 0i64),
            };
            let start_offset: i64 = match lookup(expect_start_offset, partition) {
                Some(offset) => if offset - 1 > low {
                    offset - 1
                } else {
                    low
                },
                None => low,
            };
            let stop_offset: i64 = match lookup(expect_stop_offset, partition) {
                Some(offset) => if offset < high {
                    offset
                } else {
                    high
                },
                None => high,
            };
            r.push(
                KafkaSplit {
                    topic: self.topic.clone(),
                    partition,
                    start_offset: Some(start_offset),
                    stop_offset: Some(stop_offset),
                    hack_seek_to_latest: false,
                },
            );
            i = i + 1;
        }
        assert(views(r@) =~= Seq::new(
            topic_partitions@.len(),
            |i: int| batch_split(self@.topic, topic_partitions@[i], watermarks@, start, stop),
        ));
        r
    }
}

/// A batch does not read outside the watermarks of a partition, whatever times were asked for, and
/// without times it reads all that is between them.
pub proof fn law_batch_within_watermarks(
    topic: Seq<char>,
    p: i32,
    watermarks: Map<i32, (i64, i64)>,
    start: Option<Map<i32, Option<i64>>>,
    stop: Option<Map<i32, Option<i64>>>,
)
    requires
        watermarks.contains_key(p),
        watermarks[p].0 > i64::MIN,
    ensures
        ({
            let s = batch_split(topic, p, watermarks, start, stop);
            &&& s.start_offset is Some && s.start_offset->0 >= watermarks[p].0 - 1
            &&& s.stop_offset is Some && s.stop_offset->0 <= watermarks[p].1
            &&& start is None ==> s.start_offset->0 == watermarks[p].0 - 1
            &&& stop is None ==> s.stop_offset->0 == watermarks[p].1
        }),
{
    match known_offset(start, p) {
        Some(offset) => {},
        None => {},
    }
}

/// A later start time, as long as its offset is not earlier, never makes a batch read more.
pub proof fn law_batch_start_grows(
    p: i32,
    watermark: (i64, i64),
    a: Map<i32, Option<i64>>,
    b: Map<i32, Option<i64>>,
)
    requires
        a.contains_key(p) && a[p] is Some,
        b.contains_key(p) && b[p] is Some,
        a[p]->0 <= b[p]->0,
    ensures
        batch_start(Some(a), p, watermark) <= batch_start(Some(b), p, watermark),
        batch_stop(Some(a), p, watermark) <= batch_stop(Some(b), p, watermark),
{
}

// ---------------------------------------------------------------------------
// Whether the splits can be listed.
// ---------------------------------------------------------------------------

/// Whether no partition is listed twice.
fn check_distinct(partitions: &Vec<i32>) -> (r: bool)
    ensures
        r == partitions@.no_duplicates(),
{
    let mut i: usize = 0;
    while i < partitions.len()
        invariant
            i <= partitions.len(),
            forall|a: int, b: int| 0 <= a < b < i ==> partitions@[a] != partitions@[b],
        decreases partitions.len() - i,
    {
        let mut j: usize = 0;
        while j < i
            invariant
                j <= i < partitions.len(),
                forall|a: int| 0 <= a < j ==> partitions@[a] != partitions@[i as int],
            decreases i - j,
        {
            if partitions[j] == partitions[i] {
                assert(partitions@[j as int] == partitions@[i as int]);
                return false;
            }
            j = j + 1;
        }
        i = i + 1;
    }
    true
}

impl KafkaSplitEnumerator {
    fn can_list_partition(
        &self,
        partition: i32,
        watermarks: &HashMap<i32, (i64, i64)>,
        start_times: &HashMap<i32, Option<i64>>,
        stop_times: &HashMap<i32, Option<i64>>,
    ) -> (r: bool)
        ensures
            r == partition_presumes(self@, partition, watermarks@, start_times@, stop_times@),
    {
        broadcast use vstd::std_specs::hash::group_hash_axioms;

        let (low, high) = match watermarks.get(&partition) {
            Some(watermark) => *watermark,
            None => {
                return false;
            },
        };
        let can_start: bool = match self.start_offset {
            KafkaEnumeratorOffset::Earliest => low > i64::MIN,
            KafkaEnumeratorOffset::Latest => high > i64::MIN,
            KafkaEnumeratorOffset::Timestamp(_) => start_times.contains_key(&partition),
            KafkaEnumeratorOffset::Unset => true,
        };
        let can_stop: bool = match self.stop_offset {
            KafkaEnumeratorOffset::Timestamp(_) => stop_times.contains_key(&partition),
            _ => true,
        };
        can_start && can_stop
    }

    /// Tells whether [`Self::list_splits`] can be called.
    pub fn can_list_splits(
        &self,
        topic_partitions: &Vec<i32>,
        watermarks: &HashMap<i32, (i64, i64)>,
        start_times: &HashMap<i32, Option<i64>>,
        stop_times: &HashMap<i32, Option<i64>>,
    ) -> (r: bool)
        ensures
            r == listing_presumes(
                self@,
                topic_partitions@,
                watermarks@,
                start_times@,
                stop_times@,
            ),
    {
        if !check_distinct(topic_partitions) || self.stop_offset == KafkaEnumeratorOffset::Earliest {
            return false;
        }
        let mut i: usize = 0;
        while i < topic_partitions.len()
            invariant
                i <= topic_partitions.len(),
                forall|k: int|
                    0 <= k < i ==> partition_presumes(
                        self@,
                        #[trigger] topic_partitions@[k],
                        watermarks@,
                        start_times@,
                        stop_times@,
                    ),
            decreases topic_partitions.len() - i,
        {
            if !self.can_list_partition(topic_partitions[i], watermarks, start_times, stop_times) {
                assert(!partition_presumes(
                    self@,
                    topic_partitions@[i as int],
                    watermarks@,
                    start_times@,
                    stop_times@,
                ));
                return false;
            }
            i = i + 1;
        }
        true
    }

    /// Tells whether [`Self::list_splits_batch`] can be called.
    pub fn can_list_splits_batch(
        topic_partitions: &Vec<i32>,
        expect_start_offset: &Option<HashMap<i32, Option<i64>>>,
        watermarks: &HashMap<i32, (i64, i64)>,
    ) -> (r: bool)
        ensures
            r == batch_presumes(
                topic_partitions@,
                watermarks@,
                times_view(*expect_start_offset),
            ),
    {
        broadcast use vstd::std_specs::hash::group_hash_axioms;

        if !check_distinct(topic_partitions) {
            return false;
        }
        let ghost start = times_view(*expect_start_offset);
        let mut i: usize = 0;
        while i < topic_partitions.len()
            invariant
                i <= topic_partitions.len(),
                start == times_view(*expect_start_offset),
                forall|k: int|
                    0 <= k < i ==> batch_partition_presumes(
                        #[trigger] topic_partitions@[k],
                        watermarks@,
                        start,
                    ),
            decreases topic_partitions.len() - i,
        {
            broadcast use vstd::std_specs::hash::group_hash_axioms;

            let partition: i32 = topic_partitions[i];
            let can_start: bool = match lookup(expect_start_offset, partition) {
                Some(offset) => offset > i64::MIN,
                None => true,
            };
            let in_range: bool = match watermarks.get(&partition) {
                Some(watermark) => watermark.0 > i64::MIN,
                None => false,
            };
            if !can_start || !in_range {
                assert(!batch_partition_presumes(topic_partitions@[i as int], watermarks@, start));
                return false;
            }
            i = i + 1;
        }
        true
    }
}

} // verus!
