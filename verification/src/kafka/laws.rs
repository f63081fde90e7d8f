//! What is read of a topic.

use vstd::prelude::*;
use vstd::string::*;

use crate::kafka::enumerator::{
    batch_split, digit_value, digits_value, i64_in, offsets_for_time, runs_past, split_of, start_of,
    unsigned_part, KafkaEnumeratorOffset, KafkaErrorModel, KafkaSplitEnumeratorModel, NumberFault,
    TimeOffset,
};
use crate::util::text::{decimal, digit, lemma_mentions, mentions};

verus! {

proof fn lemma_digit(d: nat)
    requires
        d < 10,
    ensures
        digit(d).len() == 1,
        digit_value(digit(d)[0]) == Some(d),
{
    reveal_strlit("0");
    reveal_strlit("1");
    reveal_strlit("2");
    reveal_strlit("3");
    reveal_strlit("4");
    reveal_strlit("5");
    reveal_strlit("6");
    reveal_strlit("7");
    reveal_strlit("8");
    reveal_strlit("9");
}

/// What is written in decimal is made of digits and stands for the number that was written.
pub proof fn law_decimals_are_read_back(n: nat)
    ensures
        decimal(n).len() > 0,
        digits_value(decimal(n)) == Some(n),
        forall|i: int| 0 <= i < decimal(n).len() ==> '0' <= #[trigger] decimal(n)[i] <= '9',
    decreases n,
{
    if n < 10 {
        lemma_digit(n);
        let q = decimal(n);
        assert(q == digit(n));
        assert(q.drop_last() =~= Seq::empty());
        assert(digits_value(q.drop_last()) == Some(0nat));
        assert(q.last() == q[0]);
    } else {
        law_decimals_are_read_back(n / 10);
        lemma_digit(n % 10);
        let a = decimal(n / 10);
        let b = digit(n % 10);
        let q = decimal(n);
        assert(q == a + b);
        assert(q.drop_last() =~= a);
        assert(q.last() == b[0]);
        assert forall|i: int| 0 <= i < q.len() implies '0' <= #[trigger] q[i] <= '9' by {
            if i < a.len() {
                assert(q[i] == a[i]);
            } else {
                assert(q[i] == b[0]);
            }
        }
    }
}

/// Leading digits never stand for more than all of them.
proof fn lemma_leading_digits(q: Seq<char>, k: int)
    requires
        0 <= k <= q.len(),
        digits_value(q) is Some,
    ensures
        digits_value(q.take(k)) is Some,
        digits_value(q.take(k))->0 <= digits_value(q)->0,
    decreases q.len() - k,
{
    if k < q.len() {
        lemma_leading_digits(q, k + 1);
        let p = q.take(k + 1);
        assert(p.drop_last() =~= q.take(k));
        assert(digits_value(p) is Some);
    } else {
        assert(q.take(k) =~= q);
    }
}

/// A text of digits is read as the number that it stands for, where that has 64 bits; one that is
/// larger is refused, whatever it is.
pub proof fn law_numbers_in_text(q: Seq<char>, n: nat)
    requires
        q.len() > 0,
        digits_value(q) == Some(n),
    ensures
        n <= i64::MAX ==> i64_in(q) == Ok::<i64, NumberFault>(n as i64),
        n > i64::MAX ==> i64_in(q) == Err::<i64, NumberFault>(NumberFault::TooLarge),
        n <= 0x8000_0000_0000_0000 ==> i64_in(seq!['-'] + q) == Ok::<i64, NumberFault>(
            (-(n as int)) as i64,
        ),
        n > 0x8000_0000_0000_0000 ==> i64_in(seq!['-'] + q) == Err::<i64, NumberFault>(
            NumberFault::TooSmall,
        ),
        n <= i64::MAX ==> i64_in(seq!['+'] + q) == Ok::<i64, NumberFault>(n as i64),
{
    assert(q[0] != '-' && q[0] != '+') by {
        assert(q.take(1).drop_last() =~= Seq::empty());
        assert(q.take(1).last() == q[0]);
        lemma_leading_digits(q, 1);
    }
    assert(unsigned_part(q) == q);
    assert((seq!['-'] + q).skip(1) =~= q);
    assert((seq!['+'] + q).skip(1) =~= q);
    assert(unsigned_part(seq!['-'] + q) == q);
    assert(unsigned_part(seq!['+'] + q) == q);
    assert(q.take(q.len() as int) =~= q);
    assert forall|k: int| 0 <= k <= q.len() implies digits_value(#[trigger] q.take(k)) is Some
        && digits_value(q.take(k))->0 <= n by {
        lemma_leading_digits(q, k);
    }
    assert(runs_past(q, 0x7fff_ffff_ffff_ffff) == (n > 0x7fff_ffff_ffff_ffff)) by {
        if n > 0x7fff_ffff_ffff_ffff {
            assert(digits_value(q.take(q.len() as int))->0 > 0x7fff_ffff_ffff_ffff);
        }
    }
    assert(runs_past(q, 0x8000_0000_0000_0000) == (n > 0x8000_0000_0000_0000)) by {
        if n > 0x8000_0000_0000_0000 {
            assert(digits_value(q.take(q.len() as int))->0 > 0x8000_0000_0000_0000);
        }
    }
    assert((seq!['-'] + q)[0] == '-');
    assert((seq!['+'] + q)[0] == '+');
}

/// A text without digits is no number.
pub proof fn law_text_without_digits_is_no_number(q: Seq<char>, i: int)
    requires
        0 <= i < q.len(),
        digit_value(q[i]) is None,
    ensures
        digits_value(q) is None,
        i64_in(Seq::empty()) == Err::<i64, NumberFault>(NumberFault::Empty),
        i64_in(seq!['-']) == Err::<i64, NumberFault>(NumberFault::InvalidDigit),
        i64_in(seq!['+']) == Err::<i64, NumberFault>(NumberFault::InvalidDigit),
    decreases q.len(),
{
    if i < q.len() - 1 {
        law_text_without_digits_is_no_number(q.drop_last(), i);
    }
}

/// Reading starts at the given time, else at the earliest offset or, where that is asked for, at the
/// latest; another mode is refused, also where there is a time.
pub proof fn law_where_reading_starts(mode: Seq<char>, time: Option<Seq<char>>)
    ensures
        start_of(None, None) == Ok::<KafkaEnumeratorOffset, KafkaErrorModel>(
            KafkaEnumeratorOffset::Earliest,
        ),
        start_of(Some("earliest"@), None) == Ok::<KafkaEnumeratorOffset, KafkaErrorModel>(
            KafkaEnumeratorOffset::Earliest,
        ),
        start_of(Some("latest"@), None) == Ok::<KafkaEnumeratorOffset, KafkaErrorModel>(
            KafkaEnumeratorOffset::Latest,
        ),
        mode != "earliest"@ && mode != "latest"@ ==> start_of(Some(mode), time) == Err::<
            KafkaEnumeratorOffset,
            KafkaErrorModel,
        >(KafkaErrorModel::ScanStartupMode),
        time is Some && (mode == "earliest"@ || mode == "latest"@) ==> start_of(Some(mode), time)
            == start_of(None, time),
        time is Some ==> match start_of(None, time) {
            Ok(start) => start is Timestamp && i64_in(time->0) == Ok::<i64, NumberFault>(
                start->Timestamp_0,
            ),
            Err(e) => e is TimeOffset && i64_in(time->0) == Err::<i64, NumberFault>(e->TimeOffset_0),
        },
{
    reveal_strlit("earliest");
    reveal_strlit("latest");
    assert("earliest"@.len() == 8);
    assert("latest"@.len() == 6);
}

/// The offset of a partition at a time is the last one before that of the time; where no message is as
/// late, it is the high watermark.
pub proof fn law_offsets_of_a_time(q: Seq<TimeOffset>, i: int)
    requires
        0 <= i < q.len(),
        forall|j: int| i < j < q.len() ==> (#[trigger] q[j]).partition != q[i].partition,
        q[i].offset is Some ==> q[i].offset->0 > i64::MIN,
    ensures
        ({
            let m = offsets_for_time(q);
            &&& m.contains_key(q[i].partition)
            &&& m[q[i].partition] is Some
            &&& q[i].offset is Some ==> m[q[i].partition]->0 == q[i].offset->0 - 1
            &&& q[i].offset is None ==> m[q[i].partition]->0 == q[i].high_watermark
        }),
    decreases q.len(),
{
    if i < q.len() - 1 {
        let d = q.drop_last();
        assert forall|j: int| i < j < d.len() implies (#[trigger] d[j]).partition != d[i].partition by {
            assert(d[j] == q[j]);
        }
        law_offsets_of_a_time(d, i);
        assert(q[q.len() - 1].partition != q[i].partition);
    }
}

/// A stream reads a partition of its topic: from its first message on where it starts at the earliest
/// offset, only what comes later where it starts at the latest, and from the given time on where it starts
/// at one; it stops at the last message of now, at the given time, or never.
pub proof fn law_split_of_a_stream(
    e: KafkaSplitEnumeratorModel,
    p: i32,
    watermarks: Map<i32, (i64, i64)>,
    start_times: Map<i32, Option<i64>>,
    stop_times: Map<i32, Option<i64>>,
    x: i64,
)
    requires
        watermarks[p].0 > i64::MIN,
        watermarks[p].1 > i64::MIN,
    ensures
        ({
            let s = split_of(e, p, watermarks, start_times, stop_times);
            let (low, high) = watermarks[p];
            &&& s.topic == e.topic
            &&& s.partition == p
            &&& !s.hack_seek_to_latest
            &&& e.start_offset is Earliest ==> s.start_offset is Some && (s.start_offset->0 < x
                <==> low <= x)
            &&& e.start_offset is Latest ==> s.start_offset is Some && (s.start_offset->0 < x
                <==> high <= x)
            &&& e.start_offset is Timestamp ==> s.start_offset == start_times[p]
            &&& e.start_offset is Unset ==> s.start_offset is None
            &&& e.stop_offset is Latest ==> s.stop_offset == Some(high)
            &&& e.stop_offset is Timestamp ==> s.stop_offset == stop_times[p]
            &&& e.stop_offset is Unset ==> s.stop_offset is None
        }),
{
}

/// A batch reads exactly those messages of a partition that are there, not before the offset of the start
/// time and before that of the stop time, where these are given.
pub proof fn law_messages_of_a_batch(
    topic: Seq<char>,
    p: i32,
    watermarks: Map<i32, (i64, i64)>,
    start: Option<Map<i32, Option<i64>>>,
    stop: Option<Map<i32, Option<i64>>>,
    x: i64,
)
    requires
        watermarks[p].0 > i64::MIN,
    ensures
        ({
            let s = batch_split(topic, p, watermarks, start, stop);
            let (low, high) = watermarks[p];
            &&& s.topic == topic
            &&& s.partition == p
            &&& s.start_offset is Some
            &&& s.stop_offset is Some
            &&& s.start_offset->0 < x < s.stop_offset->0 <==> {
                &&& low <= x < high
                &&& start is Some && start->0.contains_key(p) && start->0[p] is Some ==> start->0[p]->0
                    <= x
                &&& stop is Some && stop->0.contains_key(p) && stop->0[p] is Some ==> x < stop->0[p]->0
            }
        }),
{
}

/// A topic that is not found is named in the words of the error.
pub proof fn law_missing_topic_is_named(topic: Seq<char>)
    ensures
        mentions(KafkaErrorModel::TopicNotFound(topic).message(), topic),
{
    lemma_mentions("topic "@, topic, " not found"@);
}

} // verus!
