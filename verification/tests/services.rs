use std::collections::HashMap;

use streaming_meta::etcd::{EtcdConfig, EtcdError, EtcdPeer, EtcdService};
use streaming_meta::expr_context::{capture_expr_context, vnode_count, ContextError};
use streaming_meta::file_sink::{has_distinct_names, FileSinkError, Op, OpenDalSinkWriter, SinkEncode};
use streaming_meta::kafka::enumerator::{
    fetch_offset_for_time, scan_start_offset, KafkaEnumeratorOffset, KafkaError, KafkaSplitEnumerator, NumberFault, TimeOffset,
};
use streaming_meta::migration::Migrator;
use streaming_meta::stats::{sum_cursor_nums, CursorNums};

fn s(x: &str) -> String {
    x.to_string()
}

fn etcd_config(unsafe_no_fsync: bool) -> EtcdConfig {
    EtcdConfig {
        id: s("etcd-2388"),
        address: s("127.0.0.1"),
        listen_address: s("0.0.0.0"),
        port: 2388,
        peer_port: 2389,
        exporter_port: 2379,
        unsafe_no_fsync,
        provide_etcd: Some(vec![
            EtcdPeer { id: s("etcd-2388"), address: s("127.0.0.1"), peer_port: 2389 },
            EtcdPeer { id: s("etcd-2390"), address: s("10.0.0.1"), peer_port: 2391 },
        ]),
    }
}

#[test]
fn etcd_arguments() {
    let mut cmd = vec![s("etcd")];
    EtcdService::apply_command_args(&mut cmd, &etcd_config(true));
    let expected = [
        "etcd",
        "--listen-client-urls",
        "http://0.0.0.0:2388",
        "--advertise-client-urls",
        "http://127.0.0.1:2388",
        "--listen-peer-urls",
        "http://0.0.0.0:2389",
        "--initial-advertise-peer-urls",
        "http://127.0.0.1:2389",
        "--listen-metrics-urls",
        "http://0.0.0.0:2379",
        "--max-txn-ops",
        "999999",
        "--max-request-bytes",
        "10485760",
        "--auto-compaction-mode",
        "periodic",
        "--auto-compaction-retention",
        "1m",
        "--snapshot-count",
        "10000",
        "--name",
        "etcd-2388",
        "--initial-cluster-token",
        "risingwave-etcd",
        "--initial-cluster-state",
        "new",
        "--initial-cluster",
        "etcd-2388=http://127.0.0.1:2389,etcd-2390=http://10.0.0.1:2391",
        "--unsafe-no-fsync",
    ];
    assert_eq!(cmd, expected);

    let mut cmd = vec![];
    EtcdService::apply_command_args(&mut cmd, &etcd_config(false));
    assert_eq!(cmd.len(), 28);
    assert_eq!(cmd[27], "etcd-2388=http://127.0.0.1:2389,etcd-2390=http://10.0.0.1:2391");
}

#[test]
fn etcd_service_and_its_error() {
    let service = EtcdService::new(etcd_config(false)).unwrap();
    assert_eq!(service.id(), "etcd-2388");
    let args = service.execute(&s("/bin/etcd"), true, &s(""), &s("/data/etcd-2388")).unwrap();
    assert_eq!(args.len(), 30);
    assert_eq!(args[28..], ["--data-dir", "/data/etcd-2388"]);
    let e = service.execute(&s("/bin/etcd"), false, &s("./risedev configure"), &s("")).err().unwrap();
    assert_eq!(e, EtcdError::BinaryNotFound(s("/bin/etcd"), s("./risedev configure")));
    assert_eq!(e.message(), "etcd binary not found in /bin/etcd\nDid you enable etcd feature in `./risedev configure`?");
}

#[test]
fn file_sink_opens_one_file_for_each_checkpoint() {
    let mut w = OpenDalSinkWriter::new(&s("path"), true, 7, SinkEncode::Parquet);
    assert_eq!(w.write_batch(), Err(FileSinkError::EpochNotInitialized));
    assert_eq!(FileSinkError::EpochNotInitialized.message(), "epoch has not been initialize, call `begin_epoch`");
    w.begin_epoch(42);
    assert_eq!(w.append_only(&vec![true], &vec![Op::Insert]), Err(FileSinkError::WriterNotCreated));
    assert_eq!(FileSinkError::WriterNotCreated.message(), "Sink writer is not created.");
    assert_eq!(w.write_batch(), Ok(Some(s("path/42_7.parquet"))));
    assert_eq!(w.write_batch(), Ok(None));
    let ops = vec![Op::Insert, Op::Delete, Op::Insert, Op::UpdateInsert, Op::UpdateDelete];
    assert_eq!(
        w.append_only(&vec![true, true, false, true, true], &ops),
        Ok(vec![true, false, false, false, false])
    );
    assert!(!w.barrier(false));
    assert!(w.barrier(true));
    assert!(!w.barrier(true));
    w.begin_epoch(43);
    assert_eq!(w.write_batch(), Ok(Some(s("path/43_7.parquet"))));
}

#[test]
fn column_names_of_a_file() {
    assert!(has_distinct_names(&vec![]));
    assert!(has_distinct_names(&vec![s("a"), s("b")]));
    assert!(!has_distinct_names(&vec![s("a"), s("b"), s("a")]));
}

#[test]
fn cursors_are_summed() {
    let n = |a, b| CursorNums { subsription_cursor_nums: a, invalid_subsription_cursor_nums: b };
    assert_eq!(sum_cursor_nums(&vec![n(3, 1), n(0, 0), n(2, 2)]), n(5, 3));
    assert_eq!(sum_cursor_nums(&vec![]), n(0, 0));
}

#[test]
fn expression_context() {
    assert_eq!(capture_expr_context(&Some(s("UTC"))).unwrap().time_zone, "UTC");
    assert_eq!(capture_expr_context(&None).err(), Some(ContextError::TimeZoneNotSet));
    assert_eq!(vnode_count(Some(64)), 64);
    assert_eq!(vnode_count(None), 256);
}

#[test]
fn migrations_in_order() {
    let names = Migrator::migrations();
    assert_eq!(names[0], "m20230908_072257_init");
    let mut sorted = names.clone();
    sorted.sort();
    assert_eq!(names, sorted);
}

fn kafka(mode: Option<&str>, time: Option<&str>) -> Result<KafkaSplitEnumerator, KafkaError> {
    KafkaSplitEnumerator::new(s("localhost:9092"), s("abc"), &mode.map(s), &time.map(s))
}

#[test]
fn kafka_start_offset() {
    assert_eq!(kafka(None, None).unwrap().start_offset, KafkaEnumeratorOffset::Earliest);
    // the mode is read in any case
    assert_eq!(kafka(Some("EARLIEST"), None).unwrap().start_offset, KafkaEnumeratorOffset::Earliest);
    assert_eq!(kafka(Some("Latest"), None).unwrap().start_offset, KafkaEnumeratorOffset::Latest);
    assert_eq!(kafka(Some("latest"), Some("-15")).unwrap().start_offset, KafkaEnumeratorOffset::Timestamp(-15));
    assert_eq!(kafka(None, Some("+1700000000000")).unwrap().start_offset, KafkaEnumeratorOffset::Timestamp(1700000000000));
    let e = kafka(Some("now"), None).err().unwrap();
    assert_eq!(e, KafkaError::ScanStartupMode);
    assert_eq!(e.message(), "properties `scan_startup_mode` only supports earliest and latest or leaving it empty");
    for (bad, fault) in [
        ("", NumberFault::Empty),
        ("-", NumberFault::InvalidDigit),
        ("1x", NumberFault::InvalidDigit),
        ("+-1", NumberFault::InvalidDigit),
        ("9223372036854775808", NumberFault::TooLarge),
        ("99999999999999999999x", NumberFault::TooLarge),
        ("-9223372036854775809", NumberFault::TooSmall),
    ] {
        let e = kafka(None, Some(bad)).err().unwrap();
        assert_eq!(e, KafkaError::TimeOffset(fault));
        assert_eq!(e.message(), bad.parse::<i64>().err().unwrap().to_string());
    }
    assert_eq!(
        kafka(None, Some("-9223372036854775808")).unwrap().start_offset,
        KafkaEnumeratorOffset::Timestamp(i64::MIN)
    );
    // without the change of case
    assert_eq!(scan_start_offset(&Some(s("LATEST")), &None).err(), Some(KafkaError::ScanStartupMode));
    assert_eq!(kafka(None, None).unwrap().stop_offset, KafkaEnumeratorOffset::Unset);
}

#[test]
fn kafka_partitions() {
    let e = kafka(None, None).unwrap();
    assert_eq!(e.fetch_topic_partition(&vec![vec![0, 1]]), Ok(vec![0, 1]));
    for topics in [vec![], vec![vec![]], vec![vec![0], vec![1]]] {
        let err = e.fetch_topic_partition(&topics).err().unwrap();
        assert_eq!(err.message(), "topic abc not found");
    }
}

#[test]
fn kafka_splits() {
    let watermarks = HashMap::from([(0, (10, 20)), (1, (0, 0))]);
    let none = HashMap::new();
    let splits = kafka(None, None).unwrap().list_splits(&vec![0, 1], &watermarks, &none, &none);
    assert_eq!(splits.iter().map(|x| x.start_offset).collect::<Vec<_>>(), vec![Some(9), Some(-1)]);
    assert_eq!(splits[0].stop_offset, None);
    assert_eq!(splits[0].topic, "abc");
    let splits = kafka(Some("latest"), None).unwrap().list_splits(&vec![0, 1], &watermarks, &none, &none);
    assert_eq!(splits[0].start_offset, Some(19));

    let t = |partition, offset, high_watermark| TimeOffset { partition, offset, high_watermark };
    let times = fetch_offset_for_time(&vec![t(0, Some(15), 20), t(1, None, 33)]);
    assert_eq!(times, HashMap::from([(0, Some(14)), (1, Some(33))]));
    let splits = kafka(None, Some("5")).unwrap().list_splits(&vec![1, 0], &watermarks, &times, &none);
    assert_eq!(splits.iter().map(|x| (x.partition, x.start_offset)).collect::<Vec<_>>(), vec![(1, Some(33)), (0, Some(14))]);
}

#[test]
fn kafka_batch_stays_within_watermarks() {
    let watermarks = HashMap::from([(0, (10, 20))]);
    let e = kafka(None, None).unwrap();
    let range = |start: Option<i64>, stop: Option<i64>| {
        let m = |x: Option<i64>| x.map(|x| HashMap::from([(0, Some(x))]));
        let split = e.list_splits_batch(&vec![0], &m(start), &m(stop), &watermarks).pop().unwrap();
        (split.start_offset.unwrap(), split.stop_offset.unwrap())
    };
    assert_eq!(range(None, None), (9, 20));
    assert_eq!(range(Some(15), Some(17)), (14, 17));
    assert_eq!(range(Some(1), Some(99)), (9, 20));
}

#[test]
fn what_listing_splits_presumes() {
    let none = HashMap::new();
    let watermarks = HashMap::from([(0, (1, 9)), (1, (i64::MIN, 5))]);
    let e = kafka(None, None).unwrap();
    assert!(e.can_list_splits(&vec![0], &watermarks, &none, &none));
    assert!(!e.can_list_splits(&vec![0, 1], &watermarks, &none, &none));
    assert!(!e.can_list_splits(&vec![0, 0], &watermarks, &none, &none));
    assert!(!e.can_list_splits(&vec![2], &watermarks, &none, &none));
    assert!(kafka(Some("latest"), None).unwrap().can_list_splits(&vec![0, 1], &watermarks, &none, &none));
    let at = kafka(None, Some("5")).unwrap();
    assert!(!at.can_list_splits(&vec![1], &watermarks, &none, &none));
    assert!(at.can_list_splits(&vec![1], &watermarks, &HashMap::from([(1, None)]), &none));

    let batch = |partitions: Vec<i32>, start| KafkaSplitEnumerator::can_list_splits_batch(&partitions, &start, &watermarks);
    assert!(batch(vec![0], None) && !batch(vec![0, 1], None) && !batch(vec![0, 0], None) && !batch(vec![2], None));
    assert!(batch(vec![0], Some(HashMap::from([(0, None)]))));
    assert!(!batch(vec![0], Some(HashMap::from([(0, Some(i64::MIN))]))));
}
