use process_telemetry::CpuPercent;
use process_telemetry::MyProcess;
use process_telemetry::RawProcessDetails;
use process_telemetry::RawProcessEntry;
use process_telemetry::SortBy;
use process_telemetry::SortOrder;
use process_telemetry::ThreadClass;
use process_telemetry::build_records;
use process_telemetry::details_from_raw;
use process_telemetry::greet;
use process_telemetry::signal_outcome;
use process_telemetry::sort_records;
use process_telemetry::total_throughput;

fn rec(pid: u32, name: &str, cpu: f32, mem: u64) -> MyProcess {
    MyProcess {
        pid,
        name: name.to_string(),
        cpu_usage: CpuPercent { bits: cpu.to_bits() },
        memory_usage: mem,
    }
}

fn raw(pid: u32, name: Option<&str>, class: ThreadClass, cpu: f32, mem: u64) -> RawProcessEntry {
    // A stub row as a one-core machine would report it: the normalized
    // reading equals the raw one.
    RawProcessEntry {
        pid,
        name: name.map(|s| s.to_string()),
        thread_class: class,
        raw_cpu_bits: cpu.to_bits(),
        cores: 1,
        cpu_bits: cpu.to_bits(),
        memory: mem,
    }
}

fn pids(v: &[MyProcess]) -> Vec<u32> {
    v.iter().map(|p| p.pid).collect()
}

#[test]
fn greet_formats_name() {
    assert_eq!(greet("world".to_string()), "Helloasd, world!");
}

#[test]
fn listing_drops_thread_rows() {
    let entries = vec![
        raw(1, Some("init"), ThreadClass::Unclassified, 1.0, 10),
        raw(2, Some("kworker"), ThreadClass::Kernel, 2.0, 20),
        raw(3, Some("pool"), ThreadClass::Userland, 3.0, 30),
        raw(4, Some("shell"), ThreadClass::Unclassified, 4.0, 40),
    ];
    let records = build_records(entries);
    assert_eq!(pids(&records), vec![1, 4]);
}

#[test]
fn listing_skips_undecodable_names() {
    let entries = vec![
        raw(1, Some("a"), ThreadClass::Unclassified, 1.0, 10),
        raw(2, None, ThreadClass::Unclassified, 2.0, 20),
        raw(3, Some("c"), ThreadClass::Unclassified, 3.0, 30),
    ];
    let records = build_records(entries);
    assert_eq!(pids(&records), vec![1, 3]);
}

#[test]
fn listing_carries_fields_through() {
    let entries = vec![raw(7, Some("svc"), ThreadClass::Unclassified, 12.5, 4096)];
    let records = build_records(entries);
    assert_eq!(records.len(), 1);
    assert_eq!(records[0].pid, 7);
    assert_eq!(records[0].name, "svc");
    assert_eq!(f32::from_bits(records[0].cpu_usage.bits), 12.5);
    assert_eq!(records[0].memory_usage, 4096);
}

#[test]
fn sort_cpu_descending_and_memory_ascending() {
    // Two records: pid 1 with the higher CPU and the smaller memory.
    let a = || vec![rec(1, "a", 10.0, 100), rec(2, "b", 5.0, 200)];
    let by_cpu = sort_records(a(), &SortBy::CPU, &SortOrder::Desc);
    assert_eq!(pids(&by_cpu), vec![1, 2]);
    let by_mem = sort_records(a(), &SortBy::Memory, &SortOrder::Asc);
    assert_eq!(pids(&by_mem), vec![1, 2]);
}

#[test]
fn sort_every_key_both_directions() {
    let mk = || {
        vec![
            rec(3, "cc", 1.5, 300),
            rec(1, "aa", 9.0, 100),
            rec(2, "bb", 4.0, 200),
        ]
    };
    assert_eq!(pids(&sort_records(mk(), &SortBy::PID, &SortOrder::Asc)), vec![1, 2, 3]);
    assert_eq!(pids(&sort_records(mk(), &SortBy::PID, &SortOrder::Desc)), vec![3, 2, 1]);
    assert_eq!(pids(&sort_records(mk(), &SortBy::Name, &SortOrder::Asc)), vec![1, 2, 3]);
    assert_eq!(pids(&sort_records(mk(), &SortBy::Name, &SortOrder::Desc)), vec![3, 2, 1]);
    assert_eq!(pids(&sort_records(mk(), &SortBy::CPU, &SortOrder::Asc)), vec![3, 2, 1]);
    assert_eq!(pids(&sort_records(mk(), &SortBy::CPU, &SortOrder::Desc)), vec![1, 2, 3]);
    assert_eq!(pids(&sort_records(mk(), &SortBy::Memory, &SortOrder::Asc)), vec![1, 2, 3]);
    assert_eq!(pids(&sort_records(mk(), &SortBy::Memory, &SortOrder::Desc)), vec![3, 2, 1]);
}

#[test]
fn sort_is_stable_on_equal_keys() {
    let mk = || {
        vec![
            rec(10, "same", 2.0, 50),
            rec(11, "same", 2.0, 50),
            rec(12, "same", 2.0, 50),
        ]
    };
    assert_eq!(pids(&sort_records(mk(), &SortBy::CPU, &SortOrder::Asc)), vec![10, 11, 12]);
    assert_eq!(pids(&sort_records(mk(), &SortBy::CPU, &SortOrder::Desc)), vec![10, 11, 12]);
    assert_eq!(pids(&sort_records(mk(), &SortBy::Name, &SortOrder::Desc)), vec![10, 11, 12]);
    assert_eq!(pids(&sort_records(mk(), &SortBy::Memory, &SortOrder::Asc)), vec![10, 11, 12]);
}

#[test]
fn reversing_direction_reverses_distinct_keys() {
    let mk = || vec![rec(1, "a", 1.0, 10), rec(2, "b", 2.0, 20), rec(3, "c", 3.0, 30)];
    let asc = pids(&sort_records(mk(), &SortBy::Memory, &SortOrder::Asc));
    let mut desc = pids(&sort_records(mk(), &SortBy::Memory, &SortOrder::Desc));
    desc.reverse();
    assert_eq!(asc, desc);
}

#[test]
fn sorting_twice_changes_nothing() {
    let once = sort_records(
        vec![rec(2, "b", 5.0, 200), rec(1, "a", 10.0, 100), rec(3, "a", 10.0, 50)],
        &SortBy::Name,
        &SortOrder::Asc,
    );
    let expect = pids(&once);
    let twice = sort_records(once, &SortBy::Name, &SortOrder::Asc);
    assert_eq!(pids(&twice), expect);
}

#[test]
fn nan_cpu_sorts_as_lowest_value_both_directions() {
    let mk = || {
        vec![
            rec(1, "pos", 5.0, 10),
            rec(2, "nan", f32::NAN, 20),
            rec(3, "neg", -1.0, 30),
            rec(4, "zero", 0.0, 40),
        ]
    };
    // Ascending: the NaN reading is the lowest value, below even a negative
    // reading; descending exactly reverses the order.
    assert_eq!(pids(&sort_records(mk(), &SortBy::CPU, &SortOrder::Asc)), vec![2, 3, 4, 1]);
    assert_eq!(pids(&sort_records(mk(), &SortBy::CPU, &SortOrder::Desc)), vec![1, 4, 3, 2]);
}

#[test]
fn details_join_and_defaults() {
    let raw = RawProcessDetails {
        cmd: vec![
            Some("prog".to_string()),
            Some("--flag".to_string()),
            Some("value".to_string()),
        ],
        virtual_memory: 111,
        disk_read: 222,
        disk_write: 333,
        cwd: None,
        env: vec![Some("A=1".to_string()), Some("B=2".to_string())],
    };
    let d = details_from_raw(raw).unwrap();
    assert_eq!(d.cmd, "prog --flag value");
    assert_eq!(d.virtual_memory, 111);
    assert_eq!(d.disk_read, 222);
    assert_eq!(d.disk_write, 333);
    assert_eq!(d.cwd, "");
    assert_eq!(d.env, vec!["A=1".to_string(), "B=2".to_string()]);
}

#[test]
fn details_with_working_directory() {
    let raw = RawProcessDetails {
        cmd: vec![Some("prog".to_string())],
        virtual_memory: 0,
        disk_read: 0,
        disk_write: 0,
        cwd: Some(Some("/tmp".to_string())),
        env: vec![],
    };
    let d = details_from_raw(raw).unwrap();
    assert_eq!(d.cmd, "prog");
    assert_eq!(d.cwd, "/tmp");
    assert!(d.env.is_empty());
}

#[test]
fn details_absent_on_undecodable_argument() {
    let raw = RawProcessDetails {
        cmd: vec![Some("prog".to_string()), None],
        virtual_memory: 0,
        disk_read: 0,
        disk_write: 0,
        cwd: None,
        env: vec![],
    };
    assert!(details_from_raw(raw).is_none());
}

#[test]
fn details_absent_on_undecodable_environment_entry() {
    let raw = RawProcessDetails {
        cmd: vec![],
        virtual_memory: 0,
        disk_read: 0,
        disk_write: 0,
        cwd: None,
        env: vec![None],
    };
    assert!(details_from_raw(raw).is_none());
}

#[test]
fn details_absent_on_undecodable_working_directory() {
    let raw = RawProcessDetails {
        cmd: vec![],
        virtual_memory: 0,
        disk_read: 0,
        disk_write: 0,
        cwd: Some(None),
        env: vec![],
    };
    assert!(details_from_raw(raw).is_none());
}

#[test]
fn empty_command_joins_to_empty_string() {
    let raw = RawProcessDetails {
        cmd: vec![],
        virtual_memory: 0,
        disk_read: 0,
        disk_write: 0,
        cwd: None,
        env: vec![],
    };
    let d = details_from_raw(raw).unwrap();
    assert_eq!(d.cmd, "");
}

#[test]
fn network_sum_over_two_interfaces() {
    let counters = vec![(10u64, 5u64), (20u64, 1u64)];
    assert_eq!(total_throughput(&counters), (30, 6));
}

#[test]
fn network_sum_of_no_interfaces_is_zero() {
    let counters: Vec<(u64, u64)> = vec![];
    assert_eq!(total_throughput(&counters), (0, 0));
}

#[test]
fn network_sum_saturates_instead_of_overflowing() {
    let counters = vec![(u64::MAX, 1u64), (1u64, 2u64)];
    assert_eq!(total_throughput(&counters), (u64::MAX, 3));
}

#[test]
fn signal_outcome_is_true_only_on_delivery() {
    assert!(signal_outcome(Some(true)));
    assert!(!signal_outcome(Some(false)));
    assert!(!signal_outcome(None));
}

#[test]
fn name_order_is_by_code_point() {
    // 'z' (U+007A) orders before 'é' (U+00E9), as byte-wise UTF-8 would too.
    let mk = || vec![rec(1, "é", 0.0, 0), rec(2, "z", 0.0, 0), rec(3, "a", 0.0, 0)];
    assert_eq!(pids(&sort_records(mk(), &SortBy::Name, &SortOrder::Asc)), vec![3, 2, 1]);
}

#[test]
fn prefix_orders_before_extension() {
    let mk = || vec![rec(1, "abc", 0.0, 0), rec(2, "ab", 0.0, 0)];
    assert_eq!(pids(&sort_records(mk(), &SortBy::Name, &SortOrder::Asc)), vec![2, 1]);
}

#[test]
fn empty_listing_sorts_to_empty() {
    let records: Vec<MyProcess> = vec![];
    let sorted = sort_records(records, &SortBy::PID, &SortOrder::Asc);
    assert!(sorted.is_empty());
}
