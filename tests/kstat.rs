use fillmem::kstat::{
    boot_time, cpu_mhz, nproc, pages, KstatDataIo, KstatDataValue, KstatEntry, KstatError, KstatNamed,
    Pages, KSTAT_TYPE_IO, KSTAT_TYPE_NAMED,
};

fn named(name: &str, data_type: u8, raw: u64) -> KstatNamed {
    KstatNamed { name: name.as_bytes().to_vec(), data_type, raw }
}

fn entry(module: &str, name: &str, data: Vec<KstatNamed>) -> KstatEntry {
    KstatEntry {
        module: module.as_bytes().to_vec(),
        name: name.as_bytes().to_vec(),
        class: b"misc".to_vec(),
        instance: 0,
        type_: KSTAT_TYPE_NAMED,
        readable: true,
        data,
        io: None,
    }
}

#[test]
fn cpu_speed_from_first_cpu_record() {
    let chain = vec![
        entry("unix", "system_misc", vec![named("clock_MHz", 3, 1)]),
        entry("cpu_info", "cpu_info0", vec![named("brand", 0, 0)]),
        entry("cpu_info", "cpu_info1", vec![named("state", 0, 0), named("clock_MHz", 3, 2400)]),
        entry("cpu_info", "cpu_info2", vec![named("clock_MHz", 3, 3000)]),
    ];
    assert_eq!(cpu_mhz(&chain), Ok(2400));
}

#[test]
fn cpu_speed_missing() {
    let chain = vec![entry("unix", "system_misc", vec![named("nproc", 2, 7)])];
    assert_eq!(cpu_mhz(&chain), Err(KstatError::CpuSpeedNotFound));
    assert_eq!(cpu_mhz(&[]), Err(KstatError::CpuSpeedNotFound));
}

#[test]
fn unreadable_record_is_skipped() {
    let mut first = entry("cpu_info", "cpu_info0", vec![named("clock_MHz", 3, 1000)]);
    first.readable = false;
    let chain = vec![first, entry("cpu_info", "cpu_info1", vec![named("clock_MHz", 3, 2000)])];
    assert_eq!(cpu_mhz(&chain), Ok(2000));
}

#[test]
fn boot_time_reads_low_word() {
    let chain = vec![
        entry("unix", "other", vec![named("boot_time", 2, 5)]),
        entry("unix", "system_misc", vec![named("boot_time", 2, 0x1_6000_0000)]),
    ];
    assert_eq!(boot_time(&chain), Ok(0x6000_0000));
    assert_eq!(nproc(&chain), Err(KstatError::ProcessCountNotFound));
}

#[test]
fn process_count() {
    let chain = vec![entry("unix", "system_misc", vec![named("boot_time", 2, 1), named("nproc", 2, 312)])];
    assert_eq!(nproc(&chain), Ok(312));
    assert_eq!(boot_time(&[]), Err(KstatError::BootTimeNotFound));
}

#[test]
fn pages_need_both_counters() {
    let chain = vec![
        entry("unix", "system_pages", vec![named("freemem", 4, 10)]),
        entry("unix", "system_pages", vec![named("physmem", 4, 400), named("freemem", 4, 100)]),
    ];
    assert_eq!(pages(&chain), Ok(Pages { freemem: 100, physmem: 400 }));
    assert_eq!(pages(&chain[..1]), Err(KstatError::PagesNotAvailable));
}

#[test]
fn typed_accessors() {
    let e = entry("zfs", "arcstats", vec![named("c", 4, u64::MAX), named("c", 4, 1)]);
    assert_eq!(e.data_u64(b"c"), Some(u64::MAX));
    assert_eq!(e.data_ulong(b"c"), Some(u64::MAX));
    assert_eq!(e.data_long(b"c"), Some(-1));
    assert_eq!(e.data_u32(b"c"), Some(u32::MAX));
    assert_eq!(e.data_u64(b"c_min"), None);
    let mut io = e;
    io.type_ = KSTAT_TYPE_IO;
    assert_eq!(io.data_u64(b"c"), None);
    assert_eq!(io.ndata(), 0);
}

#[test]
fn values_by_data_type() {
    assert_eq!(named("a", 0, 0x1ff).value(), KstatDataValue::Char(-1));
    assert_eq!(named("a", 1, 0xffff_ffff).value(), KstatDataValue::S32(-1));
    assert_eq!(named("a", 2, 0x1_0000_0002).value(), KstatDataValue::U32(2));
    assert_eq!(named("a", 3, u64::MAX).value(), KstatDataValue::S64(-1));
    assert_eq!(named("a", 4, 9).value(), KstatDataValue::U64(9));
    assert_eq!(named("a", 7, 9).value(), KstatDataValue::Unknown(7));
}

#[test]
fn data_get_and_ndata() {
    let e = entry("unix", "system_misc", vec![named("a", 2, 3), named("b", 1, 0xffff_fffe)]);
    assert_eq!(e.ndata(), 2);
    assert_eq!(e.data_get(1), Some(KstatDataValue::S32(-2)));
    assert_eq!(e.data_get(2), None);
}

#[test]
fn io_counters_only_for_io_records() {
    let counters = KstatDataIo {
        nread: 1,
        nwritten: 2,
        reads: 3,
        writes: 4,
        wtime: 5,
        wlentime: 6,
        wlastupdate: 7,
        rtime: 8,
        rlentime: 9,
        rlastupdate: 10,
        wcnt: 11,
        rcnt: 12,
    };
    let mut e = entry("sd", "sd0", vec![]);
    e.io = Some(counters);
    assert_eq!(e.io(), None);
    e.type_ = KSTAT_TYPE_IO;
    assert_eq!(e.io(), Some(counters));
}
