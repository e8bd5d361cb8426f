//! Kernel statistics records, as read from the statistics chain, and the
//! rules that pick named counters out of them.
//!
//! A chain is handed over as the records that a walk visits from the
//! position of a lookup onwards, each already read.

use vstd::prelude::*;
use vstd::string::StringSliceAdditionalSpecFns;

verus! {

pub const MODULE_CPU_INFO: &'static str = "cpu_info";
pub const STAT_CLOCK_MHZ: &'static str = "clock_MHz";
pub const MODULE_UNIX: &'static str = "unix";
pub const NAME_SYSTEM_MISC: &'static str = "system_misc";
pub const STAT_BOOT_TIME: &'static str = "boot_time";
pub const STAT_NPROC: &'static str = "nproc";
pub const NAME_SYSTEM_PAGES: &'static str = "system_pages";
pub const STAT_FREEMEM: &'static str = "freemem";
pub const STAT_PHYSMEM: &'static str = "physmem";
pub const STAT_AVAILRMEM: &'static str = "availrmem";
pub const MODULE_ZFS: &'static str = "zfs";
pub const NAME_ARCSTATS: &'static str = "arcstats";
pub const STAT_C: &'static str = "c";
pub const STAT_C_MIN: &'static str = "c_min";
pub const STAT_C_MAX: &'static str = "c_max";

/// Record type of a record of named values.
pub const KSTAT_TYPE_NAMED: u8 = 1;
/// Record type of an I/O counters record.
pub const KSTAT_TYPE_IO: u8 = 3;

pub const KSTAT_DATA_CHAR: u8 = 0;
pub const KSTAT_DATA_INT32: u8 = 1;
pub const KSTAT_DATA_UINT32: u8 = 2;
pub const KSTAT_DATA_INT64: u8 = 3;
pub const KSTAT_DATA_UINT64: u8 = 4;

/// The counters of an I/O record.
#[derive(Clone, Copy, PartialEq, Eq, Structural, Debug)]
pub struct KstatDataIo {
    pub nread: u64,
    pub nwritten: u64,
    pub reads: u32,
    pub writes: u32,
    pub wtime: i64,
    pub wlentime: i64,
    pub wlastupdate: i64,
    pub rtime: i64,
    pub rlentime: i64,
    pub rlastupdate: i64,
    pub wcnt: u32,
    pub rcnt: u32,
}

/// A named value, by its declared data type.
#[derive(Clone, Copy, PartialEq, Eq, Structural, Debug)]
pub enum KstatDataValue {
    Char(i8),
    S32(i32),
    U32(u32),
    S64(i64),
    U64(u64),
    Unknown(u8),
}

/// One named value of a record. `raw` holds the first eight bytes of the
/// value as a little-endian word; the narrower types are its low bytes.
#[derive(Debug)]
pub struct KstatNamed {
    pub name: Vec<u8>,
    pub data_type: u8,
    pub raw: u64,
}

/// One record of the chain. `readable` tells whether reading its data
/// succeeded; `io` holds the counters of an I/O record.
#[derive(Debug)]
pub struct KstatEntry {
    pub module: Vec<u8>,
    pub name: Vec<u8>,
    pub class: Vec<u8>,
    pub instance: i32,
    pub type_: u8,
    pub readable: bool,
    pub data: Vec<KstatNamed>,
    pub io: Option<KstatDataIo>,
}

/// Pages of memory, free and in all.
#[derive(Clone, Copy, PartialEq, Eq, Structural, Debug)]
pub struct Pages {
    pub freemem: u64,
    pub physmem: u64,
}

/// The counter that a search was after is in no matching record.
#[derive(Clone, Copy, PartialEq, Eq, Structural, Debug)]
pub enum KstatError {
    CpuSpeedNotFound,
    BootTimeNotFound,
    ProcessCountNotFound,
    PagesNotAvailable,
}

pub open spec fn decode_value(data_type: u8, raw: u64) -> KstatDataValue {
    if data_type == KSTAT_DATA_CHAR {
        KstatDataValue::Char(raw as u8 as i8)
    } else if data_type == KSTAT_DATA_INT32 {
        KstatDataValue::S32(raw as u32 as i32)
    } else if data_type == KSTAT_DATA_INT64 {
        KstatDataValue::S64(raw as i64)
    } else if data_type == KSTAT_DATA_UINT32 {
        KstatDataValue::U32(raw as u32)
    } else if data_type == KSTAT_DATA_UINT64 {
        KstatDataValue::U64(raw)
    } else {
        KstatDataValue::Unknown(data_type)
    }
}

/// The value of the first entry named `stat`.
pub open spec fn named_lookup(data: Seq<KstatNamed>, stat: Seq<u8>) -> Option<u64>
    decreases data.len(),
{
    if data.len() == 0 {
        None
    } else if data[0].name@ == stat {
        Some(data[0].raw)
    } else {
        named_lookup(data.drop_first(), stat)
    }
}

/// The raw value of counter `stat` in a record: only a readable record of
/// named values with at least one entry has one.
pub open spec fn stat_raw(e: KstatEntry, stat: Seq<u8>) -> Option<u64> {
    if e.readable && e.type_ == KSTAT_TYPE_NAMED && e.data@.len() >= 1 {
        named_lookup(e.data@, stat)
    } else {
        None
    }
}

fn bytes_eq(a: &[u8], b: &[u8]) -> (r: bool)
    ensures
        r == (a@ == b@),
{
    if a.len() != b.len() {
        return false;
    }
    let mut i: usize = 0;
    while i < a.len()
        invariant
            i <= a@.len(),
            a@.len() == b@.len(),
            forall|j: int| 0 <= j < i ==> a@[j] == b@[j],
        decreases a@.len() - i,
    {
        if a[i] != b[i] {
            return false;
        }
        i = i + 1;
    }
    assert(a@ =~= b@);
    true
}

impl KstatNamed {
    /// The value read by its declared data type.
    pub fn value(&self) -> (r: KstatDataValue)
        ensures
            r == decode_value(self.data_type, self.raw),
    {
        let t = self.data_type;
        if t == KSTAT_DATA_CHAR {
            KstatDataValue::Char(self.raw as u8 as i8)
        } else if t == KSTAT_DATA_INT32 {
            KstatDataValue::S32(self.raw as u32 as i32)
        } else if t == KSTAT_DATA_INT64 {
            KstatDataValue::S64(self.raw as i64)
        } else if t == KSTAT_DATA_UINT32 {
            KstatDataValue::U32(self.raw as u32)
        } else if t == KSTAT_DATA_UINT64 {
            KstatDataValue::U64(self.raw)
        } else {
            KstatDataValue::Unknown(t)
        }
    }
}

impl KstatEntry {
    /// The number of named values; zero for any other kind of record.
    pub fn ndata(&self) -> (r: usize)
        ensures
            r == (if self.type_ == KSTAT_TYPE_NAMED { self.data@.len() } else { 0 }),
    {
        if self.type_ != KSTAT_TYPE_NAMED {
            0
        } else {
            self.data.len()
        }
    }

    /// The counters of an I/O record; none for any other kind of record.
    pub fn io(&self) -> (r: Option<KstatDataIo>)
        ensures
            r == (if self.type_ == KSTAT_TYPE_IO { self.io } else { None }),
    {
        if self.type_ != KSTAT_TYPE_IO {
            None
        } else {
            self.io
        }
    }

    /// The value of the `n`th named value by its data type.
    pub fn data_get(&self, n: usize) -> (r: Option<KstatDataValue>)
        ensures
            r == (if self.type_ == KSTAT_TYPE_NAMED && n < self.data@.len() {
                Some(decode_value(self.data@[n as int].data_type, self.data@[n as int].raw))
            } else {
                None
            }),
    {
        if self.type_ != KSTAT_TYPE_NAMED || n >= self.data.len() {
            None
        } else {
            Some(self.data[n].value())
        }
    }

    fn data_value(&self, stat: &[u8]) -> (r: Option<u64>)
        ensures
            r == stat_raw(*self, stat@),
    {
        if !self.readable || self.type_ != KSTAT_TYPE_NAMED || self.data.len() < 1 {
            return None;
        }
        let mut i: usize = 0;
        assert(self.data@.skip(0) =~= self.data@);
        while i < self.data.len()
            invariant
                i <= self.data@.len(),
                stat_raw(*self, stat@) == named_lookup(self.data@, stat@),
                named_lookup(self.data@, stat@) == named_lookup(self.data@.skip(i as int), stat@),
            decreases self.data@.len() - i,
        {
            assert(self.data@.skip(i as int)[0] == self.data@[i as int]);
            if bytes_eq(self.data[i].name.as_slice(), stat) {
                return Some(self.data[i].raw);
            }
            assert(self.data@.skip(i as int).drop_first() =~= self.data@.skip(i + 1));
            i = i + 1;
        }
        None
    }

    /// Counter `stat` read as a signed long.
    pub fn data_long(&self, stat: &[u8]) -> (r: Option<i64>)
        ensures
            r == (match stat_raw(*self, stat@) {
                Some(v) => Some(v as i64),
                None => None,
            }),
    {
        match self.data_value(stat) {
            Some(v) => Some(v as i64),
            None => None,
        }
    }

    /// Counter `stat` read as an unsigned long.
    pub fn data_ulong(&self, stat: &[u8]) -> (r: Option<u64>)
        ensures
            r == stat_raw(*self, stat@),
    {
        self.data_value(stat)
    }

    /// Counter `stat` read as an unsigned 32-bit integer.
    pub fn data_u32(&self, stat: &[u8]) -> (r: Option<u32>)
        ensures
            r == (match stat_raw(*self, stat@) {
                Some(v) => Some(v as u32),
                None => None,
            }),
    {
        match self.data_value(stat) {
            Some(v) => Some(v as u32),
            None => None,
        }
    }

    /// Counter `stat` read as an unsigned 64-bit integer.
    pub fn data_u64(&self, stat: &[u8]) -> (r: Option<u64>)
        ensures
            r == stat_raw(*self, stat@),
    {
        self.data_value(stat)
    }
}

/// Whether a record belongs to `module`, and to `name` where one is given.
pub open spec fn entry_is(e: KstatEntry, module: Seq<u8>, name: Option<Seq<u8>>) -> bool {
    &&& e.module@ == module
    &&& match name {
        Some(n) => e.name@ == n,
        None => true,
    }
}

/// The raw value of counter `stat` in the first record of `chain` that
/// belongs to `module` (and `name`) and has that counter.
pub open spec fn first_raw(chain: Seq<KstatEntry>, module: Seq<u8>, name: Option<Seq<u8>>, stat: Seq<u8>) -> Option<u64>
    decreases chain.len(),
{
    if chain.len() == 0 {
        None
    } else if entry_is(chain[0], module, name) && stat_raw(chain[0], stat) is Some {
        stat_raw(chain[0], stat)
    } else {
        first_raw(chain.drop_first(), module, name, stat)
    }
}

/// The free and total page counts of the first system-pages record of
/// `chain` that has both.
pub open spec fn first_pages(chain: Seq<KstatEntry>) -> Option<(u64, u64)>
    decreases chain.len(),
{
    if chain.len() == 0 {
        None
    } else if entry_is(chain[0], MODULE_UNIX.spec_bytes(), Some(NAME_SYSTEM_PAGES.spec_bytes()))
        && stat_raw(chain[0], STAT_FREEMEM.spec_bytes()) is Some
        && stat_raw(chain[0], STAT_PHYSMEM.spec_bytes()) is Some {
        Some((stat_raw(chain[0], STAT_FREEMEM.spec_bytes())->0, stat_raw(chain[0], STAT_PHYSMEM.spec_bytes())->0))
    } else {
        first_pages(chain.drop_first())
    }
}

pub open spec fn opt_bytes(o: Option<&[u8]>) -> Option<Seq<u8>> {
    match o {
        Some(b) => Some(b@),
        None => None,
    }
}

fn entry_matches(e: &KstatEntry, module: &[u8], name: Option<&[u8]>) -> (r: bool)
    ensures
        r == entry_is(*e, module@, opt_bytes(name)),
{
    if !bytes_eq(e.module.as_slice(), module) {
        return false;
    }
    match name {
        Some(n) => bytes_eq(e.name.as_slice(), n),
        None => true,
    }
}

/// Walks `chain` for the first record of `module` (and `name`) that has
/// counter `stat`, and returns its raw value.
fn find_raw(chain: &[KstatEntry], module: &[u8], name: Option<&[u8]>, stat: &[u8]) -> (r: Option<u64>)
    ensures
        r == first_raw(chain@, module@, opt_bytes(name), stat@),
{
    let mut i: usize = 0;
    assert(chain@.skip(0) =~= chain@);
    while i < chain.len()
        invariant
            i <= chain@.len(),
            first_raw(chain@, module@, opt_bytes(name), stat@)
                == first_raw(chain@.skip(i as int), module@, opt_bytes(name), stat@),
        decreases chain@.len() - i,
    {
        assert(chain@.skip(i as int)[0] == chain@[i as int]);
        if entry_matches(&chain[i], module, name) {
            if let Some(v) = chain[i].data_value(stat) {
                return Some(v);
            }
        }
        assert(chain@.skip(i as int).drop_first() =~= chain@.skip(i + 1));
        i = i + 1;
    }
    None
}

/// The clock rate in MHz from the first CPU information record that has it.
pub fn cpu_mhz(chain: &[KstatEntry]) -> (r: Result<u64, KstatError>)
    ensures
        r == (match first_raw(chain@, MODULE_CPU_INFO.spec_bytes(), None, STAT_CLOCK_MHZ.spec_bytes()) {
            Some(v) => Ok::<u64, KstatError>(v as i64 as u64),
            None => Err(KstatError::CpuSpeedNotFound),
        }),
{
    match find_raw(chain, MODULE_CPU_INFO.as_bytes(), None, STAT_CLOCK_MHZ.as_bytes()) {
        Some(v) => Ok(v as i64 as u64),
        None => Err(KstatError::CpuSpeedNotFound),
    }
}

/// The boot time, in seconds since the epoch, from the system record.
pub fn boot_time(chain: &[KstatEntry]) -> (r: Result<u64, KstatError>)
    ensures
        r == (match first_raw(chain@, MODULE_UNIX.spec_bytes(), Some(NAME_SYSTEM_MISC.spec_bytes()), STAT_BOOT_TIME.spec_bytes()) {
            Some(v) => Ok::<u64, KstatError>(v as u32 as u64),
            None => Err(KstatError::BootTimeNotFound),
        }),
{
    match find_raw(chain, MODULE_UNIX.as_bytes(), Some(NAME_SYSTEM_MISC.as_bytes()), STAT_BOOT_TIME.as_bytes()) {
        Some(v) => Ok(v as u32 as u64),
        None => Err(KstatError::BootTimeNotFound),
    }
}

/// The number of processes, from the system record.
pub fn nproc(chain: &[KstatEntry]) -> (r: Result<u64, KstatError>)
    ensures
        r == (match first_raw(chain@, MODULE_UNIX.spec_bytes(), Some(NAME_SYSTEM_MISC.spec_bytes()), STAT_NPROC.spec_bytes()) {
            Some(v) => Ok::<u64, KstatError>(v as u32 as u64),
            None => Err(KstatError::ProcessCountNotFound),
        }),
{
    match find_raw(chain, MODULE_UNIX.as_bytes(), Some(NAME_SYSTEM_MISC.as_bytes()), STAT_NPROC.as_bytes()) {
        Some(v) => Ok(v as u32 as u64),
        None => Err(KstatError::ProcessCountNotFound),
    }
}

/// Free and total memory pages, from the first system-pages record that
/// has both counters.
pub fn pages(chain: &[KstatEntry]) -> (r: Result<Pages, KstatError>)
    ensures
        r == (match first_pages(chain@) {
            Some(p) => Ok::<Pages, KstatError>(Pages { freemem: p.0, physmem: p.1 }),
            None => Err(KstatError::PagesNotAvailable),
        }),
{
    let module = MODULE_UNIX.as_bytes();
    let name = NAME_SYSTEM_PAGES.as_bytes();
    let mut i: usize = 0;
    assert(chain@.skip(0) =~= chain@);
    while i < chain.len()
        invariant
            i <= chain@.len(),
            module@ == MODULE_UNIX.spec_bytes(),
            name@ == NAME_SYSTEM_PAGES.spec_bytes(),
            first_pages(chain@) == first_pages(chain@.skip(i as int)),
        decreases chain@.len() - i,
    {
        assert(chain@.skip(i as int)[0] == chain@[i as int]);
        if entry_matches(&chain[i], module, Some(name)) {
            let freemem = chain[i].data_ulong(STAT_FREEMEM.as_bytes());
            let physmem = chain[i].data_ulong(STAT_PHYSMEM.as_bytes());
            if let (Some(f), Some(p)) = (freemem, physmem) {
                return Ok(Pages { freemem: f, physmem: p });
            }
        }
        assert(chain@.skip(i as int).drop_first() =~= chain@.skip(i + 1));
        i = i + 1;
    }
    Err(KstatError::PagesNotAvailable)
}

} // verus!
