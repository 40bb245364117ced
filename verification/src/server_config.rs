//! Process configuration and host telemetry.

use crate::text::{same, to_chars};
use vstd::prelude::*;

verus! {

/// The configuration of the process: the secret that operators share.
#[derive(Debug, PartialEq, Eq)]
pub struct ServerConfig {
    pub master_key: String,
}

/// The secret of a host that was given none. It is known to everybody: such a
/// host is not protected.
pub open spec fn default_master_key() -> Seq<char> {
    "master_key"@
}

impl ServerConfig {
    /// The configuration with the stored secret, or with the default secret
    /// where none is stored.
    pub fn new(stored: Option<String>) -> (config: ServerConfig)
        ensures
            config.master_key@ == match stored {
                Some(key) => key@,
                None => default_master_key(),
            },
    {
        match stored {
            Some(key) => ServerConfig { master_key: key },
            None => ServerConfig { master_key: "master_key".to_owned() },
        }
    }

    /// Whether `key` is the shared secret.
    pub fn validate_master_key(&self, key: &str) -> (ok: bool)
        ensures
            ok == (key@ == self.master_key@),
    {
        same(&to_chars(key), &to_chars(self.master_key.as_str()))
    }
}

/// One telemetry sample: memory, processor and disk use in percent, and the
/// bytes that went over the network.
#[derive(Clone, Copy, Debug, PartialEq, Eq, Structural)]
pub struct ServerStats {
    pub memory: u8,
    pub cpu: u8,
    pub disk: u8,
    pub network: u64,
}

/// One disk: its size and what is free of it, in bytes.
#[derive(Clone, Copy, Debug, PartialEq, Eq, Structural)]
pub struct Disk {
    pub total: u64,
    pub available: u64,
}

/// One network interface: the bytes received and sent.
#[derive(Clone, Copy, Debug, PartialEq, Eq, Structural)]
pub struct Interface {
    pub received: u64,
    pub transmitted: u64,
}

/// What was read from the host for one sample.
#[derive(Debug, PartialEq, Eq)]
pub struct Readings {
    /// Memory in use, in bytes.
    pub used_memory: u64,
    /// Memory in all, in bytes.
    pub total_memory: u64,
    /// The use of each processor core, in percent.
    pub cores: Vec<u8>,
    pub disks: Vec<Disk>,
    pub interfaces: Vec<Interface>,
}

/// `part` of `whole` in percent, rounded down, at most 100; 0 of nothing.
pub open spec fn percentage(part: int, whole: int) -> int {
    if whole <= 0 {
        0
    } else if part * 100 / whole > 100 {
        100
    } else {
        part * 100 / whole
    }
}

/// `n`, or the greatest `u64` where `n` is beyond it.
pub open spec fn capped(n: int) -> int {
    if n > u64::MAX {
        u64::MAX as int
    } else {
        n
    }
}

/// The size of all `disks` together.
pub open spec fn capacity(disks: Seq<Disk>) -> int
    decreases disks.len(),
{
    if disks.len() == 0 {
        0
    } else {
        capacity(disks.drop_last()) + disks.last().total
    }
}

/// What is free on all `disks` together.
pub open spec fn free_space(disks: Seq<Disk>) -> int
    decreases disks.len(),
{
    if disks.len() == 0 {
        0
    } else {
        free_space(disks.drop_last()) + disks.last().available
    }
}

/// What is in use on all `disks` together: their size less what is free,
/// each capped, and 0 where more is free than there is.
pub open spec fn used_space(disks: Seq<Disk>) -> int {
    if capped(free_space(disks)) > capped(capacity(disks)) {
        0
    } else {
        capped(capacity(disks)) - capped(free_space(disks))
    }
}

/// The bytes received and sent over all `interfaces` together.
pub open spec fn traffic(interfaces: Seq<Interface>) -> int
    decreases interfaces.len(),
{
    if interfaces.len() == 0 {
        0
    } else {
        traffic(interfaces.drop_last()) + interfaces.last().received
            + interfaces.last().transmitted
    }
}

/// The use of all `cores` added up.
pub open spec fn load(cores: Seq<u8>) -> int
    decreases cores.len(),
{
    if cores.len() == 0 {
        0
    } else {
        load(cores.drop_last()) + cores.last()
    }
}

/// The mean use of `cores`, rounded down, at most 100; 0 without cores.
pub open spec fn mean_load(cores: Seq<u8>) -> int {
    if cores.len() == 0 {
        0
    } else if load(cores) / (cores.len() as int) > 100 {
        100
    } else {
        load(cores) / (cores.len() as int)
    }
}

/// `part` of `whole` in percent.
pub fn percent(part: u64, whole: u64) -> (p: u8)
    ensures
        p == percentage(part as int, whole as int),
        p <= 100,
{
    if whole == 0 {
        return 0;
    }
    let scaled: u128 = (part as u128) * 100;
    let ratio: u128 = scaled / (whole as u128);
    if ratio > 100 {
        100
    } else {
        ratio as u8
    }
}

/// `a + b`, capped.
fn add_capped(a: u64, b: u64) -> (sum: u64)
    ensures
        sum == capped(a + b),
{
    if b > u64::MAX - a {
        u64::MAX
    } else {
        a + b
    }
}

/// The size of all `disks` together and what is free on them, each capped.
fn disk_space(disks: &Vec<Disk>) -> (r: (u64, u64))
    ensures
        r.0 == capped(capacity(disks@)),
        r.1 == capped(free_space(disks@)),
{
    let mut total: u64 = 0;
    let mut available: u64 = 0;
    let mut i: usize = 0;
    assert(disks@.take(0) =~= Seq::<Disk>::empty());
    while i < disks.len()
        invariant
            i <= disks.len(),
            total == capped(capacity(disks@.take(i as int))),
            available == capped(free_space(disks@.take(i as int))),
            capacity(disks@.take(i as int)) >= 0,
            free_space(disks@.take(i as int)) >= 0,
        decreases disks.len() - i,
    {
        assert(disks@.take(i + 1).drop_last() =~= disks@.take(i as int));
        total = add_capped(total, disks[i].total);
        available = add_capped(available, disks[i].available);
        i += 1;
    }
    assert(disks@.take(i as int) =~= disks@);
    (total, available)
}

/// The bytes received and sent over all `interfaces` together, capped.
fn network_traffic(interfaces: &Vec<Interface>) -> (bytes: u64)
    ensures
        bytes == capped(traffic(interfaces@)),
{
    let mut bytes: u64 = 0;
    let mut i: usize = 0;
    assert(interfaces@.take(0) =~= Seq::<Interface>::empty());
    while i < interfaces.len()
        invariant
            i <= interfaces.len(),
            bytes == capped(traffic(interfaces@.take(i as int))),
            traffic(interfaces@.take(i as int)) >= 0,
        decreases interfaces.len() - i,
    {
        assert(interfaces@.take(i + 1).drop_last() =~= interfaces@.take(i as int));
        bytes = add_capped(add_capped(bytes, interfaces[i].received), interfaces[i].transmitted);
        i += 1;
    }
    assert(interfaces@.take(i as int) =~= interfaces@);
    bytes
}

/// The mean use of `cores`.
fn processor_use(cores: &Vec<u8>) -> (p: u8)
    ensures
        p == mean_load(cores@),
        p <= 100,
{
    if cores.len() == 0 {
        return 0;
    }
    let mut sum: u128 = 0;
    let mut i: usize = 0;
    assert(cores@.take(0) =~= Seq::<u8>::empty());
    while i < cores.len()
        invariant
            i <= cores.len(),
            sum == load(cores@.take(i as int)),
            sum <= 255 * i,
        decreases cores.len() - i,
    {
        assert(cores@.take(i + 1).drop_last() =~= cores@.take(i as int));
        sum = sum + cores[i] as u128;
        i += 1;
    }
    assert(cores@.take(i as int) =~= cores@);
    let mean: u128 = sum / (cores.len() as u128);
    if mean > 100 {
        100
    } else {
        mean as u8
    }
}

/// The sample that `readings` give. Each percentage is between 0 and 100,
/// and a host without disk capacity uses 0 percent of it.
pub fn sys_info(readings: &Readings) -> (stats: ServerStats)
    ensures
        stats.memory == percentage(readings.used_memory as int, readings.total_memory as int),
        stats.cpu == mean_load(readings.cores@),
        stats.disk == percentage(
            used_space(readings.disks@),
            capped(capacity(readings.disks@)),
        ),
        stats.network == capped(traffic(readings.interfaces@)),
        stats.memory <= 100 && stats.cpu <= 100 && stats.disk <= 100,
        capacity(readings.disks@) == 0 ==> stats.disk == 0,
{
    let (total, available) = disk_space(&readings.disks);
    let used: u64 = if available > total {
        0
    } else {
        total - available
    };
    ServerStats {
        memory: percent(readings.used_memory, readings.total_memory),
        cpu: processor_use(&readings.cores),
        disk: percent(used, total),
        network: network_traffic(&readings.interfaces),
    }
}

} // verus!
