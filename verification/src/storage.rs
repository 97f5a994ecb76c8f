//! The storage pool: data disks, their observed status, the choice of a
//! disk for a new file, and the target path it is written to.
use vstd::prelude::*;

use crate::config::StorageConfig;
use crate::paths::join;
use crate::text::{
    chars_of, contains_char, decimal, decimal_of, extend_chars, extend_str, string_of, text_eq,
    trim, trimmed,
};

verus! {

/// How the allocator ranks eligible disks.
#[derive(Debug, Clone, Copy, PartialEq, Eq, Structural)]
pub enum AllocationStrategy {
    MostFreeSpace,
    LowestUsage,
}

/// Chooses the disk a new file is written to.
#[derive(Debug, Clone, Copy)]
pub struct DiskAllocator {
    pub strategy: AllocationStrategy,
}

impl Default for DiskAllocator {
    fn default() -> (r: Self)
        ensures
            r.strategy == AllocationStrategy::MostFreeSpace,
    {
        DiskAllocator { strategy: AllocationStrategy::MostFreeSpace }
    }
}

/// A configured data disk.
#[derive(Debug, Clone)]
pub struct StorageDisk {
    pub id: String,
    pub label: String,
    pub mountpoint: String,
    pub reserve_bytes: u64,
    pub enabled: bool,
}

/// What was observed of a data disk. `usage_percent` is the whole percent
/// `df` reports, at most 100.
#[derive(Debug, Clone)]
pub struct DiskStatus {
    pub id: String,
    pub label: String,
    pub mountpoint: String,
    pub enabled: bool,
    pub mounted: bool,
    pub writable: bool,
    pub total_bytes: u64,
    pub used_bytes: u64,
    pub available_bytes: u64,
    pub usage_percent: u8,
    pub allocatable_bytes: u64,
}

/// A disk that can take a file of `required` bytes.
pub open spec fn eligible(d: DiskStatus, required: u64) -> bool {
    d.enabled && d.mounted && d.writable && d.allocatable_bytes >= required
}

/// The disk `MostFreeSpace` picks: eligible, with the most allocatable
/// bytes, the last such disk on ties.
pub open spec fn most_free(disks: Seq<DiskStatus>, required: u64, i: int) -> bool {
    &&& 0 <= i < disks.len()
    &&& eligible(disks[i], required)
    &&& forall|j: int|
        0 <= j < disks.len() && eligible(disks[j], required) ==> disks[j].allocatable_bytes
            <= disks[i].allocatable_bytes
    &&& forall|j: int|
        i < j < disks.len() && eligible(disks[j], required) ==> disks[j].allocatable_bytes
            < disks[i].allocatable_bytes
}

/// The disk `LowestUsage` picks: eligible, with the lowest usage, the first
/// such disk on ties.
pub open spec fn least_used(disks: Seq<DiskStatus>, required: u64, i: int) -> bool {
    &&& 0 <= i < disks.len()
    &&& eligible(disks[i], required)
    &&& forall|j: int|
        0 <= j < disks.len() && eligible(disks[j], required) ==> disks[i].usage_percent
            <= disks[j].usage_percent
    &&& forall|j: int|
        0 <= j < i && eligible(disks[j], required) ==> disks[i].usage_percent
            < disks[j].usage_percent
}

pub open spec fn any_eligible(disks: Seq<DiskStatus>, required: u64) -> bool {
    exists|j: int| 0 <= j < disks.len() && eligible(#[trigger] disks[j], required)
}

impl DiskAllocator {
    pub fn new(strategy: AllocationStrategy) -> (r: Self)
        ensures
            r.strategy == strategy,
    {
        DiskAllocator { strategy }
    }

    /// Index of the disk for a file of `required_bytes`, if any disk is
    /// eligible.
    pub fn choose_index(&self, disks: &[DiskStatus], required_bytes: u64) -> (r: Option<usize>)
        ensures
            r is None <==> !any_eligible(disks@, required_bytes),
            r matches Some(i) ==> match self.strategy {
                AllocationStrategy::MostFreeSpace => most_free(disks@, required_bytes, i as int),
                AllocationStrategy::LowestUsage => least_used(disks@, required_bytes, i as int),
            },
    {
        let mut best: Option<usize> = None;
        let mut k: usize = 0;
        while k < disks.len()
            invariant
                k <= disks.len(),
                best is None <==> !(exists|j: int| 0 <= j < k && eligible(#[trigger] disks@[j], required_bytes)),
                best matches Some(i) ==> i < k && match self.strategy {
                    AllocationStrategy::MostFreeSpace => {
                        &&& eligible(disks@[i as int], required_bytes)
                        &&& forall|j: int|
                            0 <= j < k && eligible(disks@[j], required_bytes)
                                ==> disks@[j].allocatable_bytes <= disks@[i as int].allocatable_bytes
                        &&& forall|j: int|
                            i < j < k && eligible(disks@[j], required_bytes)
                                ==> disks@[j].allocatable_bytes < disks@[i as int].allocatable_bytes
                    },
                    AllocationStrategy::LowestUsage => {
                        &&& eligible(disks@[i as int], required_bytes)
                        &&& forall|j: int|
                            0 <= j < k && eligible(disks@[j], required_bytes)
                                ==> disks@[i as int].usage_percent <= disks@[j].usage_percent
                        &&& forall|j: int|
                            0 <= j < i && eligible(disks@[j], required_bytes)
                                ==> disks@[i as int].usage_percent < disks@[j].usage_percent
                    },
                },
            decreases disks.len() - k,
        {
            let d = &disks[k];
            if d.enabled && d.mounted && d.writable && d.allocatable_bytes >= required_bytes {
                match best {
                    None => {
                        best = Some(k);
                    },
                    Some(i) => {
                        match self.strategy {
                            AllocationStrategy::MostFreeSpace => {
                                if d.allocatable_bytes >= disks[i].allocatable_bytes {
                                    best = Some(k);
                                }
                            },
                            AllocationStrategy::LowestUsage => {
                                if d.usage_percent < disks[i].usage_percent {
                                    best = Some(k);
                                }
                            },
                        }
                    },
                }
            }
            k += 1;
        }
        best
    }

    /// The disk for a file of `required_bytes`, if any disk is eligible:
    /// by most allocatable bytes or by lowest usage.
    pub fn select<'a>(&self, disks: &'a [DiskStatus], required_bytes: u64) -> (r: Option<
        &'a DiskStatus,
    >)
        ensures
            r is None <==> !any_eligible(disks@, required_bytes),
            r matches Some(d) ==> exists|i: int|
                #![auto]
                0 <= i < disks@.len() && *d == disks@[i] && match self.strategy {
                    AllocationStrategy::MostFreeSpace => most_free(disks@, required_bytes, i),
                    AllocationStrategy::LowestUsage => least_used(disks@, required_bytes, i),
                },
    {
        match self.choose_index(disks, required_bytes) {
            Some(i) => Some(&disks[i]),
            None => None,
        }
    }
}

impl StorageDisk {
    /// An enabled disk without reserved space.
    pub fn new(id: String, label: String, mountpoint: String) -> (r: Self)
        ensures
            r.id@ == id@,
            r.label@ == label@,
            r.mountpoint@ == mountpoint@,
            r.reserve_bytes == 0,
            r.enabled,
    {
        StorageDisk { id, label, mountpoint, reserve_bytes: 0, enabled: true }
    }

    /// The same disk with `reserve_bytes` kept free.
    pub fn with_reserve_bytes(self, reserve_bytes: u64) -> (r: Self)
        ensures
            r.id@ == self.id@,
            r.label@ == self.label@,
            r.mountpoint@ == self.mountpoint@,
            r.reserve_bytes == reserve_bytes,
            r.enabled == self.enabled,
    {
        let mut d = self;
        d.reserve_bytes = reserve_bytes;
        d
    }

    /// The same disk, disabled.
    pub fn disabled(self) -> (r: Self)
        ensures
            r.id@ == self.id@,
            r.label@ == self.label@,
            r.mountpoint@ == self.mountpoint@,
            r.reserve_bytes == self.reserve_bytes,
            !r.enabled,
    {
        let mut d = self;
        d.enabled = false;
        d
    }

    /// The status of this disk from what was probed: whether it is mounted,
    /// whether a write test succeeded, and what `df` reported (total, used,
    /// available bytes and whole percent used). A disk is writable only when
    /// it is enabled and mounted; usage is read only from a mounted disk;
    /// the reserve is kept out of the allocatable space.
    pub fn status_from_probe(
        &self,
        mounted: bool,
        write_test_passed: bool,
        usage: Option<(u64, u64, u64, u8)>,
    ) -> (r: DiskStatus)
        ensures
            r.id@ == self.id@,
            r.label@ == self.label@,
            r.mountpoint@ == self.mountpoint@,
            r.enabled == self.enabled,
            r.mounted == mounted,
            r.writable == (self.enabled && mounted && write_test_passed),
            match (mounted, usage) {
                (true, Some((t, u, a, p))) => r.total_bytes == t && r.used_bytes == u
                    && r.available_bytes == a && r.usage_percent == p,
                _ => r.total_bytes == 0 && r.used_bytes == 0 && r.available_bytes == 0
                    && r.usage_percent == 0,
            },
            r.allocatable_bytes == (if r.available_bytes > self.reserve_bytes {
                r.available_bytes - self.reserve_bytes
            } else {
                0
            }),
    {
        let writable = self.enabled && mounted && write_test_passed;
        let (total_bytes, used_bytes, available_bytes, usage_percent) = match (mounted, usage) {
            (true, Some(u)) => u,
            _ => (0, 0, 0, 0),
        };
        let allocatable_bytes = if available_bytes > self.reserve_bytes {
            available_bytes - self.reserve_bytes
        } else {
            0
        };
        DiskStatus {
            id: self.id.clone(),
            label: self.label.clone(),
            mountpoint: self.mountpoint.clone(),
            enabled: self.enabled,
            mounted,
            writable,
            total_bytes,
            used_bytes,
            available_bytes,
            usage_percent,
            allocatable_bytes,
        }
    }
}

/// Kind of stored media, which decides its directory on the disk.
#[derive(Debug, Clone, Copy, PartialEq, Eq, Structural)]
pub enum MediaKind {
    Photo,
    Video,
    Thumbnail,
    Temporary,
    Trash,
    Metadata,
}

pub open spec fn directory_of(kind: MediaKind) -> Seq<char> {
    match kind {
        MediaKind::Photo => "photos"@,
        MediaKind::Video => "videos"@,
        MediaKind::Thumbnail => "thumbs"@,
        MediaKind::Temporary => "tmp"@,
        MediaKind::Trash => "trash"@,
        MediaKind::Metadata => "metadata"@,
    }
}

impl MediaKind {
    /// Directory of this kind of media on a data disk.
    pub fn directory_name(self) -> (r: &'static str)
        ensures
            r@ == directory_of(self),
    {
        match self {
            MediaKind::Photo => "photos",
            MediaKind::Video => "videos",
            MediaKind::Thumbnail => "thumbs",
            MediaKind::Temporary => "tmp",
            MediaKind::Trash => "trash",
            MediaKind::Metadata => "metadata",
        }
    }
}

/// Where a new file goes.
#[derive(Debug, Clone)]
pub struct StorageTarget {
    pub disk_id: String,
    pub disk_label: String,
    pub mountpoint: String,
    pub media_kind: MediaKind,
    pub relative_path: String,
    pub absolute_path: String,
    pub available_bytes_before_write: u64,
}

/// Why no target could be given.
#[derive(Debug, Clone, PartialEq, Eq)]
pub enum StorageError {
    NoWritableDisk { required_bytes: u64 },
    InvalidFilename,
    Io(String),
}

/// A name that can be used as a file name on the disk.
pub open spec fn filename_ok(f: Seq<char>) -> bool {
    trim(f).len() != 0 && !crate::text::has_char(f, '/') && !crate::text::has_char(f, '\\') && f
        != "."@ && f != ".."@
}

pub fn validate_filename(filename: &str) -> (r: Result<(), StorageError>)
    ensures
        r is Ok <==> filename_ok(filename@),
        r is Err ==> r == Err::<(), StorageError>(StorageError::InvalidFilename),
{
    let c = chars_of(filename);
    let t = trimmed(&c);
    if t.len() == 0 || contains_char(&c, '/') || contains_char(&c, '\\') || text_eq(filename, ".")
        || text_eq(filename, "..") {
        return Err(StorageError::InvalidFilename);
    }
    Ok(())
}

/// `<kind directory>/<filename>` on the chosen disk.
pub fn create_target(disk: &DiskStatus, media_kind: MediaKind, filename: &str) -> (r: StorageTarget)
    ensures
        r.disk_id@ == disk.id@,
        r.disk_label@ == disk.label@,
        r.mountpoint@ == disk.mountpoint@,
        r.media_kind == media_kind,
        r.relative_path@ == directory_of(media_kind) + "/"@ + filename@,
        r.absolute_path@ == join(disk.mountpoint@, directory_of(media_kind) + "/"@ + filename@),
        r.available_bytes_before_write == disk.available_bytes,
{
    let mut rel = chars_of(media_kind.directory_name());
    extend_str(&mut rel, "/");
    extend_str(&mut rel, filename);
    let mut abs = chars_of(disk.mountpoint.as_str());
    if abs.len() > 0 && abs[abs.len() - 1] == '/' {
        extend_chars(&mut abs, &rel);
    } else {
        extend_str(&mut abs, "/");
        extend_chars(&mut abs, &rel);
    }
    StorageTarget {
        disk_id: disk.id.clone(),
        disk_label: disk.label.clone(),
        mountpoint: disk.mountpoint.clone(),
        media_kind,
        relative_path: string_of(&rel),
        absolute_path: string_of(&abs),
        available_bytes_before_write: disk.available_bytes,
    }
}

/// The configured data disk mount points that are not blank, in order.
pub open spec fn data_disks_of(s: StorageConfig) -> Seq<Seq<char>> {
    let a = if trim(s.disk1@).len() != 0 {
        seq![s.disk1@]
    } else {
        Seq::<Seq<char>>::empty()
    };
    let b = if trim(s.disk2@).len() != 0 {
        seq![s.disk2@]
    } else {
        Seq::<Seq<char>>::empty()
    };
    a + b
}

/// The mount points of the configured data disks.
pub fn photoos_data_disks(storage: &StorageConfig) -> (r: Vec<String>)
    ensures
        r.deep_view() == data_disks_of(*storage),
{
    let mut r: Vec<String> = Vec::new();
    let d1 = chars_of(storage.disk1.as_str());
    if trimmed(&d1).len() != 0 {
        r.push(storage.disk1.clone());
    }
    let d2 = chars_of(storage.disk2.as_str());
    if trimmed(&d2).len() != 0 {
        r.push(storage.disk2.clone());
    }
    assert(r.deep_view() =~= data_disks_of(*storage));
    r
}

/// A set of data disks used together.
#[derive(Debug, Clone)]
pub struct StoragePool {
    pub name: String,
    pub disks: Vec<StorageDisk>,
    pub allocator: DiskAllocator,
}

impl StoragePool {
    /// One disk per configured data disk, numbered from 1:
    /// `disk<n>` labelled `PhotoOS Data <n>`, allocating by free space.
    pub fn photoos_default(storage: &StorageConfig) -> (r: Self)
        ensures
            r.name@ == "PhotoOS Storage Pool"@,
            r.allocator.strategy == AllocationStrategy::MostFreeSpace,
            r.disks.len() == data_disks_of(*storage).len(),
            forall|i: int|
                0 <= i < r.disks.len() ==> {
                    &&& (#[trigger] r.disks@[i]).mountpoint@ == data_disks_of(*storage)[i]
                    &&& r.disks@[i].id@ == "disk"@ + decimal((i + 1) as nat)
                    &&& r.disks@[i].label@ == "PhotoOS Data "@ + decimal((i + 1) as nat)
                    &&& r.disks@[i].reserve_bytes == 0
                    &&& r.disks@[i].enabled
                },
    {
        let mountpoints = photoos_data_disks(storage);
        let mut disks: Vec<StorageDisk> = Vec::new();
        let mut i: usize = 0;
        assert(mountpoints.deep_view().len() == mountpoints@.len());
        while i < mountpoints.len()
            invariant
                i <= mountpoints.len(),
                mountpoints.len() <= 2,
                mountpoints.deep_view() == data_disks_of(*storage),
                disks.len() == i,
                forall|k: int|
                    0 <= k < i ==> {
                        &&& (#[trigger] disks@[k]).mountpoint@ == data_disks_of(*storage)[k]
                        &&& disks@[k].id@ == "disk"@ + decimal((k + 1) as nat)
                        &&& disks@[k].label@ == "PhotoOS Data "@ + decimal((k + 1) as nat)
                        &&& disks@[k].reserve_bytes == 0
                        &&& disks@[k].enabled
                    },
            decreases mountpoints.len() - i,
        {
            let number = decimal_of((i + 1) as u64);
            let mut id = chars_of("disk");
            extend_chars(&mut id, &number);
            let mut label = chars_of("PhotoOS Data ");
            extend_chars(&mut label, &number);
            assert(mountpoints.deep_view()[i as int] == mountpoints@[i as int]@);
            let disk = StorageDisk::new(string_of(&id), string_of(&label), mountpoints[i].clone());
            disks.push(disk);
            i += 1;
        }
        StoragePool {
            name: "PhotoOS Storage Pool".to_string(),
            disks,
            allocator: DiskAllocator::default(),
        }
    }
}

/// Counts and byte totals of a pool's disks.
#[derive(Debug, Clone, Copy, PartialEq, Eq)]
pub struct PoolTotals {
    pub disk_count: usize,
    pub mounted_disk_count: usize,
    pub writable_disk_count: usize,
    pub total_bytes: u64,
    pub used_bytes: u64,
    pub available_bytes: u64,
    pub allocatable_bytes: u64,
}

pub open spec fn sum_mounted(d: Seq<DiskStatus>, f: ByteField) -> nat
    decreases d.len(),
{
    if d.len() == 0 {
        0
    } else {
        sum_mounted(d.drop_last(), f) + if d.last().mounted {
            field_of(d.last(), f) as nat
        } else {
            0nat
        }
    }
}

pub open spec fn sum_writable(d: Seq<DiskStatus>) -> nat
    decreases d.len(),
{
    if d.len() == 0 {
        0
    } else {
        sum_writable(d.drop_last()) + if d.last().mounted && d.last().writable {
            d.last().allocatable_bytes as nat
        } else {
            0nat
        }
    }
}

pub open spec fn count_mounted(d: Seq<DiskStatus>) -> nat
    decreases d.len(),
{
    if d.len() == 0 {
        0
    } else {
        count_mounted(d.drop_last()) + if d.last().mounted {
            1nat
        } else {
            0nat
        }
    }
}

pub open spec fn count_writable(d: Seq<DiskStatus>) -> nat
    decreases d.len(),
{
    if d.len() == 0 {
        0
    } else {
        count_writable(d.drop_last()) + if d.last().mounted && d.last().writable {
            1nat
        } else {
            0nat
        }
    }
}

/// A byte counter of a disk status.
pub enum ByteField {
    Total,
    Used,
    Available,
}

pub open spec fn field_of(s: DiskStatus, f: ByteField) -> u64 {
    match f {
        ByteField::Total => s.total_bytes,
        ByteField::Used => s.used_bytes,
        ByteField::Available => s.available_bytes,
    }
}

proof fn lemma_sum_prefix(d: Seq<DiskStatus>, f: ByteField, n: int)
    requires
        0 <= n <= d.len(),
    ensures
        sum_mounted(d.take(n), f) <= sum_mounted(d, f),
    decreases d.len() - n,
{
    if n < d.len() {
        lemma_sum_prefix(d, f, n + 1);
        assert(d.take(n + 1).drop_last() =~= d.take(n));
    } else {
        assert(d.take(n) =~= d);
    }
}

proof fn lemma_writable_prefix(d: Seq<DiskStatus>, n: int)
    requires
        0 <= n <= d.len(),
    ensures
        sum_writable(d.take(n)) <= sum_writable(d),
    decreases d.len() - n,
{
    if n < d.len() {
        lemma_writable_prefix(d, n + 1);
        assert(d.take(n + 1).drop_last() =~= d.take(n));
    } else {
        assert(d.take(n) =~= d);
    }
}

/// Totals over the mounted disks (allocatable space over the mounted and
/// writable ones), with the number of disks, mounted disks and writable
/// disks.
pub fn pool_totals(disks: &[DiskStatus]) -> (r: PoolTotals)
    requires
        sum_mounted(disks@, ByteField::Total) <= u64::MAX,
        sum_mounted(disks@, ByteField::Used) <= u64::MAX,
        sum_mounted(disks@, ByteField::Available) <= u64::MAX,
        sum_writable(disks@) <= u64::MAX,
    ensures
        r.disk_count == disks@.len(),
        r.mounted_disk_count == count_mounted(disks@),
        r.writable_disk_count == count_writable(disks@),
        r.total_bytes == sum_mounted(disks@, ByteField::Total),
        r.used_bytes == sum_mounted(disks@, ByteField::Used),
        r.available_bytes == sum_mounted(disks@, ByteField::Available),
        r.allocatable_bytes == sum_writable(disks@),
{
    let mut r = PoolTotals {
        disk_count: disks.len(),
        mounted_disk_count: 0,
        writable_disk_count: 0,
        total_bytes: 0,
        used_bytes: 0,
        available_bytes: 0,
        allocatable_bytes: 0,
    };
    let mut i: usize = 0;
    while i < disks.len()
        invariant
            i <= disks.len(),
            r.disk_count == disks@.len(),
            sum_mounted(disks@, ByteField::Total) <= u64::MAX,
            sum_mounted(disks@, ByteField::Used) <= u64::MAX,
            sum_mounted(disks@, ByteField::Available) <= u64::MAX,
            sum_writable(disks@) <= u64::MAX,
            r.mounted_disk_count == count_mounted(disks@.take(i as int)),
            r.writable_disk_count == count_writable(disks@.take(i as int)),
            r.mounted_disk_count <= i,
            r.writable_disk_count <= i,
            r.total_bytes == sum_mounted(disks@.take(i as int), ByteField::Total),
            r.used_bytes == sum_mounted(disks@.take(i as int), ByteField::Used),
            r.available_bytes == sum_mounted(disks@.take(i as int), ByteField::Available),
            r.allocatable_bytes == sum_writable(disks@.take(i as int)),
        decreases disks.len() - i,
    {
        proof {
            assert(disks@.take(i + 1).drop_last() =~= disks@.take(i as int));
            lemma_sum_prefix(disks@, ByteField::Total, i + 1);
            lemma_sum_prefix(disks@, ByteField::Used, i + 1);
            lemma_sum_prefix(disks@, ByteField::Available, i + 1);
            lemma_writable_prefix(disks@, i + 1);
        }
        let d = &disks[i];
        if d.mounted {
            r.mounted_disk_count = r.mounted_disk_count + 1;
            r.total_bytes = r.total_bytes + d.total_bytes;
            r.used_bytes = r.used_bytes + d.used_bytes;
            r.available_bytes = r.available_bytes + d.available_bytes;
            if d.writable {
                r.writable_disk_count = r.writable_disk_count + 1;
                r.allocatable_bytes = r.allocatable_bytes + d.allocatable_bytes;
            }
        }
        i += 1;
    }
    assert(disks@.take(disks.len() as int) =~= disks@);
    r
}

/// Storage engine: a pool and the rules for placing new files.
#[derive(Debug, Clone)]
pub struct StorageEngine {
    pub pool: StoragePool,
}

impl StorageEngine {
    pub fn new(pool: StoragePool) -> (r: Self)
        ensures
            r.pool == pool,
    {
        StorageEngine { pool }
    }

    /// The engine over the configured data disks.
    pub fn photoos_default(storage: &StorageConfig) -> (r: Self)
        ensures
            r.pool.name@ == "PhotoOS Storage Pool"@,
            r.pool.disks.len() == data_disks_of(*storage).len(),
    {
        StorageEngine { pool: StoragePool::photoos_default(storage) }
    }

    /// Places a new file given the pool's current disk status: the name
    /// must be a plain file name, and the allocator must find a disk.
    pub fn allocate_from_status(
        &self,
        disks: &[DiskStatus],
        media_kind: MediaKind,
        filename: &str,
        required_bytes: u64,
    ) -> (r: Result<StorageTarget, StorageError>)
        ensures
            !filename_ok(filename@) ==> r == Err::<StorageTarget, StorageError>(
                StorageError::InvalidFilename,
            ),
            filename_ok(filename@) && !any_eligible(disks@, required_bytes) ==> r == Err::<
                StorageTarget,
                StorageError,
            >(StorageError::NoWritableDisk { required_bytes }),
            r matches Ok(t) ==> exists|i: int|
                #![auto]
                0 <= i < disks@.len() && t.disk_id@ == disks@[i].id@ && eligible(
                    disks@[i],
                    required_bytes,
                ) && t.relative_path@ == directory_of(media_kind) + "/"@ + filename@
                    && match self.pool.allocator.strategy {
                    AllocationStrategy::MostFreeSpace => most_free(disks@, required_bytes, i),
                    AllocationStrategy::LowestUsage => least_used(disks@, required_bytes, i),
                },
    {
        validate_filename(filename)?;
        match self.pool.allocator.choose_index(disks, required_bytes) {
            None => Err(StorageError::NoWritableDisk { required_bytes }),
            Some(i) => Ok(create_target(&disks[i], media_kind, filename)),
        }
    }
}

/// The allocator never places a file on a disk that is disabled, not
/// mounted, not writable or without room for it.
pub proof fn lemma_chosen_disk_has_room(disks: Seq<DiskStatus>, required: u64, i: int)
    requires
        most_free(disks, required, i) || least_used(disks, required, i),
    ensures
        disks[i].enabled,
        disks[i].mounted,
        disks[i].writable,
        disks[i].allocatable_bytes >= required,
{
}

} // verus!
