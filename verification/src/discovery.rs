//! LAN discovery: the cache of devices seen so far, what a sweep adds to it, and how it is
//! loaded and saved.
//!
//! A sweep reports devices; the cache keeps one entry per device id. Entries are replaced by id
//! when a device is seen again and kept when it is not, so that one missed broadcast orphans no
//! device.
use vstd::prelude::*;

use crate::ip::{self, IpAddr};
use crate::text;

verus! {

/// The name of the cache file in the program's data directory.
pub const CACHE_FILE_NAME: &'static str = "tapo_devices.json";

/// The name of the temporary file beside a file of the given name.
pub fn temp_file_name(file_name: &str) -> (r: String)
    ensures
        r@ == file_name@ + ".tmp"@,
{
    let mut r: String = file_name.to_owned();
    r.append(".tmp");
    r
}

/// A point in time: seconds since the Unix epoch, and nanoseconds within the second.
#[derive(Clone, Copy, Debug, PartialEq, Eq, Structural)]
pub struct Timestamp {
    pub secs: i64,
    pub nanos: u32,
}

/// One row of the discovery cache.
#[derive(Clone, Debug, PartialEq, Eq)]
pub struct DiscoveredDevice {
    pub device_id: String,
    pub model: String,
    pub nickname: String,
    pub ip: String,
    pub last_seen: Timestamp,
}

/// The devices seen on the LAN, told apart by `device_id`.
#[derive(Clone, Debug, PartialEq, Eq)]
pub struct DeviceCache {
    pub devices: Vec<DiscoveredDevice>,
}

/// The device ids of the rows, in order.
pub open spec fn ids(devices: Seq<DiscoveredDevice>) -> Seq<Seq<char>> {
    Seq::new(devices.len(), |i: int| devices[i].device_id@)
}

/// The nicknames of the rows, in order.
pub open spec fn nicknames(devices: Seq<DiscoveredDevice>) -> Seq<Seq<char>> {
    Seq::new(devices.len(), |i: int| devices[i].nickname@)
}

/// The first row with the given device id.
pub open spec fn row_by_id(devices: Seq<DiscoveredDevice>, id: Seq<char>) -> Option<
    DiscoveredDevice,
> {
    match text::position(ids(devices), id) {
        Some(i) => Some(devices[i]),
        None => None,
    }
}

/// The first row with the given nickname.
pub open spec fn row_by_nickname(devices: Seq<DiscoveredDevice>, nickname: Seq<char>) -> Option<
    DiscoveredDevice,
> {
    match text::position(nicknames(devices), nickname) {
        Some(i) => Some(devices[i]),
        None => None,
    }
}

/// The address that the first row with the given nickname names, if there is such a row and its
/// address can be parsed.
pub open spec fn known_address(devices: Seq<DiscoveredDevice>, nickname: Seq<char>) -> Option<
    IpAddr,
> {
    match row_by_nickname(devices, nickname) {
        Some(device) => ip::address(device.ip@),
        None => None,
    }
}

/// The rows with one more device: in the place of the first row with its id, or else at the end.
pub open spec fn put(devices: Seq<DiscoveredDevice>, device: DiscoveredDevice) -> Seq<
    DiscoveredDevice,
> {
    match text::position(ids(devices), device.device_id@) {
        Some(i) => devices.update(i, device),
        None => devices.push(device),
    }
}

/// The rows after a batch of devices was put in, one after the other.
pub open spec fn merged(devices: Seq<DiscoveredDevice>, fresh: Seq<DiscoveredDevice>) -> Seq<
    DiscoveredDevice,
>
    decreases fresh.len(),
{
    if fresh.len() == 0 {
        devices
    } else {
        put(merged(devices, fresh.drop_last()), fresh.last())
    }
}

/// The last device of a batch with the given id.
pub open spec fn latest(fresh: Seq<DiscoveredDevice>, id: Seq<char>) -> Option<DiscoveredDevice>
    decreases fresh.len(),
{
    if fresh.len() == 0 {
        None
    } else if fresh.last().device_id@ == id {
        Some(fresh.last())
    } else {
        latest(fresh.drop_last(), id)
    }
}

/// What became of an attempt to read the cache file.
#[derive(Clone, Debug, PartialEq, Eq)]
pub enum CacheFile {
    /// The file was read and held a cache.
    Parsed(DeviceCache),
    /// The file was read and held something else.
    Unparseable,
    /// There is no file.
    Missing,
    /// The file could not be read.
    Unreadable,
}

impl Default for DeviceCache {
    fn default() -> (r: Self)
        ensures
            r.devices@ == Seq::<DiscoveredDevice>::empty(),
    {
        DeviceCache { devices: Vec::new() }
    }
}

impl DeviceCache {
    /// The cache to start from, given what reading its file came to. Anything but a readable
    /// cache gives an empty one: a corrupted cache never blocks the start of the server.
    pub fn load(file: CacheFile) -> (r: Self)
        ensures
            r.devices@ == (match file {
                CacheFile::Parsed(cache) => cache.devices@,
                _ => Seq::<DiscoveredDevice>::empty(),
            }),
    {
        match file {
            CacheFile::Parsed(cache) => cache,
            CacheFile::Unparseable => DeviceCache::default(),
            CacheFile::Missing => DeviceCache::default(),
            CacheFile::Unreadable => DeviceCache::default(),
        }
    }

    /// Takes in the cache that a refresh came to, in the place of this one.
    pub fn renew(&mut self, fresh: DeviceCache)
        ensures
            *final(self) == fresh,
    {
        *self = fresh;
    }

    /// The first row with the given nickname.
    pub fn lookup_by_nickname(&self, nickname: &str) -> (r: Option<&DiscoveredDevice>)
        ensures
            r is Some <==> row_by_nickname(self.devices@, nickname@) is Some,
            r is Some ==> *r->0 == row_by_nickname(self.devices@, nickname@)->0,
    {
        let key: String = nickname.to_owned();
        let ghost keys = nicknames(self.devices@);
        let mut i: usize = 0;
        while i < self.devices.len()
            invariant
                i <= self.devices@.len(),
                key@ == nickname@,
                keys == nicknames(self.devices@),
                forall|j: int| 0 <= j < i ==> keys[j] != nickname@,
            decreases self.devices@.len() - i,
        {
            if self.devices[i].nickname == key {
                proof {
                    text::first_is_position(keys, nickname@, i as int);
                }
                return Some(&self.devices[i]);
            }
            i = i + 1;
        }
        proof {
            text::position_is_first(keys, nickname@);
        }
        None
    }

    /// The address of the first row with the given nickname, if it can be parsed.
    pub fn address_of(&self, nickname: &str) -> (r: Option<IpAddr>)
        ensures
            r == known_address(self.devices@, nickname@),
    {
        match self.lookup_by_nickname(nickname) {
            Some(device) => ip::parse_ip(device.ip.as_str()),
            None => None,
        }
    }

    fn index_of_id(&self, id: &String) -> (r: Option<usize>)
        ensures
            r is Some <==> text::position(ids(self.devices@), id@) is Some,
            r is Some ==> r->0 == text::position(ids(self.devices@), id@)->0 && r->0
                < self.devices@.len(),
    {
        let ghost keys = ids(self.devices@);
        let mut i: usize = 0;
        while i < self.devices.len()
            invariant
                i <= self.devices@.len(),
                keys == ids(self.devices@),
                forall|j: int| 0 <= j < i ==> keys[j] != id@,
            decreases self.devices@.len() - i,
        {
            if self.devices[i].device_id == *id {
                proof {
                    text::first_is_position(keys, id@, i as int);
                }
                return Some(i);
            }
            i = i + 1;
        }
        proof {
            text::position_is_first(keys, id@);
        }
        None
    }

    /// The first row with the given device id.
    pub fn lookup_by_device_id(&self, id: &str) -> (r: Option<&DiscoveredDevice>)
        ensures
            r is Some <==> row_by_id(self.devices@, id@) is Some,
            r is Some ==> *r->0 == row_by_id(self.devices@, id@)->0,
    {
        let key: String = id.to_owned();
        match self.index_of_id(&key) {
            Some(i) => Some(&self.devices[i]),
            None => None,
        }
    }

    /// Merges a fresh batch into the cache: a device seen this round replaces its entry, and an
    /// entry that was not seen stays.
    pub fn merge_in(&mut self, fresh: Vec<DiscoveredDevice>)
        ensures
            final(self).devices@ == merged(old(self).devices@, fresh@),
    {
        let ghost start = self.devices@;
        let ghost batch = fresh@;
        for new_dev in it: fresh
            invariant
                it.seq() == batch,
                self.devices@ == merged(start, batch.take(it.index())),
        {
            assert(batch.take(it.index() + 1).drop_last() == batch.take(it.index()));
            match self.index_of_id(&new_dev.device_id) {
                Some(i) => {
                    self.devices.set(i, new_dev);
                },
                None => {
                    self.devices.push(new_dev);
                },
            }
        }
        assert(batch.take(batch.len() as int) == batch);
    }
}

/// What one device answered to a sweep.
#[derive(Clone, Debug, PartialEq, Eq)]
pub struct DiscoveryReply {
    pub device_id: String,
    pub model: String,
    pub nickname: String,
    pub ip: String,
}

/// The row for a device that answered at the given time.
pub open spec fn row(reply: DiscoveryReply, now: Timestamp) -> DiscoveredDevice {
    DiscoveredDevice {
        device_id: reply.device_id,
        model: reply.model,
        nickname: reply.nickname,
        ip: reply.ip,
        last_seen: now,
    }
}

/// The rows of the devices that answered, in the order of their answers; a host that failed gives
/// none.
pub open spec fn swept<E>(replies: Seq<(Result<DiscoveryReply, E>, Timestamp)>) -> Seq<
    DiscoveredDevice,
>
    decreases replies.len(),
{
    if replies.len() == 0 {
        Seq::<DiscoveredDevice>::empty()
    } else {
        let before = swept(replies.drop_last());
        match replies.last().0 {
            Ok(reply) => before.push(row(reply, replies.last().1)),
            Err(_) => before,
        }
    }
}

/// The outcome of one sweep, from what each host sent and when it came in.
pub fn discover<E>(replies: Vec<(Result<DiscoveryReply, E>, Timestamp)>) -> (r: Vec<
    DiscoveredDevice,
>)
    ensures
        r@ == swept(replies@),
{
    let ghost all = replies@;
    let mut found: Vec<DiscoveredDevice> = Vec::new();
    for item in it: replies
        invariant
            it.seq() == all,
            found@ == swept(all.take(it.index())),
    {
        assert(all.take(it.index() + 1).drop_last() == all.take(it.index()));
        let (answer, now) = item;
        match answer {
            Ok(reply) => {
                found.push(
                    DiscoveredDevice {
                        device_id: reply.device_id,
                        model: reply.model,
                        nickname: reply.nickname,
                        ip: reply.ip,
                        last_seen: now,
                    },
                );
            },
            Err(_) => {},
        }
    }
    assert(all.take(all.len() as int) == all);
    found
}

/// The cache after a sweep over the one that was loaded, and whether to write it to disk. A sweep
/// that failed leaves the loaded cache as it is and writes nothing.
pub fn discover_and_cache<E>(
    loaded: DeviceCache,
    sweep: Result<Vec<DiscoveredDevice>, E>,
) -> (r: (DeviceCache, bool))
    ensures
        r.1 == sweep is Ok,
        r.0.devices@ == (match sweep {
            Ok(fresh) => merged(loaded.devices@, fresh@),
            Err(_) => loaded.devices@,
        }),
{
    let mut cache = loaded;
    match sweep {
        Ok(fresh) => {
            cache.merge_in(fresh);
            (cache, true)
        },
        Err(_) => (cache, false),
    }
}

/// Takes an on-demand sweep into the cache in memory; a sweep that failed leaves it as it is.
pub fn refresh_in_memory<E>(cache: &mut DeviceCache, sweep: Result<Vec<DiscoveredDevice>, E>)
    ensures
        final(cache).devices@ == (match sweep {
            Ok(fresh) => merged(old(cache).devices@, fresh@),
            Err(_) => old(cache).devices@,
        }),
{
    match sweep {
        Ok(fresh) => {
            cache.merge_in(fresh);
        },
        Err(_) => {},
    }
}

/// A host that fails takes nothing away from a sweep: leaving its answer out gives the same rows.
pub proof fn failed_host_is_skipped<E>(
    before: Seq<(Result<DiscoveryReply, E>, Timestamp)>,
    failed: (Result<DiscoveryReply, E>, Timestamp),
    after: Seq<(Result<DiscoveryReply, E>, Timestamp)>,
)
    requires
        failed.0 is Err,
    ensures
        swept(before.push(failed) + after) == swept(before + after),
    decreases after.len(),
{
    if after.len() == 0 {
        assert(before.push(failed) + after == before.push(failed));
        assert(before + after == before);
        assert(before.push(failed).drop_last() == before);
    } else {
        failed_host_is_skipped(before, failed, after.drop_last());
        assert((before.push(failed) + after).drop_last() == before.push(failed)
            + after.drop_last());
        assert((before + after).drop_last() == before + after.drop_last());
    }
}

/// Looking up an id after `put` gives the new device for its own id and what was there before for
/// every other id.
proof fn put_lookup(devices: Seq<DiscoveredDevice>, device: DiscoveredDevice, id: Seq<char>)
    ensures
        row_by_id(put(devices, device), id) == if device.device_id@ == id {
            Some(device)
        } else {
            row_by_id(devices, id)
        },
        put(devices, device).len() >= devices.len(),
        forall|i: int|
            0 <= i < devices.len() ==> (#[trigger] put(devices, device)[i]).device_id@
                == devices[i].device_id@,
        text::distinct(ids(devices)) ==> text::distinct(ids(put(devices, device))),
{
    let new_id = device.device_id@;
    let after = put(devices, device);
    text::position_is_first(ids(devices), new_id);
    text::position_is_first(ids(devices), id);
    match text::position(ids(devices), new_id) {
        Some(p) => {
            assert(ids(after) == ids(devices));
        },
        None => {
            assert(ids(after) == ids(devices).push(new_id));
            if new_id == id {
                text::first_is_position(ids(after), id, devices.len() as int);
            } else {
                match text::position(ids(devices), id) {
                    Some(q) => {
                        text::first_is_position(ids(after), id, q);
                    },
                    None => {
                        text::position_is_first(ids(after), id);
                    },
                }
            }
        },
    }
}

/// A merge replaces by id: an id seen in the batch gives its last sighting, and an id not seen
/// gives what it gave before.
pub proof fn merge_replaces_by_id(
    devices: Seq<DiscoveredDevice>,
    fresh: Seq<DiscoveredDevice>,
    id: Seq<char>,
)
    ensures
        row_by_id(merged(devices, fresh), id) == (match latest(fresh, id) {
            Some(device) => Some(device),
            None => row_by_id(devices, id),
        }),
    decreases fresh.len(),
{
    if fresh.len() > 0 {
        merge_replaces_by_id(devices, fresh.drop_last(), id);
        put_lookup(merged(devices, fresh.drop_last()), fresh.last(), id);
    }
}

/// A merge forgets no device: every row keeps its place and its id.
pub proof fn merge_keeps_rows(devices: Seq<DiscoveredDevice>, fresh: Seq<DiscoveredDevice>)
    ensures
        merged(devices, fresh).len() >= devices.len(),
        forall|i: int|
            0 <= i < devices.len() ==> (#[trigger] merged(devices, fresh)[i]).device_id@
                == devices[i].device_id@,
    decreases fresh.len(),
{
    if fresh.len() > 0 {
        merge_keeps_rows(devices, fresh.drop_last());
        let before = merged(devices, fresh.drop_last());
        put_lookup(before, fresh.last(), Seq::<char>::empty());
        assert forall|i: int| 0 <= i < devices.len() implies (#[trigger] merged(
            devices,
            fresh,
        )[i]).device_id@ == devices[i].device_id@ by {
            assert(put(before, fresh.last())[i].device_id@ == before[i].device_id@);
        }
    }
}

/// A cache with one row per device id keeps that through a merge.
pub proof fn merge_keeps_ids_distinct(
    devices: Seq<DiscoveredDevice>,
    fresh: Seq<DiscoveredDevice>,
)
    requires
        text::distinct(ids(devices)),
    ensures
        text::distinct(ids(merged(devices, fresh))),
    decreases fresh.len(),
{
    if fresh.len() > 0 {
        merge_keeps_ids_distinct(devices, fresh.drop_last());
        put_lookup(merged(devices, fresh.drop_last()), fresh.last(), Seq::<char>::empty());
    }
}

/// What a merge does to the rows that were there: the first row of an id that was seen becomes its
/// last sighting, and every other row is the same.
pub proof fn merge_at_rows(devices: Seq<DiscoveredDevice>, fresh: Seq<DiscoveredDevice>, i: int)
    requires
        0 <= i < devices.len(),
    ensures
        merged(devices, fresh)[i] == (if text::position(ids(devices), devices[i].device_id@)
            == Some(i) {
            match latest(fresh, devices[i].device_id@) {
                Some(device) => device,
                None => devices[i],
            }
        } else {
            devices[i]
        }),
    decreases fresh.len(),
{
    if fresh.len() > 0 {
        let earlier = fresh.drop_last();
        let before = merged(devices, earlier);
        let device = fresh.last();
        merge_at_rows(devices, earlier, i);
        merge_keeps_rows(devices, earlier);
        text::position_is_first(ids(devices), devices[i].device_id@);
        text::position_is_first(ids(before), device.device_id@);
        assert forall|k: int| 0 <= k < devices.len() implies ids(before)[k] == ids(devices)[k] by {
            assert(before[k].device_id@ == devices[k].device_id@);
        }
        assert(ids(devices)[i] == devices[i].device_id@);
        match text::position(ids(before), device.device_id@) {
            Some(p) => {
                if p == i {
                    assert forall|j: int| 0 <= j < i implies ids(devices)[j]
                        != devices[i].device_id@ by {
                        assert(ids(before)[j] != device.device_id@);
                    }
                    text::first_is_position(ids(devices), devices[i].device_id@, i);
                } else if device.device_id@ == devices[i].device_id@ {
                    assert(ids(before)[i] == device.device_id@);
                    assert(p < i);
                }
            },
            None => {
                assert(ids(before)[i] != device.device_id@);
            },
        }
    }
}

/// Merging the same batch twice is merging it once.
pub proof fn merge_is_idempotent(devices: Seq<DiscoveredDevice>, fresh: Seq<DiscoveredDevice>)
    ensures
        merged(merged(devices, fresh), fresh) == merged(devices, fresh),
{
    let once = merged(devices, fresh);
    let twice = merged(once, fresh);
    assert(twice.len() == once.len()) by {
        assert forall|k: int| 0 <= k <= fresh.len() implies #[trigger] merged(
            once,
            fresh.take(k),
        ).len() == once.len() by {
            merge_seen_adds_nothing(devices, fresh, k);
        }
        assert(fresh.take(fresh.len() as int) == fresh);
    }
    assert forall|i: int| 0 <= i < once.len() implies twice[i] == once[i] by {
        merge_at_rows(once, fresh, i);
        merge_replaces_by_id(devices, fresh, once[i].device_id@);
    }
    assert(twice == once);
}

/// Putting the first devices of a batch into a cache that has merged the batch adds no row.
proof fn merge_seen_adds_nothing(
    devices: Seq<DiscoveredDevice>,
    fresh: Seq<DiscoveredDevice>,
    k: int,
)
    requires
        0 <= k <= fresh.len(),
    ensures
        merged(merged(devices, fresh), fresh.take(k)).len() == merged(devices, fresh).len(),
    decreases k,
{
    let once = merged(devices, fresh);
    if k > 0 {
        let before = merged(once, fresh.take(k - 1));
        let device = fresh[k - 1];
        merge_seen_adds_nothing(devices, fresh, k - 1);
        assert(fresh.take(k).drop_last() == fresh.take(k - 1));
        latest_finds(fresh, k - 1);
        merge_replaces_by_id(devices, fresh, device.device_id@);
        merge_replaces_by_id(once, fresh.take(k - 1), device.device_id@);
        assert(row_by_id(before, device.device_id@) is Some);
        assert(merged(once, fresh.take(k)) == put(before, device));
        text::position_is_first(ids(before), device.device_id@);
    } else {
        assert(merged(once, fresh.take(0)) == once);
    }
}

/// A batch that holds an id has a last sighting of it.
proof fn latest_finds(fresh: Seq<DiscoveredDevice>, k: int)
    requires
        0 <= k < fresh.len(),
    ensures
        latest(fresh, fresh[k].device_id@) is Some,
    decreases fresh.len(),
{
    if k < fresh.len() - 1 {
        latest_finds(fresh.drop_last(), k);
    }
}

/// What is known of the directory that the cache file goes to.
#[derive(Clone, Copy, Debug, PartialEq, Eq, Structural)]
pub struct ParentDir {
    /// The directory's path is empty: the file goes to the current directory.
    pub empty: bool,
    /// The directory is there.
    pub exists: bool,
}

/// Where saving the cache stands: the step to take next, or how it ended.
#[derive(Clone, Copy, Debug, PartialEq, Eq, Structural)]
pub enum SaveStep {
    /// Turn the cache into bytes.
    Serialize,
    /// Create the directory of the cache file.
    CreateParent,
    /// Write the bytes to the temporary file beside the cache file.
    WriteTemp,
    /// Rename the temporary file to the cache file. No other step touches the cache file.
    Rename,
    /// The cache file holds the cache.
    Saved,
    /// The step that failed was the serialization.
    SerializeFailed,
    /// The step that failed was the creation of the directory.
    CreateParentFailed,
    /// The step that failed was the write to the temporary file.
    WriteTempFailed,
    /// The step that failed was the rename.
    RenameFailed,
}

/// Whether the directory has to be created: there is one to go to, it has a name, and it is not
/// there.
pub open spec fn lacks_parent(parent: Option<ParentDir>) -> bool {
    match parent {
        Some(dir) => !dir.empty && !dir.exists,
        None => false,
    }
}

impl SaveStep {
    /// The step that follows, once this one came out well (`ok`) or not.
    pub open spec fn following(self, ok: bool, parent: Option<ParentDir>) -> SaveStep {
        match self {
            SaveStep::Serialize => if !ok {
                SaveStep::SerializeFailed
            } else if lacks_parent(parent) {
                SaveStep::CreateParent
            } else {
                SaveStep::WriteTemp
            },
            SaveStep::CreateParent => if ok {
                SaveStep::WriteTemp
            } else {
                SaveStep::CreateParentFailed
            },
            SaveStep::WriteTemp => if ok {
                SaveStep::Rename
            } else {
                SaveStep::WriteTempFailed
            },
            SaveStep::Rename => if ok {
                SaveStep::Saved
            } else {
                SaveStep::RenameFailed
            },
            ended => ended,
        }
    }
}

impl DeviceCache {
    /// Saves the cache, one step at a time from `SaveStep::Serialize` on: gives the step that
    /// follows `step`, once that came out well (`ok`) or not.
    pub fn save(step: SaveStep, ok: bool, parent: Option<ParentDir>) -> (r: SaveStep)
        ensures
            r == step.following(ok, parent),
    {
        match step {
            SaveStep::Serialize => {
                let create: bool = match parent {
                    Some(dir) => !dir.empty && !dir.exists,
                    None => false,
                };
                if !ok {
                    SaveStep::SerializeFailed
                } else if create {
                    SaveStep::CreateParent
                } else {
                    SaveStep::WriteTemp
                }
            },
            SaveStep::CreateParent => if ok {
                SaveStep::WriteTemp
            } else {
                SaveStep::CreateParentFailed
            },
            SaveStep::WriteTemp => if ok {
                SaveStep::Rename
            } else {
                SaveStep::WriteTempFailed
            },
            SaveStep::Rename => if ok {
                SaveStep::Saved
            } else {
                SaveStep::RenameFailed
            },
            ended => ended,
        }
    }
}

/// Where saving stands after steps with the given outcomes, from the first step on.
pub open spec fn save_run(outcomes: Seq<bool>, parent: Option<ParentDir>) -> SaveStep
    decreases outcomes.len(),
{
    if outcomes.len() == 0 {
        SaveStep::Serialize
    } else {
        save_run(outcomes.drop_last(), parent).following(outcomes.last(), parent)
    }
}

/// How many steps come before the rename.
pub open spec fn steps_before_rename(parent: Option<ParentDir>) -> nat {
    if lacks_parent(parent) {
        3
    } else {
        2
    }
}

/// Saving is atomic: the rename, the only step that touches the cache file, is reached exactly
/// when every step before it, the write to the temporary file among them, came out well; and the
/// cache is saved exactly when the rename came out well too.
pub proof fn save_is_atomic(outcomes: Seq<bool>, parent: Option<ParentDir>)
    ensures
        save_run(outcomes, parent) == SaveStep::Rename <==> (outcomes.len() == steps_before_rename(
            parent,
        ) && forall|i: int| 0 <= i < outcomes.len() ==> outcomes[i]),
        save_run(outcomes, parent) == SaveStep::Saved <==> (outcomes.len() > steps_before_rename(
            parent,
        ) && forall|i: int| 0 <= i <= steps_before_rename(parent) ==> outcomes[i]),
{
    save_progress(outcomes, parent);
}

/// The steps of saving in their order, when none fails.
spec fn save_step(k: nat, parent: Option<ParentDir>) -> SaveStep {
    if k == 0 {
        SaveStep::Serialize
    } else if k == steps_before_rename(parent) {
        SaveStep::Rename
    } else if k == steps_before_rename(parent) - 1 {
        SaveStep::WriteTemp
    } else {
        SaveStep::CreateParent
    }
}

proof fn save_progress(outcomes: Seq<bool>, parent: Option<ParentDir>)
    ensures
        forall|k: nat|
            k <= steps_before_rename(parent) ==> (save_run(outcomes, parent) == #[trigger] save_step(
                k,
                parent,
            ) <==> (outcomes.len() == k && forall|i: int| 0 <= i < outcomes.len() ==> outcomes[i])),
        save_run(outcomes, parent) == SaveStep::Rename <==> (outcomes.len() == steps_before_rename(
            parent,
        ) && forall|i: int| 0 <= i < outcomes.len() ==> outcomes[i]),
        save_run(outcomes, parent) == SaveStep::Saved <==> (outcomes.len() > steps_before_rename(
            parent,
        ) && forall|i: int| 0 <= i <= steps_before_rename(parent) ==> outcomes[i]),
    decreases outcomes.len(),
{
    let n = steps_before_rename(parent);
    assert(save_step(n, parent) == SaveStep::Rename);
    if outcomes.len() > 0 {
        let before = outcomes.drop_last();
        save_progress(before, parent);
        assert(forall|i: int| 0 <= i < before.len() ==> before[i] == outcomes[i]);
        assert(save_step((n - 1) as nat, parent) == SaveStep::WriteTemp);
        assert(save_step(0, parent) == SaveStep::Serialize);
        assert forall|k: nat| k <= n implies (save_run(outcomes, parent) == #[trigger] save_step(
            k,
            parent,
        ) <==> (outcomes.len() == k && forall|i: int| 0 <= i < outcomes.len() ==> outcomes[i])) by {
            if k > 0 {
                let prior = save_step((k - 1) as nat, parent);
                assert(save_run(outcomes, parent) == save_step(k, parent) <==> (save_run(
                    before,
                    parent,
                ) == prior && outcomes.last()));
            }
        }
        if outcomes.len() > n + 1 {
            assert(before.len() > n);
        }
    }
}

} // verus!
