//! Laws of the discovery and its cache.
use vstd::prelude::*;

use crate::discovery;
use crate::discovery::{
    CacheFile, DeviceCache, DiscoveredDevice, DiscoveryReply, ParentDir, SaveStep, Timestamp,
};
use crate::ip;
use crate::ip::IpAddr;
use crate::text;

verus! {

/// The row at `i` is the first one with the given nickname.
pub open spec fn first_named(rows: Seq<DiscoveredDevice>, nickname: Seq<char>, i: int) -> bool {
    &&& 0 <= i < rows.len()
    &&& rows[i].nickname@ == nickname
    &&& forall|j: int| 0 <= j < i ==> (#[trigger] rows[j]).nickname@ != nickname
}

/// No row has the given nickname.
pub open spec fn unnamed(rows: Seq<DiscoveredDevice>, nickname: Seq<char>) -> bool {
    forall|j: int| 0 <= j < rows.len() ==> (#[trigger] rows[j]).nickname@ != nickname
}

/// The row at `i` is the first one with the given device id.
pub open spec fn first_with_id(rows: Seq<DiscoveredDevice>, id: Seq<char>, i: int) -> bool {
    &&& 0 <= i < rows.len()
    &&& rows[i].device_id@ == id
    &&& forall|j: int| 0 <= j < i ==> (#[trigger] rows[j]).device_id@ != id
}

/// No row has the given device id.
pub open spec fn without_id(rows: Seq<DiscoveredDevice>, id: Seq<char>) -> bool {
    forall|j: int| 0 <= j < rows.len() ==> (#[trigger] rows[j]).device_id@ != id
}

/// The device at `k` is the last one with the given device id.
pub open spec fn last_with_id(fresh: Seq<DiscoveredDevice>, id: Seq<char>, k: int) -> bool {
    &&& 0 <= k < fresh.len()
    &&& fresh[k].device_id@ == id
    &&& forall|j: int| k < j < fresh.len() ==> (#[trigger] fresh[j]).device_id@ != id
}

pub(crate) proof fn nickname_position(rows: Seq<DiscoveredDevice>, nickname: Seq<char>)
    ensures
        match text::position(discovery::nicknames(rows), nickname) {
            Some(i) => first_named(rows, nickname, i),
            None => unnamed(rows, nickname),
        },
{
    let keys = discovery::nicknames(rows);
    text::position_is_first(keys, nickname);
    assert forall|j: int| 0 <= j < rows.len() implies keys[j] == (#[trigger] rows[j]).nickname@ by {}
}

pub(crate) proof fn nickname_position_is(
    rows: Seq<DiscoveredDevice>,
    nickname: Seq<char>,
    i: int,
)
    ensures
        first_named(rows, nickname, i) ==> text::position(discovery::nicknames(rows), nickname)
            == Some(i),
        unnamed(rows, nickname) ==> text::position(discovery::nicknames(rows), nickname) is None,
{
    nickname_position(rows, nickname);
    match text::position(discovery::nicknames(rows), nickname) {
        Some(p) => {
            if first_named(rows, nickname, i) {
                if p < i {
                    assert(rows[p].nickname@ != nickname);
                } else if i < p {
                    assert(rows[i].nickname@ != nickname);
                }
            }
            if unnamed(rows, nickname) {
                assert(rows[p].nickname@ != nickname);
            }
        },
        None => {
            if first_named(rows, nickname, i) {
                assert(rows[i].nickname@ != nickname);
            }
        },
    }
}

pub(crate) proof fn id_position(rows: Seq<DiscoveredDevice>, id: Seq<char>)
    ensures
        match text::position(discovery::ids(rows), id) {
            Some(i) => first_with_id(rows, id, i),
            None => without_id(rows, id),
        },
{
    let keys = discovery::ids(rows);
    text::position_is_first(keys, id);
    assert forall|j: int| 0 <= j < rows.len() implies keys[j] == (#[trigger] rows[j]).device_id@ by {}
}

/// A nickname gives the first row with it, wherever that row is, and nothing only if no row has it.
pub proof fn nickname_gives_first_row(
    cache: &DeviceCache,
    nickname: &str,
    r: Option<&DiscoveredDevice>,
)
    requires
        call_ensures(DeviceCache::lookup_by_nickname, (cache, nickname), r),
    ensures
        forall|i: int| #[trigger]
            first_named(cache.devices@, nickname@, i) ==> r is Some && *r->0 == cache.devices@[i],
        r is Some <==> exists|i: int| first_named(cache.devices@, nickname@, i),
        r is None <==> unnamed(cache.devices@, nickname@),
{
    nickname_position(cache.devices@, nickname@);
    assert forall|i: int| #[trigger]
        first_named(cache.devices@, nickname@, i) implies r is Some && *r->0 == cache.devices@[i] by {
        nickname_position_is(cache.devices@, nickname@, i);
    }
}

/// A device id gives the first row with it, wherever that row is, and nothing only if no row has
/// it.
pub proof fn id_gives_first_row(cache: &DeviceCache, id: &str, r: Option<&DiscoveredDevice>)
    requires
        call_ensures(DeviceCache::lookup_by_device_id, (cache, id), r),
    ensures
        forall|i: int| #[trigger]
            first_with_id(cache.devices@, id@, i) ==> r is Some && *r->0 == cache.devices@[i],
        r is Some <==> exists|i: int| first_with_id(cache.devices@, id@, i),
        r is None <==> without_id(cache.devices@, id@),
{
    id_position(cache.devices@, id@);
    assert forall|i: int| #[trigger]
        first_with_id(cache.devices@, id@, i) implies r is Some && *r->0 == cache.devices@[i] by {
        first_id_is_position(cache.devices@, id@, i);
    }
}

proof fn first_id_is_position(rows: Seq<DiscoveredDevice>, id: Seq<char>, i: int)
    requires
        first_with_id(rows, id, i),
    ensures
        text::position(discovery::ids(rows), id) == Some(i),
{
    id_position(rows, id);
    match text::position(discovery::ids(rows), id) {
        Some(p) => {
            if p < i {
                assert(rows[p].device_id@ != id);
            } else if i < p {
                assert(rows[i].device_id@ != id);
            }
        },
        None => {
            assert(rows[i].device_id@ != id);
        },
    }
}

/// The address of a nickname is what the address of its first row is parsed as.
pub proof fn address_is_that_of_first_row(
    cache: &DeviceCache,
    nickname: &str,
    r: Option<IpAddr>,
    i: int,
    written: &str,
    parsed: Option<IpAddr>,
)
    requires
        call_ensures(DeviceCache::address_of, (cache, nickname), r),
        call_ensures(ip::parse_ip, (written,), parsed),
    ensures
        first_named(cache.devices@, nickname@, i) && written@ == cache.devices@[i].ip@ ==> r == parsed,
        unnamed(cache.devices@, nickname@) ==> r is None,
{
    nickname_position_is(cache.devices@, nickname@, i);
}

/// Merging one device puts it in the place of the first row with its id, or behind all rows if
/// there is none.
pub proof fn merge_of_one(cache: &mut DeviceCache, fresh: Vec<DiscoveredDevice>)
    requires
        call_ensures(DeviceCache::merge_in, (cache, fresh), ()),
        fresh@.len() == 1,
    ensures
        forall|i: int| #[trigger]
            first_with_id(old(cache).devices@, fresh@[0].device_id@, i) ==> final(cache).devices@
                == old(cache).devices@.update(i, fresh@[0]),
        without_id(old(cache).devices@, fresh@[0].device_id@) ==> final(cache).devices@ == old(cache).devices@.push(fresh@[0]),
{
    let rows = old(cache).devices@;
    let id = fresh@[0].device_id@;
    assert(fresh@.drop_last() == Seq::<DiscoveredDevice>::empty());
    assert(discovery::merged(rows, fresh@.drop_last()) == rows);
    assert(final(cache).devices@ == discovery::put(rows, fresh@[0]));
    id_position(rows, id);
    assert forall|i: int| #[trigger] first_with_id(rows, id, i) implies final(cache).devices@
        == rows.update(i, fresh@[0]) by {
        first_id_is_position(rows, id, i);
    }
    if without_id(rows, id) {
        match text::position(discovery::ids(rows), id) {
            Some(p) => {
                assert(rows[p].device_id@ != id);
            },
            None => {},
        }
    }
}

/// Merging no device changes nothing, and merging a batch is merging its first devices and then the
/// others.
pub proof fn merge_in_two_batches(
    first: &mut DeviceCache,
    second: &mut DeviceCache,
    whole: &mut DeviceCache,
    a: Vec<DiscoveredDevice>,
    b: Vec<DiscoveredDevice>,
    both: Vec<DiscoveredDevice>,
)
    requires
        call_ensures(DeviceCache::merge_in, (first, a), ()),
        call_ensures(DeviceCache::merge_in, (second, b), ()),
        call_ensures(DeviceCache::merge_in, (whole, both), ()),
        both@ == a@ + b@,
        old(whole).devices@ == old(first).devices@,
        old(second).devices@ == final(first).devices@,
    ensures
        final(whole).devices@ == final(second).devices@,
        a@.len() == 0 ==> final(first).devices@ == old(first).devices@,
{
    merged_in_two(old(first).devices@, a@, b@);
}

proof fn merged_in_two(
    rows: Seq<DiscoveredDevice>,
    a: Seq<DiscoveredDevice>,
    b: Seq<DiscoveredDevice>,
)
    ensures
        discovery::merged(rows, a + b) == discovery::merged(discovery::merged(rows, a), b),
    decreases b.len(),
{
    if b.len() == 0 {
        assert(a + b == a);
    } else {
        merged_in_two(rows, a, b.drop_last());
        assert((a + b).drop_last() == a + b.drop_last());
        assert((a + b).last() == b.last());
    }
}

/// A merge forgets no device: a row keeps its place and its id, and its contents too unless it is
/// the first row of an id in the batch. Such a row is then the last device of the batch with its
/// id.
pub proof fn merge_forgets_nothing(cache: &mut DeviceCache, fresh: Vec<DiscoveredDevice>, i: int)
    requires
        call_ensures(DeviceCache::merge_in, (cache, fresh), ()),
        0 <= i < old(cache).devices@.len(),
    ensures
        final(cache).devices@.len() >= old(cache).devices@.len(),
        final(cache).devices@[i].device_id@ == old(cache).devices@[i].device_id@,
        without_id(fresh@, old(cache).devices@[i].device_id@) || !first_with_id(
            old(cache).devices@,
            old(cache).devices@[i].device_id@,
            i,
        ) ==> final(cache).devices@[i] == old(cache).devices@[i],
        forall|k: int| #[trigger]
            last_with_id(fresh@, old(cache).devices@[i].device_id@, k) && first_with_id(
                old(cache).devices@,
                old(cache).devices@[i].device_id@,
                i,
            ) ==> final(cache).devices@[i] == fresh@[k],
{
    let rows = old(cache).devices@;
    let id = rows[i].device_id@;
    discovery::merge_keeps_rows(rows, fresh@);
    discovery::merge_at_rows(rows, fresh@, i);
    latest_is_last(fresh@, id);
    id_position(rows, id);
    if first_with_id(rows, id, i) {
        first_id_is_position(rows, id, i);
    }
    assert forall|k: int| #[trigger] last_with_id(fresh@, id, k) && first_with_id(rows, id, i) implies final(cache).devices@[i] == fresh@[k] by {
        assert(discovery::latest(fresh@, id) == Some(fresh@[k]));
    }
}

/// After a merge every device of the batch is there: its id gives its last sighting.
pub proof fn merged_device_is_found(
    cache: &mut DeviceCache,
    fresh: Vec<DiscoveredDevice>,
    id: &str,
    r: Option<&DiscoveredDevice>,
    k: int,
)
    requires
        call_ensures(DeviceCache::merge_in, (cache, fresh), ()),
        call_ensures(DeviceCache::lookup_by_device_id, (&*final(cache), id), r),
        last_with_id(fresh@, id@, k),
    ensures
        r is Some,
        *r->0 == fresh@[k],
{
    discovery::merge_replaces_by_id(old(cache).devices@, fresh@, id@);
    latest_is_last(fresh@, id@);
}

proof fn latest_is_last(fresh: Seq<DiscoveredDevice>, id: Seq<char>)
    ensures
        forall|k: int| #[trigger]
            last_with_id(fresh, id, k) ==> discovery::latest(fresh, id) == Some(fresh[k]),
        without_id(fresh, id) ==> discovery::latest(fresh, id) is None,
    decreases fresh.len(),
{
    if fresh.len() > 0 {
        let before = fresh.drop_last();
        latest_is_last(before, id);
        assert forall|k: int| #[trigger] last_with_id(fresh, id, k) implies discovery::latest(fresh, id)
            == Some(fresh[k]) by {
            if k < fresh.len() - 1 {
                assert(fresh[fresh.len() - 1].device_id@ != id);
                assert(last_with_id(before, id, k)) by {
                    assert forall|j: int| k < j < before.len() implies (#[trigger] before[j]).device_id@
                        != id by {
                        assert(fresh[j].device_id@ != id);
                    }
                }
            }
        }
        if without_id(fresh, id) {
            assert(fresh[fresh.len() - 1].device_id@ != id);
            assert forall|j: int| 0 <= j < before.len() implies (#[trigger] before[j]).device_id@ != id by {
                assert(fresh[j].device_id@ != id);
            }
        }
    }
}

/// A sweep gives one row for each host that answered, in the order of the answers, with what the
/// host answered and when.
pub proof fn sweep_reports_every_answer<E>(
    replies: Vec<(Result<DiscoveryReply, E>, Timestamp)>,
    r: Vec<DiscoveredDevice>,
)
    requires
        call_ensures(discovery::discover::<E>, (replies,), r),
    ensures
        ({
            let answers = replies@.filter(
                |reply: (Result<DiscoveryReply, E>, Timestamp)| reply.0 is Ok,
            );
            &&& r@.len() == answers.len()
            &&& forall|k: int|
                0 <= k < answers.len() ==> {
                    &&& (#[trigger] r@[k]).device_id == answers[k].0->Ok_0.device_id
                    &&& r@[k].model == answers[k].0->Ok_0.model
                    &&& r@[k].nickname == answers[k].0->Ok_0.nickname
                    &&& r@[k].ip == answers[k].0->Ok_0.ip
                    &&& r@[k].last_seen == answers[k].1
                }
        }),
{
    swept_answers(replies@);
}

proof fn swept_answers<E>(replies: Seq<(Result<DiscoveryReply, E>, Timestamp)>)
    ensures
        ({
            let answers = replies.filter(
                |reply: (Result<DiscoveryReply, E>, Timestamp)| reply.0 is Ok,
            );
            let rows = discovery::swept(replies);
            &&& rows.len() == answers.len()
            &&& forall|k: int|
                0 <= k < answers.len() ==> {
                    &&& (#[trigger] rows[k]).device_id == answers[k].0->Ok_0.device_id
                    &&& rows[k].model == answers[k].0->Ok_0.model
                    &&& rows[k].nickname == answers[k].0->Ok_0.nickname
                    &&& rows[k].ip == answers[k].0->Ok_0.ip
                    &&& rows[k].last_seen == answers[k].1
                }
        }),
    decreases replies.len(),
{
    reveal(Seq::filter);
    if replies.len() > 0 {
        swept_answers(replies.drop_last());
    }
}

/// A sweep that came out well is merged into the loaded cache, which is then to be saved; one that
/// failed changes nothing and is not saved.
pub proof fn sweep_is_merged_and_saved<E>(
    loaded: DeviceCache,
    sweep: Result<Vec<DiscoveredDevice>, E>,
    r: (DeviceCache, bool),
    merged: &mut DeviceCache,
    fresh: Vec<DiscoveredDevice>,
)
    requires
        call_ensures(discovery::discover_and_cache::<E>, (loaded, sweep), r),
        call_ensures(DeviceCache::merge_in, (merged, fresh), ()),
        old(merged).devices@ == loaded.devices@,
        sweep is Ok ==> sweep->Ok_0@ == fresh@,
    ensures
        sweep is Ok ==> r.1 && r.0.devices@ == final(merged).devices@,
        sweep is Err ==> !r.1 && r.0.devices@ == loaded.devices@,
{
}

/// An on-demand sweep that came out well is merged into the cache in memory; one that failed
/// changes nothing.
pub proof fn on_demand_sweep_is_merged<E>(
    cache: &mut DeviceCache,
    sweep: Result<Vec<DiscoveredDevice>, E>,
    merged: &mut DeviceCache,
    fresh: Vec<DiscoveredDevice>,
)
    requires
        call_ensures(discovery::refresh_in_memory::<E>, (cache, sweep), ()),
        call_ensures(DeviceCache::merge_in, (merged, fresh), ()),
        old(merged).devices@ == old(cache).devices@,
        sweep is Ok ==> sweep->Ok_0@ == fresh@,
    ensures
        sweep is Ok ==> final(cache).devices@ == final(merged).devices@,
        sweep is Err ==> final(cache).devices@ == old(cache).devices@,
{
}

/// A cache that was read is the one to start from, row by row; without one there are no rows.
pub proof fn load_keeps_what_was_read(file: CacheFile, r: DeviceCache)
    requires
        call_ensures(DeviceCache::load, (file,), r),
    ensures
        file is Parsed ==> r.devices@ == file->Parsed_0.devices@,
        !(file is Parsed) ==> r.devices@.len() == 0,
{
}

/// A refreshed cache takes the place of the old one.
pub proof fn renewed_cache_is_the_fresh_one(cache: &mut DeviceCache, fresh: DeviceCache)
    requires
        call_ensures(DeviceCache::renew, (cache, fresh), ()),
    ensures
        final(cache).devices == fresh.devices,
{
}

/// The temporary file has the file's name with `.tmp` behind it.
pub proof fn temp_name_is_the_name_and_more(file_name: &str, r: String)
    requires
        call_ensures(discovery::temp_file_name, (file_name,), r),
    ensures
        r@.len() == file_name@.len() + 4,
        r@.take(file_name@.len() as int) == file_name@,
        r@[file_name@.len() as int] == '.',
        r@[file_name@.len() + 1int] == 't',
        r@[file_name@.len() + 2int] == 'm',
        r@[file_name@.len() + 3int] == 'p',
{
    reveal_strlit(".tmp");
}

/// A step of saving that fails ends it, with the failure of that step.
pub proof fn failed_save_step_ends(step: SaveStep, parent: Option<ParentDir>, r: SaveStep)
    requires
        call_ensures(DeviceCache::save, (step, false, parent), r),
    ensures
        step == SaveStep::Serialize ==> r == SaveStep::SerializeFailed,
        step == SaveStep::CreateParent ==> r == SaveStep::CreateParentFailed,
        step == SaveStep::WriteTemp ==> r == SaveStep::WriteTempFailed,
        step == SaveStep::Rename ==> r == SaveStep::RenameFailed,
{
}

/// When all goes well, saving serializes, creates a directory that has a name and is not there,
/// writes the temporary file and renames it.
pub proof fn save_goes_through_its_steps(
    parent: Option<ParentDir>,
    first: SaveStep,
    created: SaveStep,
    written: SaveStep,
    renamed: SaveStep,
)
    requires
        call_ensures(DeviceCache::save, (SaveStep::Serialize, true, parent), first),
        call_ensures(DeviceCache::save, (SaveStep::CreateParent, true, parent), created),
        call_ensures(DeviceCache::save, (SaveStep::WriteTemp, true, parent), written),
        call_ensures(DeviceCache::save, (SaveStep::Rename, true, parent), renamed),
    ensures
        first == SaveStep::CreateParent <==> (parent is Some && !parent->0.empty
            && !parent->0.exists),
        first != SaveStep::CreateParent ==> first == SaveStep::WriteTemp,
        created == SaveStep::WriteTemp,
        written == SaveStep::Rename,
        renamed == SaveStep::Saved,
{
}

/// Saving that has ended stays as it ended.
pub proof fn ended_save_stays(step: SaveStep, ok: bool, parent: Option<ParentDir>, r: SaveStep)
    requires
        call_ensures(DeviceCache::save, (step, ok, parent), r),
        step == SaveStep::Saved || step == SaveStep::SerializeFailed || step
            == SaveStep::CreateParentFailed || step == SaveStep::WriteTempFailed || step
            == SaveStep::RenameFailed,
    ensures
        r == step,
{
}

} // verus!
