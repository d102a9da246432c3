//! The list of recorded files.

use vstd::prelude::*;
use crate::clock::{rfc3339, rfc3339_of};
use crate::engine::command::{is_error_with, EngineResponse, RecordingFileEntry};
use crate::engine::recordings::RecordedFile;
use crate::engine::state::Engine;
use crate::order::{is_stable_order, stable_order, text_le, SortKey};
use crate::text::{maybe_text, owned, str_eq};

verus! {

/// A number, unless it is zero.
pub open spec fn unless_zero(n: u64) -> Option<u64> {
    if n > 0 {
        Some(n)
    } else {
        None
    }
}

/// The sizes of files added up, as far as they fit.
pub open spec fn total_size(files: Seq<RecordedFile>) -> nat
    decreases files.len(),
{
    if files.len() == 0 {
        0
    } else {
        (total_size(files.drop_last()) + files.last().size_bytes as nat) % 0x1_0000_0000_0000_0000
    }
}

/// What a list is sorted by.
#[derive(Debug, Clone, Copy, PartialEq, Eq, Structural)]
pub enum SortField {
    Size,
    Name,
    Created,
}

/// What a list is sorted by: the size, the name, or else the time of creation.
pub open spec fn field_of(sort: Option<Seq<char>>) -> SortField {
    match sort {
        Some(s) => if s == "size"@ {
            SortField::Size
        } else if s == "name"@ {
            SortField::Name
        } else {
            SortField::Created
        },
        None => SortField::Created,
    }
}

/// Whether a list is in descending order: where that is asked for, or no order is.
pub open spec fn is_descending(order: Option<Seq<char>>) -> bool {
    match order {
        Some(s) => s == "desc"@,
        None => true,
    }
}

/// Whether `order` sorts entries in ascending order, and keeps the order of level ones.
pub open spec fn sorts(order: Seq<usize>, entries: Seq<RecordingFileEntry>, field: SortField) -> bool {
    match field {
        SortField::Size => is_stable_order(
            order,
            entries.map_values(|e: RecordingFileEntry| e.size_bytes),
        ),
        SortField::Name => is_stable_order(
            order,
            entries.map_values(|e: RecordingFileEntry| e.filename),
        ),
        SortField::Created => is_stable_order(
            order,
            entries.map_values(|e: RecordingFileEntry| e.created_at),
        ),
    }
}

/// The entries in an order, or in its reverse.
pub open spec fn arranged(entries: Seq<RecordingFileEntry>, order: Seq<usize>, descending: bool) -> Seq<
    RecordingFileEntry,
> {
    let ascending = order.map_values(|i: usize| entries[i as int]);
    if descending {
        ascending.reverse()
    } else {
        ascending
    }
}

impl Engine {
    /// Whether an entry tells of a file.
    pub open spec fn is_entry_of(self, e: RecordingFileEntry, f: RecordedFile) -> bool {
        &&& e.session_id == f.session_id
        &&& e.filename == f.filename
        &&& e.size_bytes == f.size_bytes
        &&& e.created_at@ == (match f.created_secs {
            Some(secs) => match rfc3339_of(secs) {
                Some(t) => t,
                None => seq![],
            },
            None => seq![],
        })
        &&& e.duration_ns == (match f.summary {
            Some(s) => unless_zero(s.0),
            None => None,
        })
        &&& e.message_count == (match f.summary {
            Some(s) => unless_zero(s.1),
            None => None,
        })
        &&& e.is_locked == (self.records(f.session_id@) || self.replays(f.session_id@))
    }

    /// Whether entries tell of files, one for one.
    pub open spec fn are_entries_of(self, entries: Seq<RecordingFileEntry>, files: Seq<RecordedFile>) -> bool {
        &&& entries.len() == files.len()
        &&& forall|i: int| 0 <= i < files.len() ==> self.is_entry_of(#[trigger] entries[i], files[i])
    }

    /// Whether a list is that of files, sorted as asked.
    pub open spec fn is_listing(
        self,
        listed: Seq<RecordingFileEntry>,
        files: Seq<RecordedFile>,
        sort: Option<Seq<char>>,
        order: Option<Seq<char>>,
    ) -> bool {
        exists|entries: Seq<RecordingFileEntry>, places: Seq<usize>|
            #![trigger self.are_entries_of(entries, files), sorts(places, entries, field_of(sort))]
            self.are_entries_of(entries, files) && sorts(places, entries, field_of(sort)) && listed
                == arranged(entries, places, is_descending(order))
    }

    fn entry_of(&self, f: &RecordedFile) -> (r: RecordingFileEntry)
        ensures
            self.is_entry_of(r, *f),
    {
        let created_at: String = match f.created_secs {
            Some(secs) => match rfc3339(secs) {
                Some(t) => t,
                None => String::new(),
            },
            None => String::new(),
        };
        assert(""@ =~= seq![]) by {
            reveal_strlit("");
        }
        let (duration_ns, message_count) = match f.summary {
            Some(s) => (
                if s.0 > 0 {
                    Some(s.0)
                } else {
                    None
                },
                if s.1 > 0 {
                    Some(s.1)
                } else {
                    None
                },
            ),
            None => (None, None),
        };
        let is_locked: bool = self.is_recording_session(f.session_id.as_str())
            || self.is_replay_session(f.session_id.as_str());
        RecordingFileEntry {
            session_id: f.session_id.clone(),
            filename: f.filename.clone(),
            size_bytes: f.size_bytes,
            created_at,
            duration_ns,
            message_count,
            is_locked,
        }
    }

    /// Lists recorded files, sorted as asked, or says why they could not be found.
    pub fn cmd_list_recordings(
        &self,
        files: Result<Vec<RecordedFile>, String>,
        sort: Option<String>,
        order: Option<String>,
        disk_free_bytes: u64,
    ) -> (r: EngineResponse)
        ensures
            match files {
                Ok(found) => {
                    &&& r matches EngineResponse::RecordingsList {
                        recordings,
                        total_size_bytes,
                        disk_free_bytes: free,
                    }
                    &&& self.is_listing(recordings@, found@, maybe_text(sort), maybe_text(order))
                    &&& total_size_bytes == total_size(found@)
                    &&& free == disk_free_bytes
                },
                Err(e) => is_error_with(r, 500, "scan recordings: "@ + e@),
            },
    {
        let found: Vec<RecordedFile> = match files {
            Ok(found) => found,
            Err(e) => {
                let mut message: String = owned("scan recordings: ");
                message.append(e.as_str());
                return EngineResponse::ErrorWithStatus { status: 500, message };
            },
        };
        let n: usize = found.len();
        let mut entries: Vec<RecordingFileEntry> = Vec::new();
        let mut total: u64 = 0;
        let mut i: usize = 0;
        while i < n
            invariant
                n == found@.len(),
                i <= n,
                entries@.len() == i,
                forall|k: int| 0 <= k < i ==> self.is_entry_of(#[trigger] entries@[k], found@[k]),
                total == total_size(found@.take(i as int)),
            decreases n - i,
        {
            entries.push(self.entry_of(&found[i]));
            assert(found@.take(i as int + 1).drop_last() =~= found@.take(i as int));
            assert(found@.take(i as int + 1).last() == found@[i as int]);
            total = total.wrapping_add(found[i].size_bytes);
            i = i + 1;
        }
        assert(found@.take(n as int) =~= found@);
        let field: SortField = match &sort {
            Some(s) => if str_eq(s.as_str(), "size") {
                SortField::Size
            } else if str_eq(s.as_str(), "name") {
                SortField::Name
            } else {
                SortField::Created
            },
            None => SortField::Created,
        };
        let descending: bool = match &order {
            Some(s) => str_eq(s.as_str(), "desc"),
            None => true,
        };
        let places: Vec<usize> = sort_places(&entries, field);
        let recordings: Vec<RecordingFileEntry> = arrange(&entries, &places, field, descending);
        assert(self.are_entries_of(entries@, found@));
        assert(sorts(places@, entries@, field_of(maybe_text(sort))));
        EngineResponse::RecordingsList {
            recordings,
            total_size_bytes: total,
            disk_free_bytes,
        }
    }
}

fn sort_places(entries: &Vec<RecordingFileEntry>, field: SortField) -> (r: Vec<usize>)
    ensures
        sorts(r@, entries@, field),
{
    let n: usize = entries.len();
    let mut i: usize = 0;
    match field {
        SortField::Size => {
            let mut keys: Vec<u64> = Vec::new();
            while i < n
                invariant
                    n == entries@.len(),
                    i <= n,
                    keys@ == entries@.take(i as int).map_values(|e: RecordingFileEntry| e.size_bytes),
                decreases n - i,
            {
                keys.push(entries[i].size_bytes);
                assert(keys@ =~= entries@.take(i as int + 1).map_values(
                    |e: RecordingFileEntry| e.size_bytes,
                ));
                i = i + 1;
            }
            assert(entries@.take(n as int) =~= entries@);
            stable_order(&keys)
        },
        SortField::Name => {
            let mut keys: Vec<String> = Vec::new();
            while i < n
                invariant
                    n == entries@.len(),
                    i <= n,
                    keys@ == entries@.take(i as int).map_values(|e: RecordingFileEntry| e.filename),
                decreases n - i,
            {
                keys.push(entries[i].filename.clone());
                assert(keys@ =~= entries@.take(i as int + 1).map_values(
                    |e: RecordingFileEntry| e.filename,
                ));
                i = i + 1;
            }
            assert(entries@.take(n as int) =~= entries@);
            stable_order(&keys)
        },
        SortField::Created => {
            let mut keys: Vec<String> = Vec::new();
            while i < n
                invariant
                    n == entries@.len(),
                    i <= n,
                    keys@ == entries@.take(i as int).map_values(|e: RecordingFileEntry| e.created_at),
                decreases n - i,
            {
                keys.push(entries[i].created_at.clone());
                assert(keys@ =~= entries@.take(i as int + 1).map_values(
                    |e: RecordingFileEntry| e.created_at,
                ));
                i = i + 1;
            }
            assert(entries@.take(n as int) =~= entries@);
            stable_order(&keys)
        },
    }
}

fn arrange(
    entries: &Vec<RecordingFileEntry>,
    places: &Vec<usize>,
    field: SortField,
    descending: bool,
) -> (r: Vec<RecordingFileEntry>)
    requires
        sorts(places@, entries@, field),
    ensures
        r@ == arranged(entries@, places@, descending),
{
    let n: usize = places.len();
    let ghost target = arranged(entries@, places@, descending);
    let mut out: Vec<RecordingFileEntry> = Vec::new();
    let mut i: usize = 0;
    while i < n
        invariant
            n == places@.len(),
            i <= n,
            sorts(places@, entries@, field),
            target == arranged(entries@, places@, descending),
            target.len() == n,
            out@ == target.take(i as int),
        decreases n - i,
    {
        let at: usize = if descending {
            places[n - 1 - i]
        } else {
            places[i]
        };
        assert(at < entries@.len()) by {
            let k = if descending { n - 1 - i } else { i as int };
            assert(places@[k] < entries@.len());
        }
        out.push(entries[at].clone());
        assert(out@ =~= target.take(i as int + 1));
        i = i + 1;
    }
    assert(target.take(n as int) =~= target);
    out
}

/// Whether an entry tells of one of the files.
pub open spec fn tells_of_some(engine: Engine, e: RecordingFileEntry, files: Seq<RecordedFile>) -> bool {
    exists|j: int| 0 <= j < files.len() && engine.is_entry_of(e, #[trigger] files[j])
}

/// Whether a file is told of by one of the entries.
pub open spec fn is_told_of(engine: Engine, f: RecordedFile, listed: Seq<RecordingFileEntry>) -> bool {
    exists|i: int| 0 <= i < listed.len() && engine.is_entry_of(#[trigger] listed[i], f)
}

proof fn lemma_all_places(places: Seq<usize>, j: int)
    requires
        places.no_duplicates(),
        forall|i: int| 0 <= i < places.len() ==> #[trigger] places[i] < places.len(),
        0 <= j < places.len(),
    ensures
        exists|i: int| 0 <= i < places.len() && #[trigger] places[i] == j,
{
    let ints = places.map_values(|p: usize| p as int);
    assert(ints.no_duplicates()) by {
        assert forall|a: int, b: int| 0 <= a < ints.len() && 0 <= b < ints.len() && a != b implies ints[a]
            != ints[b] by {
            assert(places[a] != places[b]);
        }
    }
    ints.unique_seq_to_set();
    vstd::set_lib::lemma_int_range(0, places.len() as int);
    let all = vstd::set_lib::set_int_range(0, places.len() as int);
    assert(ints.to_set().subset_of(all)) by {
        assert forall|x: int| ints.to_set().contains(x) implies all.contains(x) by {
            let k = ints.index_of(x);
            assert(ints[k] == x);
            assert(places[k] < places.len());
        }
    }
    vstd::set_lib::lemma_subset_equality(ints.to_set(), all);
    assert(all.contains(j));
    assert(ints.contains(j));
    let k = ints.index_of(j);
    assert(places[k] == j);
}

/// A list is the files in another order: each of its entries tells of a file, each file is told of,
/// and there are as many entries as files.
pub proof fn listing_is_complete(
    engine: Engine,
    listed: Seq<RecordingFileEntry>,
    files: Seq<RecordedFile>,
    sort: Option<Seq<char>>,
    order: Option<Seq<char>>,
)
    requires
        engine.is_listing(listed, files, sort, order),
    ensures
        listed.len() == files.len(),
        forall|i: int| 0 <= i < listed.len() ==> tells_of_some(engine, #[trigger] listed[i], files),
        forall|j: int| 0 <= j < files.len() ==> is_told_of(engine, #[trigger] files[j], listed),
{
    let (entries, places) = choose|entries: Seq<RecordingFileEntry>, places: Seq<usize>|
        #![trigger engine.are_entries_of(entries, files), sorts(places, entries, field_of(sort))]
        engine.are_entries_of(entries, files) && sorts(places, entries, field_of(sort)) && listed
            == arranged(entries, places, is_descending(order));
    assert forall|i: int| 0 <= i < listed.len() implies tells_of_some(engine, #[trigger] listed[i], files) by {
        let k = if is_descending(order) { listed.len() - 1 - i } else { i };
        let j = places[k] as int;
        assert(listed[i] == entries[j]);
        assert(engine.is_entry_of(entries[j], files[j]));
    }
    assert forall|j: int| 0 <= j < files.len() implies is_told_of(engine, #[trigger] files[j], listed) by {
        lemma_all_places(places, j);
        let k = choose|k: int| 0 <= k < places.len() && #[trigger] places[k] == j;
        let i = if is_descending(order) { listed.len() - 1 - k } else { k };
        assert(listed[i] == entries[j]);
        assert(engine.is_entry_of(entries[j], files[j]));
    }
}

/// A list by size goes from the smallest file to the largest, or the other way round.
pub proof fn listing_by_size_is_sorted(
    engine: Engine,
    listed: Seq<RecordingFileEntry>,
    files: Seq<RecordedFile>,
    order: Option<Seq<char>>,
    i: int,
    j: int,
)
    requires
        engine.is_listing(listed, files, Some("size"@), order),
        0 <= i < j < listed.len(),
    ensures
        is_descending(order) ==> listed[i].size_bytes >= listed[j].size_bytes,
        !is_descending(order) ==> listed[i].size_bytes <= listed[j].size_bytes,
{
    let sort = Some("size"@);
    let (entries, places) = choose|entries: Seq<RecordingFileEntry>, places: Seq<usize>|
        #![trigger engine.are_entries_of(entries, files), sorts(places, entries, field_of(sort))]
        engine.are_entries_of(entries, files) && sorts(places, entries, field_of(sort)) && listed
            == arranged(entries, places, is_descending(order));
    let keys = entries.map_values(|e: RecordingFileEntry| e.size_bytes);
    let n = listed.len();
    let (a, b) = if is_descending(order) { (n - 1 - j, n - 1 - i) } else { (i, j) };
    assert(keys[places[a] as int] <= keys[places[b] as int]);
}

/// An entry tells the name, the size and the time of its file, how long it is and how many messages
/// it holds where that is known and not zero, and that it is locked while its session is in use.
pub proof fn entries_tell_of_their_file(engine: Engine, e: RecordingFileEntry, f: RecordedFile)
    requires
        engine.is_entry_of(e, f),
    ensures
        e.session_id@ == f.session_id@,
        e.filename@ == f.filename@,
        e.size_bytes == f.size_bytes,
        f.created_secs matches Some(s) ==> (rfc3339_of(s) matches Some(t) ==> e.created_at@ == t),
        f.created_secs matches Some(s) ==> (rfc3339_of(s) is None ==> e.created_at@.len() == 0),
        f.created_secs is None ==> e.created_at@.len() == 0,
        f.summary matches Some(s) ==> (s.0 > 0 ==> e.duration_ns == Some(s.0)) && (s.0 == 0
            ==> e.duration_ns is None) && (s.1 > 0 ==> e.message_count == Some(s.1)) && (s.1 == 0
            ==> e.message_count is None),
        f.summary is None ==> e.duration_ns is None && e.message_count is None,
        e.is_locked <==> engine.records(f.session_id@) || engine.replays(f.session_id@),
{
}

/// The sizes of all files are added up: one more file adds its size, as long as the sum fits into
/// sixty-four bits.
pub proof fn sizes_are_added_up(files: Seq<RecordedFile>, f: RecordedFile)
    ensures
        total_size(Seq::<RecordedFile>::empty()) == 0,
        total_size(files) + f.size_bytes <= u64::MAX ==> total_size(files.push(f)) == total_size(files)
            + f.size_bytes,
{
    assert(files.push(f).drop_last() =~= files);
}

/// Lists are sorted by size or name where that is asked for, and else by the time of creation; they
/// start with the largest unless another order than the descending one is asked for.
pub proof fn lists_are_sorted_as_asked(other: Seq<char>)
    ensures
        field_of(Some("size"@)) == SortField::Size,
        field_of(Some("name"@)) == SortField::Name,
        other != "size"@ && other != "name"@ ==> field_of(Some(other)) == SortField::Created,
        field_of(None) == SortField::Created,
        is_descending(None),
        is_descending(Some("desc"@)),
        other != "desc"@ ==> !is_descending(Some(other)),
{
    reveal_strlit("size");
    reveal_strlit("name");
    assert("size"@[0] == 's' && "name"@[0] == 'n');
}

/// A list by name is in dictionary order, or in its reverse.
pub proof fn listing_by_name_is_sorted(
    engine: Engine,
    listed: Seq<RecordingFileEntry>,
    files: Seq<RecordedFile>,
    order: Option<Seq<char>>,
    i: int,
    j: int,
)
    requires
        engine.is_listing(listed, files, Some("name"@), order),
        0 <= i < j < listed.len(),
    ensures
        is_descending(order) ==> text_le(listed[j].filename@, listed[i].filename@),
        !is_descending(order) ==> text_le(listed[i].filename@, listed[j].filename@),
{
    let sort = Some("name"@);
    lists_are_sorted_as_asked("name"@);
    let (entries, places) = choose|entries: Seq<RecordingFileEntry>, places: Seq<usize>|
        #![trigger engine.are_entries_of(entries, files), sorts(places, entries, field_of(sort))]
        engine.are_entries_of(entries, files) && sorts(places, entries, field_of(sort)) && listed
            == arranged(entries, places, is_descending(order));
    let keys = entries.map_values(|e: RecordingFileEntry| e.filename);
    let n = listed.len();
    let (a, b) = if is_descending(order) { (n - 1 - j, n - 1 - i) } else { (i, j) };
    assert(keys[places[a] as int].le(keys[places[b] as int]));
}

/// A list by the time of creation, which is the order where none is asked for, is sorted by the text
/// of that time.
pub proof fn listing_by_time_is_sorted(
    engine: Engine,
    listed: Seq<RecordingFileEntry>,
    files: Seq<RecordedFile>,
    order: Option<Seq<char>>,
    i: int,
    j: int,
)
    requires
        engine.is_listing(listed, files, None, order),
        0 <= i < j < listed.len(),
    ensures
        is_descending(order) ==> text_le(listed[j].created_at@, listed[i].created_at@),
        !is_descending(order) ==> text_le(listed[i].created_at@, listed[j].created_at@),
{
    let sort = None::<Seq<char>>;
    let (entries, places) = choose|entries: Seq<RecordingFileEntry>, places: Seq<usize>|
        #![trigger engine.are_entries_of(entries, files), sorts(places, entries, field_of(sort))]
        engine.are_entries_of(entries, files) && sorts(places, entries, field_of(sort)) && listed
            == arranged(entries, places, is_descending(order));
    let keys = entries.map_values(|e: RecordingFileEntry| e.created_at);
    let n = listed.len();
    let (a, b) = if is_descending(order) { (n - 1 - j, n - 1 - i) } else { (i, j) };
    assert(keys[places[a] as int].le(keys[places[b] as int]));
}

/// A list in ascending order is the reverse of the list in descending order.
pub proof fn arranged_both_ways(entries: Seq<RecordingFileEntry>, order: Seq<usize>, i: int)
    requires
        0 <= i < order.len(),
    ensures
        arranged(entries, order, false).len() == order.len(),
        arranged(entries, order, true).len() == order.len(),
        arranged(entries, order, false)[i] == entries[order[i] as int],
        arranged(entries, order, true)[order.len() - 1 - i] == entries[order[i] as int],
{
}

} // verus!
