//! The wallpaper history: a bounded log of selections, most recent first, in
//! which no path occurs twice.

use std::collections::VecDeque;
use std::time::{Duration, SystemTime, SystemTimeError};
use crate::text::{
    decimal, decimal_text, padded, padded_decimal_text, text_of, truth, truth_text,
};
use vstd::prelude::*;
use vstd::string::StringExecFns;

verus! {

/// Most entries a history keeps.
pub const MAX_HISTORY_ENTRIES: usize = 50;

/// The last timestamp that can be shown: the last second of the year 9999.
pub const MAX_DISPLAY_TIMESTAMP: u64 = 253_402_300_799;

/// `std::time::SystemTime`, carried through as it is.
#[verifier::external_type_specification]
#[verifier::external_body]
pub struct ExSystemTime(SystemTime);

/// `std::time::SystemTimeError`, carried through as it is.
#[verifier::external_type_specification]
#[verifier::external_body]
pub struct ExSystemTimeError(SystemTimeError);

/// `SystemTime::now`: the system clock's reading. Nothing is claimed of it.
#[verifier::external_body]
fn clock_now() -> (now: SystemTime) {
    SystemTime::now()
}

/// `SystemTime::duration_since`, measured from `UNIX_EPOCH`: the time that
/// lies between the epoch and `time`, or an error where `time` is earlier.
/// Nothing is claimed of either.
#[verifier::external_body]
fn since_unix_epoch(time: &SystemTime) -> (elapsed: Result<Duration, SystemTimeError>) {
    time.duration_since(std::time::UNIX_EPOCH)
}

/// `Duration::as_secs`: the whole seconds in `elapsed`. Nothing is claimed of
/// the number.
#[verifier::external_body]
fn whole_seconds(elapsed: &Duration) -> (seconds: u64) {
    elapsed.as_secs()
}

/// Seconds since the Unix epoch by the system clock; zero where the clock
/// stands before the epoch.
fn current_timestamp() -> u64 {
    let now = clock_now();
    let elapsed = match since_unix_epoch(&now) {
        Ok(elapsed) => Some(whole_seconds(&elapsed)),
        Err(_) => None,
    };
    timestamp_of(elapsed)
}

/// The timestamp for a clock that stands `elapsed` whole seconds after the
/// Unix epoch, or before the epoch (`None`): those seconds, and zero for a
/// clock before the epoch.
pub fn timestamp_of(elapsed: Option<u64>) -> (timestamp: u64)
    ensures
        timestamp == match elapsed {
            Some(seconds) => seconds,
            None => 0,
        },
{
    match elapsed {
        Some(seconds) => seconds,
        None => 0,
    }
}

/// Why an operation on the history was refused.
#[derive(Debug, Clone, Copy, PartialEq, Eq, Structural)]
pub enum HistoryError {
    /// Neither a data home nor a home directory is known.
    ConfigError,
    /// The entries read do not make a history: a path occurs twice, or there
    /// are more entries than the bound.
    ParseError,
    /// The restore step is not positive.
    InvalidArgument,
    /// The restore step lies beyond the last entry.
    NotFound,
    /// The entry's image is no longer on disk.
    StaleEntry,
}

/// What a [`WallpaperEntry`] stands for in contracts.
pub struct EntryView {
    pub path: Seq<char>,
    pub timestamp: u64,
    pub matugen_type: Seq<char>,
    pub is_light: bool,
}

/// One remembered selection.
#[derive(Debug, PartialEq, Eq)]
pub struct WallpaperEntry {
    /// Absolute path of the image; the key by which entries are told apart.
    pub path: String,
    /// Seconds since the Unix epoch at which the entry was made.
    pub timestamp: u64,
    /// The palette scheme that was used.
    pub matugen_type: String,
    /// Light rather than dark palette.
    pub is_light: bool,
}

impl View for WallpaperEntry {
    type V = EntryView;

    open spec fn view(&self) -> EntryView {
        EntryView {
            path: self.path@,
            timestamp: self.timestamp,
            matugen_type: self.matugen_type@,
            is_light: self.is_light,
        }
    }
}

impl Clone for WallpaperEntry {
    fn clone(&self) -> (copy: Self)
        ensures
            copy == *self,
    {
        WallpaperEntry {
            path: self.path.clone(),
            timestamp: self.timestamp,
            matugen_type: self.matugen_type.clone(),
            is_light: self.is_light,
        }
    }
}

impl WallpaperEntry {
    /// An entry made now: its timestamp is the system clock's reading.
    pub fn new(path: String, matugen_type: String, is_light: bool) -> (entry: Self)
        ensures
            entry@.path == path@,
            entry@.matugen_type == matugen_type@,
            entry@.is_light == is_light,
    {
        let timestamp = current_timestamp();
        WallpaperEntry::with_timestamp(path, matugen_type, is_light, timestamp)
    }

    /// An entry made at `timestamp`.
    pub fn with_timestamp(
        path: String,
        matugen_type: String,
        is_light: bool,
        timestamp: u64,
    ) -> (entry: Self)
        ensures
            entry@ == (EntryView { path: path@, timestamp, matugen_type: matugen_type@, is_light }),
    {
        WallpaperEntry { path, timestamp, matugen_type, is_light }
    }
}

/// The views of `entries`, in order.
pub open spec fn views(entries: Seq<WallpaperEntry>) -> Seq<EntryView> {
    entries.map_values(|entry: WallpaperEntry| entry@)
}

/// No path occurs twice in `s`.
pub open spec fn distinct_paths(s: Seq<EntryView>) -> bool {
    forall|i: int, j: int| 0 <= i < j < s.len() ==> s[i].path != s[j].path
}

/// What every history holds: distinct paths, and no more entries than the bound.
pub open spec fn well_formed(s: Seq<EntryView>) -> bool {
    distinct_paths(s) && s.len() <= MAX_HISTORY_ENTRIES
}

/// `s` without the entries for `path`, order kept.
pub open spec fn without_path(s: Seq<EntryView>, path: Seq<char>) -> Seq<EntryView> {
    s.filter(|entry: EntryView| entry.path != path)
}

/// `s` after `entry` is added: earlier entries for the same path are gone,
/// `entry` stands in front, and the entry at the back is dropped where the
/// result would be longer than the bound.
pub open spec fn inserted(s: Seq<EntryView>, entry: EntryView) -> Seq<EntryView> {
    let grown = seq![entry] + without_path(s, entry.path);
    if grown.len() > MAX_HISTORY_ENTRIES {
        grown.drop_last()
    } else {
        grown
    }
}

/// Filtering a sequence that ends in `last` filters what stands before it and
/// keeps `last` where the predicate holds of it.
proof fn lemma_filter_push<A>(s: Seq<A>, last: A, pred: spec_fn(A) -> bool)
    ensures
        s.push(last).filter(pred) == if pred(last) {
            s.filter(pred).push(last)
        } else {
            s.filter(pred)
        },
{
    reveal(Seq::filter);
    assert(s.push(last).drop_last() =~= s);
}

/// Taking the entries for one path out keeps the paths distinct, leaves none
/// for that path, and adds nothing.
pub proof fn lemma_without_path(s: Seq<EntryView>, path: Seq<char>)
    ensures
        without_path(s, path).len() <= s.len(),
        forall|i: int|
            0 <= i < without_path(s, path).len() ==> #[trigger] without_path(s, path)[i].path
                != path,
        forall|i: int|
            0 <= i < without_path(s, path).len() ==> s.contains(
                #[trigger] without_path(s, path)[i],
            ),
        distinct_paths(s) ==> distinct_paths(without_path(s, path)),
        (forall|i: int| 0 <= i < s.len() ==> #[trigger] s[i].path != path) ==> without_path(
            s,
            path,
        ) == s,
    decreases s.len(),
{
    let pred = |entry: EntryView| entry.path != path;
    reveal(Seq::filter);
    if s.len() > 0 {
        let front = s.drop_last();
        lemma_without_path(front, path);
        let kept = without_path(front, path);
        assert(without_path(s, path) == if pred(s.last()) {
            kept.push(s.last())
        } else {
            kept
        });
        assert forall|i: int| 0 <= i < without_path(s, path).len() implies s.contains(
            #[trigger] without_path(s, path)[i],
        ) by {
            if i < kept.len() {
                let k = choose|k: int| 0 <= k < front.len() && front[k] == kept[i];
                assert(s[k] == kept[i]);
            } else {
                assert(s[s.len() - 1] == s.last());
            }
        }
        if distinct_paths(s) {
            assert forall|i: int, j: int| 0 <= i < j < without_path(s, path).len() implies
                without_path(s, path)[i].path != without_path(s, path)[j].path by {
                if j < kept.len() {
                    assert(distinct_paths(front)) by {
                        assert forall|a: int, b: int| 0 <= a < b < front.len() implies front[a].path
                            != front[b].path by {
                            assert(front[a] == s[a] && front[b] == s[b]);
                        }
                    }
                } else {
                    let k = choose|k: int| 0 <= k < front.len() && front[k] == kept[i];
                    assert(s[k] == kept[i]);
                    assert(s[s.len() - 1] == s.last());
                }
            }
        }
        if forall|i: int| 0 <= i < s.len() ==> #[trigger] s[i].path != path {
            assert forall|i: int| 0 <= i < front.len() implies #[trigger] front[i].path
                != path by {
                assert(front[i] == s[i]);
            }
            assert(kept == front);
            assert(s[s.len() - 1].path != path);
            assert(front.push(s.last()) =~= s);
        }
    } else {
        assert(without_path(s, path) =~= s);
    }
}

/// Adding an entry to a well-formed history gives a well-formed history with
/// that entry in front and no other entry for its path.
pub proof fn lemma_inserted(s: Seq<EntryView>, entry: EntryView)
    requires
        well_formed(s),
    ensures
        well_formed(inserted(s, entry)),
        1 <= inserted(s, entry).len() <= s.len() + 1,
        inserted(s, entry)[0] == entry,
        forall|i: int|
            1 <= i < inserted(s, entry).len() ==> #[trigger] inserted(s, entry)[i].path
                != entry.path,
        forall|i: int|
            1 <= i < inserted(s, entry).len() ==> s.contains(#[trigger] inserted(s, entry)[i]),
{
    lemma_without_path(s, entry.path);
    let rest = without_path(s, entry.path);
    let grown = seq![entry] + rest;
    assert forall|i: int| 1 <= i < grown.len() implies grown[i] == rest[i - 1] by {}
    assert forall|i: int, j: int| 0 <= i < j < grown.len() implies grown[i].path
        != grown[j].path by {
        assert(grown[j] == rest[j - 1]);
        if i > 0 {
            assert(grown[i] == rest[i - 1]);
        }
    }
    let result = inserted(s, entry);
    assert forall|i: int| 0 <= i < result.len() implies result[i] == grown[i] by {}
    assert forall|i: int| 1 <= i < result.len() implies s.contains(#[trigger] result[i]) by {
        assert(result[i] == rest[i - 1]);
    }
}

/// The history that results when the entries of `calls` are added to the
/// empty history one after another.
pub open spec fn replayed(calls: Seq<EntryView>) -> Seq<EntryView>
    decreases calls.len(),
{
    if calls.len() == 0 {
        Seq::empty()
    } else {
        inserted(replayed(calls.drop_last()), calls.last())
    }
}

/// After any sequence of additions the history is well formed, so that no
/// path occurs twice; the last entry added stands in front; and every entry
/// in the history is the one that the most recent addition for its path gave.
pub proof fn law_dedup(calls: Seq<EntryView>)
    ensures
        well_formed(replayed(calls)),
        calls.len() > 0 ==> replayed(calls).len() > 0 && replayed(calls)[0] == calls.last(),
        forall|i: int|
            0 <= i < replayed(calls).len() ==> exists|k: int|
                0 <= k < calls.len() && calls[k] == #[trigger] replayed(calls)[i] && forall|
                    later: int,
                |
                    k < later < calls.len() ==> (#[trigger] calls[later]).path != calls[k].path,
    decreases calls.len(),
{
    if calls.len() > 0 {
        let earlier = calls.drop_last();
        let before = replayed(earlier);
        let entry = calls.last();
        law_dedup(earlier);
        lemma_inserted(before, entry);
        let now = replayed(calls);
        assert forall|i: int| 0 <= i < now.len() implies exists|k: int|
            0 <= k < calls.len() && calls[k] == #[trigger] now[i] && forall|later: int|
                k < later < calls.len() ==> (#[trigger] calls[later]).path != calls[k].path by {
            if i == 0 {
                let k = calls.len() - 1;
                assert(calls[k] == now[0]);
            } else {
                assert(before.contains(now[i]));
                let j = choose|j: int| 0 <= j < before.len() && before[j] == now[i];
                let k = choose|k: int|
                    0 <= k < earlier.len() && earlier[k] == before[j] && forall|later: int|
                        k < later < earlier.len() ==> (#[trigger] earlier[later]).path
                            != earlier[k].path;
                assert(calls[k] == now[i]);
                assert forall|later: int| k < later < calls.len() implies (
                #[trigger] calls[later]).path != calls[k].path by {
                    if later < earlier.len() {
                        assert(earlier[later] == calls[later]);
                    }
                }
            }
        }
    }
}

/// An addition never leaves more entries than the bound. An entry for a path
/// that the history does not hold goes in front of all the others, and where
/// the history was at the bound, its oldest entry leaves.
pub proof fn law_bound(s: Seq<EntryView>, entry: EntryView)
    requires
        well_formed(s),
    ensures
        inserted(s, entry).len() <= MAX_HISTORY_ENTRIES,
        (forall|i: int| 0 <= i < s.len() ==> (#[trigger] s[i]).path != entry.path) ==> inserted(
            s,
            entry,
        ) == if s.len() == MAX_HISTORY_ENTRIES {
            seq![entry] + s.drop_last()
        } else {
            seq![entry] + s
        },
{
    lemma_inserted(s, entry);
    lemma_without_path(s, entry.path);
    if forall|i: int| 0 <= i < s.len() ==> (#[trigger] s[i]).path != entry.path {
        assert(without_path(s, entry.path) == s);
        if s.len() == MAX_HISTORY_ENTRIES {
            assert((seq![entry] + s).drop_last() =~= seq![entry] + s.drop_last());
        }
    }
}

/// An addition for a path that the history holds moves that path's entry to
/// the front, with the new data, and leaves the number of entries as it was.
pub proof fn law_move_to_front(s: Seq<EntryView>, entry: EntryView, at: int)
    requires
        well_formed(s),
        0 <= at < s.len(),
        s[at].path == entry.path,
    ensures
        inserted(s, entry) == seq![entry] + s.remove(at),
        inserted(s, entry).len() == s.len(),
{
    lemma_without_one(s, entry.path, at);
}

/// Where the paths are distinct, taking out the entries for the path at
/// place `at` takes out that entry alone.
proof fn lemma_without_one(s: Seq<EntryView>, path: Seq<char>, at: int)
    requires
        distinct_paths(s),
        0 <= at < s.len(),
        s[at].path == path,
    ensures
        without_path(s, path) == s.remove(at),
    decreases s.len(),
{
    let front = s.drop_last();
    let pred = |entry: EntryView| entry.path != path;
    reveal(Seq::filter);
    assert(without_path(s, path) == if pred(s.last()) {
        without_path(front, path).push(s.last())
    } else {
        without_path(front, path)
    });
    if at == s.len() - 1 {
        assert forall|i: int| 0 <= i < front.len() implies (#[trigger] front[i]).path != path by {
            assert(front[i] == s[i]);
        }
        lemma_without_path(front, path);
        assert(s.remove(at) =~= front);
    } else {
        assert(distinct_paths(front)) by {
            assert forall|a: int, b: int| 0 <= a < b < front.len() implies front[a].path
                != front[b].path by {
                assert(front[a] == s[a] && front[b] == s[b]);
            }
        }
        assert(front[at] == s[at]);
        lemma_without_one(front, path, at);
        assert(s[s.len() - 1].path != s[at].path);
        assert(s.remove(at) =~= front.remove(at).push(s.last()));
    }
}

/// What is read from `stored`, the entries of the history file or `None`
/// where there is no file: the empty history where there is none, the
/// entries where they make a history, and a parse error where they do not.
pub open spec fn loaded(stored: Option<Seq<EntryView>>) -> Result<Seq<EntryView>, HistoryError> {
    match stored {
        None => Ok(Seq::empty()),
        Some(entries) => if well_formed(entries) {
            Ok(entries)
        } else {
            Err(HistoryError::ParseError)
        },
    }
}

/// The views of the stored entries, where there are any.
pub open spec fn stored_views(stored: Option<VecDeque<WallpaperEntry>>) -> Option<Seq<EntryView>> {
    match stored {
        Some(entries) => Some(views(entries@)),
        None => None,
    }
}

/// What a history hands out to be written is read back as the same history,
/// entry for entry and in the same order.
pub proof fn law_round_trip(s: Seq<EntryView>)
    requires
        well_formed(s),
    ensures
        loaded(Some(s)) == Ok::<Seq<EntryView>, HistoryError>(s),
{
}

/// Whether no path occurs twice among `entries`.
fn paths_are_distinct(entries: &VecDeque<WallpaperEntry>) -> (distinct: bool)
    ensures
        distinct == distinct_paths(views(entries@)),
{
    let count = entries.len();
    let mut j: usize = 0;
    while j < count
        invariant
            j <= count,
            count == entries@.len(),
            distinct_paths(views(entries@).take(j as int)),
        decreases count - j,
    {
        let mut i: usize = 0;
        while i < j
            invariant
                i <= j < count,
                count == entries@.len(),
                forall|k: int| 0 <= k < i ==> views(entries@)[k].path != views(entries@)[j as int].path,
            decreases j - i,
        {
            if entries[i].path == entries[j].path {
                assert(views(entries@)[i as int].path == views(entries@)[j as int].path);
                return false;
            }
            i += 1;
        }
        proof {
            let all = views(entries@);
            let checked = all.take(j as int);
            let next = all.take(j + 1);
            assert forall|a: int, b: int| 0 <= a < b < next.len() implies next[a].path
                != next[b].path by {
                if b < j {
                    assert(checked[a] == all[a]);
                    assert(checked[b] == all[b]);
                }
            }
        }
        j += 1;
    }
    proof {
        assert(views(entries@).take(count as int) =~= views(entries@));
    }
    true
}

/// Takes the entries for `path` out of `entries`, order kept.
fn remove_path(entries: &mut VecDeque<WallpaperEntry>, path: &String)
    ensures
        views(final(entries)@) == without_path(views(old(entries)@), path@),
{
    let ghost original = views(entries@);
    let mut i: usize = 0;
    proof {
        reveal(Seq::filter);
        assert(original.take(0) =~= Seq::<EntryView>::empty());
        assert(views(entries@).take(0) =~= Seq::<EntryView>::empty());
        assert(views(entries@).skip(0) =~= original.skip(0));
    }
    while i < entries.len()
        invariant
            i <= entries@.len() <= original.len(),
            views(entries@).take(i as int) == without_path(
                original.take(original.len() - entries@.len() + i),
                path@,
            ),
            views(entries@).skip(i as int) == original.skip(original.len() - entries@.len() + i),
        decreases entries@.len() - i,
    {
        let ghost before = views(entries@);
        let ghost seen = original.len() - entries@.len() + i;
        proof {
            assert(before[i as int] == before.skip(i as int)[0]);
            assert(original[seen] == original.skip(seen)[0]);
            assert(original.take(seen + 1) =~= original.take(seen).push(original[seen]));
            lemma_filter_push(
                original.take(seen),
                original[seen],
                |entry: EntryView| entry.path != path@,
            );
        }
        if entries[i].path == *path {
            let _ = entries.remove(i);
            proof {
                let after = views(entries@);
                assert(after =~= before.remove(i as int));
                assert(after.take(i as int) =~= before.take(i as int));
                assert(after.skip(i as int) =~= before.skip(i + 1));
                assert(before.skip(i + 1) =~= before.skip(i as int).skip(1));
                assert(original.skip(seen + 1) =~= original.skip(seen).skip(1));
            }
        } else {
            proof {
                assert(before.take(i + 1) =~= before.take(i as int).push(before[i as int]));
                assert(before.skip(i + 1) =~= before.skip(i as int).skip(1));
                assert(original.skip(seen + 1) =~= original.skip(seen).skip(1));
            }
            i += 1;
        }
    }
    proof {
        assert(views(entries@).take(i as int) =~= views(entries@));
        assert(original.take(original.len() as int) =~= original);
    }
}

/// The wallpaper history. Its view is the sequence of its entries, most recent
/// first; every history is [`well_formed`].
#[derive(Debug)]
pub struct WallpaperHistory {
    entries: VecDeque<WallpaperEntry>,
}

impl View for WallpaperHistory {
    type V = Seq<EntryView>;

    closed spec fn view(&self) -> Seq<EntryView> {
        views(self.entries@)
    }
}

impl Default for WallpaperHistory {
    /// The empty history.
    fn default() -> (history: Self)
        ensures
            history@ == Seq::<EntryView>::empty(),
    {
        let history = WallpaperHistory { entries: VecDeque::with_capacity(MAX_HISTORY_ENTRIES) };
        assert(history@ =~= Seq::<EntryView>::empty());
        history
    }
}

impl WallpaperHistory {
    #[verifier::type_invariant]
    spec fn holds(self) -> bool {
        well_formed(self@)
    }

    /// The history that `stored` holds: what was read from the history file,
    /// most recent first, or `None` where there is no file. No file gives the
    /// empty history. Entries in which a path occurs twice, or more of them
    /// than the bound, are a parse error.
    pub fn load(stored: Option<VecDeque<WallpaperEntry>>) -> (history: Result<Self, HistoryError>)
        ensures
            match history {
                Ok(read) => loaded(stored_views(stored)) == Ok::<Seq<EntryView>, HistoryError>(
                    read@,
                ),
                Err(error) => loaded(stored_views(stored)) == Err::<Seq<EntryView>, HistoryError>(
                    error,
                ),
            },
    {
        match stored {
            None => Ok(WallpaperHistory::default()),
            Some(entries) => {
                if entries.len() <= MAX_HISTORY_ENTRIES && paths_are_distinct(&entries) {
                    Ok(WallpaperHistory { entries })
                } else {
                    Err(HistoryError::ParseError)
                }
            },
        }
    }

    /// The entries to write to the history file, most recent first.
    pub fn save(&self) -> (stored: VecDeque<WallpaperEntry>)
        ensures
            views(stored@) == self@,
            well_formed(self@),
    {
        proof {
            use_type_invariant(self);
        }
        let stored = self.entries.clone();
        assert(views(stored@) =~= views(self.entries@));
        stored
    }

    /// Adds `entry` as the most recent: an earlier entry for its path leaves,
    /// and the oldest entry leaves where the history would outgrow the bound.
    pub fn insert(&mut self, entry: WallpaperEntry)
        ensures
            final(self)@ == inserted(old(self)@, entry@),
            well_formed(final(self)@),
    {
        proof {
            use_type_invariant(&*self);
            lemma_inserted(self@, entry@);
        }
        let mut entries: VecDeque<WallpaperEntry> = VecDeque::new();
        std::mem::swap(&mut self.entries, &mut entries);

        // Remove duplicate if exists
        remove_path(&mut entries, &entry.path);
        let ghost kept = views(entries@);

        // Add to front
        let ghost added = entry@;
        entries.push_front(entry);
        assert(views(entries@) =~= seq![added] + kept);

        // Keep only MAX_HISTORY_ENTRIES
        if entries.len() > MAX_HISTORY_ENTRIES {
            let _ = entries.pop_back();
            assert(views(entries@) =~= (seq![added] + kept).drop_last());
        }
        self.entries = entries;
    }

    /// Adds an entry made now for `path`. The entry in front is the new one,
    /// with the system clock's reading as its timestamp.
    pub fn add_entry(&mut self, path: String, matugen_type: String, is_light: bool)
        ensures
            final(self)@.len() > 0,
            final(self)@[0].path == path@,
            final(self)@[0].matugen_type == matugen_type@,
            final(self)@[0].is_light == is_light,
            final(self)@ == inserted(old(self)@, final(self)@[0]),
            well_formed(final(self)@),
    {
        proof {
            use_type_invariant(&*self);
        }
        let entry = WallpaperEntry::new(path, matugen_type, is_light);
        proof {
            lemma_inserted(self@, entry@);
        }
        self.insert(entry);
    }

    pub fn get_entries(&self) -> (entries: &VecDeque<WallpaperEntry>)
        ensures
            views(entries@) == self@,
            well_formed(self@),
    {
        proof {
            use_type_invariant(self);
        }
        &self.entries
    }

    /// The entry at `index`, counted from zero at the most recent.
    pub fn get_entry(&self, index: usize) -> (entry: Option<&WallpaperEntry>)
        ensures
            match entry {
                Some(found) => index < self@.len() && found@ == self@[index as int],
                None => index >= self@.len(),
            },
    {
        if index < self.entries.len() {
            Some(&self.entries[index])
        } else {
            None
        }
    }

    pub fn is_empty(&self) -> (empty: bool)
        ensures
            empty == (self@.len() == 0),
    {
        self.entries.len() == 0
    }

    pub fn len(&self) -> (count: usize)
        ensures
            count == self@.len(),
            count <= MAX_HISTORY_ENTRIES,
    {
        proof {
            use_type_invariant(self);
        }
        self.entries.len()
    }
}

/// The zero-based index that the restore step `step` stands for in a history
/// of `len` entries: step 1 is the most recent entry.
pub open spec fn restore_index(step: int, len: nat) -> Result<int, HistoryError> {
    if step <= 0 {
        Err(HistoryError::InvalidArgument)
    } else if step > len {
        Err(HistoryError::NotFound)
    } else {
        Ok(step - 1)
    }
}

/// The entry of `s` that the restore step `step` names.
pub open spec fn entry_at_step(s: Seq<EntryView>, step: int) -> Result<EntryView, HistoryError> {
    match restore_index(step, s.len()) {
        Ok(index) => Ok(s[index]),
        Err(error) => Err(error),
    }
}

/// The entry of `s` that is restored for `step`, where `file_exists` says
/// whether the image of the entry that the step names is still on disk.
pub open spec fn restored_entry(s: Seq<EntryView>, step: int, file_exists: bool) -> Result<
    EntryView,
    HistoryError,
> {
    match entry_at_step(s, step) {
        Ok(entry) => if file_exists {
            Ok(entry)
        } else {
            Err(HistoryError::StaleEntry)
        },
        Err(error) => Err(error),
    }
}

/// The view of an entry or the error in its place.
pub open spec fn entry_or_error(found: Result<WallpaperEntry, HistoryError>) -> Result<
    EntryView,
    HistoryError,
> {
    match found {
        Ok(entry) => Ok(entry@),
        Err(error) => Err(error),
    }
}

/// Step 1 names the entry in front; a step that is not positive is an invalid
/// argument, and a step beyond the number of entries finds nothing, whether
/// or not any file exists.
pub proof fn law_restore_indexing(s: Seq<EntryView>, step: int, file_exists: bool)
    ensures
        step == 1 && s.len() > 0 ==> entry_at_step(s, step) == Ok::<EntryView, HistoryError>(s[0]),
        step <= 0 ==> restored_entry(s, step, file_exists) == Err::<EntryView, HistoryError>(
            HistoryError::InvalidArgument,
        ),
        step > s.len() ==> restored_entry(s, step, file_exists) == Err::<EntryView, HistoryError>(
            HistoryError::NotFound,
        ),
        1 <= step <= s.len() ==> restored_entry(s, step, true) == Ok::<EntryView, HistoryError>(
            s[step - 1],
        ),
{
}

/// Adds an entry made now for `path` to `history`, as [`WallpaperHistory::add_entry`] does.
pub fn add_to_history(history: &mut WallpaperHistory, path: &str, matugen_type: &str, is_light: bool)
    ensures
        final(history)@.len() > 0,
        final(history)@[0].path == path@,
        final(history)@[0].matugen_type == matugen_type@,
        final(history)@[0].is_light == is_light,
        final(history)@ == inserted(old(history)@, final(history)@[0]),
        well_formed(final(history)@),
{
    history.add_entry(String::from_str(path), String::from_str(matugen_type), is_light);
}

/// The entry that the restore step `step` names, counted from 1 at the most
/// recent: the one whose image must be looked for on disk before it is
/// restored. A step that is not positive is an invalid argument; one beyond
/// the last entry finds nothing.
pub fn restore_candidate(history: &WallpaperHistory, step: i32) -> (candidate: Result<
    WallpaperEntry,
    HistoryError,
>)
    ensures
        entry_or_error(candidate) == entry_at_step(history@, step as int),
{
    let index = if step > 0 {
        (step - 1) as usize  // 1-based to 0-based
    } else {
        return Err(HistoryError::InvalidArgument);
    };
    match history.get_entry(index) {
        Some(entry) => Ok(entry.clone()),
        None => Err(HistoryError::NotFound),
    }
}

/// Restores the entry that the restore step `step` names, counted from 1 at
/// the most recent. `file_exists` says whether the image of that entry, the
/// [`restore_candidate`], is still on disk. A step that is not positive is an
/// invalid argument; one beyond the last entry finds nothing; and an entry
/// whose image is gone is stale.
pub fn restore_from_history(history: &WallpaperHistory, step: i32, file_exists: bool) -> (restored:
    Result<WallpaperEntry, HistoryError>)
    ensures
        entry_or_error(restored) == restored_entry(history@, step as int, file_exists),
{
    let entry = match restore_candidate(history, step) {
        Ok(entry) => entry,
        Err(error) => {
            return Err(error);
        },
    };

    // Check if the file still exists
    if !file_exists {
        return Err(HistoryError::StaleEntry);
    }
    Ok(entry)
}

/// Where the application keeps its data: `subdirectory`, a relative path,
/// below `base`.
#[derive(Debug, PartialEq, Eq)]
pub struct DataDirectory {
    pub base: String,
    pub subdirectory: String,
}

/// Where the history is kept: the file `file_name` in `directory`.
#[derive(Debug, PartialEq, Eq)]
pub struct HistoryFile {
    pub directory: DataDirectory,
    pub file_name: String,
}

/// The base and the subdirectory of the data directory: below the data home
/// where one is set, else below the home directory.
pub open spec fn data_directory(xdg_data_home: Option<Seq<char>>, home: Option<Seq<char>>) -> Option<
    (Seq<char>, Seq<char>),
> {
    match xdg_data_home {
        Some(data_home) => Some((data_home, "wallpaper"@)),
        None => match home {
            Some(home_directory) => Some((home_directory, ".local/share/wallpaper"@)),
            None => None,
        },
    }
}

/// The data directory, from the data home override and the home directory as
/// the environment gives them. It is a configuration error where neither is set.
pub fn get_data_directory(xdg_data_home: Option<String>, home: Option<String>) -> (directory: Result<
    DataDirectory,
    HistoryError,
>)
    ensures
        match directory {
            Ok(found) => data_directory(text_of(xdg_data_home), text_of(home))
                == Some((found.base@, found.subdirectory@)),
            Err(error) => data_directory(text_of(xdg_data_home), text_of(home))
                is None && error == HistoryError::ConfigError,
        },
{
    // Try to use the data home first, fall back to the home directory
    if let Some(data_home) = xdg_data_home {
        Ok(DataDirectory { base: data_home, subdirectory: String::from_str("wallpaper") })
    } else if let Some(home_directory) = home {
        Ok(
            DataDirectory {
                base: home_directory,
                subdirectory: String::from_str(".local/share/wallpaper"),
            },
        )
    } else {
        Err(HistoryError::ConfigError)
    }
}

/// The history file: `history.json` in the data directory.
pub fn get_history_file_path(xdg_data_home: Option<String>, home: Option<String>) -> (file: Result<
    HistoryFile,
    HistoryError,
>)
    ensures
        match file {
            Ok(found) => data_directory(text_of(xdg_data_home), text_of(home))
                == Some((found.directory.base@, found.directory.subdirectory@))
                && found.file_name@ == "history.json"@,
            Err(error) => data_directory(text_of(xdg_data_home), text_of(home))
                is None && error == HistoryError::ConfigError,
        },
{
    match get_data_directory(xdg_data_home, home) {
        Ok(directory) => Ok(HistoryFile { directory, file_name: String::from_str("history.json") }),
        Err(error) => Err(error),
    }
}

/// What `humantime::format_rfc3339_seconds` shows for the time `timestamp`
/// seconds after the Unix epoch.
pub uninterp spec fn rfc3339_seconds(timestamp: u64) -> Seq<char>;

/// `humantime::format_rfc3339_seconds`, shown as text: the time `timestamp`
/// seconds after the Unix epoch as an RFC 3339 timestamp in UTC, without
/// fractional seconds. It shows no time after the year 9999.
#[verifier::external_body]
fn format_timestamp(timestamp: u64) -> (text: String)
    requires
        timestamp <= MAX_DISPLAY_TIMESTAMP,
    ensures
        text@ == rfc3339_seconds(timestamp),
{
    let time = std::time::UNIX_EPOCH + Duration::from_secs(timestamp);
    humantime::format_rfc3339_seconds(time).to_string()
}

/// Every timestamp in `s` can be shown.
pub open spec fn displayable(s: Seq<EntryView>) -> bool {
    forall|i: int| 0 <= i < s.len() ==> #[trigger] s[i].timestamp <= MAX_DISPLAY_TIMESTAMP
}

/// The line that shows `entry` at the 1-based `position`, with `datetime` as
/// the text of its timestamp.
pub open spec fn history_line_with(position: nat, entry: EntryView, datetime: Seq<char>) -> Seq<
    char,
> {
    padded(decimal(position)) + ": "@ + entry.path + " | "@ + datetime + " | Type: "@
        + entry.matugen_type + " | Light: "@ + truth(entry.is_light)
}

/// The line that shows `entry` at the 1-based `position`.
pub open spec fn history_line(position: nat, entry: EntryView) -> Seq<char> {
    history_line_with(position, entry, rfc3339_seconds(entry.timestamp))
}

/// The rule below the heading: 80 hyphens.
pub open spec fn heading_rule() -> Seq<char> {
    Seq::new(80, |i: int| '-')
}

/// The lines that show the history `s`: one line that says so where it is
/// empty, else a heading with the count, a rule, and one line for each entry.
pub open spec fn history_lines(s: Seq<EntryView>) -> Seq<Seq<char>> {
    if s.len() == 0 {
        seq!["No wallpaper history found."@]
    } else {
        seq!["Wallpaper History ("@ + decimal(s.len()) + " entries):"@, heading_rule()] + Seq::new(
            s.len(),
            |i: int| history_line((i + 1) as nat, s[i]),
        )
    }
}

/// The line that shows `entry` at the 1-based `position`, with `datetime` as
/// the text of its timestamp.
pub fn format_history_line(position: usize, entry: &WallpaperEntry, datetime: &str) -> (line: String)
    ensures
        line@ == history_line_with(position as nat, entry@, datetime@),
{
    let mut line = padded_decimal_text(position);
    line.append(": ");
    line.append(entry.path.as_str());
    line.append(" | ");
    line.append(datetime);
    line.append(" | Type: ");
    line.append(entry.matugen_type.as_str());
    line.append(" | Light: ");
    line.append(truth_text(entry.is_light));
    line
}

impl WallpaperHistory {
    /// Whether every timestamp in the history can be shown.
    pub fn is_displayable(&self) -> (shown: bool)
        ensures
            shown == displayable(self@),
    {
        let mut i: usize = 0;
        while i < self.entries.len()
            invariant
                i <= self.entries@.len(),
                forall|k: int| 0 <= k < i ==> #[trigger] self@[k].timestamp <= MAX_DISPLAY_TIMESTAMP,
            decreases self.entries@.len() - i,
        {
            if self.entries[i].timestamp > MAX_DISPLAY_TIMESTAMP {
                assert(self@[i as int].timestamp > MAX_DISPLAY_TIMESTAMP);
                return false;
            }
            i += 1;
        }
        true
    }
}

/// The lines that show `history` to the user, in order.
pub fn display_history(history: &WallpaperHistory) -> (lines: Vec<String>)
    requires
        displayable(history@),
    ensures
        lines.deep_view() == history_lines(history@),
{
    let mut lines: Vec<String> = Vec::new();
    if history.is_empty() {
        lines.push(String::from_str("No wallpaper history found."));
        assert(lines.deep_view() =~= history_lines(history@));
        return lines;
    }
    let count = history.len();
    let mut heading = String::from_str("Wallpaper History (");
    heading.append(decimal_text(count).as_str());
    heading.append(" entries):");
    lines.push(heading);
    let rule = String::from_str(
        "--------------------------------------------------------------------------------",
    );
    proof {
        reveal_strlit(
            "--------------------------------------------------------------------------------",
        );
        assert(rule@ =~= heading_rule());
    }
    lines.push(rule);
    let entries = history.get_entries();
    let mut index: usize = 0;
    while index < count
        invariant
            index <= count,
            count == history@.len(),
            count <= MAX_HISTORY_ENTRIES,
            views(entries@) == history@,
            displayable(history@),
            lines.deep_view() =~= history_lines(history@).take(index + 2),
        decreases count - index,
    {
        assert(history@[index as int].timestamp <= MAX_DISPLAY_TIMESTAMP);
        let datetime = format_timestamp(entries[index].timestamp);
        let line = format_history_line(index + 1, &entries[index], datetime.as_str());
        proof {
            let all = history_lines(history@);
            assert(entries@[index as int]@ == history@[index as int]);
            assert(all[index + 2] == line@);
            assert(all.take(index + 3) =~= all.take(index + 2).push(all[index + 2]));
        }
        lines.push(line);
        index += 1;
    }
    assert(history_lines(history@).take(count + 2) =~= history_lines(history@));
    lines
}

} // verus!
