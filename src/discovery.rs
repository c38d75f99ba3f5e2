//! Discovery of the exported files of one table and the order in which they
//! are applied: snapshot files first, then change files in time order.

use vstd::prelude::*;

verus! {

/// What to load: the files of a table inside a time window, or one file
/// given by its key.
pub enum LoadParquetFilesPayload {
    DateAware {
        bucket_name: String,
        s3_prefix: String,
        database_name: String,
        schema_name: String,
        table_name: String,
        start_date: String,
        stop_date: Option<String>,
    },
    AbsolutePath(String),
}

/// The marker that names a snapshot file.
pub open spec fn snapshot_marker() -> Seq<char> {
    seq!['L', 'O', 'A', 'D']
}

/// A key names a snapshot file when it contains the marker `LOAD`; every
/// other key names a change file.
pub open spec fn is_snapshot(key: Seq<char>) -> bool {
    exists|i: int|
        0 <= i && i + 4 <= key.len() && #[trigger] key.subrange(i, i + 4) == snapshot_marker()
}

/// Tells whether `key` names a snapshot file.
pub fn is_snapshot_key(key: &str) -> (r: bool)
    ensures
        r == is_snapshot(key@),
{
    let n = key.unicode_len();
    if n < 4 {
        return false;
    }
    let mut i: usize = 0;
    while i <= n - 4
        invariant
            n == key@.len(),
            n >= 4,
            i <= n - 3,
            forall|j: int| 0 <= j < i ==> #[trigger] key@.subrange(j, j + 4) != snapshot_marker(),
        decreases n - i,
    {
        if key.get_char(i) == 'L' && key.get_char(i + 1) == 'O' && key.get_char(i + 2) == 'A'
            && key.get_char(i + 3) == 'D' {
            assert(key@.subrange(i as int, i + 4) =~= snapshot_marker());
            return true;
        }
        assert(key@.subrange(i as int, i + 4)[0] == key@[i as int]);
        assert(key@.subrange(i as int, i + 4)[1] == key@[i + 1]);
        assert(key@.subrange(i as int, i + 4)[2] == key@[i + 2]);
        assert(key@.subrange(i as int, i + 4)[3] == key@[i + 3]);
        assert(key@.subrange(i as int, i + 4) != snapshot_marker());
        i = i + 1;
    }
    false
}

/// A point in time: whole seconds since the Unix epoch and the nanoseconds
/// after them.
#[derive(Clone, Copy, PartialEq, Eq, Structural, Debug)]
pub struct Timestamp {
    pub secs: i64,
    pub nanos: u32,
}

impl Timestamp {
    /// The position of this point on the time line, in nanoseconds.
    pub open spec fn position(self) -> int {
        self.secs * 1_000_000_000 + self.nanos
    }

    /// Tells whether this point lies strictly after `other`.
    pub fn is_after(&self, other: &Timestamp) -> (r: bool)
        ensures
            r == (self.position() > other.position()),
    {
        let a: i128 = self.secs as i128 * 1_000_000_000i128 + self.nanos as i128;
        let b: i128 = other.secs as i128 * 1_000_000_000i128 + other.nanos as i128;
        a > b
    }
}

/// The window test for change files: strictly after `start` and, when
/// there is a `stop`, strictly before it.
pub open spec fn in_window(t: Timestamp, start: Timestamp, stop: Option<Timestamp>) -> bool {
    t.position() > start.position() && match stop {
        Some(s) => t.position() < s.position(),
        None => true,
    }
}

/// Tells whether `t` lies inside the open window from `start` to `stop`.
pub fn is_in_window(t: &Timestamp, start: &Timestamp, stop: &Option<Timestamp>) -> (r: bool)
    ensures
        r == in_window(*t, *start, *stop),
{
    if !t.is_after(start) {
        return false;
    }
    match stop {
        Some(s) => s.is_after(t),
        None => true,
    }
}

/// Whether a listed object is applied: a snapshot file always, a change
/// file when its last modification lies inside the window.
pub open spec fn selected(
    key: Seq<char>,
    last_modified: Option<Timestamp>,
    start: Timestamp,
    stop: Option<Timestamp>,
) -> bool {
    is_snapshot(key) || match last_modified {
        Some(t) => in_window(t, start, stop),
        None => false,
    }
}

/// Decides whether a listed object is applied.
pub fn select_object(
    key: &str,
    last_modified: &Option<Timestamp>,
    start: &Timestamp,
    stop: &Option<Timestamp>,
) -> (r: bool)
    ensures
        r == selected(key@, *last_modified, *start, *stop),
{
    if is_snapshot_key(key) {
        return true;
    }
    match last_modified {
        Some(t) => is_in_window(t, start, stop),
        None => false,
    }
}


/// One object of a listing page: its key and, when the store reports it,
/// the time of its last modification.
pub struct ListedObject {
    pub key: String,
    pub last_modified: Option<Timestamp>,
}

/// The keys of the objects that are applied, in listing order.
pub open spec fn selected_keys(
    objects: Seq<ListedObject>,
    start: Timestamp,
    stop: Option<Timestamp>,
) -> Seq<Seq<char>>
    decreases objects.len(),
{
    if objects.len() == 0 {
        Seq::empty()
    } else {
        let prev = selected_keys(objects.drop_last(), start, stop);
        let o = objects.last();
        if selected(o.key@, o.last_modified, start, stop) {
            prev.push(o.key@)
        } else {
            prev
        }
    }
}

/// The views of a list of keys.
pub open spec fn key_views(files: Seq<String>) -> Seq<Seq<char>> {
    files.map_values(|f: String| f@)
}

/// The files of a table gathered page by page from a paginated listing.
pub struct FileListing {
    pub files: Vec<String>,
    pub start: Timestamp,
    pub stop: Option<Timestamp>,
}

impl FileListing {
    /// The keys gathered so far.
    pub open spec fn keys(&self) -> Seq<Seq<char>> {
        key_views(self.files@)
    }

    /// A listing with no page taken in yet, for the window from `start`
    /// to `stop`.
    pub fn new(start: Timestamp, stop: Option<Timestamp>) -> (r: FileListing)
        ensures
            r.keys() == Seq::<Seq<char>>::empty(),
            r.start == start,
            r.stop == stop,
    {
        let r = FileListing { files: Vec::new(), start, stop };
        assert(r.keys() =~= Seq::<Seq<char>>::empty());
        r
    }

    /// Takes in one page of the listing and returns the continuation token
    /// to fetch the next page with, or `None` once the listing is complete.
    pub fn accept_page(&mut self, objects: &Vec<ListedObject>, next_token: Option<String>) -> (r:
        Option<String>)
        ensures
            final(self).keys() == old(self).keys() + selected_keys(
                objects@,
                old(self).start,
                old(self).stop,
            ),
            final(self).start == old(self).start,
            final(self).stop == old(self).stop,
            r == next_token,
    {
        let ghost before = self.keys();
        let mut i: usize = 0;
        while i < objects.len()
            invariant
                0 <= i <= objects@.len(),
                self.start == old(self).start,
                self.stop == old(self).stop,
                before == old(self).keys(),
                self.keys() == before + selected_keys(
                    objects@.subrange(0, i as int),
                    self.start,
                    self.stop,
                ),
            decreases objects@.len() - i,
        {
            let o = &objects[i];
            proof {
                assert(objects@.subrange(0, i as int + 1).drop_last() =~= objects@.subrange(
                    0,
                    i as int,
                ));
                assert(objects@.subrange(0, i as int + 1).last() == objects@[i as int]);
            }
            if select_object(o.key.as_str(), &o.last_modified, &self.start, &self.stop) {
                let k = o.key.clone();
                let ghost sub = objects@.subrange(0, i as int + 1);
                let ghost prev_files = self.files@;
                self.files.push(k);
                assert(k@ == o.key@);
                assert(selected_keys(sub, self.start, self.stop) == selected_keys(
                    sub.drop_last(),
                    self.start,
                    self.stop,
                ).push(o.key@));
                assert(key_views(self.files@) =~= key_views(prev_files).push(k@));
                assert(self.keys() =~= before + selected_keys(
                    objects@.subrange(0, i as int + 1),
                    self.start,
                    self.stop,
                ));
            }
            i = i + 1;
        }
        assert(objects@.subrange(0, objects@.len() as int) =~= objects@);
        next_token
    }

    /// The gathered files in the order in which they are applied.
    pub fn finish(self) -> (r: Vec<String>)
        ensures
            key_views(r@) == apply_order(self.keys()),
    {
        order_for_apply(self.files)
    }
}

/// The snapshot keys of a list, in their order.
pub open spec fn snapshot_keys(keys: Seq<Seq<char>>) -> Seq<Seq<char>>
    decreases keys.len(),
{
    if keys.len() == 0 {
        Seq::empty()
    } else if is_snapshot(keys.last()) {
        snapshot_keys(keys.drop_last()).push(keys.last())
    } else {
        snapshot_keys(keys.drop_last())
    }
}

/// The change keys of a list, in their order.
pub open spec fn change_keys(keys: Seq<Seq<char>>) -> Seq<Seq<char>>
    decreases keys.len(),
{
    if keys.len() == 0 {
        Seq::empty()
    } else if is_snapshot(keys.last()) {
        change_keys(keys.drop_last())
    } else {
        change_keys(keys.drop_last()).push(keys.last())
    }
}

/// The list turned right by `k` places: its last `k` entries move to the
/// front, keeping their order, and the others follow.
pub open spec fn rotated_right(keys: Seq<Seq<char>>, k: int) -> Seq<Seq<char>> {
    keys.subrange(keys.len() - k, keys.len() as int) + keys.subrange(0, keys.len() - k)
}

/// The order in which listed files are applied: the list turned right by
/// the number of snapshot files it holds.
pub open spec fn apply_order(keys: Seq<Seq<char>>) -> Seq<Seq<char>> {
    rotated_right(keys, snapshot_keys(keys).len() as int)
}

/// Puts the files in the order in which they are applied.
pub fn order_for_apply(files: Vec<String>) -> (r: Vec<String>)
    ensures
        key_views(r@) == apply_order(key_views(files@)),
{
    let ghost keys = key_views(files@);
    let mut count: usize = 0;
    let mut i: usize = 0;
    while i < files.len()
        invariant
            0 <= i <= files@.len(),
            keys == key_views(files@),
            count == snapshot_keys(keys.subrange(0, i as int)).len(),
            count <= i,
        decreases files@.len() - i,
    {
        proof {
            assert(keys.subrange(0, i as int + 1).drop_last() =~= keys.subrange(0, i as int));
        }
        if is_snapshot_key(files[i].as_str()) {
            count = count + 1;
        }
        i = i + 1;
    }
    assert(keys.subrange(0, keys.len() as int) =~= keys);
    let mut front = files;
    let split = front.len() - count;
    let mut back = front.split_off(split);
    back.append(&mut front);
    assert(key_views(back@) =~= apply_order(keys));
    back
}


/// No snapshot key follows a change key: the shape of a listing in which
/// change files, named by a sortable time prefix, sort before the snapshot
/// files of the same directory.
pub open spec fn snapshots_at_tail(keys: Seq<Seq<char>>) -> bool {
    forall|i: int, j: int|
        0 <= i < j < keys.len() && #[trigger] is_snapshot(keys[i]) ==> #[trigger] is_snapshot(
            keys[j],
        )
}

proof fn lemma_tail_split(keys: Seq<Seq<char>>)
    requires
        snapshots_at_tail(keys),
    ensures
        snapshot_keys(keys).len() <= keys.len(),
        snapshot_keys(keys) == keys.subrange(
            keys.len() - snapshot_keys(keys).len(),
            keys.len() as int,
        ),
        change_keys(keys) == keys.subrange(0, keys.len() - snapshot_keys(keys).len()),
        forall|i: int|
            keys.len() - snapshot_keys(keys).len() <= i < keys.len() ==> is_snapshot(
                #[trigger] keys[i],
            ),
    decreases keys.len(),
{
    if keys.len() == 0 {
        assert(keys.subrange(0, 0) =~= keys);
    } else {
        let s = keys.drop_last();
        assert(snapshots_at_tail(s)) by {
            assert forall|i: int, j: int|
                0 <= i < j < s.len() && #[trigger] is_snapshot(s[i]) implies #[trigger] is_snapshot(
                s[j],
            ) by {
                assert(s[i] == keys[i] && s[j] == keys[j]);
            }
        }
        lemma_tail_split(s);
        let c = snapshot_keys(s).len() as int;
        if is_snapshot(keys.last()) {
            assert(snapshot_keys(keys) =~= keys.subrange(keys.len() - (c + 1), keys.len() as int));
            assert(change_keys(keys) =~= keys.subrange(0, keys.len() - (c + 1)));
            assert forall|i: int|
                keys.len() - (c + 1) <= i < keys.len() implies is_snapshot(#[trigger] keys[i]) by {
                if i < keys.len() - 1 {
                    assert(keys[i] == s[i]);
                }
            }
        } else {
            if c > 0 {
                assert(is_snapshot(s[s.len() - 1]));
                assert(is_snapshot(keys[keys.len() - 2]));
                assert(is_snapshot(keys[keys.len() - 1]));
            }
            assert(c == 0);
            assert(snapshot_keys(keys) =~= keys.subrange(keys.len() as int, keys.len() as int));
            assert(change_keys(keys) =~= keys.subrange(0, keys.len() as int));
        }
    }
}

/// Ordering law: when no snapshot key follows a change key in the listing,
/// the apply order is all snapshot files, in their listing order, then all
/// change files, in their listing order.
pub proof fn lemma_snapshots_before_changes(keys: Seq<Seq<char>>)
    requires
        snapshots_at_tail(keys),
    ensures
        apply_order(keys) == snapshot_keys(keys) + change_keys(keys),
{
    lemma_tail_split(keys);
    assert(apply_order(keys) =~= snapshot_keys(keys) + change_keys(keys));
}

/// Window law: every change file that a page contributes was modified
/// strictly after `start` and, when there is a `stop`, strictly before it;
/// a change file modified exactly at either bound is left out.
pub proof fn lemma_change_files_inside_window(
    objects: Seq<ListedObject>,
    start: Timestamp,
    stop: Option<Timestamp>,
)
    ensures
        forall|j: int|
            0 <= j < selected_keys(objects, start, stop).len() && !is_snapshot(
                #[trigger] selected_keys(objects, start, stop)[j],
            ) ==> exists|i: int|
                0 <= i < objects.len() && (#[trigger] objects[i]).key@ == selected_keys(
                    objects,
                    start,
                    stop,
                )[j] && objects[i].last_modified is Some && in_window(
                    objects[i].last_modified->0,
                    start,
                    stop,
                ),
        forall|key: Seq<char>, t: Timestamp|
            !is_snapshot(key) && (t.position() == start.position() || stop == Some(t))
                ==> !#[trigger] selected(key, Some(t), start, stop),
    decreases objects.len(),
{
    if objects.len() > 0 {
        let s = objects.drop_last();
        lemma_change_files_inside_window(s, start, stop);
        let prev = selected_keys(s, start, stop);
        let cur = selected_keys(objects, start, stop);
        assert forall|j: int|
            0 <= j < cur.len() && !is_snapshot(#[trigger] cur[j]) implies exists|i: int|
                0 <= i < objects.len() && (#[trigger] objects[i]).key@ == cur[j]
                    && objects[i].last_modified is Some && in_window(
                    objects[i].last_modified->0,
                    start,
                    stop,
                ) by {
            if j < prev.len() {
                assert(cur[j] == prev[j]);
                let i = choose|i: int|
                    0 <= i < s.len() && (#[trigger] s[i]).key@ == prev[j]
                        && s[i].last_modified is Some && in_window(
                        s[i].last_modified->0,
                        start,
                        stop,
                    );
                assert(objects[i] == s[i]);
            } else {
                assert(objects[objects.len() - 1] == objects.last());
            }
        }
    }
}

} // verus!
