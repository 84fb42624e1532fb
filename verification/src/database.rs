//! The store: keys with their values and expiries, and the configuration
//! that it was started with.

use crate::expiry::NEVER;
use crate::rdb::{load_spec, records_view, Contents, Record, SnapshotError, RDB};
use crate::text::same_text;
use vstd::hash_map::StringHashMap;
use vstd::prelude::*;
use vstd::string::StringExecFns;

verus! {

/// What is stored under a key.
pub struct Entry {
    /// The value.
    pub value: String,
    /// The instant at which the entry expires, in milliseconds since the
    /// Unix epoch.
    pub expires_at: u64,
}

/// The store as plain values.
pub struct Stored {
    /// Each key's value and expiry.
    pub entries: Map<Seq<char>, (Seq<char>, u64)>,
    /// The keys, in the order in which they were first written.
    pub keys: Seq<Seq<char>>,
}

impl Stored {
    /// The store that holds nothing.
    pub open spec fn empty() -> Stored {
        Stored { entries: Map::empty(), keys: Seq::empty() }
    }

    /// Whether `keys` lists each stored key once, and nothing else.
    pub open spec fn wf(self) -> bool {
        &&& self.keys.no_duplicates()
        &&& forall|k: Seq<char>| self.keys.contains(k) <==> self.entries.contains_key(k)
    }

    /// The store after `value` is written under `key` with the expiry
    /// `expires_at`: what was stored under `key` is replaced, its expiry too.
    pub open spec fn put(self, key: Seq<char>, value: Seq<char>, expires_at: u64) -> Stored {
        Stored {
            entries: self.entries.insert(key, (value, expires_at)),
            keys: if self.entries.contains_key(key) {
                self.keys
            } else {
                self.keys.push(key)
            },
        }
    }

    /// The store after each of `records` is written, the first one first.
    pub open spec fn put_all(self, records: Seq<Record>) -> Stored
        decreases records.len(),
    {
        if records.len() == 0 {
            self
        } else {
            self.put_all(records.drop_last()).put(
                records.last().0,
                records.last().1,
                records.last().2,
            )
        }
    }

    /// What a read of `key` gives at the instant `now`: the value, where one
    /// is stored and its expiry lies after `now`.
    pub open spec fn value_at(self, key: Seq<char>, now: u64) -> Option<Seq<char>> {
        if self.entries.contains_key(key) && now < self.entries[key].1 {
            Some(self.entries[key].0)
        } else {
            None
        }
    }
}

/// What the configuration holds under `name`: the name and the value, for
/// `dir` and `dbfilename` alone.
pub open spec fn config_spec(dir: Seq<char>, dbfilename: Seq<char>, name: Seq<char>) -> Option<
    Seq<Seq<char>>,
> {
    if name == "dir"@ {
        Some(seq!["dir"@, dir])
    } else if name == "dbfilename"@ {
        Some(seq!["dbfilename"@, dbfilename])
    } else {
        None
    }
}

/// Where the snapshot lies: the directory, a slash and the file's name; no
/// file's name, no snapshot.
pub open spec fn path_spec(dir: Seq<char>, dbfilename: Seq<char>) -> Option<Seq<char>> {
    if dbfilename.len() == 0 {
        None
    } else {
        Some(dir + "/"@ + dbfilename)
    }
}

/// The store, and the directory and file's name of its snapshot.
pub struct Database {
    entries: StringHashMap<Entry>,
    order: Vec<String>,
    dir: String,
    dbfilename: String,
}

impl View for Database {
    type V = Stored;

    closed spec fn view(&self) -> Stored {
        Stored {
            entries: self.entries@.map_values(|e: Entry| (e.value@, e.expires_at)),
            keys: self.order@.map_values(|k: String| k@),
        }
    }
}

impl Database {
    /// The directory of the snapshot.
    pub closed spec fn dir_view(&self) -> Seq<char> {
        self.dir@
    }

    /// The name of the snapshot's file.
    pub closed spec fn dbfilename_view(&self) -> Seq<char> {
        self.dbfilename@
    }

    /// An empty store with its configuration.
    pub fn new(dir: String, dbfilename: String) -> (r: Database)
        ensures
            r@ == Stored::empty(),
            r@.wf(),
            r.dir_view() == dir@,
            r.dbfilename_view() == dbfilename@,
    {
        let r = Database { entries: StringHashMap::new(), order: Vec::new(), dir, dbfilename };
        assert(r@.entries =~= Map::empty());
        assert(r@.keys =~= Seq::empty());
        r
    }

    /// Reads `key` at the instant `now`, in milliseconds since the Unix
    /// epoch. An entry whose expiry has come reads as absent, and stays
    /// stored.
    pub fn get(&self, key: &str, now: u64) -> (r: Option<String>)
        ensures
            match r {
                Some(value) => self@.value_at(key@, now) == Some(value@),
                None => self@.value_at(key@, now) is None,
            },
    {
        match self.entries.get(key) {
            Some(entry) => {
                if now < entry.expires_at {
                    Some(entry.value.clone())
                } else {
                    None
                }
            },
            None => None,
        }
    }

    /// Writes `value` under `key`, to expire at `expires_at`.
    pub fn set(&mut self, key: String, value: String, expires_at: u64)
        ensures
            final(self)@ == old(self)@.put(key@, value@, expires_at),
            old(self)@.wf() ==> final(self)@.wf(),
            final(self).dir_view() == old(self).dir_view(),
            final(self).dbfilename_view() == old(self).dbfilename_view(),
    {
        proof {
            if self@.wf() {
                lemma_put_keeps_keys(self@, key@, value@, expires_at);
            }
        }
        if !self.entries.contains_key(key.as_str()) {
            self.order.push(key.clone());
        }
        self.entries.insert(key, Entry { value, expires_at });
        assert(final(self)@.entries =~= old(self)@.put(key@, value@, expires_at).entries);
        assert(final(self)@.keys =~= old(self)@.put(key@, value@, expires_at).keys);
    }

    /// The configuration under `key`.
    pub fn config_get(&self, key: &str) -> (r: Option<Vec<String>>)
        ensures
            match r {
                Some(pair) => config_spec(self.dir_view(), self.dbfilename_view(), key@) == Some(
                    pair@.map_values(|t: String| t@),
                ),
                None => config_spec(self.dir_view(), self.dbfilename_view(), key@) is None,
            },
    {
        if same_text(key, "dir") {
            let mut pair: Vec<String> = Vec::new();
            pair.push("dir".to_owned());
            pair.push(self.dir.clone());
            assert(pair@.map_values(|t: String| t@) =~= seq!["dir"@, self.dir@]);
            Some(pair)
        } else if same_text(key, "dbfilename") {
            let mut pair: Vec<String> = Vec::new();
            pair.push("dbfilename".to_owned());
            pair.push(self.dbfilename.clone());
            assert(pair@.map_values(|t: String| t@) =~= seq!["dbfilename"@, self.dbfilename@]);
            Some(pair)
        } else {
            None
        }
    }

    /// Every stored key, expired or not, in the order in which the keys were
    /// first written.
    pub fn get_key_list(&self) -> (r: Vec<String>)
        ensures
            r@.map_values(|k: String| k@) == self@.keys,
    {
        let mut r: Vec<String> = Vec::new();
        let mut i: usize = 0;
        while i < self.order.len()
            invariant
                i <= self.order.len(),
                r@.len() == i,
                forall|j: int| 0 <= j < i ==> r@[j]@ == self.order@[j]@,
            decreases self.order.len() - i,
        {
            r.push(self.order[i].clone());
            i += 1;
        }
        assert(r@.map_values(|k: String| k@) =~= self@.keys);
        r
    }

    /// Where the snapshot lies, if the store has one.
    pub fn snapshot_path(&self) -> (r: Option<String>)
        ensures
            match r {
                Some(path) => path_spec(self.dir_view(), self.dbfilename_view()) == Some(path@),
                None => path_spec(self.dir_view(), self.dbfilename_view()) is None,
            },
    {
        if self.dbfilename.as_str().is_empty() {
            None
        } else {
            let mut path = self.dir.clone();
            path.append("/");
            path.append(self.dbfilename.as_str());
            Some(path)
        }
    }

    /// Writes each of `records`, the first one first.
    pub fn restore(&mut self, records: &Vec<(String, String, u64)>)
        ensures
            final(self)@ == old(self)@.put_all(records_view(records@)),
            old(self)@.wf() ==> final(self)@.wf(),
            final(self).dir_view() == old(self).dir_view(),
            final(self).dbfilename_view() == old(self).dbfilename_view(),
    {
        let mut i: usize = 0;
        while i < records.len()
            invariant
                i <= records.len(),
                self@ == old(self)@.put_all(records_view(records@).take(i as int)),
                old(self)@.wf() ==> self@.wf(),
                self.dir_view() == old(self).dir_view(),
                self.dbfilename_view() == old(self).dbfilename_view(),
            decreases records.len() - i,
        {
            let key = records[i].0.clone();
            let value = records[i].1.clone();
            let expires_at = records[i].2;
            assert(records_view(records@).take(i + 1).drop_last() =~= records_view(records@).take(
                i as int,
            ));
            assert(records_view(records@).take(i + 1).last() == (key@, value@, expires_at));
            self.set(key, value, expires_at);
            i += 1;
        }
        assert(records_view(records@).take(records.len() as int) =~= records_view(records@));
    }

    /// Loads the snapshot `buffer` into the store. A store that is
    /// configured without a snapshot file loads nothing. On failure the
    /// store is left as it was.
    pub fn load(&mut self, buffer: Vec<u8>) -> (r: Result<(), SnapshotError>)
        ensures
            final(self).dir_view() == old(self).dir_view(),
            final(self).dbfilename_view() == old(self).dbfilename_view(),
            old(self)@.wf() ==> final(self)@.wf(),
            old(self).dbfilename_view().len() == 0 ==> r is Ok && final(self)@ == old(self)@,
            old(self).dbfilename_view().len() > 0 ==> match r {
                Ok(()) => load_spec(buffer@) matches Ok(contents) && final(self)@ == old(
                    self,
                )@.put_all(contents.records),
                Err(e) => load_spec(buffer@) == Err::<Contents, SnapshotError>(e) && final(self)@
                    == old(self)@,
            },
    {
        if self.dbfilename.as_str().is_empty() {
            return Ok(());
        }
        match RDB::new(buffer) {
            Ok(rdb) => {
                self.restore(&rdb.data);
                Ok(())
            },
            Err(e) => Err(e),
        }
    }
}

/// Writing under a key keeps the list of keys right.
pub proof fn lemma_put_keeps_keys(s: Stored, key: Seq<char>, value: Seq<char>, expires_at: u64)
    requires
        s.wf(),
    ensures
        s.put(key, value, expires_at).wf(),
{
    let t = s.put(key, value, expires_at);
    if !s.entries.contains_key(key) {
        assert(!s.keys.contains(key));
        assert forall|k: Seq<char>| t.keys.contains(k) <==> t.entries.contains_key(k) by {
            if t.keys.contains(k) {
                let i = choose|i: int| 0 <= i < t.keys.len() && t.keys[i] == k;
                if i < s.keys.len() {
                    assert(s.keys[i] == k);
                    assert(s.keys.contains(k));
                }
            }
            if t.entries.contains_key(k) && k != key {
                assert(s.keys.contains(k));
                let i = choose|i: int| 0 <= i < s.keys.len() && s.keys[i] == k;
                assert(t.keys[i] == k);
            }
            if k == key {
                assert(t.keys[s.keys.len() as int] == k);
            }
        }
    }
}

/// The empty store lists no key.
pub proof fn lemma_empty_is_wf()
    ensures
        Stored::empty().wf(),
{
}

/// Writing records keeps the list of keys right.
pub proof fn lemma_put_all_keeps_keys(s: Stored, records: Seq<Record>)
    requires
        s.wf(),
    ensures
        s.put_all(records).wf(),
    decreases records.len(),
{
    if records.len() > 0 {
        lemma_put_all_keeps_keys(s, records.drop_last());
        lemma_put_keeps_keys(
            s.put_all(records.drop_last()),
            records.last().0,
            records.last().1,
            records.last().2,
        );
    }
}

/// After records are written, the stored keys are those stored before and
/// those of the records.
pub proof fn lemma_put_all_keys(s: Stored, records: Seq<Record>, key: Seq<char>)
    ensures
        s.put_all(records).entries.contains_key(key) <==> s.entries.contains_key(key) || exists|
            i: int,
        |
            0 <= i < records.len() && #[trigger] records[i].0 == key,
    decreases records.len(),
{
    if records.len() > 0 {
        let front = records.drop_last();
        lemma_put_all_keys(s, front, key);
        if exists|i: int| 0 <= i < front.len() && #[trigger] front[i].0 == key {
            let i = choose|i: int| 0 <= i < front.len() && #[trigger] front[i].0 == key;
            assert(records[i].0 == key);
        }
        if exists|i: int| 0 <= i < records.len() && #[trigger] records[i].0 == key {
            let i = choose|i: int| 0 <= i < records.len() && #[trigger] records[i].0 == key;
            if i < front.len() {
                assert(front[i].0 == key);
            }
        }
    }
}

/// A key that was never written reads as absent: whatever was written to an
/// empty store, and at whatever instant the key is read.
pub proof fn law_unwritten_key_is_absent(records: Seq<Record>, key: Seq<char>, now: u64)
    requires
        forall|i: int| 0 <= i < records.len() ==> #[trigger] records[i].0 != key,
    ensures
        Stored::empty().put_all(records).value_at(key, now) is None,
{
    lemma_put_all_keys(Stored::empty(), records, key);
}

/// A value that is written to live until `expires_at` is read back at every
/// instant before `expires_at`.
pub proof fn law_read_after_write(
    s: Stored,
    key: Seq<char>,
    value: Seq<char>,
    expires_at: u64,
    now: u64,
)
    requires
        now < expires_at,
    ensures
        s.put(key, value, expires_at).value_at(key, now) == Some(value),
{
}

/// A value that is written never to expire is read back at every instant
/// before the last one of the clock.
pub proof fn law_read_after_write_without_expiry(
    s: Stored,
    key: Seq<char>,
    value: Seq<char>,
    now: u64,
)
    requires
        now < NEVER,
    ensures
        s.put(key, value, NEVER).value_at(key, now) == Some(value),
{
}

/// Writing under one key leaves what is read under any other key as it was.
pub proof fn law_write_leaves_other_keys(
    s: Stored,
    key: Seq<char>,
    value: Seq<char>,
    expires_at: u64,
    other: Seq<char>,
    now: u64,
)
    requires
        other != key,
    ensures
        s.put(key, value, expires_at).value_at(other, now) == s.value_at(other, now),
{
}

/// Expiry is lazy: from the instant of its expiry on an entry reads as
/// absent, and it stays stored and listed among the keys.
pub proof fn law_expired_entry_is_absent_and_listed(
    s: Stored,
    key: Seq<char>,
    value: Seq<char>,
    expires_at: u64,
    now: u64,
)
    requires
        s.wf(),
        expires_at <= now,
    ensures
        s.put(key, value, expires_at).value_at(key, now) is None,
        s.put(key, value, expires_at).entries.contains_key(key),
        s.put(key, value, expires_at).keys.contains(key),
{
    lemma_put_keeps_keys(s, key, value, expires_at);
}

/// After any sequence of writes to an empty store, the list of keys holds
/// each key that was written, once, and no other key; the expiries play no
/// part in it.
pub proof fn law_keys_are_the_written_keys(records: Seq<Record>)
    ensures
        Stored::empty().put_all(records).keys.no_duplicates(),
        forall|key: Seq<char>|
            Stored::empty().put_all(records).keys.contains(key) <==> exists|i: int|
                0 <= i < records.len() && #[trigger] records[i].0 == key,
{
    let s = Stored::empty().put_all(records);
    lemma_put_all_keeps_keys(Stored::empty(), records);
    assert forall|key: Seq<char>|
        s.keys.contains(key) <==> exists|i: int|
            0 <= i < records.len() && #[trigger] records[i].0 == key by {
        lemma_put_all_keys(Stored::empty(), records, key);
    }
}

} // verus!
