use crate::text::str_eq;
use vstd::prelude::*;

verus! {

/// One cached entry: key, blob, and an absolute expiry time (`None` lives
/// forever).
type CacheEntry = (String, String, Option<u64>);

/// The key-value view of a sequence of entries; a later entry for the same
/// key wins.
pub open spec fn entries_map(s: Seq<CacheEntry>) -> Map<Seq<char>, (Seq<char>, Option<u64>)>
    decreases s.len(),
{
    if s.len() == 0 {
        Map::empty()
    } else {
        entries_map(s.drop_last()).insert(s.last().0@, (s.last().1@, s.last().2))
    }
}

/// The value a key yields at a given time: present entries whose expiry has
/// passed read as absent.
pub open spec fn live_value(
    m: Map<Seq<char>, (Seq<char>, Option<u64>)>,
    k: Seq<char>,
    now: u64,
) -> Option<Seq<char>> {
    if m.contains_key(k) {
        match m[k].1 {
            Some(e) => if now >= e {
                None
            } else {
                Some(m[k].0)
            },
            None => Some(m[k].0),
        }
    } else {
        None
    }
}

/// The reference semantics of the shared key-value cache: string keys to
/// blobs with per-key expiry, plus one set of banned account ids. The laws of
/// the library are stated against this model; production I/O observes the
/// same contracts.
pub struct MemoryCache {
    entries: Vec<CacheEntry>,
    banned: Vec<u64>,
}

impl MemoryCache {
    /// Keys and banned ids are stored once each.
    pub closed spec fn wf(&self) -> bool {
        &&& forall|i: int, j: int|
            0 <= i < j < self.entries@.len() ==> self.entries@[i].0@ != self.entries@[j].0@
        &&& forall|i: int, j: int|
            0 <= i < j < self.banned@.len() ==> self.banned@[i] != self.banned@[j]
    }

    /// The key-value contents.
    pub closed spec fn contents(&self) -> Map<Seq<char>, (Seq<char>, Option<u64>)> {
        entries_map(self.entries@)
    }

    /// The set of banned account ids.
    pub closed spec fn banned_ids(&self) -> Set<u64> {
        self.banned@.to_set()
    }

    pub fn new() -> (r: Self)
        ensures
            r.wf(),
            r.contents() == Map::<Seq<char>, (Seq<char>, Option<u64>)>::empty(),
            r.banned_ids() == Set::<u64>::empty(),
    {
        let r = MemoryCache { entries: Vec::new(), banned: Vec::new() };
        proof {
            assert(r.banned@.to_set() =~= Set::<u64>::empty());
        }
        r
    }

    /// Reads one key, honouring expiry.
    pub fn get(&self, key: &str, now: u64) -> (r: Option<String>)
        requires
            self.wf(),
        ensures
            match r {
                Some(v) => live_value(self.contents(), key@, now) == Some(v@),
                None => live_value(self.contents(), key@, now) is None,
            },
    {
        let n = self.entries.len();
        let mut i: usize = 0;
        while i < n
            invariant
                0 <= i <= n,
                n == self.entries@.len(),
                self.wf(),
                forall|m: int| 0 <= m < i ==> self.entries@[m].0@ != key@,
            decreases n - i,
        {
            if str_eq(self.entries[i].0.as_str(), key) {
                proof {
                    lemma_entries_map_index(self.entries@, i as int);
                }
                let live = match self.entries[i].2 {
                    Some(e) => now < e,
                    None => true,
                };
                if live {
                    return Some(self.entries[i].1.clone());
                } else {
                    return None;
                }
            }
            i = i + 1;
        }
        proof {
            lemma_entries_map_absent(self.entries@, key@);
        }
        None
    }

    /// Removes one key; removing an absent key changes nothing.
    pub fn del(&mut self, key: &str)
        requires
            old(self).wf(),
        ensures
            final(self).wf(),
            final(self).contents() == old(self).contents().remove(key@),
            final(self).banned_ids() == old(self).banned_ids(),
            !final(self).contents().contains_key(key@),
    {
        let n = self.entries.len();
        let mut i: usize = 0;
        while i < n
            invariant
                0 <= i <= n,
                n == self.entries@.len(),
                self.wf(),
                self.entries@ == old(self).entries@,
                self.banned@ == old(self).banned@,
                forall|m: int| 0 <= m < i ==> self.entries@[m].0@ != key@,
            decreases n - i,
        {
            if str_eq(self.entries[i].0.as_str(), key) {
                proof {
                    lemma_entries_map_remove(self.entries@, i as int);
                    assert forall|a: int, b: int|
                        0 <= a < b < self.entries@.remove(i as int).len() implies self.entries@.remove(
                        i as int,
                    )[a].0@ != self.entries@.remove(i as int)[b].0@ by {
                        assert(self.entries@.remove(i as int)[a] == if a < i {
                            self.entries@[a]
                        } else {
                            self.entries@[a + 1]
                        });
                        assert(self.entries@.remove(i as int)[b] == if b < i {
                            self.entries@[b]
                        } else {
                            self.entries@[b + 1]
                        });
                    }
                }
                self.entries.remove(i);
                return ;
            }
            i = i + 1;
        }
        proof {
            lemma_entries_map_absent(self.entries@, key@);
            assert(self.contents().remove(key@) =~= self.contents());
        }
    }

    /// Writes one key with a time-to-live; a zero time-to-live means the
    /// entry never expires.
    pub fn set(&mut self, key: &str, value: &str, ttl: u64, now: u64)
        requires
            old(self).wf(),
        ensures
            final(self).wf(),
            final(self).contents() == old(self).contents().insert(
                key@,
                (
                    value@,
                    if ttl == 0 {
                        None
                    } else {
                        Some(sat_add(now, ttl))
                    },
                ),
            ),
            final(self).banned_ids() == old(self).banned_ids(),
    {
        self.del(key);
        let expires = if ttl == 0 {
            None
        } else {
            Some(checked_add(now, ttl))
        };
        let ghost pre = self.entries@;
        self.entries.push((String::from_str(key), String::from_str(value), expires));
        proof {
            assert(self.entries@.drop_last() =~= pre);
            assert forall|m: int| 0 <= m < pre.len() implies pre[m].0@ != key@ by {
                lemma_entries_map_index(pre, m);
            }
            assert forall|a: int, b: int| 0 <= a < b < self.entries@.len() implies self.entries@[a].0@
                != self.entries@[b].0@ by {
                if b == self.entries@.len() - 1 {
                    assert(self.entries@[a] == pre[a]);
                }
            }
            assert(self.contents() =~= old(self).contents().insert(
                key@,
                (
                    value@,
                    if ttl == 0 {
                        None
                    } else {
                        Some(sat_add(now, ttl))
                    },
                ),
            ));
        }
    }

    /// Whether an account id is on the ban list.
    pub fn is_banned(&self, id: u64) -> (r: bool)
        ensures
            r == self.banned_ids().contains(id),
    {
        let n = self.banned.len();
        let mut i: usize = 0;
        while i < n
            invariant
                0 <= i <= n,
                n == self.banned@.len(),
                forall|m: int| 0 <= m < i ==> self.banned@[m] != id,
            decreases n - i,
        {
            if self.banned[i] == id {
                assert(self.banned@.contains(id));
                return true;
            }
            i = i + 1;
        }
        assert(!self.banned@.contains(id));
        false
    }

    /// Puts an account id on the ban list.
    pub fn ban(&mut self, id: u64)
        requires
            old(self).wf(),
        ensures
            final(self).wf(),
            final(self).banned_ids() == old(self).banned_ids().insert(id),
            final(self).contents() == old(self).contents(),
    {
        if !self.is_banned(id) {
            let ghost pre = self.banned@;
            self.banned.push(id);
            proof {
                assert(!pre.to_set().contains(id));
                assert(!pre.contains(id));
                assert forall|a: int, b: int| 0 <= a < b < self.banned@.len() implies self.banned@[a]
                    != self.banned@[b] by {
                    if b == self.banned@.len() - 1 {
                        assert(self.banned@[a] == pre[a]);
                        assert(pre.contains(pre[a]));
                    }
                }
                assert forall|x: u64|
                    self.banned@.to_set().contains(x) <==> (pre.to_set().contains(x) || x
                        == id) by {
                    if self.banned@.contains(x) {
                        let k = choose|k: int| 0 <= k < self.banned@.len() && self.banned@[k] == x;
                        if k < pre.len() {
                            assert(pre[k] == x);
                            assert(pre.contains(x));
                        }
                    }
                    if pre.contains(x) {
                        let k = choose|k: int| 0 <= k < pre.len() && pre[k] == x;
                        assert(self.banned@[k] == x);
                        assert(self.banned@.contains(x));
                    }
                    if x == id {
                        assert(self.banned@[self.banned@.len() - 1] == x);
                        assert(self.banned@.contains(x));
                    }
                }
                assert(self.banned_ids() =~= old(self).banned_ids().insert(id));
            }
        } else {
            proof {
                assert(self.banned_ids() =~= old(self).banned_ids().insert(id));
            }
        }
    }

    /// How many account ids are banned.
    pub fn banned_count(&self) -> (r: usize)
        requires
            self.wf(),
        ensures
            r == self.banned_ids().len(),
    {
        proof {
            self.banned@.unique_seq_to_set();
        }
        self.banned.len()
    }
}

/// Addition clipped to the largest representable time.
pub open spec fn sat_add(a: u64, b: u64) -> u64 {
    if a + b > u64::MAX {
        u64::MAX
    } else {
        (a + b) as u64
    }
}

fn checked_add(a: u64, b: u64) -> (r: u64)
    ensures
        r == sat_add(a, b),
{
    if b > u64::MAX - a {
        u64::MAX
    } else {
        a + b
    }
}

/// A stored entry is what the map holds for its key.
proof fn lemma_entries_map_index(s: Seq<CacheEntry>, i: int)
    requires
        0 <= i < s.len(),
        forall|a: int, b: int| 0 <= a < b < s.len() ==> s[a].0@ != s[b].0@,
    ensures
        entries_map(s).contains_key(s[i].0@),
        entries_map(s)[s[i].0@] == (s[i].1@, s[i].2),
    decreases s.len(),
{
    if i < s.len() - 1 {
        assert(forall|a: int, b: int|
            0 <= a < b < s.drop_last().len() ==> s.drop_last()[a].0@ != s.drop_last()[b].0@);
        lemma_entries_map_index(s.drop_last(), i);
        assert(s[i].0@ != s.last().0@);
    }
}

/// A key stored nowhere is absent from the map.
proof fn lemma_entries_map_absent(s: Seq<CacheEntry>, k: Seq<char>)
    requires
        forall|m: int| 0 <= m < s.len() ==> s[m].0@ != k,
    ensures
        !entries_map(s).contains_key(k),
    decreases s.len(),
{
    if s.len() > 0 {
        lemma_entries_map_absent(s.drop_last(), k);
    }
}

/// Removing the entry of a key removes exactly that key from the map.
proof fn lemma_entries_map_remove(s: Seq<CacheEntry>, i: int)
    requires
        0 <= i < s.len(),
        forall|a: int, b: int| 0 <= a < b < s.len() ==> s[a].0@ != s[b].0@,
        forall|m: int| 0 <= m < i ==> s[m].0@ != s[i].0@,
    ensures
        entries_map(s.remove(i)) == entries_map(s).remove(s[i].0@),
    decreases s.len(),
{
    let k = s[i].0@;
    if i == s.len() - 1 {
        assert(s.remove(i) =~= s.drop_last());
        assert(forall|m: int| 0 <= m < s.drop_last().len() ==> s.drop_last()[m].0@ != k);
        lemma_entries_map_absent(s.drop_last(), k);
        assert(entries_map(s.drop_last()) =~= entries_map(s).remove(k));
    } else {
        assert(forall|a: int, b: int|
            0 <= a < b < s.drop_last().len() ==> s.drop_last()[a].0@ != s.drop_last()[b].0@);
        lemma_entries_map_remove(s.drop_last(), i);
        assert(s.remove(i).drop_last() =~= s.drop_last().remove(i));
        assert(s.remove(i).last() == s.last());
        assert(k != s.last().0@);
        assert(entries_map(s.drop_last()).remove(k).insert(s.last().0@, (s.last().1@, s.last().2))
            =~= entries_map(s.drop_last()).insert(
            s.last().0@,
            (s.last().1@, s.last().2),
        ).remove(k));
    }
}

} // verus!
