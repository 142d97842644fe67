use vstd::prelude::*;
use crate::table::{assoc_map, distinct_keys, lemma_assoc_position, lemma_assoc_push,
    lemma_assoc_update};

verus! {

/// A localized string table for one locale: an asset table shipped with the
/// project and a runtime table layered on top of it (the runtime table wins
/// on lookup).
pub struct Localization {
    /// The IETF locale code this table translates into.
    pub local_code: String,
    string_table: Vec<(String, String)>,
    runtime_string_table: Vec<(String, String)>,
}

impl Localization {
    /// The asset (shipped) table.
    pub closed spec fn asset_map(&self) -> Map<Seq<char>, String> {
        assoc_map(self.string_table@)
    }

    /// The runtime (layered) table.
    pub closed spec fn runtime_map(&self) -> Map<Seq<char>, String> {
        assoc_map(self.runtime_string_table@)
    }

    /// The locale code, as a sequence of characters.
    pub closed spec fn locale(&self) -> Seq<char> {
        self.local_code@
    }

    /// The asset table's entries, in entry order.
    pub closed spec fn asset_entries(&self) -> Seq<(String, String)> {
        self.string_table@
    }

    /// The runtime table's entries, in entry order.
    pub closed spec fn runtime_entries(&self) -> Seq<(String, String)> {
        self.runtime_string_table@
    }

    /// Well-formedness: each table keeps its keys unique.
    pub closed spec fn inv(&self) -> bool {
        distinct_keys(self.string_table@) && distinct_keys(self.runtime_string_table@)
    }

    /// What a lookup yields: the runtime table first, then the asset table.
    pub open spec fn text_for(&self, key: Seq<char>) -> Option<String> {
        if self.runtime_map().contains_key(key) {
            Some(self.runtime_map()[key])
        } else if self.asset_map().contains_key(key) {
            Some(self.asset_map()[key])
        } else {
            None
        }
    }

    /// The locale code this table translates into.
    pub fn locale_code(&self) -> (r: &String)
        ensures
            r@ == self.locale(),
    {
        &self.local_code
    }

    /// An empty table for the given locale.
    pub fn new(local_code: String) -> (r: Localization)
        ensures
            r.inv(),
            r.locale() == local_code@,
            r.asset_map() == Map::<Seq<char>, String>::empty(),
            r.runtime_map() == Map::<Seq<char>, String>::empty(),
    {
        Localization { local_code, string_table: Vec::new(), runtime_string_table: Vec::new() }
    }

    fn upsert(entries: &mut Vec<(String, String)>, key: &String, value: String)
        requires
            distinct_keys(old(entries)@),
        ensures
            distinct_keys(final(entries)@),
            assoc_map(final(entries)@) == assoc_map(old(entries)@).insert(key@, value),
    {
        let ghost entries0 = entries@;
        let n = entries.len();
        let mut i: usize = 0;
        while i < n
            invariant
                i <= n,
                n == entries@.len(),
                entries@ == entries0,
                entries0 == old(entries)@,
                distinct_keys(entries0),
                forall|j: int| 0 <= j < i ==> entries0[j].0@ != key@,
            decreases n - i,
        {
            if entries[i].0.eq(key) {
                entries.set(i, (key.clone(), value));
                proof {
                    lemma_assoc_update(entries0, i as int, (*key, value));
                }
                return ;
            }
            i = i + 1;
        }
        entries.push((key.clone(), value));
        proof {
            lemma_assoc_push(entries0, (*key, value));
        }
    }

    fn find(entries: &Vec<(String, String)>, key: &String) -> (r: Option<String>)
        requires
            distinct_keys(entries@),
        ensures
            match r {
                Some(v) => assoc_map(entries@).contains_key(key@) && v == assoc_map(entries@)[key@],
                None => !assoc_map(entries@).contains_key(key@),
            },
    {
        proof {
            lemma_assoc_position(entries@, key@);
        }
        let n = entries.len();
        let mut i: usize = 0;
        while i < n
            invariant
                i <= n,
                n == entries@.len(),
                distinct_keys(entries@),
                forall|j: int| 0 <= j < i ==> entries@[j].0@ != key@,
            decreases n - i,
        {
            if entries[i].0.eq(key) {
                proof {
                    lemma_assoc_position(entries@, key@);
                }
                return Some(entries[i].1.clone());
            }
            i = i + 1;
        }
        None
    }

    /// Resolves a line id: the runtime table first, then the asset table;
    /// absence is a normal condition.
    pub fn get_localized_string(&self, key: &String) -> (r: Option<String>)
        requires
            self.inv(),
        ensures
            r == self.text_for(key@),
    {
        match Self::find(&self.runtime_string_table, key) {
            Some(v) => Some(v),
            None => Self::find(&self.string_table, key),
        }
    }

    /// True when either table holds the line id.
    pub fn contains_localized_string(&self, key: &String) -> (r: bool)
        requires
            self.inv(),
        ensures
            r == (self.runtime_map().contains_key(key@) || self.asset_map().contains_key(key@)),
    {
        match Self::find(&self.runtime_string_table, key) {
            Some(_) => true,
            None => Self::find(&self.string_table, key).is_some(),
        }
    }

    /// Writes an entry into the asset table, replacing any previous one.
    pub fn add_localized_string_to_asset(&mut self, key: &String, value: String)
        requires
            old(self).inv(),
        ensures
            final(self).inv(),
            final(self).asset_map() == old(self).asset_map().insert(key@, value),
            final(self).runtime_map() == old(self).runtime_map(),
            final(self).locale() == old(self).locale(),
    {
        Self::upsert(&mut self.string_table, key, value);
    }

    /// Writes an entry into the runtime table, replacing any previous one.
    pub fn add_localized_string(&mut self, key: &String, value: String)
        requires
            old(self).inv(),
        ensures
            final(self).inv(),
            final(self).runtime_map() == old(self).runtime_map().insert(key@, value),
            final(self).asset_map() == old(self).asset_map(),
            final(self).locale() == old(self).locale(),
    {
        Self::upsert(&mut self.runtime_string_table, key, value);
    }

    /// The texts of the asset table, in entry order.
    pub fn get_string_table_entries(&self) -> (r: Vec<String>)
        ensures
            r@.len() == self.asset_entries().len(),
            forall|i: int| 0 <= i < r@.len() ==> r@[i]@ == (#[trigger] self.asset_entries()[i]).1@,
    {
        let n = self.string_table.len();
        let mut out: Vec<String> = Vec::new();
        let mut i: usize = 0;
        while i < n
            invariant
                i <= n,
                n == self.string_table@.len(),
                out@.len() == i,
                forall|j: int| 0 <= j < i ==> out@[j]@ == (#[trigger] self.string_table@[j]).1@,
            decreases n - i,
        {
            out.push(self.string_table[i].1.clone());
            i = i + 1;
        }
        out
    }

    /// Every line id either table holds: the runtime table's keys first, then
    /// the asset table's.
    pub fn get_line_ids(&self) -> (r: Vec<String>)
        ensures
            r@.len() == self.runtime_entries().len() + self.asset_entries().len(),
            forall|i: int|
                0 <= i < self.runtime_entries().len() ==> r@[i]@ == (
                #[trigger] self.runtime_entries()[i]).0@,
            forall|i: int|
                0 <= i < self.asset_entries().len() ==> r@[self.runtime_entries().len() + i]@ == (
                #[trigger] self.asset_entries()[i]).0@,
    {
        let mut out: Vec<String> = Vec::new();
        let rn = self.runtime_string_table.len();
        let mut i: usize = 0;
        while i < rn
            invariant
                i <= rn,
                rn == self.runtime_string_table@.len(),
                out@.len() == i,
                forall|j: int|
                    0 <= j < i ==> out@[j]@ == (#[trigger] self.runtime_string_table@[j]).0@,
            decreases rn - i,
        {
            out.push(self.runtime_string_table[i].0.clone());
            i = i + 1;
        }
        let an = self.string_table.len();
        let mut k: usize = 0;
        while k < an
            invariant
                k <= an,
                an == self.string_table@.len(),
                rn == self.runtime_string_table@.len(),
                out@.len() == rn + k,
                forall|j: int|
                    0 <= j < rn ==> out@[j]@ == (#[trigger] self.runtime_string_table@[j]).0@,
                forall|j: int|
                    0 <= j < k ==> out@[rn + j]@ == (#[trigger] self.string_table@[j]).0@,
            decreases an - k,
        {
            out.push(self.string_table[k].0.clone());
            k = k + 1;
        }
        out
    }

    /// Empties both tables.
    pub fn clear(&mut self)
        ensures
            final(self).inv(),
            final(self).asset_map() == Map::<Seq<char>, String>::empty(),
            final(self).runtime_map() == Map::<Seq<char>, String>::empty(),
            final(self).locale() == old(self).locale(),
    {
        self.string_table = Vec::new();
        self.runtime_string_table = Vec::new();
    }

    /// Layers another locale's asset table into this one's runtime table,
    /// keeping entries already present. A table for a different locale is
    /// ignored.
    pub fn extend_runtime_table(&mut self, other: &Localization)
        requires
            old(self).inv(),
            other.inv(),
        ensures
            final(self).inv(),
            final(self).locale() == old(self).locale(),
            final(self).asset_map() == old(self).asset_map(),
            other.locale() != old(self).locale() ==> final(self).runtime_map() == old(
                self,
            ).runtime_map(),
            other.locale() == old(self).locale() ==> final(self).runtime_map()
                == other.asset_map().union_prefer_right(old(self).runtime_map()),
    {
        if !other.local_code.eq(&self.local_code) {
            return ;
        }
        let ghost rt0 = self.runtime_map();
        let n = other.string_table.len();
        let mut i: usize = 0;
        while i < n
            invariant
                i <= n,
                n == other.string_table@.len(),
                other.inv(),
                self.inv(),
                self.locale() == old(self).locale(),
                self.asset_map() == old(self).asset_map(),
                rt0 == old(self).runtime_map(),
                self.runtime_map() == assoc_map(
                    other.string_table@.subrange(0, i as int),
                ).union_prefer_right(rt0),
            decreases n - i,
        {
            let ghost prefix = other.string_table@.subrange(0, i as int);
            let ghost full = other.string_table@;
            proof {
                assert forall|p: int, q: int|
                    0 <= p < q < prefix.len() implies prefix[p].0@ != prefix[q].0@ by {
                    assert(prefix[p] == full[p] && prefix[q] == full[q]);
                }
                assert(distinct_keys(prefix));
                assert forall|j: int|
                    0 <= j < prefix.len() implies prefix[j].0@ != full[i as int].0@ by {
                    assert(prefix[j] == full[j]);
                }
                lemma_assoc_position(prefix, full[i as int].0@);
                lemma_assoc_push(prefix, full[i as int]);
                assert(other.string_table@.subrange(0, i + 1 as int) =~= prefix.push(
                    full[i as int],
                ));
            }
            let key = other.string_table[i].0.clone();
            if Self::find(&self.runtime_string_table, &key).is_some() {
                proof {
                    assert(self.runtime_map().contains_key(key@));
                    assert(!assoc_map(prefix).contains_key(key@));
                    assert(rt0.contains_key(key@));
                    assert(assoc_map(prefix).insert(key@, full[i as int].1).union_prefer_right(rt0)
                        =~= assoc_map(prefix).union_prefer_right(rt0));
                }
            } else {
                proof {
                    assert(!rt0.contains_key(key@));
                    assert(assoc_map(prefix).insert(key@, full[i as int].1).union_prefer_right(rt0)
                        =~= assoc_map(prefix).union_prefer_right(rt0).insert(
                        key@,
                        full[i as int].1,
                    ));
                }
                let value = other.string_table[i].1.clone();
                Self::upsert(&mut self.runtime_string_table, &key, value);
            }
            i = i + 1;
        }
        proof {
            assert(other.string_table@.subrange(0, n as int) =~= other.string_table@);
        }
    }
}

} // verus!
