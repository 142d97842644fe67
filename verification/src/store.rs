use vstd::prelude::*;
use crate::values::ScriptValue;
use crate::table::{assoc_map, distinct_keys, lemma_assoc_key_has_entry, lemma_assoc_position,
    lemma_assoc_push, lemma_assoc_update};

verus! {

/// Outcome of a single write to the variable store.
///
/// `Unknown` stands for an internal storage failure; this in-memory store
/// never produces it, but hosts that forward the result may.
#[derive(Debug, Clone, Copy, PartialEq, Eq, Structural)]
pub enum YarnVariableSetResult {
    Okay,
    InvalidVariableName,
    Unknown,
}

/// A notification the store emits synchronously on mutation, for the host to
/// observe (data binding, debugging). One `VariableChanged` per successful
/// write, one `StoreCleared` per `clear`.
#[derive(Debug)]
pub enum StoreNotification {
    VariableChanged(String, ScriptValue),
    StoreCleared,
}

/// A variable name is valid exactly when it starts with the `$` sigil.
pub open spec fn is_valid_name(name: Seq<char>) -> bool {
    name.len() > 0 && name[0] == '$'
}

/// The mapping after writing each pair in order, where a pair with an invalid
/// name leaves the mapping untouched.
pub open spec fn map_after_sets(
    m: Map<Seq<char>, ScriptValue>,
    values: Seq<(String, ScriptValue)>,
) -> Map<Seq<char>, ScriptValue>
    decreases values.len(),
{
    if values.len() == 0 {
        m
    } else {
        map_after_sets(
            if is_valid_name(values[0].0@) {
                m.insert(values[0].0@, values[0].1)
            } else {
                m
            },
            values.drop_first(),
        )
    }
}

/// The notification log after writing each pair in order: one
/// `VariableChanged` per valid name, nothing for the rest.
pub open spec fn notes_after_sets(
    notes: Seq<StoreNotification>,
    values: Seq<(String, ScriptValue)>,
) -> Seq<StoreNotification>
    decreases values.len(),
{
    if values.len() == 0 {
        notes
    } else {
        notes_after_sets(
            if is_valid_name(values[0].0@) {
                notes.push(StoreNotification::VariableChanged(values[0].0, values[0].1))
            } else {
                notes
            },
            values.drop_first(),
        )
    }
}

/// The index of the first pair whose name lacks the sigil, or the length when
/// every name is valid.
pub open spec fn first_invalid(values: Seq<(String, ScriptValue)>) -> int
    decreases values.len(),
{
    if values.len() == 0 {
        0
    } else if !is_valid_name(values[0].0@) {
        0
    } else {
        1 + first_invalid(values.drop_first())
    }
}

proof fn lemma_first_invalid_bounds(values: Seq<(String, ScriptValue)>)
    ensures
        0 <= first_invalid(values) <= values.len(),
        forall|j: int| 0 <= j < first_invalid(values) ==> is_valid_name(#[trigger] values[j].0@),
    decreases values.len(),
{
    if values.len() > 0 {
        lemma_first_invalid_bounds(values.drop_first());
        if is_valid_name(values[0].0@) {
            assert forall|j: int|
                0 <= j < first_invalid(values) implies is_valid_name(#[trigger] values[j].0@) by {
                if j > 0 {
                    assert(values.drop_first()[j - 1] == values[j]);
                }
            }
        }
    }
}

/// If a prefix is valid and the next name is not, the first invalid index is
/// exactly there.
proof fn lemma_first_invalid_at(values: Seq<(String, ScriptValue)>, k: int)
    requires
        0 <= k < values.len(),
        forall|j: int| 0 <= j < k ==> is_valid_name(#[trigger] values[j].0@),
        !is_valid_name(values[k].0@),
    ensures
        first_invalid(values) == k,
    decreases values.len(),
{
    if k > 0 {
        let rest = values.drop_first();
        assert forall|j: int| 0 <= j < k - 1 implies is_valid_name(#[trigger] rest[j].0@) by {
            assert(rest[j] == values[j + 1]);
        }
        assert(rest[k - 1] == values[k]);
        lemma_first_invalid_at(rest, k - 1);
    }
}

proof fn lemma_first_invalid_all_valid(values: Seq<(String, ScriptValue)>)
    requires
        forall|j: int| 0 <= j < values.len() ==> is_valid_name(#[trigger] values[j].0@),
    ensures
        first_invalid(values) == values.len(),
    decreases values.len(),
{
    if values.len() > 0 {
        let rest = values.drop_first();
        assert forall|j: int| 0 <= j < rest.len() implies is_valid_name(#[trigger] rest[j].0@) by {
            assert(rest[j] == values[j + 1]);
        }
        lemma_first_invalid_all_valid(rest);
    }
}

/// Unrolls one write off the back of the fold.
proof fn lemma_map_after_sets_snoc(
    m: Map<Seq<char>, ScriptValue>,
    values: Seq<(String, ScriptValue)>,
)
    requires
        values.len() > 0,
    ensures
        map_after_sets(m, values) == (if is_valid_name(values.last().0@) {
            map_after_sets(m, values.drop_last()).insert(values.last().0@, values.last().1)
        } else {
            map_after_sets(m, values.drop_last())
        }),
    decreases values.len(),
{
    let m1 = if is_valid_name(values[0].0@) {
        m.insert(values[0].0@, values[0].1)
    } else {
        m
    };
    assert(map_after_sets(m, values) == map_after_sets(m1, values.drop_first()));
    if values.len() == 1 {
        assert(values.drop_first() =~= values.drop_last());
        assert(values.drop_last().len() == 0);
        assert(map_after_sets(m, values.drop_last()) == m);
        assert(map_after_sets(m1, values.drop_first()) == m1);
        assert(values.last() == values[0]);
    } else {
        lemma_map_after_sets_snoc(m1, values.drop_first());
        assert(values.drop_first().drop_last() =~= values.drop_last().drop_first());
        assert(values.drop_first().last() == values.last());
        assert(values.drop_last()[0] == values[0]);
        assert(map_after_sets(m, values.drop_last()) == map_after_sets(
            m1,
            values.drop_last().drop_first(),
        ));
    }
}

/// Unrolls one write off the back of the notification fold.
proof fn lemma_notes_after_sets_snoc(
    notes: Seq<StoreNotification>,
    values: Seq<(String, ScriptValue)>,
)
    requires
        values.len() > 0,
    ensures
        notes_after_sets(notes, values) == (if is_valid_name(values.last().0@) {
            notes_after_sets(notes, values.drop_last()).push(
                StoreNotification::VariableChanged(values.last().0, values.last().1),
            )
        } else {
            notes_after_sets(notes, values.drop_last())
        }),
    decreases values.len(),
{
    let n1 = if is_valid_name(values[0].0@) {
        notes.push(StoreNotification::VariableChanged(values[0].0, values[0].1))
    } else {
        notes
    };
    assert(notes_after_sets(notes, values) == notes_after_sets(n1, values.drop_first()));
    if values.len() == 1 {
        assert(values.drop_first() =~= values.drop_last());
        assert(values.drop_last().len() == 0);
        assert(notes_after_sets(notes, values.drop_last()) == notes);
        assert(notes_after_sets(n1, values.drop_first()) == n1);
        assert(values.last() == values[0]);
    } else {
        lemma_notes_after_sets_snoc(n1, values.drop_first());
        assert(values.drop_first().drop_last() =~= values.drop_last().drop_first());
        assert(values.drop_first().last() == values.last());
        assert(values.drop_last()[0] == values[0]);
        assert(notes_after_sets(notes, values.drop_last()) == notes_after_sets(
            n1,
            values.drop_last().drop_first(),
        ));
    }
}

/// Typed key/value storage for dialogue variables.
///
/// Every key in the store satisfies [`is_valid_name`]: validation happens at
/// the write boundary, never on read. Every successful write appends a
/// `VariableChanged` notification, and `clear` appends `StoreCleared`; the
/// host drains them through [`YarnVariableStorage::notifications`].
pub struct YarnVariableStorage {
    entries: Vec<(String, ScriptValue)>,
    notes: Vec<StoreNotification>,
}

impl YarnVariableStorage {
    /// The mapping from variable names to values that the store holds.
    pub closed spec fn view_map(&self) -> Map<Seq<char>, ScriptValue> {
        assoc_map(self.entries@)
    }

    /// The entries as stored, in insertion order.
    pub closed spec fn entries_seq(&self) -> Seq<(String, ScriptValue)> {
        self.entries@
    }

    /// The notifications emitted so far and not yet drained.
    pub closed spec fn notes_seq(&self) -> Seq<StoreNotification> {
        self.notes@
    }

    /// Well-formedness: keys are unique and every key carries the sigil.
    pub closed spec fn inv(&self) -> bool {
        &&& distinct_keys(self.entries@)
        &&& forall|i: int| 0 <= i < self.entries@.len() ==> is_valid_name(#[trigger] self.entries@[i].0@)
    }

    pub fn new() -> (r: YarnVariableStorage)
        ensures
            r.inv(),
            r.view_map() == Map::<Seq<char>, ScriptValue>::empty(),
            r.notes_seq() == Seq::<StoreNotification>::empty(),
    {
        YarnVariableStorage { entries: Vec::new(), notes: Vec::new() }
    }

    /// True exactly when `name` carries the `$` sigil.
    pub fn validate_name(name: &String) -> (r: bool)
        ensures
            r == is_valid_name(name@),
    {
        if name.as_str().is_empty() {
            false
        } else {
            name.as_str().get_char(0) == '$'
        }
    }

    fn position_of(&self, name: &String) -> (r: Option<usize>)
        ensures
            match r {
                Some(i) => i < self.entries@.len() && self.entries@[i as int].0@ == name@,
                None => forall|i: int| 0 <= i < self.entries@.len() ==> self.entries@[i].0@ != name@,
            },
    {
        let mut i: usize = 0;
        let n = self.entries.len();
        while i < n
            invariant
                i <= n,
                n == self.entries@.len(),
                forall|j: int| 0 <= j < i ==> self.entries@[j].0@ != name@,
            decreases n - i,
        {
            if self.entries[i].0.eq(name) {
                return Some(i);
            }
            i = i + 1;
        }
        None
    }

    /// Reads a variable. Absence is a normal, recoverable condition; no
    /// validation happens on read.
    pub fn get_variable(&self, name: &String) -> (r: Option<ScriptValue>)
        requires
            self.inv(),
        ensures
            match r {
                Some(v) => self.view_map().contains_key(name@) && v == self.view_map()[name@],
                None => !self.view_map().contains_key(name@),
            },
    {
        proof {
            lemma_assoc_position(self.entries@, name@);
        }
        match self.position_of(name) {
            Some(i) => Some(self.entries[i].1.clone()),
            None => None,
        }
    }

    /// True exactly when the store holds `name`.
    pub fn contains(&self, name: &String) -> (r: bool)
        requires
            self.inv(),
        ensures
            r == self.view_map().contains_key(name@),
    {
        proof {
            lemma_assoc_position(self.entries@, name@);
        }
        self.position_of(name).is_some()
    }

    /// Writes a variable. A name without the `$` sigil is rejected: the store
    /// is left untouched, no notification fires, and the caller gets a
    /// distinguishable error. A valid write updates the mapping and emits one
    /// `VariableChanged` notification before returning.
    pub fn set_variable(&mut self, name: &String, value: ScriptValue) -> (r: YarnVariableSetResult)
        requires
            old(self).inv(),
        ensures
            final(self).inv(),
            is_valid_name(name@) ==> {
                &&& r == YarnVariableSetResult::Okay
                &&& final(self).view_map() == old(self).view_map().insert(name@, value)
                &&& final(self).notes_seq() == old(self).notes_seq().push(
                    StoreNotification::VariableChanged(*name, value),
                )
            },
            !is_valid_name(name@) ==> {
                &&& r == YarnVariableSetResult::InvalidVariableName
                &&& *final(self) == *old(self)
            },
    {
        if !Self::validate_name(name) {
            return YarnVariableSetResult::InvalidVariableName;
        }
        let ghost old_entries = self.entries@;
        let stored = value.clone();
        match self.position_of(name) {
            Some(i) => {
                self.entries.set(i, (name.clone(), stored));
                proof {
                    lemma_assoc_update(old_entries, i as int, (*name, value));
                }
            }
            None => {
                self.entries.push((name.clone(), stored));
                proof {
                    lemma_assoc_push(old_entries, (*name, value));
                }
            }
        }
        self.notes.push(StoreNotification::VariableChanged(name.clone(), value));
        YarnVariableSetResult::Okay
    }

    /// Empties the store and emits exactly one `StoreCleared` notification
    /// (and no `VariableChanged` ones).
    pub fn clear(&mut self)
        ensures
            final(self).inv(),
            final(self).view_map() == Map::<Seq<char>, ScriptValue>::empty(),
            final(self).notes_seq() == old(self).notes_seq().push(StoreNotification::StoreCleared),
    {
        self.entries = Vec::new();
        self.notes.push(StoreNotification::StoreCleared);
    }

    /// A read-only snapshot of all entries.
    pub fn get_variables(&self) -> (r: Vec<(String, ScriptValue)>)
        ensures
            r@ == self.entries_seq(),
            assoc_map(r@) == self.view_map(),
    {
        let mut out: Vec<(String, ScriptValue)> = Vec::new();
        let n = self.entries.len();
        let mut i: usize = 0;
        while i < n
            invariant
                i <= n,
                n == self.entries@.len(),
                out@ =~= self.entries@.subrange(0, i as int),
            decreases n - i,
        {
            let pair = (self.entries[i].0.clone(), self.entries[i].1.clone());
            out.push(pair);
            proof {
                assert(out@ =~= self.entries@.subrange(0, i + 1 as int));
            }
            i = i + 1;
        }
        proof {
            assert(out@ =~= self.entries@);
        }
        out
    }

    /// The notifications emitted so far and not yet drained.
    pub fn notifications(&self) -> (r: &Vec<StoreNotification>)
        ensures
            r@ == self.notes_seq(),
    {
        &self.notes
    }

    /// Applies every pair in order, each through [`Self::set_variable`], and
    /// reports the outcome of each write. A rejected name does not stop the
    /// later writes.
    pub fn set_variables(&mut self, values: &Vec<(String, ScriptValue)>) -> (r: Vec<
        YarnVariableSetResult,
    >)
        requires
            old(self).inv(),
        ensures
            final(self).inv(),
            final(self).view_map() == map_after_sets(old(self).view_map(), values@),
            final(self).notes_seq() == notes_after_sets(old(self).notes_seq(), values@),
            r@ == Seq::new(
                values@.len(),
                |i: int|
                    if is_valid_name(values@[i].0@) {
                        YarnVariableSetResult::Okay
                    } else {
                        YarnVariableSetResult::InvalidVariableName
                    },
            ),
    {
        let ghost m0 = self.view_map();
        let ghost n0 = self.notes_seq();
        let mut results: Vec<YarnVariableSetResult> = Vec::new();
        let n = values.len();
        let mut i: usize = 0;
        while i < n
            invariant
                i <= n,
                n == values@.len(),
                self.inv(),
                self.view_map() == map_after_sets(m0, values@.subrange(0, i as int)),
                self.notes_seq() == notes_after_sets(n0, values@.subrange(0, i as int)),
                results@.len() == i,
                forall|j: int|
                    0 <= j < i ==> results@[j] == (if is_valid_name(values@[j].0@) {
                        YarnVariableSetResult::Okay
                    } else {
                        YarnVariableSetResult::InvalidVariableName
                    }),
            decreases n - i,
        {
            let value = values[i].1.clone();
            let outcome = self.set_variable(&values[i].0, value);
            results.push(outcome);
            proof {
                lemma_map_after_sets_snoc(m0, values@.subrange(0, i + 1 as int));
                lemma_notes_after_sets_snoc(n0, values@.subrange(0, i + 1 as int));
                assert(values@.subrange(0, i + 1 as int).drop_last() =~= values@.subrange(
                    0,
                    i as int,
                ));
            }
            i = i + 1;
        }
        proof {
            assert(values@.subrange(0, n as int) =~= values@);
            assert(results@ =~= Seq::new(
                values@.len(),
                |i: int|
                    if is_valid_name(values@[i].0@) {
                        YarnVariableSetResult::Okay
                    } else {
                        YarnVariableSetResult::InvalidVariableName
                    },
            ));
        }
        results
    }

    /// Applies the pairs in order and stops at the first invalid name: the
    /// pairs before it are written (and notified), the rest are not. Partial
    /// application on error is deliberate and reproducible, since the order
    /// is the order of the input.
    pub fn extend(&mut self, values: &Vec<(String, ScriptValue)>) -> (r: YarnVariableSetResult)
        requires
            old(self).inv(),
        ensures
            final(self).inv(),
            r == (if first_invalid(values@) == values@.len() {
                YarnVariableSetResult::Okay
            } else {
                YarnVariableSetResult::InvalidVariableName
            }),
            final(self).view_map() == map_after_sets(
                old(self).view_map(),
                values@.subrange(0, first_invalid(values@)),
            ),
            final(self).notes_seq() == notes_after_sets(
                old(self).notes_seq(),
                values@.subrange(0, first_invalid(values@)),
            ),
    {
        let ghost m0 = self.view_map();
        let ghost n0 = self.notes_seq();
        let n = values.len();
        let mut i: usize = 0;
        while i < n
            invariant
                i <= n,
                n == values@.len(),
                self.inv(),
                m0 == old(self).view_map(),
                n0 == old(self).notes_seq(),
                forall|j: int| 0 <= j < i ==> is_valid_name(#[trigger] values@[j].0@),
                self.view_map() == map_after_sets(m0, values@.subrange(0, i as int)),
                self.notes_seq() == notes_after_sets(n0, values@.subrange(0, i as int)),
            decreases n - i,
        {
            proof {
                lemma_first_invalid_bounds(values@);
            }
            if !Self::validate_name(&values[i].0) {
                proof {
                    lemma_first_invalid_at(values@, i as int);
                }
                return YarnVariableSetResult::InvalidVariableName;
            }
            let value = values[i].1.clone();
            let outcome = self.set_variable(&values[i].0, value);
            proof {
                lemma_map_after_sets_snoc(m0, values@.subrange(0, i + 1 as int));
                lemma_notes_after_sets_snoc(n0, values@.subrange(0, i + 1 as int));
                assert(values@.subrange(0, i + 1 as int).drop_last() =~= values@.subrange(
                    0,
                    i as int,
                ));
            }
            i = i + 1;
        }
        proof {
            lemma_first_invalid_bounds(values@);
            lemma_first_invalid_all_valid(values@);
            assert(values@.subrange(0, n as int) =~= values@);
        }
        YarnVariableSetResult::Okay
    }

    /// Discards the pending notifications once the host has observed them.
    pub fn clear_notifications(&mut self)
        ensures
            final(self).notes_seq() == Seq::<StoreNotification>::empty(),
            final(self).view_map() == old(self).view_map(),
            old(self).inv() ==> final(self).inv(),
            final(self).entries_seq() == old(self).entries_seq(),
    {
        self.notes = Vec::new();
    }
}

/// Law: a well-formed store never holds a name without the `$` sigil, so a
/// read of such a name always reports absence.
pub proof fn lemma_invalid_names_absent(s: YarnVariableStorage, name: Seq<char>)
    requires
        s.inv(),
        !is_valid_name(name),
    ensures
        !s.view_map().contains_key(name),
{
    if s.view_map().contains_key(name) {
        lemma_assoc_key_has_entry(s.entries_seq(), name);
    }
}

/// Law: for every valid sigil-prefixed name, a write followed by a read
/// returns the just-written value; for every other name the write is rejected
/// and leaves the store as it was, so a subsequent read still reports
/// absence. The hypotheses are exactly what [`YarnVariableStorage::set_variable`]
/// ensures of the store before (`s0`) and after (`s1`) the write.
pub proof fn lemma_set_then_get(
    s0: YarnVariableStorage,
    s1: YarnVariableStorage,
    name: Seq<char>,
    value: ScriptValue,
)
    requires
        s0.inv(),
        is_valid_name(name) ==> s1.view_map() == s0.view_map().insert(name, value),
        !is_valid_name(name) ==> s1 == s0,
    ensures
        is_valid_name(name) ==> s1.view_map().contains_key(name) && s1.view_map()[name] == value,
        !is_valid_name(name) ==> !s1.view_map().contains_key(name),
{
    if !is_valid_name(name) {
        lemma_invalid_names_absent(s0, name);
    }
}

} // verus!
