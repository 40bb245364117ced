//! The registry of installed apps: an ordered collection of records in which
//! every record has a canonical id and no two records share one.

use crate::app_manager::{canonical_id, canonical_id_chars, App, AppView};
use crate::error::Failure;
use crate::text::{same, to_chars};
use vstd::prelude::*;

verus! {

/// The registry's invariant: every record has a canonical id, and no two
/// records have the same one.
pub open spec fn unique_ids(apps: Seq<AppView>) -> bool {
    &&& forall|i: int| #![trigger apps[i]] 0 <= i < apps.len() ==> canonical_id(apps[i].repo) is Some
    &&& forall|i: int, j: int|
        #![trigger apps[i], apps[j]]
        0 <= i < j < apps.len() ==> canonical_id(apps[i].repo) != canonical_id(apps[j].repo)
}

/// The index of the first record of `apps` whose canonical id is `id`.
pub open spec fn position(apps: Seq<AppView>, id: Seq<char>) -> Option<int>
    decreases apps.len(),
{
    if apps.len() == 0 {
        None
    } else {
        match position(apps.drop_last(), id) {
            Some(i) => Some(i),
            None => if canonical_id(apps.last().repo) == Some(id) {
                Some(apps.len() - 1)
            } else {
                None
            },
        }
    }
}

/// The record of `apps` that is keyed by `id`.
pub open spec fn lookup(apps: Seq<AppView>, id: Seq<char>) -> Option<AppView> {
    match position(apps, id) {
        Some(i) => Some(apps[i]),
        None => None,
    }
}

/// `apps` after `record` was put in: in the place of the record with the
/// same id where there is one, else at the end. A record without a canonical
/// id changes nothing.
pub open spec fn upserted(apps: Seq<AppView>, record: AppView) -> Seq<AppView> {
    match canonical_id(record.repo) {
        Some(id) => match position(apps, id) {
            Some(i) => apps.update(i, record),
            None => apps.push(record),
        },
        None => apps,
    }
}

/// `apps` without the record keyed by `id`.
pub open spec fn removed(apps: Seq<AppView>, id: Seq<char>) -> Seq<AppView> {
    match position(apps, id) {
        Some(i) => apps.remove(i),
        None => apps,
    }
}

/// `record` with its boot flag set to `flag`.
pub open spec fn flagged(record: AppView, flag: bool) -> AppView {
    AppView { enabled: Some(flag), ..record }
}

/// `apps` with the boot flag of the record keyed by `id` set to `flag`.
pub open spec fn with_enabled(apps: Seq<AppView>, id: Seq<char>, flag: bool) -> Seq<AppView> {
    match position(apps, id) {
        Some(i) => apps.update(i, flagged(apps[i], flag)),
        None => apps,
    }
}

/// What a stored collection loads as: itself where it keeps the invariant,
/// and nothing where it does not.
pub open spec fn loaded(records: Seq<AppView>) -> Seq<AppView> {
    if unique_ids(records) {
        records
    } else {
        Seq::empty()
    }
}

/// The views of `records`, in order.
pub open spec fn views(records: Seq<App>) -> Seq<AppView> {
    Seq::new(records.len(), |i: int| records[i]@)
}

/// `position` finds the least index whose record is keyed by `id`.
pub proof fn lemma_position(apps: Seq<AppView>, id: Seq<char>)
    ensures
        match position(apps, id) {
            Some(i) => 0 <= i < apps.len() && canonical_id(apps[i].repo) == Some(id) && forall|
                j: int,
            |
                #![trigger apps[j]]
                0 <= j < i ==> canonical_id(apps[j].repo) != Some(id),
            None => forall|j: int|
                #![trigger apps[j]]
                0 <= j < apps.len() ==> canonical_id(apps[j].repo) != Some(id),
        },
    decreases apps.len(),
{
    if apps.len() > 0 {
        let front = apps.drop_last();
        lemma_position(front, id);
        assert forall|j: int| 0 <= j < front.len() implies front[j] == apps[j] by {}
    }
}

/// In a registry that keeps the invariant, a record is found at its index.
pub proof fn lemma_position_of_index(apps: Seq<AppView>, k: int)
    requires
        unique_ids(apps),
        0 <= k < apps.len(),
    ensures
        position(apps, canonical_id(apps[k].repo)->0) == Some(k),
{
    let id = canonical_id(apps[k].repo)->0;
    lemma_position(apps, id);
    let found = position(apps, id);
    assert(apps[k] == apps[k]);
    if found != Some(k) {
        let i = found->0;
        assert(apps[i] == apps[i]);
    }
}

/// Putting a record in keeps the invariant.
pub proof fn lemma_upserted_unique(apps: Seq<AppView>, record: AppView)
    requires
        unique_ids(apps),
    ensures
        unique_ids(upserted(apps, record)),
{
    if let Some(id) = canonical_id(record.repo) {
        lemma_position(apps, id);
        let next = upserted(apps, record);
        match position(apps, id) {
            Some(k) => {
                assert forall|i: int| 0 <= i < next.len() implies canonical_id(
                    #[trigger] next[i].repo,
                ) == canonical_id(apps[i].repo) by {}
                assert forall|i: int, j: int| 0 <= i < j < next.len() implies canonical_id(
                    #[trigger] next[i].repo,
                ) != canonical_id(#[trigger] next[j].repo) by {
                    assert(canonical_id(apps[i].repo) != canonical_id(apps[j].repo));
                }
            },
            None => {
                assert forall|i: int, j: int| 0 <= i < j < next.len() implies canonical_id(
                    #[trigger] next[i].repo,
                ) != canonical_id(#[trigger] next[j].repo) by {
                    assert(next[i] == apps[i]);
                    if j < apps.len() {
                        assert(next[j] == apps[j]);
                    }
                }
                assert forall|i: int| 0 <= i < next.len() implies canonical_id(
                    #[trigger] next[i].repo,
                ) is Some by {
                    if i < apps.len() {
                        assert(next[i] == apps[i]);
                    }
                }
            },
        }
    }
}

/// Taking a record out keeps the invariant.
pub proof fn lemma_removed_unique(apps: Seq<AppView>, id: Seq<char>)
    requires
        unique_ids(apps),
    ensures
        unique_ids(removed(apps, id)),
{
    lemma_position(apps, id);
    if let Some(k) = position(apps, id) {
        let next = apps.remove(k);
        assert forall|i: int| 0 <= i < next.len() implies #[trigger] next[i] == apps[if i < k {
            i
        } else {
            i + 1
        }] by {}
        assert forall|i: int| 0 <= i < next.len() implies canonical_id(
            #[trigger] next[i].repo,
        ) is Some by {
            assert(next[i] == apps[if i < k { i } else { i + 1 }]);
        }
        assert forall|i: int, j: int| 0 <= i < j < next.len() implies canonical_id(
            #[trigger] next[i].repo,
        ) != canonical_id(#[trigger] next[j].repo) by {
            let a = if i < k { i } else { i + 1 };
            let b = if j < k { j } else { j + 1 };
            assert(next[i] == apps[a]);
            assert(next[j] == apps[b]);
            assert(canonical_id(apps[a].repo) != canonical_id(apps[b].repo));
        }
    }
}

/// Setting a boot flag keeps the invariant.
pub proof fn lemma_with_enabled_unique(apps: Seq<AppView>, id: Seq<char>, flag: bool)
    requires
        unique_ids(apps),
    ensures
        unique_ids(with_enabled(apps, id, flag)),
{
    lemma_position(apps, id);
    if let Some(k) = position(apps, id) {
        let next = with_enabled(apps, id, flag);
        assert forall|i: int| 0 <= i < next.len() implies canonical_id(#[trigger] next[i].repo)
            == canonical_id(apps[i].repo) by {}
        assert forall|i: int, j: int| 0 <= i < j < next.len() implies canonical_id(
            #[trigger] next[i].repo,
        ) != canonical_id(#[trigger] next[j].repo) by {
            assert(canonical_id(apps[i].repo) != canonical_id(apps[j].repo));
        }
    }
}

/// In a registry that keeps the invariant, the record at an index with the
/// key `id` is the one that `id` finds.
pub proof fn lemma_position_in_unique(apps: Seq<AppView>, id: Seq<char>, k: int)
    requires
        unique_ids(apps),
        0 <= k < apps.len(),
        canonical_id(apps[k].repo) == Some(id),
    ensures
        position(apps, id) == Some(k),
{
    lemma_position_of_index(apps, k);
}

/// After a record was put in, its id finds it, and every other id finds
/// what it found before.
pub proof fn lemma_lookup_upserted(apps: Seq<AppView>, record: AppView, id: Seq<char>)
    requires
        unique_ids(apps),
        canonical_id(record.repo) is Some,
    ensures
        lookup(upserted(apps, record), id) == if canonical_id(record.repo) == Some(id) {
            Some(record)
        } else {
            lookup(apps, id)
        },
{
    let key = canonical_id(record.repo)->0;
    let next = upserted(apps, record);
    lemma_upserted_unique(apps, record);
    lemma_position(apps, key);
    lemma_position(apps, id);
    lemma_position(next, id);
    let at = match position(apps, key) {
        Some(k) => k,
        None => apps.len() as int,
    };
    assert(next[at] == record);
    assert forall|j: int| 0 <= j < next.len() && j != at implies #[trigger] next[j] == apps[j] by {}
    if id == key {
        lemma_position_in_unique(next, id, at);
    } else {
        match position(apps, id) {
            Some(i) => {
                assert(apps[i] == apps[i]);
                assert(next[i] == apps[i]);
                lemma_position_in_unique(next, id, i);
            },
            None => {
                if let Some(i) = position(next, id) {
                    assert(next[i] == next[i]);
                    if i != at {
                        assert(apps[i] == apps[i]);
                    }
                }
            },
        }
    }
}

/// After a record was taken out, its id finds nothing, and every other id
/// finds what it found before.
pub proof fn lemma_lookup_removed(apps: Seq<AppView>, gone: Seq<char>, id: Seq<char>)
    requires
        unique_ids(apps),
    ensures
        lookup(removed(apps, gone), id) == if id == gone {
            None
        } else {
            lookup(apps, id)
        },
{
    let next = removed(apps, gone);
    lemma_removed_unique(apps, gone);
    lemma_position(apps, gone);
    lemma_position(apps, id);
    lemma_position(next, id);
    match position(apps, gone) {
        Some(k) => {
            assert forall|j: int| 0 <= j < next.len() implies #[trigger] next[j] == apps[if j < k {
                j
            } else {
                j + 1
            }] by {}
            if let Some(i) = position(next, id) {
                let from = if i < k { i } else { i + 1 };
                assert(next[i] == apps[from]);
                assert(apps[from] == apps[from]);
                assert(apps[k] == apps[k]);
                lemma_position_in_unique(apps, id, from);
            } else if id != gone {
                if let Some(i) = position(apps, id) {
                    assert(apps[i] == apps[i]);
                    let to = if i < k { i } else { i - 1 };
                    assert(next[to] == apps[i]);
                    assert(next[to] == next[to]);
                }
            }
        },
        None => {},
    }
}

/// After a boot flag was set, the id finds the record with that flag, and
/// every other id finds what it found before.
pub proof fn lemma_lookup_with_enabled(apps: Seq<AppView>, key: Seq<char>, flag: bool, id: Seq<char>)
    requires
        unique_ids(apps),
    ensures
        lookup(with_enabled(apps, key, flag), id) == if id == key && lookup(apps, key) is Some {
            Some(flagged(lookup(apps, key)->0, flag))
        } else {
            lookup(apps, id)
        },
{
    let next = with_enabled(apps, key, flag);
    lemma_with_enabled_unique(apps, key, flag);
    lemma_position(apps, key);
    lemma_position(apps, id);
    lemma_position(next, id);
    if let Some(k) = position(apps, key) {
        assert(next[k] == flagged(apps[k], flag));
        assert forall|j: int| 0 <= j < next.len() implies canonical_id(#[trigger] next[j].repo)
            == canonical_id(apps[j].repo) by {}
        match position(apps, id) {
            Some(i) => {
                assert(apps[i] == apps[i]);
                assert(next[i] == next[i]);
                lemma_position_in_unique(next, id, i);
            },
            None => {
                if let Some(i) = position(next, id) {
                    assert(next[i] == next[i]);
                    assert(apps[i] == apps[i]);
                }
            },
        }
    }
}

/// A change to the registry that concerns one id.
pub enum Change {
    /// Put the record in.
    Upsert(AppView),
    /// Take the record with this id out.
    Remove(Seq<char>),
}

impl Change {
    /// The id that the change concerns.
    pub open spec fn id(self) -> Option<Seq<char>> {
        match self {
            Change::Upsert(record) => canonical_id(record.repo),
            Change::Remove(id) => Some(id),
        }
    }

    /// What the id finds once the change was made.
    pub open spec fn result(self) -> Option<AppView> {
        match self {
            Change::Upsert(record) => Some(record),
            Change::Remove(_) => None,
        }
    }

    /// `apps` after the change.
    pub open spec fn apply(self, apps: Seq<AppView>) -> Seq<AppView> {
        match self {
            Change::Upsert(record) => upserted(apps, record),
            Change::Remove(id) => removed(apps, id),
        }
    }
}

/// A change keeps the invariant; afterwards its id finds what the change
/// put there, and every other id finds what it found before.
pub proof fn lemma_change(apps: Seq<AppView>, change: Change, id: Seq<char>)
    requires
        unique_ids(apps),
        change.id() is Some,
    ensures
        unique_ids(change.apply(apps)),
        lookup(change.apply(apps), id) == if change.id() == Some(id) {
            change.result()
        } else {
            lookup(apps, id)
        },
{
    match change {
        Change::Upsert(record) => {
            lemma_upserted_unique(apps, record);
            lemma_lookup_upserted(apps, record, id);
        },
        Change::Remove(gone) => {
            lemma_removed_unique(apps, gone);
            lemma_lookup_removed(apps, gone, id);
        },
    }
}

/// Two changes that concern different ids can be made in either order: both
/// orders keep the invariant, so that no id occurs twice, and after both, each
/// id finds the same record, that of its own change where it has one.
pub proof fn lemma_changes_of_distinct_ids_commute(
    apps: Seq<AppView>,
    first: Change,
    second: Change,
    id: Seq<char>,
)
    requires
        unique_ids(apps),
        first.id() is Some,
        second.id() is Some,
        first.id() != second.id(),
    ensures
        unique_ids(second.apply(first.apply(apps))),
        unique_ids(first.apply(second.apply(apps))),
        lookup(second.apply(first.apply(apps)), id) == lookup(first.apply(second.apply(apps)), id),
        lookup(second.apply(first.apply(apps)), id) == if first.id() == Some(id) {
            first.result()
        } else if second.id() == Some(id) {
            second.result()
        } else {
            lookup(apps, id)
        },
{
    lemma_change(apps, first, id);
    lemma_change(first.apply(apps), second, id);
    lemma_change(apps, second, id);
    lemma_change(second.apply(apps), first, id);
}

/// A collection that keeps the invariant loads as itself: what was saved is
/// what is loaded.
pub proof fn lemma_saved_loads_back(apps: Seq<AppView>)
    requires
        unique_ids(apps),
    ensures
        loaded(apps) == apps,
        unique_ids(loaded(apps)),
{
}

/// Whatever is stored, what is loaded keeps the invariant.
pub proof fn lemma_loaded_unique(records: Seq<AppView>)
    ensures
        unique_ids(loaded(records)),
        loaded(loaded(records)) == loaded(records),
{
}

/// The registry of installed apps.
pub struct Registry {
    apps: Vec<App>,
}

impl View for Registry {
    type V = Seq<AppView>;

    closed spec fn view(&self) -> Seq<AppView> {
        views(self.apps@)
    }
}

impl Clone for Registry {
    fn clone(&self) -> (r: Self)
        ensures
            r@ == self@,
    {
        Registry { apps: self.list() }
    }
}

impl Registry {
    /// Whether the registry keeps its invariant.
    pub open spec fn wf(&self) -> bool {
        unique_ids(self@)
    }

    /// The empty registry.
    pub fn new() -> (r: Registry)
        ensures
            r.wf(),
            r@ == Seq::<AppView>::empty(),
    {
        let r = Registry { apps: Vec::new() };
        assert(r@ =~= Seq::<AppView>::empty());
        r
    }

    /// The number of records.
    pub fn len(&self) -> (n: usize)
        ensures
            n == self@.len(),
    {
        self.apps.len()
    }

    /// The index of the record keyed by `id`.
    fn index_of(&self, id: &str) -> (r: Option<usize>)
        ensures
            match r {
                Some(i) => position(self@, id@) == Some(i as int) && i < self@.len(),
                None => position(self@, id@) is None,
            },
    {
        let wanted = to_chars(id);
        let mut i: usize = 0;
        while i < self.apps.len()
            invariant
                i <= self.apps.len(),
                wanted@ == id@,
                forall|j: int|
                    #![trigger self@[j]]
                    0 <= j < i ==> canonical_id(self@[j].repo) != Some(id@),
            decreases self.apps.len() - i,
        {
            assert(self@[i as int] == self.apps@[i as int]@);
            let found = match canonical_id_chars(self.apps[i].repo.as_str()) {
                Some(key) => same(&key, &wanted),
                None => false,
            };
            if found {
                proof {
                    lemma_position(self@, id@);
                    let p = position(self@, id@);
                    assert(self@[i as int] == self@[i as int]);
                    if p is Some {
                        assert(self@[p->0] == self@[p->0]);
                    }
                }
                return Some(i);
            }
            i += 1;
        }
        proof {
            lemma_position(self@, id@);
            let p = position(self@, id@);
            if p is Some {
                assert(self@[p->0] == self@[p->0]);
            }
        }
        None
    }

    /// Whether a record is keyed by `id`.
    pub fn contains(&self, id: &str) -> (b: bool)
        ensures
            b == (lookup(self@, id@) is Some),
    {
        self.index_of(id).is_some()
    }

    /// The record keyed by `id`.
    pub fn get(&self, id: &str) -> (r: Result<App, Failure>)
        ensures
            match r {
                Ok(record) => lookup(self@, id@) == Some(record@),
                Err(e) => e == Failure::NotFound && lookup(self@, id@) is None,
            },
    {
        match self.index_of(id) {
            Some(i) => {
                assert(self@[i as int] == self.apps@[i as int]@);
                Ok(self.apps[i].clone())
            },
            None => Err(Failure::NotFound),
        }
    }

    /// All the records, in order.
    pub fn list(&self) -> (records: Vec<App>)
        ensures
            views(records@) == self@,
    {
        let mut records: Vec<App> = Vec::new();
        let mut i: usize = 0;
        while i < self.apps.len()
            invariant
                i <= self.apps.len(),
                records.len() == i,
                forall|j: int| 0 <= j < i ==> records@[j]@ == self.apps@[j]@,
            decreases self.apps.len() - i,
        {
            records.push(self.apps[i].clone());
            i += 1;
        }
        assert(views(records@) =~= self@);
        records
    }

    /// Puts `record` in: in the place of the record with the same id where
    /// there is one, else at the end.
    pub fn upsert(&mut self, record: App) -> (r: Result<(), Failure>)
        requires
            old(self).wf(),
        ensures
            final(self).wf(),
            final(self)@ == upserted(old(self)@, record@),
            match r {
                Ok(_) => canonical_id(record.repo@) is Some,
                Err(e) => e == Failure::InvalidRepo && canonical_id(record.repo@) is None
                    && final(self)@ == old(self)@,
            },
    {
        proof {
            lemma_upserted_unique(self@, record@);
        }
        match record.id() {
            Some(id) => {
                match self.index_of(id.as_str()) {
                    Some(i) => {
                        self.apps.set(i, record);
                        assert(self@ =~= upserted(old(self)@, record@));
                    },
                    None => {
                        self.apps.push(record);
                        assert(self@ =~= upserted(old(self)@, record@));
                    },
                }
                Ok(())
            },
            None => Err(Failure::InvalidRepo),
        }
    }

    /// Takes out the record keyed by `id`, and returns it.
    pub fn remove(&mut self, id: &str) -> (r: Result<App, Failure>)
        requires
            old(self).wf(),
        ensures
            final(self).wf(),
            final(self)@ == removed(old(self)@, id@),
            match r {
                Ok(record) => lookup(old(self)@, id@) == Some(record@),
                Err(e) => e == Failure::NotFound && lookup(old(self)@, id@) is None && final(self)@
                    == old(self)@,
            },
    {
        proof {
            lemma_removed_unique(self@, id@);
        }
        match self.index_of(id) {
            Some(i) => {
                assert(self@[i as int] == self.apps@[i as int]@);
                let record = self.apps.remove(i);
                assert(self@ =~= removed(old(self)@, id@));
                Ok(record)
            },
            None => Err(Failure::NotFound),
        }
    }

    /// Sets the boot flag of the record keyed by `id`.
    pub fn set_enabled(&mut self, id: &str, flag: bool) -> (r: Result<(), Failure>)
        requires
            old(self).wf(),
        ensures
            final(self).wf(),
            final(self)@ == with_enabled(old(self)@, id@, flag),
            match r {
                Ok(_) => lookup(old(self)@, id@) is Some,
                Err(e) => e == Failure::NotFound && lookup(old(self)@, id@) is None && final(self)@
                    == old(self)@,
            },
    {
        proof {
            lemma_with_enabled_unique(self@, id@, flag);
        }
        match self.index_of(id) {
            Some(i) => {
                assert(self@[i as int] == self.apps@[i as int]@);
                let mut record = self.apps[i].clone();
                record.enabled = Some(flag);
                self.apps.set(i, record);
                assert(self@ =~= with_enabled(old(self)@, id@, flag));
                Ok(())
            },
            None => Err(Failure::NotFound),
        }
    }

    /// The records, in order; the registry is given up.
    pub fn into_records(self) -> (records: Vec<App>)
        ensures
            views(records@) == self@,
    {
        self.apps
    }

    /// The registry that holds `records`: all of them where they keep the
    /// invariant, none where they do not.
    pub fn load(records: Vec<App>) -> (r: Registry)
        ensures
            r.wf(),
            r@ == loaded(views(records@)),
    {
        if keeps_invariant(&records) {
            Registry { apps: records }
        } else {
            Registry::new()
        }
    }
}

/// Whether `records` keep the registry's invariant.
pub fn keeps_invariant(records: &Vec<App>) -> (b: bool)
    ensures
        b == unique_ids(views(records@)),
{
    let ghost apps = views(records@);
    let mut ids: Vec<Vec<char>> = Vec::new();
    let mut i: usize = 0;
    while i < records.len()
        invariant
            i <= records.len(),
            ids.len() == i,
            apps == views(records@),
            forall|j: int|
                #![trigger apps[j]]
                0 <= j < i ==> canonical_id(apps[j].repo) == Some(ids@[j]@),
            forall|a: int, b: int|
                #![trigger apps[a], apps[b]]
                0 <= a < b < i ==> canonical_id(apps[a].repo) != canonical_id(apps[b].repo),
        decreases records.len() - i,
    {
        assert(apps[i as int] == records@[i as int]@);
        match canonical_id_chars(records[i].repo.as_str()) {
            Some(key) => {
                let mut j: usize = 0;
                while j < i
                    invariant
                        j <= i,
                        i < records.len(),
                        ids.len() == i,
                        apps == views(records@),
                        canonical_id(apps[i as int].repo) == Some(key@),
                        forall|a: int|
                            #![trigger apps[a]]
                            0 <= a < i ==> canonical_id(apps[a].repo) == Some(ids@[a]@),
                        forall|a: int|
                            #![trigger apps[a]]
                            0 <= a < j ==> canonical_id(apps[a].repo) != Some(key@),
                    decreases i - j,
                {
                    assert(apps[j as int] == apps[j as int]);
                    if same(&ids[j], &key) {
                        assert(canonical_id(apps[j as int].repo) == canonical_id(
                            apps[i as int].repo,
                        ));
                        return false;
                    }
                    j += 1;
                }
                ids.push(key);
            },
            None => {
                return false;
            },
        }
        i += 1;
    }
    true
}

/// The registry at start-up: what `stored` loads as, and the empty registry
/// where nothing could be read.
pub fn init(stored: Option<Vec<App>>) -> (r: Registry)
    ensures
        r.wf(),
        r@ == match stored {
            Some(records) => loaded(views(records@)),
            None => Seq::<AppView>::empty(),
        },
{
    match stored {
        Some(records) => Registry::load(records),
        None => Registry::new(),
    }
}

/// The records to write to the registry file: all of them, in order.
pub fn save_apps(apps: &Registry) -> (records: Vec<App>)
    ensures
        views(records@) == apps@,
{
    apps.list()
}

} // verus!
