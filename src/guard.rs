//! The guard: the decisions of the two-tier membership check. The caller
//! performs the store round-trips and hands their outcomes back; the guard
//! keeps the filter a superset of what the store has committed.
use vstd::prelude::*;
use crate::error::GuardError;
use crate::filter::{MembershipFilter, valid_sizing};
use crate::models::AllowlistEntry;

verus! {

/// The identifiers held by a sequence of stored rows.
pub open spec fn addresses(rows: Seq<AllowlistEntry>) -> Set<Seq<char>> {
    Set::new(|k: Seq<char>| exists|i: int| 0 <= i < rows.len() && rows[i].wallet_address@ == k)
}

/// The identifiers held by a sequence of strings.
pub open spec fn identifiers(keys: Seq<String>) -> Set<Seq<char>> {
    Set::new(|k: Seq<char>| exists|i: int| 0 <= i < keys.len() && keys[i]@ == k)
}

proof fn lemma_addresses_push(rows: Seq<AllowlistEntry>, e: AllowlistEntry)
    ensures
        addresses(rows.push(e)) == addresses(rows).insert(e.wallet_address@),
{
    let s = rows.push(e);
    assert forall|k: Seq<char>| addresses(s).contains(k) implies addresses(rows).insert(
        e.wallet_address@,
    ).contains(k) by {
        let i = choose|i: int| 0 <= i < s.len() && s[i].wallet_address@ == k;
        if i < rows.len() {
            assert(rows[i] == s[i]);
        }
    }
    assert forall|k: Seq<char>| addresses(rows).insert(e.wallet_address@).contains(k) implies addresses(
        s,
    ).contains(k) by {
        if k == e.wallet_address@ {
            assert(s[rows.len() as int] == e);
        } else {
            let i = choose|i: int| 0 <= i < rows.len() && rows[i].wallet_address@ == k;
            assert(s[i] == rows[i]);
        }
    }
    assert(addresses(s) =~= addresses(rows).insert(e.wallet_address@));
}

proof fn lemma_identifiers_push(keys: Seq<String>, e: String)
    ensures
        identifiers(keys.push(e)) == identifiers(keys).insert(e@),
{
    let s = keys.push(e);
    assert forall|k: Seq<char>| identifiers(s).contains(k) implies identifiers(keys).insert(
        e@,
    ).contains(k) by {
        let i = choose|i: int| 0 <= i < s.len() && s[i]@ == k;
        if i < keys.len() {
            assert(keys[i] == s[i]);
        }
    }
    assert forall|k: Seq<char>| identifiers(keys).insert(e@).contains(k) implies identifiers(
        s,
    ).contains(k) by {
        if k == e@ {
            assert(s[keys.len() as int] == e);
        } else {
            let i = choose|i: int| 0 <= i < keys.len() && keys[i]@ == k;
            assert(s[i] == keys[i]);
        }
    }
    assert(identifiers(s) =~= identifiers(keys).insert(e@));
}

/// What `check_access` asks the caller to do next.
#[derive(Clone, Copy, Debug, PartialEq, Eq, Structural)]
pub enum CheckStep {
    /// The filter rules the identifier out: refuse it, with no store call.
    Rejected,
    /// The identifier may be present: ask the store, and pass its answer to
    /// `resolve_lookup`.
    LookupStore,
}

/// The guard's state. Its view is the set of identifiers its filter holds.
///
/// Before the first hydration the filter is not trusted and every check goes
/// to the store. While a hydration is under way, the identifiers added meanwhile
/// are kept aside, so that the filter installed at its end holds them as well as
/// the snapshot it was built from.
pub struct AllowlistGuard {
    filter: MembershipFilter,
    bitmap_bytes: usize,
    expected_items: usize,
    ready: bool,
    hydrating: bool,
    added_during_hydration: Vec<String>,
}

impl View for AllowlistGuard {
    type V = Set<Seq<char>>;

    closed spec fn view(&self) -> Set<Seq<char>> {
        self.filter@
    }
}

impl AllowlistGuard {
    /// Whether a hydration has completed, so that the filter is trusted.
    pub closed spec fn is_ready(&self) -> bool {
        self.ready
    }

    /// Whether a hydration has begun and not yet been installed.
    pub closed spec fn is_hydrating(&self) -> bool {
        self.hydrating
    }

    /// The identifiers added since the current hydration began.
    pub closed spec fn pending(&self) -> Set<Seq<char>> {
        identifiers(self.added_during_hydration@)
    }

    /// The bitmap size in bytes and the expected item count of the filters
    /// this guard builds.
    pub closed spec fn sizing(&self) -> (usize, usize) {
        (self.bitmap_bytes, self.expected_items)
    }

    /// The guard's invariant: a buildable sizing, and every identifier kept
    /// aside is also in the filter.
    pub closed spec fn wf(&self) -> bool {
        &&& valid_sizing(self.bitmap_bytes, self.expected_items)
        &&& self.pending().subset_of(self.filter@)
        &&& !self.hydrating ==> self.added_during_hydration@.len() == 0
    }

    /// A guard whose filters have a bitmap of `bitmap_bytes` bytes for
    /// `expected_items` identifiers. It is not ready until a hydration is
    /// installed.
    pub fn new(bitmap_bytes: usize, expected_items: usize) -> (r: Result<AllowlistGuard, GuardError>)
        ensures
            valid_sizing(bitmap_bytes, expected_items) <==> r is Ok,
            r is Err ==> r->Err_0 == GuardError::ConfigurationError,
            r is Ok ==> {
                let g = r->Ok_0;
                &&& g.wf()
                &&& g@ == Set::<Seq<char>>::empty()
                &&& !g.is_ready()
                &&& !g.is_hydrating()
                &&& g.sizing() == (bitmap_bytes, expected_items)
            },
    {
        match MembershipFilter::new(bitmap_bytes, expected_items) {
            Ok(filter) => {
                let g = AllowlistGuard {
                    filter,
                    bitmap_bytes,
                    expected_items,
                    ready: false,
                    hydrating: false,
                    added_during_hydration: Vec::new(),
                };
                assert(g.pending() =~= Set::<Seq<char>>::empty());
                Ok(g)
            },
            Err(e) => Err(e),
        }
    }

    /// Marks the start of a hydration. Call it before the store's rows are
    /// loaded: from here on, identifiers that `add_user` commits are kept aside
    /// for `install_filter`.
    pub fn begin_hydrate(&mut self)
        requires
            old(self).wf(),
        ensures
            final(self).wf(),
            final(self)@ == old(self)@,
            final(self).is_hydrating(),
            final(self).pending() == Set::<Seq<char>>::empty(),
            final(self).is_ready() == old(self).is_ready(),
            final(self).sizing() == old(self).sizing(),
    {
        self.hydrating = true;
        self.added_during_hydration = Vec::new();
        assert(self.pending() =~= Set::<Seq<char>>::empty());
    }

    /// Builds, off to the side, a fresh filter that holds exactly the
    /// identifiers of the loaded rows.
    pub fn hydrate(&self, rows: &Vec<AllowlistEntry>) -> (r: MembershipFilter)
        requires
            self.wf(),
        ensures
            r@ == addresses(rows@),
            forall|i: int| 0 <= i < rows@.len() ==> r@.contains(#[trigger] rows@[i].wallet_address@),
    {
        let mut fresh = MembershipFilter::with_sizing(self.bitmap_bytes, self.expected_items);
        let mut i: usize = 0;
        assert(rows@.take(0) =~= Seq::<AllowlistEntry>::empty());
        assert(addresses(rows@.take(0)) =~= Set::<Seq<char>>::empty());
        while i < rows.len()
            invariant
                i <= rows@.len(),
                fresh@ == addresses(rows@.take(i as int)),
            decreases rows@.len() - i,
        {
            fresh.insert(rows[i].wallet_address.as_str());
            proof {
                assert(rows@.take(i as int + 1) =~= rows@.take(i as int).push(rows@[i as int]));
                lemma_addresses_push(rows@.take(i as int), rows@[i as int]);
            }
            i = i + 1;
        }
        assert(rows@.take(rows@.len() as int) =~= rows@);
        assert forall|i: int| 0 <= i < rows@.len() implies fresh@.contains(
            #[trigger] rows@[i].wallet_address@,
        ) by {}
        fresh
    }

    /// Whether `begin_hydrate` has been called and its filter not yet installed.
    pub fn hydration_in_progress(&self) -> (r: bool)
        ensures
            r == self.is_hydrating(),
    {
        self.hydrating
    }

    /// Swaps in a filter built by `hydrate`, after adding to it every
    /// identifier committed since `begin_hydrate`. The guard is then ready.
    pub fn install_filter(&mut self, fresh: MembershipFilter)
        requires
            old(self).wf(),
            old(self).is_hydrating(),
        ensures
            final(self).wf(),
            final(self)@ == fresh@.union(old(self).pending()),
            final(self).is_ready(),
            !final(self).is_hydrating(),
            final(self).sizing() == old(self).sizing(),
    {
        let mut fresh = fresh;
        let ghost base = fresh@;
        let mut i: usize = 0;
        assert(self.added_during_hydration@.take(0) =~= Seq::<String>::empty());
        assert(base.union(identifiers(self.added_during_hydration@.take(0))) =~= base);
        while i < self.added_during_hydration.len()
            invariant
                i <= self.added_during_hydration@.len(),
                fresh@ == base.union(identifiers(self.added_during_hydration@.take(i as int))),
            decreases self.added_during_hydration@.len() - i,
        {
            fresh.insert(self.added_during_hydration[i].as_str());
            proof {
                let keys = self.added_during_hydration@;
                assert(keys.take(i as int + 1) =~= keys.take(i as int).push(keys[i as int]));
                lemma_identifiers_push(keys.take(i as int), keys[i as int]);
                assert(base.union(identifiers(keys.take(i as int)).insert(keys[i as int]@))
                    =~= base.union(identifiers(keys.take(i as int))).insert(keys[i as int]@));
            }
            i = i + 1;
        }
        assert(self.added_during_hydration@.take(i as int) =~= self.added_during_hydration@);
        self.filter = fresh;
        self.ready = true;
        self.hydrating = false;
        self.added_during_hydration = Vec::new();
        assert(self.pending() =~= Set::<Seq<char>>::empty());
    }

    /// The filter half of a check. A rejected identifier needs no store call.
    /// Before the guard is ready, and for every identifier the filter holds,
    /// the store must be asked; a ready guard whose filter is empty rejects
    /// everything.
    pub fn check_access(&self, key: &str) -> (r: CheckStep)
        requires
            self.wf(),
        ensures
            !self.is_ready() ==> r == CheckStep::LookupStore,
            self@.contains(key@) ==> r == CheckStep::LookupStore,
            self.is_ready() && self@.is_empty() ==> r == CheckStep::Rejected,
    {
        if !self.ready || self.filter.test(key) {
            CheckStep::LookupStore
        } else {
            CheckStep::Rejected
        }
    }

    /// The store half of a check: access is granted only when the store
    /// confirms the identifier. A failed lookup denies access.
    pub fn resolve_lookup(lookup: Result<bool, GuardError>) -> (r: bool)
        ensures
            r == (lookup == Ok::<bool, GuardError>(true)),
    {
        match lookup {
            Ok(found) => found,
            Err(_) => false,
        }
    }

    /// Records the outcome of the store insertion of `key`. Only a committed
    /// insertion reaches the filter; the store's outcome is returned unchanged.
    pub fn add_user(&mut self, key: &str, stored: Result<(), GuardError>) -> (r: Result<(), GuardError>)
        requires
            old(self).wf(),
        ensures
            final(self).wf(),
            r == stored,
            stored is Ok ==> final(self)@ == old(self)@.insert(key@),
            stored is Ok && old(self).is_hydrating() ==> final(self).pending() == old(self).pending().insert(key@),
            stored is Err ==> final(self)@ == old(self)@,
            !(stored is Ok && old(self).is_hydrating()) ==> final(self).pending() == old(self).pending(),
            final(self).is_ready() == old(self).is_ready(),
            final(self).is_hydrating() == old(self).is_hydrating(),
            final(self).sizing() == old(self).sizing(),
    {
        if stored.is_ok() {
            self.filter.insert(key);
            if self.hydrating {
                let ghost keys = self.added_during_hydration@;
                let item = key.to_owned();
                let ghost pushed = item;
                self.added_during_hydration.push(item);
                proof {
                    lemma_identifiers_push(keys, pushed);
                }
            }
        }
        stored
    }
}

} // verus!
