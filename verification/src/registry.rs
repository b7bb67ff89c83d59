//! The window registry: an ordered mapping from window identifier to the
//! window's display metadata and navigation state, together with the
//! per-window screen navigation rules.

use vstd::prelude::*;

verus! {

/// A logical screen shown inside one window.
#[derive(Clone, Copy, Debug, PartialEq, Eq, Structural)]
pub enum Screen {
    Main,
    About,
    Settings,
    Chat,
}

/// Scale factor every fresh window starts with, in thousandths.
pub const FRESH_SCALE_MILLI: u64 = 1000;

/// Palette index of the theme every fresh window gets; the presentation
/// layer interprets it modulo the size of its theme palette.
pub const FRESH_THEME_INDEX: u64 = 1;

/// Mathematical value of one window: its display metadata and the state of
/// its screen navigation machine.
#[verifier::ext_equal]
pub ghost struct WindowModel {
    pub title: Seq<char>,
    pub scale_milli: u64,
    pub theme: u64,
    pub current_screen: Screen,
    pub previous_screen: Option<Screen>,
}

/// Invariant of a single window record: the scale is positive, and a
/// previous screen is stored only while the window is away from `Main`.
pub open spec fn window_inv(w: WindowModel) -> bool {
    &&& w.scale_milli > 0
    &&& w.previous_screen is Some ==> w.current_screen != Screen::Main
}

/// The record a freshly opened window starts with: default scale, the fixed
/// palette theme, the given title and screen, and no navigation history.
pub open spec fn fresh_window(title: Seq<char>, screen: Screen) -> WindowModel {
    WindowModel {
        title,
        scale_milli: FRESH_SCALE_MILLI,
        theme: FRESH_THEME_INDEX,
        current_screen: screen,
        previous_screen: None,
    }
}

/// Navigation of one window to another screen, on the map level: the target
/// becomes current and the screen left behind becomes the single stored
/// previous screen; an unknown identifier changes nothing.
pub open spec fn spec_navigate(m: Map<u64, WindowModel>, id: u64, target: Screen) -> Map<
    u64,
    WindowModel,
> {
    if m.dom().contains(id) {
        m.insert(
            id,
            WindowModel {
                current_screen: target,
                previous_screen: Some(m[id].current_screen),
                ..m[id]
            },
        )
    } else {
        m
    }
}

/// `id` is the window a back request against `kind` resolves to: the first
/// window in identifier order whose current screen is `kind`.
pub open spec fn is_back_target(m: Map<u64, WindowModel>, kind: Screen, id: u64) -> bool {
    &&& m.dom().contains(id)
    &&& m[id].current_screen == kind
    &&& forall|j: u64|
        #[trigger] m.dom().contains(j) && m[j].current_screen == kind ==> id <= j
}

/// Back navigation on the map level: the first window in identifier order
/// showing `kind` returns to its stored previous screen and the history is
/// cleared; with no matching window, or no stored previous screen, nothing
/// changes.
pub open spec fn spec_back(m: Map<u64, WindowModel>, kind: Screen) -> Map<u64, WindowModel> {
    if exists|id: u64| is_back_target(m, kind, id) {
        let id = choose|id: u64| is_back_target(m, kind, id);
        match m[id].previous_screen {
            Some(p) => m.insert(
                id,
                WindowModel { current_screen: p, previous_screen: None, ..m[id] },
            ),
            None => m,
        }
    } else {
        m
    }
}

/// One window's display metadata and navigation state.
#[derive(Debug)]
pub struct Window {
    pub title: String,
    pub scale_milli: u64,
    pub theme: u64,
    pub current_screen: Screen,
    pub previous_screen: Option<Screen>,
}

impl View for Window {
    type V = WindowModel;

    open spec fn view(&self) -> WindowModel {
        WindowModel {
            title: self.title@,
            scale_milli: self.scale_milli,
            theme: self.theme,
            current_screen: self.current_screen,
            previous_screen: self.previous_screen,
        }
    }
}

impl Window {
    /// A freshly opened window showing `screen`.
    pub fn new(title: String, screen: Screen) -> (w: Window)
        ensures
            w@ == fresh_window(title@, screen),
    {
        Window {
            title,
            scale_milli: FRESH_SCALE_MILLI,
            theme: FRESH_THEME_INDEX,
            current_screen: screen,
            previous_screen: None,
        }
    }
}

/// One registry slot: a window under its identifier.
#[derive(Debug)]
pub struct Entry {
    pub id: u64,
    pub window: Window,
}

/// An ordered mapping from window identifier to window record.  The entries
/// are kept sorted by strictly increasing identifier, so the identifiers are
/// pairwise distinct and the least one is first.
#[derive(Debug)]
pub struct Registry {
    entries: Vec<Entry>,
}

impl Registry {
    /// The identifier occurs in the registry.
    pub closed spec fn has_id(&self, id: u64) -> bool {
        exists|i: int| 0 <= i < self.entries@.len() && self.entries@[i].id == id
    }

    /// Position of the entry holding `id` (meaningful only when `has_id`).
    pub closed spec fn idx_of(&self, id: u64) -> int {
        choose|i: int| 0 <= i < self.entries@.len() && self.entries@[i].id == id
    }

    /// The registry as a mathematical map from identifier to window value.
    pub closed spec fn as_map(&self) -> Map<u64, WindowModel> {
        Map::new(
            |id: u64| self.has_id(id),
            |id: u64| self.entries@[self.idx_of(id)].window@,
        )
    }

    /// Well-formedness: entries sorted by strictly increasing identifier,
    /// and every window record satisfies its own invariant.
    pub closed spec fn wf(&self) -> bool {
        &&& forall|i: int, j: int|
            0 <= i < j < self.entries@.len() ==> self.entries@[i].id < self.entries@[j].id
        &&& forall|i: int|
            0 <= i < self.entries@.len() ==> window_inv(#[trigger] self.entries@[i].window@)
    }

    /// With distinct identifiers, `idx_of` is inverse to indexing.
    proof fn lemma_idx_of(&self, i: int)
        requires
            self.wf(),
            0 <= i < self.entries@.len(),
        ensures
            self.has_id(self.entries@[i].id),
            self.idx_of(self.entries@[i].id) == i,
    {
        let id = self.entries@[i].id;
        assert(self.has_id(id));
        let j = self.idx_of(id);
        assert(0 <= j < self.entries@.len() && self.entries@[j].id == id);
        if i < j {
            assert(self.entries@[i].id < self.entries@[j].id);
        } else if j < i {
            assert(self.entries@[j].id < self.entries@[i].id);
        }
    }

    /// Each entry appears in the map view under its identifier.
    proof fn lemma_as_map_index(&self, i: int)
        requires
            self.wf(),
            0 <= i < self.entries@.len(),
        ensures
            self.as_map().dom().contains(self.entries@[i].id),
            self.as_map()[self.entries@[i].id] == self.entries@[i].window@,
    {
        self.lemma_idx_of(i);
    }

    /// An empty registry.
    pub fn new() -> (r: Registry)
        ensures
            r.wf(),
            r.as_map() =~= Map::<u64, WindowModel>::empty(),
    {
        let r = Registry { entries: Vec::new() };
        proof {
            assert forall|id: u64| !r.as_map().dom().contains(id) by {
                assert(!r.has_id(id));
            }
        }
        r
    }

    /// A well-formed registry holds finitely many windows.
    pub proof fn lemma_dom_finite(&self)
        requires
            self.wf(),
        ensures
            self.as_map().dom().finite(),
    {
        self.lemma_count();
    }

    /// The registry's map view has one window per entry: its domain is
    /// finite and its size is the number of entries.
    proof fn lemma_count(&self)
        requires
            self.wf(),
        ensures
            self.as_map().dom().finite(),
            self.as_map().dom().len() == self.entries@.len(),
    {
        broadcast use vstd::seq_lib::seq_to_set_is_finite;

        let ids = self.entries@.map_values(|e: Entry| e.id);
        assert(forall|i: int| 0 <= i < ids.len() ==> ids[i] == self.entries@[i].id);
        assert(ids.no_duplicates());
        assert forall|k: u64| self.as_map().dom().contains(k) <==> ids.to_set().contains(k) by {
            if self.has_id(k) {
                let j = choose|j: int|
                    0 <= j < self.entries@.len() && self.entries@[j].id == k;
                assert(ids[j] == k);
            }
            if ids.contains(k) {
                let j = choose|j: int| 0 <= j < ids.len() && ids[j] == k;
                assert(self.entries@[j].id == k);
            }
        }
        assert(self.as_map().dom() =~= ids.to_set());
        ids.unique_seq_to_set();
    }

    /// How many windows are open.
    pub fn window_count(&self) -> (n: usize)
        requires
            self.wf(),
        ensures
            n == self.as_map().dom().len(),
    {
        proof {
            self.lemma_count();
        }
        self.entries.len()
    }

    /// Whether no window is open.
    pub fn is_empty(&self) -> (e: bool)
        requires
            self.wf(),
        ensures
            e <==> self.as_map().dom() =~= Set::<u64>::empty(),
    {
        proof {
            if self.entries@.len() == 0 {
                assert forall|k: u64| !self.as_map().dom().contains(k) by {
                    assert(!self.has_id(k));
                }
            } else {
                self.lemma_as_map_index(0);
            }
        }
        self.entries.len() == 0
    }

    /// Position of the first entry whose identifier is not below `id`; with
    /// sorted entries this is where `id` lives if it is present at all.
    fn lower_bound(&self, id: u64) -> (r: usize)
        ensures
            r <= self.entries@.len(),
            forall|j: int| 0 <= j < r ==> self.entries@[j].id < id,
            r < self.entries@.len() ==> self.entries@[r as int].id >= id,
    {
        let mut i: usize = 0;
        while i < self.entries.len() && self.entries[i].id < id
            invariant
                i <= self.entries@.len(),
                forall|j: int| 0 <= j < i ==> self.entries@[j].id < id,
            decreases self.entries@.len() - i,
        {
            i = i + 1;
        }
        i
    }

    /// A registry whose entries line up with `m` pointwise is `m` as a map.
    proof fn lemma_map_is(&self, m: Map<u64, WindowModel>)
        requires
            forall|k: u64| #[trigger] self.has_id(k) <==> m.dom().contains(k),
            forall|j: int|
                0 <= j < self.entries@.len() ==> m.dom().contains(
                    #[trigger] self.entries@[j].id,
                ) && m[self.entries@[j].id] == self.entries@[j].window@,
        ensures
            self.as_map() == m,
    {
        assert forall|k: u64| #[trigger] self.as_map().dom().contains(k) implies self.as_map()[k]
            == m[k] by {
            let j = self.idx_of(k);
            assert(0 <= j < self.entries@.len() && self.entries@[j].id == k);
        }
        assert(self.as_map() =~= m);
    }

    /// Create or overwrite the record under `id`.
    pub fn insert(&mut self, id: u64, window: Window)
        requires
            old(self).wf(),
            window_inv(window@),
        ensures
            final(self).wf(),
            final(self).as_map() == old(self).as_map().insert(id, window@),
    {
        let ghost w = window@;
        let i = self.lower_bound(id);
        let present = i < self.entries.len() && self.entries[i].id == id;
        if present {
            let _evicted = self.entries.remove(i);
        }
        self.entries.insert(i, Entry { id, window });
        proof {
            let os = old(self).entries@;
            let ns = self.entries@;
            let m = old(self).as_map().insert(id, w);
            if present {
                assert(ns.len() == os.len());
                assert(forall|k: int| 0 <= k < ns.len() && k != i ==> ns[k] == os[k]);
                assert(ns[i as int].id == id && ns[i as int].window@ == w);
                assert(forall|k: int| 0 <= k < ns.len() ==> ns[k].id == os[k].id);
                assert(self.wf());
                assert forall|k: u64| #[trigger] self.has_id(k) <==> m.dom().contains(k) by {
                    if self.has_id(k) {
                        let j = choose|j: int| 0 <= j < ns.len() && ns[j].id == k;
                        assert(os[j].id == k);
                        assert(old(self).has_id(k));
                    }
                    if m.dom().contains(k) {
                        if k == id {
                            assert(ns[i as int].id == k);
                        } else {
                            let j = choose|j: int| 0 <= j < os.len() && os[j].id == k;
                            assert(ns[j].id == k);
                        }
                    }
                }
                assert forall|j: int| 0 <= j < ns.len() implies m.dom().contains(
                    #[trigger] ns[j].id,
                ) && m[ns[j].id] == ns[j].window@ by {
                    assert(self.has_id(ns[j].id));
                    if j != i {
                        assert(os[j].id != os[i as int].id);
                        old(self).lemma_as_map_index(j);
                    }
                }
                self.lemma_map_is(m);
            } else {
                assert(ns.len() == os.len() + 1);
                assert(forall|k: int| 0 <= k < i ==> ns[k] == os[k]);
                assert(ns[i as int].id == id && ns[i as int].window@ == w);
                assert(forall|k: int| i < k < ns.len() ==> ns[k] == os[k - 1]);
                assert(forall|k: int| 0 <= k < i ==> os[k].id < id);
                assert forall|k: int| i <= k < os.len() implies os[k].id > id by {
                    assert(os[i as int].id >= id);
                    assert(os[i as int].id != id);
                }
                assert forall|j1: int, j2: int| 0 <= j1 < j2 < ns.len() implies ns[j1].id
                    < ns[j2].id by {
                    if j1 == i {
                        assert(ns[j2] == os[j2 - 1] && i <= j2 - 1 < os.len());
                    } else if j2 == i {
                        assert(ns[j1] == os[j1]);
                    }
                }
                assert(self.wf());
                assert forall|k: u64| #[trigger] self.has_id(k) <==> m.dom().contains(k) by {
                    if self.has_id(k) {
                        let j = choose|j: int| 0 <= j < ns.len() && ns[j].id == k;
                        if j != i {
                            let jo: int = if j < i { j } else { j - 1 };
                            assert(os[jo].id == k);
                            assert(old(self).has_id(k));
                        }
                    }
                    if m.dom().contains(k) {
                        if k == id {
                            assert(ns[i as int].id == k);
                        } else {
                            let j = choose|j: int| 0 <= j < os.len() && os[j].id == k;
                            let jn: int = if j < i { j } else { j + 1 };
                            assert(ns[jn].id == k);
                        }
                    }
                }
                assert forall|j: int| 0 <= j < ns.len() implies m.dom().contains(
                    #[trigger] ns[j].id,
                ) && m[ns[j].id] == ns[j].window@ by {
                    assert(self.has_id(ns[j].id));
                    if j != i {
                        let jo: int = if j < i { j } else { j - 1 };
                        assert(ns[j] == os[jo]);
                        assert(os[jo].id != id);
                        old(self).lemma_as_map_index(jo);
                    }
                }
                self.lemma_map_is(m);
            }
        }
    }

    /// Remove the record under `id` if it is present; the result says
    /// whether the registry is empty afterwards.
    pub fn remove(&mut self, id: u64) -> (now_empty: bool)
        requires
            old(self).wf(),
        ensures
            final(self).wf(),
            final(self).as_map() == old(self).as_map().remove(id),
            now_empty <==> final(self).as_map().dom() =~= Set::<u64>::empty(),
    {
        let i = self.lower_bound(id);
        let present = i < self.entries.len() && self.entries[i].id == id;
        if present {
            let _evicted = self.entries.remove(i);
        }
        proof {
            let os = old(self).entries@;
            let ns = self.entries@;
            let m = old(self).as_map().remove(id);
            if present {
                assert(ns.len() == os.len() - 1);
                assert(forall|k: int| 0 <= k < i ==> ns[k] == os[k]);
                assert(forall|k: int| i <= k < ns.len() ==> ns[k] == os[k + 1]);
                assert forall|j1: int, j2: int| 0 <= j1 < j2 < ns.len() implies ns[j1].id
                    < ns[j2].id by {
                    let a: int = if j1 < i { j1 } else { j1 + 1 };
                    let b: int = if j2 < i { j2 } else { j2 + 1 };
                    assert(ns[j1] == os[a] && ns[j2] == os[b]);
                    assert(a < b);
                }
                assert(self.wf());
                assert forall|k: u64| #[trigger] self.has_id(k) <==> m.dom().contains(k) by {
                    if self.has_id(k) {
                        let j = choose|j: int| 0 <= j < ns.len() && ns[j].id == k;
                        let jo: int = if j < i { j } else { j + 1 };
                        assert(os[jo].id == k);
                        assert(old(self).has_id(k));
                        assert(jo != i);
                        assert(k != id);
                    }
                    if m.dom().contains(k) {
                        assert(k != id && old(self).has_id(k));
                        let j = choose|j: int| 0 <= j < os.len() && os[j].id == k;
                        assert(j != i);
                        let jn: int = if j < i { j } else { j - 1 };
                        assert(ns[jn].id == k);
                    }
                }
                assert forall|j: int| 0 <= j < ns.len() implies m.dom().contains(
                    #[trigger] ns[j].id,
                ) && m[ns[j].id] == ns[j].window@ by {
                    assert(self.has_id(ns[j].id));
                    let jo: int = if j < i { j } else { j + 1 };
                    assert(ns[j] == os[jo]);
                    assert(os[jo].id != id);
                    old(self).lemma_as_map_index(jo);
                }
                self.lemma_map_is(m);
            } else {
                assert(forall|k: int| 0 <= k < i ==> os[k].id < id);
                assert forall|k: int| 0 <= k < os.len() implies os[k].id != id by {
                    if i <= k {
                        assert(os[i as int].id >= id && os[i as int].id != id);
                        assert(os[k].id >= os[i as int].id);
                    }
                }
                assert(!old(self).has_id(id));
                assert forall|j: int| 0 <= j < ns.len() implies m.dom().contains(
                    #[trigger] ns[j].id,
                ) && m[ns[j].id] == ns[j].window@ by {
                    old(self).lemma_as_map_index(j);
                }
                self.lemma_map_is(m);
            }
            if self.entries@.len() == 0 {
                assert forall|k: u64| !self.as_map().dom().contains(k) by {
                    assert(!self.has_id(k));
                }
                assert(self.as_map().dom() =~= Set::<u64>::empty());
            } else {
                self.lemma_as_map_index(0);
                assert(!(self.as_map().dom() =~= Set::<u64>::empty()));
            }
        }
        self.entries.len() == 0
    }

    /// Look the record under `id` up.
    pub fn get(&self, id: u64) -> (r: Option<&Window>)
        requires
            self.wf(),
        ensures
            match r {
                Some(w) => self.as_map().dom().contains(id) && w@ == self.as_map()[id],
                None => !self.as_map().dom().contains(id),
            },
    {
        let i = self.lower_bound(id);
        if i < self.entries.len() && self.entries[i].id == id {
            proof {
                self.lemma_as_map_index(i as int);
            }
            Some(&self.entries[i].window)
        } else {
            proof {
                let os = self.entries@;
                assert forall|k: int| 0 <= k < os.len() implies os[k].id != id by {
                    if i <= k {
                        assert(os[i as int].id >= id && os[i as int].id != id);
                        assert(os[k].id >= os[i as int].id);
                    }
                }
                assert(!self.has_id(id));
            }
            None
        }
    }

    /// Replace the record at position `i` (an update in place).
    fn replace_at(&mut self, i: usize, window: Window)
        requires
            old(self).wf(),
            i < old(self).entries@.len(),
            window_inv(window@),
        ensures
            final(self).wf(),
            final(self).entries@.len() == old(self).entries@.len(),
            final(self).entries@[i as int].id == old(self).entries@[i as int].id,
            final(self).entries@[i as int].window@ == window@,
            forall|k: int|
                0 <= k < old(self).entries@.len() && k != i ==> final(self).entries@[k] == old(
                    self,
                ).entries@[k],
            final(self).as_map() == old(self).as_map().insert(
                old(self).entries@[i as int].id,
                window@,
            ),
    {
        let ghost w = window@;
        let evicted = self.entries.remove(i);
        let id = evicted.id;
        self.entries.insert(i, Entry { id, window });
        proof {
            let os = old(self).entries@;
            let ns = self.entries@;
            let m = old(self).as_map().insert(id, w);
            assert(ns.len() == os.len());
            assert(forall|k: int| 0 <= k < ns.len() && k != i ==> ns[k] == os[k]);
            assert(ns[i as int].id == id && ns[i as int].window@ == w);
            assert(forall|k: int| 0 <= k < ns.len() ==> ns[k].id == os[k].id);
            assert(self.wf());
            assert forall|k: u64| #[trigger] self.has_id(k) <==> m.dom().contains(k) by {
                if self.has_id(k) {
                    let j = choose|j: int| 0 <= j < ns.len() && ns[j].id == k;
                    assert(os[j].id == k);
                    assert(old(self).has_id(k));
                }
                if m.dom().contains(k) {
                    if k == id {
                        assert(ns[i as int].id == k);
                    } else {
                        let j = choose|j: int| 0 <= j < os.len() && os[j].id == k;
                        assert(ns[j].id == k);
                    }
                }
            }
            assert forall|j: int| 0 <= j < ns.len() implies m.dom().contains(#[trigger] ns[j].id)
                && m[ns[j].id] == ns[j].window@ by {
                assert(self.has_id(ns[j].id));
                if j != i {
                    assert(os[j].id != os[i as int].id);
                    old(self).lemma_as_map_index(j);
                }
            }
            self.lemma_map_is(m);
        }
    }

    /// Navigate the window under `id` to `target`; an unknown identifier is
    /// a no-op.  Navigation targets are sub-screens: `Main` is only ever
    /// returned to through back navigation.
    pub fn navigate_to(&mut self, id: u64, target: Screen)
        requires
            old(self).wf(),
            target != Screen::Main,
        ensures
            final(self).wf(),
            final(self).as_map() == spec_navigate(old(self).as_map(), id, target),
    {
        let i = self.lower_bound(id);
        if i < self.entries.len() && self.entries[i].id == id {
            proof {
                self.lemma_as_map_index(i as int);
            }
            let prev = self.entries[i].window.current_screen;
            let title = self.entries[i].window.title.clone();
            let w = Window {
                title,
                scale_milli: self.entries[i].window.scale_milli,
                theme: self.entries[i].window.theme,
                current_screen: target,
                previous_screen: Some(prev),
            };
            proof {
                let m = self.as_map();
                let ghost id2 = self.entries@[i as int].id;
                assert(w@ =~= WindowModel {
                    current_screen: target,
                    previous_screen: Some(m[id2].current_screen),
                    ..m[id2]
                });
            }
            self.replace_at(i, w);
        } else {
            proof {
                let os = self.entries@;
                assert forall|k: int| 0 <= k < os.len() implies os[k].id != id by {
                    if i <= k {
                        assert(os[i as int].id >= id && os[i as int].id != id);
                        assert(os[k].id >= os[i as int].id);
                    }
                }
                assert(!self.has_id(id));
                assert(!self.as_map().dom().contains(id));
            }
        }
    }

    /// Apply back navigation against `kind`: the first window in identifier
    /// order showing `kind` returns to its stored previous screen; with no
    /// matching window, or no stored history, nothing changes.
    pub fn back(&mut self, kind: Screen)
        requires
            old(self).wf(),
        ensures
            final(self).wf(),
            final(self).as_map() == spec_back(old(self).as_map(), kind),
    {
        let n = self.entries.len();
        let mut i: usize = 0;
        while i < n
            invariant
                *self == *old(self),
                self.wf(),
                n == self.entries@.len(),
                i <= n,
                forall|j: int| 0 <= j < i ==> self.entries@[j].window@.current_screen != kind,
            decreases n - i,
        {
            if self.entries[i].window.current_screen == kind {
                let ghost m = self.as_map();
                let ghost id = self.entries@[i as int].id;
                proof {
                    self.lemma_as_map_index(i as int);
                    assert forall|j: u64|
                        #[trigger] m.dom().contains(j) && m[j].current_screen == kind implies id
                        <= j by {
                        let jj = choose|jj: int|
                            0 <= jj < self.entries@.len() && self.entries@[jj].id == j;
                        self.lemma_as_map_index(jj);
                        assert(self.entries@[jj].window@.current_screen == kind);
                        assert(jj >= i);
                        assert(jj > i ==> self.entries@[i as int].id < self.entries@[jj].id);
                    }
                    assert(is_back_target(m, kind, id));
                    let c = choose|c: u64| is_back_target(m, kind, c);
                    assert(is_back_target(m, kind, c));
                    assert(id <= c && c <= id);
                }
                match self.entries[i].window.previous_screen {
                    Some(p) => {
                        let title = self.entries[i].window.title.clone();
                        let w = Window {
                            title,
                            scale_milli: self.entries[i].window.scale_milli,
                            theme: self.entries[i].window.theme,
                            current_screen: p,
                            previous_screen: None,
                        };
                        proof {
                            assert(w@ =~= WindowModel {
                                current_screen: p,
                                previous_screen: None,
                                ..m[id]
                            });
                        }
                        self.replace_at(i, w);
                    },
                    None => {},
                }
                return;
            }
            i = i + 1;
        }
        proof {
            assert forall|c: u64| !is_back_target(self.as_map(), kind, c) by {
                if self.as_map().dom().contains(c) {
                    let jj = choose|jj: int|
                        0 <= jj < self.entries@.len() && self.entries@[jj].id == c;
                    self.lemma_as_map_index(jj);
                    assert(self.as_map()[c].current_screen != kind);
                }
            }
        }
    }

    /// The least window identifier: the primary window, if any window is
    /// open at all.
    pub fn primary(&self) -> (r: Option<u64>)
        requires
            self.wf(),
        ensures
            match r {
                Some(id) => self.as_map().dom().contains(id) && forall|j: u64|
                    self.as_map().dom().contains(j) ==> id <= j,
                None => self.as_map().dom() =~= Set::<u64>::empty(),
            },
    {
        if self.entries.len() == 0 {
            proof {
                assert forall|k: u64| !self.as_map().dom().contains(k) by {
                    assert(!self.has_id(k));
                }
                assert(self.as_map().dom() =~= Set::<u64>::empty());
            }
            None
        } else {
            proof {
                self.lemma_as_map_index(0);
                assert forall|j: u64| self.as_map().dom().contains(j) implies self.entries@[0].id
                    <= j by {
                    let jj = choose|jj: int|
                        0 <= jj < self.entries@.len() && self.entries@[jj].id == j;
                    assert(jj > 0 ==> self.entries@[0].id < self.entries@[jj].id);
                }
            }
            Some(self.entries[0].id)
        }
    }
}

} // verus!
