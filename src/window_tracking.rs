use std::collections::hash_map::Entry;
use std::collections::{HashMap, VecDeque};
use vstd::prelude::*;

verus! {

/// A tracked top-level window: an opaque OS handle and the caption captured
/// when it was grabbed. Two windows are the same window when their handles
/// are equal.
pub struct Window {
    hwnd: usize,
    title: Option<String>,
}

impl Window {
    /// The OS handle of the window.
    pub closed spec fn spec_hwnd(&self) -> usize {
        self.hwnd
    }

    /// The captured caption, if any.
    pub closed spec fn spec_title(&self) -> Option<Seq<char>> {
        match self.title {
            Some(t) => Some(t@),
            None => None,
        }
    }

    /// A window with handle `hwnd` and caption `title`.
    pub fn new(hwnd: usize, title: String) -> (r: Window)
        ensures
            r.spec_hwnd() == hwnd,
            r.spec_title() == Some(title@),
    {
        Window { hwnd, title: Some(title) }
    }

    /// The window to track for a grab, from the handle that the OS reported
    /// as the foreground window and its caption; `None` where there is no
    /// foreground window (a null handle).
    pub fn from_foreground(hwnd: usize, title: String) -> (r: Option<Window>)
        ensures
            hwnd == 0 <==> r is None,
            r matches Some(w) ==> w.spec_hwnd() == hwnd && w.spec_title() == Some(title@),
    {
        if hwnd == 0 {
            None
        } else {
            Some(Window::new(hwnd, title))
        }
    }

    /// The OS handle of the window.
    #[verifier::when_used_as_spec(spec_hwnd)]
    pub fn hwnd(&self) -> (r: usize)
        ensures
            r == self.spec_hwnd(),
    {
        self.hwnd
    }

    /// The captured caption, if any.
    pub fn title(&self) -> (r: Option<&str>)
        ensures
            match r {
                Some(t) => self.spec_title() == Some(t@),
                None => self.spec_title() is None,
            },
    {
        match &self.title {
            Some(t) => Some(t.as_str()),
            None => None,
        }
    }
}

impl Clone for Window {
    fn clone(&self) -> (r: Window)
        ensures
            r == *self,
    {
        let title = match &self.title {
            Some(t) => Some(t.clone()),
            None => None,
        };
        Window { hwnd: self.hwnd, title }
    }
}

/// No two windows of `s` share a handle.
pub open spec fn unique_handles(s: Seq<Window>) -> bool {
    forall|i: int, j: int|
        0 <= i < j < s.len() ==> #[trigger] s[i].spec_hwnd() != #[trigger] s[j].spec_hwnd()
}

/// `s` without the window whose handle is `h`.
pub open spec fn without_handle(s: Seq<Window>, h: usize) -> Seq<Window> {
    s.filter(|w: Window| w.spec_hwnd() != h)
}

/// One rotation step: the back window moves to the front.
pub open spec fn rotate(s: Seq<Window>) -> Seq<Window> {
    if s.len() == 0 {
        s
    } else {
        seq![s.last()] + s.drop_last()
    }
}

/// `k` rotation steps.
pub open spec fn rotate_n(s: Seq<Window>, k: nat) -> Seq<Window>
    decreases k,
{
    if k == 0 {
        s
    } else {
        rotate(rotate_n(s, (k - 1) as nat))
    }
}

/// Removing the only window of `s` that fails the filter is removing its index.
proof fn lemma_without_handle_at(s: Seq<Window>, i: int)
    requires
        0 <= i < s.len(),
        unique_handles(s),
    ensures
        without_handle(s, s[i].spec_hwnd()) == s.remove(i),
{
    let h = s[i].spec_hwnd();
    let pred = |w: Window| w.spec_hwnd() != h;
    let pre = s.subrange(0, i);
    let post = s.subrange(i + 1, s.len() as int);
    lemma_filter_keeps_all(pre, pred);
    lemma_filter_keeps_all(post, pred);
    assert(s =~= pre + (seq![s[i]] + post));
    Seq::filter_distributes_over_add(pre, seq![s[i]] + post, pred);
    post.lemma_filter_prepend(s[i], pred);
    assert(s.remove(i) =~= pre + post);
}

/// Where no window of `s` has handle `h`, removing it changes nothing.
proof fn lemma_without_absent(s: Seq<Window>, h: usize)
    requires
        forall|j: int| 0 <= j < s.len() ==> (#[trigger] s[j]).spec_hwnd() != h,
    ensures
        without_handle(s, h) == s,
{
    lemma_filter_keeps_all(s, |w: Window| w.spec_hwnd() != h);
}

/// Dropping one window keeps the handles distinct.
proof fn lemma_remove_keeps_unique(s: Seq<Window>, i: int)
    requires
        0 <= i < s.len(),
        unique_handles(s),
    ensures
        unique_handles(s.remove(i)),
{
    let r = s.remove(i);
    assert forall|a: int, b: int| 0 <= a < b < r.len() implies #[trigger] r[a].spec_hwnd()
        != #[trigger] r[b].spec_hwnd() by {
        let a2 = if a < i { a } else { a + 1 };
        let b2 = if b < i { b } else { b + 1 };
        assert(r[a] == s[a2] && r[b] == s[b2]);
    }
}

/// No window left after dropping handle `h` has that handle.
proof fn lemma_without_handle_lacks(s: Seq<Window>, h: usize)
    ensures
        forall|j: int|
            0 <= j < without_handle(s, h).len() ==> (#[trigger] without_handle(s, h)[j]).spec_hwnd()
                != h,
{
    broadcast use vstd::seq_lib::group_filter_ensures;

}

proof fn lemma_filter_keeps_all(s: Seq<Window>, pred: spec_fn(Window) -> bool)
    requires
        forall|j: int| 0 <= j < s.len() ==> pred(#[trigger] s[j]),
    ensures
        s.filter(pred) == s,
    decreases s.len(),
{
    reveal(Seq::filter);
    if s.len() > 0 {
        lemma_filter_keeps_all(s.drop_last(), pred);
        assert(s.drop_last().push(s.last()) =~= s);
    }
}

/// The windows bound to one slot, front first. The front window is the
/// slot's current one.
pub struct WindowSet {
    windows: VecDeque<Window>,
}

impl View for WindowSet {
    type V = Seq<Window>;

    closed spec fn view(&self) -> Seq<Window> {
        self.windows@
    }
}

impl WindowSet {
    /// Well-formed: no two windows share a handle.
    pub open spec fn wf(&self) -> bool {
        unique_handles(self@)
    }

    /// An empty set.
    pub fn new() -> (r: WindowSet)
        ensures
            r@ == Seq::<Window>::empty(),
            r.wf(),
    {
        WindowSet { windows: VecDeque::new() }
    }

    /// Puts `window` at the front, first dropping any window with the same handle.
    pub fn add(&mut self, window: Window)
        requires
            old(self).wf(),
        ensures
            final(self).wf(),
            final(self)@ == seq![window] + without_handle(old(self)@, window.spec_hwnd()),
    {
        self.remove(&window);
        proof {
            lemma_without_handle_lacks(old(self)@, window.spec_hwnd());
        }
        self.windows.push_front(window);
        proof {
            let s = self.windows@;
            assert forall|a: int, b: int| 0 <= a < b < s.len() implies #[trigger] s[a].spec_hwnd()
                != #[trigger] s[b].spec_hwnd() by {
                if a > 0 {
                    assert(s[a] == without_handle(old(self)@, window.spec_hwnd())[a - 1]);
                }
                assert(s[b] == without_handle(old(self)@, window.spec_hwnd())[b - 1]);
            }
        }
    }

    /// Drops the window with the handle of `window`, if there is one, and returns it.
    pub fn remove(&mut self, window: &Window) -> (r: Option<Window>)
        requires
            old(self).wf(),
        ensures
            final(self).wf(),
            final(self)@ == without_handle(old(self)@, window.spec_hwnd()),
            match r {
                Some(w) => old(self)@.contains(w) && w.spec_hwnd() == window.spec_hwnd(),
                None => forall|j: int|
                    0 <= j < old(self)@.len() ==> (#[trigger] old(self)@[j]).spec_hwnd()
                        != window.spec_hwnd(),
            },
    {
        let n = self.windows.len();
        let mut i: usize = 0;
        while i < n
            invariant
                n == self.windows@.len(),
                self.windows@ == old(self).windows@,
                unique_handles(self.windows@),
                0 <= i <= n,
                forall|j: int| 0 <= j < i ==> (#[trigger] self.windows@[j]).spec_hwnd() != window.spec_hwnd(),
            decreases n - i,
        {
            if self.windows[i].hwnd == window.hwnd {
                proof {
                    lemma_without_handle_at(self.windows@, i as int);
                    lemma_remove_keeps_unique(self.windows@, i as int);
                }
                return self.windows.remove(i);
            }
            i = i + 1;
        }
        proof {
            lemma_without_absent(self.windows@, window.spec_hwnd());
        }
        None
    }

    /// Moves the back window to the front and returns a copy of the new front;
    /// `None`, with nothing changed, on an empty set.
    pub fn cycle(&mut self) -> (r: Option<Window>)
        requires
            old(self).wf(),
        ensures
            final(self).wf(),
            final(self)@ == rotate(old(self)@),
            old(self)@.len() == 0 ==> r is None,
            old(self)@.len() > 0 ==> r == Some(rotate(old(self)@)[0]),
    {
        if let Some(back) = self.windows.pop_back() {
            self.windows.push_front(back);
        }
        if self.windows.len() == 0 {
            None
        } else {
            Some(self.windows[0].clone())
        }
    }
}

/// The windows of slot `vk` in table `m`; empty where the slot was never tracked.
pub open spec fn slot_windows(m: Map<u32, Seq<Window>>, vk: u32) -> Seq<Window> {
    if m.contains_key(vk) {
        m[vk]
    } else {
        Seq::empty()
    }
}

/// What `WindowSet::add` makes of `s`.
pub open spec fn added(s: Seq<Window>, w: Window) -> Seq<Window> {
    seq![w] + without_handle(s, w.spec_hwnd())
}

/// The first window of `s`, if any.
pub open spec fn front(s: Seq<Window>) -> Option<Window> {
    if s.len() == 0 {
        None
    } else {
        Some(s[0])
    }
}

/// The slot table: for each slot (the virtual-key code of its hotkey) the
/// windows bound to it. A slot that was never tracked, or was cleared, is absent.
pub struct Config {
    windows: HashMap<u32, WindowSet>,
}

impl View for Config {
    type V = Map<u32, Seq<Window>>;

    closed spec fn view(&self) -> Map<u32, Seq<Window>> {
        self.windows@.map_values(|ws: WindowSet| ws@)
    }
}

impl Config {
    /// Well-formed: every slot's windows have distinct handles.
    pub open spec fn wf(&self) -> bool {
        forall|vk: u32| #[trigger] self@.contains_key(vk) ==> unique_handles(self@[vk])
    }

    proof fn lemma_view_insert(m: Map<u32, WindowSet>, vk: u32, ws: WindowSet)
        ensures
            m.insert(vk, ws).map_values(|ws: WindowSet| ws@) == m.map_values(
                |ws: WindowSet| ws@,
            ).insert(vk, ws@),
    {
        assert(m.insert(vk, ws).map_values(|ws: WindowSet| ws@) =~= m.map_values(
            |ws: WindowSet| ws@,
        ).insert(vk, ws@));
    }

    /// A table with no slot tracked.
    pub fn new() -> (r: Config)
        ensures
            r@ == Map::<u32, Seq<Window>>::empty(),
            r.wf(),
    {
        let r = Config { windows: HashMap::new() };
        assert(r@ =~= Map::<u32, Seq<Window>>::empty());
        r
    }

    /// The windows of slot `vk`, to read or change in place; `None` where the
    /// slot is not tracked.
    pub fn get_windows(&mut self, vk: u32) -> (r: Option<&mut WindowSet>)
        requires
            old(self).wf(),
        ensures
            match r {
                Some(ws) => {
                    &&& old(self)@.contains_key(vk)
                    &&& ws@ == old(self)@[vk]
                    &&& ws.wf()
                    &&& final(self)@ == old(self)@.insert(vk, final(ws)@)
                    &&& final(ws).wf() ==> final(self).wf()
                },
                None => {
                    &&& !old(self)@.contains_key(vk)
                    &&& final(self)@ == old(self)@
                    &&& final(self).wf()
                },
            },
    {
        broadcast use vstd::std_specs::hash::group_hash_axioms;

        match self.windows.entry(vk) {
            Entry::Occupied(o) => {
                let ws = o.into_mut();
                proof {
                    Self::lemma_view_insert(old(self).windows@, vk, *final(ws));
                    assert(old(self)@.contains_key(vk));
                }
                Some(ws)
            },
            Entry::Vacant(_) => None,
        }
    }

    /// Binds `window` to slot `vk`, creating the slot if needed: the window
    /// becomes the slot's front, and any earlier entry with its handle goes.
    pub fn track_window(&mut self, vk: u32, window: Window)
        requires
            old(self).wf(),
        ensures
            final(self).wf(),
            final(self)@ == old(self)@.insert(vk, added(slot_windows(old(self)@, vk), window)),
    {
        broadcast use vstd::std_specs::hash::group_hash_axioms;

        let window_set = self.windows.entry(vk).or_insert(WindowSet::new());
        proof {
            assert(window_set@ == slot_windows(old(self)@, vk));
        }
        window_set.add(window);
        proof {
            Self::lemma_view_insert(old(self).windows@, vk, *window_set);
        }
    }

    /// Forgets slot `vk` and every window bound to it.
    pub fn clear_windows(&mut self, vk: u32)
        requires
            old(self).wf(),
        ensures
            final(self).wf(),
            final(self)@ == old(self)@.remove(vk),
    {
        broadcast use vstd::std_specs::hash::group_hash_axioms;

        self.windows.remove(&vk);
        assert(self@ =~= old(self)@.remove(vk));
    }

    /// The first step of a switch press on slot `vk`: rotates the slot once
    /// and returns its new front, the window to activate. `None`, with the
    /// table unchanged, where the slot is not tracked; `None` where it is empty.
    pub fn begin_switch(&mut self, vk: u32) -> (r: Option<Window>)
        requires
            old(self).wf(),
        ensures
            final(self).wf(),
            !old(self)@.contains_key(vk) ==> r is None && final(self)@ == old(self)@,
            old(self)@.contains_key(vk) ==> {
                &&& final(self)@ == old(self)@.insert(vk, rotate(old(self)@[vk]))
                &&& r == front(rotate(old(self)@[vk]))
            },
    {
        match self.get_windows(vk) {
            Some(window_set) => window_set.cycle(),
            None => None,
        }
    }

    /// The step after activating `window` failed on a switch press on slot
    /// `vk`: the stale window leaves the slot, which is rotated once more, and
    /// its new front is the next window to try. `None` once the slot is
    /// exhausted, and where it is not tracked (then nothing changes).
    pub fn skip_failed(&mut self, vk: u32, window: &Window) -> (r: Option<Window>)
        requires
            old(self).wf(),
        ensures
            final(self).wf(),
            !old(self)@.contains_key(vk) ==> r is None && final(self)@ == old(self)@,
            old(self)@.contains_key(vk) ==> {
                let rest = without_handle(old(self)@[vk], window.spec_hwnd());
                &&& final(self)@ == old(self)@.insert(vk, rotate(rest))
                &&& r == front(rotate(rest))
            },
    {
        match self.get_windows(vk) {
            Some(window_set) => {
                window_set.remove(window);
                window_set.cycle()
            },
            None => None,
        }
    }
}

/// What a run of `WindowSet::add` calls, one for each window of `ws` in
/// order, makes of `s`.
pub open spec fn after_adds(s: Seq<Window>, ws: Seq<Window>) -> Seq<Window>
    decreases ws.len(),
{
    if ws.len() == 0 {
        s
    } else {
        added(after_adds(s, ws.drop_last()), ws.last())
    }
}

proof fn lemma_added_unique(s: Seq<Window>, w: Window)
    requires
        unique_handles(s),
    ensures
        unique_handles(added(s, w)),
{
    broadcast use vstd::seq_lib::group_filter_ensures;

    let rest = without_handle(s, w.spec_hwnd());
    let t = added(s, w);
    lemma_without_handle_lacks(s, w.spec_hwnd());
    assert forall|a: int, b: int| 0 <= a < b < rest.len() implies #[trigger] rest[a].spec_hwnd()
        != #[trigger] rest[b].spec_hwnd() by {
        lemma_filter_unique(s, |x: Window| x.spec_hwnd() != w.spec_hwnd(), a, b);
    }
    assert forall|a: int, b: int| 0 <= a < b < t.len() implies #[trigger] t[a].spec_hwnd()
        != #[trigger] t[b].spec_hwnd() by {
        if a > 0 {
            assert(t[a] == rest[a - 1]);
        }
        assert(t[b] == rest[b - 1]);
    }
}

/// Filtering a sequence with distinct handles keeps them distinct.
proof fn lemma_filter_unique(s: Seq<Window>, pred: spec_fn(Window) -> bool, a: int, b: int)
    requires
        unique_handles(s),
        0 <= a < b < s.filter(pred).len(),
    ensures
        s.filter(pred)[a].spec_hwnd() != s.filter(pred)[b].spec_hwnd(),
    decreases s.len(),
{
    reveal(Seq::filter);
    let f = s.filter(pred);
    let sub = s.drop_last().filter(pred);
    assert(unique_handles(s.drop_last()));
    if pred(s.last()) {
        if b < f.len() - 1 {
            lemma_filter_unique(s.drop_last(), pred, a, b);
        } else {
            // f[a] lies in the filtered prefix, so it is an earlier window than the last
            broadcast use vstd::seq_lib::group_filter_ensures;

            assert(sub.contains(f[a]));
            s.drop_last().lemma_filter_contains_rev(pred, f[a]);
            let j = choose|j: int| 0 <= j < s.drop_last().len() && s.drop_last()[j] == f[a];
            assert(s[j] == f[a]);
            assert(s[s.len() - 1] == f[b]);
        }
    } else {
        lemma_filter_unique(s.drop_last(), pred, a, b);
    }
}

/// However the windows are added, starting from an empty set, no two
/// windows of the set ever share a handle.
pub proof fn lemma_adds_keep_handles_unique(ws: Seq<Window>)
    ensures
        unique_handles(after_adds(Seq::empty(), ws)),
    decreases ws.len(),
{
    if ws.len() > 0 {
        lemma_adds_keep_handles_unique(ws.drop_last());
        lemma_added_unique(after_adds(Seq::empty(), ws.drop_last()), ws.last());
    }
}

/// After `k` rotations of `n` windows (k at most n), the last `k` windows
/// stand in front, in their order.
proof fn lemma_rotate_n_split(s: Seq<Window>, k: nat)
    requires
        k <= s.len(),
    ensures
        rotate_n(s, k) == s.subrange(s.len() - k, s.len() as int) + s.subrange(
            0,
            s.len() - k,
        ),
    decreases k,
{
    let n = s.len() as int;
    if k == 0 {
        assert(s.subrange(n, n) + s.subrange(0, n) =~= s);
    } else {
        lemma_rotate_n_split(s, (k - 1) as nat);
        let prev = rotate_n(s, (k - 1) as nat);
        assert(prev.len() == n);
        assert(prev.last() == s[n - k]);
        assert(rotate_n(s, k) =~= s.subrange(n - k, n) + s.subrange(0, n - k));
    }
}

/// On a set of `n` windows (n at least 1), `cycle` called `n` times returns
/// each window exactly once: the k-th call returns the k-th window from the
/// back. After `n` calls the set is as it was, so the (n+1)-th call returns
/// the same window as the first.
pub proof fn lemma_cycle_visits_each_once(s: Seq<Window>)
    requires
        s.len() >= 1,
        unique_handles(s),
    ensures
        forall|k: nat| 1 <= k <= s.len() ==> #[trigger] front(rotate_n(s, k)) == Some(s[s.len() - k]),
        forall|k1: nat, k2: nat|
            1 <= k1 < k2 <= s.len() ==> #[trigger] rotate_n(s, k1)[0].spec_hwnd()
                != #[trigger] rotate_n(s, k2)[0].spec_hwnd(),
        forall|i: int|
            0 <= i < s.len() ==> #[trigger] front(rotate_n(s, (s.len() - i) as nat)) == Some(s[i]),
        rotate_n(s, s.len()) == s,
        front(rotate_n(s, s.len() + 1)) == front(rotate_n(s, 1)),
{
    let n = s.len();
    assert forall|k: nat| 1 <= k <= n implies #[trigger] front(rotate_n(s, k)) == Some(
        s[n - k],
    ) by {
        lemma_rotate_n_split(s, k);
    }
    assert forall|k1: nat, k2: nat| 1 <= k1 < k2 <= n implies #[trigger] rotate_n(
        s,
        k1,
    )[0].spec_hwnd() != #[trigger] rotate_n(s, k2)[0].spec_hwnd() by {
        assert(front(rotate_n(s, k1)) == Some(s[n - k1]));
        assert(front(rotate_n(s, k2)) == Some(s[n - k2]));
    }
    assert forall|i: int| 0 <= i < n implies #[trigger] front(rotate_n(s, (n - i) as nat)) == Some(
        s[i],
    ) by {
        assert(front(rotate_n(s, (n - i) as nat)) == Some(s[n - (n - i) as nat]));
    }
    lemma_rotate_n_split(s, n);
    assert(s.subrange(0, n as int) + s.subrange(0, 0) =~= s);
    assert(rotate_n(s, n + 1) == rotate(rotate_n(s, n)));
    assert(rotate_n(s, 1) == rotate(rotate_n(s, 0)));
}

/// Tracking a window on a slot that holds none, then cycling that slot,
/// returns the window.
pub proof fn lemma_track_then_cycle(m: Map<u32, Seq<Window>>, vk: u32, w: Window)
    requires
        slot_windows(m, vk).len() == 0,
    ensures
        front(rotate(m.insert(vk, added(slot_windows(m, vk), w))[vk])) == Some(w),
{
    broadcast use vstd::seq_lib::group_filter_ensures;

    let t = added(slot_windows(m, vk), w);
    assert(without_handle(slot_windows(m, vk), w.spec_hwnd()).len() == 0);
    assert(t =~= seq![w]);
    assert(rotate(t) =~= seq![w]);
}

/// When activating a window of a slot fails, the slot loses exactly that
/// window and keeps its others; so a switch press makes at most as many
/// activation attempts as the slot holds windows.
pub proof fn lemma_failed_window_leaves_slot(s: Seq<Window>, i: int)
    requires
        unique_handles(s),
        0 <= i < s.len(),
    ensures
        rotate(without_handle(s, s[i].spec_hwnd())).len() == s.len() - 1,
        !rotate(without_handle(s, s[i].spec_hwnd())).contains(s[i]),
        forall|j: int|
            0 <= j < s.len() && j != i ==> rotate(without_handle(s, s[i].spec_hwnd())).contains(
                #[trigger] s[j],
            ),
{
    lemma_without_handle_at(s, i);
    let rest = s.remove(i);
    lemma_remove_keeps_unique(s, i);
    lemma_without_handle_lacks(s, s[i].spec_hwnd());
    assert forall|j: int| 0 <= j < s.len() && j != i implies rotate(rest).contains(
        #[trigger] s[j],
    ) by {
        let k = if j < i { j } else { j - 1 };
        assert(rest[k] == s[j]);
        if k == rest.len() - 1 {
            assert(rotate(rest)[0] == s[j]);
        } else {
            assert(rotate(rest)[k + 1] == s[j]);
        }
    }
    if rotate(rest).contains(s[i]) {
        let k = choose|k: int| 0 <= k < rotate(rest).len() && rotate(rest)[k] == s[i];
        if k == 0 {
            assert(rest[rest.len() - 1] == s[i]);
        } else {
            assert(rest[k - 1] == s[i]);
        }
    }
}

/// After a slot is cleared it is not found, whatever it held.
pub proof fn lemma_clear_then_not_found(m: Map<u32, Seq<Window>>, vk: u32)
    ensures
        !m.remove(vk).contains_key(vk),
        slot_windows(m.remove(vk), vk) == Seq::<Window>::empty(),
{
}

} // verus!
