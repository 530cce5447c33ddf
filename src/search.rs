use vstd::prelude::*;

verus! {

/// An event sent by the search popup.
#[derive(Debug)]
pub enum PopupMsg {
    /// The popup opens: it wants a fresh list of window titles.
    Show,
    /// The query changed; `None` when it was cleared.
    Search(Option<String>),
    /// An entry was chosen.
    Accept(String),
}

/// The text of each string of `v`.
pub open spec fn texts_of(v: Seq<String>) -> Seq<Seq<char>> {
    v.map_values(|t: String| t@)
}

/// The window titles gathered for the popup's current interaction, in the
/// order the windows were listed.
pub struct SearchSession {
    titles: Vec<String>,
}

impl View for SearchSession {
    type V = Seq<Seq<char>>;

    closed spec fn view(&self) -> Seq<Seq<char>> {
        texts_of(self.titles@)
    }
}

impl SearchSession {
    pub fn new() -> (r: SearchSession)
        ensures
            r@ == Seq::<Seq<char>>::empty(),
    {
        let r = SearchSession { titles: Vec::new() };
        assert(r@ =~= Seq::<Seq<char>>::empty());
        r
    }

    /// Takes one popup event. A `Show` starts a new interaction: the titles
    /// are dropped and `true` says that they are to be gathered again.
    /// Other events leave the session as it is.
    pub fn on_popup_msg(&mut self, msg: &PopupMsg) -> (r: bool)
        ensures
            r == (msg is Show),
            r ==> final(self)@ == Seq::<Seq<char>>::empty(),
            !r ==> final(self)@ == old(self)@,
    {
        match msg {
            PopupMsg::Show => {
                self.titles.clear();
                assert(self@ =~= Seq::<Seq<char>>::empty());
                true
            },
            _ => false,
        }
    }

    /// Records the title of one listed window; an empty title is skipped.
    /// Returns whether it was kept.
    pub fn record_title(&mut self, title: String) -> (r: bool)
        ensures
            r == (title@.len() > 0),
            r ==> final(self)@ == old(self)@.push(title@),
            !r ==> final(self)@ == old(self)@,
    {
        if title.as_str().is_empty() {
            false
        } else {
            let ghost t = title@;
            self.titles.push(title);
            assert(self@ =~= old(self)@.push(t));
            true
        }
    }

    /// The first `n` titles, or all of them where there are fewer.
    pub fn preview(&self, n: usize) -> (r: Vec<String>)
        ensures
            texts_of(r@) == self@.take(
                if n < self@.len() {
                    n as int
                } else {
                    self@.len() as int
                },
            ),
    {
        let m = if n < self.titles.len() {
            n
        } else {
            self.titles.len()
        };
        let mut r: Vec<String> = Vec::new();
        let mut i: usize = 0;
        while i < m
            invariant
                m <= self.titles@.len(),
                0 <= i <= m,
                r@.len() == i,
                texts_of(r@) == self@.take(i as int),
            decreases m - i,
        {
            let t = self.titles[i].clone();
            r.push(t);
            assert(texts_of(r@)[i as int] == self@[i as int]);
            assert(texts_of(r@) =~= self@.take(i + 1));
            i = i + 1;
        }
        r
    }
}

} // verus!
