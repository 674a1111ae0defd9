use vstd::prelude::*;

verus! {

/// What the renderer keeps of one window apart from its context: the name
/// of the window's vertex array object, where the graphics API has them.
#[derive(PartialEq, Eq, Clone, Copy, Debug, Structural)]
pub struct WindowState {
    pub window: u64,
    pub vao: Option<u32>,
}

/// A window's slot: its state and, unless it is current, its context.
struct Slot<N> {
    window: u64,
    vao: Option<u32>,
    context: Option<N>,
}

/// The context that is current, and its window.
struct Current<P> {
    window: u64,
    context: P,
}

/// Why a switch of the current context failed.
#[derive(Debug)]
pub enum SwitchError<E> {
    /// No context is kept for that window.
    UnknownWindow,
    /// Making the window's context current failed; its context is lost and
    /// the window was dropped.
    Promote(E),
    /// Making the previous context not current failed; that context is lost
    /// and its window was dropped.
    Demote(E),
}

/// A context taken out of the set when its window is removed.
pub enum Removed<N, P> {
    /// The window was not in the set.
    Absent,
    /// The window's context was not current.
    NotCurrent(N),
    /// The window's context was current: it must be made not current before
    /// it is dropped.
    Current(P),
}

/// The rendering contexts of a set of windows, of which at most one is
/// current at a time.
///
/// A context that is not current is held as an `N`, the current one as a
/// `P`; the caller supplies the graphics layer's transitions between the two.
/// Each window appears once, and a window's context is held either as the
/// current one or in its slot, never both.
#[verifier::reject_recursive_types(N)]
#[verifier::reject_recursive_types(P)]
pub struct WindowContexts<N, P> {
    slots: Vec<Slot<N>>,
    current: Option<Current<P>>,
}

/// Whether `states` holds a window `w`.
pub open spec fn has_window(states: Seq<WindowState>, w: u64) -> bool {
    exists|i: int| 0 <= i < states.len() && states[i].window == w
}

/// The position of window `w` in `states`.
pub open spec fn window_index(states: Seq<WindowState>, w: u64) -> int {
    choose|i: int| 0 <= i < states.len() && states[i].window == w
}

/// Whether no window appears twice in `states`.
pub open spec fn unique_windows(states: Seq<WindowState>) -> bool {
    forall|i: int, j: int|
        0 <= i < states.len() && 0 <= j < states.len() && i != j ==> states[i].window
            != states[j].window
}

/// The position of a window of `states` is where that window is.
pub proof fn lemma_window_index(states: Seq<WindowState>, w: u64, i: int)
    requires
        unique_windows(states),
        0 <= i < states.len(),
        states[i].window == w,
    ensures
        window_index(states, w) == i,
{
}

/// `after` is `before` once the context of `window` was made current: the
/// same windows with the same state, `window` current.
pub open spec fn switched<N, P>(
    before: WindowContexts<N, P>,
    after: WindowContexts<N, P>,
    window: u64,
) -> bool {
    &&& after.wf()
    &&& after.states() == before.states()
    &&& after.current_window() == Some(window)
}

/// Rendering to window `b` and then to window `a` again leaves every
/// window's state as it was: `a` finds its vertex array object again, and
/// nothing of it was created anew or taken by `b`.
pub proof fn lemma_switch_isolation<N, P>(
    s0: WindowContexts<N, P>,
    s1: WindowContexts<N, P>,
    s2: WindowContexts<N, P>,
    a: u64,
    b: u64,
)
    requires
        s0.wf(),
        has_window(s0.states(), a),
        has_window(s0.states(), b),
        switched(s0, s1, b),
        switched(s1, s2, a),
    ensures
        s2.states() == s0.states(),
        s2.current_window() == Some(a),
        s2.states()[window_index(s2.states(), a)] == s0.states()[window_index(s0.states(), a)],
        s2.states()[window_index(s2.states(), b)] == s0.states()[window_index(s0.states(), b)],
{
}

impl<N, P> WindowContexts<N, P> {
    /// The state of each window, in the order in which they were added.
    pub closed spec fn states(&self) -> Seq<WindowState> {
        self.slots@.map_values(|s: Slot<N>| WindowState { window: s.window, vao: s.vao })
    }

    /// The window whose context is current.
    pub closed spec fn current_window(&self) -> Option<u64> {
        match self.current {
            Some(c) => Some(c.window),
            None => None,
        }
    }

    /// The current context.
    pub closed spec fn current_context(&self) -> Option<P> {
        match self.current {
            Some(c) => Some(c.context),
            None => None,
        }
    }

    /// Each window once; the current window is one of them, and exactly its
    /// slot holds no context.
    pub closed spec fn wf(&self) -> bool {
        &&& unique_windows(self.states())
        &&& forall|i: int|
            0 <= i < self.slots@.len() ==> (#[trigger] self.slots@[i].context is None <==> (
            self.current matches Some(c) && c.window == self.slots@[i].window))
        &&& self.current matches Some(c) ==> has_window(self.states(), c.window)
    }

    /// No window.
    pub fn new() -> (r: Self)
        ensures
            r.wf(),
            r.states() == Seq::<WindowState>::empty(),
            r.current_window() is None,
    {
        let r = WindowContexts { slots: Vec::new(), current: None };
        proof {
            assert(r.states() =~= Seq::<WindowState>::empty());
        }
        r
    }

    /// Drops every context: afterwards there is no window.
    pub fn clear(&mut self)
        ensures
            final(self).wf(),
            final(self).states() == Seq::<WindowState>::empty(),
            final(self).current_window() is None,
    {
        self.slots = Vec::new();
        self.current = None;
        proof {
            assert(self.states() =~= Seq::<WindowState>::empty());
        }
    }

    /// Drops every context and keeps only `window`, whose context `context`
    /// is current.
    pub fn reset(&mut self, window: u64, context: P, vao: Option<u32>)
        ensures
            final(self).wf(),
            final(self).states() == seq![WindowState { window, vao }],
            final(self).current_window() == Some(window),
            final(self).current_context() == Some(context),
    {
        let mut slots: Vec<Slot<N>> = Vec::new();
        slots.push(Slot { window, vao, context: None });
        self.slots = slots;
        self.current = Some(Current { window, context });
        proof {
            assert(self.states() =~= seq![WindowState { window, vao }]);
            assert(self.states()[0].window == window);
        }
    }

    /// The number of windows.
    pub fn len(&self) -> (r: usize)
        ensures
            r == self.states().len(),
    {
        self.slots.len()
    }

    /// The position of `window`, if it is in the set.
    fn find(&self, window: u64) -> (r: Option<usize>)
        ensures
            match r {
                Some(i) => i < self.states().len() && self.states()[i as int].window == window,
                None => !has_window(self.states(), window),
            },
    {
        let mut k: usize = 0;
        while k < self.slots.len()
            invariant
                k <= self.slots@.len(),
                forall|j: int| 0 <= j < k ==> self.slots@[j].window != window,
            decreases self.slots@.len() - k,
        {
            if self.slots[k].window == window {
                return Some(k);
            }
            k += 1;
        }
        proof {
            if has_window(self.states(), window) {
                let j = choose|j: int|
                    0 <= j < self.states().len() && self.states()[j].window == window;
                assert(self.slots@[j].window == window);
            }
        }
        None
    }

    /// Whether `window` is in the set.
    pub fn contains(&self, window: u64) -> (r: bool)
        ensures
            r == has_window(self.states(), window),
    {
        self.find(window).is_some()
    }

    /// The window whose context is current.
    pub fn current_window_id(&self) -> (r: Option<u64>)
        ensures
            r == self.current_window(),
    {
        match &self.current {
            Some(c) => Some(c.window),
            None => None,
        }
    }

    /// The current context.
    pub fn current(&self) -> (r: Option<&P>)
        ensures
            match r {
                Some(p) => self.current_context() == Some(*p),
                None => self.current_context() is None,
            },
    {
        match &self.current {
            Some(c) => Some(&c.context),
            None => None,
        }
    }

    /// Replaces the context held in slot `i`, returning the one it held.
    fn swap_slot_context(&mut self, i: usize, context: Option<N>) -> (r: Option<N>)
        requires
            i < old(self).slots@.len(),
        ensures
            r == old(self).slots@[i as int].context,
            final(self).slots@ == old(self).slots@.update(
                i as int,
                Slot { context, ..old(self).slots@[i as int] },
            ),
            final(self).current == old(self).current,
            final(self).states() == old(self).states(),
    {
        let mut slot = self.slots.remove(i);
        let r = slot.context.take();
        slot.context = context;
        self.slots.insert(i, slot);
        proof {
            assert(self.slots@ =~= old(self).slots@.update(
                i as int,
                Slot { context, ..old(self).slots@[i as int] },
            ));
            assert(self.states() =~= old(self).states());
        }
        r
    }

    /// Removes slot `i`, returning it.
    fn remove_slot(&mut self, i: usize) -> (r: Slot<N>)
        requires
            i < old(self).slots@.len(),
            unique_windows(old(self).states()),
        ensures
            r == old(self).slots@[i as int],
            final(self).slots@ == old(self).slots@.remove(i as int),
            final(self).states() == old(self).states().remove(i as int),
            unique_windows(final(self).states()),
            !has_window(final(self).states(), r.window),
            forall|w: u64| w != r.window ==> (has_window(final(self).states(), w)
                <==> has_window(old(self).states(), w)),
            final(self).current == old(self).current,
    {
        let r = self.slots.remove(i);
        proof {
            let o = old(self).states();
            assert(self.states() =~= o.remove(i as int));
            let s = self.states();
            assert forall|w: u64| w != r.window implies (has_window(s, w) <==> has_window(o, w)) by {
                if has_window(o, w) {
                    let k = choose|k: int| 0 <= k < o.len() && o[k].window == w;
                    if k < i {
                        assert(s[k].window == w);
                    } else {
                        assert(k != i);
                        assert(s[k - 1].window == w);
                    }
                }
                if has_window(s, w) {
                    let k = choose|k: int| 0 <= k < s.len() && s[k].window == w;
                    if k < i {
                        assert(o[k].window == w);
                    } else {
                        assert(o[k + 1].window == w);
                    }
                }
            }
            assert(o[i as int].window == r.window);
            if has_window(s, r.window) {
                let k = choose|k: int| 0 <= k < s.len() && s[k].window == r.window;
                if k < i {
                    assert(o[k].window == r.window);
                } else {
                    assert(o[k + 1].window == r.window);
                }
            }
        }
        r
    }

    /// Adds `window` with its context, not current. Where the window is in
    /// the set already, nothing changes and the context is handed back.
    pub fn add_window(&mut self, window: u64, context: N) -> (r: Result<(), N>)
        requires
            old(self).wf(),
        ensures
            final(self).wf(),
            final(self).current_window() == old(self).current_window(),
            final(self).current_context() == old(self).current_context(),
            r is Err <==> has_window(old(self).states(), window),
            r matches Err(c) ==> c == context && final(self).states() == old(self).states(),
            r is Ok ==> final(self).states() == old(self).states().push(
                WindowState { window, vao: None },
            ),
    {
        if self.contains(window) {
            return Err(context);
        }
        self.slots.push(Slot { window, vao: None, context: Some(context) });
        proof {
            let o = old(self).states();
            assert(self.states() =~= o.push(WindowState { window, vao: None }));
            let s = self.states();
            assert forall|k: int| 0 <= k < self.slots@.len() implies (
            #[trigger] self.slots@[k].context is None <==> (self.current matches Some(c)
                && c.window == self.slots@[k].window)) by {
                if k < o.len() {
                    assert(self.slots@[k] == old(self).slots@[k]);
                } else {
                    if self.current_window() is Some {
                        let cw = self.current_window()->0;
                        let j = choose|j: int| 0 <= j < o.len() && o[j].window == cw;
                        assert(s[j].window == cw);
                    }
                }
            }
            if self.current_window() is Some {
                let cw = self.current_window()->0;
                let j = choose|j: int| 0 <= j < o.len() && o[j].window == cw;
                assert(s[j].window == cw);
            }
        }
        Ok(())
    }

    /// Removes `window` and hands back its context, current or not.
    pub fn remove_window(&mut self, window: u64) -> (r: Removed<N, P>)
        requires
            old(self).wf(),
        ensures
            final(self).wf(),
            !has_window(final(self).states(), window),
            !has_window(old(self).states(), window) ==> {
                &&& r is Absent
                &&& final(self).states() == old(self).states()
            },
            has_window(old(self).states(), window) ==> final(self).states() == old(self).states().remove(
                window_index(old(self).states(), window),
            ),
            old(self).current_window() == Some(window) ==> {
                &&& r matches Removed::Current(p)
                &&& old(self).current_context() == Some(p)
                &&& final(self).current_window() is None
            },
            old(self).current_window() != Some(window) ==> {
                &&& final(self).current_window() == old(self).current_window()
                &&& final(self).current_context() == old(self).current_context()
            },
            old(self).current_window() != Some(window) && has_window(old(self).states(), window)
                ==> r is NotCurrent,
    {
        let i = match self.find(window) {
            Some(i) => i,
            None => {
                return Removed::Absent;
            },
        };
        proof {
            lemma_window_index(self.states(), window, i as int);
        }
        let ghost s0 = self.slots@;
        let ghost st0 = self.states();
        let slot = self.remove_slot(i);
        let is_current = match &self.current {
            Some(c) => c.window == window,
            None => false,
        };
        if is_current {
            let c = self.current.take().unwrap();
            proof {
                assert forall|k: int| 0 <= k < self.slots@.len() implies (
                #[trigger] self.slots@[k].context is None <==> (self.current matches Some(c)
                    && c.window == self.slots@[k].window)) by {
                    let kk = if k < i { k } else { k + 1 };
                    assert(self.slots@[k] == s0[kk]);
                    assert(st0[kk].window == s0[kk].window);
                    assert(st0[i as int].window == window);
                    assert(s0[kk].window != window);
                }
            }
            Removed::Current(c.context)
        } else {
            proof {
                assert(s0[i as int].context is Some);
                assert forall|k: int| 0 <= k < self.slots@.len() implies (
                #[trigger] self.slots@[k].context is None <==> (self.current matches Some(c)
                    && c.window == self.slots@[k].window)) by {
                    let kk = if k < i { k } else { k + 1 };
                    assert(self.slots@[k] == s0[kk]);
                }
            }
            Removed::NotCurrent(slot.context.unwrap())
        }
    }

    /// The vertex array object of the current window.
    pub fn current_vao(&self) -> (r: Option<u32>)
        requires
            self.wf(),
        ensures
            match self.current_window() {
                Some(w) => r == self.states()[window_index(self.states(), w)].vao,
                None => r is None,
            },
    {
        match &self.current {
            Some(c) => {
                let i = self.find(c.window).unwrap();
                proof {
                    lemma_window_index(self.states(), c.window, i as int);
                }
                self.slots[i].vao
            },
            None => None,
        }
    }

    /// Sets the vertex array object of the current window.
    pub fn set_current_vao(&mut self, vao: Option<u32>)
        requires
            old(self).wf(),
        ensures
            final(self).wf(),
            final(self).current_window() == old(self).current_window(),
            final(self).current_context() == old(self).current_context(),
            match old(self).current_window() {
                Some(w) => final(self).states() == old(self).states().update(
                    window_index(old(self).states(), w),
                    WindowState { window: w, vao },
                ),
                None => final(self).states() == old(self).states(),
            },
    {
        let w = match &self.current {
            Some(c) => c.window,
            None => {
                return ;
            },
        };
        let i = self.find(w).unwrap();
        proof {
            lemma_window_index(self.states(), w, i as int);
        }
        let mut slot = self.slots.remove(i);
        slot.vao = vao;
        self.slots.insert(i, slot);
        proof {
            let o = old(self).states();
            assert(self.states() =~= o.update(i as int, WindowState { window: w, vao }));
            assert(self.slots@ =~= old(self).slots@.update(i as int, slot));
            let s = self.states();
            assert forall|a: int, b: int| 0 <= a < s.len() && 0 <= b < s.len() && a != b implies s[a].window
                != s[b].window by {
                assert(s[a].window == o[a].window);
                assert(s[b].window == o[b].window);
            }
            assert(s[i as int].window == w);
        }
    }

    /// Makes the context of `window` the current one.
    ///
    /// Nothing is done where it is current already. Else its context is
    /// taken out of its slot and handed to `promote`, which makes it current;
    /// then the previous current context, if any, is handed to `demote`,
    /// which makes it not current, and is put back in its slot. Where either
    /// transition fails, the context that it was handed is lost and its
    /// window leaves the set.
    pub fn make_current<E, F, G>(&mut self, window: u64, promote: F, demote: G) -> (r: Result<
        (),
        SwitchError<E>,
    >) where F: FnOnce(N) -> Result<P, E>, G: FnOnce(P) -> Result<N, E>
        requires
            old(self).wf(),
            forall|n: N| promote.requires((n,)),
            forall|p: P| demote.requires((p,)),
        ensures
            final(self).wf(),
            !has_window(old(self).states(), window) ==> {
                &&& r matches Err(SwitchError::UnknownWindow)
                &&& final(self).states() == old(self).states()
                &&& final(self).current_window() == old(self).current_window()
                &&& final(self).current_context() == old(self).current_context()
            },
            old(self).current_window() == Some(window) ==> {
                &&& r is Ok
                &&& final(self).states() == old(self).states()
                &&& final(self).current_window() == old(self).current_window()
                &&& final(self).current_context() == old(self).current_context()
            },
            has_window(old(self).states(), window) && old(self).current_window() != Some(window)
                ==> match r {
                Ok(_) => switched(*old(self), *final(self), window),
                Err(SwitchError::Promote(_)) => {
                    &&& final(self).states() == old(self).states().remove(
                        window_index(old(self).states(), window),
                    )
                    &&& final(self).current_window() == old(self).current_window()
                    &&& final(self).current_context() == old(self).current_context()
                },
                Err(SwitchError::Demote(_)) => {
                    &&& old(self).current_window() is Some
                    &&& final(self).states() == old(self).states().remove(
                        window_index(old(self).states(), old(self).current_window()->0),
                    )
                    &&& final(self).current_window() == Some(window)
                },
                Err(SwitchError::UnknownWindow) => false,
            },
    {
        let already = match &self.current {
            Some(c) => c.window == window,
            None => false,
        };
        if already {
            return Ok(());
        }
        let i = match self.find(window) {
            Some(i) => i,
            None => {
                return Err(SwitchError::UnknownWindow);
            },
        };
        proof {
            lemma_window_index(self.states(), window, i as int);
            assert(self.slots@[i as int].context is Some);
        }
        let ghost s0 = self.slots@;
        let ghost st0 = self.states();
        let taken = self.swap_slot_context(i, None);
        let n = taken.unwrap();
        match promote(n) {
            Err(e) => {
                let ghost s1 = self.slots@;
                self.remove_slot(i);
                proof {
                    assert forall|k: int| 0 <= k < self.slots@.len() implies (
                    #[trigger] self.slots@[k].context is None <==> (self.current matches Some(c)
                        && c.window == self.slots@[k].window)) by {
                        let kk = if k < i { k } else { k + 1 };
                        assert(self.slots@[k] == s1[kk]);
                        assert(s1[kk] == s0[kk]);
                    }
                    if self.current_window() is Some {
                        let cw = self.current_window()->0;
                        assert(cw != window);
                        assert(has_window(st0, cw));
                    }
                }
                Err(SwitchError::Promote(e))
            },
            Ok(p) => {
                let prev = self.current.take();
                self.current = Some(Current { window, context: p });
                let ghost s1 = self.slots@;
                match prev {
                    None => {
                        proof {
                            assert forall|k: int| 0 <= k < self.slots@.len() implies (
                            #[trigger] self.slots@[k].context is None <==> (
                            self.current matches Some(c) && c.window == self.slots@[k].window)) by {
                                if k != i {
                                    assert(s1[k] == s0[k]);
                                    assert(st0[k].window != window);
                                }
                            }
                            assert(st0[i as int].window == window);
                        }
                        Ok(())
                    },
                    Some(prev) => {
                        let pw = prev.window;
                        let j = self.find(pw).unwrap();
                        proof {
                            lemma_window_index(st0, pw, j as int);
                            assert(pw != window);
                            assert(j != i);
                        }
                        match demote(prev.context) {
                            Ok(nc) => {
                                self.swap_slot_context(j, Some(nc));
                                proof {
                                    assert forall|k: int| 0 <= k < self.slots@.len() implies (
                                    #[trigger] self.slots@[k].context is None <==> (
                                    self.current matches Some(c) && c.window
                                        == self.slots@[k].window)) by {
                                        if k != i && k != j {
                                            assert(self.slots@[k] == s0[k]);
                                            assert(st0[k].window != window);
                                            assert(st0[k].window != pw);
                                        }
                                    }
                                    assert(st0[i as int].window == window);
                                }
                                Ok(())
                            },
                            Err(e) => {
                                self.remove_slot(j);
                                proof {
                                    assert forall|k: int| 0 <= k < self.slots@.len() implies (
                                    #[trigger] self.slots@[k].context is None <==> (
                                    self.current matches Some(c) && c.window
                                        == self.slots@[k].window)) by {
                                        let kk = if k < j { k } else { k + 1 };
                                        assert(self.slots@[k] == s1[kk]);
                                        if kk != i {
                                            assert(s1[kk] == s0[kk]);
                                            assert(st0[kk].window != window);
                                            assert(st0[kk].window != pw);
                                        }
                                    }
                                    assert(has_window(st0, window));
                                    assert(window != pw);
                                }
                                Err(SwitchError::Demote(e))
                            },
                        }
                    },
                }
            },
        }
    }
}

} // verus!
