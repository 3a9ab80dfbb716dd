use vstd::prelude::*;

verus! {

/// The element a peek returns when the cursor stands at depth `k`: the
/// `k`-th element below the tail of the stack, or nothing once the cursor
/// has run past the bottom.
pub open spec fn peek_result<A>(s: Seq<A>, k: nat) -> Option<A> {
    if k < s.len() {
        Some(s[s.len() - 1 - k])
    } else {
        None
    }
}

/// The results of `k` successive peeks starting with the cursor at `start`.
pub open spec fn peek_run<A>(s: Seq<A>, start: nat, k: nat) -> Seq<Option<A>>
    decreases k,
{
    if k == 0 {
        Seq::empty()
    } else {
        seq![peek_result(s, start)] + peek_run(s, start + 1, (k - 1) as nat)
    }
}

/// A run of peeks is nothing but the stack read backward from the starting
/// depth: the `i`-th peek of a run begun at depth `start` returns the element
/// at depth `start + i`. Two runs over an unmodified stack that begin at the
/// same depth — in particular, any two runs begun right after a reset —
/// therefore return the same results, position by position.
pub proof fn lemma_peek_run_replays<A>(s: Seq<A>, start: nat, k: nat)
    ensures
        peek_run(s, start, k).len() == k,
        forall|i: int|
            0 <= i < k ==> #[trigger] peek_run(s, start, k)[i] == peek_result(
                s,
                (start + i) as nat,
            ),
    decreases k,
{
    if k > 0 {
        lemma_peek_run_replays(s, start + 1, (k - 1) as nat);
    }
}

/// A stack that can be read backward from its tail, a step deeper with
/// every peek, without being modified: the read cursor lives beside the
/// stack and only `reset` moves it back to the tail.
pub struct Boo<T> {
    vec: Vec<T>,
    peeked: usize,
}

impl<T: DeepView> View for Boo<T> {
    type V = Seq<T::V>;

    closed spec fn view(&self) -> Seq<T::V> {
        self.vec.deep_view()
    }
}

impl<T: DeepView> Boo<T> {
    /// The current depth of the read cursor.
    pub closed spec fn spec_peeked(&self) -> usize {
        self.peeked
    }

    /// The current depth of the read cursor.
    pub fn peeked(&self) -> (r: usize)
        ensures
            r == self.spec_peeked(),
    {
        self.peeked
    }

    /// Moves the read cursor one step deeper.
    pub fn incr(&mut self)
        requires
            old(self).spec_peeked() < usize::MAX,
        ensures
            final(self)@ == old(self)@,
            final(self).spec_peeked() == old(self).spec_peeked() + 1,
    {
        self.peeked = self.peeked + 1;
    }

    /// Moves the read cursor back to the tail of the stack.
    pub fn reset(&mut self)
        ensures
            final(self)@ == old(self)@,
            final(self).spec_peeked() == 0,
    {
        self.peeked = 0;
    }

    /// The number of elements on the stack.
    pub fn len(&self) -> (r: usize)
        ensures
            r == self@.len(),
    {
        self.vec.len()
    }

    /// Whether the stack is empty.
    pub fn is_empty(&self) -> (r: bool)
        ensures
            r == (self@.len() == 0),
    {
        self.vec.len() == 0
    }

    /// The element at `index`, counted from the bottom of the stack.
    pub fn get(&self, index: usize) -> (r: Option<&T>)
        ensures
            match r {
                Some(t) => index < self@.len() && t.deep_view() == self@[index as int],
                None => index >= self@.len(),
            },
    {
        if index < self.vec.len() {
            Some(&self.vec[index])
        } else {
            None
        }
    }

    /// The tail element, untouched by the read cursor.
    pub fn last(&self) -> (r: Option<&T>)
        ensures
            match r {
                Some(t) => self@.len() > 0 && t.deep_view() == self@.last(),
                None => self@.len() == 0,
            },
    {
        if self.vec.len() > 0 {
            self.get(self.vec.len() - 1)
        } else {
            None
        }
    }

    /// Reads the element at the cursor's depth below the tail — or nothing,
    /// once the cursor has passed the bottom of the stack — and moves the
    /// cursor one step deeper. The stack itself is untouched.
    pub fn peek(&mut self) -> (r: Option<&T>)
        requires
            old(self).spec_peeked() < usize::MAX,
        ensures
            final(self)@ == old(self)@,
            final(self).spec_peeked() == old(self).spec_peeked() + 1,
            match r {
                Some(t) => peek_result(old(self)@, old(self).spec_peeked() as nat) == Some(
                    t.deep_view(),
                ),
                None => peek_result(old(self)@, old(self).spec_peeked() as nat) is None,
            },
    {
        let peeked = self.peeked;
        self.incr();
        if peeked >= self.vec.len() {
            None
        } else {
            self.get(self.vec.len() - peeked - 1)
        }
    }

    /// Pushes an element on the tail of the stack.
    pub fn push(&mut self, value: T)
        ensures
            final(self)@ == old(self)@.push(value.deep_view()),
            final(self).spec_peeked() == old(self).spec_peeked(),
    {
        self.vec.push(value);
        proof {
            assert(self.vec.deep_view() =~= old(self).vec.deep_view().push(value.deep_view()));
        }
    }

    /// Removes and returns the tail element, if there is one.
    pub fn pop(&mut self) -> (r: Option<T>)
        ensures
            final(self).spec_peeked() == old(self).spec_peeked(),
            match r {
                Some(t) => old(self)@.len() > 0 && t.deep_view() == old(self)@.last()
                    && final(self)@ == old(self)@.drop_last(),
                None => old(self)@.len() == 0 && final(self)@ == old(self)@,
            },
    {
        let r = self.vec.pop();
        proof {
            if old(self).vec@.len() > 0 {
                assert(self.vec.deep_view() =~= old(self).vec.deep_view().drop_last());
            } else {
                assert(self.vec.deep_view() =~= old(self).vec.deep_view());
            }
        }
        r
    }
}

impl<T: DeepView> Default for Boo<T> {
    /// An empty stack with the cursor at the tail.
    fn default() -> (r: Boo<T>)
        ensures
            r@ == Seq::<T::V>::empty(),
            r.spec_peeked() == 0,
    {
        let r = Boo { vec: Vec::new(), peeked: 0 };
        proof {
            assert(r.vec.deep_view() =~= Seq::<T::V>::empty());
        }
        r
    }
}

impl<T: DeepView> From<Vec<T>> for Boo<T> {
    /// A stack holding the elements of `value`, its tail the last element,
    /// with the cursor at the tail.
    fn from(value: Vec<T>) -> (r: Boo<T>) {
        Boo { vec: value, peeked: 0 }
    }
}

impl<T: DeepView> vstd::std_specs::convert::FromSpecImpl<Vec<T>> for Boo<T> {
    open spec fn obeys_from_spec() -> bool {
        true
    }

    closed spec fn from_spec(value: Vec<T>) -> Boo<T> {
        Boo { vec: value, peeked: 0 }
    }
}

} // verus!
