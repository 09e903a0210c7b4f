//! The playlist queue: an ordered sequence of track locators with a cursor
//! and two independent repeat modes.  It is owned by the player control loop
//! and never touched concurrently, so it carries no synchronisation of its
//! own; its whole interest lies in the advancement policy of `move_next`.

use std::collections::VecDeque;
use vstd::prelude::*;

use crate::playlist;

verus! {

/// Mathematical model of a queue: the locators it holds (as character
/// sequences), the cursor, and the two repeat flags.
#[verifier::ext_equal]
pub ghost struct QueueView {
    pub entries: Seq<Seq<char>>,
    pub cursor: nat,
    pub loop_current: bool,
    pub loop_all: bool,
}

impl QueueView {
    /// The state a fresh or cleared queue is in.
    pub open spec fn empty() -> QueueView {
        QueueView { entries: Seq::empty(), cursor: 0, loop_current: false, loop_all: false }
    }

    /// The cursor never runs further than one past the last entry.
    pub open spec fn wf(self) -> bool {
        self.cursor <= self.entries.len()
    }

    /// The locator under the cursor, or `None` when the cursor points past
    /// the end (in particular when the queue is empty).
    pub open spec fn peek(self) -> Option<Seq<char>> {
        if self.cursor < self.entries.len() {
            Some(self.entries[self.cursor as int])
        } else {
            None
        }
    }

    /// One entry appended at the back; cursor and flags untouched.
    pub open spec fn appended(self, entry: Seq<char>) -> QueueView {
        QueueView { entries: self.entries.push(entry), ..self }
    }

    /// Several entries appended at the back; cursor and flags untouched.
    pub open spec fn extended(self, entries: Seq<Seq<char>>) -> QueueView {
        QueueView { entries: self.entries + entries, ..self }
    }

    /// The entry under the cursor removed, when the cursor is in range;
    /// cursor and flags untouched.
    pub open spec fn dropped_current(self) -> QueueView {
        if self.cursor < self.entries.len() {
            QueueView { entries: self.entries.remove(self.cursor as int), ..self }
        } else {
            self
        }
    }

    /// The advancement policy.  `loop_current` freezes the queue entirely;
    /// otherwise `loop_all` treats the entries as a fixed ring and moves the
    /// cursor one step with wrap-around; with no repeat flag the entry under
    /// the cursor is consumed and the cursor is reset to the front if it now
    /// runs past the end.
    pub open spec fn stepped(self) -> QueueView {
        if self.loop_current {
            self
        } else if self.loop_all {
            let cursor = if self.cursor + 1 >= self.entries.len() { 0 } else { self.cursor + 1 };
            QueueView { cursor: cursor as nat, ..self }
        } else {
            let entries = if self.cursor < self.entries.len() {
                self.entries.remove(self.cursor as int)
            } else {
                self.entries
            };
            let cursor = if self.cursor >= entries.len() { 0 } else { self.cursor };
            QueueView { entries, cursor: cursor as nat, ..self }
        }
    }
}

/// The queue itself: a deque of locators, the cursor, and the repeat flags.
pub struct Queue {
    deque: VecDeque<String>,
    index: usize,
    loop_curr: bool,
    loop_all: bool,
}

impl View for Queue {
    type V = QueueView;

    closed spec fn view(&self) -> QueueView {
        QueueView {
            entries: self.deque@.map_values(|s: String| s@),
            cursor: self.index as nat,
            loop_current: self.loop_curr,
            loop_all: self.loop_all,
        }
    }
}

impl Queue {
    pub fn new() -> (q: Queue)
        ensures
            q@ == QueueView::empty(),
    {
        let q = Queue { deque: VecDeque::new(), index: 0, loop_curr: false, loop_all: false };
        proof {
            assert(q@ =~= QueueView::empty());
        }
        q
    }

    pub fn peek(&self) -> (r: Option<String>)
        ensures
            match r {
                Some(s) => self@.peek() == Some(s@),
                None => self@.peek() is None,
            },
    {
        if self.index < self.deque.len() {
            Some(self.deque[self.index].clone())
        } else {
            None
        }
    }

    /// Removes the entry under the cursor (used when a track fails to open
    /// or decode); flags and cursor stay as they are.
    pub fn remove_curr(&mut self)
        ensures
            final(self)@ == old(self)@.dropped_current(),
    {
        let _removed = self.deque.remove(self.index);
        proof {
            assert(self@.entries =~= old(self)@.dropped_current().entries);
            assert(self@ =~= old(self)@.dropped_current());
        }
    }

    pub fn is_empty(&self) -> (r: bool)
        ensures
            r == (self@.entries.len() == 0),
    {
        self.deque.len() == 0
    }

    pub fn len(&self) -> (n: usize)
        ensures
            n == self@.entries.len(),
    {
        self.deque.len()
    }

    /// Empties the queue, resets the cursor and clears both repeat flags.
    pub fn clear(&mut self)
        ensures
            final(self)@ == QueueView::empty(),
    {
        self.deque.clear();
        self.index = 0;
        self.loop_curr = false;
        self.loop_all = false;
        proof {
            assert(self@ =~= QueueView::empty());
        }
    }

    /// Pushes one locator to the back; the cursor does not move.
    pub fn append(&mut self, item: String)
        ensures
            final(self)@ == old(self)@.appended(item@),
    {
        self.deque.push_back(item);
        proof {
            assert(self@.entries =~= old(self)@.appended(item@).entries);
            assert(self@ =~= old(self)@.appended(item@));
        }
    }

    /// Toggles the `loop_current` flag.
    pub fn loop_song(&mut self)
        ensures
            final(self)@ == (QueueView { loop_current: !old(self)@.loop_current, ..old(self)@ }),
    {
        self.loop_curr = !self.loop_curr;
    }

    /// Toggles the `loop_all` flag.
    pub fn loop_queue(&mut self)
        ensures
            final(self)@ == (QueueView { loop_all: !old(self)@.loop_all, ..old(self)@ }),
    {
        self.loop_all = !self.loop_all;
    }

    /// Advances the queue by one step of the policy described at
    /// [`QueueView::stepped`].
    pub fn move_next(&mut self)
        ensures
            final(self)@ == old(self)@.stepped(),
    {
        if self.loop_curr {
            return;
        }

        if self.loop_all {
            let len = self.deque.len();
            if len == 0 || self.index >= len - 1 {
                self.index = 0;
            } else {
                self.index += 1;
            }
            return;
        }

        let _next = self.deque.remove(self.index);
        if self.index >= self.deque.len() {
            self.index = 0;
        }
        proof {
            assert(self@.entries =~= old(self)@.stepped().entries);
            assert(self@ =~= old(self)@.stepped());
        }
    }

    /// Loads a playlist: `path` must carry the recognized extension and
    /// `contents` must hold the text of the file (`None` when it could not
    /// be read).  On success every entry of the text is appended to the back
    /// of the queue, in order, and the number of appended entries is
    /// returned — which distinguishes an empty playlist, `Some(0)`, from a
    /// failure, `None`.  On failure the queue is untouched.
    pub fn load_m3u(&mut self, path: &str, contents: Option<&str>) -> (r: Option<usize>)
        ensures
            (r is Some) <==> (playlist::is_m3u_path(path@) && contents is Some),
            r is None ==> final(self)@ == old(self)@,
            match contents {
                Some(text) => playlist::is_m3u_path(path@) ==> {
                    &&& final(self)@ == old(self)@.extended(playlist::playlist_entries(text@))
                    &&& r matches Some(count) && count
                        == playlist::playlist_entries(text@).len()
                },
                None => true,
            },
    {
        if !playlist::is_m3u_file(path) {
            // not a .m3u file
            return None;
        }

        let text = match contents {
            Some(t) => t,
            None => {
                // the file could not be read
                return None;
            },
        };

        let items = playlist::parse_playlist(text);
        let count = items.len();
        let mut k: usize = 0;
        proof {
            assert(self@ =~= old(self)@.extended(playlist::views_of(items@).take(0)));
        }
        while k < count
            invariant
                k <= count == items@.len(),
                playlist::views_of(items@) == playlist::playlist_entries(text@),
                self@ == old(self)@.extended(playlist::views_of(items@).take(k as int)),
            decreases count - k,
        {
            self.append(items[k].clone());
            proof {
                assert(playlist::views_of(items@).take(k + 1) =~= playlist::views_of(
                    items@,
                ).take(k as int).push(items@[k as int]@));
                assert(self@.entries =~= old(self)@.extended(
                    playlist::views_of(items@).take(k + 1),
                ).entries);
                assert(self@ =~= old(self)@.extended(playlist::views_of(items@).take(k + 1)));
            }
            k += 1;
        }
        proof {
            assert(playlist::views_of(items@).take(count as int) =~= playlist::views_of(items@));
            assert(self@ =~= old(self)@.extended(playlist::playlist_entries(text@)));
        }
        Some(count)
    }
}

/// `v` after `n` advancement steps.
pub open spec fn stepped_n(v: QueueView, n: nat) -> QueueView
    decreases n,
{
    if n == 0 {
        v
    } else {
        stepped_n(v, (n - 1) as nat).stepped()
    }
}

/// `v` with every entry of `items` appended at the back, in order.
pub open spec fn appended_all(v: QueueView, items: Seq<Seq<char>>) -> QueueView
    decreases items.len(),
{
    if items.len() == 0 {
        v
    } else {
        appended_all(v, items.drop_last()).appended(items.last())
    }
}

/// Appending one entry at a time amounts to extending the entries wholesale:
/// the cursor and the flags never move.
pub proof fn lemma_appended_all_extends(v: QueueView, items: Seq<Seq<char>>)
    ensures
        appended_all(v, items) == v.extended(items),
    decreases items.len(),
{
    if items.len() == 0 {
        assert(v.extended(items) =~= v);
    } else {
        lemma_appended_all_extends(v, items.drop_last());
        assert(appended_all(v, items) =~= v.extended(items));
    }
}

/// FIFO: a queue built from the empty queue by appends alone holds exactly
/// the appended entries in insertion order with the cursor at the front, so
/// after every append `peek` yields the first entry ever appended (none of
/// them having been removed).
pub proof fn lemma_fifo_after_appends(items: Seq<Seq<char>>)
    ensures
        appended_all(QueueView::empty(), items).entries == items,
        appended_all(QueueView::empty(), items).cursor == 0,
        appended_all(QueueView::empty(), items).peek() == if items.len() == 0 {
            Option::<Seq<char>>::None
        } else {
            Option::Some(items[0])
        },
{
    lemma_appended_all_extends(QueueView::empty(), items);
    assert(QueueView::empty().extended(items).entries =~= items);
}

/// With `loop_current` set, advancing is a no-op: the queue does not change,
/// and in particular `peek` keeps returning the same locator.
pub proof fn lemma_loop_current_freezes(v: QueueView)
    requires
        v.loop_current,
    ensures
        v.stepped() == v,
        v.stepped().peek() == v.peek(),
{
}

/// With `loop_all` set (and `loop_current` unset) the entries form a fixed
/// ring: `k` steps keep every entry and both flags and carry the cursor to
/// `(cursor + k) % len`.
pub proof fn lemma_loop_all_cycles(v: QueueView, k: nat)
    requires
        !v.loop_current,
        v.loop_all,
        v.cursor < v.entries.len(),
    ensures
        stepped_n(v, k).entries == v.entries,
        stepped_n(v, k).loop_current == v.loop_current,
        stepped_n(v, k).loop_all == v.loop_all,
        stepped_n(v, k).cursor == (v.cursor + k) % v.entries.len(),
    decreases k,
{
    let len = v.entries.len();
    if k == 0 {
        vstd::arithmetic::div_mod::lemma_small_mod(v.cursor, len);
    } else {
        lemma_loop_all_cycles(v, (k - 1) as nat);
        let w = stepped_n(v, (k - 1) as nat);
        let x = (v.cursor + k - 1) as int;
        assert((x % len as int + 1int % len as int) % len as int == (x + 1) % len as int) by {
            vstd::arithmetic::div_mod::lemma_add_mod_noop(x, 1, len as int);
        }
        if len == 1 {
            assert(w.cursor == 0);
            vstd::arithmetic::div_mod::lemma_small_mod(0, 1);
            vstd::arithmetic::div_mod::lemma_mod_add_multiples_vanish((v.cursor + k - 1) as int, 1);
        } else {
            vstd::arithmetic::div_mod::lemma_small_mod(1, len);
            if w.cursor + 1 == len {
                vstd::arithmetic::div_mod::lemma_mod_self_0(len as int);
            } else {
                vstd::arithmetic::div_mod::lemma_small_mod((w.cursor + 1) as nat, len);
            }
        }
    }
}

/// After exactly one full round of `loop_all` advancement the queue is back
/// where it started, nothing having been dropped on the way.
pub proof fn lemma_loop_all_full_cycle(v: QueueView)
    requires
        !v.loop_current,
        v.loop_all,
        v.cursor < v.entries.len(),
    ensures
        stepped_n(v, v.entries.len()) == v,
{
    let len = v.entries.len();
    lemma_loop_all_cycles(v, len);
    vstd::arithmetic::div_mod::lemma_mod_add_multiples_vanish(v.cursor as int, len as int);
    vstd::arithmetic::div_mod::lemma_small_mod(v.cursor, len);
    assert(stepped_n(v, len) =~= v);
}

/// With neither repeat flag set, every advancement step consumes exactly one
/// entry while the cursor stays valid, so a queue of `n` entries is empty
/// after exactly `n` steps and not before.
pub proof fn lemma_no_repeat_consumes(v: QueueView, k: nat)
    requires
        !v.loop_current,
        !v.loop_all,
        v.cursor < v.entries.len() || v.entries.len() == 0,
    ensures
        stepped_n(v, k).entries.len() == if k <= v.entries.len() {
            v.entries.len() - k
        } else {
            0
        },
        stepped_n(v, k).cursor < stepped_n(v, k).entries.len() || stepped_n(v, k).entries.len()
            == 0,
        stepped_n(v, k).loop_current == v.loop_current,
        stepped_n(v, k).loop_all == v.loop_all,
    decreases k,
{
    if k > 0 {
        lemma_no_repeat_consumes(v, (k - 1) as nat);
    }
}

} // verus!
