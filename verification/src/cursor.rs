use vstd::prelude::*;

verus! {

/// A position in a sequence of `len` items, walked from the front:
/// the bookkeeping behind a COM-style iterator (`First`, `Current`,
/// `HasCurrent`, `MoveNext`) over a vector.
#[derive(Clone, Copy, Debug)]
pub struct IterCursor {
    pub current: usize,
}

impl IterCursor {
    /// A cursor on the first item.
    pub fn first() -> (c: IterCursor)
        ensures
            c.current == 0,
    {
        IterCursor { current: 0 }
    }

    /// Whether the cursor stands on an item of a sequence of `len` items.
    pub fn has_current(&self, len: usize) -> (b: bool)
        ensures
            b <==> self.current < len,
    {
        len > self.current
    }

    /// The index of the item under the cursor, or `None` when it is past the end.
    pub fn current_index(&self, len: usize) -> (r: Option<usize>)
        ensures
            r == (if self.current < len { Some(self.current) } else { None::<usize> }),
    {
        if len > self.current {
            Some(self.current)
        } else {
            None
        }
    }

    /// Advances one item and tells whether the cursor still stands on one.
    pub fn move_next(&mut self, len: usize) -> (b: bool)
        requires
            old(self).current < usize::MAX,
        ensures
            final(self).current == old(self).current + 1,
            b <==> final(self).current < len,
    {
        self.current = self.current + 1;
        len > self.current
    }
}

/// The cursor after `moves` further calls of `move_next`.
pub open spec fn advanced(c: IterCursor, moves: nat) -> IterCursor {
    IterCursor { current: (c.current + moves) as usize }
}

/// The cursor only moves forward, so once it has run past the end of the
/// items it never stands on one again: after any number of further moves,
/// `has_current` is still false and `move_next` still returns false.
pub proof fn lemma_exhausted_stays_exhausted(c: IterCursor, len: usize, moves: nat)
    requires
        len <= c.current,
        c.current + moves <= usize::MAX,
    ensures
        !(advanced(c, moves).current < len),
        advanced(c, moves).current >= c.current,
{
}

/// Whether a key state word as returned by the Win32 `GetKeyState` call marks
/// the key as held down: its high-order bit is set, so the word is negative.
pub fn key_state_pressed(state: i16) -> (b: bool)
    ensures
        b <==> state < 0,
{
    state < 0
}

} // verus!
