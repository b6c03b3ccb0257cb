//! The string interning table: equal text is stored once and addressed by
//! a stable integer handle.

use vstd::prelude::*;

use crate::is_extension_of;

verus! {

/// The interning table.  Its view is the sequence of interned texts; a
/// handle is an index into that sequence.
pub struct Interner {
    strings: Vec<String>,
}

impl View for Interner {
    type V = Seq<Seq<char>>;

    closed spec fn view(&self) -> Seq<Seq<char>> {
        self.strings.deep_view()
    }
}

impl Interner {
    /// No two entries hold the same text, so a text determines its handle.
    pub open spec fn wf(self) -> bool {
        forall|i: int, j: int| 0 <= i < j < self@.len() ==> self@[i] != self@[j]
    }

    /// The table already holds this text.
    pub open spec fn contains_text(self, s: Seq<char>) -> bool {
        exists|i: int| 0 <= i < self@.len() && self@[i] == s
    }

    /// An empty table.
    pub fn new() -> (t: Interner)
        ensures
            t@ == Seq::<Seq<char>>::empty(),
            t.wf(),
    {
        let t = Interner { strings: Vec::new() };
        proof {
            assert(t@ =~= Seq::<Seq<char>>::empty());
        }
        t
    }

    /// Intern a text: return the handle of the entry that holds it, adding
    /// the entry only if the text was not interned before.  Existing
    /// entries are never moved or changed, so handles stay stable.
    pub fn intern(&mut self, text: String) -> (h: usize)
        requires
            old(self).wf(),
        ensures
            final(self).wf(),
            is_extension_of(final(self)@, old(self)@),
            h < final(self)@.len(),
            final(self)@[h as int] == text@,
            old(self).contains_text(text@) ==> final(self)@ == old(self)@,
            !old(self).contains_text(text@) ==> final(self)@ == old(self)@.push(text@)
                && h == old(self)@.len(),
    {
        let n = self.strings.len();
        let mut i: usize = 0;
        while i < n
            invariant
                old(self).wf(),
                *self == *old(self),
                n == self.strings@.len(),
                i <= n,
                forall|k: int| 0 <= k < i ==> self@[k] != text@,
            decreases n - i,
        {
            if self.strings[i] == text {
                return i;
            }
            i += 1;
        }
        proof {
            assert(!old(self).contains_text(text@));
        }
        self.strings.push(text);
        proof {
            assert(self@ =~= old(self)@.push(text@));
        }
        n
    }

    /// Resolve a handle back to the text it was issued for.
    pub fn lookup(&self, h: usize) -> (s: &String)
        requires
            h < self@.len(),
        ensures
            s@ == self@[h as int],
    {
        &self.strings[h]
    }

    /// Interning law: within one table, a text resolves to exactly one
    /// handle, so every occurrence of the same literal interns to the same
    /// handle, however many pool entries refer to it.
    pub proof fn lemma_handle_determined(self, h1: int, h2: int)
        requires
            self.wf(),
            0 <= h1 < self@.len(),
            0 <= h2 < self@.len(),
            self@[h1] == self@[h2],
        ensures
            h1 == h2,
    {
        if h1 < h2 {
            assert(self@[h1] != self@[h2]);
        } else if h2 < h1 {
            assert(self@[h2] != self@[h1]);
        }
    }
}

} // verus!
