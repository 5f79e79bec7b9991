//! Editable single-line text fields with a byte-offset cursor.
use vstd::prelude::*;
use crate::text::{
    byte_len, byte_len_exec, char_width, char_width_exec, chars_of, lemma_byte_len_concat,
    lemma_byte_len_single,
    lemma_offset_full, lemma_offset_monotonic, lemma_offset_step, offset_of, string_from,
};

verus! {

/// A single editable form field with cursor position (a byte offset into
/// `value` that lies on a character boundary).
#[derive(Debug, Clone, PartialEq, Eq)]
pub struct FieldState {
    pub value: String,
    pub cursor: usize,
}

/// The cursor lies before the `k`-th character.
pub open spec fn cursor_at(value: Seq<char>, cursor: usize, k: int) -> bool {
    0 <= k <= value.len() && offset_of(value, k) == cursor
}

pub proof fn lemma_cursor_unique(value: Seq<char>, cursor: usize, j: int, k: int)
    requires
        cursor_at(value, cursor, j),
        cursor_at(value, cursor, k),
    ensures
        j == k,
{
    if j < k {
        lemma_offset_monotonic(value, j, k);
    } else if k < j {
        lemma_offset_monotonic(value, k, j);
    }
}

/// The characters and cursor position after typing `ch` at the cursor.
pub open spec fn after_insert(f: (Seq<char>, int), ch: char) -> (Seq<char>, int) {
    (f.0.insert(f.1, ch), f.1 + 1)
}

/// The characters and cursor position after a backspace: the character
/// before the cursor goes, if there is one.
pub open spec fn after_backspace(f: (Seq<char>, int)) -> (Seq<char>, int) {
    if f.1 > 0 {
        (f.0.remove(f.1 - 1), f.1 - 1)
    } else {
        f
    }
}

/// A backspace right after typing a character takes back exactly that
/// character: the text and the cursor are as before.
pub proof fn lemma_backspace_undoes_insert(f: (Seq<char>, int), ch: char)
    requires
        0 <= f.1 <= f.0.len(),
    ensures
        after_backspace(after_insert(f, ch)) == f,
{
    assert(f.0.insert(f.1, ch).remove(f.1) =~= f.0);
}

impl Default for FieldState {
    fn default() -> (r: Self)
        ensures
            r.value@ == Seq::<char>::empty(),
            r.cursor == 0,
    {
        FieldState { value: String::new(), cursor: 0 }
    }
}

impl FieldState {
    /// The value's UTF-8 length fits the machine and the cursor sits on a
    /// character boundary.
    pub open spec fn wf(&self) -> bool {
        &&& byte_len(self.value@) <= usize::MAX
        &&& exists|k: int| cursor_at(self.value@, self.cursor, k)
    }

    /// The characters and the index of the character before the cursor.
    pub open spec fn text_and_index(&self) -> (Seq<char>, int) {
        (self.value@, self.cursor_index())
    }

    /// Index of the character the cursor stands before.
    pub open spec fn cursor_index(&self) -> int {
        choose|k: int| cursor_at(self.value@, self.cursor, k)
    }

    /// An empty field.
    pub fn empty() -> (r: Self)
        ensures
            r.value@ == Seq::<char>::empty(),
            r.cursor == 0,
            r.wf(),
            r.cursor_index() == 0,
    {
        let r = FieldState { value: String::new(), cursor: 0 };
        proof {
            assert(cursor_at(r.value@, 0, 0));
            lemma_cursor_unique(r.value@, 0, 0, r.cursor_index());
        }
        r
    }

    /// A field holding `value` with the cursor at its end.
    pub fn new(value: String) -> (r: Self)
        requires
            byte_len(value@) <= usize::MAX,
        ensures
            r.value@ == value@,
            r.cursor == byte_len(value@),
            r.wf(),
            r.cursor_index() == value@.len(),
    {
        let cursor = byte_len_exec(value.as_str());
        let r = FieldState { value, cursor };
        proof {
            lemma_offset_full(r.value@);
            assert(cursor_at(r.value@, cursor, r.value@.len() as int));
            lemma_cursor_unique(r.value@, cursor, r.value@.len() as int, r.cursor_index());
        }
        r
    }

    pub fn is_empty(&self) -> (r: bool)
        ensures
            r == (self.value@.len() == 0),
    {
        self.value.as_str().is_empty()
    }

    fn cursor_char_index(&self) -> (k: usize)
        requires
            self.wf(),
        ensures
            k == self.cursor_index(),
            cursor_at(self.value@, self.cursor, k as int),
    {
        let ghost v = self.value@;
        let ghost target = self.cursor_index();
        let cs = chars_of(self.value.as_str());
        let mut off: usize = 0;
        let mut k: usize = 0;
        proof {
            assert(v.take(0) =~= Seq::<char>::empty());
        }
        while off < self.cursor
            invariant
                v == self.value@,
                cs@ == v,
                cursor_at(v, self.cursor, target),
                0 <= k <= target,
                off == offset_of(v, k as int),
                off <= self.cursor,
            decreases target - k,
        {
            proof {
                if k == target {
                    assert(false);
                }
                lemma_offset_step(v, k as int);
                lemma_offset_monotonic(v, k + 1, target);
            }
            assert(k < cs.len());
            off = off + char_width_exec(cs[k]);
            k += 1;
        }
        proof {
            if (k as int) < target {
                lemma_offset_monotonic(v, k as int + 1, target);
                lemma_offset_step(v, k as int);
            }
            lemma_cursor_unique(v, self.cursor, k as int, target);
        }
        k
    }

    /// Insert a character at the cursor.
    pub fn insert(&mut self, ch: char)
        requires
            old(self).wf(),
            byte_len(old(self).value@) + 4 <= usize::MAX,
        ensures
            final(self).wf(),
            final(self).value@ == old(self).value@.insert(old(self).cursor_index(), ch),
            final(self).cursor == old(self).cursor + char_width(ch),
            final(self).cursor_index() == old(self).cursor_index() + 1,
            final(self).text_and_index() == after_insert(old(self).text_and_index(), ch),
    {
        let k = self.cursor_char_index();
        let ghost v = self.value@;
        let mut cs = chars_of(self.value.as_str());
        cs.insert(k, ch);
        let w = char_width_exec(ch);
        proof {
            lemma_offset_monotonic(v, k as int, v.len() as int);
            lemma_offset_full(v);
        }
        self.value = string_from(cs.as_slice());
        self.cursor = self.cursor + w;
        proof {
            let v1 = self.value@;
            assert(v1 == v.insert(k as int, ch));
            assert(v1.take(k as int) == v.take(k as int));
            lemma_offset_step(v1, k as int);
            assert(v1 =~= v.take(k as int) + seq![ch] + v.skip(k as int));
            lemma_byte_len_concat(v.take(k as int) + seq![ch], v.skip(k as int));
            lemma_byte_len_concat(v.take(k as int), seq![ch]);
            lemma_byte_len_concat(v.take(k as int), v.skip(k as int));
            assert(v == v.take(k as int) + v.skip(k as int));
            assert(seq![ch].drop_first() =~= Seq::<char>::empty());
            assert(byte_len(seq![ch]) == char_width(ch) + byte_len(seq![ch].drop_first()));
            assert(cursor_at(v1, self.cursor, k + 1));
            lemma_cursor_unique(v1, self.cursor, k + 1, self.cursor_index());
        }
    }

    /// Delete the character before the cursor.
    pub fn backspace(&mut self)
        requires
            old(self).wf(),
        ensures
            final(self).wf(),
            old(self).cursor_index() > 0 ==> final(self).value@ == old(self).value@.remove(
                old(self).cursor_index() - 1,
            ) && final(self).cursor_index() == old(self).cursor_index() - 1,
            old(self).cursor_index() == 0 ==> *final(self) == *old(self),
            final(self).text_and_index() == after_backspace(old(self).text_and_index()),
    {
        if self.cursor > 0 {
            let k = self.cursor_char_index();
            let ghost v = self.value@;
            proof {
                if k == 0 {
                    assert(v.take(0) =~= Seq::<char>::empty());
                }
                lemma_offset_step(v, k - 1);
            }
            let mut cs = chars_of(self.value.as_str());
            let removed = cs.remove(k - 1);
            let w = char_width_exec(removed);
            self.value = string_from(cs.as_slice());
            self.cursor = self.cursor - w;
            proof {
                let v1 = self.value@;
                assert(v1 == v.remove(k - 1));
                assert(v1.take(k - 1) == v.take(k - 1));
                assert(v =~= v.take(k - 1) + seq![v[k - 1]] + v.skip(k as int));
                assert(v1 =~= v.take(k - 1) + v.skip(k as int));
                lemma_byte_len_concat(v.take(k - 1) + seq![v[k - 1]], v.skip(k as int));
                lemma_byte_len_concat(v.take(k - 1), seq![v[k - 1]]);
                lemma_byte_len_single(v[k - 1]);
                lemma_byte_len_concat(v.take(k - 1), v.skip(k as int));
                assert(cursor_at(v1, self.cursor, k - 1));
                lemma_cursor_unique(v1, self.cursor, k - 1, self.cursor_index());
            }
        } else {
            proof {
                assert(v_take0(self.value@));
                lemma_cursor_unique(self.value@, self.cursor, 0, self.cursor_index());
            }
        }
    }

    /// Delete the character under the cursor.
    pub fn delete(&mut self)
        requires
            old(self).wf(),
        ensures
            final(self).wf(),
            old(self).cursor_index() < old(self).value@.len() ==> final(self).value@ == old(
                self,
            ).value@.remove(old(self).cursor_index()) && final(self).cursor == old(self).cursor
                && final(self).cursor_index() == old(self).cursor_index(),
            old(self).cursor_index() == old(self).value@.len() ==> *final(self) == *old(self),
    {
        let len = byte_len_exec(self.value.as_str());
        let k = self.cursor_char_index();
        let ghost v = self.value@;
        proof {
            lemma_offset_full(v);
            if (k as int) < v.len() {
                lemma_offset_monotonic(v, k as int + 1, v.len() as int);
                lemma_offset_step(v, k as int);
            }
        }
        if self.cursor < len {
            let mut cs = chars_of(self.value.as_str());
            cs.remove(k);
            self.value = string_from(cs.as_slice());
            proof {
                let v1 = self.value@;
                assert(v1 == v.remove(k as int));
                assert(v1.take(k as int) == v.take(k as int));
                assert(v =~= v.take(k as int) + seq![v[k as int]] + v.skip(k + 1));
                assert(v1 =~= v.take(k as int) + v.skip(k + 1));
                lemma_byte_len_concat(v.take(k as int) + seq![v[k as int]], v.skip(k + 1));
                lemma_byte_len_concat(v.take(k as int), seq![v[k as int]]);
                lemma_byte_len_single(v[k as int]);
                lemma_byte_len_concat(v.take(k as int), v.skip(k + 1));
                assert(cursor_at(v1, self.cursor, k as int));
                lemma_cursor_unique(v1, self.cursor, k as int, self.cursor_index());
            }
        }
    }

    /// Move the cursor by whole characters, stopping at either end.
    pub fn move_cursor(&mut self, delta: isize)
        requires
            old(self).wf(),
            delta > isize::MIN,
        ensures
            final(self).wf(),
            final(self).value == old(self).value,
            final(self).cursor_index() == clamp_index(
                old(self).cursor_index() + delta,
                old(self).value@.len() as int,
            ),
    {
        let k = self.cursor_char_index();
        let ghost v = self.value@;
        let cs = chars_of(self.value.as_str());
        let len = cs.len();
        let target: usize = if delta > 0 {
            let d = delta as usize;
            if d >= len - k {
                len
            } else {
                k + d
            }
        } else {
            let d = (-delta) as usize;
            if d >= k {
                0
            } else {
                k - d
            }
        };
        // recompute the byte offset of the target character
        let mut off: usize = 0;
        let mut i: usize = 0;
        proof {
            assert(v.take(0) =~= Seq::<char>::empty());
            lemma_offset_full(v);
            lemma_offset_monotonic(v, target as int, len as int);
        }
        while i < target
            invariant
                cs@ == v,
                len == v.len(),
                target <= len,
                0 <= i <= target,
                off == offset_of(v, i as int),
                offset_of(v, target as int) <= usize::MAX,
            decreases target - i,
        {
            proof {
                lemma_offset_step(v, i as int);
                lemma_offset_monotonic(v, i + 1, target as int);
            }
            off = off + char_width_exec(cs[i]);
            i += 1;
        }
        self.cursor = off;
        proof {
            assert(cursor_at(v, off, target as int));
            lemma_cursor_unique(v, off, target as int, self.cursor_index());
        }
    }

    /// Move the cursor to the start of the field.
    pub fn home(&mut self)
        ensures
            final(self).value == old(self).value,
            final(self).cursor == 0,
            old(self).wf() ==> final(self).wf() && final(self).cursor_index() == 0,
    {
        self.cursor = 0;
        proof {
            assert(self.value@.take(0) =~= Seq::<char>::empty());
            if byte_len(self.value@) <= usize::MAX {
                assert(cursor_at(self.value@, 0, 0));
                lemma_cursor_unique(self.value@, 0, 0, self.cursor_index());
            }
        }
    }

    /// Move the cursor to the end of the field.
    pub fn end(&mut self)
        requires
            byte_len(old(self).value@) <= usize::MAX,
        ensures
            final(self).value == old(self).value,
            final(self).cursor == byte_len(old(self).value@),
            final(self).wf(),
            final(self).cursor_index() == old(self).value@.len(),
    {
        self.cursor = byte_len_exec(self.value.as_str());
        proof {
            lemma_offset_full(self.value@);
            assert(cursor_at(self.value@, self.cursor, self.value@.len() as int));
            lemma_cursor_unique(
                self.value@,
                self.cursor,
                self.value@.len() as int,
                self.cursor_index(),
            );
        }
    }
}

/// `i` clamped into `0..=len`.
pub open spec fn clamp_index(i: int, len: int) -> int {
    if i < 0 {
        0
    } else if i > len {
        len
    } else {
        i
    }
}

spec fn v_take0(v: Seq<char>) -> bool {
    v.take(0) =~= Seq::<char>::empty()
}

} // verus!
