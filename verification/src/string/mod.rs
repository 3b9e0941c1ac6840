//! A byte string built on the kernel vector. Characters are stored as their
//! low byte.

use vstd::prelude::*;
use vstd::string::StringSliceAdditionalSpecFns;

use crate::memory::allocator::AllocError;
use crate::vec::Vec;

verus! {

/// The byte that stands for `c`: the low byte of its code point.
pub open spec fn char_byte(c: char) -> u8 {
    (c as u32 % 256) as u8
}

/// The bytes that stand for the characters of `s`.
pub open spec fn chars_bytes(s: Seq<char>) -> Seq<u8> {
    s.map_values(|c: char| char_byte(c))
}

fn byte_of(c: char) -> (res: u8)
    ensures
        res == char_byte(c),
{
    let v: u32 = c as u32;
    (v % 256) as u8
}

/// Wraps `core::str::from_utf8`: per its documentation it gives back the
/// bytes as a string slice exactly when they are valid UTF-8. What the
/// contract claims: a returned slice holds the same bytes, and valid UTF-8
/// is always accepted.
#[verifier::external_body]
fn str_from_utf8(bytes: &[u8]) -> (res: Option<&str>)
    ensures
        res is Some ==> res->0.spec_bytes() == bytes@,
        vstd::utf8::valid_utf8(bytes@) ==> res is Some,
{
    core::str::from_utf8(bytes).ok()
}

/// A growable byte string.
pub struct String {
    vec: Vec<u8>,
}

impl View for String {
    type V = Seq<u8>;

    closed spec fn view(&self) -> Seq<u8> {
        self.vec@
    }
}

impl String {
    pub closed spec fn wf(&self) -> bool {
        self.vec.wf()
    }

    /// The capacity of the underlying vector.
    pub closed spec fn cap(&self) -> nat {
        self.vec.cap()
    }

    pub fn new() -> (res: String)
        ensures
            res.wf(),
            res@ == Seq::<u8>::empty(),
            res.cap() == 0,
    {
        String { vec: Vec::new() }
    }

    pub fn with_capacity(capacity: usize) -> (res: String)
        ensures
            res.wf(),
            res@ == Seq::<u8>::empty(),
            res.cap() == capacity,
    {
        String { vec: Vec::with_capacity(capacity) }
    }

    /// The string built from the bytes of `s`.
    pub fn from_str(s: &str) -> (res: String)
        ensures
            res.wf(),
            res@ == s.spec_bytes(),
    {
        let bytes = s.as_bytes();
        let n: usize = bytes.len();
        let mut vec: Vec<u8> = Vec::new();
        vec.extend_from_slice(bytes);
        String { vec }
    }

    /// The bytes, as a string slice; they must be valid UTF-8.
    pub fn as_str(&self) -> (res: &str)
        requires
            vstd::utf8::valid_utf8(self@),
        ensures
            res.spec_bytes() == self@,
    {
        match str_from_utf8(self.vec.as_slice()) {
            Some(s) => s,
            None => "",
        }
    }

    /// The bytes.
    pub fn as_bytes(&self) -> (res: &[u8])
        ensures
            res@ == self@,
    {
        self.vec.as_slice()
    }

    pub fn len(&self) -> (res: usize)
        ensures
            res == self@.len(),
    {
        self.vec.len()
    }

    pub fn capacity(&self) -> (res: usize)
        ensures
            res == self.cap(),
    {
        self.vec.capacity()
    }

    pub fn reserve(&mut self, additional: usize)
        requires
            old(self).wf(),
            old(self).cap() + additional <= usize::MAX,
        ensures
            final(self).wf(),
            final(self)@ == old(self)@,
            final(self).cap() == old(self).cap() + additional,
    {
        self.vec.reserve(additional);
    }

    /// Appends the byte of `value`.
    pub fn push(&mut self, value: char)
        requires
            old(self).wf(),
            old(self).cap() + 8 <= usize::MAX,
        ensures
            final(self).wf(),
            final(self)@ == old(self)@.push(char_byte(value)),
            final(self).cap() <= old(self).cap() + 8,
    {
        self.vec.push(byte_of(value));
    }

    /// Appends the bytes of the characters of `value`.
    pub fn push_str(&mut self, value: &str)
        requires
            old(self).wf(),
            old(self).cap() + 8 * value@.len() + 8 <= usize::MAX,
        ensures
            final(self).wf(),
            final(self)@ == old(self)@ + chars_bytes(value@),
    {
        let n = value.unicode_len();
        let mut i: usize = 0;
        while i < n
            invariant
                self.wf(),
                i <= n,
                n == value@.len(),
                self.cap() <= old(self).cap() + 8 * i,
                old(self).cap() + 8 * value@.len() + 8 <= usize::MAX,
                self@ == old(self)@ + chars_bytes(value@.subrange(0, i as int)),
            decreases n - i,
        {
            let c = value.get_char(i);
            self.push(c);
            assert(chars_bytes(value@.subrange(0, i + 1)) =~= chars_bytes(value@.subrange(0, i as int)).push(char_byte(c)));
            i += 1;
        }
        assert(value@.subrange(0, n as int) =~= value@);
    }

    /// Inserts the byte of `ch` at `idx`.
    pub fn insert(&mut self, idx: usize, ch: char)
        requires
            old(self).wf(),
            idx <= old(self)@.len(),
            old(self).cap() + 8 <= usize::MAX,
        ensures
            final(self).wf(),
            final(self)@ == old(self)@.insert(idx as int, char_byte(ch)),
            final(self).cap() <= old(self).cap() + 8,
    {
        self.vec.insert(idx, byte_of(ch));
    }

    /// Inserts the bytes of the characters of `string` at `idx`.
    pub fn insert_str(&mut self, idx: usize, string: &str)
        requires
            old(self).wf(),
            idx <= old(self)@.len(),
            old(self).cap() + 8 * string@.len() + 8 <= usize::MAX,
        ensures
            final(self).wf(),
            final(self)@ == old(self)@.subrange(0, idx as int) + chars_bytes(string@) + old(self)@.subrange(idx as int, old(self)@.len() as int),
    {
        let n = string.unicode_len();
        let mut i: usize = 0;
        let mut at = idx;
        while i < n
            invariant
                self.wf(),
                i <= n,
                n == string@.len(),
                at == idx + i,
                idx <= old(self)@.len(),
                self.cap() <= old(self).cap() + 8 * i,
                old(self).cap() + 8 * string@.len() + 8 <= usize::MAX,
                self@ == old(self)@.subrange(0, idx as int) + chars_bytes(string@.subrange(0, i as int))
                    + old(self)@.subrange(idx as int, old(self)@.len() as int),
            decreases n - i,
        {
            let c = string.get_char(i);
            proof {
                self.vec.lemma_len_within_cap();
            }
            self.vec.insert(at, byte_of(c));
            proof {
                self.vec.lemma_len_within_cap();
            }
            assert(chars_bytes(string@.subrange(0, i + 1)) =~= chars_bytes(string@.subrange(0, i as int)).push(char_byte(c)));
            assert(self@ =~= old(self)@.subrange(0, idx as int) + chars_bytes(string@.subrange(0, i + 1))
                + old(self)@.subrange(idx as int, old(self)@.len() as int));
            at += 1;
            i += 1;
        }
        assert(string@.subrange(0, n as int) =~= string@);
    }

    pub fn try_reserve(&mut self, additional: usize) -> (res: Result<(), AllocError>)
        requires
            old(self).wf(),
            old(self).cap() + additional <= usize::MAX,
        ensures
            final(self).wf(),
            res is Ok,
            final(self)@ == old(self)@,
            final(self).cap() == old(self).cap() + additional,
    {
        self.vec.try_reserve(additional)
    }

    pub fn try_push(&mut self, value: char) -> (res: Result<(), AllocError>)
        requires
            old(self).wf(),
            old(self).cap() + 8 <= usize::MAX,
        ensures
            final(self).wf(),
            res is Ok,
            final(self)@ == old(self)@.push(char_byte(value)),
            final(self).cap() <= old(self).cap() + 8,
    {
        self.vec.try_push(byte_of(value))
    }

    pub fn try_push_str(&mut self, value: &str) -> (res: Result<(), AllocError>)
        requires
            old(self).wf(),
            old(self).cap() + 8 * value@.len() + 8 <= usize::MAX,
        ensures
            final(self).wf(),
            res is Ok,
            final(self)@ == old(self)@ + chars_bytes(value@),
    {
        self.push_str(value);
        Ok(())
    }

    pub fn try_insert(&mut self, idx: usize, ch: char) -> (res: Result<(), AllocError>)
        requires
            old(self).wf(),
            idx <= old(self)@.len(),
            old(self).cap() + 8 <= usize::MAX,
        ensures
            final(self).wf(),
            res is Ok,
            final(self)@ == old(self)@.insert(idx as int, char_byte(ch)),
            final(self).cap() <= old(self).cap() + 8,
    {
        self.vec.try_insert(idx, byte_of(ch))
    }

    pub fn try_insert_str(&mut self, idx: usize, string: &str) -> (res: Result<(), AllocError>)
        requires
            old(self).wf(),
            idx <= old(self)@.len(),
            old(self).cap() + 8 * string@.len() + 8 <= usize::MAX,
        ensures
            final(self).wf(),
            res is Ok,
            final(self)@ == old(self)@.subrange(0, idx as int) + chars_bytes(string@) + old(self)@.subrange(idx as int, old(self)@.len() as int),
    {
        self.insert_str(idx, string);
        Ok(())
    }

    /// Removes the last byte and returns it as a character.
    pub fn pop(&mut self) -> (res: Option<char>)
        requires
            old(self).wf(),
        ensures
            final(self).wf(),
            final(self).cap() == old(self).cap(),
            old(self)@.len() == 0 ==> res is None && final(self)@ == old(self)@,
            old(self)@.len() > 0 ==> res == Some(old(self)@.last() as char) && final(self)@ == old(self)@.drop_last(),
    {
        match self.vec.pop() {
            Some(x) => Some(x as char),
            None => None,
        }
    }

    /// Removes the byte at `idx` and returns it as a character.
    pub fn remove(&mut self, idx: usize) -> (res: char)
        requires
            old(self).wf(),
            idx < old(self)@.len(),
        ensures
            final(self).wf(),
            final(self).cap() == old(self).cap(),
            res == old(self)@[idx as int] as char,
            final(self)@ == old(self)@.remove(idx as int),
    {
        match self.vec.remove(idx) {
            Some(x) => x as char,
            None => ' ',
        }
    }

    /// Removes every byte; the capacity stays.
    pub fn clear(&mut self)
        requires
            old(self).wf(),
        ensures
            final(self).wf(),
            final(self)@ == Seq::<u8>::empty(),
            final(self).cap() == old(self).cap(),
    {
        self.vec.clear();
    }
}

/// Popping right after pushing `value` gives back the character of its
/// byte, `value` itself when its code is below 256, and leaves the bytes as
/// they were.
pub proof fn lemma_pop_undoes_push(s: Seq<u8>, value: char)
    ensures
        s.push(char_byte(value)).len() > 0,
        s.push(char_byte(value)).drop_last() == s,
        (value as u32) < 256 ==> (s.push(char_byte(value)).last() as char) == value,
{
    assert(s.push(char_byte(value)).drop_last() =~= s);
}

/// Conversion to a kernel string.
pub trait ToString {
    /// The bytes of the string that `to_string` builds.
    spec fn string_bytes(&self) -> Seq<u8>;

    fn to_string(&self) -> (res: String)
        ensures
            res.wf(),
            res@ == self.string_bytes(),
    ;
}

impl ToString for str {
    open spec fn string_bytes(&self) -> Seq<u8> {
        self.spec_bytes()
    }

    fn to_string(&self) -> (res: String) {
        String::from_str(self)
    }
}

} // verus!
