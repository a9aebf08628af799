//! String interning for the compact form of traces.
//!
//! Repeated strings (cache keys, object ids, content types and the like) are kept once and named
//! by `u32` ids. Id 0 stands for "no string".
use vstd::hash_map::StringHashMap;
use vstd::prelude::*;

use crate::words::texts;

verus! {

/// Id of the empty string, which stands for `None` in optional string fields.
pub const NONE_ID: u32 = 0;

/// A string interner that maps strings to `u32` ids.
///
/// Its view is the list of the strings in the order of their ids. The empty string comes first.
pub struct StringInterner {
    map: StringHashMap<u32>,
    strings: Vec<String>,
}

/// The id of the string at position `i`: ids are counted in 32 bits.
pub open spec fn id_at(i: int) -> u32 {
    (i % 0x1_0000_0000) as u32
}

/// The id of `s` in a list of strings that holds it.
pub open spec fn id_of(list: Seq<Seq<char>>, s: Seq<char>) -> u32 {
    id_at(list.index_of(s))
}

/// The list after `s` has been interned.
pub open spec fn interned(list: Seq<Seq<char>>, s: Seq<char>) -> Seq<Seq<char>> {
    if list.contains(s) {
        list
    } else {
        list.push(s)
    }
}

/// The list holds the empty string first, and no string twice.
pub open spec fn is_table(list: Seq<Seq<char>>) -> bool {
    list.len() > 0 && list[0] == Seq::<char>::empty() && list.no_duplicates()
}

/// The map gives the id of each string of the list.
spec fn indexed(map: Map<Seq<char>, u32>, list: Seq<Seq<char>>) -> bool {
    forall|s: Seq<char>| #[trigger]
        map.contains_key(s) == list.contains(s) && (list.contains(s) ==> map[s] == id_of(list, s))
}

/// The position of a string in a longer list is its position in the list.
proof fn lemma_position(list: Seq<Seq<char>>, s: Seq<char>, i: int)
    requires
        list.no_duplicates(),
        0 <= i < list.len(),
        list[i] == s,
    ensures
        list.contains(s),
        list.index_of(s) == i,
{
}

/// One more string leaves the positions of the others as they were.
proof fn lemma_push_keeps(list: Seq<Seq<char>>, t: Seq<char>)
    requires
        list.no_duplicates(),
        !list.contains(t),
    ensures
        list.push(t).no_duplicates(),
        forall|s: Seq<char>| #[trigger]
            list.push(t).contains(s) == (list.contains(s) || s == t),
        forall|s: Seq<char>|
            list.contains(s) ==> #[trigger] list.push(t).index_of(s) == list.index_of(s),
        list.push(t).index_of(t) == list.len(),
{
    let longer = list.push(t);
    lemma_position(longer, t, list.len() as int);
    assert forall|s: Seq<char>| #[trigger] longer.contains(s) == (list.contains(s) || s == t) by {
        if list.contains(s) {
            assert(longer[list.index_of(s)] == s);
        }
        if longer.contains(s) && s != t {
            assert(list[longer.index_of(s)] == s);
        }
    }
    assert forall|s: Seq<char>| list.contains(s) implies #[trigger] longer.index_of(s)
        == list.index_of(s) by {
        lemma_position(longer, s, list.index_of(s));
    }
}

impl View for StringInterner {
    type V = Seq<Seq<char>>;

    closed spec fn view(&self) -> Seq<Seq<char>> {
        texts(self.strings@)
    }
}

impl StringInterner {
    #[verifier::type_invariant]
    spec fn well_formed(self) -> bool {
        is_table(texts(self.strings@)) && indexed(self.map@, texts(self.strings@))
    }

    /// Create a new interner that holds the empty string alone.
    pub fn new() -> (r: Self)
        ensures
            r@ == seq![Seq::<char>::empty()],
            is_table(r@),
    {
        let mut map: StringHashMap<u32> = StringHashMap::new();
        let mut strings: Vec<String> = Vec::new();
        strings.push(String::new());
        map.insert(String::new(), 0);
        proof {
            let list = texts(strings@);
            assert(list =~= seq![Seq::<char>::empty()]);
            assert(list[0] == Seq::<char>::empty());
            lemma_position(list, Seq::<char>::empty(), 0);
        }
        StringInterner { map, strings }
    }

    /// Intern a string, returning its id.
    /// Returns the existing id if the string was previously interned.
    pub fn intern(&mut self, s: &str) -> (r: u32)
        ensures
            final(self)@ == interned(old(self)@, s@),
            r == id_of(final(self)@, s@),
            is_table(old(self)@),
            is_table(final(self)@),
    {
        proof {
            use_type_invariant(&*self);
        }
        match self.map.get(s) {
            Some(id) => {
                return *id;
            },
            None => {},
        }
        let mut parts = StringInterner::new();
        std::mem::swap(self, &mut parts);
        proof {
            use_type_invariant(&parts);
        }
        let StringInterner { map, strings } = parts;
        let mut map = map;
        let mut strings = strings;
        let ghost before = texts(strings@);
        let count: u64 = strings.len() as u64;
        let id: u32 = (count % 0x1_0000_0000) as u32;
        strings.push(s.to_owned());
        map.insert(s.to_owned(), id);
        proof {
            lemma_push_keeps(before, s@);
            assert(texts(strings@) =~= before.push(s@));
        }
        *self = StringInterner { map, strings };
        id
    }

    /// Intern an optional string. Returns `NONE_ID` (0) for None.
    pub fn intern_option(&mut self, s: Option<&str>) -> (r: u32)
        ensures
            match s {
                Some(text) => final(self)@ == interned(old(self)@, text@) && r == id_of(
                    final(self)@,
                    text@,
                ),
                None => final(self)@ == old(self)@ && r == NONE_ID,
            },
            is_table(old(self)@),
            is_table(final(self)@),
    {
        proof {
            use_type_invariant(&*self);
        }
        match s {
            Some(s) => self.intern(s),
            None => NONE_ID,
        }
    }

    /// Resolve an id back to its string.
    pub fn resolve(&self, id: u32) -> (r: &str)
        requires
            id < self@.len(),
        ensures
            r@ == self@[id as int],
    {
        self.strings[id as usize].as_str()
    }

    /// Resolve an id, returning None for the `NONE_ID` sentinel.
    pub fn resolve_option(&self, id: u32) -> (r: Option<&str>)
        requires
            id == NONE_ID || id < self@.len(),
        ensures
            match r {
                Some(s) => id != NONE_ID && s@ == self@[id as int],
                None => id == NONE_ID,
            },
    {
        if id == NONE_ID {
            None
        } else {
            Some(self.strings[id as usize].as_str())
        }
    }

    /// Number of interned strings (including the sentinel).
    pub fn len(&self) -> (r: usize)
        ensures
            r == self@.len(),
            r >= 1,
    {
        proof {
            use_type_invariant(self);
        }
        self.strings.len()
    }

    /// Whether the interner is empty (only sentinel).
    pub fn is_empty(&self) -> (r: bool)
        ensures
            r == (self@.len() <= 1),
    {
        self.strings.len() <= 1
    }
}

impl Default for StringInterner {
    fn default() -> (r: Self)
        ensures
            r@ == seq![Seq::<char>::empty()],
    {
        StringInterner::new()
    }
}

/// An interned string is found again under its id.
pub proof fn interned_string_resolves(list: Seq<Seq<char>>, s: Seq<char>)
    requires
        is_table(list),
        interned(list, s).len() <= 0x1_0000_0000,
    ensures
        is_table(interned(list, s)),
        (id_of(interned(list, s), s) as int) < interned(list, s).len(),
        interned(list, s)[id_of(interned(list, s), s) as int] == s,
{
    if !list.contains(s) {
        lemma_push_keeps(list, s);
    }
}

/// Different strings have different ids.
pub proof fn ids_are_unique(list: Seq<Seq<char>>, s: Seq<char>, t: Seq<char>)
    requires
        list.len() <= 0x1_0000_0000,
        list.contains(s),
        list.contains(t),
    ensures
        (id_of(list, s) == id_of(list, t)) == (s == t),
{
}

/// An id stays the same, whatever is interned later, and interning a string again changes nothing.
pub proof fn ids_are_stable(list: Seq<Seq<char>>, s: Seq<char>, later: Seq<char>)
    requires
        is_table(list),
        list.contains(s),
    ensures
        interned(list, s) == list,
        interned(list, later).contains(s),
        id_of(interned(list, later), s) == id_of(list, s),
{
    if !list.contains(later) {
        lemma_push_keeps(list, later);
    }
}

/// Only the empty string has the id that stands for `None`.
pub proof fn none_id_is_the_empty_string(list: Seq<Seq<char>>, s: Seq<char>)
    requires
        is_table(list),
        list.len() <= 0x1_0000_0000,
        list.contains(s),
    ensures
        (id_of(list, s) == NONE_ID) == (s == Seq::<char>::empty()),
{
    lemma_position(list, Seq::<char>::empty(), 0);
}

} // verus!
