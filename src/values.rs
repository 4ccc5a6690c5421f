//! Values chosen for placeholder names.
use vstd::prelude::*;

verus! {

/// Whether two strings hold the same characters.
pub fn same_text(a: &str, b: &str) -> (r: bool)
    ensures
        r == (a@ == b@),
{
    let n = a.unicode_len();
    if n != b.unicode_len() {
        return false;
    }
    let mut i: usize = 0;
    while i < n
        invariant
            n == a@.len(),
            n == b@.len(),
            i <= n,
            forall|m: int| 0 <= m < i ==> a@[m] == b@[m],
        decreases n - i,
    {
        if a.get_char(i) != b.get_char(i) {
            assert(a@[i as int] != b@[i as int]);
            return false;
        }
        i = i + 1;
    }
    assert(a@ =~= b@);
    true
}

/// The mapping that a list of entries denotes; a later entry for a name
/// takes the place of an earlier one.
spec fn entries_map(e: Seq<(String, String)>) -> Map<Seq<char>, Seq<char>>
    decreases e.len(),
{
    if e.len() == 0 {
        Map::empty()
    } else {
        entries_map(e.drop_last()).insert(e.last().0@, e.last().1@)
    }
}

/// A mapping from placeholder names to the text that replaces them.
pub struct ParameterValues {
    entries: Vec<(String, String)>,
}

impl View for ParameterValues {
    type V = Map<Seq<char>, Seq<char>>;

    closed spec fn view(&self) -> Map<Seq<char>, Seq<char>> {
        entries_map(self.entries@)
    }
}

impl ParameterValues {
    /// The empty mapping.
    pub fn new() -> (r: ParameterValues)
        ensures
            r@ == Map::<Seq<char>, Seq<char>>::empty(),
    {
        ParameterValues { entries: Vec::new() }
    }

    /// Maps `name` to `value`, replacing any earlier value for `name`.
    pub fn insert(&mut self, name: String, value: String)
        ensures
            final(self)@ == old(self)@.insert(name@, value@),
    {
        let ghost e = self.entries@;
        self.entries.push((name, value));
        assert(self.entries@.drop_last() =~= e);
    }

    /// The value for `name`, if there is one.
    pub fn get(&self, name: &str) -> (r: Option<&String>)
        ensures
            r matches Some(v) ==> self@.contains_key(name@) && v@ == self@[name@],
            r.is_none() ==> !self@.contains_key(name@),
    {
        let ghost e = self.entries@;
        let ghost n = name@;
        let mut i: usize = self.entries.len();
        assert(e.subrange(0, i as int) =~= e);
        while i > 0
            invariant
                e == self.entries@,
                n == name@,
                i <= e.len(),
                entries_map(e).contains_key(n) == entries_map(e.subrange(0, i as int)).contains_key(
                    n,
                ),
                entries_map(e.subrange(0, i as int)).contains_key(n) ==> entries_map(e)[n]
                    == entries_map(e.subrange(0, i as int))[n],
            decreases i,
        {
            let entry = &self.entries[i - 1];
            assert(e.subrange(0, i as int).drop_last() =~= e.subrange(0, i - 1));
            if same_text(entry.0.as_str(), name) {
                return Some(&entry.1);
            }
            i = i - 1;
        }
        assert(e.subrange(0, 0) =~= Seq::<(String, String)>::empty());
        None
    }
}

} // verus!
