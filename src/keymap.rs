use vstd::prelude::*;

verus! {

/// A keymap as it is exchanged in files: the board it was made for, and for
/// each key, by logical name, the scancode names of its layers in order.
pub struct KeyMap {
    pub board: String,
    pub map: Vec<(String, Vec<String>)>,
}

/// The names of a list of strings, as character sequences.
pub open spec fn strings_view(v: Seq<String>) -> Seq<Seq<char>> {
    v.map_values(|s: String| s@)
}

/// The entries of a keymap, with every string as a character sequence.
pub open spec fn keymap_entries(km: KeyMap) -> Seq<(Seq<char>, Seq<Seq<char>>)> {
    km.map@.map_values(|e: (String, Vec<String>)| (e.0@, strings_view(e.1@)))
}

/// Copies a list of strings.
pub fn clone_strings(v: &Vec<String>) -> (r: Vec<String>)
    ensures
        strings_view(r@) == strings_view(v@),
{
    let mut r: Vec<String> = Vec::new();
    let mut i: usize = 0;
    while i < v.len()
        invariant
            i <= v@.len(),
            r@.len() == i,
            forall|j: int| 0 <= j < i ==> #[trigger] r@[j]@ == v@[j]@,
        decreases v@.len() - i,
    {
        r.push(v[i].clone());
        i = i + 1;
    }
    assert(strings_view(r@) =~= strings_view(v@));
    r
}

impl KeyMap {
    /// Copies a keymap entry by entry.
    pub fn duplicate(&self) -> (r: KeyMap)
        ensures
            r.board@ == self.board@,
            keymap_entries(r) == keymap_entries(*self),
    {
        let mut map: Vec<(String, Vec<String>)> = Vec::new();
        let mut i: usize = 0;
        while i < self.map.len()
            invariant
                i <= self.map@.len(),
                map@.len() == i,
                forall|j: int|
                    0 <= j < i ==> #[trigger] map@[j].0@ == self.map@[j].0@ && strings_view(
                        map@[j].1@,
                    ) == strings_view(self.map@[j].1@),
            decreases self.map@.len() - i,
        {
            let names = clone_strings(&self.map[i].1);
            map.push((self.map[i].0.clone(), names));
            i = i + 1;
        }
        let r = KeyMap { board: self.board.clone(), map };
        assert(keymap_entries(r) =~= keymap_entries(*self));
        r
    }
}

} // verus!
