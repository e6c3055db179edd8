use vstd::prelude::*;

use crate::keymap::KeyMap;

verus! {

/// One physical key of the board.
pub struct Key {
    /// Stable name of the key, independent of layer and scancode.
    pub logical_name: String,
    /// Position `(row, column)` in the board's scan matrix.
    pub electrical: (u8, u8),
    /// One `(code, name)` pair per layer.
    pub scancodes: Vec<(u16, String)>,
    /// LEDs driven by this key; empty on boards without per-key lighting.
    pub leds: Vec<u8>,
}

/// The `(code, name)` pairs of one key, with names as character sequences.
pub open spec fn scancodes_view(k: Key) -> Seq<(u16, Seq<char>)> {
    k.scancodes@.map_values(|p: (u16, String)| (p.0, p.1@))
}

/// The names of a key's scancodes, one per layer.
pub open spec fn names_view(k: Key) -> Seq<Seq<char>> {
    k.scancodes@.map_values(|p: (u16, String)| p.1@)
}

/// Capabilities of a board.
#[derive(Clone, Copy, Debug, PartialEq, Eq, Structural)]
pub struct LayoutMeta {
    /// The board has selectable backlight modes.
    pub has_mode: bool,
    /// Each layer has an LED address of its own (`0xf0 + layer`).
    pub has_per_layer: bool,
    /// How many layers every key has.
    pub num_layers: u8,
}

/// The first LED address of per-layer boards; layer `l` is at `PER_LAYER_LED_BASE + l`.
pub const PER_LAYER_LED_BASE: u8 = 0xf0;

/// The LED address of the whole keyboard on boards without per-layer LEDs.
pub const GLOBAL_LED: u8 = 0xff;

/// The most layers a board can have: their LED addresses must stay below
/// `GLOBAL_LED`.
pub const MAX_LAYERS: u8 = 15;

impl LayoutMeta {
    pub open spec fn wf(self) -> bool {
        1 <= self.num_layers <= MAX_LAYERS
    }

    /// Checks that the layer count is usable.
    pub fn is_valid(&self) -> (r: bool)
        ensures
            r == self.wf(),
    {
        1 <= self.num_layers && self.num_layers <= MAX_LAYERS
    }
}

/// The board's table between scancode names and numeric codes, in both
/// directions: no name and no code occurs twice.
pub struct ScancodeTable {
    entries: Vec<(String, u16)>,
}

/// No two entries share a name, and no two share a code.
pub open spec fn entries_distinct(e: Seq<(String, u16)>) -> bool {
    &&& forall|i: int, j: int|
        0 <= i < e.len() && 0 <= j < e.len() && i != j ==> #[trigger] e[i].0@ != #[trigger] e[j].0@
    &&& forall|i: int, j: int|
        0 <= i < e.len() && 0 <= j < e.len() && i != j ==> #[trigger] e[i].1 != #[trigger] e[j].1
}

impl ScancodeTable {
    pub closed spec fn entries_view(&self) -> Seq<(String, u16)> {
        self.entries@
    }

    pub open spec fn wf(&self) -> bool {
        entries_distinct(self.entries_view())
    }

    /// Whether some entry has the name `name`.
    pub open spec fn has_name(&self, name: Seq<char>) -> bool {
        exists|i: int| 0 <= i < self.entries_view().len() && #[trigger] self.entries_view()[i].0@ == name
    }

    /// Whether some entry has the code `code`.
    pub open spec fn has_code(&self, code: u16) -> bool {
        exists|i: int| 0 <= i < self.entries_view().len() && #[trigger] self.entries_view()[i].1 == code
    }

    /// The code that `name` resolves to, if any.
    pub open spec fn code_of(&self, name: Seq<char>) -> Option<u16> {
        if self.has_name(name) {
            Some(
                self.entries_view()[choose|i: int|
                    0 <= i < self.entries_view().len() && #[trigger] self.entries_view()[i].0@
                        == name].1,
            )
        } else {
            None
        }
    }

    /// The name of `code`; the empty name for a code the table lacks.
    pub open spec fn name_of(&self, code: u16) -> Seq<char> {
        if self.has_code(code) {
            self.entries_view()[choose|i: int|
                0 <= i < self.entries_view().len() && #[trigger] self.entries_view()[i].1
                    == code].0@
        } else {
            Seq::empty()
        }
    }

    /// The code a name resolves to has that name.
    pub proof fn lemma_name_of_code_of(&self, name: Seq<char>)
        requires
            self.wf(),
            self.has_name(name),
        ensures
            self.name_of(self.code_of(name)->0) == name,
    {
        let e = self.entries_view();
        let i = choose|i: int| 0 <= i < e.len() && #[trigger] e[i].0@ == name;
        let c = e[i].1;
        assert(self.has_code(c));
        let j = choose|j: int| 0 <= j < e.len() && #[trigger] e[j].1 == c;
        assert(j == i);
    }

    /// Builds the table, refusing a list in which a name or a code repeats.
    pub fn new(entries: Vec<(String, u16)>) -> (r: Option<ScancodeTable>)
        ensures
            r is Some <==> entries_distinct(entries@),
            r is Some ==> r->0.entries_view() == entries@ && r->0.wf(),
    {
        let n = entries.len();
        let mut i: usize = 0;
        while i < n
            invariant
                n == entries@.len(),
                i <= n,
                forall|a: int, b: int|
                    0 <= a < i && 0 <= b < n && a != b ==> #[trigger] entries@[a].0@
                        != #[trigger] entries@[b].0@,
                forall|a: int, b: int|
                    0 <= a < i && 0 <= b < n && a != b ==> #[trigger] entries@[a].1
                        != #[trigger] entries@[b].1,
            decreases n - i,
        {
            let mut j: usize = 0;
            while j < n
                invariant
                    n == entries@.len(),
                    i < n,
                    j <= n,
                    forall|a: int, b: int|
                        0 <= a < i && 0 <= b < n && a != b ==> #[trigger] entries@[a].0@
                            != #[trigger] entries@[b].0@,
                    forall|a: int, b: int|
                        0 <= a < i && 0 <= b < n && a != b ==> #[trigger] entries@[a].1
                            != #[trigger] entries@[b].1,
                    forall|b: int|
                        0 <= b < j && b != i ==> entries@[i as int].0@ != #[trigger] entries@[b].0@,
                    forall|b: int|
                        0 <= b < j && b != i ==> entries@[i as int].1 != #[trigger] entries@[b].1,
                decreases n - j,
            {
                if j != i {
                    let same_name = entries[i].0 == entries[j].0;
                    if same_name || entries[i].1 == entries[j].1 {
                        return None;
                    }
                }
                j = j + 1;
            }
            assert forall|b: int| 0 <= b < n && b != i implies entries@[i as int].0@
                != #[trigger] entries@[b].0@ && entries@[b].0@ != entries@[i as int].0@ by {}
            assert forall|b: int| 0 <= b < n && b != i implies entries@[i as int].1
                != #[trigger] entries@[b].1 && entries@[b].1 != entries@[i as int].1 by {}
            i = i + 1;
        }
        Some(ScancodeTable { entries })
    }

    /// Looks up the code of a scancode name.
    pub fn lookup_code(&self, name: &str) -> (r: Option<u16>)
        requires
            self.wf(),
        ensures
            r == self.code_of(name@),
    {
        let target = name.to_owned();
        let mut i: usize = 0;
        while i < self.entries.len()
            invariant
                self.wf(),
                target@ == name@,
                i <= self.entries@.len(),
                forall|a: int| 0 <= a < i ==> #[trigger] self.entries@[a].0@ != name@,
            decreases self.entries@.len() - i,
        {
            if self.entries[i].0 == target {
                let ghost k = choose|k: int|
                    0 <= k < self.entries_view().len() && #[trigger] self.entries_view()[k].0@ == name@;
                assert(self.entries_view()[i as int].0@ == name@);
                assert(k == i);
                return Some(self.entries[i].1);
            }
            i = i + 1;
        }
        None
    }

    /// Whether a scancode name is known.
    pub fn contains_name(&self, name: &str) -> (r: bool)
        requires
            self.wf(),
        ensures
            r == self.has_name(name@),
    {
        self.lookup_code(name).is_some()
    }

    /// Looks up the name of a code; the empty string for an unknown code.
    pub fn lookup_name(&self, code: u16) -> (r: String)
        requires
            self.wf(),
        ensures
            r@ == self.name_of(code),
    {
        let mut i: usize = 0;
        while i < self.entries.len()
            invariant
                self.wf(),
                i <= self.entries@.len(),
                forall|a: int| 0 <= a < i ==> #[trigger] self.entries@[a].1 != code,
            decreases self.entries@.len() - i,
        {
            if self.entries[i].1 == code {
                let ghost k = choose|k: int|
                    0 <= k < self.entries_view().len() && #[trigger] self.entries_view()[k].1 == code;
                assert(self.entries_view()[i as int].1 == code);
                assert(k == i);
                return self.entries[i].0.clone();
            }
            i = i + 1;
        }
        String::new()
    }
}

/// No two keys share a logical name.
pub open spec fn logical_names_distinct(keys: Seq<Key>) -> bool {
    forall|i: int, j: int|
        0 <= i < keys.len() && 0 <= j < keys.len() && i != j ==> #[trigger] keys[i].logical_name@
            != #[trigger] keys[j].logical_name@
}

/// Checks that no two keys share a logical name.
pub fn distinct_logical_names(keys: &Vec<Key>) -> (r: bool)
    ensures
        r == logical_names_distinct(keys@),
{
    let n = keys.len();
    let mut i: usize = 0;
    while i < n
        invariant
            n == keys@.len(),
            i <= n,
            forall|a: int, b: int|
                0 <= a < i && 0 <= b < n && a != b ==> #[trigger] keys@[a].logical_name@
                    != #[trigger] keys@[b].logical_name@,
        decreases n - i,
    {
        let mut j: usize = 0;
        while j < n
            invariant
                n == keys@.len(),
                i < n,
                j <= n,
                forall|a: int, b: int|
                    0 <= a < i && 0 <= b < n && a != b ==> #[trigger] keys@[a].logical_name@
                        != #[trigger] keys@[b].logical_name@,
                forall|b: int|
                    0 <= b < j && b != i ==> keys@[i as int].logical_name@
                        != #[trigger] keys@[b].logical_name@,
            decreases n - j,
        {
            if j != i {
                let same = keys[i].logical_name == keys[j].logical_name;
                if same {
                    return false;
                }
            }
            j = j + 1;
        }
        assert forall|b: int| 0 <= b < n && b != i implies keys@[i as int].logical_name@
            != #[trigger] keys@[b].logical_name@ && keys@[b].logical_name@
            != keys@[i as int].logical_name@ by {}
        i = i + 1;
    }
    true
}

/// Why a board definition cannot be used.
#[derive(Clone, Copy, Debug, PartialEq, Eq, Structural)]
pub enum LayoutError {
    /// The layer count is zero or too large for per-layer LED addresses.
    BadLayerCount,
    /// Two keys share a logical name.
    DuplicateKeyName,
}

/// The fixed definition of a board: its keys, its scancode table, its
/// capabilities and its factory keymap.
pub struct Layout {
    pub meta: LayoutMeta,
    /// The keys in order; their scancodes are filled in from the board.
    pub keys: Vec<Key>,
    pub scancodes: ScancodeTable,
    /// The factory keymap.
    pub default: KeyMap,
}

impl Layout {
    pub open spec fn wf(&self) -> bool {
        &&& self.meta.wf()
        &&& self.scancodes.wf()
        &&& logical_names_distinct(self.keys@)
    }

    /// Assembles a board definition, refusing one whose layer count or key
    /// names cannot be used.
    pub fn new(meta: LayoutMeta, keys: Vec<Key>, scancodes: ScancodeTable, default: KeyMap) -> (r:
        Result<Layout, LayoutError>)
        requires
            scancodes.wf(),
        ensures
            !meta.wf() ==> r == Err::<Layout, LayoutError>(LayoutError::BadLayerCount),
            meta.wf() && !logical_names_distinct(keys@) ==> r == Err::<Layout, LayoutError>(
                LayoutError::DuplicateKeyName,
            ),
            r is Ok <==> meta.wf() && logical_names_distinct(keys@),
            r matches Ok(l) ==> l.wf() && l.meta == meta && l.keys@ == keys@ && l.scancodes
                == scancodes && l.default == default,
    {
        if !meta.is_valid() {
            return Err(LayoutError::BadLayerCount);
        }
        if !distinct_logical_names(&keys) {
            return Err(LayoutError::DuplicateKeyName);
        }
        Ok(Layout { meta, keys, scancodes, default })
    }
}

} // verus!
