use vstd::prelude::*;

use crate::board::BoardCommand;
use crate::keymap::{KeyMap, keymap_entries, strings_view};
use crate::layout::{
    Key,
    Layout,
    LayoutMeta,
    ScancodeTable,
    logical_names_distinct,
    names_view,
    scancodes_view,
};

verus! {

/// The pages of the keyboard view. Only the two layer pages address a layer.
#[derive(Clone, Copy, Debug, PartialEq, Eq, Structural)]
pub enum Page {
    Layer1,
    Layer2,
    Keycaps,
    Logical,
    Electrical,
    Leds,
}

impl Page {
    pub open spec fn layer_spec(self) -> Option<usize> {
        match self {
            Page::Layer1 => Some(0usize),
            Page::Layer2 => Some(1usize),
            _ => None,
        }
    }

    /// The layer this page edits, if it is a layer page.
    pub fn layer(&self) -> (r: Option<usize>)
        ensures
            r == self.layer_spec(),
    {
        match self {
            Page::Layer1 => Some(0),
            Page::Layer2 => Some(1),
            _ => None,
        }
    }
}

/// Why a keymap could not be imported.
#[derive(Clone, Copy, Debug, PartialEq, Eq, Structural)]
pub enum ImportError {
    /// The keymap was made for another board.
    BoardMismatch,
}

/// What observers of the selection are told: the scancode name bound to the
/// selected key on the current layer, and whether it can be edited.
pub struct SelectionView {
    pub scancode_name: Option<String>,
    pub editable: bool,
}

/// The code a board read gave for key `k` on layer `l`; a missing or failed
/// read counts as code 0.
pub open spec fn read_code(reads: Seq<Vec<Option<u16>>>, k: int, l: int) -> u16 {
    if 0 <= k < reads.len() && 0 <= l < reads[k]@.len() && reads[k]@[l] is Some {
        reads[k]@[l]->0
    } else {
        0
    }
}

/// A key's scancodes after the names `names` were set layer by layer;
/// layers past the key's count and unknown names are skipped.
pub open spec fn apply_names(
    sc: Seq<(u16, Seq<char>)>,
    table: ScancodeTable,
    names: Seq<Seq<char>>,
) -> Seq<(u16, Seq<char>)> {
    Seq::new(
        sc.len(),
        |l: int|
            if l < names.len() && table.has_name(names[l]) {
                (table.code_of(names[l])->0, names[l])
            } else {
                sc[l]
            },
    )
}

/// The scancodes of all keys after the entries of a keymap were applied in
/// order; an entry whose logical name no key has is skipped.
pub open spec fn import_state(
    state: Seq<Seq<(u16, Seq<char>)>>,
    logical: Seq<Seq<char>>,
    table: ScancodeTable,
    entries: Seq<(Seq<char>, Seq<Seq<char>>)>,
) -> Seq<Seq<(u16, Seq<char>)>>
    decreases entries.len(),
{
    if entries.len() == 0 {
        state
    } else {
        let prev = import_state(state, logical, table, entries.drop_last());
        let e = entries.last();
        Seq::new(
            prev.len(),
            |k: int|
                if logical[k] == e.0 {
                    apply_names(prev[k], table, e.1)
                } else {
                    prev[k]
                },
        )
    }
}

/// The board writes that setting `names` on the key at `(row, col)` issues.
pub open spec fn name_writes(
    table: ScancodeTable,
    names: Seq<Seq<char>>,
    num_layers: int,
    row: u8,
    col: u8,
) -> Seq<BoardCommand>
    decreases names.len(),
{
    if names.len() == 0 {
        Seq::empty()
    } else {
        let prev = name_writes(table, names.drop_last(), num_layers, row, col);
        let l = names.len() - 1;
        if l < num_layers && table.has_name(names[l]) {
            prev.push(
                BoardCommand::WriteScancode {
                    layer: l as u8,
                    row,
                    col,
                    code: table.code_of(names[l])->0,
                },
            )
        } else {
            prev
        }
    }
}

/// The index of the key named `name`.
pub open spec fn key_index_of(logical: Seq<Seq<char>>, name: Seq<char>) -> int {
    choose|k: int| 0 <= k < logical.len() && logical[k] == name
}

/// The board writes that importing `entries` issues, in order.
pub open spec fn import_writes(
    logical: Seq<Seq<char>>,
    electrical: Seq<(u8, u8)>,
    table: ScancodeTable,
    entries: Seq<(Seq<char>, Seq<Seq<char>>)>,
    num_layers: int,
) -> Seq<BoardCommand>
    decreases entries.len(),
{
    if entries.len() == 0 {
        Seq::empty()
    } else {
        let prev = import_writes(logical, electrical, table, entries.drop_last(), num_layers);
        let e = entries.last();
        if exists|k: int| 0 <= k < logical.len() && logical[k] == e.0 {
            let k = key_index_of(logical, e.0);
            prev + name_writes(table, e.1, num_layers, electrical[k].0, electrical[k].1)
        } else {
            prev
        }
    }
}

/// The keymap entries that exporting keys with these names and scancodes gives.
pub open spec fn export_entries(
    logical: Seq<Seq<char>>,
    state: Seq<Seq<(u16, Seq<char>)>>,
) -> Seq<(Seq<char>, Seq<Seq<char>>)> {
    Seq::new(logical.len(), |k: int| (logical[k], state[k].map_values(|p: (u16, Seq<char>)| p.1)))
}

/// The scancode names of every key, layer by layer.
pub open spec fn state_names(state: Seq<Seq<(u16, Seq<char>)>>) -> Seq<Seq<Seq<char>>> {
    state.map_values(|sc: Seq<(u16, Seq<char>)>| sc.map_values(|p: (u16, Seq<char>)| p.1))
}

/// The state of a keyboard: its definition, its keys with their current
/// scancodes, the page on show and the selected key.
pub struct KeyboardInner {
    board_name: String,
    meta: LayoutMeta,
    scancodes: ScancodeTable,
    default_layout: KeyMap,
    keys: Vec<Key>,
    page: Page,
    selected: Option<usize>,
}

/// The keymap controller of one board.
pub struct Keyboard {
    inner: KeyboardInner,
}

impl Keyboard {
    pub closed spec fn keys_view(&self) -> Seq<Key> {
        self.inner.keys@
    }

    pub closed spec fn board_name_view(&self) -> Seq<char> {
        self.inner.board_name@
    }

    pub closed spec fn meta_view(&self) -> LayoutMeta {
        self.inner.meta
    }

    pub closed spec fn table(&self) -> ScancodeTable {
        self.inner.scancodes
    }

    pub closed spec fn default_entries(&self) -> Seq<(Seq<char>, Seq<Seq<char>>)> {
        keymap_entries(self.inner.default_layout)
    }

    pub closed spec fn default_board(&self) -> Seq<char> {
        self.inner.default_layout.board@
    }

    pub closed spec fn page_view(&self) -> Page {
        self.inner.page
    }

    pub closed spec fn selected_view(&self) -> Option<usize> {
        self.inner.selected
    }

    /// The `(code, name)` pairs of every key, layer by layer.
    pub open spec fn scancode_state(&self) -> Seq<Seq<(u16, Seq<char>)>> {
        self.keys_view().map_values(|k: Key| scancodes_view(k))
    }

    pub open spec fn logical_names(&self) -> Seq<Seq<char>> {
        self.keys_view().map_values(|k: Key| k.logical_name@)
    }

    pub open spec fn electrical(&self) -> Seq<(u8, u8)> {
        self.keys_view().map_values(|k: Key| k.electrical)
    }

    pub open spec fn leds(&self) -> Seq<Seq<u8>> {
        self.keys_view().map_values(|k: Key| k.leds@)
    }

    pub open spec fn wf(&self) -> bool {
        &&& self.meta_view().wf()
        &&& self.table().wf()
        &&& logical_names_distinct(self.keys_view())
        &&& forall|k: int|
            0 <= k < self.keys_view().len() ==> (#[trigger] self.keys_view()[k]).scancodes@.len()
                == self.meta_view().num_layers
        &&& forall|k: int, l: int|
            0 <= k < self.keys_view().len() && 0 <= l < self.meta_view().num_layers ==> (
            #[trigger] self.scancode_state()[k][l]).1 == self.table().name_of(
                self.scancode_state()[k][l].0,
            )
        &&& self.selected_view() matches Some(i) ==> i < self.keys_view().len()
    }

    /// Everything but the scancodes, the page and the selection is as in `other`.
    pub open spec fn same_definition(&self, other: &Keyboard) -> bool {
        &&& self.keys_view().len() == other.keys_view().len()
        &&& self.logical_names() == other.logical_names()
        &&& self.electrical() == other.electrical()
        &&& self.leds() == other.leds()
        &&& self.board_name_view() == other.board_name_view()
        &&& self.meta_view() == other.meta_view()
        &&& self.table() == other.table()
        &&& self.default_entries() == other.default_entries()
        &&& self.default_board() == other.default_board()
    }

    /// The layer the current page edits.
    pub open spec fn layer_view(&self) -> Option<usize> {
        self.page_view().layer_spec()
    }

    /// The scancode name of the selected key on the current layer, if both exist.
    pub open spec fn selected_name(&self) -> Option<Seq<char>> {
        match (self.selected_view(), self.layer_view()) {
            (Some(i), Some(l)) => if l < self.scancode_state()[i as int].len() {
                Some(self.scancode_state()[i as int][l as int].1)
            } else {
                None
            },
            _ => None,
        }
    }

    /// Whether the selection can be edited: a key is selected on a layer page.
    pub open spec fn editable_view(&self) -> bool {
        self.selected_view() is Some && self.layer_view() is Some
    }

    /// `v` tells what observers of this keyboard's selection should show.
    pub open spec fn publishes(&self, v: SelectionView) -> bool {
        &&& v.editable == self.editable_view()
        &&& v.scancode_name is Some <==> self.selected_name() is Some
        &&& v.scancode_name matches Some(n) ==> n@ == self.selected_name()->0
    }
}

impl Keyboard {
    /// Builds the controller of a board from its definition and the codes
    /// read from the board for each key and layer (`reads[k][l]`, `None` where
    /// the read failed). A failed or missing read counts as code 0, whose name
    /// is looked up like any other.
    pub fn new_layout(board_name: &str, layout: Layout, reads: &Vec<Vec<Option<u16>>>) -> (r:
        Keyboard)
        requires
            layout.wf(),
        ensures
            r.wf(),
            r.board_name_view() == board_name@,
            r.meta_view() == layout.meta,
            r.table() == layout.scancodes,
            r.default_entries() == keymap_entries(layout.default),
            r.default_board() == layout.default.board@,
            r.page_view() == Page::Layer1,
            r.selected_view() is None,
            r.keys_view().len() == layout.keys@.len(),
            forall|k: int|
                0 <= k < layout.keys@.len() ==> {
                    &&& (#[trigger] r.keys_view()[k]).logical_name@ == layout.keys@[k].logical_name@
                    &&& r.keys_view()[k].electrical == layout.keys@[k].electrical
                    &&& r.keys_view()[k].leds@ == layout.keys@[k].leds@
                },
            forall|k: int, l: int|
                0 <= k < layout.keys@.len() && 0 <= l < layout.meta.num_layers ==> #[trigger] r.scancode_state()[k][l]
                    == (read_code(reads@, k, l), layout.scancodes.name_of(read_code(reads@, k, l))),
    {
        let Layout { meta, keys, scancodes, default } = layout;
        let mut keys = keys;
        let ghost keys0 = keys@;
        let n = keys.len();
        let mut k: usize = 0;
        while k < n
            invariant
                n == keys@.len(),
                keys0.len() == n,
                k <= n,
                meta.wf(),
                scancodes.wf(),
                forall|j: int|
                    0 <= j < n ==> {
                        &&& (#[trigger] keys@[j]).logical_name == keys0[j].logical_name
                        &&& keys@[j].electrical == keys0[j].electrical
                        &&& keys@[j].leds == keys0[j].leds
                    },
                forall|j: int| 0 <= j < k ==> (#[trigger] keys@[j]).scancodes@.len() == meta.num_layers,
                forall|j: int, l: int|
                    0 <= j < k && 0 <= l < meta.num_layers ==> #[trigger] scancodes_view(keys@[j])[l]
                        == (read_code(reads@, j, l), scancodes.name_of(read_code(reads@, j, l))),
            decreases n - k,
        {
            let mut sc: Vec<(u16, String)> = Vec::new();
            let mut l: u8 = 0;
            while l < meta.num_layers
                invariant
                    k < n,
                    l <= meta.num_layers,
                    sc@.len() == l,
                    scancodes.wf(),
                    forall|m: int|
                        0 <= m < l ==> (#[trigger] sc@[m]).0 == read_code(reads@, k as int, m)
                            && sc@[m].1@ == scancodes.name_of(read_code(reads@, k as int, m)),
                decreases meta.num_layers - l,
            {
                let mut code: u16 = 0;
                if k < reads.len() && (l as usize) < reads[k].len() {
                    if let Some(c) = reads[k][l as usize] {
                        code = c;
                    }
                }
                let name = scancodes.lookup_name(code);
                sc.push((code, name));
                l = l + 1;
            }
            keys[k].scancodes = sc;
            k = k + 1;
        }
        let kb = Keyboard {
            inner: KeyboardInner {
                board_name: board_name.to_owned(),
                meta,
                scancodes,
                default_layout: default,
                keys,
                page: Page::Layer1,
                selected: None,
            },
        };
        assert forall|k: int, l: int|
            0 <= k < n && 0 <= l < meta.num_layers implies #[trigger] kb.scancode_state()[k][l]
            == (read_code(reads@, k, l), scancodes.name_of(read_code(reads@, k, l))) by {
            assert(kb.scancode_state()[k] == scancodes_view(kb.keys_view()[k]));
        }
        assert(logical_names_distinct(kb.keys_view())) by {
            assert forall|i: int, j: int|
                0 <= i < n && 0 <= j < n && i != j implies #[trigger] kb.keys_view()[i].logical_name@
                != #[trigger] kb.keys_view()[j].logical_name@ by {
                assert(keys0[i].logical_name@ != keys0[j].logical_name@);
            }
        }
        kb
    }
}

impl Keyboard {
    /// The layer the current page edits; none on pages that show no layer.
    pub fn layer(&self) -> (r: Option<usize>)
        ensures
            r == self.layer_view(),
    {
        self.inner.page.layer()
    }

    /// The selected key.
    pub fn selected(&self) -> (r: Option<usize>)
        ensures
            r == self.selected_view(),
    {
        self.inner.selected
    }

    /// The name of the board this controller drives.
    pub fn board_name(&self) -> (r: &str)
        ensures
            r@ == self.board_name_view(),
    {
        self.inner.board_name.as_str()
    }

    /// The board's capabilities.
    pub fn meta(&self) -> (r: LayoutMeta)
        ensures
            r == self.meta_view(),
    {
        self.inner.meta
    }

    /// Whether `scancode_name` names a scancode of this board.
    pub fn has_scancode(&self, scancode_name: &str) -> (r: bool)
        requires
            self.wf(),
        ensures
            r == self.table().has_name(scancode_name@),
    {
        self.inner.scancodes.contains_name(scancode_name)
    }

    /// The keys with their current scancodes.
    pub fn keys(&self) -> (r: &Vec<Key>)
        ensures
            r@ == self.keys_view(),
    {
        &self.inner.keys
    }

    /// Binds `scancode_name` to the key `key_index` on `layer`. An unknown
    /// name changes nothing and yields no write; otherwise the key's entry
    /// becomes `(code, name)` and the write that programs the board is
    /// returned. The entry stays set even if that write later fails.
    pub fn keymap_set(&mut self, key_index: usize, layer: usize, scancode_name: &str) -> (r: Option<
        BoardCommand,
    >)
        requires
            old(self).wf(),
            key_index < old(self).keys_view().len(),
            layer < old(self).meta_view().num_layers,
        ensures
            final(self).wf(),
            old(self).table().code_of(scancode_name@) is None ==> r is None && *final(self) == *old(
                self,
            ),
            old(self).table().code_of(scancode_name@) matches Some(c) ==> {
                &&& r == Some(
                    BoardCommand::WriteScancode {
                        layer: layer as u8,
                        row: old(self).electrical()[key_index as int].0,
                        col: old(self).electrical()[key_index as int].1,
                        code: c,
                    },
                )
                &&& final(self).scancode_state() == old(self).scancode_state().update(
                    key_index as int,
                    old(self).scancode_state()[key_index as int].update(
                        layer as int,
                        (c, scancode_name@),
                    ),
                )
                &&& final(self).same_definition(old(self))
                &&& final(self).page_view() == old(self).page_view()
                &&& final(self).selected_view() == old(self).selected_view()
            },
    {
        let found = self.inner.scancodes.lookup_code(scancode_name);
        match found {
            None => None,
            Some(code) => {
                let ghost pre = *self;
                proof {
                    pre.table().lemma_name_of_code_of(scancode_name@);
                }
                let name = scancode_name.to_owned();
                self.inner.keys[key_index].scancodes[layer] = (code, name);
                let (row, col) = self.inner.keys[key_index].electrical;
                proof {
                    assert(scancodes_view(self.keys_view()[key_index as int])
                        =~= pre.scancode_state()[key_index as int].update(
                        layer as int,
                        (code, scancode_name@),
                    ));
                    assert(self.scancode_state() =~= pre.scancode_state().update(
                        key_index as int,
                        pre.scancode_state()[key_index as int].update(
                            layer as int,
                            (code, scancode_name@),
                        ),
                    ));
                    assert(self.logical_names() =~= pre.logical_names());
                    assert(self.electrical() =~= pre.electrical());
                    assert(self.leds() =~= pre.leds());
                    assert(logical_names_distinct(self.keys_view())) by {
                        assert forall|i: int, j: int|
                            0 <= i < self.keys_view().len() && 0 <= j < self.keys_view().len() && i
                                != j implies #[trigger] self.keys_view()[i].logical_name@
                            != #[trigger] self.keys_view()[j].logical_name@ by {
                            assert(pre.keys_view()[i].logical_name@
                                != pre.keys_view()[j].logical_name@);
                        }
                    }
                }
                Some(BoardCommand::WriteScancode { layer: layer as u8, row, col, code })
            },
        }
    }

    /// The keymap of the current scancode names, keyed by logical name in key
    /// order, for this board.
    pub fn export_keymap(&self) -> (r: KeyMap)
        ensures
            r.board@ == self.board_name_view(),
            keymap_entries(r) == export_entries(self.logical_names(), self.scancode_state()),
    {
        let mut map: Vec<(String, Vec<String>)> = Vec::new();
        let n = self.inner.keys.len();
        let mut k: usize = 0;
        while k < n
            invariant
                n == self.keys_view().len(),
                k <= n,
                map@.len() == k,
                forall|j: int|
                    0 <= j < k ==> (#[trigger] map@[j]).0@ == self.keys_view()[j].logical_name@
                        && strings_view(map@[j].1@) == names_view(self.keys_view()[j]),
            decreases n - k,
        {
            let key = &self.inner.keys[k];
            let mut names: Vec<String> = Vec::new();
            let mut l: usize = 0;
            while l < key.scancodes.len()
                invariant
                    l <= key.scancodes@.len(),
                    names@.len() == l,
                    forall|m: int| 0 <= m < l ==> (#[trigger] names@[m])@ == key.scancodes@[m].1@,
                decreases key.scancodes@.len() - l,
            {
                names.push(key.scancodes[l].1.clone());
                l = l + 1;
            }
            assert(strings_view(names@) =~= names_view(*key));
            map.push((key.logical_name.clone(), names));
            k = k + 1;
        }
        let r = KeyMap { board: self.inner.board_name.clone(), map };
        assert forall|j: int| 0 <= j < n implies #[trigger] keymap_entries(r)[j]
            == export_entries(self.logical_names(), self.scancode_state())[j] by {
            assert(names_view(self.keys_view()[j]) =~= self.scancode_state()[j].map_values(
                |p: (u16, Seq<char>)| p.1,
            ));
        }
        assert(keymap_entries(r) =~= export_entries(self.logical_names(), self.scancode_state()));
        r
    }

    /// Whether the selection can be edited now.
    pub fn editable(&self) -> (r: bool)
        ensures
            r == self.editable_view(),
    {
        self.inner.selected.is_some() && self.inner.page.layer().is_some()
    }

    /// What observers of the selection should show now.
    pub fn selection(&self) -> (r: SelectionView)
        requires
            self.wf(),
        ensures
            self.publishes(r),
    {
        let editable = self.inner.selected.is_some() && self.inner.page.layer().is_some();
        let mut scancode_name: Option<String> = None;
        if let Some(i) = self.inner.selected {
            if let Some(layer) = self.inner.page.layer() {
                if layer < self.inner.keys[i].scancodes.len() {
                    scancode_name = Some(self.inner.keys[i].scancodes[layer].1.clone());
                }
            }
        }
        SelectionView { scancode_name, editable }
    }

    /// Selects a key, or none, and returns what observers should show.
    pub fn set_selected(&mut self, i: Option<usize>) -> (r: SelectionView)
        requires
            old(self).wf(),
            i matches Some(k) ==> k < old(self).keys_view().len(),
        ensures
            final(self).wf(),
            final(self).selected_view() == i,
            final(self).page_view() == old(self).page_view(),
            final(self).keys_view() == old(self).keys_view(),
            final(self).same_definition(old(self)),
            final(self).publishes(r),
    {
        let ghost pre = *self;
        self.inner.selected = i;
        assert(self.scancode_state() == pre.scancode_state());
        self.selection()
    }

    /// Shows `page`. When that changes the layer being edited, the selection
    /// is published anew against the new layer; otherwise nothing is.
    pub fn set_page(&mut self, page: Page) -> (r: Option<SelectionView>)
        requires
            old(self).wf(),
        ensures
            final(self).wf(),
            final(self).page_view() == page,
            final(self).selected_view() == old(self).selected_view(),
            final(self).keys_view() == old(self).keys_view(),
            final(self).same_definition(old(self)),
            r is Some <==> page.layer_spec() != old(self).layer_view(),
            r matches Some(v) ==> final(self).publishes(v),
    {
        let last_layer = self.layer();
        let ghost pre = *self;
        self.inner.page = page;
        assert(self.scancode_state() == pre.scancode_state());
        if self.layer() != last_layer {
            let selected = self.inner.selected;
            Some(self.set_selected(selected))
        } else {
            None
        }
    }
}

impl Keyboard {
    /// The index of the key whose logical name is `name`.
    fn position_of(&self, name: &String) -> (r: Option<usize>)
        ensures
            r matches Some(k) ==> k < self.keys_view().len() && self.logical_names()[k as int]
                == name@,
            r is None ==> forall|k: int|
                0 <= k < self.keys_view().len() ==> self.logical_names()[k] != name@,
    {
        let mut k: usize = 0;
        while k < self.inner.keys.len()
            invariant
                k <= self.keys_view().len(),
                forall|j: int| 0 <= j < k ==> self.logical_names()[j] != name@,
            decreases self.keys_view().len() - k,
        {
            let same = self.inner.keys[k].logical_name == *name;
            if same {
                return Some(k);
            }
            k = k + 1;
        }
        None
    }

    /// Applies a keymap made for this board: each entry sets, layer by
    /// layer, the key with that logical name through `keymap_set`. Entries
    /// for keys the board lacks, unknown scancode names and layers past the
    /// board's count are skipped; what was applied stays applied. Returns the
    /// board writes in order, or `BoardMismatch`, changing nothing, when the
    /// keymap names another board.
    pub fn import_keymap(&mut self, keymap: &KeyMap) -> (r: Result<Vec<BoardCommand>, ImportError>)
        requires
            old(self).wf(),
        ensures
            final(self).wf(),
            keymap.board@ != old(self).board_name_view() ==> r == Err::<Vec<BoardCommand>, ImportError>(
                ImportError::BoardMismatch,
            ) && *final(self) == *old(self),
            keymap.board@ == old(self).board_name_view() ==> {
                &&& r matches Ok(w) && w@ == import_writes(
                    old(self).logical_names(),
                    old(self).electrical(),
                    old(self).table(),
                    keymap_entries(*keymap),
                    old(self).meta_view().num_layers as int,
                )
                &&& final(self).scancode_state() == import_state(
                    old(self).scancode_state(),
                    old(self).logical_names(),
                    old(self).table(),
                    keymap_entries(*keymap),
                )
                &&& final(self).same_definition(old(self))
                &&& final(self).page_view() == old(self).page_view()
                &&& final(self).selected_view() == old(self).selected_view()
            },
    {
        let same_board = keymap.board == self.inner.board_name;
        if !same_board {
            return Err(ImportError::BoardMismatch);
        }
        let ghost entries = keymap_entries(*keymap);
        let ghost pre = *self;
        let ghost nl = pre.meta_view().num_layers as int;
        let mut writes: Vec<BoardCommand> = Vec::new();
        let mut i: usize = 0;
        assert(entries.take(0) =~= Seq::<(Seq<char>, Seq<Seq<char>>)>::empty());
        while i < keymap.map.len()
            invariant
                pre.wf(),
                self.wf(),
                self.same_definition(&pre),
                self.page_view() == pre.page_view(),
                self.selected_view() == pre.selected_view(),
                nl == pre.meta_view().num_layers,
                entries == keymap_entries(*keymap),
                i <= keymap.map@.len(),
                self.scancode_state() == import_state(
                    pre.scancode_state(),
                    pre.logical_names(),
                    pre.table(),
                    entries.take(i as int),
                ),
                writes@ == import_writes(
                    pre.logical_names(),
                    pre.electrical(),
                    pre.table(),
                    entries.take(i as int),
                    nl,
                ),
            decreases keymap.map@.len() - i,
        {
            let ghost before = *self;
            let ghost w0 = writes@;
            let name = &keymap.map[i].0;
            let names = &keymap.map[i].1;
            let ghost ns = strings_view(names@);
            assert(entries.take(i + 1).drop_last() =~= entries.take(i as int));
            assert(entries.take(i + 1).last() == (name@, ns));
            match self.position_of(name) {
                None => {
                    let ghost prev = before.scancode_state();
                    assert(import_state(
                        pre.scancode_state(),
                        pre.logical_names(),
                        pre.table(),
                        entries.take(i + 1),
                    ) =~= prev);
                },
                Some(n) => {
                    let ghost row = pre.electrical()[n as int].0;
                    let ghost col = pre.electrical()[n as int].1;
                    let mut l: usize = 0;
                    assert(ns.take(0) =~= Seq::<Seq<char>>::empty());
                    assert(apply_names(before.scancode_state()[n as int], pre.table(), ns.take(0))
                        =~= before.scancode_state()[n as int]);
                    assert(before.scancode_state() =~= before.scancode_state().update(
                        n as int,
                        apply_names(before.scancode_state()[n as int], pre.table(), ns.take(0)),
                    ));
                    assert(writes@ =~= w0 + name_writes(pre.table(), ns.take(0), nl, row, col));
                    while l < names.len()
                        invariant
                            pre.wf(),
                            self.wf(),
                            self.same_definition(&pre),
                            self.page_view() == pre.page_view(),
                            self.selected_view() == pre.selected_view(),
                            nl == pre.meta_view().num_layers,
                            n < pre.keys_view().len(),
                            row == pre.electrical()[n as int].0,
                            col == pre.electrical()[n as int].1,
                            ns == strings_view(names@),
                            l <= names@.len(),
                            before.scancode_state().len() == pre.keys_view().len(),
                            before.scancode_state()[n as int].len() == nl,
                            self.scancode_state() == before.scancode_state().update(
                                n as int,
                                apply_names(
                                    before.scancode_state()[n as int],
                                    pre.table(),
                                    ns.take(l as int),
                                ),
                            ),
                            writes@ == w0 + name_writes(pre.table(), ns.take(l as int), nl, row, col),
                        decreases names@.len() - l,
                    {
                        let ghost mid = *self;
                        let ghost wm = writes@;
                        assert(ns.take(l + 1).drop_last() =~= ns.take(l as int));
                        if l < self.inner.meta.num_layers as usize {
                            let w = self.keymap_set(n, l, names[l].as_str());
                            if let Some(w) = w {
                                writes.push(w);
                            }
                        }
                        proof {
                            let sc0 = before.scancode_state()[n as int];
                            let a0 = apply_names(sc0, pre.table(), ns.take(l as int));
                            let a1 = apply_names(sc0, pre.table(), ns.take(l + 1));
                            assert(mid.scancode_state()[n as int] == a0);
                            if l < nl && pre.table().has_name(ns[l as int]) {
                                assert(a1 =~= a0.update(
                                    l as int,
                                    (pre.table().code_of(ns[l as int])->0, ns[l as int]),
                                ));
                            } else {
                                assert(a1 =~= a0);
                            }
                        }
                        assert(self.scancode_state() =~= before.scancode_state().update(
                            n as int,
                            apply_names(
                                before.scancode_state()[n as int],
                                pre.table(),
                                ns.take(l + 1),
                            ),
                        ));
                        assert(writes@ =~= w0 + name_writes(
                            pre.table(),
                            ns.take(l + 1),
                            nl,
                            row,
                            col,
                        ));
                        l = l + 1;
                    }
                    assert(ns.take(names@.len() as int) =~= ns);
                    let ghost prev = before.scancode_state();
                    assert(key_index_of(pre.logical_names(), name@) == n as int) by {
                        let k = key_index_of(pre.logical_names(), name@);
                        assert(0 <= k < pre.logical_names().len() && pre.logical_names()[k]
                            == name@);
                        if k != n {
                            assert(pre.keys_view()[k].logical_name@
                                != pre.keys_view()[n as int].logical_name@);
                        }
                    }
                    assert forall|k: int| 0 <= k < prev.len() && k != n implies pre.logical_names()[k]
                        != name@ by {
                        assert(pre.keys_view()[k].logical_name@
                            != pre.keys_view()[n as int].logical_name@);
                    }
                    assert(import_state(
                        pre.scancode_state(),
                        pre.logical_names(),
                        pre.table(),
                        entries.take(i + 1),
                    ) =~= prev.update(n as int, apply_names(prev[n as int], pre.table(), ns)));
                },
            }
            i = i + 1;
        }
        assert(entries.take(keymap.map@.len() as int) =~= entries);
        Ok(writes)
    }
}

impl Keyboard {
    /// Restores the board's factory keymap through the same path as
    /// `import_keymap`.
    pub fn reset(&mut self) -> (r: Result<Vec<BoardCommand>, ImportError>)
        requires
            old(self).wf(),
        ensures
            final(self).wf(),
            old(self).default_board() != old(self).board_name_view() ==> r == Err::<
                Vec<BoardCommand>,
                ImportError,
            >(ImportError::BoardMismatch) && *final(self) == *old(self),
            old(self).default_board() == old(self).board_name_view() ==> {
                &&& r matches Ok(w) && w@ == import_writes(
                    old(self).logical_names(),
                    old(self).electrical(),
                    old(self).table(),
                    old(self).default_entries(),
                    old(self).meta_view().num_layers as int,
                )
                &&& final(self).scancode_state() == import_state(
                    old(self).scancode_state(),
                    old(self).logical_names(),
                    old(self).table(),
                    old(self).default_entries(),
                )
                &&& final(self).same_definition(old(self))
                &&& final(self).page_view() == old(self).page_view()
                &&& final(self).selected_view() == old(self).selected_view()
            },
    {
        let keymap = self.inner.default_layout.duplicate();
        self.import_keymap(&keymap)
    }
}

/// Every scancode name in `state` is one that `table` resolves.
pub open spec fn all_names_known(state: Seq<Seq<(u16, Seq<char>)>>, table: ScancodeTable) -> bool {
    forall|k: int, l: int|
        0 <= k < state.len() && 0 <= l < state[k].len() ==> table.has_name(
            #[trigger] state[k][l].1,
        )
}

/// No two keys share a logical name.
pub open spec fn seq_distinct(logical: Seq<Seq<char>>) -> bool {
    forall|i: int, j: int|
        0 <= i < logical.len() && 0 <= j < logical.len() && i != j ==> #[trigger] logical[i]
            != #[trigger] logical[j]
}

proof fn lemma_import_export_prefix(
    state: Seq<Seq<(u16, Seq<char>)>>,
    logical: Seq<Seq<char>>,
    table: ScancodeTable,
    m: int,
)
    requires
        seq_distinct(logical),
        state.len() == logical.len(),
        0 <= m <= logical.len(),
        all_names_known(state, table),
    ensures
        ({
            let r = import_state(state, logical, table, export_entries(logical, state).take(m));
            &&& r.len() == state.len()
            &&& forall|k: int|
                0 <= k < state.len() ==> (#[trigger] r[k]).len() == state[k].len() && forall|l: int|
                    0 <= l < state[k].len() ==> (#[trigger] r[k][l]).1 == state[k][l].1
        }),
    decreases m,
{
    if m > 0 {
        lemma_import_export_prefix(state, logical, table, m - 1);
        let all = export_entries(logical, state);
        assert(all.take(m).drop_last() =~= all.take(m - 1));
        let prev = import_state(state, logical, table, all.take(m - 1));
        let r = import_state(state, logical, table, all.take(m));
        let e = all[m - 1];
        assert(all.take(m).last() == e);
        assert forall|k: int| 0 <= k < state.len() implies (#[trigger] r[k]).len() == state[k].len()
            && forall|l: int| 0 <= l < state[k].len() ==> (#[trigger] r[k][l]).1 == state[k][l].1 by {
            if logical[k] == e.0 {
                assert(k == m - 1);
                assert forall|l: int| 0 <= l < state[k].len() implies (#[trigger] r[k][l]).1
                    == state[k][l].1 by {
                    assert(e.1[l] == state[k][l].1);
                    assert(table.has_name(state[k][l].1));
                }
            }
        }
    }
}

/// Exporting the keymap and importing it again into the same keyboard gives
/// every key the scancode names it had, layer by layer, provided every name
/// in use is one the board knows (none of the entries is skipped).
pub proof fn lemma_export_import_round_trip(kb: Keyboard)
    requires
        kb.wf(),
        all_names_known(kb.scancode_state(), kb.table()),
    ensures
        state_names(
            import_state(
                kb.scancode_state(),
                kb.logical_names(),
                kb.table(),
                export_entries(kb.logical_names(), kb.scancode_state()),
            ),
        ) == state_names(kb.scancode_state()),
{
    let state = kb.scancode_state();
    let logical = kb.logical_names();
    assert forall|i: int, j: int|
        0 <= i < logical.len() && 0 <= j < logical.len() && i != j implies #[trigger] logical[i]
        != #[trigger] logical[j] by {
        assert(kb.keys_view()[i].logical_name@ != kb.keys_view()[j].logical_name@);
    }
    lemma_import_export_prefix(state, logical, kb.table(), logical.len() as int);
    let all = export_entries(logical, state);
    assert(all.take(logical.len() as int) =~= all);
    let r = import_state(state, logical, kb.table(), all);
    assert forall|k: int| 0 <= k < state.len() implies #[trigger] state_names(r)[k]
        == state_names(state)[k] by {
        assert(state_names(r)[k] =~= state_names(state)[k]);
    }
    assert(state_names(r) =~= state_names(state));
}

} // verus!
