use vstd::prelude::*;

use crate::board::BoardCommand;
use crate::layout::{GLOBAL_LED, LayoutMeta, PER_LAYER_LED_BASE};

verus! {

/// The backlight modes, in the order whose positions are the mode numbers
/// the hardware expects.
#[derive(Clone, Copy, Debug, PartialEq, Eq, Structural)]
pub enum Mode {
    SolidColor,
    PerKey,
    CycleAll,
    CycleLeftRight,
    CycleUpDown,
    CycleOutIn,
    CycleOutInDual,
    RainbowMovingChevron,
    CyclePinwheel,
    CycleSpiral,
    Raindrops,
    Splash,
    Multisplash,
    ActiveKeys,
}

/// How many modes there are.
pub const MODE_COUNT: u8 = 14;

/// The speed shown when the board reports none.
pub const DEFAULT_SPEED: u8 = 128;

impl Mode {
    /// The mode number sent to the hardware: the position in the catalogue.
    pub open spec fn index_spec(self) -> u8 {
        match self {
            Mode::SolidColor => 0,
            Mode::PerKey => 1,
            Mode::CycleAll => 2,
            Mode::CycleLeftRight => 3,
            Mode::CycleUpDown => 4,
            Mode::CycleOutIn => 5,
            Mode::CycleOutInDual => 6,
            Mode::RainbowMovingChevron => 7,
            Mode::CyclePinwheel => 8,
            Mode::CycleSpiral => 9,
            Mode::Raindrops => 10,
            Mode::Splash => 11,
            Mode::Multisplash => 12,
            Mode::ActiveKeys => 13,
        }
    }

    /// The mode at a position of the catalogue.
    pub open spec fn from_index_spec(i: u8) -> Option<Mode> {
        if i == 0 {
            Some(Mode::SolidColor)
        } else if i == 1 {
            Some(Mode::PerKey)
        } else if i == 2 {
            Some(Mode::CycleAll)
        } else if i == 3 {
            Some(Mode::CycleLeftRight)
        } else if i == 4 {
            Some(Mode::CycleUpDown)
        } else if i == 5 {
            Some(Mode::CycleOutIn)
        } else if i == 6 {
            Some(Mode::CycleOutInDual)
        } else if i == 7 {
            Some(Mode::RainbowMovingChevron)
        } else if i == 8 {
            Some(Mode::CyclePinwheel)
        } else if i == 9 {
            Some(Mode::CycleSpiral)
        } else if i == 10 {
            Some(Mode::Raindrops)
        } else if i == 11 {
            Some(Mode::Splash)
        } else if i == 12 {
            Some(Mode::Multisplash)
        } else if i == 13 {
            Some(Mode::ActiveKeys)
        } else {
            None
        }
    }

    /// The identifier of the mode.
    pub open spec fn id_view(self) -> Seq<char> {
        match self {
            Mode::SolidColor => "SOLID_COLOR"@,
            Mode::PerKey => "PER_KEY"@,
            Mode::CycleAll => "CYCLE_ALL"@,
            Mode::CycleLeftRight => "CYCLE_LEFT_RIGHT"@,
            Mode::CycleUpDown => "CYCLE_UP_DOWN"@,
            Mode::CycleOutIn => "CYCLE_OUT_IN"@,
            Mode::CycleOutInDual => "CYCLE_OUT_IN_DUAL"@,
            Mode::RainbowMovingChevron => "RAINBOW_MOVING_CHEVRON"@,
            Mode::CyclePinwheel => "CYCLE_PINWHEEL"@,
            Mode::CycleSpiral => "CYCLE_SPIRAL"@,
            Mode::Raindrops => "RAINDROPS"@,
            Mode::Splash => "SPLASH"@,
            Mode::Multisplash => "MULTISPLASH"@,
            Mode::ActiveKeys => "ACTIVE_KEYS"@,
        }
    }

    pub fn index(&self) -> (r: u8)
        ensures
            r == self.index_spec(),
            r < MODE_COUNT,
    {
        match self {
            Mode::SolidColor => 0,
            Mode::PerKey => 1,
            Mode::CycleAll => 2,
            Mode::CycleLeftRight => 3,
            Mode::CycleUpDown => 4,
            Mode::CycleOutIn => 5,
            Mode::CycleOutInDual => 6,
            Mode::RainbowMovingChevron => 7,
            Mode::CyclePinwheel => 8,
            Mode::CycleSpiral => 9,
            Mode::Raindrops => 10,
            Mode::Splash => 11,
            Mode::Multisplash => 12,
            Mode::ActiveKeys => 13,
        }
    }

    pub fn from_index(i: u8) -> (r: Option<Mode>)
        ensures
            r == Mode::from_index_spec(i),
    {
        if i == 0 {
            Some(Mode::SolidColor)
        } else if i == 1 {
            Some(Mode::PerKey)
        } else if i == 2 {
            Some(Mode::CycleAll)
        } else if i == 3 {
            Some(Mode::CycleLeftRight)
        } else if i == 4 {
            Some(Mode::CycleUpDown)
        } else if i == 5 {
            Some(Mode::CycleOutIn)
        } else if i == 6 {
            Some(Mode::CycleOutInDual)
        } else if i == 7 {
            Some(Mode::RainbowMovingChevron)
        } else if i == 8 {
            Some(Mode::CyclePinwheel)
        } else if i == 9 {
            Some(Mode::CycleSpiral)
        } else if i == 10 {
            Some(Mode::Raindrops)
        } else if i == 11 {
            Some(Mode::Splash)
        } else if i == 12 {
            Some(Mode::Multisplash)
        } else if i == 13 {
            Some(Mode::ActiveKeys)
        } else {
            None
        }
    }

    pub fn id(&self) -> (r: &'static str)
        ensures
            r@ == self.id_view(),
    {
        match self {
            Mode::SolidColor => "SOLID_COLOR",
            Mode::PerKey => "PER_KEY",
            Mode::CycleAll => "CYCLE_ALL",
            Mode::CycleLeftRight => "CYCLE_LEFT_RIGHT",
            Mode::CycleUpDown => "CYCLE_UP_DOWN",
            Mode::CycleOutIn => "CYCLE_OUT_IN",
            Mode::CycleOutInDual => "CYCLE_OUT_IN_DUAL",
            Mode::RainbowMovingChevron => "RAINBOW_MOVING_CHEVRON",
            Mode::CyclePinwheel => "CYCLE_PINWHEEL",
            Mode::CycleSpiral => "CYCLE_SPIRAL",
            Mode::Raindrops => "RAINDROPS",
            Mode::Splash => "SPLASH",
            Mode::Multisplash => "MULTISPLASH",
            Mode::ActiveKeys => "ACTIVE_KEYS",
        }
    }

    /// Looks an identifier up in the catalogue: the first mode, from position
    /// `i` on, whose identifier it is.
    pub open spec fn lookup_from(id: Seq<char>, i: nat) -> Option<Mode>
        decreases MODE_COUNT - i,
    {
        if i >= MODE_COUNT {
            None
        } else if Mode::from_index_spec(i as u8)->0.id_view() == id {
            Mode::from_index_spec(i as u8)
        } else {
            Mode::lookup_from(id, i + 1)
        }
    }

    /// The mode whose identifier is `id`, searched in catalogue order.
    pub open spec fn from_id_spec(id: Seq<char>) -> Option<Mode> {
        Mode::lookup_from(id, 0)
    }

    pub fn from_id(id: &str) -> (r: Option<Mode>)
        ensures
            r == Mode::from_id_spec(id@),
    {
        let target = id.to_owned();
        let mut i: u8 = 0;
        while i < MODE_COUNT
            invariant
                i <= MODE_COUNT,
                target@ == id@,
                Mode::lookup_from(id@, i as nat) == Mode::lookup_from(id@, 0),
            decreases MODE_COUNT - i,
        {
            let m = Mode::from_index(i);
            if let Some(m) = m {
                let candidate = m.id().to_owned();
                if candidate == target {
                    return Some(m);
                }
            }
            i = i + 1;
        }
        None
    }
}

/// Whether the hue control applies in `mode`; where it does not, the
/// saturation-only control applies instead.
pub open spec fn has_hue(mode: Option<Mode>) -> bool {
    mode == Some(Mode::SolidColor) || mode == Some(Mode::PerKey) || mode == Some(Mode::ActiveKeys)
}

pub fn color_applicable(mode: Option<Mode>) -> (r: bool)
    ensures
        r == has_hue(mode),
{
    match mode {
        Some(Mode::SolidColor) | Some(Mode::PerKey) | Some(Mode::ActiveKeys) => true,
        _ => false,
    }
}

/// The `set_mode` write that selecting the mode named `mode_id` at `speed`
/// on `layer` issues; none for an identifier the catalogue lacks.
pub fn apply_mode(layer: u8, mode_id: &str, speed: u8) -> (r: Option<BoardCommand>)
    ensures
        r == match Mode::from_id_spec(mode_id@) {
            Some(m) => Some(BoardCommand::SetMode { layer, mode: m.index_spec(), speed }),
            None => None::<BoardCommand>,
        },
{
    match Mode::from_id(mode_id) {
        Some(m) => Some(BoardCommand::SetMode { layer, mode: m.index(), speed }),
        None => None,
    }
}

/// The LED address that colour and brightness commands of `layer` use.
pub open spec fn led_index_spec(meta: LayoutMeta, layer: u8) -> u8 {
    if meta.has_per_layer {
        (PER_LAYER_LED_BASE + layer) as u8
    } else {
        GLOBAL_LED
    }
}

pub fn led_index_of(meta: LayoutMeta, layer: u8) -> (r: u8)
    requires
        meta.wf(),
        layer < meta.num_layers,
    ensures
        r == led_index_spec(meta, layer),
{
    if meta.has_per_layer {
        PER_LAYER_LED_BASE + layer
    } else {
        GLOBAL_LED
    }
}

/// The brightness writes for `value`: one per layer address on boards with
/// per-layer LEDs, else one to the whole keyboard.
pub open spec fn brightness_writes(meta: LayoutMeta, value: i32) -> Seq<BoardCommand> {
    if meta.has_per_layer {
        Seq::new(
            meta.num_layers as nat,
            |i: int| BoardCommand::SetBrightness { led: (PER_LAYER_LED_BASE + i) as u8, value },
        )
    } else {
        seq![BoardCommand::SetBrightness { led: GLOBAL_LED, value }]
    }
}

pub fn apply_brightness(meta: LayoutMeta, value: i32) -> (r: Vec<BoardCommand>)
    requires
        meta.wf(),
    ensures
        r@ == brightness_writes(meta, value),
{
    let mut r: Vec<BoardCommand> = Vec::new();
    if meta.has_per_layer {
        let mut i: u8 = 0;
        while i < meta.num_layers
            invariant
                meta.wf(),
                meta.has_per_layer,
                i <= meta.num_layers,
                r@ =~= brightness_writes(meta, value).take(i as int),
            decreases meta.num_layers - i,
        {
            r.push(BoardCommand::SetBrightness { led: PER_LAYER_LED_BASE + i, value });
            i = i + 1;
        }
        assert(brightness_writes(meta, value).take(meta.num_layers as int) =~= brightness_writes(
            meta,
            value,
        ));
    } else {
        r.push(BoardCommand::SetBrightness { led: GLOBAL_LED, value });
        assert(r@ =~= brightness_writes(meta, value));
    }
    r
}

/// The state of a board's backlight controls.
pub struct BacklightInner {
    /// The board's capabilities.
    pub meta: LayoutMeta,
    /// For each key, the LEDs it drives.
    pub key_leds: Vec<Vec<u8>>,
    /// The layer whose settings are shown.
    pub layer: u8,
    /// Set while the controls are refreshed from the board: changes made
    /// then are not written back.
    pub do_not_set: bool,
    pub mode: Option<Mode>,
    pub speed: u8,
    pub brightness: i32,
    /// Saturation of the saturation-only control, in percent.
    pub saturation: u8,
    /// The selected key.
    pub selected: Option<usize>,
    /// The LED whose colour the colour control edits.
    pub color_index: u8,
    /// Whether the colour control can be used.
    pub color_sensitive: bool,
}

/// The colour control after a per-key refresh: in per-key mode it edits the
/// first LED of the selected key, and is disabled when there is none.
pub open spec fn per_key_color(st: BacklightInner) -> (u8, bool) {
    if st.mode != Some(Mode::PerKey) {
        (st.color_index, st.color_sensitive)
    } else {
        match st.selected {
            Some(i) => if i < st.key_leds@.len() && st.key_leds@[i as int]@.len() > 0 {
                (st.key_leds@[i as int]@[0], true)
            } else {
                (st.color_index, false)
            },
            None => (st.color_index, false),
        }
    }
}

/// The colour control after a change of mode or speed.
pub open spec fn mode_color(st: BacklightInner) -> (u8, bool) {
    if st.mode == Some(Mode::PerKey) {
        per_key_color(st)
    } else {
        (led_index_spec(st.meta, st.layer), true)
    }
}

/// The backlight controls of one board.
pub struct Backlight {
    inner: BacklightInner,
}

impl Backlight {
    pub closed spec fn state(&self) -> BacklightInner {
        self.inner
    }

    pub open spec fn wf(&self) -> bool {
        &&& self.state().meta.wf()
        &&& self.state().layer < self.state().meta.num_layers
        &&& !self.state().do_not_set
        &&& self.state().saturation <= 100
        &&& self.state().selected matches Some(i) ==> i < self.state().key_leds@.len()
    }

    /// The invariant without the guard: what holds while refreshing too.
    pub open spec fn settled(&self) -> bool {
        &&& self.state().meta.wf()
        &&& self.state().layer < self.state().meta.num_layers
        &&& self.state().saturation <= 100
        &&& self.state().selected matches Some(i) ==> i < self.state().key_leds@.len()
    }

    /// The LED address of the current layer.
    pub fn led_index(&self) -> (r: u8)
        requires
            self.settled(),
        ensures
            r == led_index_spec(self.state().meta, self.state().layer),
    {
        led_index_of(self.inner.meta, self.inner.layer)
    }

    /// The identifier of the current mode, if one is set.
    pub fn mode(&self) -> (r: Option<String>)
        ensures
            r is Some <==> self.state().mode is Some,
            r matches Some(s) ==> s@ == self.state().mode->0.id_view(),
    {
        match self.inner.mode {
            Some(m) => Some(m.id().to_owned()),
            None => None,
        }
    }

    /// Whether the hue control applies in the current mode.
    pub fn color_visible(&self) -> (r: bool)
        ensures
            r == has_hue(self.state().mode),
    {
        color_applicable(self.inner.mode)
    }

    /// Whether the saturation-only control applies in the current mode.
    pub fn saturation_visible(&self) -> (r: bool)
        ensures
            r == !has_hue(self.state().mode),
    {
        !color_applicable(self.inner.mode)
    }

    /// Points the colour control at the selected key's first LED in per-key
    /// mode, disabling it when that key has none; in other modes does nothing.
    fn update_per_key(&mut self)
        ensures
            final(self).state() == (BacklightInner {
                color_index: per_key_color(old(self).state()).0,
                color_sensitive: per_key_color(old(self).state()).1,
                ..old(self).state()
            }),
    {
        if self.inner.mode != Some(Mode::PerKey) {
            return;
        }
        let mut sensitive = false;
        if let Some(selected) = self.inner.selected {
            if selected < self.inner.key_leds.len() && self.inner.key_leds[selected].len() > 0 {
                sensitive = true;
                self.inner.color_index = self.inner.key_leds[selected][0];
            }
        }
        self.inner.color_sensitive = sensitive;
    }

    /// Reacts to a change of mode or speed: updates the colour control and,
    /// unless refreshing, returns the `set_mode` write for the current layer.
    fn mode_speed_changed(&mut self) -> (r: Vec<BoardCommand>)
        requires
            old(self).settled(),
        ensures
            final(self).state() == (BacklightInner {
                color_index: mode_color(old(self).state()).0,
                color_sensitive: mode_color(old(self).state()).1,
                ..old(self).state()
            }),
            old(self).state().do_not_set ==> r@.len() == 0,
            !old(self).state().do_not_set ==> r@ == match old(self).state().mode {
                Some(m) => seq![
                    BoardCommand::SetMode {
                        layer: old(self).state().layer,
                        mode: m.index_spec(),
                        speed: old(self).state().speed,
                    },
                ],
                None => Seq::<BoardCommand>::empty(),
            },
    {
        if self.inner.mode == Some(Mode::PerKey) {
            self.update_per_key();
        } else {
            self.inner.color_sensitive = true;
            self.inner.color_index = self.led_index();
        }
        let mut r: Vec<BoardCommand> = Vec::new();
        if self.inner.do_not_set {
            return r;
        }
        if let Some(m) = self.inner.mode {
            proof {
                lemma_from_id_of_mode(m);
            }
            if let Some(c) = apply_mode(self.inner.layer, m.id(), self.inner.speed) {
                r.push(c);
            }
        }
        r
    }

    /// Reacts to a change of brightness: unless refreshing, returns the
    /// brightness writes, which on per-layer boards go to every layer.
    fn brightness_changed(&self) -> (r: Vec<BoardCommand>)
        requires
            self.settled(),
        ensures
            self.state().do_not_set ==> r@.len() == 0,
            !self.state().do_not_set ==> r@ == brightness_writes(
                self.state().meta,
                self.state().brightness,
            ),
    {
        if self.inner.do_not_set {
            return Vec::new();
        }
        apply_brightness(self.inner.meta, self.inner.brightness)
    }

    /// Reacts to a change of saturation: unless refreshing, returns the
    /// colour write of hue 0 at that saturation to the current layer's LED.
    fn saturation_changed(&self) -> (r: Vec<BoardCommand>)
        requires
            self.settled(),
        ensures
            self.state().do_not_set ==> r@.len() == 0,
            !self.state().do_not_set ==> r@ == seq![
                BoardCommand::SetColor {
                    led: led_index_spec(self.state().meta, self.state().layer),
                    hue: 0,
                    saturation: self.state().saturation,
                },
            ],
    {
        let mut r: Vec<BoardCommand> = Vec::new();
        if self.inner.do_not_set {
            return r;
        }
        r.push(BoardCommand::SetColor { led: self.led_index(), hue: 0, saturation: self.inner.saturation });
        r
    }
}

/// Passing over a catalogue position whose identifier differs.
proof fn lemma_lookup_skip(id: Seq<char>, i: nat)
    requires
        i < MODE_COUNT,
        Mode::from_index_spec(i as u8)->0.id_view() != id,
    ensures
        Mode::lookup_from(id, i) == Mode::lookup_from(id, i + 1),
{
}

/// The catalogue identifiers differ at their lengths or their first
/// differing character.
proof fn lemma_ids_differ(a: Seq<char>, b: Seq<char>, k: int)
    requires
        a.len() != b.len() || (0 <= k < a.len() && k < b.len() && a[k] != b[k]),
    ensures
        a != b,
{
}

/// Every mode is found again by its own identifier.
pub proof fn lemma_from_id_of_mode(m: Mode)
    ensures
        Mode::from_id_spec(m.id_view()) == Some(m),
{
    reveal_strlit("SOLID_COLOR");
    reveal_strlit("PER_KEY");
    reveal_strlit("CYCLE_ALL");
    reveal_strlit("CYCLE_LEFT_RIGHT");
    reveal_strlit("CYCLE_UP_DOWN");
    reveal_strlit("CYCLE_OUT_IN");
    reveal_strlit("CYCLE_OUT_IN_DUAL");
    reveal_strlit("RAINBOW_MOVING_CHEVRON");
    reveal_strlit("CYCLE_PINWHEEL");
    reveal_strlit("CYCLE_SPIRAL");
    reveal_strlit("RAINDROPS");
    reveal_strlit("SPLASH");
    reveal_strlit("MULTISPLASH");
    reveal_strlit("ACTIVE_KEYS");
    let id = m.id_view();
    let n = m.index_spec() as nat;
    assert forall|i: nat| i < n implies Mode::lookup_from(id, i) == #[trigger] Mode::lookup_from(id, i + 1) by {
        let other = Mode::from_index_spec(i as u8)->0;
        assert(other.id_view() != id) by {
            match (other, m) {
                (Mode::SolidColor, Mode::PerKey) => lemma_ids_differ("SOLID_COLOR"@, "PER_KEY"@, 0),
                (Mode::SolidColor, Mode::CycleAll) => lemma_ids_differ("SOLID_COLOR"@, "CYCLE_ALL"@, 0),
                (Mode::SolidColor, Mode::CycleLeftRight) => lemma_ids_differ("SOLID_COLOR"@, "CYCLE_LEFT_RIGHT"@, 0),
                (Mode::SolidColor, Mode::CycleUpDown) => lemma_ids_differ("SOLID_COLOR"@, "CYCLE_UP_DOWN"@, 0),
                (Mode::SolidColor, Mode::CycleOutIn) => lemma_ids_differ("SOLID_COLOR"@, "CYCLE_OUT_IN"@, 0),
                (Mode::SolidColor, Mode::CycleOutInDual) => lemma_ids_differ("SOLID_COLOR"@, "CYCLE_OUT_IN_DUAL"@, 0),
                (Mode::SolidColor, Mode::RainbowMovingChevron) => lemma_ids_differ("SOLID_COLOR"@, "RAINBOW_MOVING_CHEVRON"@, 0),
                (Mode::SolidColor, Mode::CyclePinwheel) => lemma_ids_differ("SOLID_COLOR"@, "CYCLE_PINWHEEL"@, 0),
                (Mode::SolidColor, Mode::CycleSpiral) => lemma_ids_differ("SOLID_COLOR"@, "CYCLE_SPIRAL"@, 0),
                (Mode::SolidColor, Mode::Raindrops) => lemma_ids_differ("SOLID_COLOR"@, "RAINDROPS"@, 0),
                (Mode::SolidColor, Mode::Splash) => lemma_ids_differ("SOLID_COLOR"@, "SPLASH"@, 0),
                (Mode::SolidColor, Mode::Multisplash) => {
                    assert("SOLID_COLOR"@[0] == 'S');
                    assert("MULTISPLASH"@[0] == 'M');
                    lemma_ids_differ("SOLID_COLOR"@, "MULTISPLASH"@, 0)
                },
                (Mode::SolidColor, Mode::ActiveKeys) => {
                    assert("SOLID_COLOR"@[0] == 'S');
                    assert("ACTIVE_KEYS"@[0] == 'A');
                    lemma_ids_differ("SOLID_COLOR"@, "ACTIVE_KEYS"@, 0)
                },
                (Mode::PerKey, Mode::CycleAll) => lemma_ids_differ("PER_KEY"@, "CYCLE_ALL"@, 0),
                (Mode::PerKey, Mode::CycleLeftRight) => lemma_ids_differ("PER_KEY"@, "CYCLE_LEFT_RIGHT"@, 0),
                (Mode::PerKey, Mode::CycleUpDown) => lemma_ids_differ("PER_KEY"@, "CYCLE_UP_DOWN"@, 0),
                (Mode::PerKey, Mode::CycleOutIn) => lemma_ids_differ("PER_KEY"@, "CYCLE_OUT_IN"@, 0),
                (Mode::PerKey, Mode::CycleOutInDual) => lemma_ids_differ("PER_KEY"@, "CYCLE_OUT_IN_DUAL"@, 0),
                (Mode::PerKey, Mode::RainbowMovingChevron) => lemma_ids_differ("PER_KEY"@, "RAINBOW_MOVING_CHEVRON"@, 0),
                (Mode::PerKey, Mode::CyclePinwheel) => lemma_ids_differ("PER_KEY"@, "CYCLE_PINWHEEL"@, 0),
                (Mode::PerKey, Mode::CycleSpiral) => lemma_ids_differ("PER_KEY"@, "CYCLE_SPIRAL"@, 0),
                (Mode::PerKey, Mode::Raindrops) => lemma_ids_differ("PER_KEY"@, "RAINDROPS"@, 0),
                (Mode::PerKey, Mode::Splash) => lemma_ids_differ("PER_KEY"@, "SPLASH"@, 0),
                (Mode::PerKey, Mode::Multisplash) => lemma_ids_differ("PER_KEY"@, "MULTISPLASH"@, 0),
                (Mode::PerKey, Mode::ActiveKeys) => lemma_ids_differ("PER_KEY"@, "ACTIVE_KEYS"@, 0),
                (Mode::CycleAll, Mode::CycleLeftRight) => lemma_ids_differ("CYCLE_ALL"@, "CYCLE_LEFT_RIGHT"@, 0),
                (Mode::CycleAll, Mode::CycleUpDown) => lemma_ids_differ("CYCLE_ALL"@, "CYCLE_UP_DOWN"@, 0),
                (Mode::CycleAll, Mode::CycleOutIn) => lemma_ids_differ("CYCLE_ALL"@, "CYCLE_OUT_IN"@, 0),
                (Mode::CycleAll, Mode::CycleOutInDual) => lemma_ids_differ("CYCLE_ALL"@, "CYCLE_OUT_IN_DUAL"@, 0),
                (Mode::CycleAll, Mode::RainbowMovingChevron) => lemma_ids_differ("CYCLE_ALL"@, "RAINBOW_MOVING_CHEVRON"@, 0),
                (Mode::CycleAll, Mode::CyclePinwheel) => lemma_ids_differ("CYCLE_ALL"@, "CYCLE_PINWHEEL"@, 0),
                (Mode::CycleAll, Mode::CycleSpiral) => lemma_ids_differ("CYCLE_ALL"@, "CYCLE_SPIRAL"@, 0),
                (Mode::CycleAll, Mode::Raindrops) => {
                    assert("CYCLE_ALL"@[0] == 'C');
                    assert("RAINDROPS"@[0] == 'R');
                    lemma_ids_differ("CYCLE_ALL"@, "RAINDROPS"@, 0)
                },
                (Mode::CycleAll, Mode::Splash) => lemma_ids_differ("CYCLE_ALL"@, "SPLASH"@, 0),
                (Mode::CycleAll, Mode::Multisplash) => lemma_ids_differ("CYCLE_ALL"@, "MULTISPLASH"@, 0),
                (Mode::CycleAll, Mode::ActiveKeys) => lemma_ids_differ("CYCLE_ALL"@, "ACTIVE_KEYS"@, 0),
                (Mode::CycleLeftRight, Mode::CycleUpDown) => lemma_ids_differ("CYCLE_LEFT_RIGHT"@, "CYCLE_UP_DOWN"@, 0),
                (Mode::CycleLeftRight, Mode::CycleOutIn) => lemma_ids_differ("CYCLE_LEFT_RIGHT"@, "CYCLE_OUT_IN"@, 0),
                (Mode::CycleLeftRight, Mode::CycleOutInDual) => lemma_ids_differ("CYCLE_LEFT_RIGHT"@, "CYCLE_OUT_IN_DUAL"@, 0),
                (Mode::CycleLeftRight, Mode::RainbowMovingChevron) => lemma_ids_differ("CYCLE_LEFT_RIGHT"@, "RAINBOW_MOVING_CHEVRON"@, 0),
                (Mode::CycleLeftRight, Mode::CyclePinwheel) => lemma_ids_differ("CYCLE_LEFT_RIGHT"@, "CYCLE_PINWHEEL"@, 0),
                (Mode::CycleLeftRight, Mode::CycleSpiral) => lemma_ids_differ("CYCLE_LEFT_RIGHT"@, "CYCLE_SPIRAL"@, 0),
                (Mode::CycleLeftRight, Mode::Raindrops) => lemma_ids_differ("CYCLE_LEFT_RIGHT"@, "RAINDROPS"@, 0),
                (Mode::CycleLeftRight, Mode::Splash) => lemma_ids_differ("CYCLE_LEFT_RIGHT"@, "SPLASH"@, 0),
                (Mode::CycleLeftRight, Mode::Multisplash) => lemma_ids_differ("CYCLE_LEFT_RIGHT"@, "MULTISPLASH"@, 0),
                (Mode::CycleLeftRight, Mode::ActiveKeys) => lemma_ids_differ("CYCLE_LEFT_RIGHT"@, "ACTIVE_KEYS"@, 0),
                (Mode::CycleUpDown, Mode::CycleOutIn) => lemma_ids_differ("CYCLE_UP_DOWN"@, "CYCLE_OUT_IN"@, 0),
                (Mode::CycleUpDown, Mode::CycleOutInDual) => lemma_ids_differ("CYCLE_UP_DOWN"@, "CYCLE_OUT_IN_DUAL"@, 0),
                (Mode::CycleUpDown, Mode::RainbowMovingChevron) => lemma_ids_differ("CYCLE_UP_DOWN"@, "RAINBOW_MOVING_CHEVRON"@, 0),
                (Mode::CycleUpDown, Mode::CyclePinwheel) => lemma_ids_differ("CYCLE_UP_DOWN"@, "CYCLE_PINWHEEL"@, 0),
                (Mode::CycleUpDown, Mode::CycleSpiral) => lemma_ids_differ("CYCLE_UP_DOWN"@, "CYCLE_SPIRAL"@, 0),
                (Mode::CycleUpDown, Mode::Raindrops) => lemma_ids_differ("CYCLE_UP_DOWN"@, "RAINDROPS"@, 0),
                (Mode::CycleUpDown, Mode::Splash) => lemma_ids_differ("CYCLE_UP_DOWN"@, "SPLASH"@, 0),
                (Mode::CycleUpDown, Mode::Multisplash) => lemma_ids_differ("CYCLE_UP_DOWN"@, "MULTISPLASH"@, 0),
                (Mode::CycleUpDown, Mode::ActiveKeys) => lemma_ids_differ("CYCLE_UP_DOWN"@, "ACTIVE_KEYS"@, 0),
                (Mode::CycleOutIn, Mode::CycleOutInDual) => lemma_ids_differ("CYCLE_OUT_IN"@, "CYCLE_OUT_IN_DUAL"@, 0),
                (Mode::CycleOutIn, Mode::RainbowMovingChevron) => lemma_ids_differ("CYCLE_OUT_IN"@, "RAINBOW_MOVING_CHEVRON"@, 0),
                (Mode::CycleOutIn, Mode::CyclePinwheel) => lemma_ids_differ("CYCLE_OUT_IN"@, "CYCLE_PINWHEEL"@, 0),
                (Mode::CycleOutIn, Mode::CycleSpiral) => {
                    assert("CYCLE_OUT_IN"@[6] == 'O');
                    assert("CYCLE_SPIRAL"@[6] == 'S');
                    lemma_ids_differ("CYCLE_OUT_IN"@, "CYCLE_SPIRAL"@, 6)
                },
                (Mode::CycleOutIn, Mode::Raindrops) => lemma_ids_differ("CYCLE_OUT_IN"@, "RAINDROPS"@, 0),
                (Mode::CycleOutIn, Mode::Splash) => lemma_ids_differ("CYCLE_OUT_IN"@, "SPLASH"@, 0),
                (Mode::CycleOutIn, Mode::Multisplash) => lemma_ids_differ("CYCLE_OUT_IN"@, "MULTISPLASH"@, 0),
                (Mode::CycleOutIn, Mode::ActiveKeys) => lemma_ids_differ("CYCLE_OUT_IN"@, "ACTIVE_KEYS"@, 0),
                (Mode::CycleOutInDual, Mode::RainbowMovingChevron) => lemma_ids_differ("CYCLE_OUT_IN_DUAL"@, "RAINBOW_MOVING_CHEVRON"@, 0),
                (Mode::CycleOutInDual, Mode::CyclePinwheel) => lemma_ids_differ("CYCLE_OUT_IN_DUAL"@, "CYCLE_PINWHEEL"@, 0),
                (Mode::CycleOutInDual, Mode::CycleSpiral) => lemma_ids_differ("CYCLE_OUT_IN_DUAL"@, "CYCLE_SPIRAL"@, 0),
                (Mode::CycleOutInDual, Mode::Raindrops) => lemma_ids_differ("CYCLE_OUT_IN_DUAL"@, "RAINDROPS"@, 0),
                (Mode::CycleOutInDual, Mode::Splash) => lemma_ids_differ("CYCLE_OUT_IN_DUAL"@, "SPLASH"@, 0),
                (Mode::CycleOutInDual, Mode::Multisplash) => lemma_ids_differ("CYCLE_OUT_IN_DUAL"@, "MULTISPLASH"@, 0),
                (Mode::CycleOutInDual, Mode::ActiveKeys) => lemma_ids_differ("CYCLE_OUT_IN_DUAL"@, "ACTIVE_KEYS"@, 0),
                (Mode::RainbowMovingChevron, Mode::CyclePinwheel) => lemma_ids_differ("RAINBOW_MOVING_CHEVRON"@, "CYCLE_PINWHEEL"@, 0),
                (Mode::RainbowMovingChevron, Mode::CycleSpiral) => lemma_ids_differ("RAINBOW_MOVING_CHEVRON"@, "CYCLE_SPIRAL"@, 0),
                (Mode::RainbowMovingChevron, Mode::Raindrops) => lemma_ids_differ("RAINBOW_MOVING_CHEVRON"@, "RAINDROPS"@, 0),
                (Mode::RainbowMovingChevron, Mode::Splash) => lemma_ids_differ("RAINBOW_MOVING_CHEVRON"@, "SPLASH"@, 0),
                (Mode::RainbowMovingChevron, Mode::Multisplash) => lemma_ids_differ("RAINBOW_MOVING_CHEVRON"@, "MULTISPLASH"@, 0),
                (Mode::RainbowMovingChevron, Mode::ActiveKeys) => lemma_ids_differ("RAINBOW_MOVING_CHEVRON"@, "ACTIVE_KEYS"@, 0),
                (Mode::CyclePinwheel, Mode::CycleSpiral) => lemma_ids_differ("CYCLE_PINWHEEL"@, "CYCLE_SPIRAL"@, 0),
                (Mode::CyclePinwheel, Mode::Raindrops) => lemma_ids_differ("CYCLE_PINWHEEL"@, "RAINDROPS"@, 0),
                (Mode::CyclePinwheel, Mode::Splash) => lemma_ids_differ("CYCLE_PINWHEEL"@, "SPLASH"@, 0),
                (Mode::CyclePinwheel, Mode::Multisplash) => lemma_ids_differ("CYCLE_PINWHEEL"@, "MULTISPLASH"@, 0),
                (Mode::CyclePinwheel, Mode::ActiveKeys) => lemma_ids_differ("CYCLE_PINWHEEL"@, "ACTIVE_KEYS"@, 0),
                (Mode::CycleSpiral, Mode::Raindrops) => lemma_ids_differ("CYCLE_SPIRAL"@, "RAINDROPS"@, 0),
                (Mode::CycleSpiral, Mode::Splash) => lemma_ids_differ("CYCLE_SPIRAL"@, "SPLASH"@, 0),
                (Mode::CycleSpiral, Mode::Multisplash) => lemma_ids_differ("CYCLE_SPIRAL"@, "MULTISPLASH"@, 0),
                (Mode::CycleSpiral, Mode::ActiveKeys) => lemma_ids_differ("CYCLE_SPIRAL"@, "ACTIVE_KEYS"@, 0),
                (Mode::Raindrops, Mode::Splash) => lemma_ids_differ("RAINDROPS"@, "SPLASH"@, 0),
                (Mode::Raindrops, Mode::Multisplash) => lemma_ids_differ("RAINDROPS"@, "MULTISPLASH"@, 0),
                (Mode::Raindrops, Mode::ActiveKeys) => lemma_ids_differ("RAINDROPS"@, "ACTIVE_KEYS"@, 0),
                (Mode::Splash, Mode::Multisplash) => lemma_ids_differ("SPLASH"@, "MULTISPLASH"@, 0),
                (Mode::Splash, Mode::ActiveKeys) => lemma_ids_differ("SPLASH"@, "ACTIVE_KEYS"@, 0),
                (Mode::Multisplash, Mode::ActiveKeys) => {
                    assert("MULTISPLASH"@[0] == 'M');
                    assert("ACTIVE_KEYS"@[0] == 'A');
                    lemma_ids_differ("MULTISPLASH"@, "ACTIVE_KEYS"@, 0)
                },
                _ => {},
            }
        }
        lemma_lookup_skip(id, i);
    }
    lemma_lookup_chain(id, n);
}

proof fn lemma_lookup_chain(id: Seq<char>, n: nat)
    requires
        n < MODE_COUNT,
        forall|i: nat| i < n ==> Mode::lookup_from(id, i) == #[trigger] Mode::lookup_from(id, i + 1),
        Mode::from_index_spec(n as u8)->0.id_view() == id,
    ensures
        Mode::lookup_from(id, 0) == Mode::from_index_spec(n as u8),
    decreases n,
{
    lemma_lookup_chain_down(id, n, 0);
}

proof fn lemma_lookup_chain_down(id: Seq<char>, n: nat, j: nat)
    requires
        j <= n,
        n < MODE_COUNT,
        forall|i: nat| i < n ==> Mode::lookup_from(id, i) == #[trigger] Mode::lookup_from(id, i + 1),
        Mode::from_index_spec(n as u8)->0.id_view() == id,
    ensures
        Mode::lookup_from(id, j) == Mode::from_index_spec(n as u8),
    decreases n - j,
{
    if j < n {
        lemma_lookup_chain_down(id, n, j + 1);
        assert(Mode::lookup_from(id, j) == Mode::lookup_from(id, j + 1));
    }
}

/// Outside the solid-colour, per-key and active-keys modes the hue control
/// does not apply and the saturation-only control does; in every state
/// exactly one of `color_visible` and `saturation_visible` holds.
pub proof fn lemma_one_color_control(b: Backlight)
    ensures
        !(b.state().mode == Some(Mode::SolidColor) || b.state().mode == Some(Mode::PerKey)
            || b.state().mode == Some(Mode::ActiveKeys)) ==> !has_hue(b.state().mode),
        has_hue(b.state().mode) != !has_hue(b.state().mode),
{
}

/// Whether the selected key has an LED that per-key colour can address.
pub open spec fn selected_has_led(selected: Option<usize>, key_leds: Seq<Vec<u8>>) -> bool {
    match selected {
        Some(i) => i < key_leds.len() && key_leds[i as int]@.len() > 0,
        None => false,
    }
}

/// The mode number and speed a refresh shows: what the board reported, or
/// mode 0 at speed 128 when the board has no modes or the read failed.
pub open spec fn refreshed_mode(meta: LayoutMeta, mode_read: Option<(u8, u8)>) -> (u8, u8) {
    if meta.has_mode {
        match mode_read {
            Some(v) => v,
            None => (0, DEFAULT_SPEED),
        }
    } else {
        (0, DEFAULT_SPEED)
    }
}

impl Backlight {
    /// The backlight controls of a board, showing layer 0 as read from the
    /// board (`mode_read`: mode number and speed of layer 0, `brightness_read`:
    /// brightness of its LED address; `None` where a read failed).
    pub fn new(meta: LayoutMeta, key_leds: Vec<Vec<u8>>, mode_read: Option<(u8, u8)>, brightness_read: Option<i32>) -> (r: Backlight)
        requires
            meta.wf(),
        ensures
            r.wf(),
            r.state().meta == meta,
            r.state().key_leds@ == key_leds@,
            r.state().layer == 0,
            r.state().mode == Mode::from_index_spec(refreshed_mode(meta, mode_read).0),
            r.state().speed == refreshed_mode(meta, mode_read).1,
            r.state().brightness == match brightness_read {
                Some(v) => v,
                None => 0i32,
            },
            r.state().selected is None,
            r.state().color_index == led_index_spec(meta, 0),
    {
        let mut b = Backlight {
            inner: BacklightInner {
                meta,
                key_leds,
                layer: 0,
                do_not_set: false,
                mode: None,
                speed: 0,
                brightness: 0,
                saturation: 0,
                selected: None,
                color_index: PER_LAYER_LED_BASE,
                color_sensitive: true,
            },
        };
        let _ = b.set_layer(0, mode_read, brightness_read);
        b
    }

    /// Shows `layer`: the mode, speed and brightness that the board reported
    /// for it (`mode_read` for the layer, `brightness_read` for its LED
    /// address, `None` where a read failed) become the shown values. The
    /// guard is held meanwhile, so nothing is written back: the writes that
    /// the changed controls would issue are returned, and there are none.
    pub fn set_layer(&mut self, layer: u8, mode_read: Option<(u8, u8)>, brightness_read: Option<i32>) -> (r:
        Vec<BoardCommand>)
        requires
            old(self).wf(),
            layer < old(self).state().meta.num_layers,
        ensures
            final(self).wf(),
            r@.len() == 0,
            final(self).state().layer == layer,
            final(self).state().mode == Mode::from_index_spec(
                refreshed_mode(old(self).state().meta, mode_read).0,
            ),
            final(self).state().speed == refreshed_mode(old(self).state().meta, mode_read).1,
            final(self).state().brightness == match brightness_read {
                Some(v) => v,
                None => 0i32,
            },
            final(self).state().color_index == led_index_spec(old(self).state().meta, layer),
            final(self).state().color_sensitive == (final(self).state().mode == Some(Mode::PerKey)
                ==> selected_has_led(old(self).state().selected, old(self).state().key_leds@)),
            final(self).state().meta == old(self).state().meta,
            final(self).state().key_leds == old(self).state().key_leds,
            final(self).state().selected == old(self).state().selected,
            final(self).state().saturation == old(self).state().saturation,
    {
        self.inner.layer = layer;
        let (mode, speed) = if self.inner.meta.has_mode {
            match mode_read {
                Some(v) => v,
                None => (0, DEFAULT_SPEED),
            }
        } else {
            (0, DEFAULT_SPEED)
        };
        let mode = Mode::from_index(mode);
        let brightness = match brightness_read {
            Some(v) => v,
            None => 0,
        };

        self.inner.do_not_set = true;
        self.inner.mode = mode;
        let mut r = self.mode_speed_changed();
        self.inner.speed = speed;
        let mut more = self.mode_speed_changed();
        r.append(&mut more);
        self.inner.brightness = brightness;
        let mut more = self.brightness_changed();
        r.append(&mut more);
        self.inner.color_index = self.led_index();
        self.inner.do_not_set = false;
        r
    }

    /// Selects a mode, or none; returns the `set_mode` write for the current
    /// layer at the current speed.
    pub fn set_mode(&mut self, mode: Option<Mode>) -> (r: Vec<BoardCommand>)
        requires
            old(self).wf(),
        ensures
            final(self).wf(),
            final(self).state() == (BacklightInner {
                mode,
                color_index: mode_color(BacklightInner { mode, ..old(self).state() }).0,
                color_sensitive: mode_color(BacklightInner { mode, ..old(self).state() }).1,
                ..old(self).state()
            }),
            r@ == match mode {
                Some(m) => seq![
                    BoardCommand::SetMode {
                        layer: old(self).state().layer,
                        mode: m.index_spec(),
                        speed: old(self).state().speed,
                    },
                ],
                None => Seq::<BoardCommand>::empty(),
            },
    {
        self.inner.mode = mode;
        self.mode_speed_changed()
    }

    /// Sets the speed; returns the `set_mode` write of the current mode, if any.
    pub fn set_speed(&mut self, speed: u8) -> (r: Vec<BoardCommand>)
        requires
            old(self).wf(),
        ensures
            final(self).wf(),
            final(self).state() == (BacklightInner {
                speed,
                color_index: mode_color(old(self).state()).0,
                color_sensitive: mode_color(old(self).state()).1,
                ..old(self).state()
            }),
            r@ == match old(self).state().mode {
                Some(m) => seq![
                    BoardCommand::SetMode {
                        layer: old(self).state().layer,
                        mode: m.index_spec(),
                        speed,
                    },
                ],
                None => Seq::<BoardCommand>::empty(),
            },
    {
        self.inner.speed = speed;
        self.mode_speed_changed()
    }

    /// Sets the brightness of all layers; returns one write per layer address
    /// on per-layer boards, else one write to the whole keyboard.
    pub fn set_brightness(&mut self, value: i32) -> (r: Vec<BoardCommand>)
        requires
            old(self).wf(),
        ensures
            final(self).wf(),
            final(self).state() == (BacklightInner { brightness: value, ..old(self).state() }),
            r@ == brightness_writes(old(self).state().meta, value),
            old(self).state().meta.has_per_layer ==> r@.len() == old(self).state().meta.num_layers,
    {
        self.inner.brightness = value;
        self.brightness_changed()
    }

    /// Sets the saturation, in percent; returns the colour write at hue 0 to
    /// the current layer's LED address.
    pub fn set_saturation(&mut self, value: u8) -> (r: Vec<BoardCommand>)
        requires
            old(self).wf(),
            value <= 100,
        ensures
            final(self).wf(),
            final(self).state() == (BacklightInner { saturation: value, ..old(self).state() }),
            r@ == seq![
                BoardCommand::SetColor {
                    led: led_index_spec(old(self).state().meta, old(self).state().layer),
                    hue: 0,
                    saturation: value,
                },
            ],
    {
        self.inner.saturation = value;
        self.saturation_changed()
    }

    /// Selects a key, or none, and in per-key mode points the colour control
    /// at its first LED.
    pub fn set_selected(&mut self, selected: Option<usize>)
        requires
            old(self).wf(),
            selected matches Some(i) ==> i < old(self).state().key_leds@.len(),
        ensures
            final(self).wf(),
            final(self).state() == (BacklightInner {
                selected,
                color_index: per_key_color(BacklightInner { selected, ..old(self).state() }).0,
                color_sensitive: per_key_color(BacklightInner { selected, ..old(self).state() }).1,
                ..old(self).state()
            }),
    {
        self.inner.selected = selected;
        self.update_per_key();
    }

    /// The board's capabilities.
    pub fn meta(&self) -> (r: LayoutMeta)
        ensures
            r == self.state().meta,
    {
        self.inner.meta
    }

    /// The shown layer.
    pub fn layer(&self) -> (r: u8)
        ensures
            r == self.state().layer,
    {
        self.inner.layer
    }

    /// The shown speed.
    pub fn speed(&self) -> (r: u8)
        ensures
            r == self.state().speed,
    {
        self.inner.speed
    }

    /// The shown brightness.
    pub fn brightness(&self) -> (r: i32)
        ensures
            r == self.state().brightness,
    {
        self.inner.brightness
    }

    /// The LED the colour control edits, and whether it can be used.
    pub fn color_target(&self) -> (r: (u8, bool))
        ensures
            r == (self.state().color_index, self.state().color_sensitive),
    {
        (self.inner.color_index, self.inner.color_sensitive)
    }
}

} // verus!
