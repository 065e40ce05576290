use vstd::prelude::*;

verus! {

/// The number of physical keys a layer's mask covers.
pub const KEY_COUNT: usize = 90;

/// A software effect that the compositor renders.
#[derive(Clone, Copy, Debug, PartialEq, Eq, Structural)]
pub enum EffectKind {
    Static,
    StaticGradient,
    WaveGradient,
    BreathingSingle,
}

/// An effect that the keyboard hardware runs by itself.
#[derive(Clone, Copy, Debug, PartialEq, Eq, Structural)]
pub enum StandardEffect {
    Off,
    Wave,
    Reactive,
    Breathing,
    Spectrum,
    Static,
    Starlight,
}

/// The software effect a client names, if the name is one.
pub open spec fn effect_kind_named(name: Seq<char>) -> Option<EffectKind> {
    if name == "static"@ {
        Some(EffectKind::Static)
    } else if name == "static_gradient"@ {
        Some(EffectKind::StaticGradient)
    } else if name == "wave_gradient"@ {
        Some(EffectKind::WaveGradient)
    } else if name == "breathing_single"@ {
        Some(EffectKind::BreathingSingle)
    } else {
        None
    }
}

/// The hardware effect a client names, if the name is one.
pub open spec fn standard_effect_named(name: Seq<char>) -> Option<StandardEffect> {
    if name == "off"@ {
        Some(StandardEffect::Off)
    } else if name == "wave"@ {
        Some(StandardEffect::Wave)
    } else if name == "reactive"@ {
        Some(StandardEffect::Reactive)
    } else if name == "breathing"@ {
        Some(StandardEffect::Breathing)
    } else if name == "spectrum"@ {
        Some(StandardEffect::Spectrum)
    } else if name == "static"@ {
        Some(StandardEffect::Static)
    } else if name == "starlight"@ {
        Some(StandardEffect::Starlight)
    } else {
        None
    }
}

/// Whether `s` and `t` hold the same characters.
pub fn same_text(s: &str, t: &str) -> (r: bool)
    ensures
        r == (s@ == t@),
{
    let n = s.unicode_len();
    if n != t.unicode_len() {
        return false;
    }
    let mut i: usize = 0;
    while i < n
        invariant
            n == s@.len(),
            n == t@.len(),
            i <= n,
            s@.subrange(0, i as int) == t@.subrange(0, i as int),
        decreases n - i,
    {
        if s.get_char(i) != t.get_char(i) {
            assert(s@[i as int] != t@[i as int]);
            return false;
        }
        assert(s@.subrange(0, i + 1) == s@.subrange(0, i as int).push(s@[i as int]));
        assert(t@.subrange(0, i + 1) == t@.subrange(0, i as int).push(t@[i as int]));
        i = i + 1;
    }
    assert(s@ == s@.subrange(0, n as int));
    assert(t@ == t@.subrange(0, n as int));
    true
}

/// Looks up a software effect by name; an unknown name is `None`.
pub fn effect_kind_from_name(name: &str) -> (r: Option<EffectKind>)
    ensures
        r == effect_kind_named(name@),
{
    proof {
        reveal_strlit("static");
        reveal_strlit("static_gradient");
        reveal_strlit("wave_gradient");
        reveal_strlit("breathing_single");
    }
    if same_text(name, "static") {
        Some(EffectKind::Static)
    } else if same_text(name, "static_gradient") {
        Some(EffectKind::StaticGradient)
    } else if same_text(name, "wave_gradient") {
        Some(EffectKind::WaveGradient)
    } else if same_text(name, "breathing_single") {
        Some(EffectKind::BreathingSingle)
    } else {
        None
    }
}

/// Looks up a hardware effect by name; an unknown name is `None`.
pub fn standard_effect_from_name(name: &str) -> (r: Option<StandardEffect>)
    ensures
        r == standard_effect_named(name@),
{
    if same_text(name, "off") {
        Some(StandardEffect::Off)
    } else if same_text(name, "wave") {
        Some(StandardEffect::Wave)
    } else if same_text(name, "reactive") {
        Some(StandardEffect::Reactive)
    } else if same_text(name, "breathing") {
        Some(StandardEffect::Breathing)
    } else if same_text(name, "spectrum") {
        Some(StandardEffect::Spectrum)
    } else if same_text(name, "static") {
        Some(StandardEffect::Static)
    } else if same_text(name, "starlight") {
        Some(StandardEffect::Starlight)
    } else {
        None
    }
}

/// What a layer is, apart from the frame last rendered for it.
pub struct LayerModel {
    pub kind: EffectKind,
    pub params: Seq<u8>,
    pub mask: Seq<bool>,
}

/// One lighting layer: an effect, its arguments, the keys it covers, and the
/// colour map last rendered for it.
pub struct Layer {
    pub kind: EffectKind,
    pub params: Vec<u8>,
    pub mask: Vec<bool>,
    pub frame: Vec<u8>,
}

impl View for Layer {
    type V = LayerModel;

    open spec fn view(&self) -> LayerModel {
        LayerModel { kind: self.kind, params: self.params@, mask: self.mask@ }
    }
}

/// A layer model that the compositor can hold: one mask entry per key, and an
/// argument count that fits in 64 bits.
pub open spec fn layer_wf(l: LayerModel) -> bool {
    &&& l.mask.len() == KEY_COUNT
    &&& l.params.len() <= u64::MAX
}

/// The full-key mask.
pub open spec fn full_mask() -> Seq<bool> {
    Seq::new(KEY_COUNT as nat, |i: int| true)
}

/// The compositor: an ordered stack of layers, the last one topmost.
pub struct EffectManager {
    pub layers: Vec<Layer>,
}

impl View for EffectManager {
    type V = Seq<LayerModel>;

    open spec fn view(&self) -> Seq<LayerModel> {
        self.layers@.map_values(|l: Layer| l@)
    }
}

/// A mask that covers every key.
pub fn full_key_mask() -> (r: Vec<bool>)
    ensures
        r@ == full_mask(),
{
    let mut m: Vec<bool> = Vec::new();
    let mut i: usize = 0;
    while i < KEY_COUNT
        invariant
            i <= KEY_COUNT,
            m@ == Seq::new(i as nat, |j: int| true),
        decreases KEY_COUNT - i,
    {
        m.push(true);
        i = i + 1;
        proof {
            assert(m@ =~= Seq::new(i as nat, |j: int| true));
        }
    }
    proof {
        assert(m@ =~= full_mask());
    }
    m
}

/// Byte `c` of a layer's colour: its first three arguments, 0 where missing.
pub open spec fn colour_byte(params: Seq<u8>, c: int) -> u8 {
    if c < params.len() {
        params[c]
    } else {
        0
    }
}

/// Whether `f` shows the layer at rest: three bytes per key, the layer's
/// colour on the keys its mask covers and black on the others.
pub open spec fn is_rest_frame(f: Seq<u8>, l: LayerModel) -> bool {
    &&& f.len() == 3 * l.mask.len()
    &&& forall|k: int, c: int|
        0 <= k < l.mask.len() && 0 <= c < 3 ==> #[trigger] f[3 * k + c] == if l.mask[k] {
            colour_byte(l.params, c)
        } else {
            0
        }
}

/// The frame a layer shows at rest.
pub fn rest_frame(l: &Layer) -> (r: Vec<u8>)
    ensures
        is_rest_frame(r@, l@),
{
    let n = l.mask.len();
    let mut colour: Vec<u8> = Vec::new();
    let mut c: usize = 0;
    while c < 3
        invariant
            c <= 3,
            colour@.len() == c,
            forall|j: int| 0 <= j < c ==> colour@[j] == colour_byte(l.params@, j),
        decreases 3 - c,
    {
        colour.push(if c < l.params.len() { l.params[c] } else { 0 });
        c = c + 1;
    }
    let mut r: Vec<u8> = Vec::new();
    let mut k: usize = 0;
    while k < n
        invariant
            n == l.mask@.len(),
            k <= n,
            colour@.len() == 3,
            forall|j: int| 0 <= j < 3 ==> colour@[j] == colour_byte(l.params@, j),
            r@.len() == 3 * k,
            forall|q: int, c: int|
                0 <= q < k && 0 <= c < 3 ==> #[trigger] r@[3 * q + c] == if l.mask@[q] {
                    colour_byte(l.params@, c)
                } else {
                    0
                },
        decreases n - k,
    {
        let on = l.mask[k];
        let mut c: usize = 0;
        while c < 3
            invariant
                n == l.mask@.len(),
                k < n,
                on == l.mask@[k as int],
                colour@.len() == 3,
                forall|j: int| 0 <= j < 3 ==> colour@[j] == colour_byte(l.params@, j),
                c <= 3,
                r@.len() == 3 * k + c,
                forall|q: int, d: int|
                    0 <= q < k && 0 <= d < 3 ==> #[trigger] r@[3 * q + d] == if l.mask@[q] {
                        colour_byte(l.params@, d)
                    } else {
                        0
                    },
                forall|d: int| 0 <= d < c ==> #[trigger] r@[3 * k + d] == if on {
                    colour_byte(l.params@, d)
                } else {
                    0
                },
            decreases 3 - c,
        {
            r.push(if on { colour[c] } else { 0 });
            c = c + 1;
        }
        k = k + 1;
    }
    r
}

/// The stack after removing its topmost layer, if it has one.
pub open spec fn popped(k: Seq<LayerModel>) -> Seq<LayerModel> {
    if k.len() > 0 {
        k.drop_last()
    } else {
        k
    }
}

impl EffectManager {
    pub open spec fn wf(&self) -> bool {
        forall|i: int| 0 <= i < self@.len() ==> layer_wf(#[trigger] self@[i])
    }

    /// The colour map last rendered for the layer at `layer`; empty where there is none.
    pub open spec fn map_of(&self, layer: i32) -> Seq<u8> {
        if 0 <= layer < self.layers@.len() {
            self.layers@[layer as int].frame@
        } else {
            Seq::empty()
        }
    }

    pub fn new() -> (r: EffectManager)
        ensures
            r@ == Seq::<LayerModel>::empty(),
            r.wf(),
    {
        EffectManager { layers: Vec::new() }
    }

    pub fn len(&self) -> (r: usize)
        ensures
            r == self@.len(),
    {
        self.layers.len()
    }

    /// Puts a new layer on top, with an empty frame.
    pub fn push_effect(&mut self, kind: EffectKind, params: Vec<u8>, mask: Vec<bool>)
        ensures
            final(self)@ == old(self)@.push(LayerModel { kind, params: params@, mask: mask@ }),
            final(self).layers@.last().frame@ == Seq::<u8>::empty(),
            old(self).wf() && mask@.len() == KEY_COUNT ==> final(self).wf(),
            forall|i: int|
                0 <= i < old(self).layers@.len() ==> #[trigger] final(self).layers@[i] == old(
                    self,
                ).layers@[i],
    {
        let count = params.len();
        assert(count as int <= u64::MAX);
        self.layers.push(Layer { kind, params, mask, frame: Vec::new() });
        proof {
            assert(final(self)@ =~= old(self)@.push(LayerModel { kind, params: params@, mask: mask@ }));
        }
    }

    /// Removes the topmost layer, if there is one.
    pub fn pop_effect(&mut self)
        ensures
            final(self)@ == popped(old(self)@),
            old(self).wf() ==> final(self).wf(),
            forall|i: int|
                0 <= i < final(self).layers@.len() ==> #[trigger] final(self).layers@[i] == old(
                    self,
                ).layers@[i],
    {
        if self.layers.len() > 0 {
            let _ = self.layers.pop();
            proof {
                assert(final(self)@ =~= old(self)@.drop_last());
            }
        }
    }

    /// The colour map last rendered for a layer.
    pub fn get_map(&self, layer: i32) -> (r: Vec<u8>)
        ensures
            r@ == self.map_of(layer),
    {
        if 0 <= layer && (layer as usize) < self.layers.len() {
            self.layers[layer as usize].frame.clone()
        } else {
            Vec::new()
        }
    }

    /// Records the colour map rendered for the layer at `layer`; no change where there is none.
    pub fn set_frame(&mut self, layer: i32, frame: Vec<u8>)
        ensures
            final(self)@ == old(self)@,
            0 <= layer < old(self).layers@.len() ==> final(self).map_of(layer) == frame@,
    {
        if 0 <= layer && (layer as usize) < self.layers.len() {
            self.set_frame_at(layer as usize, frame);
        }
    }

    fn set_frame_at(&mut self, layer: usize, frame: Vec<u8>)
        requires
            layer < old(self).layers@.len(),
        ensures
            final(self)@ == old(self)@,
            final(self).layers@.len() == old(self).layers@.len(),
            final(self).layers@[layer as int].frame@ == frame@,
            forall|j: int|
                0 <= j < old(self).layers@.len() && j != layer ==> #[trigger] final(self).layers@[j]
                    == old(self).layers@[j],
    {
        let mut l = self.layers.remove(layer);
        l.frame = frame;
        self.layers.insert(layer, l);
        proof {
            assert(final(self)@ =~= old(self)@);
        }
    }

    /// Gives every layer its frame at rest: the layer's colour on each key it
    /// covers, black elsewhere.
    pub fn update(&mut self)
        ensures
            final(self)@ == old(self)@,
            forall|i: int|
                0 <= i < final(self).layers@.len() ==> is_rest_frame(
                    #[trigger] final(self).layers@[i].frame@,
                    final(self)@[i],
                ),
    {
        let n = self.layers.len();
        let mut i: usize = 0;
        while i < n
            invariant
                n == self.layers@.len(),
                i <= n,
                self@ == old(self)@,
                forall|j: int| 0 <= j < i ==> is_rest_frame(#[trigger] self.layers@[j].frame@, self@[j]),
            decreases n - i,
        {
            let f = rest_frame(&self.layers[i]);
            self.set_frame_at(i, f);
            i = i + 1;
        }
    }
}

} // verus!
