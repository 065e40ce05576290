use vstd::prelude::*;
use crate::effects::{
    full_key_mask, full_mask, layer_wf, EffectKind, EffectManager, Layer, LayerModel, KEY_COUNT,
};

verus! {

/// `n` as eight bytes, least significant first.
pub open spec fn u64_le(n: u64) -> Seq<u8> {
    seq![
        (n & 0xff) as u8,
        ((n >> 8u64) & 0xff) as u8,
        ((n >> 16u64) & 0xff) as u8,
        ((n >> 24u64) & 0xff) as u8,
        ((n >> 32u64) & 0xff) as u8,
        ((n >> 40u64) & 0xff) as u8,
        ((n >> 48u64) & 0xff) as u8,
        ((n >> 56u64) & 0xff) as u8,
    ]
}

/// The number that the first eight bytes of `b` hold, least significant first.
pub open spec fn le_u64(b: Seq<u8>) -> u64 {
    (b[0] as u64) | ((b[1] as u64) << 8u64) | ((b[2] as u64) << 16u64) | ((b[3] as u64) << 24u64)
        | ((b[4] as u64) << 32u64) | ((b[5] as u64) << 40u64) | ((b[6] as u64) << 48u64) | ((
    b[7] as u64) << 56u64)
}

pub proof fn lemma_u64_le_round_trip(n: u64)
    ensures
        le_u64(u64_le(n)) == n,
{
    assert(((n & 0xff) as u8 as u64) | ((((n >> 8u64) & 0xff) as u8 as u64) << 8u64) | ((((n
        >> 16u64) & 0xff) as u8 as u64) << 16u64) | ((((n >> 24u64) & 0xff) as u8 as u64)
        << 24u64) | ((((n >> 32u64) & 0xff) as u8 as u64) << 32u64) | ((((n >> 40u64) & 0xff) as u8
        as u64) << 40u64) | ((((n >> 48u64) & 0xff) as u8 as u64) << 48u64) | ((((n >> 56u64)
        & 0xff) as u8 as u64) << 56u64) == n) by (bit_vector);
}

/// The byte that stands for an effect kind.
pub open spec fn kind_tag(k: EffectKind) -> u8 {
    match k {
        EffectKind::Static => 0,
        EffectKind::StaticGradient => 1,
        EffectKind::WaveGradient => 2,
        EffectKind::BreathingSingle => 3,
    }
}

/// The effect kind a byte stands for, if any.
pub open spec fn kind_of_tag(t: u8) -> Option<EffectKind> {
    if t == 0 {
        Some(EffectKind::Static)
    } else if t == 1 {
        Some(EffectKind::StaticGradient)
    } else if t == 2 {
        Some(EffectKind::WaveGradient)
    } else if t == 3 {
        Some(EffectKind::BreathingSingle)
    } else {
        None
    }
}

/// A mask as one byte per key: 1 where the key is covered, else 0.
pub open spec fn mask_bytes(m: Seq<bool>) -> Seq<u8> {
    m.map_values(|x: bool| if x { 1u8 } else { 0u8 })
}

/// The bytes a layer is saved as: its kind, the count of its arguments, the
/// arguments, and its mask.
pub open spec fn encode_layer(l: LayerModel) -> Seq<u8> {
    seq![kind_tag(l.kind)] + u64_le(l.params.len() as u64) + l.params + mask_bytes(l.mask)
}

/// The layers' encodings, bottom layer first.
pub open spec fn encode_layers(ls: Seq<LayerModel>) -> Seq<u8>
    decreases ls.len(),
{
    if ls.len() == 0 {
        Seq::empty()
    } else {
        encode_layer(ls[0]) + encode_layers(ls.drop_first())
    }
}

/// The bytes a layer stack is saved as: the layer count, then the layers.
pub open spec fn encode_stack(ls: Seq<LayerModel>) -> Seq<u8> {
    u64_le(ls.len() as u64) + encode_layers(ls)
}

/// Reads one layer from the front of `b`: the layer and the bytes it took.
#[verifier::opaque]
pub open spec fn decode_layer(b: Seq<u8>) -> Option<(LayerModel, int)> {
    if b.len() < 9 {
        None
    } else {
        let n = le_u64(b.subrange(1, 9)) as int;
        let end = 9 + n + KEY_COUNT;
        if kind_of_tag(b[0]) is None || end > b.len() {
            None
        } else {
            let m = b.subrange(9 + n, end);
            if forall|i: int| 0 <= i < m.len() ==> #[trigger] m[i] == 0 || m[i] == 1 {
                Some(
                    (
                        LayerModel {
                            kind: kind_of_tag(b[0])->Some_0,
                            params: b.subrange(9, 9 + n),
                            mask: m.map_values(|x: u8| x == 1),
                        },
                        end,
                    ),
                )
            } else {
                None
            }
        }
    }
}

/// Reads exactly `count` layers that take up all of `b`.
pub open spec fn decode_layers(b: Seq<u8>, count: nat) -> Option<Seq<LayerModel>>
    decreases count,
{
    if count == 0 {
        if b.len() == 0 {
            Some(Seq::empty())
        } else {
            None
        }
    } else {
        match decode_layer(b) {
            Some((l, used)) => match decode_layers(b.subrange(used, b.len() as int), (count - 1) as nat) {
                Some(rest) => Some(seq![l] + rest),
                None => None,
            },
            None => None,
        }
    }
}

/// The layer stack that saved bytes hold, if they hold one.
pub open spec fn decode_stack(b: Seq<u8>) -> Option<Seq<LayerModel>> {
    if b.len() < 8 {
        None
    } else {
        decode_layers(b.subrange(8, b.len() as int), le_u64(b.subrange(0, 8)) as nat)
    }
}

proof fn lemma_decode_layer(l: LayerModel, rest: Seq<u8>)
    requires
        layer_wf(l),
    ensures
        decode_layer(encode_layer(l) + rest) == Some((l, encode_layer(l).len() as int)),
{
    reveal(decode_layer);
    let b = encode_layer(l) + rest;
    let n = l.params.len() as int;
    lemma_u64_le_round_trip(n as u64);
    assert(b.subrange(1, 9) =~= u64_le(n as u64));
    assert(le_u64(b.subrange(1, 9)) as int == n);
    assert(b[0] == kind_tag(l.kind));
    assert(kind_of_tag(b[0]) == Some(l.kind));
    assert(b.subrange(9, 9 + n) =~= l.params);
    let m = b.subrange(9 + n, 9 + n + KEY_COUNT);
    assert(m =~= mask_bytes(l.mask));
    assert(forall|i: int| 0 <= i < m.len() ==> #[trigger] m[i] == 0 || m[i] == 1);
    assert(m.map_values(|x: u8| x == 1) =~= l.mask);
    assert(encode_layer(l).len() == 9 + n + KEY_COUNT);
}

proof fn lemma_decode_layers(ls: Seq<LayerModel>)
    requires
        forall|i: int| 0 <= i < ls.len() ==> layer_wf(#[trigger] ls[i]),
    ensures
        decode_layers(encode_layers(ls), ls.len()) == Some(ls),
    decreases ls.len(),
{
    if ls.len() > 0 {
        let head = encode_layer(ls[0]);
        let tail = encode_layers(ls.drop_first());
        lemma_decode_layer(ls[0], tail);
        assert((head + tail).subrange(head.len() as int, (head + tail).len() as int) =~= tail);
        assert forall|i: int| 0 <= i < ls.drop_first().len() implies layer_wf(#[trigger] ls.drop_first()[i]) by {
            assert(ls.drop_first()[i] == ls[i + 1]);
        }
        lemma_decode_layers(ls.drop_first());
        assert(seq![ls[0]] + ls.drop_first() =~= ls);
    }
}

/// Saved bytes read back give the same layers: kinds, arguments and masks.
pub proof fn lemma_save_load_round_trip(ls: Seq<LayerModel>)
    requires
        ls.len() <= u64::MAX,
        forall|i: int| 0 <= i < ls.len() ==> layer_wf(#[trigger] ls[i]),
    ensures
        decode_stack(encode_stack(ls)) == Some(ls),
{
    let b = encode_stack(ls);
    lemma_u64_le_round_trip(ls.len() as u64);
    assert(b.subrange(0, 8) =~= u64_le(ls.len() as u64));
    assert(b.subrange(8, b.len() as int) =~= encode_layers(ls));
    lemma_decode_layers(ls);
}

proof fn lemma_encode_layers_push(ls: Seq<LayerModel>, l: LayerModel)
    ensures
        encode_layers(ls.push(l)) == encode_layers(ls) + encode_layer(l),
    decreases ls.len(),
{
    if ls.len() == 0 {
        assert(ls.push(l).drop_first() =~= Seq::<LayerModel>::empty());
        assert(encode_layers(ls.push(l)) =~= encode_layer(l) + encode_layers(Seq::<LayerModel>::empty()));
        assert(encode_layers(ls) + encode_layer(l) =~= encode_layer(l));
    } else {
        assert(ls.push(l).drop_first() =~= ls.drop_first().push(l));
        lemma_encode_layers_push(ls.drop_first(), l);
        assert(ls.push(l)[0] == ls[0]);
        assert(encode_layers(ls.push(l)) =~= encode_layers(ls) + encode_layer(l));
    }
}

/// Appends `n` as eight bytes, least significant first.
fn push_u64_le(out: &mut Vec<u8>, n: u64)
    ensures
        final(out)@ == old(out)@ + u64_le(n),
{
    out.push((n & 0xff) as u8);
    out.push(((n >> 8u64) & 0xff) as u8);
    out.push(((n >> 16u64) & 0xff) as u8);
    out.push(((n >> 24u64) & 0xff) as u8);
    out.push(((n >> 32u64) & 0xff) as u8);
    out.push(((n >> 40u64) & 0xff) as u8);
    out.push(((n >> 48u64) & 0xff) as u8);
    out.push(((n >> 56u64) & 0xff) as u8);
    proof {
        assert(final(out)@ =~= old(out)@ + u64_le(n));
    }
}

/// The number that eight bytes of `b` at `pos` hold, least significant first.
fn read_u64_le(b: &[u8], pos: usize) -> (r: u64)
    requires
        pos + 8 <= b@.len(),
    ensures
        r == le_u64(b@.subrange(pos as int, pos + 8)),
{
    let s = Ghost(b@.subrange(pos as int, pos + 8));
    assert(s@[0] == b@[pos as int] && s@[1] == b@[pos + 1] && s@[2] == b@[pos + 2] && s@[3]
        == b@[pos + 3]);
    assert(s@[4] == b@[pos + 4] && s@[5] == b@[pos + 5] && s@[6] == b@[pos + 6] && s@[7]
        == b@[pos + 7]);
    (b[pos] as u64) | ((b[pos + 1] as u64) << 8u64) | ((b[pos + 2] as u64) << 16u64) | ((b[pos
        + 3] as u64) << 24u64) | ((b[pos + 4] as u64) << 32u64) | ((b[pos + 5] as u64) << 40u64)
        | ((b[pos + 6] as u64) << 48u64) | ((b[pos + 7] as u64) << 56u64)
}

/// Appends the saved form of one layer.
fn push_layer(out: &mut Vec<u8>, l: &Layer)
    ensures
        final(out)@ == old(out)@ + encode_layer(l@),
{
    let tag: u8 = match l.kind {
        EffectKind::Static => 0,
        EffectKind::StaticGradient => 1,
        EffectKind::WaveGradient => 2,
        EffectKind::BreathingSingle => 3,
    };
    out.push(tag);
    push_u64_le(out, l.params.len() as u64);
    let start = Ghost(out@);
    let mut j: usize = 0;
    while j < l.params.len()
        invariant
            j <= l.params@.len(),
            out@ == start@ + l.params@.subrange(0, j as int),
        decreases l.params@.len() - j,
    {
        out.push(l.params[j]);
        j = j + 1;
        proof {
            assert(out@ =~= start@ + l.params@.subrange(0, j as int));
        }
    }
    let mid = Ghost(out@);
    let mut j: usize = 0;
    while j < l.mask.len()
        invariant
            j <= l.mask@.len(),
            out@ == mid@ + mask_bytes(l.mask@.subrange(0, j as int)),
        decreases l.mask@.len() - j,
    {
        out.push(if l.mask[j] { 1u8 } else { 0u8 });
        j = j + 1;
        proof {
            assert(out@ =~= mid@ + mask_bytes(l.mask@.subrange(0, j as int)));
        }
    }
    proof {
        assert(l.params@.subrange(0, l.params@.len() as int) =~= l.params@);
        assert(l.mask@.subrange(0, l.mask@.len() as int) =~= l.mask@);
        assert(final(out)@ =~= old(out)@ + encode_layer(l@));
    }
}

/// Reads one layer at `pos`; gives it with the position just past it.
fn decode_layer_at(b: &[u8], pos: usize) -> (r: Option<(Layer, usize)>)
    requires
        pos <= b@.len(),
    ensures
        match decode_layer(b@.subrange(pos as int, b@.len() as int)) {
            Some((l, used)) => r matches Some((x, next)) && x@ == l && next == pos + used
                && pos < next <= b@.len() && layer_wf(x@),
            None => r is None,
        },
{
    proof {
        reveal(decode_layer);
    }
    let ghost s = b@.subrange(pos as int, b@.len() as int);
    let len = b.len();
    if len - pos < 9 {
        return None;
    }
    let kind = match b[pos] {
        0 => EffectKind::Static,
        1 => EffectKind::StaticGradient,
        2 => EffectKind::WaveGradient,
        3 => EffectKind::BreathingSingle,
        _ => {
            return None;
        },
    };
    assert(s[0] == b@[pos as int]);
    let n64 = read_u64_le(b, pos + 1);
    assert(s.subrange(1, 9) =~= b@.subrange(pos + 1, pos + 9));
    if n64 > (len - pos - 9) as u64 {
        return None;
    }
    let n = n64 as usize;
    if len - pos - 9 - n < KEY_COUNT {
        return None;
    }
    let start = pos + 9;
    let end = start + n;
    let mut params: Vec<u8> = Vec::new();
    let mut j: usize = start;
    while j < end
        invariant
            start <= j <= end,
            end + KEY_COUNT <= b@.len(),
            params@ == b@.subrange(start as int, j as int),
        decreases end - j,
    {
        params.push(b[j]);
        j = j + 1;
        proof {
            assert(params@ =~= b@.subrange(start as int, j as int));
        }
    }
    let mstart = end;
    let mend = mstart + KEY_COUNT;
    let mut mask: Vec<bool> = Vec::new();
    let mut j: usize = mstart;
    while j < mend
        invariant
            mstart <= j <= mend,
            mend == mstart + KEY_COUNT,
            mend <= b@.len(),
            mstart == pos + 9 + n,
            s == b@.subrange(pos as int, b@.len() as int),
            n == le_u64(s.subrange(1, 9)) as int,
            kind_of_tag(s[0]) == Some(kind),
            forall|i: int| mstart <= i < j ==> #[trigger] b@[i] == 0 || b@[i] == 1,
            mask@ == b@.subrange(mstart as int, j as int).map_values(|x: u8| x == 1),
        decreases mend - j,
    {
        let v = b[j];
        if v == 0 {
            mask.push(false);
        } else if v == 1 {
            mask.push(true);
        } else {
            proof {
                reveal(decode_layer);
                let m = s.subrange(9 + n, 9 + n + KEY_COUNT);
                assert(m[j - mstart] == b@[j as int]);
            }
            return None;
        }
        j = j + 1;
        proof {
            assert(mask@ =~= b@.subrange(mstart as int, j as int).map_values(|x: u8| x == 1));
        }
    }
    proof {
        let m = s.subrange(9 + n, 9 + n + KEY_COUNT);
        assert(m =~= b@.subrange(mstart as int, mstart + KEY_COUNT));
        assert forall|i: int| 0 <= i < m.len() implies #[trigger] m[i] == 0 || m[i] == 1 by {
            assert(m[i] == b@[mstart + i]);
        }
        assert(s.subrange(9, 9 + n) =~= params@);
    }
    Some((Layer { kind, params, mask, frame: Vec::new() }, mstart + KEY_COUNT))
}

impl EffectManager {
    /// The bytes the layer stack is persisted as.
    pub fn save(&self) -> (r: Vec<u8>)
        ensures
            r@ == encode_stack(self@),
    {
        let mut out: Vec<u8> = Vec::new();
        push_u64_le(&mut out, self.layers.len() as u64);
        let mut i: usize = 0;
        while i < self.layers.len()
            invariant
                i <= self.layers@.len(),
                out@ == u64_le(self.layers@.len() as u64) + encode_layers(self@.subrange(0, i as int)),
            decreases self.layers@.len() - i,
        {
            push_layer(&mut out, &self.layers[i]);
            proof {
                lemma_encode_layers_push(self@.subrange(0, i as int), self@[i as int]);
                assert(self@.subrange(0, i + 1) =~= self@.subrange(0, i as int).push(self@[i as int]));
            }
            i = i + 1;
        }
        proof {
            assert(self@.subrange(0, i as int) =~= self@);
        }
        out
    }

    /// Replaces the layer stack by the one saved in `bytes`; leaves it as it
    /// is, and returns false, where `bytes` hold no stack.
    pub fn load_from_save(&mut self, bytes: &[u8]) -> (ok: bool)
        ensures
            match decode_stack(bytes@) {
                Some(ls) => ok && final(self)@ == ls && final(self).wf(),
                None => !ok && *final(self) == *old(self),
            },
    {
        let len = bytes.len();
        if len < 8 {
            return false;
        }
        let count = read_u64_le(bytes, 0);
        let mut pos: usize = 8;
        let mut i: u64 = 0;
        let mut acc: Vec<Layer> = Vec::new();
        while i < count
            invariant
                8 <= pos <= bytes@.len(),
                i <= count,
                count == le_u64(bytes@.subrange(0, 8)),
                decode_stack(bytes@) == match decode_layers(
                    bytes@.subrange(pos as int, bytes@.len() as int),
                    (count - i) as nat,
                ) {
                    Some(rest) => Some(acc@.map_values(|l: Layer| l@) + rest),
                    None => None,
                },
                forall|j: int| 0 <= j < acc@.len() ==> layer_wf(#[trigger] acc@[j]@),
            decreases count - i,
        {
            let ghost s = bytes@.subrange(pos as int, bytes@.len() as int);
            match decode_layer_at(bytes, pos) {
                Some((l, next)) => {
                    proof {
                        assert(decode_layer(s) is Some);
                        let used = decode_layer(s)->Some_0.1;
                        assert(next == pos + used);
                        assert(l@ == decode_layer(s)->Some_0.0);
                        assert(s.subrange(used, s.len() as int) =~= bytes@.subrange(
                            next as int,
                            bytes@.len() as int,
                        ));
                        assert(acc@.push(l).map_values(|l: Layer| l@) =~= acc@.map_values(
                            |l: Layer| l@,
                        ).push(l@));
                        match decode_layers(
                            bytes@.subrange(next as int, bytes@.len() as int),
                            (count - i - 1) as nat,
                        ) {
                            Some(rest) => {
                                assert(acc@.map_values(|l: Layer| l@) + (seq![l@] + rest)
                                    =~= acc@.map_values(|l: Layer| l@).push(l@) + rest);
                            },
                            None => {},
                        }
                    }
                    acc.push(l);
                    pos = next;
                },
                None => {
                    return false;
                },
            }
            i = i + 1;
        }
        if pos != len {
            return false;
        }
        proof {
            assert(acc@.map_values(|l: Layer| l@) + Seq::<LayerModel>::empty() =~= acc@.map_values(
                |l: Layer| l@,
            ));
        }
        self.layers = acc;
        true
    }

    /// The compositor the daemon starts with: the stack saved in `saved`
    /// where that holds one, else a single green static layer over every key.
    pub fn from_save_or_default(saved: Option<&[u8]>) -> (r: EffectManager)
        ensures
            r.wf(),
            match saved {
                Some(b) if decode_stack(b@) is Some => r@ == decode_stack(b@)->Some_0,
                _ => r@ == seq![default_layer()],
            },
    {
        let mut k = EffectManager::new();
        if let Some(b) = saved {
            if k.load_from_save(b) {
                return k;
            }
        }
        k.push_effect(EffectKind::Static, vec![0u8, 255, 0], full_key_mask());
        proof {
            assert(k@ =~= seq![default_layer()]);
        }
        k
    }
}

/// The layer a daemon without saved effects starts with: green, static, on
/// every key.
pub open spec fn default_layer() -> LayerModel {
    LayerModel { kind: EffectKind::Static, params: seq![0u8, 255, 0], mask: full_mask() }
}

} // verus!
