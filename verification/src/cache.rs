//! Decoder cache bookkeeping for autoregressive generation.
//!
//! The decoder keeps a convolution state for every convolutional layer and a
//! key and a value tensor for every attention layer. This module decides which
//! layers hold which cache, the shapes a fresh cache starts with, the names and
//! order of the cache tensors fed to the decoder and read back from it, which
//! returned tensors are taken, and the resulting sequence length. The tensors
//! themselves are held by the caller, keyed by [`CacheSlot`].

use vstd::prelude::*;

use crate::config::{layer_type_named, LayerType};
use crate::error::{ErrorKind, LFM2Error};
use crate::text::{concat2, decimal, owned, push_decimal};

verus! {

/// Cache-related config extracted from the LFM2 configuration
#[derive(Debug, Clone, Copy, PartialEq, Eq, Structural)]
pub struct LFM2CacheConfig {
    pub hidden_size: usize,
    pub num_attention_heads: usize,
    pub num_key_value_heads: usize,
    pub head_dim: usize,
    pub num_layers: usize,
    pub conv_cache_len: usize,
}

impl LFM2CacheConfig {
    /// Derive the cache configuration from the model dimensions; the head
    /// dimension is the hidden size divided by the number of attention heads.
    pub fn from_dims(
        hidden_size: usize,
        num_attention_heads: usize,
        num_key_value_heads: usize,
        num_hidden_layers: usize,
        conv_l_cache: usize,
    ) -> (c: Self)
        requires
            num_attention_heads > 0,
        ensures
            c.hidden_size == hidden_size,
            c.num_attention_heads == num_attention_heads,
            c.num_key_value_heads == num_key_value_heads,
            c.head_dim == hidden_size / num_attention_heads,
            c.num_layers == num_hidden_layers,
            c.conv_cache_len == conv_l_cache,
    {
        LFM2CacheConfig {
            hidden_size,
            num_attention_heads,
            num_key_value_heads,
            head_dim: hidden_size / num_attention_heads,
            num_layers: num_hidden_layers,
            conv_cache_len: conv_l_cache,
        }
    }
}

/// Cache of one attention layer: the shapes of its key and value tensors
/// `[batch, num_kv_heads, seq_len, head_dim]`.
#[derive(Debug, Clone)]
pub struct KVCache {
    pub layer: usize,
    pub key_shape: Vec<usize>,
    pub value_shape: Vec<usize>,
}

/// Cache of one convolutional layer: the shape of its state tensor
/// `[batch, hidden_size, cache_len]`.
#[derive(Debug, Clone)]
pub struct ConvCache {
    pub layer: usize,
    pub state_shape: Vec<usize>,
}

/// One cache tensor of one layer.
#[derive(Debug, Clone, Copy, PartialEq, Eq, Structural)]
pub enum CacheSlot {
    Conv(usize),
    Key(usize),
    Value(usize),
}

/// Name of the decoder input that feeds a cache tensor.
pub open spec fn input_name(slot: CacheSlot) -> Seq<char> {
    match slot {
        CacheSlot::Conv(l) => "past_conv."@ + decimal(l as nat),
        CacheSlot::Key(l) => "past_key_values."@ + decimal(l as nat) + ".key"@,
        CacheSlot::Value(l) => "past_key_values."@ + decimal(l as nat) + ".value"@,
    }
}

/// Name of the decoder output that returns a cache tensor.
pub open spec fn output_name(slot: CacheSlot) -> Seq<char> {
    match slot {
        CacheSlot::Conv(l) => "present_conv."@ + decimal(l as nat),
        CacheSlot::Key(l) => "present."@ + decimal(l as nat) + ".key"@,
        CacheSlot::Value(l) => "present."@ + decimal(l as nat) + ".value"@,
    }
}

/// The decoder inputs for the first `n` layers, in layer order: a convolution
/// state for a convolutional layer, a key then a value for an attention layer,
/// nothing for a layer without a configured type.
pub open spec fn input_slots(types: Seq<LayerType>, n: nat) -> Seq<CacheSlot>
    decreases n,
{
    if n == 0 {
        Seq::empty()
    } else {
        let l = (n - 1) as int;
        let prev = input_slots(types, (n - 1) as nat);
        if l < types.len() && types[l] == LayerType::Conv {
            prev.push(CacheSlot::Conv(l as usize))
        } else if l < types.len() && types[l] == LayerType::FullAttention {
            prev.push(CacheSlot::Key(l as usize)).push(CacheSlot::Value(l as usize))
        } else {
            prev
        }
    }
}

/// The layer types named by the configuration, if every name is known.
pub open spec fn parse_layer_types(names: Seq<Seq<char>>) -> Option<Seq<LayerType>>
    decreases names.len(),
{
    if names.len() == 0 {
        Some(Seq::empty())
    } else {
        match (parse_layer_types(names.drop_last()), layer_type_named(names.last())) {
            (Some(prev), Some(t)) => Some(prev.push(t)),
            _ => None,
        }
    }
}

/// Index of the first name that is not a known layer type.
pub open spec fn first_unknown_layer(names: Seq<Seq<char>>, i: int) -> bool {
    &&& 0 <= i < names.len()
    &&& layer_type_named(names[i]) is None
    &&& forall|j: int| 0 <= j < i ==> layer_type_named(#[trigger] names[j]) is Some
}

pub open spec fn fresh_conv_shape(c: LFM2CacheConfig) -> Seq<usize> {
    seq![1usize, c.hidden_size, c.conv_cache_len]
}

pub open spec fn fresh_kv_shape(c: LFM2CacheConfig) -> Seq<usize> {
    seq![1usize, c.num_key_value_heads, 0usize, c.head_dim]
}

/// A convolution state after an update: taken iff the decoder returned a
/// rank-3 tensor under its output name, in which case its shape is that of the
/// returned tensor.
pub open spec fn conv_update(
    taken: Seq<bool>,
    observed: Seq<Option<Vec<usize>>>,
    j: int,
    before: ConvCache,
    after: ConvCache,
) -> bool {
    &&& taken[j] == (observed[j] matches Some(s) && s@.len() == 3)
    &&& after.layer == before.layer
    &&& after.state_shape@ == (if taken[j] {
        observed[j].unwrap()@
    } else {
        before.state_shape@
    })
}

/// A key/value pair after an update; its output slots are `base` (key) and
/// `base + 1` (value).
pub open spec fn kv_update(
    taken: Seq<bool>,
    observed: Seq<Option<Vec<usize>>>,
    base: int,
    before: KVCache,
    after: KVCache,
) -> bool {
    &&& taken[base] == (observed[base] matches Some(s) && s@.len() == 4)
    &&& taken[base + 1] == (observed[base + 1] matches Some(s) && s@.len() == 4)
    &&& after.layer == before.layer
    &&& after.key_shape@ == (if taken[base] {
        observed[base].unwrap()@
    } else {
        before.key_shape@
    })
    &&& after.value_shape@ == (if taken[base + 1] {
        observed[base + 1].unwrap()@
    } else {
        before.value_shape@
    })
}

/// Complete generation cache for LFM2 model
#[derive(Debug)]
pub struct GenerationCache {
    /// Attention layer caches, in layer order
    pub kv_caches: Vec<KVCache>,
    /// Convolutional layer caches, in layer order
    pub conv_caches: Vec<ConvCache>,
    /// Current sequence length
    pub seq_len: usize,
    /// Layer types to know which cache type per layer
    pub layer_types: Vec<LayerType>,
    /// Model configuration
    pub config: LFM2CacheConfig,
}

impl GenerationCache {
    /// Every convolutional layer has exactly one state and every attention
    /// layer exactly one key/value pair, both listed in layer order, with
    /// shapes of the right rank.
    pub open spec fn wf(&self) -> bool {
        let types = self.layer_types@;
        &&& forall|j: int|
            0 <= j < self.conv_caches.len() ==> {
                let c = #[trigger] self.conv_caches@[j];
                &&& c.layer < types.len()
                &&& types[c.layer as int] == LayerType::Conv
                &&& c.state_shape@.len() == 3
            }
        &&& forall|j: int, k: int|
            0 <= j < k < self.conv_caches.len() ==> #[trigger] self.conv_caches@[j].layer
                < #[trigger] self.conv_caches@[k].layer
        &&& forall|l: int|
            0 <= l < types.len() && #[trigger] types[l] == LayerType::Conv ==> exists|j: int|
                0 <= j < self.conv_caches.len() && #[trigger] self.conv_caches@[j].layer == l
        &&& forall|j: int|
            0 <= j < self.kv_caches.len() ==> {
                let c = #[trigger] self.kv_caches@[j];
                &&& c.layer < types.len()
                &&& types[c.layer as int] == LayerType::FullAttention
                &&& c.key_shape@.len() == 4
                &&& c.value_shape@.len() == 4
            }
        &&& forall|j: int, k: int|
            0 <= j < k < self.kv_caches.len() ==> #[trigger] self.kv_caches@[j].layer
                < #[trigger] self.kv_caches@[k].layer
        &&& forall|l: int|
            0 <= l < types.len() && #[trigger] types[l] == LayerType::FullAttention
                ==> exists|j: int|
                0 <= j < self.kv_caches.len() && #[trigger] self.kv_caches@[j].layer == l
    }

    /// The cache holds no position yet: every tensor has its initial shape.
    pub open spec fn is_fresh(&self) -> bool {
        &&& self.wf()
        &&& self.seq_len == 0
        &&& forall|j: int|
            0 <= j < self.conv_caches.len() ==> (#[trigger] self.conv_caches@[j]).state_shape@
                == fresh_conv_shape(self.config)
        &&& forall|j: int|
            0 <= j < self.kv_caches.len() ==> {
                &&& (#[trigger] self.kv_caches@[j]).key_shape@ == fresh_kv_shape(self.config)
                &&& self.kv_caches@[j].value_shape@ == fresh_kv_shape(self.config)
            }
    }

    /// The same layers as `other`, in the same order.
    pub open spec fn same_layout(&self, other: &GenerationCache) -> bool {
        &&& self.layer_types@ == other.layer_types@
        &&& self.config == other.config
        &&& self.conv_caches.len() == other.conv_caches.len()
        &&& self.kv_caches.len() == other.kv_caches.len()
        &&& forall|j: int|
            0 <= j < self.conv_caches.len() ==> (#[trigger] self.conv_caches@[j]).layer
                == other.conv_caches@[j].layer
        &&& forall|j: int|
            0 <= j < self.kv_caches.len() ==> (#[trigger] self.kv_caches@[j]).layer
                == other.kv_caches@[j].layer
    }

    /// A fresh cache for layers of the given types.
    fn fresh(config: LFM2CacheConfig, types: Vec<LayerType>) -> (c: Self)
        ensures
            c.is_fresh(),
            c.config == config,
            c.layer_types@ == types@,
    {
        let mut kv_caches: Vec<KVCache> = Vec::new();
        let mut conv_caches: Vec<ConvCache> = Vec::new();
        let n = types.len();
        let mut i: usize = 0;
        while i < n
            invariant
                n == types.len(),
                i <= n,
                forall|j: int|
                    0 <= j < conv_caches.len() ==> {
                        let c = #[trigger] conv_caches@[j];
                        &&& c.layer < i
                        &&& types@[c.layer as int] == LayerType::Conv
                        &&& c.state_shape@ == fresh_conv_shape(config)
                    },
                forall|j: int, k: int|
                    0 <= j < k < conv_caches.len() ==> #[trigger] conv_caches@[j].layer
                        < #[trigger] conv_caches@[k].layer,
                forall|l: int|
                    0 <= l < i && #[trigger] types@[l] == LayerType::Conv ==> exists|j: int|
                        0 <= j < conv_caches.len() && #[trigger] conv_caches@[j].layer == l,
                forall|j: int|
                    0 <= j < kv_caches.len() ==> {
                        let c = #[trigger] kv_caches@[j];
                        &&& c.layer < i
                        &&& types@[c.layer as int] == LayerType::FullAttention
                        &&& c.key_shape@ == fresh_kv_shape(config)
                        &&& c.value_shape@ == fresh_kv_shape(config)
                    },
                forall|j: int, k: int|
                    0 <= j < k < kv_caches.len() ==> #[trigger] kv_caches@[j].layer
                        < #[trigger] kv_caches@[k].layer,
                forall|l: int|
                    0 <= l < i && #[trigger] types@[l] == LayerType::FullAttention
                        ==> exists|j: int|
                        0 <= j < kv_caches.len() && #[trigger] kv_caches@[j].layer == l,
            decreases n - i,
        {
            let ghost old_conv = conv_caches@;
            let ghost old_kv = kv_caches@;
            match types[i] {
                LayerType::Conv => {
                    let state_shape = vec![1usize, config.hidden_size, config.conv_cache_len];
                    assert(state_shape@ =~= fresh_conv_shape(config));
                    conv_caches.push(ConvCache { layer: i, state_shape });
                    proof {
                        assert forall|l: int|
                            0 <= l < i + 1 && #[trigger] types@[l]
                                == LayerType::Conv implies exists|j: int|
                            0 <= j < conv_caches.len() && #[trigger] conv_caches@[j].layer
                                == l by {
                            if l < i {
                                let j = choose|j: int|
                                    0 <= j < old_conv.len() && #[trigger] old_conv[j].layer == l;
                                assert(conv_caches@[j] == old_conv[j]);
                            } else {
                                assert(conv_caches@[old_conv.len() as int].layer == l);
                            }
                        }
                        assert forall|l: int|
                            0 <= l < i + 1 && #[trigger] types@[l]
                                == LayerType::FullAttention implies exists|j: int|
                            0 <= j < kv_caches.len() && #[trigger] kv_caches@[j].layer == l by {
                            if l == i {
                                assert(false);
                            }
                        }
                    }
                },
                LayerType::FullAttention => {
                    let key_shape = vec![1usize, config.num_key_value_heads, 0usize, config.head_dim];
                    let value_shape = vec![
                        1usize,
                        config.num_key_value_heads,
                        0usize,
                        config.head_dim,
                    ];
                    assert(key_shape@ =~= fresh_kv_shape(config));
                    assert(value_shape@ =~= fresh_kv_shape(config));
                    kv_caches.push(KVCache { layer: i, key_shape, value_shape });
                    proof {
                        assert forall|l: int|
                            0 <= l < i + 1 && #[trigger] types@[l]
                                == LayerType::FullAttention implies exists|j: int|
                            0 <= j < kv_caches.len() && #[trigger] kv_caches@[j].layer == l by {
                            if l < i {
                                let j = choose|j: int|
                                    0 <= j < old_kv.len() && #[trigger] old_kv[j].layer == l;
                                assert(kv_caches@[j] == old_kv[j]);
                            } else {
                                assert(kv_caches@[old_kv.len() as int].layer == l);
                            }
                        }
                        assert forall|l: int|
                            0 <= l < i + 1 && #[trigger] types@[l]
                                == LayerType::Conv implies exists|j: int|
                            0 <= j < conv_caches.len() && #[trigger] conv_caches@[j].layer
                                == l by {
                            if l == i {
                                assert(false);
                            }
                        }
                    }
                },
            }
            i = i + 1;
        }
        GenerationCache { kv_caches, conv_caches, seq_len: 0, layer_types: types, config }
    }

    /// Initialize an empty cache from the cache configuration and the layer
    /// type names of the model configuration. Fails on the first name that is
    /// neither `conv` nor `full_attention`.
    pub fn new(config: &LFM2CacheConfig, layer_type_names: &Vec<String>) -> (r: Result<
        Self,
        LFM2Error,
    >)
        ensures
            parse_layer_types(layer_type_names@.map_values(|s: String| s@)) is Some <==> r is Ok,
            r matches Ok(c) ==> {
                &&& c.is_fresh()
                &&& c.config == *config
                &&& Some(c.layer_types@) == parse_layer_types(
                    layer_type_names@.map_values(|s: String| s@),
                )
            },
            r matches Err(e) ==> exists|i: int|
                first_unknown_layer(layer_type_names@.map_values(|s: String| s@), i) && e@ == (
                ErrorKind::Cache,
                "Unknown layer type: "@ + layer_type_names@[i]@,
            ),
    {
        let ghost names = layer_type_names@.map_values(|s: String| s@);
        let mut types: Vec<LayerType> = Vec::new();
        let n = layer_type_names.len();
        let mut i: usize = 0;
        while i < n
            invariant
                n == layer_type_names.len(),
                names == layer_type_names@.map_values(|s: String| s@),
                i <= n,
                parse_layer_types(names.subrange(0, i as int)) == Some(types@),
                forall|j: int| 0 <= j < i ==> layer_type_named(#[trigger] names[j]) is Some,
            decreases n - i,
        {
            let name = layer_type_names[i].as_str();
            match LayerType::from_name(name) {
                Some(t) => {
                    proof {
                        assert(names.subrange(0, i + 1).drop_last() =~= names.subrange(
                            0,
                            i as int,
                        ));
                        assert(names.subrange(0, i + 1).last() == names[i as int]);
                    }
                    types.push(t);
                },
                None => {
                    proof {
                        assert(first_unknown_layer(names, i as int));
                        lemma_parse_fails_with_unknown(names, i as int);
                    }
                    return Err(LFM2Error::Cache(concat2("Unknown layer type: ", name)));
                },
            }
            i = i + 1;
        }
        proof {
            assert(names.subrange(0, n as int) =~= names);
        }
        Ok(Self::fresh(*config, types))
    }

    /// The decoder inputs that carry the cache, with their names, in the exact
    /// order the decoder expects: layer by layer over the configured number of
    /// layers.
    pub fn prepare_cache_inputs(&self) -> (r: Vec<(String, CacheSlot)>)
        requires
            self.wf(),
        ensures
            r.len() == input_slots(self.layer_types@, self.config.num_layers as nat).len(),
            forall|i: int|
                0 <= i < r.len() ==> {
                    &&& (#[trigger] r@[i]).1 == input_slots(
                        self.layer_types@,
                        self.config.num_layers as nat,
                    )[i]
                    &&& r@[i].0@ == input_name(r@[i].1)
                },
            forall|i: int|
                0 <= i < r.len() ==> match (#[trigger] r@[i]).1 {
                    CacheSlot::Conv(l) => r@[i].0@ == "past_conv."@ + decimal(l as nat),
                    CacheSlot::Key(l) => r@[i].0@ == "past_key_values."@ + decimal(l as nat)
                        + ".key"@,
                    CacheSlot::Value(l) => r@[i].0@ == "past_key_values."@ + decimal(l as nat)
                        + ".value"@,
                },
    {
        let mut feeds: Vec<(String, CacheSlot)> = Vec::new();
        let num_layers = self.config.num_layers;
        let n_types = self.layer_types.len();
        let mut l: usize = 0;
        while l < num_layers
            invariant
                num_layers == self.config.num_layers,
                n_types == self.layer_types.len(),
                l <= num_layers,
                feeds.len() == input_slots(self.layer_types@, l as nat).len(),
                forall|i: int|
                    0 <= i < feeds.len() ==> {
                        &&& (#[trigger] feeds@[i]).1 == input_slots(
                            self.layer_types@,
                            l as nat,
                        )[i]
                        &&& feeds@[i].0@ == input_name(feeds@[i].1)
                    },
            decreases num_layers - l,
        {
            let ghost prev = feeds@;
            if l < n_types {
                match self.layer_types[l] {
                    LayerType::Conv => {
                        let slot = CacheSlot::Conv(l);
                        feeds.push((slot_input_name(slot), slot));
                    },
                    LayerType::FullAttention => {
                        let key = CacheSlot::Key(l);
                        let value = CacheSlot::Value(l);
                        feeds.push((slot_input_name(key), key));
                        feeds.push((slot_input_name(value), value));
                    },
                }
            }
            l = l + 1;
            proof {
                assert forall|i: int| 0 <= i < feeds.len() implies {
                    &&& (#[trigger] feeds@[i]).1 == input_slots(self.layer_types@, l as nat)[i]
                    &&& feeds@[i].0@ == input_name(feeds@[i].1)
                } by {
                    if i < prev.len() {
                        assert(feeds@[i] == prev[i]);
                    }
                }
            }
        }
        feeds
    }

    /// The decoder outputs that return the cache: every convolution state in
    /// layer order, then every key and value in layer order.
    pub fn output_slots(&self) -> (r: Vec<(String, CacheSlot)>)
        requires
            self.wf(),
        ensures
            r.len() == self.conv_caches.len() + 2 * self.kv_caches.len(),
            forall|j: int|
                0 <= j < self.conv_caches.len() ==> (#[trigger] r@[j]).1 == CacheSlot::Conv(
                    self.conv_caches@[j].layer,
                ),
            forall|j: int|
                0 <= j < self.kv_caches.len() ==> {
                    &&& r@[self.conv_caches.len() + 2 * j].1 == CacheSlot::Key(
                        (#[trigger] self.kv_caches@[j]).layer,
                    )
                    &&& r@[self.conv_caches.len() + 2 * j + 1].1 == CacheSlot::Value(
                        self.kv_caches@[j].layer,
                    )
                },
            forall|i: int| 0 <= i < r.len() ==> (#[trigger] r@[i]).0@ == output_name(r@[i].1),
            forall|i: int|
                0 <= i < r.len() ==> match (#[trigger] r@[i]).1 {
                    CacheSlot::Conv(l) => r@[i].0@ == "present_conv."@ + decimal(l as nat),
                    CacheSlot::Key(l) => r@[i].0@ == "present."@ + decimal(l as nat) + ".key"@,
                    CacheSlot::Value(l) => r@[i].0@ == "present."@ + decimal(l as nat) + ".value"@,
                },
    {
        let mut out: Vec<(String, CacheSlot)> = Vec::new();
        let nc = self.conv_caches.len();
        let mut j: usize = 0;
        while j < nc
            invariant
                nc == self.conv_caches.len(),
                j <= nc,
                out.len() == j,
                forall|k: int|
                    0 <= k < j ==> (#[trigger] out@[k]).1 == CacheSlot::Conv(
                        self.conv_caches@[k].layer,
                    ),
                forall|i: int| 0 <= i < out.len() ==> (#[trigger] out@[i]).0@ == output_name(out@[i].1),
            decreases nc - j,
        {
            let slot = CacheSlot::Conv(self.conv_caches[j].layer);
            out.push((slot_output_name(slot), slot));
            j = j + 1;
        }
        let nk = self.kv_caches.len();
        let mut k: usize = 0;
        while k < nk
            invariant
                nc == self.conv_caches.len(),
                nk == self.kv_caches.len(),
                k <= nk,
                out.len() == nc + 2 * k,
                forall|m: int|
                    0 <= m < nc ==> (#[trigger] out@[m]).1 == CacheSlot::Conv(
                        self.conv_caches@[m].layer,
                    ),
                forall|m: int|
                    0 <= m < k ==> {
                        &&& out@[nc + 2 * m].1 == CacheSlot::Key((#[trigger] self.kv_caches@[m]).layer)
                        &&& out@[nc + 2 * m + 1].1 == CacheSlot::Value(self.kv_caches@[m].layer)
                    },
                forall|i: int| 0 <= i < out.len() ==> (#[trigger] out@[i]).0@ == output_name(out@[i].1),
            decreases nk - k,
        {
            let layer = self.kv_caches[k].layer;
            let key = CacheSlot::Key(layer);
            let value = CacheSlot::Value(layer);
            out.push((slot_output_name(key), key));
            out.push((slot_output_name(value), value));
            k = k + 1;
        }
        out
    }

    /// Take the cache tensors the decoder returned. `observed[i]` is the shape
    /// of the tensor returned under the name of the `i`-th output slot, or
    /// `None` when the decoder returned no such float tensor. A convolution
    /// state is taken when it has rank 3, a key or value when it has rank 4.
    /// The returned flags say which tensors were taken; the caller replaces
    /// exactly those. The sequence length is then read from the first
    /// attention layer's key.
    pub fn update(&mut self, observed: &Vec<Option<Vec<usize>>>) -> (taken: Vec<bool>)
        requires
            old(self).wf(),
            observed.len() == old(self).conv_caches.len() + 2 * old(self).kv_caches.len(),
        ensures
            final(self).wf(),
            final(self).same_layout(old(self)),
            taken.len() == observed.len(),
            forall|j: int|
                0 <= j < old(self).conv_caches.len() ==> conv_update(
                    taken@,
                    observed@,
                    j,
                    old(self).conv_caches@[j],
                    #[trigger] final(self).conv_caches@[j],
                ),
            forall|j: int|
                0 <= j < old(self).kv_caches.len() ==> kv_update(
                    taken@,
                    observed@,
                    old(self).conv_caches.len() + 2 * j,
                    old(self).kv_caches@[j],
                    #[trigger] final(self).kv_caches@[j],
                ),
            final(self).seq_len == (if old(self).kv_caches.len() > 0 {
                final(self).kv_caches@[0].key_shape@[2]
            } else {
                old(self).seq_len
            }),
    {
        let ghost before = *self;
        let nc = self.conv_caches.len();
        let nk = self.kv_caches.len();
        let mut taken: Vec<bool> = Vec::new();
        let mut new_conv: Vec<ConvCache> = Vec::new();
        let mut j: usize = 0;
        while j < nc
            invariant
                nc == before.conv_caches.len(),
                nk == before.kv_caches.len(),
                self.conv_caches@ == before.conv_caches@,
                self.kv_caches@ == before.kv_caches@,
                observed.len() == nc + 2 * nk,
                j <= nc,
                taken.len() == j,
                new_conv.len() == j,
                forall|m: int|
                    0 <= m < j ==> conv_update(
                        taken@,
                        observed@,
                        m,
                        before.conv_caches@[m],
                        #[trigger] new_conv@[m],
                    ),
            decreases nc - j,
        {
            let layer = self.conv_caches[j].layer;
            let (take, shape) = match &observed[j] {
                Some(s) => {
                    if s.len() == 3 {
                        (true, copy_shape(s))
                    } else {
                        (false, copy_shape(&self.conv_caches[j].state_shape))
                    }
                },
                None => (false, copy_shape(&self.conv_caches[j].state_shape)),
            };
            let ghost t0 = taken@;
            taken.push(take);
            new_conv.push(ConvCache { layer, state_shape: shape });
            proof {
                assert forall|i: int| 0 <= i < t0.len() implies #[trigger] taken@[i] == t0[i] by {}
                assert forall|m: int| 0 <= m < j + 1 implies conv_update(
                    taken@,
                    observed@,
                    m,
                    before.conv_caches@[m],
                    #[trigger] new_conv@[m],
                ) by {
                    if m < j {
                        assert(taken@[m] == t0[m]);
                    }
                }
            }
            j = j + 1;
        }
        let mut new_kv: Vec<KVCache> = Vec::new();
        let mut k: usize = 0;
        while k < nk
            invariant
                nc == before.conv_caches.len(),
                nk == before.kv_caches.len(),
                self.kv_caches@ == before.kv_caches@,
                observed.len() == nc + 2 * nk,
                k <= nk,
                taken.len() == nc + 2 * k,
                new_kv.len() == k,
                new_conv.len() == nc,
                forall|m: int|
                    0 <= m < nc ==> conv_update(
                        taken@,
                        observed@,
                        m,
                        before.conv_caches@[m],
                        #[trigger] new_conv@[m],
                    ),
                forall|m: int|
                    0 <= m < k ==> kv_update(
                        taken@,
                        observed@,
                        nc + 2 * m,
                        before.kv_caches@[m],
                        #[trigger] new_kv@[m],
                    ),
            decreases nk - k,
        {
            let ki = nc + 2 * k;
            let (take_key, key_shape) = match &observed[ki] {
                Some(s) => {
                    if s.len() == 4 {
                        (true, copy_shape(s))
                    } else {
                        (false, copy_shape(&self.kv_caches[k].key_shape))
                    }
                },
                None => (false, copy_shape(&self.kv_caches[k].key_shape)),
            };
            let (take_value, value_shape) = match &observed[ki + 1] {
                Some(s) => {
                    if s.len() == 4 {
                        (true, copy_shape(s))
                    } else {
                        (false, copy_shape(&self.kv_caches[k].value_shape))
                    }
                },
                None => (false, copy_shape(&self.kv_caches[k].value_shape)),
            };
            let ghost t0 = taken@;
            taken.push(take_key);
            taken.push(take_value);
            new_kv.push(KVCache { layer: self.kv_caches[k].layer, key_shape, value_shape });
            proof {
                assert forall|i: int| 0 <= i < t0.len() implies #[trigger] taken@[i] == t0[i] by {}
                assert forall|m: int| 0 <= m < nc implies conv_update(
                    taken@,
                    observed@,
                    m,
                    before.conv_caches@[m],
                    #[trigger] new_conv@[m],
                ) by {
                    assert(taken@[m] == t0[m]);
                }
                assert forall|m: int| 0 <= m < k + 1 implies kv_update(
                    taken@,
                    observed@,
                    nc + 2 * m,
                    before.kv_caches@[m],
                    #[trigger] new_kv@[m],
                ) by {
                    if m < k {
                        assert(taken@[nc + 2 * m] == t0[nc + 2 * m]);
                        assert(taken@[nc + 2 * m + 1] == t0[nc + 2 * m + 1]);
                    }
                }
            }
            k = k + 1;
        }
        self.conv_caches = new_conv;
        self.kv_caches = new_kv;
        if nk > 0 {
            self.seq_len = self.kv_caches[0].key_shape[2];
        }
        proof {
            assert forall|j: int| 0 <= j < self.conv_caches.len() implies {
                let c = #[trigger] self.conv_caches@[j];
                &&& c.layer < self.layer_types@.len()
                &&& self.layer_types@[c.layer as int] == LayerType::Conv
                &&& c.state_shape@.len() == 3
            } by {
                assert(conv_update(taken@, observed@, j, before.conv_caches@[j], self.conv_caches@[j]));
            }
            assert forall|j: int| 0 <= j < self.kv_caches.len() implies {
                let c = #[trigger] self.kv_caches@[j];
                &&& c.layer < self.layer_types@.len()
                &&& self.layer_types@[c.layer as int] == LayerType::FullAttention
                &&& c.key_shape@.len() == 4
                &&& c.value_shape@.len() == 4
            } by {
                assert(kv_update(taken@, observed@, nc + 2 * j, before.kv_caches@[j], self.kv_caches@[j]));
            }
            assert forall|l: int|
                0 <= l < self.layer_types@.len() && #[trigger] self.layer_types@[l]
                    == LayerType::Conv implies exists|j: int|
                0 <= j < self.conv_caches.len() && #[trigger] self.conv_caches@[j].layer == l by {
                let j = choose|j: int|
                    0 <= j < before.conv_caches.len() && #[trigger] before.conv_caches@[j].layer
                        == l;
                assert(conv_update(taken@, observed@, j, before.conv_caches@[j], self.conv_caches@[j]));
            }
            assert forall|l: int|
                0 <= l < self.layer_types@.len() && #[trigger] self.layer_types@[l]
                    == LayerType::FullAttention implies exists|j: int|
                0 <= j < self.kv_caches.len() && #[trigger] self.kv_caches@[j].layer == l by {
                let j = choose|j: int|
                    0 <= j < before.kv_caches.len() && #[trigger] before.kv_caches@[j].layer == l;
                assert(kv_update(taken@, observed@, nc + 2 * j, before.kv_caches@[j], self.kv_caches@[j]));
            }
            assert forall|j: int, k: int|
                0 <= j < k < self.conv_caches.len() implies #[trigger] self.conv_caches@[j].layer
                < #[trigger] self.conv_caches@[k].layer by {
                assert(conv_update(taken@, observed@, j, before.conv_caches@[j], self.conv_caches@[j]));
                assert(conv_update(taken@, observed@, k, before.conv_caches@[k], self.conv_caches@[k]));
                assert(before.conv_caches@[j].layer < before.conv_caches@[k].layer);
            }
            assert forall|j: int, k: int|
                0 <= j < k < self.kv_caches.len() implies #[trigger] self.kv_caches@[j].layer
                < #[trigger] self.kv_caches@[k].layer by {
                assert(kv_update(taken@, observed@, nc + 2 * j, before.kv_caches@[j], self.kv_caches@[j]));
                assert(kv_update(taken@, observed@, nc + 2 * k, before.kv_caches@[k], self.kv_caches@[k]));
                assert(before.kv_caches@[j].layer < before.kv_caches@[k].layer);
            }
            assert forall|j: int| 0 <= j < self.conv_caches.len() implies (#[trigger] self.conv_caches@[j]).layer
                == before.conv_caches@[j].layer by {
                assert(conv_update(taken@, observed@, j, before.conv_caches@[j], self.conv_caches@[j]));
            }
            assert forall|j: int| 0 <= j < self.kv_caches.len() implies (#[trigger] self.kv_caches@[j]).layer
                == before.kv_caches@[j].layer by {
                assert(kv_update(taken@, observed@, nc + 2 * j, before.kv_caches@[j], self.kv_caches@[j]));
            }
        }
        taken
    }

    /// Get current sequence length
    pub fn seq_len(&self) -> (n: usize)
        ensures
            n == self.seq_len,
    {
        self.seq_len
    }

    /// Reset cache to empty state: same configuration and layers, every tensor
    /// back to its initial shape, sequence length zero.
    pub fn reset(&mut self) -> (r: Result<(), LFM2Error>)
        requires
            old(self).wf(),
        ensures
            r is Ok,
            final(self).is_fresh(),
            final(self).same_layout(old(self)),
    {
        let ghost before = *self;
        let mut types: Vec<LayerType> = Vec::new();
        let n = self.layer_types.len();
        let mut i: usize = 0;
        while i < n
            invariant
                n == self.layer_types.len(),
                i <= n,
                types@ == self.layer_types@.subrange(0, i as int),
            decreases n - i,
        {
            types.push(self.layer_types[i]);
            i = i + 1;
            proof {
                assert(types@ =~= self.layer_types@.subrange(0, i as int));
            }
        }
        proof {
            assert(types@ =~= self.layer_types@);
        }
        *self = Self::fresh(self.config, types);
        proof {
            lemma_layout_determined(&*self, &before);
        }
        Ok(())
    }
}

/// The layers of a well-formed cache are determined by its layer types: two
/// well-formed caches over the same types list the same layers in the same
/// order.
pub proof fn lemma_layout_determined(a: &GenerationCache, b: &GenerationCache)
    requires
        a.wf(),
        b.wf(),
        a.layer_types@ == b.layer_types@,
        a.config == b.config,
    ensures
        a.same_layout(b),
{
    lemma_sorted_layers_equal_conv(a, b);
    lemma_sorted_layers_equal_kv(a, b);
}

proof fn lemma_sorted_layers_equal_conv(a: &GenerationCache, b: &GenerationCache)
    requires
        a.wf(),
        b.wf(),
        a.layer_types@ == b.layer_types@,
    ensures
        a.conv_caches.len() == b.conv_caches.len(),
        forall|j: int|
            0 <= j < a.conv_caches.len() ==> (#[trigger] a.conv_caches@[j]).layer
                == b.conv_caches@[j].layer,
{
    let sa = a.conv_caches@.map_values(|c: ConvCache| c.layer as int);
    let sb = b.conv_caches@.map_values(|c: ConvCache| c.layer as int);
    assert forall|x: int| sa.contains(x) <==> sb.contains(x) by {
        if sa.contains(x) {
            let j = choose|j: int| 0 <= j < sa.len() && sa[j] == x;
            assert(a.conv_caches@[j].layer == x);
            let k = choose|k: int| 0 <= k < b.conv_caches.len() && #[trigger] b.conv_caches@[k].layer == x;
            assert(sb[k] == x);
        }
        if sb.contains(x) {
            let j = choose|j: int| 0 <= j < sb.len() && sb[j] == x;
            assert(b.conv_caches@[j].layer == x);
            let k = choose|k: int| 0 <= k < a.conv_caches.len() && #[trigger] a.conv_caches@[k].layer == x;
            assert(sa[k] == x);
        }
    }
    assert forall|j: int, k: int| 0 <= j < k < sa.len() implies sa[j] < sa[k] by {
        assert(a.conv_caches@[j].layer < a.conv_caches@[k].layer);
    }
    assert forall|j: int, k: int| 0 <= j < k < sb.len() implies sb[j] < sb[k] by {
        assert(b.conv_caches@[j].layer < b.conv_caches@[k].layer);
    }
    lemma_sorted_same_elements(sa, sb);
    assert forall|j: int| 0 <= j < a.conv_caches.len() implies (#[trigger] a.conv_caches@[j]).layer
        == b.conv_caches@[j].layer by {
        assert(sa[j] == sb[j]);
    }
}

proof fn lemma_sorted_layers_equal_kv(a: &GenerationCache, b: &GenerationCache)
    requires
        a.wf(),
        b.wf(),
        a.layer_types@ == b.layer_types@,
    ensures
        a.kv_caches.len() == b.kv_caches.len(),
        forall|j: int|
            0 <= j < a.kv_caches.len() ==> (#[trigger] a.kv_caches@[j]).layer
                == b.kv_caches@[j].layer,
{
    let sa = a.kv_caches@.map_values(|c: KVCache| c.layer as int);
    let sb = b.kv_caches@.map_values(|c: KVCache| c.layer as int);
    assert forall|x: int| sa.contains(x) <==> sb.contains(x) by {
        if sa.contains(x) {
            let j = choose|j: int| 0 <= j < sa.len() && sa[j] == x;
            assert(a.kv_caches@[j].layer == x);
            let k = choose|k: int| 0 <= k < b.kv_caches.len() && #[trigger] b.kv_caches@[k].layer == x;
            assert(sb[k] == x);
        }
        if sb.contains(x) {
            let j = choose|j: int| 0 <= j < sb.len() && sb[j] == x;
            assert(b.kv_caches@[j].layer == x);
            let k = choose|k: int| 0 <= k < a.kv_caches.len() && #[trigger] a.kv_caches@[k].layer == x;
            assert(sa[k] == x);
        }
    }
    assert forall|j: int, k: int| 0 <= j < k < sa.len() implies sa[j] < sa[k] by {
        assert(a.kv_caches@[j].layer < a.kv_caches@[k].layer);
    }
    assert forall|j: int, k: int| 0 <= j < k < sb.len() implies sb[j] < sb[k] by {
        assert(b.kv_caches@[j].layer < b.kv_caches@[k].layer);
    }
    lemma_sorted_same_elements(sa, sb);
    assert forall|j: int| 0 <= j < a.kv_caches.len() implies (#[trigger] a.kv_caches@[j]).layer
        == b.kv_caches@[j].layer by {
        assert(sa[j] == sb[j]);
    }
}

/// Two strictly increasing sequences with the same elements are equal.
proof fn lemma_sorted_same_elements(a: Seq<int>, b: Seq<int>)
    requires
        forall|x: int| a.contains(x) <==> b.contains(x),
        forall|j: int, k: int| 0 <= j < k < a.len() ==> a[j] < a[k],
        forall|j: int, k: int| 0 <= j < k < b.len() ==> b[j] < b[k],
    ensures
        a == b,
    decreases a.len() + b.len(),
{
    if a.len() == 0 {
        if b.len() > 0 {
            assert(b.contains(b[0]));
        }
        assert(b =~= a);
    } else if b.len() == 0 {
        assert(a.contains(a[0]));
    } else {
        let la = a.last();
        let lb = b.last();
        assert(a.contains(la));
        assert(b.contains(lb));
        let jb = choose|j: int| 0 <= j < b.len() && b[j] == la;
        let ja = choose|j: int| 0 <= j < a.len() && a[j] == lb;
        if jb < b.len() - 1 {
            assert(b[jb] < b[b.len() - 1]);
        }
        if ja < a.len() - 1 {
            assert(a[ja] < a[a.len() - 1]);
        }
        assert(la == lb);
        let a2 = a.drop_last();
        let b2 = b.drop_last();
        assert forall|x: int| a2.contains(x) <==> b2.contains(x) by {
            if a2.contains(x) {
                let j = choose|j: int| 0 <= j < a2.len() && a2[j] == x;
                assert(a[j] == x && x < la);
                assert(b.contains(x));
                let k = choose|k: int| 0 <= k < b.len() && b[k] == x;
                assert(k != b.len() - 1);
                assert(b2[k] == x);
            }
            if b2.contains(x) {
                let j = choose|j: int| 0 <= j < b2.len() && b2[j] == x;
                assert(b[j] == x && x < lb);
                assert(a.contains(x));
                let k = choose|k: int| 0 <= k < a.len() && a[k] == x;
                assert(k != a.len() - 1);
                assert(a2[k] == x);
            }
        }
        lemma_sorted_same_elements(a2, b2);
        assert(a =~= a2.push(la));
        assert(b =~= b2.push(lb));
    }
}

proof fn lemma_parse_fails_with_unknown(names: Seq<Seq<char>>, i: int)
    requires
        0 <= i < names.len(),
        layer_type_named(names[i]) is None,
    ensures
        parse_layer_types(names) is None,
    decreases names.len(),
{
    if i < names.len() - 1 {
        lemma_parse_fails_with_unknown(names.drop_last(), i);
    }
}

fn copy_shape(s: &Vec<usize>) -> (r: Vec<usize>)
    ensures
        r@ == s@,
{
    let mut r: Vec<usize> = Vec::new();
    let mut i: usize = 0;
    while i < s.len()
        invariant
            i <= s.len(),
            r@ == s@.subrange(0, i as int),
        decreases s.len() - i,
    {
        r.push(s[i]);
        i = i + 1;
        proof {
            assert(r@ =~= s@.subrange(0, i as int));
        }
    }
    proof {
        assert(r@ =~= s@);
    }
    r
}

fn slot_input_name(slot: CacheSlot) -> (s: String)
    ensures
        s@ == input_name(slot),
{
    match slot {
        CacheSlot::Conv(l) => {
            let mut s = owned("past_conv.");
            push_decimal(&mut s, l);
            s
        },
        CacheSlot::Key(l) => {
            let mut s = owned("past_key_values.");
            push_decimal(&mut s, l);
            s.append(".key");
            s
        },
        CacheSlot::Value(l) => {
            let mut s = owned("past_key_values.");
            push_decimal(&mut s, l);
            s.append(".value");
            s
        },
    }
}

fn slot_output_name(slot: CacheSlot) -> (s: String)
    ensures
        s@ == output_name(slot),
{
    match slot {
        CacheSlot::Conv(l) => {
            let mut s = owned("present_conv.");
            push_decimal(&mut s, l);
            s
        },
        CacheSlot::Key(l) => {
            let mut s = owned("present.");
            push_decimal(&mut s, l);
            s.append(".key");
            s
        },
        CacheSlot::Value(l) => {
            let mut s = owned("present.");
            push_decimal(&mut s, l);
            s.append(".value");
            s
        },
    }
}

/// The cache tensors of a layer are told apart by their names: the decoder's
/// input and output for a layer's keys both end in `.key`, those for its
/// values both end in `.value`, so a layer's key and value tensors never
/// share a name, and a convolution state is `past_conv.<l>` in and
/// `present_conv.<l>` out.
pub proof fn lemma_cache_tensor_names(l: usize)
    ensures
        output_name(CacheSlot::Key(l)).len() >= 4,
        input_name(CacheSlot::Key(l)).len() >= 4,
        output_name(CacheSlot::Value(l)).len() >= 6,
        input_name(CacheSlot::Value(l)).len() >= 6,
        output_name(CacheSlot::Key(l)).subrange(
            output_name(CacheSlot::Key(l)).len() - 4,
            output_name(CacheSlot::Key(l)).len() as int,
        ) == ".key"@,
        input_name(CacheSlot::Key(l)).subrange(
            input_name(CacheSlot::Key(l)).len() - 4,
            input_name(CacheSlot::Key(l)).len() as int,
        ) == ".key"@,
        output_name(CacheSlot::Value(l)).subrange(
            output_name(CacheSlot::Value(l)).len() - 6,
            output_name(CacheSlot::Value(l)).len() as int,
        ) == ".value"@,
        input_name(CacheSlot::Value(l)).subrange(
            input_name(CacheSlot::Value(l)).len() - 6,
            input_name(CacheSlot::Value(l)).len() as int,
        ) == ".value"@,
        output_name(CacheSlot::Key(l)) != output_name(CacheSlot::Value(l)),
        input_name(CacheSlot::Key(l)) != input_name(CacheSlot::Value(l)),
        output_name(CacheSlot::Conv(l)) == "present_conv."@ + decimal(l as nat),
        input_name(CacheSlot::Conv(l)) == "past_conv."@ + decimal(l as nat),
{
    reveal_strlit(".key");
    reveal_strlit(".value");
    let d = decimal(l as nat);
    let ok = output_name(CacheSlot::Key(l));
    let ov = output_name(CacheSlot::Value(l));
    let ik = input_name(CacheSlot::Key(l));
    let iv = input_name(CacheSlot::Value(l));
    assert(ok.subrange(ok.len() - 4, ok.len() as int) =~= ".key"@);
    assert(ik.subrange(ik.len() - 4, ik.len() as int) =~= ".key"@);
    assert(ov.subrange(ov.len() - 6, ov.len() as int) =~= ".value"@);
    assert(iv.subrange(iv.len() - 6, iv.len() as int) =~= ".value"@);
    assert(ok.len() != ov.len());
    assert(ik.len() != iv.len());
}

/// An update takes each cache tensor from its own decoder output: a layer's
/// key from the key output, its value from the value output, a convolution
/// state from its state output; a returned tensor of the right rank replaces
/// the old shape, and a missing or misshapen one leaves it as it was.
pub proof fn lemma_update_reads_own_outputs(
    taken: Seq<bool>,
    observed: Seq<Option<Vec<usize>>>,
    base: int,
    kv_before: KVCache,
    kv_after: KVCache,
    j: int,
    conv_before: ConvCache,
    conv_after: ConvCache,
)
    requires
        kv_update(taken, observed, base, kv_before, kv_after),
        conv_update(taken, observed, j, conv_before, conv_after),
    ensures
        observed[base] matches Some(s) ==> (s@.len() == 4 ==> kv_after.key_shape@ == s@),
        observed[base + 1] matches Some(s) ==> (s@.len() == 4 ==> kv_after.value_shape@ == s@),
        !(observed[base] matches Some(s) && s@.len() == 4) ==> kv_after.key_shape@
            == kv_before.key_shape@,
        !(observed[base + 1] matches Some(s) && s@.len() == 4) ==> kv_after.value_shape@
            == kv_before.value_shape@,
        observed[j] matches Some(s) ==> (s@.len() == 3 ==> conv_after.state_shape@ == s@),
        !(observed[j] matches Some(s) && s@.len() == 3) ==> conv_after.state_shape@
            == conv_before.state_shape@,
        kv_after.layer == kv_before.layer,
        conv_after.layer == conv_before.layer,
{
}

/// The decoder's cache inputs go layer by layer: every configured layer among
/// the first `n` adds its own inputs after those of the layers before it, a
/// convolution layer its state and an attention layer its key and then its
/// value; so there is one input per convolution layer and two per attention
/// layer.
pub proof fn lemma_input_slots_by_layer(types: Seq<LayerType>, n: nat)
    requires
        n >= 1,
    ensures
        ({
            let l = n - 1;
            let before = input_slots(types, (n - 1) as nat);
            let after = input_slots(types, n);
            &&& after.subrange(0, before.len() as int) == before
            &&& (l < types.len() && types[l] == LayerType::Conv) ==> after == before.push(
                CacheSlot::Conv(l as usize),
            )
            &&& (l < types.len() && types[l] == LayerType::FullAttention) ==> {
                &&& after.len() == before.len() + 2
                &&& after[before.len() as int] == CacheSlot::Key(l as usize)
                &&& after[before.len() as int + 1] == CacheSlot::Value(l as usize)
            }
            &&& l >= types.len() ==> after == before
        }),
{
    let before = input_slots(types, (n - 1) as nat);
    let after = input_slots(types, n);
    assert(after.subrange(0, before.len() as int) =~= before);
}

} // verus!
