//! Reading well-known keys out of parsed GGUF metadata.

use vstd::prelude::*;

use crate::gguf::{GgufMeta, GgufValue, GgufValueView, kv_view, lemma_array_view, values_view};

verus! {

broadcast use vstd::string::group_string_axioms;

/// The value of the last pair with key `key`, as a lookup into a map built
/// by inserting the pairs in order would find it.
pub open spec fn spec_lookup(kv: Seq<(Seq<char>, GgufValueView)>, key: Seq<char>) -> Option<GgufValueView>
    decreases kv.len(),
{
    if kv.len() == 0 {
        None
    } else if kv.last().0 == key {
        Some(kv.last().1)
    } else {
        spec_lookup(kv.drop_last(), key)
    }
}

pub open spec fn view_as_str(v: Option<GgufValueView>) -> Option<Seq<char>> {
    match v {
        Some(GgufValueView::String(s)) => Some(s),
        _ => None,
    }
}

pub open spec fn view_as_u32(v: Option<GgufValueView>) -> Option<u32> {
    match v {
        Some(GgufValueView::Uint32(x)) => Some(x),
        _ => None,
    }
}

pub open spec fn view_as_u32_or_u64(v: Option<GgufValueView>) -> Option<u64> {
    match v {
        Some(GgufValueView::Uint32(x)) => Some(x as u64),
        Some(GgufValueView::Uint64(x)) => Some(x),
        _ => None,
    }
}

/// The strings among `s`, in order.
pub open spec fn strings_in(s: Seq<GgufValueView>) -> Seq<Seq<char>>
    decreases s.len(),
{
    if s.len() == 0 {
        Seq::empty()
    } else {
        let rest = strings_in(s.drop_last());
        match s.last() {
            GgufValueView::String(x) => rest.push(x),
            _ => rest,
        }
    }
}

/// The `Uint32` values among `s`, in order.
pub open spec fn u32s_in(s: Seq<GgufValueView>) -> Seq<u32>
    decreases s.len(),
{
    if s.len() == 0 {
        Seq::empty()
    } else {
        let rest = u32s_in(s.drop_last());
        match s.last() {
            GgufValueView::Uint32(x) => rest.push(x),
            _ => rest,
        }
    }
}

pub open spec fn strings_view(s: Seq<String>) -> Seq<Seq<char>> {
    Seq::new(s.len(), |i: int| s[i]@)
}

impl GgufValue {
    pub fn as_str(&self) -> (r: Option<&str>)
        ensures
            view_as_str(Some(self@)) == match r { Some(s) => Some(s@), None => None::<Seq<char>> },
    {
        match self {
            GgufValue::String(s) => Some(s.as_str()),
            _ => None,
        }
    }

    pub fn as_u32(&self) -> (r: Option<u32>)
        ensures
            r == view_as_u32(Some(self@)),
    {
        match self {
            GgufValue::Uint32(v) => Some(*v),
            _ => None,
        }
    }

    pub fn as_u64(&self) -> (r: Option<u64>)
        ensures
            r == match self@ { GgufValueView::Uint64(x) => Some(x), _ => None::<u64> },
    {
        match self {
            GgufValue::Uint64(v) => Some(*v),
            _ => None,
        }
    }

    pub fn as_u32_or_u64(&self) -> (r: Option<u64>)
        ensures
            r == view_as_u32_or_u64(Some(self@)),
    {
        match self {
            GgufValue::Uint32(v) => Some(*v as u64),
            GgufValue::Uint64(v) => Some(*v),
            _ => None,
        }
    }
}

/// `general.architecture` as a string, if present.
pub open spec fn spec_architecture(kv: Seq<(Seq<char>, GgufValueView)>) -> Option<Seq<char>> {
    view_as_str(spec_lookup(kv, "general.architecture"@))
}

/// The architecture prefix used for per-architecture keys (`llama` when unset).
pub open spec fn arch_prefix(kv: Seq<(Seq<char>, GgufValueView)>) -> Seq<char> {
    match spec_architecture(kv) {
        Some(a) => a,
        None => "llama"@,
    }
}

/// A numeric per-architecture hyperparameter: `<arch><suffix>` as `u32` or `u64`.
pub open spec fn arch_number(kv: Seq<(Seq<char>, GgufValueView)>, suffix: Seq<char>) -> Option<u64> {
    view_as_u32_or_u64(spec_lookup(kv, arch_prefix(kv) + suffix))
}

impl GgufMeta {
    /// The value stored under `key` (its last occurrence in the file).
    pub fn get(&self, key: &str) -> (r: Option<&GgufValue>)
        ensures
            spec_lookup(self@.kv, key@) == match r { Some(v) => Some(v@), None => None::<GgufValueView> },
    {
        let k = String::from_str(key);
        let ghost full = kv_view(self.kv@);
        let mut i = self.kv.len();
        assert(full.take(i as int) =~= full);
        while i > 0
            invariant
                i <= self.kv@.len(),
                full == kv_view(self.kv@),
                k@ == key@,
                spec_lookup(full, key@) == spec_lookup(full.take(i as int), key@),
            decreases i,
        {
            let ghost prefix = full.take(i as int);
            assert(prefix.drop_last() =~= full.take(i - 1));
            if self.kv[i - 1].0 == k {
                return Some(&self.kv[i - 1].1);
            }
            i = i - 1;
        }
        None
    }

    fn get_str(&self, key: &str) -> (r: Option<&str>)
        ensures
            view_as_str(spec_lookup(self@.kv, key@)) == match r { Some(s) => Some(s@), None => None::<Seq<char>> },
    {
        match self.get(key) {
            Some(v) => v.as_str(),
            None => None,
        }
    }

    fn get_u32(&self, key: &str) -> (r: Option<u32>)
        ensures
            r == view_as_u32(spec_lookup(self@.kv, key@)),
    {
        match self.get(key) {
            Some(v) => v.as_u32(),
            None => None,
        }
    }

    fn get_arch_number(&self, suffix: &str) -> (r: Option<u64>)
        ensures
            r == arch_number(self@.kv, suffix@),
    {
        let mut key = match self.architecture() {
            Some(a) => String::from_str(a),
            None => String::from_str("llama"),
        };
        key.append(suffix);
        match self.get(key.as_str()) {
            Some(v) => v.as_u32_or_u64(),
            None => None,
        }
    }

    pub fn architecture(&self) -> (r: Option<&str>)
        ensures
            spec_architecture(self@.kv) == match r { Some(s) => Some(s@), None => None::<Seq<char>> },
    {
        self.get_str("general.architecture")
    }

    pub fn model_name(&self) -> (r: Option<&str>)
        ensures
            view_as_str(spec_lookup(self@.kv, "general.name"@)) == match r { Some(s) => Some(s@), None => None::<Seq<char>> },
    {
        self.get_str("general.name")
    }

    pub fn context_length(&self) -> (r: Option<u64>)
        ensures
            r == arch_number(self@.kv, ".context_length"@),
    {
        self.get_arch_number(".context_length")
    }

    pub fn embedding_length(&self) -> (r: Option<u64>)
        ensures
            r == arch_number(self@.kv, ".embedding_length"@),
    {
        self.get_arch_number(".embedding_length")
    }

    pub fn head_count(&self) -> (r: Option<u64>)
        ensures
            r == arch_number(self@.kv, ".attention.head_count"@),
    {
        self.get_arch_number(".attention.head_count")
    }

    pub fn layer_count(&self) -> (r: Option<u64>)
        ensures
            r == arch_number(self@.kv, ".block_count"@),
    {
        self.get_arch_number(".block_count")
    }

    /// Number of entries of the `tokenizer.ggml.tokens` array.
    pub fn vocab_size(&self) -> (r: Option<u64>)
        ensures
            r == match spec_lookup(self@.kv, "tokenizer.ggml.tokens"@) {
                Some(GgufValueView::Array(a)) => Some(a.len() as u64),
                _ => None::<u64>,
            },
    {
        match self.get("tokenizer.ggml.tokens") {
            Some(v) => match v {
                GgufValue::Array(arr) => {
                    proof { lemma_array_view(*v); }
                    Some(arr.len() as u64)
                },
                _ => None,
            },
            None => None,
        }
    }

    pub fn quantization_type(&self) -> (r: Option<u32>)
        ensures
            r == view_as_u32(spec_lookup(self@.kv, "general.quantization_version"@)),
    {
        self.get_u32("general.quantization_version")
    }

    /// The BOS token id.
    pub fn bos_token_id(&self) -> (r: Option<u32>)
        ensures
            r == view_as_u32(spec_lookup(self@.kv, "tokenizer.ggml.bos_token_id"@)),
    {
        self.get_u32("tokenizer.ggml.bos_token_id")
    }

    /// The EOS token id.
    pub fn eos_token_id(&self) -> (r: Option<u32>)
        ensures
            r == view_as_u32(spec_lookup(self@.kv, "tokenizer.ggml.eos_token_id"@)),
    {
        self.get_u32("tokenizer.ggml.eos_token_id")
    }
}


/// All strings of the array stored under `key` (empty when there is no such array).
pub open spec fn array_strings(kv: Seq<(Seq<char>, GgufValueView)>, key: Seq<char>) -> Seq<Seq<char>> {
    match spec_lookup(kv, key) {
        Some(GgufValueView::Array(a)) => strings_in(a),
        _ => Seq::empty(),
    }
}

/// All `Uint32` entries of the array stored under `key` (empty when there is no such array).
pub open spec fn array_u32s(kv: Seq<(Seq<char>, GgufValueView)>, key: Seq<char>) -> Seq<u32> {
    match spec_lookup(kv, key) {
        Some(GgufValueView::Array(a)) => u32s_in(a),
        _ => Seq::empty(),
    }
}

fn collect_strings(arr: &Vec<GgufValue>) -> (r: Vec<String>)
    ensures
        strings_view(r@) == strings_in(values_view(arr@)),
{
    let ghost vals = values_view(arr@);
    let mut out: Vec<String> = Vec::new();
    let mut i: usize = 0;
    assert(vals.take(0) =~= Seq::<GgufValueView>::empty());
    assert(strings_view(out@) =~= Seq::<Seq<char>>::empty());
    while i < arr.len()
        invariant
            i <= arr@.len(),
            vals == values_view(arr@),
            strings_view(out@) == strings_in(vals.take(i as int)),
        decreases arr@.len() - i,
    {
        assert(vals.take(i + 1).drop_last() =~= vals.take(i as int));
        match arr[i].as_str() {
            Some(s) => {
                let owned = s.to_owned();
                assert(strings_view(out@.push(owned)) =~= strings_view(out@).push(owned@));
                out.push(owned);
            },
            None => {},
        }
        i = i + 1;
    }
    assert(vals.take(arr@.len() as int) =~= vals);
    out
}

fn collect_u32s(arr: &Vec<GgufValue>) -> (r: Vec<u32>)
    ensures
        r@ == u32s_in(values_view(arr@)),
{
    let ghost vals = values_view(arr@);
    let mut out: Vec<u32> = Vec::new();
    let mut i: usize = 0;
    assert(vals.take(0) =~= Seq::<GgufValueView>::empty());
    while i < arr.len()
        invariant
            i <= arr@.len(),
            vals == values_view(arr@),
            out@ == u32s_in(vals.take(i as int)),
        decreases arr@.len() - i,
    {
        assert(vals.take(i + 1).drop_last() =~= vals.take(i as int));
        match arr[i].as_u32() {
            Some(x) => out.push(x),
            None => {},
        }
        i = i + 1;
    }
    assert(vals.take(arr@.len() as int) =~= vals);
    out
}

impl GgufMeta {
    /// All token strings of the vocabulary (`tokenizer.ggml.tokens`).
    pub fn token_list(&self) -> (r: Vec<String>)
        ensures
            strings_view(r@) == array_strings(self@.kv, "tokenizer.ggml.tokens"@),
    {
        match self.get("tokenizer.ggml.tokens") {
            Some(v) => match v {
                GgufValue::Array(arr) => {
                    proof { lemma_array_view(*v); }
                    collect_strings(arr)
                },
                _ => Vec::new(),
            },
            None => Vec::new(),
        }
    }

    /// Token types, for special-token detection (`tokenizer.ggml.token_type`).
    pub fn token_types(&self) -> (r: Vec<u32>)
        ensures
            r@ == array_u32s(self@.kv, "tokenizer.ggml.token_type"@),
    {
        match self.get("tokenizer.ggml.token_type") {
            Some(v) => match v {
                GgufValue::Array(arr) => {
                    proof { lemma_array_view(*v); }
                    collect_u32s(arr)
                },
                _ => Vec::new(),
            },
            None => Vec::new(),
        }
    }
}

} // verus!
