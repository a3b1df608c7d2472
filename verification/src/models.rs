//! Which model runner serves a GGUF architecture.

use vstd::prelude::*;

use crate::error::MarkusError;
use crate::gguf::GgufMeta;
use crate::meta::arch_prefix;
use crate::text::{chars_equal, chars_of};

verus! {

broadcast use vstd::string::group_string_axioms;

/// The runners the engine has: the LLaMA transformer (which also serves
/// Qwen, Gemma, DeepSeek, Mistral and the other llama-compatible layouts)
/// and Phi-3.
#[derive(Clone, Copy, Debug, PartialEq, Eq, Structural)]
pub enum ModelFamily {
    Llama,
    Phi3,
    Mistral,
}

/// Architectures loaded with the LLaMA weights.
pub open spec fn llama_architectures() -> Seq<Seq<char>> {
    seq![
        "llama"@, "llama2"@, "llama3"@, "llama4"@, "codellama"@, "smollm"@, "tinyllama"@, "qwen2"@,
        "qwen2_5"@, "gemma"@, "gemma2"@, "gemma3"@, "deepseek"@, "deepseek2"@, "starcoder"@,
        "starcoder2"@, "orion"@, "baichuan"@, "internlm2"@, "mamba"@,
    ]
}

/// Architectures loaded with the Phi-3 weights.
pub open spec fn phi_architectures() -> Seq<Seq<char>> {
    seq!["phi3"@, "phi2"@, "phi"@]
}

/// Mistral-family architectures, whose GGUF files are llama-compatible.
pub open spec fn mistral_architectures() -> Seq<Seq<char>> {
    seq!["mistral"@, "mistral_nemo"@, "mixtral"@]
}

/// The family that serves an architecture, if any does.
pub open spec fn family_of(arch: Seq<char>) -> Option<ModelFamily> {
    if llama_architectures().contains(arch) {
        Some(ModelFamily::Llama)
    } else if phi_architectures().contains(arch) {
        Some(ModelFamily::Phi3)
    } else if mistral_architectures().contains(arch) {
        Some(ModelFamily::Mistral)
    } else {
        None
    }
}

fn llama_names() -> (r: Vec<&'static str>)
    ensures
        r@.map_values(|s: &str| s@) == llama_architectures(),
{
    let r = vec![
        "llama", "llama2", "llama3", "llama4", "codellama", "smollm", "tinyllama", "qwen2", "qwen2_5",
        "gemma", "gemma2", "gemma3", "deepseek", "deepseek2", "starcoder", "starcoder2", "orion",
        "baichuan", "internlm2", "mamba",
    ];
    assert(r@.map_values(|s: &str| s@) =~= llama_architectures());
    r
}

fn phi_names() -> (r: Vec<&'static str>)
    ensures
        r@.map_values(|s: &str| s@) == phi_architectures(),
{
    let r = vec!["phi3", "phi2", "phi"];
    assert(r@.map_values(|s: &str| s@) =~= phi_architectures());
    r
}

fn mistral_names() -> (r: Vec<&'static str>)
    ensures
        r@.map_values(|s: &str| s@) == mistral_architectures(),
{
    let r = vec!["mistral", "mistral_nemo", "mixtral"];
    assert(r@.map_values(|s: &str| s@) =~= mistral_architectures());
    r
}

/// Whether `arch` is one of `names`.
fn one_of(arch: &[char], names: &Vec<&'static str>) -> (r: bool)
    ensures
        r == names@.map_values(|s: &str| s@).contains(arch@),
{
    let ghost views = names@.map_values(|s: &str| s@);
    let mut i: usize = 0;
    while i < names.len()
        invariant
            i <= names@.len(),
            views == names@.map_values(|s: &str| s@),
            forall|j: int| 0 <= j < i ==> views[j] != arch@,
        decreases names@.len() - i,
    {
        let n = chars_of(names[i]);
        if chars_equal(arch, n.as_slice()) {
            assert(views[i as int] == arch@);
            return true;
        }
        i = i + 1;
    }
    false
}

/// The runner family for a GGUF architecture name, or `UnsupportedArch`
/// naming it when no runner serves it.
pub fn model_family(arch: &str) -> (r: Result<ModelFamily, MarkusError>)
    ensures
        match family_of(arch@) {
            Some(f) => r == Ok::<ModelFamily, MarkusError>(f),
            None => r matches Err(MarkusError::UnsupportedArch { arch: a }) && a@ == arch@,
        },
{
    let a = chars_of(arch);
    if one_of(a.as_slice(), &llama_names()) {
        Ok(ModelFamily::Llama)
    } else if one_of(a.as_slice(), &phi_names()) {
        Ok(ModelFamily::Phi3)
    } else if one_of(a.as_slice(), &mistral_names()) {
        Ok(ModelFamily::Mistral)
    } else {
        Err(MarkusError::UnsupportedArch { arch: String::from_str(arch) })
    }
}

/// The architecture a model is loaded as: `general.architecture`, or `llama`
/// when the file does not say.
pub fn runner_architecture(meta: &GgufMeta) -> (r: &str)
    ensures
        r@ == arch_prefix(meta@.kv),
{
    match meta.architecture() {
        Some(a) => a,
        None => "llama",
    }
}

} // verus!

verus! {

proof fn lemma_llama_table(arch: Seq<char>)
    ensures
        llama_architectures().contains(arch) <==> (
            arch == "llama"@
            || arch == "llama2"@
            || arch == "llama3"@
            || arch == "llama4"@
            || arch == "codellama"@
            || arch == "smollm"@
            || arch == "tinyllama"@
            || arch == "qwen2"@
            || arch == "qwen2_5"@
            || arch == "gemma"@
            || arch == "gemma2"@
            || arch == "gemma3"@
            || arch == "deepseek"@
            || arch == "deepseek2"@
            || arch == "starcoder"@
            || arch == "starcoder2"@
            || arch == "orion"@
            || arch == "baichuan"@
            || arch == "internlm2"@
            || arch == "mamba"@
        ),
{
    reveal_strlit("llama");
    reveal_strlit("llama2");
    reveal_strlit("llama3");
    reveal_strlit("llama4");
    reveal_strlit("codellama");
    reveal_strlit("smollm");
    reveal_strlit("tinyllama");
    reveal_strlit("qwen2");
    reveal_strlit("qwen2_5");
    reveal_strlit("gemma");
    reveal_strlit("gemma2");
    reveal_strlit("gemma3");
    reveal_strlit("deepseek");
    reveal_strlit("deepseek2");
    reveal_strlit("starcoder");
    reveal_strlit("starcoder2");
    reveal_strlit("orion");
    reveal_strlit("baichuan");
    reveal_strlit("internlm2");
    reveal_strlit("mamba");
    let t = llama_architectures();
    assert(t[0] == "llama"@);
    assert(t[1] == "llama2"@);
    assert(t[2] == "llama3"@);
    assert(t[3] == "llama4"@);
    assert(t[4] == "codellama"@);
    assert(t[5] == "smollm"@);
    assert(t[6] == "tinyllama"@);
    assert(t[7] == "qwen2"@);
    assert(t[8] == "qwen2_5"@);
    assert(t[9] == "gemma"@);
    assert(t[10] == "gemma2"@);
    assert(t[11] == "gemma3"@);
    assert(t[12] == "deepseek"@);
    assert(t[13] == "deepseek2"@);
    assert(t[14] == "starcoder"@);
    assert(t[15] == "starcoder2"@);
    assert(t[16] == "orion"@);
    assert(t[17] == "baichuan"@);
    assert(t[18] == "internlm2"@);
    assert(t[19] == "mamba"@);
    if t.contains(arch) {
        let k = choose|k: int| 0 <= k < t.len() && t[k] == arch;
        assert(0 <= k < 20);
    }
}

proof fn lemma_phi_table(arch: Seq<char>)
    ensures
        phi_architectures().contains(arch) <==> (
            arch == "phi3"@
            || arch == "phi2"@
            || arch == "phi"@
        ),
{
    reveal_strlit("phi3");
    reveal_strlit("phi2");
    reveal_strlit("phi");
    let t = phi_architectures();
    assert(t[0] == "phi3"@);
    assert(t[1] == "phi2"@);
    assert(t[2] == "phi"@);
    if t.contains(arch) {
        let k = choose|k: int| 0 <= k < t.len() && t[k] == arch;
        assert(0 <= k < 3);
    }
}

proof fn lemma_mistral_table(arch: Seq<char>)
    ensures
        mistral_architectures().contains(arch) <==> (
            arch == "mistral"@
            || arch == "mistral_nemo"@
            || arch == "mixtral"@
        ),
{
    reveal_strlit("mistral");
    reveal_strlit("mistral_nemo");
    reveal_strlit("mixtral");
    let t = mistral_architectures();
    assert(t[0] == "mistral"@);
    assert(t[1] == "mistral_nemo"@);
    assert(t[2] == "mixtral"@);
    if t.contains(arch) {
        let k = choose|k: int| 0 <= k < t.len() && t[k] == arch;
        assert(0 <= k < 3);
    }
}

/// Which runner serves an architecture: the LLaMA runner serves exactly
/// llama, llama2, llama3, llama4, codellama, smollm, tinyllama, qwen2,
/// qwen2_5, gemma, gemma2, gemma3, deepseek, deepseek2, starcoder,
/// starcoder2, orion, baichuan, internlm2 and mamba; the Phi-3 runner
/// exactly phi3, phi2 and phi; the Mistral family exactly mistral,
/// mistral_nemo and mixtral; every other architecture is refused (the names
/// are compared exactly, case included).
pub proof fn law_architecture_families(arch: Seq<char>)
    ensures
        family_of(arch) == Some(ModelFamily::Llama) <==> (
            arch == "llama"@
            || arch == "llama2"@
            || arch == "llama3"@
            || arch == "llama4"@
            || arch == "codellama"@
            || arch == "smollm"@
            || arch == "tinyllama"@
            || arch == "qwen2"@
            || arch == "qwen2_5"@
            || arch == "gemma"@
            || arch == "gemma2"@
            || arch == "gemma3"@
            || arch == "deepseek"@
            || arch == "deepseek2"@
            || arch == "starcoder"@
            || arch == "starcoder2"@
            || arch == "orion"@
            || arch == "baichuan"@
            || arch == "internlm2"@
            || arch == "mamba"@
        ),
        family_of(arch) == Some(ModelFamily::Phi3) <==> (
            arch == "phi3"@
            || arch == "phi2"@
            || arch == "phi"@
        ),
        family_of(arch) == Some(ModelFamily::Mistral) <==> (
            arch == "mistral"@
            || arch == "mistral_nemo"@
            || arch == "mixtral"@
        ),
        family_of(arch) is None <==> !(
            arch == "llama"@
            || arch == "llama2"@
            || arch == "llama3"@
            || arch == "llama4"@
            || arch == "codellama"@
            || arch == "smollm"@
            || arch == "tinyllama"@
            || arch == "qwen2"@
            || arch == "qwen2_5"@
            || arch == "gemma"@
            || arch == "gemma2"@
            || arch == "gemma3"@
            || arch == "deepseek"@
            || arch == "deepseek2"@
            || arch == "starcoder"@
            || arch == "starcoder2"@
            || arch == "orion"@
            || arch == "baichuan"@
            || arch == "internlm2"@
            || arch == "mamba"@
            || arch == "phi3"@
            || arch == "phi2"@
            || arch == "phi"@
            || arch == "mistral"@
            || arch == "mistral_nemo"@
            || arch == "mixtral"@
        ),
{
    reveal_strlit("llama");
    reveal_strlit("llama2");
    reveal_strlit("llama3");
    reveal_strlit("llama4");
    reveal_strlit("codellama");
    reveal_strlit("smollm");
    reveal_strlit("tinyllama");
    reveal_strlit("qwen2");
    reveal_strlit("qwen2_5");
    reveal_strlit("gemma");
    reveal_strlit("gemma2");
    reveal_strlit("gemma3");
    reveal_strlit("deepseek");
    reveal_strlit("deepseek2");
    reveal_strlit("starcoder");
    reveal_strlit("starcoder2");
    reveal_strlit("orion");
    reveal_strlit("baichuan");
    reveal_strlit("internlm2");
    reveal_strlit("mamba");
    reveal_strlit("phi3");
    reveal_strlit("phi2");
    reveal_strlit("phi");
    reveal_strlit("mistral");
    reveal_strlit("mistral_nemo");
    reveal_strlit("mixtral");
    lemma_llama_table(arch);
    lemma_phi_table(arch);
    lemma_mistral_table(arch);
    if arch == "phi3"@ || arch == "phi2"@ || arch == "phi"@ {
        // no LLaMA architecture starts with 'p'
        assert(arch[0] == 'p');
    }
    if arch == "mistral"@ || arch == "mistral_nemo"@ || arch == "mixtral"@ {
        // the only LLaMA architecture starting with 'm' is "mamba"
        assert(arch[0] == 'm' && arch[1] == 'i');
        assert(!llama_architectures().contains(arch));
        assert(!phi_architectures().contains(arch));
    }
}

} // verus!
