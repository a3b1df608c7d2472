//! Persistent user configuration.

use vstd::prelude::*;

verus! {

broadcast use vstd::string::group_string_axioms;

/// User configuration. The three sampling parameters are `f32` values kept
/// as their IEEE-754 bit patterns (`f32::to_bits`).
pub struct MarkusConfig {
    /// CPU thread count (default: all cores)
    pub threads: u32,
    /// Context window size in tokens
    pub ctx_size: u32,
    /// Batch size for parallel processing
    pub batch_size: u32,
    /// GPU offload layers (0 = CPU only)
    pub gpu_layers: u32,
    /// Default temperature for sampling (bits of an `f32`)
    pub temperature_bits: u32,
    /// Top-P nucleus sampling (bits of an `f32`)
    pub top_p_bits: u32,
    /// Top-K sampling
    pub top_k: u32,
    /// Repetition penalty (bits of an `f32`)
    pub repeat_penalty_bits: u32,
    /// Max tokens to generate (-1 = unlimited)
    pub max_tokens: i32,
    /// HTTP server host
    pub server_host: String,
    /// HTTP server port
    pub server_port: u16,
    /// Flash attention (faster, less VRAM)
    pub flash_attn: bool,
    /// Memory-lock the model to prevent swapping
    pub mlock: bool,
    /// Default system prompt
    pub system_prompt: String,
}

/// `0.7f32.to_bits()`
pub const DEFAULT_TEMPERATURE_BITS: u32 = 0x3F33_3333;
/// `0.9f32.to_bits()`
pub const DEFAULT_TOP_P_BITS: u32 = 0x3F66_6666;
/// `1.1f32.to_bits()`
pub const DEFAULT_REPEAT_PENALTY_BITS: u32 = 0x3F8C_CCCD;

/// num_cpus's `get()`: the number of CPUs this process may use. It depends
/// on the machine; num_cpus documents that it is always at least 1, and that
/// is all that is stated of it.
#[verifier::external_body]
fn available_cpus() -> (r: usize)
    ensures
        r >= 1,
{
    num_cpus::get()
}

/// The default configuration, with everything but the thread count fixed.
pub open spec fn is_default_config(c: MarkusConfig, threads: u32) -> bool {
    &&& c.threads == threads
    &&& c.ctx_size == 4096
    &&& c.batch_size == 512
    &&& c.gpu_layers == 0
    &&& c.temperature_bits == DEFAULT_TEMPERATURE_BITS
    &&& c.top_p_bits == DEFAULT_TOP_P_BITS
    &&& c.top_k == 40
    &&& c.repeat_penalty_bits == DEFAULT_REPEAT_PENALTY_BITS
    &&& c.max_tokens == -1
    &&& c.server_host@ == "127.0.0.1"@
    &&& c.server_port == 8080
    &&& c.flash_attn
    &&& !c.mlock
    &&& c.system_prompt@ == "You are Markus, a helpful AI assistant running entirely locally. You are fast, private, and independent."@
}

impl MarkusConfig {
    /// The default configuration for a machine with `threads` CPUs.
    pub fn default_for_threads(threads: u32) -> (c: MarkusConfig)
        ensures
            is_default_config(c, threads),
    {
        MarkusConfig {
            threads,
            ctx_size: 4096,
            batch_size: 512,
            gpu_layers: 0,
            temperature_bits: DEFAULT_TEMPERATURE_BITS,
            top_p_bits: DEFAULT_TOP_P_BITS,
            top_k: 40,
            repeat_penalty_bits: DEFAULT_REPEAT_PENALTY_BITS,
            max_tokens: -1,
            server_host: String::from_str("127.0.0.1"),
            server_port: 8080,
            flash_attn: true,
            mlock: false,
            system_prompt: String::from_str(
                "You are Markus, a helpful AI assistant running entirely locally. You are fast, private, and independent.",
            ),
        }
    }
}

impl Default for MarkusConfig {
    /// The default configuration, using as many threads as the process has
    /// CPUs (a count of at least one, taken as a `u32`).
    fn default() -> (c: MarkusConfig)
        ensures
            exists|n: usize| n >= 1 && #[trigger] is_default_config(c, n as u32),
    {
        let n = available_cpus();
        let c = Self::default_for_threads(#[verifier::truncate] (n as u32));
        assert(is_default_config(c, n as u32));
        c
    }
}

} // verus!
