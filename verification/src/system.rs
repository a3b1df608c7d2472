//! Hardware description: CPU, memory and GPUs.

use vstd::prelude::*;

use crate::units::{mb_display, mb_text};
use crate::text::{
    chars_of, contains_chars, contains_piece, find_char, first_index_of, lemma_first_index_of, lower_text,
    parse_u64, spec_parse_u64, string_of, strip_cr, strip_cr_chars, text_lines, to_lowercase, trim, trim_chars,
};

verus! {

broadcast use vstd::string::group_string_axioms;

pub struct SystemInfo {
    pub cpu_model: String,
    pub cpu_cores: u32,
    pub cpu_threads: u32,
    pub total_ram_mb: u64,
    pub available_ram_mb: u64,
    pub gpu_info: Vec<GpuInfo>,
    pub os: String,
    pub arch: String,
}

pub struct GpuInfo {
    pub name: String,
    pub vram_total_mb: Option<u64>,
    pub vram_free_mb: Option<u64>,
    pub backend: GpuBackend,
}

#[derive(Clone, Copy, Debug, PartialEq, Eq, Structural)]
pub enum GpuBackend {
    Cuda,
    Metal,
    Vulkan,
    /// No GPU backend.
    NoBackend,
}

impl SystemInfo {
    /// Total memory: `{:.1}GB` from a gigabyte on, else `{}MB`.
    pub fn ram_display(&self) -> (r: String)
        ensures
            r@ == mb_text(self.total_ram_mb),
    {
        mb_display(self.total_ram_mb)
    }

    /// Available memory, written as `ram_display` writes the total.
    pub fn available_ram_display(&self) -> (r: String)
        ensures
            r@ == mb_text(self.available_ram_mb),
    {
        mb_display(self.available_ram_mb)
    }

    pub fn has_gpu(&self) -> (r: bool)
        ensures
            r == (self.gpu_info@.len() > 0),
    {
        self.gpu_info.len() != 0
    }
}


/// One line of `nvidia-smi --query-gpu=name,memory.total,memory.free` CSV
/// output cut as `splitn(3, ',')` cuts it: the text before the first comma,
/// then up to two more fields, the last one holding any further commas.
pub open spec fn split3_commas(l: Seq<char>) -> (Seq<char>, Option<Seq<char>>, Option<Seq<char>>) {
    match first_index_of(l, ',') {
        None => (l, None, None),
        Some(k) => {
            let rest = l.skip(k + 1);
            match first_index_of(rest, ',') {
                None => (l.take(k), Some(rest), None),
                Some(k2) => (l.take(k), Some(rest.take(k2)), Some(rest.skip(k2 + 1))),
            }
        },
    }
}

/// A memory field: the trimmed field read as a number, when it is one.
pub open spec fn memory_field(f: Option<Seq<char>>) -> Option<u64> {
    match f {
        Some(t) => spec_parse_u64(trim(t)),
        None => None,
    }
}

/// The GPU that one line of `nvidia-smi` output gives: its name, total and
/// free memory (MB), and the CUDA backend.
pub open spec fn nvidia_gpu(l: Seq<char>) -> (Seq<char>, Option<u64>, Option<u64>, GpuBackend) {
    let p = split3_commas(l);
    (trim(p.0), memory_field(p.1), memory_field(p.2), GpuBackend::Cuda)
}

/// All the fields of a GPU description, its name by view.
pub open spec fn gpu_fields(g: GpuInfo) -> (Seq<char>, Option<u64>, Option<u64>, GpuBackend) {
    (g.name@, g.vram_total_mb, g.vram_free_mb, g.backend)
}

fn memory_value(field: &[char]) -> (r: Option<u64>)
    ensures
        r == spec_parse_u64(trim(field@)),
{
    let t = trim_chars(field);
    parse_u64(t.as_slice())
}

/// The CUDA GPU one line of `nvidia-smi` output describes.
fn gpu_from_line(line: &[char]) -> (g: GpuInfo)
    ensures
        gpu_fields(g) == nvidia_gpu(line@),
{
    proof {
        lemma_first_index_of(line@, ',');
    }
    let first = find_char(line, ',');
    match first {
        None => {
            let name = trim_chars(line);
            GpuInfo { name: string_of(name.as_slice()), vram_total_mb: None, vram_free_mb: None, backend: GpuBackend::Cuda }
        },
        Some(k) => {
            let n = line.len();
            let head = &line[0..k];
            let rest = &line[k + 1..n];
            assert(head@ =~= line@.take(k as int));
            assert(rest@ =~= line@.skip(k + 1));
            let name = trim_chars(head);
            proof {
                lemma_first_index_of(rest@, ',');
            }
            let second = find_char(rest, ',');
            match second {
                None => {
                    let total = memory_value(rest);
                    GpuInfo { name: string_of(name.as_slice()), vram_total_mb: total, vram_free_mb: None, backend: GpuBackend::Cuda }
                },
                Some(k2) => {
                    let mid = &rest[0..k2];
                    let m = rest.len();
                    let tail = &rest[k2 + 1..m];
                    assert(mid@ =~= rest@.take(k2 as int));
                    assert(tail@ =~= rest@.skip(k2 + 1));
                    let total = memory_value(mid);
                    let free = memory_value(tail);
                    GpuInfo { name: string_of(name.as_slice()), vram_total_mb: total, vram_free_mb: free, backend: GpuBackend::Cuda }
                },
            }
        },
    }
}

/// The GPUs listed in the text output of `nvidia-smi --query-gpu=name,memory.total,memory.free
/// --format=csv,noheader,nounits`: one CUDA GPU per line, named by the trimmed
/// first field, with the total and free memory when those fields are numbers.
pub fn gpus_from_nvidia_smi(text: &str) -> (r: Vec<GpuInfo>)
    ensures
        r@.len() == text_lines(text@).len(),
        forall|i: int| 0 <= i < r@.len() ==> gpu_fields(#[trigger] r@[i]) == nvidia_gpu(text_lines(text@)[i]),
{
    let chars = chars_of(text);
    let ghost all = text_lines(text@);
    let mut gpus: Vec<GpuInfo> = Vec::new();
    let mut pos: usize = 0;
    assert(chars@.skip(0) =~= chars@);
    while pos < chars.len()
        invariant
            pos <= chars@.len(),
            chars@ == text@,
            all == text_lines(text@),
            gpus@.len() <= all.len(),
            all.skip(gpus@.len() as int) == text_lines(chars@.skip(pos as int)),
            forall|i: int| 0 <= i < gpus@.len() ==> gpu_fields(#[trigger] gpus@[i]) == nvidia_gpu(all[i]),
        decreases chars@.len() - pos,
    {
        let rest = &chars[pos..chars.len()];
        let ghost rs = chars@.skip(pos as int);
        assert(rest@ =~= rs);
        let ghost n = gpus@.len() as int;
        proof {
            lemma_first_index_of(rs, '\n');
        }
        let nl = find_char(rest, '\n');
        match nl {
            Some(k) => {
                let line = strip_cr_chars(&rest[0..k]);
                assert(rest@.subrange(0, k as int) =~= rs.take(k as int));
                assert(rs.skip(k + 1) =~= chars@.skip(pos + k + 1));
                let ghost tl = text_lines(rs.skip(k + 1));
                assert(text_lines(rs) == seq![strip_cr(rs.take(k as int))] + tl);
                assert(all[n] == line@) by {
                    assert(all[n] == all.skip(n)[0]);
                }
                assert(all.skip(n + 1) == tl) by {
                    assert(all.skip(n + 1) =~= all.skip(n).skip(1));
                    assert((seq![line@] + tl).skip(1) =~= tl);
                }
                let g = gpu_from_line(line);
                gpus.push(g);
                pos = pos + k + 1;
            },
            None => {
                assert(text_lines(rs) == seq![rs]);
                assert(all[n] == rest@) by {
                    assert(all[n] == all.skip(n)[0]);
                }
                assert(all.skip(n + 1) =~= all.skip(n).skip(1));
                let g = gpu_from_line(rest);
                gpus.push(g);
                pos = chars.len();
                assert(chars@.skip(pos as int) =~= Seq::<char>::empty());
                assert(all.skip(n + 1) =~= Seq::<Seq<char>>::empty());
            },
        }
    }
    assert(chars@.skip(pos as int) =~= Seq::<char>::empty());
    assert(all.skip(gpus@.len() as int).len() == 0);
    gpus
}

/// The process names that count as inference servers from an earlier session.
pub open spec fn inference_targets() -> Seq<Seq<char>> {
    seq!["llama-server"@, "llama-cli"@, "markus-server"@, "ollama"@]
}

pub open spec fn names_inference_process(lower: Seq<char>) -> bool {
    exists|i: int| 0 <= i < inference_targets().len() && contains_piece(lower, #[trigger] inference_targets()[i])
}

/// The lowercased process name, when it names an inference server (it
/// contains `llama-server`, `llama-cli`, `markus-server` or `ollama`).
pub fn inference_process_name(name: &str) -> (r: Option<String>)
    ensures
        match r {
            Some(n) => n@ == lower_text(name@) && names_inference_process(n@),
            None => !names_inference_process(lower_text(name@)),
        },
{
    let lower = to_lowercase(name);
    let l = chars_of(lower.as_str());
    let t0 = chars_of("llama-server");
    let t1 = chars_of("llama-cli");
    let t2 = chars_of("markus-server");
    let t3 = chars_of("ollama");
    let ghost ts = inference_targets();
    assert(ts[0] == t0@ && ts[1] == t1@ && ts[2] == t2@ && ts[3] == t3@);
    if contains_chars(l.as_slice(), t0.as_slice()) || contains_chars(l.as_slice(), t1.as_slice())
        || contains_chars(l.as_slice(), t2.as_slice()) || contains_chars(l.as_slice(), t3.as_slice()) {
        Some(lower)
    } else {
        assert forall|i: int| 0 <= i < ts.len() implies !contains_piece(l@, #[trigger] ts[i]) by {
            assert(i == 0 || i == 1 || i == 2 || i == 3);
        }
        None
    }
}

} // verus!
