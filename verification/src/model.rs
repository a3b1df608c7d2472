//! Model metadata: the file format and what the GGUF header says about a model.

use std::path::PathBuf;

use vstd::prelude::*;

use crate::gguf::GgufMeta;
use crate::meta::{arch_number, spec_architecture};
use crate::units::{bytes_display, bytes_text};
use crate::text::{chars_equal, chars_of, lower_text, to_lowercase};

verus! {

broadcast use vstd::string::group_string_axioms;

#[verifier::external_type_specification]
#[verifier::external_body]
pub struct ExPathBuf(PathBuf);

pub enum ModelFormat {
    Gguf,
    SafeTensors,
    PyTorchBin,
    Unknown(String),
}

pub enum ModelFormatView {
    Gguf,
    SafeTensors,
    PyTorchBin,
    Unknown(Seq<char>),
}

impl View for ModelFormat {
    type V = ModelFormatView;

    open spec fn view(&self) -> ModelFormatView {
        match self {
            ModelFormat::Gguf => ModelFormatView::Gguf,
            ModelFormat::SafeTensors => ModelFormatView::SafeTensors,
            ModelFormat::PyTorchBin => ModelFormatView::PyTorchBin,
            ModelFormat::Unknown(s) => ModelFormatView::Unknown(s@),
        }
    }
}

/// The format a lowercase file extension names.
pub open spec fn format_named(ext: Seq<char>) -> ModelFormatView {
    if ext == "gguf"@ {
        ModelFormatView::Gguf
    } else if ext == "safetensors"@ {
        ModelFormatView::SafeTensors
    } else if ext == "bin"@ {
        ModelFormatView::PyTorchBin
    } else {
        ModelFormatView::Unknown(ext)
    }
}

pub open spec fn format_label(f: ModelFormatView) -> Seq<char> {
    match f {
        ModelFormatView::Gguf => "GGUF"@,
        ModelFormatView::SafeTensors => "SafeTensors"@,
        ModelFormatView::PyTorchBin => "PyTorch"@,
        ModelFormatView::Unknown(s) => s,
    }
}

impl ModelFormat {
    /// The format named by a file extension, compared case-insensitively.
    pub fn from_extension(ext: &str) -> (r: ModelFormat)
        ensures
            r@ == format_named(lower_text(ext@)),
    {
        let lower = to_lowercase(ext);
        Self::from_lowercase_extension(lower.as_str())
    }

    /// The format named by an already lowercased extension.
    pub fn from_lowercase_extension(ext: &str) -> (r: ModelFormat)
        ensures
            r@ == format_named(ext@),
    {
        let cs = chars_of(ext);
        if chars_equal(cs.as_slice(), chars_of("gguf").as_slice()) {
            ModelFormat::Gguf
        } else if chars_equal(cs.as_slice(), chars_of("safetensors").as_slice()) {
            ModelFormat::SafeTensors
        } else if chars_equal(cs.as_slice(), chars_of("bin").as_slice()) {
            ModelFormat::PyTorchBin
        } else {
            ModelFormat::Unknown(ext.to_owned())
        }
    }

    /// Whether the engine runs this format itself (GGUF).
    pub fn is_native(&self) -> (r: bool)
        ensures
            r == (self@ is Gguf),
    {
        match self {
            ModelFormat::Gguf => true,
            _ => false,
        }
    }

    pub fn label(&self) -> (r: &str)
        ensures
            r@ == format_label(self@),
    {
        match self {
            ModelFormat::Gguf => "GGUF",
            ModelFormat::SafeTensors => "SafeTensors",
            ModelFormat::PyTorchBin => "PyTorch",
            ModelFormat::Unknown(s) => s.as_str(),
        }
    }
}

/// Rich model metadata, from the file system and the GGUF header.
pub struct ModelInfo {
    pub path: PathBuf,
    pub name: String,
    pub format: ModelFormat,
    pub size_bytes: u64,
    /// Parsed from the GGUF header (None for other formats).
    pub architecture: Option<String>,
    pub context_length: Option<u64>,
    pub embedding_length: Option<u64>,
    pub layer_count: Option<u64>,
    pub head_count: Option<u64>,
    pub vocab_size: Option<u64>,
    /// Rough parameter count (4 × hidden × layers × 4), when both are known.
    pub parameter_count: Option<u64>,
    pub quantization: Option<String>,
    pub gguf_version: Option<u32>,
}

pub open spec fn opt_str_view(o: Option<String>) -> Option<Seq<char>> {
    match o {
        Some(s) => Some(s@),
        None => None,
    }
}

/// The rough parameter count computes without overflow (each product in
/// `4 * hidden * layers * 4` fits in a `u64`).
pub open spec fn parameter_estimate_fits(emb: Option<u64>, layers: Option<u64>) -> bool {
    match (emb, layers) {
        (Some(e), Some(l)) => 4 * e <= u64::MAX && 4 * e * l <= u64::MAX && 4 * e * l * 4 <= u64::MAX,
        _ => true,
    }
}

impl ModelInfo {
    /// Metadata known from the file system alone: the path, its file name,
    /// the format its extension names, and its size.
    pub fn from_parts(path: PathBuf, name: String, extension: &str, size_bytes: u64) -> (r: ModelInfo)
        ensures
            r.path == path,
            r.name == name,
            r.format@ == format_named(lower_text(extension@)),
            r.size_bytes == size_bytes,
            r.architecture is None,
            r.context_length is None,
            r.embedding_length is None,
            r.layer_count is None,
            r.head_count is None,
            r.vocab_size is None,
            r.parameter_count is None,
            r.quantization is None,
            r.gguf_version is None,
    {
        ModelInfo {
            path,
            name,
            format: ModelFormat::from_extension(extension),
            size_bytes,
            architecture: None,
            context_length: None,
            embedding_length: None,
            layer_count: None,
            head_count: None,
            vocab_size: None,
            parameter_count: None,
            quantization: None,
            gguf_version: None,
        }
    }

    /// Whether `with_gguf_meta` can estimate the parameter count of `meta` without overflow.
    pub fn gguf_meta_fits(meta: &GgufMeta) -> (r: bool)
        ensures
            r == parameter_estimate_fits(
                arch_number(meta@.kv, ".embedding_length"@),
                arch_number(meta@.kv, ".block_count"@),
            ),
    {
        match (meta.embedding_length(), meta.layer_count()) {
            (Some(e), Some(l)) => match e.checked_mul(4) {
                Some(a) => match a.checked_mul(l) {
                    Some(b) => b.checked_mul(4).is_some(),
                    None => false,
                },
                None => false,
            },
            _ => true,
        }
    }

    /// The file size: `{:.1}GB` from a gibibyte on, else `{:.0}MB`.
    pub fn size_display(&self) -> (r: String)
        ensures
            r@ == bytes_text(self.size_bytes),
    {
        bytes_display(self.size_bytes)
    }

    /// Enriches the metadata with what the GGUF header says.
    pub fn with_gguf_meta(self, meta: &GgufMeta) -> (r: ModelInfo)
        requires
            parameter_estimate_fits(
                arch_number(meta@.kv, ".embedding_length"@),
                arch_number(meta@.kv, ".block_count"@),
            ),
        ensures
            r.path == self.path,
            r.name == self.name,
            r.format == self.format,
            r.size_bytes == self.size_bytes,
            r.quantization == self.quantization,
            opt_str_view(r.architecture) == spec_architecture(meta@.kv),
            r.context_length == arch_number(meta@.kv, ".context_length"@),
            r.embedding_length == arch_number(meta@.kv, ".embedding_length"@),
            r.layer_count == arch_number(meta@.kv, ".block_count"@),
            r.head_count == arch_number(meta@.kv, ".attention.head_count"@),
            r.vocab_size == match crate::meta::spec_lookup(meta@.kv, "tokenizer.ggml.tokens"@) {
                Some(crate::gguf::GgufValueView::Array(a)) => Some(a.len() as u64),
                _ => None::<u64>,
            },
            r.gguf_version == Some(meta.version),
            r.parameter_count == match (r.embedding_length, r.layer_count) {
                (Some(e), Some(l)) => Some((4 * e * l * 4) as u64),
                _ => self.parameter_count,
            },
    {
        let mut info = self;
        info.architecture = match meta.architecture() {
            Some(a) => Some(a.to_owned()),
            None => None,
        };
        info.context_length = meta.context_length();
        info.embedding_length = meta.embedding_length();
        info.layer_count = meta.layer_count();
        info.head_count = meta.head_count();
        info.vocab_size = meta.vocab_size();
        info.gguf_version = Some(meta.version);
        if let (Some(emb), Some(layers)) = (info.embedding_length, info.layer_count) {
            let params = 4 * emb * layers * 4;
            info.parameter_count = Some(params);
        }
        info
    }
}

} // verus!
