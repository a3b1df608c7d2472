//! Where a model download comes from: a shortcut alias, `hf:` shorthand or a
//! direct URL.

use vstd::prelude::*;

use crate::error::MarkusError;
use crate::text::{chars_of, find_char, first_index_of, last_index_of, rfind_char, starts_with, string_of, chars_equal};

verus! {

broadcast use vstd::string::group_string_axioms;

/// The known shortcut aliases: (alias, HuggingFace repository, file name).
pub open spec fn alias_table() -> Seq<(Seq<char>, Seq<char>, Seq<char>)> {
    seq![
        ("llama3.2"@, "bartowski/Llama-3.2-3B-Instruct-GGUF"@, "Llama-3.2-3B-Instruct-Q4_K_M.gguf"@),
        ("llama3.1"@, "bartowski/Meta-Llama-3.1-8B-Instruct-GGUF"@, "Meta-Llama-3.1-8B-Instruct-Q4_K_M.gguf"@),
        ("llama3.3"@, "bartowski/Llama-3.3-70B-Instruct-GGUF"@, "Llama-3.3-70B-Instruct-Q4_K_M.gguf"@),
        ("mistral"@, "TheBloke/Mistral-7B-Instruct-v0.2-GGUF"@, "mistral-7b-instruct-v0.2.Q4_K_M.gguf"@),
        ("mistral-nemo"@, "bartowski/Mistral-Nemo-Instruct-2407-GGUF"@, "Mistral-Nemo-Instruct-2407-Q4_K_M.gguf"@),
        ("phi3"@, "microsoft/Phi-3-mini-4k-instruct-gguf"@, "Phi-3-mini-4k-instruct-q4.gguf"@),
        ("phi3.5"@, "bartowski/Phi-3.5-mini-instruct-GGUF"@, "Phi-3.5-mini-instruct-Q4_K_M.gguf"@),
        ("phi4"@, "bartowski/phi-4-GGUF"@, "phi-4-Q4_K_M.gguf"@),
        ("gemma2"@, "bartowski/gemma-2-9b-it-GGUF"@, "gemma-2-9b-it-Q4_K_M.gguf"@),
        ("gemma3"@, "lmstudio-community/gemma-3-4b-it-GGUF"@, "gemma-3-4b-it-Q4_K_M.gguf"@),
        ("qwen2.5"@, "bartowski/Qwen2.5-7B-Instruct-GGUF"@, "Qwen2.5-7B-Instruct-Q4_K_M.gguf"@),
        ("qwen3"@, "Qwen/Qwen3-8B-GGUF"@, "Qwen3-8B-Q4_K_M.gguf"@),
        ("deepseek-r1"@, "bartowski/DeepSeek-R1-Distill-Llama-8B-GGUF"@, "DeepSeek-R1-Distill-Llama-8B-Q4_K_M.gguf"@),
        ("deepseek-r1-70b"@, "bartowski/DeepSeek-R1-Distill-Llama-70B-GGUF"@, "DeepSeek-R1-Distill-Llama-70B-Q4_K_M.gguf"@),
        ("codellama"@, "TheBloke/CodeLlama-13B-Instruct-GGUF"@, "codellama-13b-instruct.Q4_K_M.gguf"@),
        ("starcoder2"@, "bartowski/starcoder2-15b-GGUF"@, "starcoder2-15b-Q4_K_M.gguf"@),
        ("tinyllama"@, "TheBloke/TinyLlama-1.1B-Chat-v1.0-GGUF"@, "tinyllama-1.1b-chat-v1.0.Q4_K_M.gguf"@),
        ("smollm2"@, "bartowski/SmolLM2-1.7B-Instruct-GGUF"@, "SmolLM2-1.7B-Instruct-Q4_K_M.gguf"@),
        ("vicuna"@, "TheBloke/Vicuna-13B-v1.5-GGUF"@, "vicuna-13b-v1.5.Q4_K_M.gguf"@),
        ("openchat"@, "TheBloke/openchat-3.5-1210-GGUF"@, "openchat-3.5-1210.Q4_K_M.gguf"@),
        ("zephyr"@, "TheBloke/zephyr-7B-beta-GGUF"@, "zephyr-7b-beta.Q4_K_M.gguf"@)
    ]
}

pub open spec fn aliases_view(v: Seq<(&'static str, &'static str, &'static str)>) -> Seq<(Seq<char>, Seq<char>, Seq<char>)> {
    Seq::new(v.len(), |i: int| (v[i].0@, v[i].1@, v[i].2@))
}

/// Known model shortcut aliases, as (alias, repository, file name).
pub fn model_aliases() -> (r: Vec<(&'static str, &'static str, &'static str)>)
    ensures
        aliases_view(r@) == alias_table(),
{
    let r = vec![
        ("llama3.2", "bartowski/Llama-3.2-3B-Instruct-GGUF", "Llama-3.2-3B-Instruct-Q4_K_M.gguf"),
        ("llama3.1", "bartowski/Meta-Llama-3.1-8B-Instruct-GGUF", "Meta-Llama-3.1-8B-Instruct-Q4_K_M.gguf"),
        ("llama3.3", "bartowski/Llama-3.3-70B-Instruct-GGUF", "Llama-3.3-70B-Instruct-Q4_K_M.gguf"),
        ("mistral", "TheBloke/Mistral-7B-Instruct-v0.2-GGUF", "mistral-7b-instruct-v0.2.Q4_K_M.gguf"),
        ("mistral-nemo", "bartowski/Mistral-Nemo-Instruct-2407-GGUF", "Mistral-Nemo-Instruct-2407-Q4_K_M.gguf"),
        ("phi3", "microsoft/Phi-3-mini-4k-instruct-gguf", "Phi-3-mini-4k-instruct-q4.gguf"),
        ("phi3.5", "bartowski/Phi-3.5-mini-instruct-GGUF", "Phi-3.5-mini-instruct-Q4_K_M.gguf"),
        ("phi4", "bartowski/phi-4-GGUF", "phi-4-Q4_K_M.gguf"),
        ("gemma2", "bartowski/gemma-2-9b-it-GGUF", "gemma-2-9b-it-Q4_K_M.gguf"),
        ("gemma3", "lmstudio-community/gemma-3-4b-it-GGUF", "gemma-3-4b-it-Q4_K_M.gguf"),
        ("qwen2.5", "bartowski/Qwen2.5-7B-Instruct-GGUF", "Qwen2.5-7B-Instruct-Q4_K_M.gguf"),
        ("qwen3", "Qwen/Qwen3-8B-GGUF", "Qwen3-8B-Q4_K_M.gguf"),
        ("deepseek-r1", "bartowski/DeepSeek-R1-Distill-Llama-8B-GGUF", "DeepSeek-R1-Distill-Llama-8B-Q4_K_M.gguf"),
        ("deepseek-r1-70b", "bartowski/DeepSeek-R1-Distill-Llama-70B-GGUF", "DeepSeek-R1-Distill-Llama-70B-Q4_K_M.gguf"),
        ("codellama", "TheBloke/CodeLlama-13B-Instruct-GGUF", "codellama-13b-instruct.Q4_K_M.gguf"),
        ("starcoder2", "bartowski/starcoder2-15b-GGUF", "starcoder2-15b-Q4_K_M.gguf"),
        ("tinyllama", "TheBloke/TinyLlama-1.1B-Chat-v1.0-GGUF", "tinyllama-1.1b-chat-v1.0.Q4_K_M.gguf"),
        ("smollm2", "bartowski/SmolLM2-1.7B-Instruct-GGUF", "SmolLM2-1.7B-Instruct-Q4_K_M.gguf"),
        ("vicuna", "TheBloke/Vicuna-13B-v1.5-GGUF", "vicuna-13b-v1.5.Q4_K_M.gguf"),
        ("openchat", "TheBloke/openchat-3.5-1210-GGUF", "openchat-3.5-1210.Q4_K_M.gguf"),
        ("zephyr", "TheBloke/zephyr-7B-beta-GGUF", "zephyr-7b-beta.Q4_K_M.gguf")
    ];
    assert(aliases_view(r@) =~= alias_table());
    r
}

/// Repository and file of the first alias entry named `name`.
pub open spec fn find_alias(table: Seq<(Seq<char>, Seq<char>, Seq<char>)>, name: Seq<char>) -> Option<(Seq<char>, Seq<char>)>
    decreases table.len(),
{
    if table.len() == 0 {
        None
    } else if table[0].0 == name {
        Some((table[0].1, table[0].2))
    } else {
        find_alias(table.drop_first(), name)
    }
}

/// The download URL of a file in a HuggingFace repository.
pub open spec fn hf_url(repo: Seq<char>, file: Seq<char>) -> Seq<char> {
    "https://huggingface.co/"@ + repo + "/resolve/main/"@ + file
}

/// The file name a direct URL names: the part after its last `/`, up to the first `?`.
pub open spec fn url_filename(url: Seq<char>) -> Seq<char> {
    let last = match last_index_of(url, '/') {
        Some(k) => url.skip(k + 1),
        None => url,
    };
    match first_index_of(last, '?') {
        Some(q) => last.take(q),
        None => last,
    }
}

/// Why an input names no download.
#[derive(Clone, Copy, Debug, PartialEq, Eq, Structural)]
pub enum DownloadFault {
    BadHfFormat,
    UnknownModel,
}

/// The (url, file name) an input stands for.
pub open spec fn spec_download(input: Seq<char>) -> Result<(Seq<char>, Seq<char>), DownloadFault> {
    if "http://"@.is_prefix_of(input) || "https://"@.is_prefix_of(input) {
        Ok((input, url_filename(input)))
    } else if "hf:"@.is_prefix_of(input) {
        let rest = input.skip(3);
        match first_index_of(rest, ':') {
            Some(k) => Ok((hf_url(rest.take(k), rest.skip(k + 1)), rest.skip(k + 1))),
            None => Err(DownloadFault::BadHfFormat),
        }
    } else {
        match find_alias(alias_table(), input) {
            Some((repo, file)) => Ok((hf_url(repo, file), file)),
            None => Err(DownloadFault::UnknownModel),
        }
    }
}

/// Download specification: where to fetch a model from and what to call it.
pub struct DownloadSpec {
    pub url: String,
    pub filename: String,
}

fn hf_download(repo: &[char], file: &[char]) -> (r: DownloadSpec)
    ensures
        r.url@ == hf_url(repo@, file@),
        r.filename@ == file@,
{
    let mut url = String::from_str("https://huggingface.co/");
    url.append(string_of(repo).as_str());
    url.append("/resolve/main/");
    url.append(string_of(file).as_str());
    DownloadSpec { url, filename: string_of(file) }
}

impl DownloadSpec {
    /// Interprets an alias, `hf:owner/repo:file.gguf`, or an `http(s)://` URL.
    pub fn from_input(input: &str) -> (r: Result<DownloadSpec, MarkusError>)
        ensures
            match spec_download(input@) {
                Ok((url, file)) => r matches Ok(d) && d.url@ == url && d.filename@ == file,
                Err(DownloadFault::BadHfFormat) => r matches Err(MarkusError::Download(m))
                    && m@ == "Invalid hf: format. Use hf:owner/repo:filename.gguf"@,
                Err(DownloadFault::UnknownModel) => r matches Err(MarkusError::Download(m))
                    && m@ == "Unknown model '"@ + input@ + "'. Use an alias, hf:repo:file, or a direct URL."@,
            },
    {
        let cs = chars_of(input);
        let n = cs.len();
        let http = chars_of("http://");
        let https = chars_of("https://");
        let hf = chars_of("hf:");
        if starts_with(cs.as_slice(), http.as_slice()) || starts_with(cs.as_slice(), https.as_slice()) {
            let after = match rfind_char(cs.as_slice(), '/') {
                Some(k) => k + 1,
                None => 0,
            };
            let last = &cs.as_slice()[after..n];
            assert(last@ =~= match last_index_of(cs@, '/') { Some(k) => cs@.skip(k + 1), None => cs@ });
            let end = match find_char(last, '?') {
                Some(q) => q,
                None => last.len(),
            };
            let name = &last[0..end];
            assert(name@ =~= url_filename(cs@));
            return Ok(DownloadSpec { url: input.to_owned(), filename: string_of(name) });
        }
        if starts_with(cs.as_slice(), hf.as_slice()) {
            proof {
                reveal_strlit("hf:");
            }
            let rest = &cs.as_slice()[3..n];
            assert(rest@ =~= cs@.skip(3));
            return match find_char(rest, ':') {
                Some(k) => {
                    let repo = &rest[0..k];
                    let file = &rest[k + 1..rest.len()];
                    assert(repo@ =~= rest@.take(k as int));
                    assert(file@ =~= rest@.skip(k + 1));
                    Ok(hf_download(repo, file))
                },
                None => Err(MarkusError::Download(String::from_str("Invalid hf: format. Use hf:owner/repo:filename.gguf"))),
            };
        }
        let aliases = model_aliases();
        let ghost table = alias_table();
        let mut i: usize = 0;
        assert(table.skip(0) =~= table);
        while i < aliases.len()
            invariant
                !("http://"@.is_prefix_of(input@) || "https://"@.is_prefix_of(input@)),
                !"hf:"@.is_prefix_of(input@),
                i <= aliases@.len(),
                aliases_view(aliases@) == table,
                table == alias_table(),
                cs@ == input@,
                find_alias(table, input@) == find_alias(table.skip(i as int), input@),
            decreases aliases@.len() - i,
        {
            let (name, repo, file) = aliases[i];
            let name_chars = chars_of(name);
            assert(table.skip(i as int).len() > 0);
            assert(table.skip(i as int)[0] == (name@, repo@, file@));
            assert(table.skip(i as int).drop_first() =~= table.skip(i + 1));
            if chars_equal(cs.as_slice(), name_chars.as_slice()) {
                let repo_chars = chars_of(repo);
                let file_chars = chars_of(file);
                return Ok(hf_download(repo_chars.as_slice(), file_chars.as_slice()));
            }
            i = i + 1;
        }
        assert(table.skip(aliases@.len() as int) =~= Seq::<(Seq<char>, Seq<char>, Seq<char>)>::empty());
        let mut m = String::from_str("Unknown model '");
        m.append(input);
        m.append("'. Use an alias, hf:repo:file, or a direct URL.");
        Err(MarkusError::Download(m))
    }
}

} // verus!
