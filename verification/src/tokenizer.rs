//! Tokenizer built from the GGUF vocabulary: greedy longest-match encoding
//! with GPT-2 space markers and byte fallback, and marker-aware decoding.

use std::collections::HashMap;

use vstd::prelude::*;

use crate::error::MarkusError;
use crate::gguf::GgufMeta;
use crate::meta::{array_strings, spec_lookup, strings_view, view_as_u32};
use crate::text::{chars_of, decimal, parse_hex_u8, spec_parse_hex_u8, string_of, with_decimal};

verus! {

broadcast use {vstd::std_specs::hash::group_hash_axioms, vstd::string::group_string_axioms};

/// GPT-2's marker for a preceding space (`Ġ`).
pub const GPT2_SPACE: char = '\u{120}';
/// SentencePiece's marker for a preceding space (`▁`).
pub const SP_SPACE: char = '\u{2581}';
/// GPT-2's marker for a newline (`Ċ`).
pub const GPT2_NEWLINE: char = '\u{10A}';
/// GPT-2's marker for a tab (`ĉ`).
pub const GPT2_TAB: char = '\u{109}';
/// Longest piece of input tried as one token.
pub const MAX_MATCH_CHARS: usize = 32;
/// Tokens up to this many characters are indexed for lookup.
pub const MAX_INDEXED_CHARS: usize = 64;

// ── Vocabulary lookup ─────────────────────────────────────────────────────────

/// The position of the last token equal to `s`.
pub open spec fn find_last(toks: Seq<Seq<char>>, s: Seq<char>) -> Option<int>
    decreases toks.len(),
{
    if toks.len() == 0 {
        None
    } else if toks.last() == s {
        Some(toks.len() - 1)
    } else {
        find_last(toks.drop_last(), s)
    }
}

/// The id a vocabulary lookup of `s` gives: its last position, as a `u32`.
pub open spec fn lookup(toks: Seq<Seq<char>>, s: Seq<char>) -> Option<u32> {
    match find_last(toks, s) {
        Some(m) => Some(m as u32),
        None => None,
    }
}

proof fn lemma_find_last(toks: Seq<Seq<char>>, s: Seq<char>)
    ensures
        match find_last(toks, s) {
            Some(m) => 0 <= m < toks.len() && toks[m] == s && forall|j: int| m < j < toks.len() ==> toks[j] != s,
            None => forall|j: int| 0 <= j < toks.len() ==> toks[j] != s,
        },
    decreases toks.len(),
{
    if toks.len() > 0 {
        lemma_find_last(toks.drop_last(), s);
        if toks.last() != s {
            assert forall|j: int| 0 <= j < toks.len() - 1 implies toks[j] == toks.drop_last()[j] by {}
        }
    }
}

/// Bucket of a token in the lookup index: its length and first character.
pub open spec fn bucket_key(s: Seq<char>) -> u64 {
    (s.len() * 0x11_0000 + (s[0] as u32) as int) as u64
}

pub open spec fn indexable(s: Seq<char>) -> bool {
    1 <= s.len() <= MAX_INDEXED_CHARS
}

pub open spec fn prefixed(prefix: Option<char>, body: Seq<char>) -> Seq<char> {
    match prefix {
        Some(c) => seq![c] + body,
        None => body,
    }
}

// ── Encoding ──────────────────────────────────────────────────────────────────

/// The id for the `len` characters at `i`: the piece itself, or (at the
/// start of the text or after a space) the piece with a GPT-2 space marker.
pub open spec fn try_piece(toks: Seq<Seq<char>>, cs: Seq<char>, i: int, len: int) -> Option<u32> {
    let piece = cs.subrange(i, i + len);
    match lookup(toks, piece) {
        Some(id) => Some(id),
        None => if i == 0 || cs[i - 1] == ' ' {
            lookup(toks, seq![GPT2_SPACE] + piece)
        } else {
            None
        },
    }
}

/// The longest piece at `i` of at most `len` characters that has an id.
pub open spec fn best_piece(toks: Seq<Seq<char>>, cs: Seq<char>, i: int, len: nat) -> Option<(nat, u32)>
    decreases len,
{
    if len == 0 {
        None
    } else {
        match try_piece(toks, cs, i, len as int) {
            Some(id) => Some((len, id)),
            None => best_piece(toks, cs, i, (len - 1) as nat),
        }
    }
}

pub open spec fn hex_upper_digit(d: int) -> char {
    if d < 10 { crate::text::digit_char(d as nat) } else if d == 10 { 'A' } else if d == 11 { 'B' }
    else if d == 12 { 'C' } else if d == 13 { 'D' } else if d == 14 { 'E' } else { 'F' }
}

/// `<0xHH>`: the byte token for the low byte of a character's code point.
pub open spec fn byte_token(c: char) -> Seq<char> {
    let b = (c as int) % 256;
    seq!['<', '0', 'x', hex_upper_digit(b / 16), hex_upper_digit(b % 16), '>']
}

/// For a character with no piece: its byte token, else `<unk>`, else nothing.
pub open spec fn fallback(toks: Seq<Seq<char>>, c: char) -> Seq<u32> {
    match lookup(toks, byte_token(c)) {
        Some(id) => seq![id],
        None => match lookup(toks, "<unk>"@) {
            Some(u) => seq![u],
            None => Seq::empty(),
        },
    }
}

pub open spec fn max_piece(n: int, i: int) -> int {
    if n - i < MAX_MATCH_CHARS { n - i } else { MAX_MATCH_CHARS as int }
}

/// Greedy longest-match tokenization of `cs` from position `i`.
pub open spec fn greedy(toks: Seq<Seq<char>>, cs: Seq<char>, i: int) -> Seq<u32>
    decreases cs.len() - i,
{
    if i < 0 || i >= cs.len() {
        Seq::empty()
    } else {
        match best_piece(toks, cs, i, max_piece(cs.len() as int, i) as nat) {
            Some((l, id)) => if 1 <= l && i + l <= cs.len() {
                seq![id] + greedy(toks, cs, i + l)
            } else {
                Seq::empty()
            },
            None => fallback(toks, cs[i]) + greedy(toks, cs, i + 1),
        }
    }
}

// ── Decoding ──────────────────────────────────────────────────────────────────

/// Space, newline and tab markers replaced by the characters they stand for.
pub open spec fn unmark(c: char) -> char {
    if c == GPT2_SPACE || c == SP_SPACE { ' ' } else if c == GPT2_NEWLINE { '\n' } else if c == GPT2_TAB { '\t' } else { c }
}

pub open spec fn unmark_all(t: Seq<char>) -> Seq<char> {
    Seq::new(t.len(), |i: int| unmark(t[i]))
}

/// `String::from_utf8_lossy` of one byte: the byte itself when ASCII, else U+FFFD.
pub open spec fn lossy_byte(b: u8) -> Seq<char> {
    if b < 0x80 { seq![b as char] } else { seq!['\u{FFFD}'] }
}

/// The byte a decoded token of the form `<0xHH>` stands for.
pub open spec fn byte_of_token(d: Seq<char>) -> Option<u8> {
    if d.len() >= 3 && d[0] == '<' && d[1] == '0' && d[2] == 'x' && d.len() >= 1 && d.last() == '>' {
        spec_parse_hex_u8(d.subrange(3, d.len() - 1))
    } else {
        None
    }
}

/// The text of one token: markers replaced; a byte token becomes its byte;
/// any other token written `<...>` is special and prints nothing.
pub open spec fn token_text(tok: Seq<char>) -> Seq<char> {
    let d = unmark_all(tok);
    match byte_of_token(d) {
        Some(b) => lossy_byte(b),
        None => if tok.len() >= 1 && tok[0] == '<' && tok.last() == '>' { Seq::empty() } else { d },
    }
}

/// The text of a sequence of valid ids, concatenated.
pub open spec fn decode_text(toks: Seq<Seq<char>>, ids: Seq<u32>) -> Seq<char>
    decreases ids.len(),
{
    if ids.len() == 0 {
        Seq::empty()
    } else {
        decode_text(toks, ids.drop_last()) + token_text(toks[ids.last() as int])
    }
}

pub open spec fn invalid_id_error(e: MarkusError, id: u32) -> bool {
    e matches MarkusError::Tokenizer(m) && m@ == "Invalid token id: "@ + decimal(id as nat)
}

// ── The tokenizer ─────────────────────────────────────────────────────────────

pub struct MarkusTokenizer {
    tokens: Vec<Vec<char>>,
    /// Token positions grouped by `bucket_key`, for tokens that are `indexable`.
    buckets: HashMap<u64, Vec<usize>>,
    bos_id: Option<u32>,
    eos_id: Option<u32>,
    /// Whether this is a BPE-style tokenizer (most modern models).
    is_bpe: bool,
}

pub open spec fn tokens_view(t: Seq<Vec<char>>) -> Seq<Seq<char>> {
    Seq::new(t.len(), |i: int| t[i]@)
}

/// Every indexable token is in the bucket of its key, and every bucket
/// entry is a token position.
pub open spec fn index_complete(toks: Seq<Seq<char>>, buckets: Map<u64, Vec<usize>>) -> bool {
    &&& forall|i: int| 0 <= i < toks.len() && #[trigger] indexable(toks[i]) ==>
            buckets.contains_key(bucket_key(toks[i])) && buckets[bucket_key(toks[i])]@.contains(i as usize)
    &&& forall|k: u64, j: int| buckets.contains_key(k) && 0 <= j < buckets[k]@.len() ==>
            (#[trigger] buckets[k]@[j]) < toks.len()
}

impl MarkusTokenizer {
    /// The vocabulary, by token id.
    pub closed spec fn vocab(&self) -> Seq<Seq<char>> {
        tokens_view(self.tokens@)
    }

    pub closed spec fn spec_bos_id(&self) -> Option<u32> {
        self.bos_id
    }

    pub closed spec fn spec_eos_id(&self) -> Option<u32> {
        self.eos_id
    }

    pub closed spec fn spec_is_bpe(&self) -> bool {
        self.is_bpe
    }

    #[verifier::type_invariant]
    closed spec fn well_formed(&self) -> bool {
        index_complete(tokens_view(self.tokens@), self.buckets@)
    }
}


fn hex_upper(d: u32) -> (c: char)
    requires
        d < 16,
    ensures
        c == hex_upper_digit(d as int),
{
    if d < 10 {
        if d == 0 { '0' } else if d == 1 { '1' } else if d == 2 { '2' } else if d == 3 { '3' }
        else if d == 4 { '4' } else if d == 5 { '5' } else if d == 6 { '6' } else if d == 7 { '7' }
        else if d == 8 { '8' } else { '9' }
    } else if d == 10 { 'A' } else if d == 11 { 'B' } else if d == 12 { 'C' } else if d == 13 { 'D' }
    else if d == 14 { 'E' } else { 'F' }
}

impl MarkusTokenizer {
    /// Whether token `idx` equals `prefix` followed by `body`.
    fn token_equals(&self, idx: usize, prefix: Option<char>, body: &[char]) -> (r: bool)
        requires
            idx < self.vocab().len(),
        ensures
            r == (self.vocab()[idx as int] == prefixed(prefix, body@)),
    {
        let tok = &self.tokens[idx];
        assert(tok@ == self.vocab()[idx as int]);
        let ghost want = prefixed(prefix, body@);
        let skip: usize = match prefix {
            Some(c) => {
                if tok.len() == 0 || tok[0] != c {
                    return false;
                }
                1
            },
            None => 0,
        };
        if tok.len() - skip != body.len() {
            return false;
        }
        let mut j: usize = 0;
        while j < body.len()
            invariant
                j <= body@.len(),
                tok@.len() == skip + body@.len(),
                tok@ == self.vocab()[idx as int],
                want == prefixed(prefix, body@),
                prefix is Some ==> skip == 1 && tok@[0] == prefix->Some_0,
                prefix is None ==> skip == 0,
                forall|q: int| 0 <= q < j ==> tok@[skip + q] == body@[q],
            decreases body@.len() - j,
        {
            if tok[skip + j] != body[j] {
                assert(tok@[skip + j] != want[skip + j]);
                return false;
            }
            j = j + 1;
        }
        assert(tok@ =~= want);
        true
    }

    /// The id of the token equal to `prefix` followed by `body`.
    fn find_token(&self, prefix: Option<char>, body: &[char]) -> (r: Option<u32>)
        requires
            indexable(prefixed(prefix, body@)),
        ensures
            r == lookup(self.vocab(), prefixed(prefix, body@)),
    {
        proof {
            use_type_invariant(self);
        }
        let ghost toks = self.vocab();
        let ghost s = prefixed(prefix, body@);
        let total = self.tokens.len();
        assert(toks.len() == total);
        proof {
            lemma_find_last(toks, s);
        }
        let (n, first) = match prefix {
            Some(c) => (body.len() + 1, c),
            None => (body.len(), body[0]),
        };
        assert(s.len() == n && s[0] == first);
        let key = (n as u64) * 0x11_0000 + (first as u32) as u64;
        assert(key == bucket_key(s));
        match self.buckets.get(&key) {
            None => {
                proof {
                    if let Some(m) = find_last(toks, s) {
                        assert(indexable(toks[m]));
                    }
                }
                None
            },
            Some(bucket) => {
                let mut best: Option<usize> = None;
                let mut j: usize = 0;
                while j < bucket.len()
                    invariant
                        j <= bucket@.len(),
                        self.buckets@.contains_key(key),
                        self.buckets@[key] == *bucket,
                        index_complete(toks, self.buckets@),
                        toks == self.vocab(),
                        toks.len() == total,
                        s == prefixed(prefix, body@),
                        best matches Some(m) ==> m < toks.len() && toks[m as int] == s
                            && forall|q: int| 0 <= q < j && toks[bucket@[q] as int] == s ==> bucket@[q] <= m,
                        best is None ==> forall|q: int| 0 <= q < j ==> toks[bucket@[q] as int] != s,
                    decreases bucket@.len() - j,
                {
                    let idx = bucket[j];
                    assert(idx < toks.len()) by {
                        assert(self.buckets@[key]@[j as int] == idx);
                    }
                    if self.token_equals(idx, prefix, body) {
                        match best {
                            Some(m) => {
                                if idx > m {
                                    best = Some(idx);
                                }
                            },
                            None => {
                                best = Some(idx);
                            },
                        }
                    }
                    j = j + 1;
                }
                proof {
                    if let Some(m) = find_last(toks, s) {
                        assert(indexable(toks[m]));
                        assert(bucket@.contains(m as usize));
                        let q = choose|q: int| 0 <= q < bucket@.len() && bucket@[q] == m as usize;
                        assert(toks[bucket@[q] as int] == s);
                    }
                }
                match best {
                    Some(m) => Some(m as u32),
                    None => None,
                }
            },
        }
    }
}


impl MarkusTokenizer {
    /// The ids for a character that no piece matched.
    fn fallback_ids(&self, c: char, out: &mut Vec<u32>)
        ensures
            final(out)@ == old(out)@ + fallback(self.vocab(), c),
    {
        let code = c as u32;
        let b = code & 0xFF;
        assert(b == (c as int) % 256) by {
            assert(code & 0xFF == code % 256) by (bit_vector);
        }
        let tok = [
            '<', '0', 'x', hex_upper(b / 16), hex_upper(b % 16), '>',
        ];
        let ghost want = byte_token(c);
        assert(tok@ =~= want);
        match self.find_token(None, tok.as_slice()) {
            Some(id) => {
                out.push(id);
                assert(out@ =~= old(out)@ + seq![id]);
            },
            None => {
                let unk = chars_of("<unk>");
                proof {
                    reveal_strlit("<unk>");
                }
                match self.find_token(None, unk.as_slice()) {
                    Some(u) => {
                        out.push(u);
                        assert(out@ =~= old(out)@ + seq![u]);
                    },
                    None => {
                        assert(out@ =~= old(out)@ + Seq::<u32>::empty());
                    },
                }
            },
        }
    }

    /// Greedy longest-match tokenization (simplified BPE).
    fn greedy_encode(&self, text: &str) -> (r: Vec<u32>)
        ensures
            r@ == greedy(self.vocab(), text@, 0),
    {
        let cs = chars_of(text);
        let n = cs.len();
        let ghost toks = self.vocab();
        let mut result: Vec<u32> = Vec::new();
        let mut i: usize = 0;
        assert(result@ + greedy(toks, cs@, 0) =~= greedy(toks, cs@, 0));
        while i < n
            invariant
                i <= n,
                n == cs@.len(),
                cs@ == text@,
                toks == self.vocab(),
                result@ + greedy(toks, cs@, i as int) == greedy(toks, cs@, 0),
            decreases n - i,
        {
            let max_len = if n - i < MAX_MATCH_CHARS { n - i } else { MAX_MATCH_CHARS };
            assert(max_len as int == max_piece(n as int, i as int));
            let mut len = max_len;
            let mut found: Option<u32> = None;
            loop
                invariant_except_break
                    len <= max_len,
                    found is None,
                    best_piece(toks, cs@, i as int, max_len as nat) == best_piece(toks, cs@, i as int, len as nat),
                invariant
                    i < n,
                    n == cs@.len(),
                    max_len <= MAX_MATCH_CHARS,
                    i + max_len <= n,
                    toks == self.vocab(),
                ensures
                    found matches Some(id) ==> 1 <= len <= max_len && best_piece(toks, cs@, i as int, max_len as nat) == Some((len as nat, id)),
                    found is None ==> best_piece(toks, cs@, i as int, max_len as nat) is None,
                decreases len,
            {
                if len == 0 {
                    break;
                }
                let piece = &cs.as_slice()[i..i + len];
                assert(piece@ == cs@.subrange(i as int, i + len));
                let mut id = self.find_token(None, piece);
                if id.is_none() && (i == 0 || cs[i - 1] == ' ') {
                    id = self.find_token(Some(GPT2_SPACE), piece);
                }
                assert(id == try_piece(toks, cs@, i as int, len as int));
                if id.is_some() {
                    found = id;
                    break;
                }
                len = len - 1;
            }
            match found {
                Some(id) => {
                    proof {
                        assert(greedy(toks, cs@, i as int) == seq![id] + greedy(toks, cs@, i + len));
                        assert(result@.push(id) + greedy(toks, cs@, i + len) =~= result@ + (seq![id] + greedy(toks, cs@, i + len)));
                    }
                    result.push(id);
                    i = i + len;
                },
                None => {
                    let ghost before = result@;
                    self.fallback_ids(cs[i], &mut result);
                    proof {
                        assert(greedy(toks, cs@, i as int) == fallback(toks, cs@[i as int]) + greedy(toks, cs@, i + 1));
                        assert(result@ + greedy(toks, cs@, i + 1) =~= before + (fallback(toks, cs@[i as int]) + greedy(toks, cs@, i + 1)));
                    }
                    i = i + 1;
                },
            }
        }
        result
    }

    /// Encodes a string into token ids: the BOS id when the vocabulary has
    /// one, then the greedy longest-match tokenization of the text.
    pub fn encode(&self, text: &str) -> (r: Result<Vec<u32>, MarkusError>)
        ensures
            r matches Ok(ids) && ids@ == match self.spec_bos_id() {
                Some(b) => seq![b] + greedy(self.vocab(), text@, 0),
                None => greedy(self.vocab(), text@, 0),
            },
    {
        let mut ids: Vec<u32> = Vec::new();
        if let Some(bos) = self.bos_id {
            ids.push(bos);
        }
        let mut encoded = self.greedy_encode(text);
        let ghost e = encoded@;
        ids.append(&mut encoded);
        proof {
            if self.bos_id is Some {
                assert(ids@ =~= seq![self.bos_id->Some_0] + e);
            } else {
                assert(ids@ =~= e);
            }
        }
        Ok(ids)
    }
}


/// A token that marks the vocabulary as BPE-style: it contains a GPT-2 space
/// marker or starts with a SentencePiece space marker.
pub open spec fn bpe_token(t: Seq<char>) -> bool {
    t.contains(GPT2_SPACE) || (t.len() >= 1 && t[0] == SP_SPACE)
}

fn is_bpe_token(t: &Vec<char>) -> (r: bool)
    ensures
        r == bpe_token(t@),
{
    if t.len() >= 1 && t[0] == SP_SPACE {
        return true;
    }
    let mut j: usize = 0;
    while j < t.len()
        invariant
            j <= t@.len(),
            forall|q: int| 0 <= q < j ==> t@[q] != GPT2_SPACE,
        decreases t@.len() - j,
    {
        if t[j] == GPT2_SPACE {
            assert(t@[j as int] == GPT2_SPACE);
            return true;
        }
        j = j + 1;
    }
    false
}

fn lossy_byte_chars(b: u8) -> (r: Vec<char>)
    ensures
        r@ == lossy_byte(b),
{
    let mut r: Vec<char> = Vec::new();
    if b < 0x80 {
        r.push(b as char);
    } else {
        r.push('\u{FFFD}');
    }
    assert(r@ =~= lossy_byte(b));
    r
}

impl MarkusTokenizer {
    /// Builds a tokenizer from the vocabulary and BOS/EOS ids in GGUF metadata.
    pub fn from_gguf_meta(meta: &GgufMeta) -> (r: Result<MarkusTokenizer, MarkusError>)
        ensures
            match r {
                Ok(t) => {
                    &&& t.vocab() == array_strings(meta@.kv, "tokenizer.ggml.tokens"@)
                    &&& t.vocab().len() > 0
                    &&& t.spec_bos_id() == view_as_u32(spec_lookup(meta@.kv, "tokenizer.ggml.bos_token_id"@))
                    &&& t.spec_eos_id() == view_as_u32(spec_lookup(meta@.kv, "tokenizer.ggml.eos_token_id"@))
                    &&& t.spec_is_bpe() == exists|i: int| 0 <= i < t.vocab().len() && bpe_token(#[trigger] t.vocab()[i])
                },
                Err(e) => {
                    &&& array_strings(meta@.kv, "tokenizer.ggml.tokens"@).len() == 0
                    &&& e matches MarkusError::Tokenizer(m) && m@ == "No vocabulary found in GGUF metadata"@
                },
            },
    {
        let strs = meta.token_list();
        if strs.len() == 0 {
            return Err(MarkusError::Tokenizer(String::from_str("No vocabulary found in GGUF metadata")));
        }
        let ghost want = strings_view(strs@);
        let mut tokens: Vec<Vec<char>> = Vec::new();
        let mut buckets: HashMap<u64, Vec<usize>> = HashMap::new();
        let mut is_bpe = false;
        let mut i: usize = 0;
        assert(tokens_view(tokens@) =~= want.take(0));
        while i < strs.len()
            invariant
                i <= strs@.len(),
                want == strings_view(strs@),
                tokens@.len() == i,
                tokens_view(tokens@) == want.take(i as int),
                index_complete(tokens_view(tokens@), buckets@),
                is_bpe == exists|q: int| 0 <= q < i && bpe_token(#[trigger] want[q]),
            decreases strs@.len() - i,
        {
            let chars = chars_of(strs[i].as_str());
            assert(chars@ == want[i as int]);
            let marked = is_bpe_token(&chars);
            let ghost old_toks = tokens_view(tokens@);
            let ghost old_buckets = buckets@;
            if chars.len() >= 1 && chars.len() <= MAX_INDEXED_CHARS {
                let key = (chars.len() as u64) * 0x11_0000 + (chars[0] as u32) as u64;
                assert(key == bucket_key(chars@));
                let mut bucket = match buckets.remove(&key) {
                    Some(b) => b,
                    None => Vec::new(),
                };
                let ghost old_bucket = bucket@;
                bucket.push(i);
                buckets.insert(key, bucket);
                proof {
                    assert(buckets@ == old_buckets.insert(key, bucket));
                    let new_toks = old_toks.push(chars@);
                    assert forall|t: int| 0 <= t < new_toks.len() && #[trigger] indexable(new_toks[t]) implies
                        buckets@.contains_key(bucket_key(new_toks[t])) && buckets@[bucket_key(new_toks[t])]@.contains(t as usize) by {
                        if t < i {
                            assert(new_toks[t] == old_toks[t]);
                            let k2 = bucket_key(old_toks[t]);
                            if k2 == key {
                                let w = choose|w: int| 0 <= w < old_bucket.len() && old_bucket[w] == t as usize;
                                assert(bucket@[w] == t as usize);
                            }
                        } else {
                            assert(bucket@[bucket@.len() - 1] == i);
                        }
                    }
                    assert forall|k: u64, j: int| buckets@.contains_key(k) && 0 <= j < buckets@[k]@.len() implies
                        (#[trigger] buckets@[k]@[j]) < new_toks.len() by {
                        if k == key {
                            if j < old_bucket.len() {
                                assert(old_buckets.contains_key(key));
                                assert(old_bucket[j] == old_buckets[key]@[j]);
                            }
                        } else {
                            assert(old_buckets.contains_key(k));
                        }
                    }
                }
            }
            let ghost cv = chars@;
            tokens.push(chars);
            is_bpe = is_bpe || marked;
            proof {
                assert(tokens_view(tokens@) =~= old_toks.push(cv));
                assert(want.take(i + 1) =~= want.take(i as int).push(want[i as int]));
                if !(chars_len_indexable(cv)) {
                    let new_toks = old_toks.push(cv);
                    assert forall|t: int| 0 <= t < new_toks.len() && #[trigger] indexable(new_toks[t]) implies
                        buckets@.contains_key(bucket_key(new_toks[t])) && buckets@[bucket_key(new_toks[t])]@.contains(t as usize) by {
                        assert(t < i);
                        assert(new_toks[t] == old_toks[t]);
                    }
                }
                if marked {
                    assert(bpe_token(want[i as int]));
                }
            }
            i = i + 1;
        }
        assert(want.take(strs@.len() as int) =~= want);
        let bos_id = meta.bos_token_id();
        let eos_id = meta.eos_token_id();
        let t = MarkusTokenizer { tokens, buckets, bos_id, eos_id, is_bpe };
        Ok(t)
    }
}

pub open spec fn chars_len_indexable(s: Seq<char>) -> bool {
    1 <= s.len() <= MAX_INDEXED_CHARS
}


impl MarkusTokenizer {
    /// The text of token `idx`, as characters.
    fn token_text_chars(&self, idx: usize) -> (r: Vec<char>)
        requires
            idx < self.vocab().len(),
        ensures
            r@ == token_text(self.vocab()[idx as int]),
    {
        let tok = &self.tokens[idx];
        assert(tok@ == self.vocab()[idx as int]);
        let mut d: Vec<char> = Vec::new();
        let mut j: usize = 0;
        while j < tok.len()
            invariant
                j <= tok@.len(),
                d@ =~= unmark_all(tok@.take(j as int)),
            decreases tok@.len() - j,
        {
            let c = tok[j];
            let m = if c == GPT2_SPACE || c == SP_SPACE {
                ' '
            } else if c == GPT2_NEWLINE {
                '\n'
            } else if c == GPT2_TAB {
                '\t'
            } else {
                c
            };
            d.push(m);
            j = j + 1;
        }
        assert(tok@.take(tok@.len() as int) =~= tok@);
        let n = d.len();
        if n >= 3 && d[0] == '<' && d[1] == '0' && d[2] == 'x' && n >= 1 && d[n - 1] == '>' {
            let digits = &d.as_slice()[3..n - 1];
            if let Some(b) = parse_hex_u8(digits) {
                return lossy_byte_chars(b);
            }
        }
        if tok.len() >= 1 && tok[0] == '<' && tok[tok.len() - 1] == '>' {
            return Vec::new();
        }
        d
    }

    /// Decodes a single token id to its text fragment.
    pub fn decode_token(&self, id: u32) -> (r: Result<String, MarkusError>)
        ensures
            match r {
                Ok(s) => id < self.vocab().len() && s@ == token_text(self.vocab()[id as int]),
                Err(e) => id >= self.vocab().len() && invalid_id_error(e, id),
            },
    {
        if (id as usize) < self.tokens.len() {
            let text = self.token_text_chars(id as usize);
            Ok(string_of(text.as_slice()))
        } else {
            Err(MarkusError::Tokenizer(with_decimal("Invalid token id: ", id as u64)))
        }
    }

    /// Decodes a sequence of ids: the texts concatenated, or the error for
    /// the first invalid id.
    pub fn decode(&self, ids: &[u32]) -> (r: Result<String, MarkusError>)
        ensures
            match r {
                Ok(s) => (forall|k: int| 0 <= k < ids@.len() ==> #[trigger] ids@[k] < self.vocab().len())
                    && s@ == decode_text(self.vocab(), ids@),
                Err(e) => exists|k: int| 0 <= k < ids@.len() && #[trigger] ids@[k] >= self.vocab().len()
                    && (forall|j: int| 0 <= j < k ==> #[trigger] ids@[j] < self.vocab().len())
                    && invalid_id_error(e, ids@[k]),
            },
    {
        let mut out: Vec<char> = Vec::new();
        let mut i: usize = 0;
        assert(ids@.take(0) =~= Seq::<u32>::empty());
        while i < ids.len()
            invariant
                i <= ids@.len(),
                forall|k: int| 0 <= k < i ==> #[trigger] ids@[k] < self.vocab().len(),
                out@ == decode_text(self.vocab(), ids@.take(i as int)),
            decreases ids@.len() - i,
        {
            let id = ids[i];
            if (id as usize) < self.tokens.len() {
                let text = self.token_text_chars(id as usize);
                let ghost before = out@;
                let mut t = text;
                out.append(&mut t);
                assert(ids@.take(i + 1).drop_last() =~= ids@.take(i as int));
                assert(out@ =~= decode_text(self.vocab(), ids@.take(i + 1)));
                i = i + 1;
            } else {
                return Err(MarkusError::Tokenizer(with_decimal("Invalid token id: ", id as u64)));
            }
        }
        assert(ids@.take(ids@.len() as int) =~= ids@);
        Ok(string_of(out.as_slice()))
    }

    /// Whether `id` is the end-of-sequence token.
    pub fn is_eos(&self, id: u32) -> (r: bool)
        ensures
            r == (self.spec_eos_id() == Some(id)),
    {
        match self.eos_id {
            Some(e) => id == e,
            None => false,
        }
    }

    pub fn vocab_size(&self) -> (r: usize)
        ensures
            r == self.vocab().len(),
    {
        self.tokens.len()
    }

    pub fn bos_id(&self) -> (r: Option<u32>)
        ensures
            r == self.spec_bos_id(),
    {
        self.bos_id
    }

    pub fn eos_id(&self) -> (r: Option<u32>)
        ensures
            r == self.spec_eos_id(),
    {
        self.eos_id
    }
}

} // verus!

verus! {

// ── Round trip ────────────────────────────────────────────────────────────────

/// A token that decodes to itself: it holds no space, newline or tab marker
/// and is not written `<...>`.
pub open spec fn plain_token(t: Seq<char>) -> bool {
    &&& forall|k: int| 0 <= k < t.len() ==> unmark(#[trigger] t[k]) == t[k]
    &&& !(t.len() >= 1 && t[0] == '<' && t.last() == '>')
}

pub open spec fn plain_vocab(toks: Seq<Seq<char>>) -> bool {
    forall|j: int| 0 <= j < toks.len() ==> plain_token(#[trigger] toks[j])
}

/// Every character of the text is a token of its own.
pub open spec fn covers(toks: Seq<Seq<char>>, text: Seq<char>) -> bool {
    forall|k: int| 0 <= k < text.len() ==> toks.contains(seq![#[trigger] text[k]])
}

proof fn lemma_decode_text_append(toks: Seq<Seq<char>>, a: Seq<u32>, b: Seq<u32>)
    ensures
        decode_text(toks, a + b) == decode_text(toks, a) + decode_text(toks, b),
    decreases b.len(),
{
    if b.len() == 0 {
        assert(a + b =~= a);
    } else {
        lemma_decode_text_append(toks, a, b.drop_last());
        assert((a + b).drop_last() =~= a + b.drop_last());
    }
}

proof fn lemma_plain_token_text(t: Seq<char>)
    requires
        plain_token(t),
    ensures
        token_text(t) == t,
{
    assert(unmark_all(t) =~= t);
}

/// A lookup that succeeds names a token equal to what was looked up.
proof fn lemma_lookup_found(toks: Seq<Seq<char>>, s: Seq<char>)
    requires
        toks.len() <= 0x1_0000_0000,
    ensures
        lookup(toks, s) matches Some(id) ==> id < toks.len() && toks[id as int] == s,
        toks.contains(s) ==> lookup(toks, s) is Some,
{
    lemma_find_last(toks, s);
    if toks.contains(s) {
        let j = choose|j: int| 0 <= j < toks.len() && toks[j] == s;
        assert(toks[j] == s);
    }
}

/// With a plain vocabulary holding the character at `i` as a token, the
/// longest piece is found and its token is exactly that piece.
proof fn lemma_best_piece_plain(toks: Seq<Seq<char>>, cs: Seq<char>, i: int, len: nat)
    requires
        toks.len() <= 0x1_0000_0000,
        plain_vocab(toks),
        0 <= i,
        1 <= len,
        i + len <= cs.len(),
        toks.contains(seq![cs[i]]),
    ensures
        best_piece(toks, cs, i, len) matches Some((l, id)) && 1 <= l <= len && id < toks.len()
            && toks[id as int] == cs.subrange(i, i + l),
        best_piece(toks, cs, i, len) is Some,
    decreases len,
{
    let piece = cs.subrange(i, i + len as int);
    lemma_lookup_found(toks, piece);
    let marked = seq![GPT2_SPACE] + piece;
    lemma_lookup_found(toks, marked);
    if let Some(id) = lookup(toks, marked) {
        assert(plain_token(toks[id as int]));
        assert(unmark(toks[id as int][0]) != toks[id as int][0]);
    }
    if lookup(toks, piece) is None {
        if len == 1 {
            assert(piece =~= seq![cs[i]]);
        } else {
            lemma_best_piece_plain(toks, cs, i, (len - 1) as nat);
        }
    }
}

/// Greedy encoding from `i` decodes back to the rest of the text.
proof fn lemma_greedy_decodes(toks: Seq<Seq<char>>, cs: Seq<char>, i: int)
    requires
        toks.len() <= 0x1_0000_0000,
        plain_vocab(toks),
        covers(toks, cs),
        0 <= i <= cs.len(),
    ensures
        decode_text(toks, greedy(toks, cs, i)) == cs.skip(i),
        forall|k: int| 0 <= k < greedy(toks, cs, i).len() ==> #[trigger] greedy(toks, cs, i)[k] < toks.len(),
    decreases cs.len() - i,
{
    if i == cs.len() {
        assert(cs.skip(i) =~= Seq::<char>::empty());
    } else {
        let n = max_piece(cs.len() as int, i) as nat;
        assert(toks.contains(seq![cs[i]]));
        lemma_best_piece_plain(toks, cs, i, n);
        let (l, id) = best_piece(toks, cs, i, n)->Some_0;
        lemma_greedy_decodes(toks, cs, i + l);
        let rest = greedy(toks, cs, i + l);
        assert(greedy(toks, cs, i) == seq![id] + rest);
        lemma_decode_text_append(toks, seq![id], rest);
        assert(decode_text(toks, seq![id]) == token_text(toks[id as int])) by {
            assert(seq![id].drop_last() =~= Seq::<u32>::empty());
            assert(decode_text(toks, Seq::<u32>::empty()) == Seq::<char>::empty());
            assert(seq![id].last() == id);
            assert(Seq::<char>::empty() + token_text(toks[id as int]) =~= token_text(toks[id as int]));
        }
        lemma_plain_token_text(toks[id as int]);
        assert(cs.skip(i) =~= cs.subrange(i, i + l) + cs.skip(i + l));
        assert forall|k: int| 0 <= k < greedy(toks, cs, i).len() implies #[trigger] greedy(toks, cs, i)[k] < toks.len() by {
            if k > 0 {
                assert(greedy(toks, cs, i)[k] == rest[k - 1]);
            }
        }
    }
}

/// Decoding gives back what encoding took in: when every token of the
/// vocabulary decodes to itself and every character of the text is a token
/// of its own, the ids that `encode` returns after the BOS id are all valid
/// and `decode` turns them back into the text. Ids are `u32`s, so the
/// vocabulary is taken to have at most 2^32 tokens (a machine limit).
pub proof fn law_decode_inverts_encode(t: &MarkusTokenizer, text: Seq<char>)
    requires
        t.vocab().len() <= 0x1_0000_0000,
        plain_vocab(t.vocab()),
        covers(t.vocab(), text),
    ensures
        forall|k: int| 0 <= k < greedy(t.vocab(), text, 0).len() ==> #[trigger] greedy(t.vocab(), text, 0)[k] < t.vocab().len(),
        decode_text(t.vocab(), greedy(t.vocab(), text, 0)) == text,
{
    lemma_greedy_decodes(t.vocab(), text, 0);
    assert(text.skip(0) =~= text);
}

} // verus!

verus! {

/// A vocabulary lookup gives a position of the vocabulary.
proof fn lemma_lookup_below(toks: Seq<Seq<char>>, s: Seq<char>)
    ensures
        lookup(toks, s) matches Some(id) ==> id < toks.len(),
{
    lemma_find_last(toks, s);
    if let Some(m) = find_last(toks, s) {
        if m < 0x1_0000_0000 {
            assert(m as u32 == m);
        }
    }
}

proof fn lemma_best_piece_below(toks: Seq<Seq<char>>, cs: Seq<char>, i: int, len: nat)
    ensures
        best_piece(toks, cs, i, len) matches Some((l, id)) ==> 1 <= l <= len && id < toks.len(),
    decreases len,
{
    if len > 0 {
        let piece = cs.subrange(i, i + len);
        lemma_lookup_below(toks, piece);
        lemma_lookup_below(toks, seq![GPT2_SPACE] + piece);
        lemma_best_piece_below(toks, cs, i, (len - 1) as nat);
    }
}

proof fn lemma_greedy_bounded(toks: Seq<Seq<char>>, cs: Seq<char>, i: int)
    requires
        0 <= i <= cs.len(),
    ensures
        greedy(toks, cs, i).len() <= cs.len() - i,
        forall|k: int| 0 <= k < greedy(toks, cs, i).len() ==> #[trigger] greedy(toks, cs, i)[k] < toks.len(),
    decreases cs.len() - i,
{
    if i < cs.len() {
        let n = max_piece(cs.len() as int, i) as nat;
        lemma_best_piece_below(toks, cs, i, n);
        match best_piece(toks, cs, i, n) {
            Some((l, id)) => {
                if 1 <= l && i + l <= cs.len() {
                    lemma_greedy_bounded(toks, cs, i + l);
                    let rest = greedy(toks, cs, i + l);
                    assert forall|k: int| 0 <= k < greedy(toks, cs, i).len() implies #[trigger] greedy(toks, cs, i)[k] < toks.len() by {
                        if k > 0 {
                            assert(greedy(toks, cs, i)[k] == rest[k - 1]);
                        }
                    }
                }
            },
            None => {
                lemma_greedy_bounded(toks, cs, i + 1);
                let f = fallback(toks, cs[i]);
                let rest = greedy(toks, cs, i + 1);
                lemma_lookup_below(toks, byte_token(cs[i]));
                lemma_lookup_below(toks, "<unk>"@);
                assert(f.len() <= 1);
                assert forall|k: int| 0 <= k < greedy(toks, cs, i).len() implies #[trigger] greedy(toks, cs, i)[k] < toks.len() by {
                    if k < f.len() {
                        assert(greedy(toks, cs, i)[k] == f[k]);
                    } else {
                        assert(greedy(toks, cs, i)[k] == rest[k - f.len()]);
                    }
                }
            },
        }
    }
}

/// Encoding gives at most one id per character of the text, and every id is
/// a position of the vocabulary (below `vocab_size`).
pub proof fn law_encode_ids_bounded(t: &MarkusTokenizer, text: Seq<char>)
    ensures
        greedy(t.vocab(), text, 0).len() <= text.len(),
        forall|k: int| 0 <= k < greedy(t.vocab(), text, 0).len() ==> #[trigger] greedy(t.vocab(), text, 0)[k] < t.vocab().len(),
{
    lemma_greedy_bounded(t.vocab(), text, 0);
}

} // verus!

verus! {

/// The GPT-2 space marker is tried at the start of the text and after a
/// space: when the rest of the text from such a position (at most 32
/// characters) is not a token by itself but is one with `Ġ` in front, that
/// one token encodes all of it. In particular, for a vocabulary whose only
/// token is `Ġ` + `t`, encoding `t` gives the single id 0 (after the BOS id,
/// when there is one).
pub proof fn law_space_marker_tried(t: &MarkusTokenizer, text: Seq<char>, i: int)
    requires
        0 <= i < text.len(),
        text.len() - i <= 32,
        i == 0 || text[i - 1] == ' ',
        !t.vocab().contains(text.skip(i)),
        t.vocab().contains(seq!['\u{120}'] + text.skip(i)),
        t.vocab().len() <= 0x1_0000_0000,
    ensures
        greedy(t.vocab(), text, i).len() == 1,
        greedy(t.vocab(), text, i)[0] < t.vocab().len(),
        t.vocab()[greedy(t.vocab(), text, i)[0] as int] == seq!['\u{120}'] + text.skip(i),
{
    let toks = t.vocab();
    let n = (text.len() - i) as nat;
    assert(max_piece(text.len() as int, i) == n);
    let piece = text.subrange(i, i + n);
    assert(piece =~= text.skip(i));
    lemma_find_last(toks, piece);
    if find_last(toks, piece) is Some {
        let m = find_last(toks, piece)->Some_0;
        assert(toks[m] == piece);
    }
    assert(lookup(toks, piece) is None);
    let marked = seq![GPT2_SPACE] + piece;
    assert(marked =~= seq!['\u{120}'] + text.skip(i));
    lemma_find_last(toks, marked);
    let j = choose|j: int| 0 <= j < toks.len() && toks[j] == marked;
    let m = find_last(toks, marked)->Some_0;
    assert(m as u32 == m);
    assert(try_piece(toks, text, i, n as int) == Some(m as u32));
    assert(best_piece(toks, text, i, n) == Some((n, m as u32)));
    assert(greedy(toks, text, i + n) =~= Seq::<u32>::empty());
    assert(greedy(toks, text, i) =~= seq![m as u32]);
}

/// Encoding with a vocabulary whose only token is `Ġ` + `text` gives that
/// token for the whole text.
pub proof fn law_marker_only_vocabulary(t: &MarkusTokenizer, text: Seq<char>)
    requires
        1 <= text.len() <= 32,
        t.vocab() == seq![seq!['\u{120}'] + text],
    ensures
        greedy(t.vocab(), text, 0) == seq![0u32],
{
    assert(text.skip(0) =~= text);
    assert(t.vocab()[0] == seq!['\u{120}'] + text);
    if t.vocab().contains(text) {
        assert((seq!['\u{120}'] + text).len() == text.len() + 1);
    }
    law_space_marker_tried(t, text, 0);
    assert(greedy(t.vocab(), text, 0) =~= seq![0u32]);
}

} // verus!

verus! {

/// No vocabulary token equals `s` when every token starts with `Ġ` and `s` does not.
proof fn lemma_no_lookup_without_marker(toks: Seq<Seq<char>>, s: Seq<char>)
    requires
        forall|k: int| 0 <= k < toks.len() ==> (#[trigger] toks[k]).len() > 0 && toks[k][0] == '\u{120}',
        s.len() == 0 || s[0] != '\u{120}',
    ensures
        lookup(toks, s) is None,
{
    lemma_find_last(toks, s);
    if let Some(m) = find_last(toks, s) {
        assert(toks[m] == s);
        assert(toks[m][0] == '\u{120}');
    }
}

proof fn lemma_no_piece_mid_word(toks: Seq<Seq<char>>, cs: Seq<char>, i: int, len: nat)
    requires
        0 < i < cs.len(),
        i + len <= cs.len(),
        cs[i - 1] != ' ',
        cs[i] != '\u{120}',
        forall|k: int| 0 <= k < toks.len() ==> (#[trigger] toks[k]).len() > 0 && toks[k][0] == '\u{120}',
    ensures
        best_piece(toks, cs, i, len) is None,
    decreases len,
{
    if len > 0 {
        let piece = cs.subrange(i, i + len);
        assert(piece[0] == cs[i]);
        lemma_no_lookup_without_marker(toks, piece);
        lemma_no_piece_mid_word(toks, cs, i, (len - 1) as nat);
    }
}

/// The GPT-2 space marker is not tried inside a word: with a vocabulary in
/// which every token starts with `Ġ`, the part of a text that continues a
/// word (no spaces and no `Ġ` from the character before it on) encodes to
/// nothing, since no plain piece, byte token or `<unk>` exists there.
pub proof fn law_space_marker_not_tried_mid_word(t: &MarkusTokenizer, text: Seq<char>, i: int)
    requires
        0 < i <= text.len(),
        forall|k: int| i - 1 <= k < text.len() ==> #[trigger] text[k] != ' ' && text[k] != '\u{120}',
        forall|k: int| 0 <= k < t.vocab().len() ==> (#[trigger] t.vocab()[k]).len() > 0 && t.vocab()[k][0] == '\u{120}',
    ensures
        greedy(t.vocab(), text, i) == Seq::<u32>::empty(),
    decreases text.len() - i,
{
    let toks = t.vocab();
    if i < text.len() {
        assert(text[i - 1] != ' ' && text[i] != '\u{120}');
        let n = max_piece(text.len() as int, i) as nat;
        lemma_no_piece_mid_word(toks, text, i, n);
        lemma_no_lookup_without_marker(toks, byte_token(text[i]));
        reveal_strlit("<unk>");
        assert("<unk>"@[0] == '<');
        lemma_no_lookup_without_marker(toks, "<unk>"@);
        assert(fallback(toks, text[i]) =~= Seq::<u32>::empty());
        law_space_marker_not_tried_mid_word(t, text, i + 1);
        assert(greedy(toks, text, i) =~= Seq::<u32>::empty());
    }
}

} // verus!
