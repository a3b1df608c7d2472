//! What the OpenAI-compatible server computes itself: completion ids and the
//! conversation a plain-prompt completion sends.

use vstd::prelude::*;

use crate::pipeline::{messages_view, ChatMessage};
use crate::text::chars_of;

verus! {

broadcast use vstd::string::group_string_axioms;

pub open spec fn is_lower_hex(c: char) -> bool {
    ('0' <= c <= '9') || ('a' <= c <= 'f')
}

/// The hyphenated lowercase text of a UUID: 36 characters, hyphens at
/// positions 8, 13, 18 and 23, lowercase hex digits elsewhere.
pub open spec fn hyphenated_uuid(s: Seq<char>) -> bool {
    &&& s.len() == 36
    &&& forall|i: int| 0 <= i < 36 ==> if i == 8 || i == 13 || i == 18 || i == 23 {
        s[i] == '-'
    } else {
        is_lower_hex(#[trigger] s[i])
    }
}

/// uuid's `Uuid::new_v4` formatted with `to_string`: a random version-4 UUID
/// in its hyphenated lowercase form. Which UUID comes out is not stated.
#[verifier::external_body]
fn new_uuid_text() -> (r: String)
    ensures
        hyphenated_uuid(r@),
{
    uuid::Uuid::new_v4().to_string()
}

/// A completion id: `chatcmpl-` and the first 16 characters of the UUID
/// with its hyphens removed.
pub open spec fn completion_id(uuid: Seq<char>) -> Seq<char> {
    "chatcmpl-"@ + uuid.filter(|c: char| c != '-').take(16)
}

/// The completion id made from a UUID's text; the text must hold at least
/// 16 characters besides hyphens, all of them ASCII.
pub fn completion_id_from(uuid: &str) -> (r: String)
    requires
        uuid@.filter(|c: char| c != '-').len() >= 16,
        forall|i: int| 0 <= i < uuid@.len() ==> (#[trigger] uuid@[i]) as u32 <= 0x7f,
    ensures
        r@ == completion_id(uuid@),
{
    let cs = chars_of(uuid);
    let ghost keep = |c: char| c != '-';
    let mut id = String::from_str("chatcmpl-");
    let mut kept: usize = 0;
    let mut i: usize = 0;
    assert(cs@.take(0).filter(keep) =~= Seq::<char>::empty()) by {
        reveal(Seq::filter);
    }
    while i < cs.len() && kept < 16
        invariant
            i <= cs@.len(),
            cs@ == uuid@,
            keep == (|c: char| c != '-'),
            kept == cs@.take(i as int).filter(keep).len(),
            kept <= 16,
            id@ == "chatcmpl-"@ + cs@.take(i as int).filter(keep),
        decreases cs@.len() - i,
    {
        assert(cs@.take(i + 1).drop_last() =~= cs@.take(i as int));
        assert(cs@.take(i + 1).filter(keep) == (if keep(cs@[i as int]) {
            cs@.take(i as int).filter(keep).push(cs@[i as int])
        } else {
            cs@.take(i as int).filter(keep)
        })) by {
            reveal(Seq::filter);
        }
        let c = cs[i];
        if c != '-' {
            let one = [c];
            let piece = crate::text::string_of(&one);
            assert(piece@ =~= seq![c]);
            id.append(piece.as_str());
            kept = kept + 1;
        }
        i = i + 1;
    }
    proof {
        let f = uuid@.filter(keep);
        if kept < 16 {
            assert(cs@.take(i as int) =~= cs@);
        }
        assert(kept == 16);
        // the kept characters so far are a prefix of the whole filtered text
        assert(uuid@ =~= cs@.take(i as int) + cs@.skip(i as int));
        Seq::<char>::filter_distributes_over_add(cs@.take(i as int), cs@.skip(i as int), keep);
        assert((cs@.take(i as int).filter(keep) + cs@.skip(i as int).filter(keep)).take(16)
            =~= cs@.take(i as int).filter(keep));
    }
    id
}

/// A fresh completion id, made from a random UUID. Which id comes out is not
/// stated beyond its form.
pub fn gen_id() -> (r: String)
    ensures
        exists|u: Seq<char>| hyphenated_uuid(u) && r@ == completion_id(u),
{
    let u = new_uuid_text();
    proof {
        lemma_uuid_prefix_digits(u@);
    }
    completion_id_from(u.as_str())
}

proof fn lemma_uuid_prefix_digits(u: Seq<char>)
    requires
        hyphenated_uuid(u),
    ensures
        u.filter(|c: char| c != '-').len() >= 16,
        forall|i: int| 0 <= i < u.len() ==> (#[trigger] u[i]) as u32 <= 0x7f,
{
    let keep = |c: char| c != '-';
    assert forall|i: int| 0 <= i < u.len() implies (#[trigger] u[i]) as u32 <= 0x7f by {
        if !(i == 8 || i == 13 || i == 18 || i == 23) {
            assert(is_lower_hex(u[i]));
        }
    }
    lemma_filter_count(u, 36);
    assert(u.take(36) =~= u);
}

/// The number of hyphens among the first `k` characters of a hyphenated UUID.
pub open spec fn hyphens_before(k: int) -> int {
    (if k > 8 { 1int } else { 0 }) + (if k > 13 { 1int } else { 0 }) + (if k > 18 { 1int } else { 0 })
        + (if k > 23 { 1int } else { 0 })
}

proof fn lemma_filter_count(u: Seq<char>, k: int)
    requires
        hyphenated_uuid(u),
        0 <= k <= 36,
    ensures
        u.take(k).filter(|c: char| c != '-').len() == k - hyphens_before(k),
    decreases k,
{
    let keep = |c: char| c != '-';
    reveal(Seq::filter);
    if k > 0 {
        lemma_filter_count(u, k - 1);
        assert(u.take(k).drop_last() =~= u.take(k - 1));
        let i = k - 1;
        if !(i == 8 || i == 13 || i == 18 || i == 23) {
            assert(is_lower_hex(u[i]));
        }
    } else {
        assert(u.take(0) =~= Seq::<char>::empty());
    }
}

/// The conversation a plain-prompt completion sends: the prompt as the
/// user's one message.
pub fn prompt_messages(prompt: String) -> (r: Vec<ChatMessage>)
    ensures
        messages_view(r@) == seq![("user"@, prompt@)],
{
    let r = vec![ChatMessage { role: String::from_str("user"), content: prompt }];
    assert(messages_view(r@) =~= seq![("user"@, prompt@)]);
    r
}

} // verus!
