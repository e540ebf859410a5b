//! The answer to messages that link to short-video sites.

use crate::text::chars_of;
use rand::seq::SliceRandom;
use rand::SeedableRng;
use vstd::prelude::*;
use vstd::string::*;

verus! {

/// `rand_chacha::ChaCha12Rng`, a generator of random numbers. Trusted as an
/// opaque value: it is only handed on to rand.
#[verifier::external_type_specification]
#[verifier::external_body]
pub struct ExChaCha12Rng(rand_chacha::ChaCha12Rng);

/// Whether `needle` stands in `text` at position `at`.
pub open spec fn stands_at(text: Seq<char>, needle: Seq<char>, at: int) -> bool {
    0 <= at && at + needle.len() <= text.len() && text.subrange(at, at + needle.len()) == needle
}

/// Whether `needle` occurs in `text`.
pub open spec fn mentions(text: Seq<char>, needle: Seq<char>) -> bool {
    exists|at: int| stands_at(text, needle, at)
}

/// What is said to a message with the text `content`, given the refusal
/// that was drawn: a fixed line for a link to Xiaohongshu; for a link to
/// TikTok or Douyin the drawn refusal, or the stock one where none was
/// drawn; nothing for any other message.
pub open spec fn reply_text(content: Seq<char>, drawn: Option<Seq<char>>) -> Option<Seq<char>> {
    if mentions(content, "xhslink.com"@) {
        Some("# 小紅書仔閉嘴"@)
    } else if mentions(content, "tiktok.com"@) || mentions(content, "douyin.com"@) {
        Some(
            "# "@ + match drawn {
                Some(refusal) => refusal,
                None => "抖音仔閉嘴"@,
            },
        )
    } else {
        None
    }
}

/// The text of a string that may be missing.
pub open spec fn text_of(text: Option<String>) -> Option<Seq<char>> {
    match text {
        Some(text) => Some(text@),
        None => None,
    }
}

/// Makes a generator with `rand::SeedableRng::from_entropy`, seeded by the
/// operating system. Trusted: nothing is claimed of it. The call panics
/// where the system gives no entropy.
#[verifier::external_body]
fn fresh_generator() -> rand_chacha::ChaCha12Rng {
    rand_chacha::ChaCha12Rng::from_entropy()
}

/// Draws one of `messages` with `rand::seq::SliceRandom::choose` and hands
/// back a copy of it. Trusted: nothing is drawn from an empty list, and what
/// is drawn from another is one of its messages; which one is left open.
#[verifier::external_body]
fn draw(messages: &Vec<String>, generator: &mut rand_chacha::ChaCha12Rng) -> (drawn: Option<
    String,
>)
    ensures
        drawn is None <==> messages@.len() == 0,
        drawn matches Some(text) ==> exists|i: int|
            0 <= i < messages@.len() && (#[trigger] messages@[i])@ == text@,
{
    messages.choose(generator).cloned()
}

/// Whether `needle` occurs in `text`.
pub fn contains_text(text: &Vec<char>, needle: &str) -> (found: bool)
    ensures
        found == mentions(text@, needle@),
{
    let wanted = chars_of(needle);
    if wanted.len() > text.len() {
        assert forall|at: int| !stands_at(text@, needle@, at) by {}
        return false;
    }
    let last: usize = text.len() - wanted.len();
    let mut at: usize = 0;
    while at <= last
        invariant
            wanted@ == needle@,
            last == text.len() - wanted.len(),
            at <= last + 1,
            forall|k: int| 0 <= k < at ==> !stands_at(text@, needle@, k),
        decreases last + 1 - at,
    {
        let mut i: usize = 0;
        while i < wanted.len() && text[at + i] == wanted[i]
            invariant
                wanted@ == needle@,
                at + wanted.len() <= text.len(),
                i <= wanted.len(),
                forall|j: int| 0 <= j < i ==> text@[at + j] == wanted@[j],
            decreases wanted.len() - i,
        {
            i += 1;
        }
        if i == wanted.len() {
            assert(text@.subrange(at as int, at + wanted.len()) =~= needle@);
            assert(stands_at(text@, needle@, at as int));
            return true;
        }
        assert(text@.subrange(at as int, at + wanted.len())[i as int] != needle@[i as int]);
        at += 1;
    }
    assert forall|k: int| !stands_at(text@, needle@, k) by {}
    false
}

/// What is said to a message with the text `content`, given the refusal
/// that was drawn.
pub fn reply_to(content: &str, drawn: Option<String>) -> (reply: Option<String>)
    ensures
        text_of(reply) == reply_text(content@, text_of(drawn)),
{
    let chars = chars_of(content);
    if contains_text(&chars, "xhslink.com") {
        return Some(String::from_str("# 小紅書仔閉嘴"));
    }
    if contains_text(&chars, "tiktok.com") || contains_text(&chars, "douyin.com") {
        let mut text = String::from_str("# ");
        match drawn {
            Some(refusal) => {
                text.append(refusal.as_str());
            },
            None => {
                text.append("抖音仔閉嘴");
            },
        }
        return Some(text);
    }
    None
}

/// What is said to a message with the text `content`: for a link to TikTok
/// or Douyin, one of `messages` drawn at random.
pub fn tiktok_refuse(content: &str, messages: &Vec<String>) -> (reply: Option<String>)
    ensures
        exists|drawn: Option<Seq<char>>|
            {
                &&& drawn is None <==> messages@.len() == 0
                &&& drawn matches Some(text) ==> exists|i: int|
                    0 <= i < messages@.len() && (#[trigger] messages@[i])@ == text
                &&& #[trigger] reply_text(content@, drawn) == text_of(reply)
            },
{
    let mut generator = fresh_generator();
    let drawn = draw(messages, &mut generator);
    let ghost seen = text_of(drawn);
    let reply = reply_to(content, drawn);
    assert(reply_text(content@, seen) == text_of(reply));
    reply
}

} // verus!
