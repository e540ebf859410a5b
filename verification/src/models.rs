//! The kinds of language-service models, told apart by the model's name,
//! and the list of models by kind.

use crate::sequences::lemma_filter_push;
use crate::text::{chars_of, drop_spaces, trimmed_end};
use vstd::prelude::*;
use vstd::seq_lib::{to_multiset_build, to_multiset_remove};
use vstd::string::*;

verus! {

/// A kind of model.
#[derive(Clone, Copy, Debug, PartialEq, Eq, Structural)]
pub enum ModelKind {
    Language,
    Image,
    Speech,
    Voice,
    Embedding,
    Other,
}

impl ModelKind {
    /// The kind's label.
    pub open spec fn label_text(self) -> Seq<char> {
        match self {
            ModelKind::Language => "自然語言模型"@,
            ModelKind::Image => "圖片生成模型"@,
            ModelKind::Speech => "語音識別模型"@,
            ModelKind::Voice => "文字轉語音模型"@,
            ModelKind::Embedding => "文本嵌入模型"@,
            ModelKind::Other => "其他模型"@,
        }
    }

    /// The kind's label.
    pub fn label(&self) -> (label: &'static str)
        ensures
            label@ == self.label_text(),
    {
        match self {
            ModelKind::Language => "自然語言模型",
            ModelKind::Image => "圖片生成模型",
            ModelKind::Speech => "語音識別模型",
            ModelKind::Voice => "文字轉語音模型",
            ModelKind::Embedding => "文本嵌入模型",
            ModelKind::Other => "其他模型",
        }
    }

    /// The kind with the number `n` in the order of the list, from 0; the
    /// last kind for any number above 4.
    pub open spec fn at(n: int) -> ModelKind {
        if n == 0 {
            ModelKind::Language
        } else if n == 1 {
            ModelKind::Image
        } else if n == 2 {
            ModelKind::Speech
        } else if n == 3 {
            ModelKind::Voice
        } else if n == 4 {
            ModelKind::Embedding
        } else {
            ModelKind::Other
        }
    }

    /// The kind with the number `n` in the order of the list, from 0.
    pub fn from_position(n: usize) -> (kind: ModelKind)
        ensures
            kind == ModelKind::at(n as int),
    {
        match n {
            0 => ModelKind::Language,
            1 => ModelKind::Image,
            2 => ModelKind::Speech,
            3 => ModelKind::Voice,
            4 => ModelKind::Embedding,
            _ => ModelKind::Other,
        }
    }
}

/// The kind of model that `model` names: decided by how the name begins.
pub open spec fn model_kind(model: Seq<char>) -> ModelKind {
    if "gpt"@.is_prefix_of(model) || "chatgpt"@.is_prefix_of(model) || "text-davinci"@.is_prefix_of(
        model,
    ) {
        ModelKind::Language
    } else if "dall-e"@.is_prefix_of(model) {
        ModelKind::Image
    } else if "whisper"@.is_prefix_of(model) {
        ModelKind::Speech
    } else if "tts"@.is_prefix_of(model) {
        ModelKind::Voice
    } else if "text-embedding"@.is_prefix_of(model) {
        ModelKind::Embedding
    } else {
        ModelKind::Other
    }
}

/// The label of the kind of model that `model` names.
pub open spec fn model_type(model: Seq<char>) -> Seq<char> {
    model_kind(model).label_text()
}

/// Whether `chars` begins with `prefix`.
pub fn starts_with(chars: &Vec<char>, prefix: &str) -> (begins: bool)
    ensures
        begins == prefix@.is_prefix_of(chars@),
{
    let wanted = chars_of(prefix);
    if wanted.len() > chars.len() {
        return false;
    }
    let mut i: usize = 0;
    while i < wanted.len()
        invariant
            i <= wanted.len() <= chars.len(),
            wanted@ == prefix@,
            forall|j: int| 0 <= j < i ==> wanted@[j] == chars@[j],
        decreases wanted.len() - i,
    {
        if wanted[i] != chars[i] {
            assert(chars@.subrange(0, wanted.len() as int)[i as int] != wanted@[i as int]);
            return false;
        }
        i += 1;
    }
    assert(wanted@ =~= chars@.subrange(0, wanted.len() as int));
    true
}

/// The kind of model that `model` names.
pub fn kind_of(model: &str) -> (kind: ModelKind)
    ensures
        kind == model_kind(model@),
{
    let chars = chars_of(model);
    if starts_with(&chars, "gpt") || starts_with(&chars, "chatgpt") || starts_with(
        &chars,
        "text-davinci",
    ) {
        ModelKind::Language
    } else if starts_with(&chars, "dall-e") {
        ModelKind::Image
    } else if starts_with(&chars, "whisper") {
        ModelKind::Speech
    } else if starts_with(&chars, "tts") {
        ModelKind::Voice
    } else if starts_with(&chars, "text-embedding") {
        ModelKind::Embedding
    } else {
        ModelKind::Other
    }
}

/// The label of the kind of model that `model` names.
pub fn get_model_type(model: &str) -> (label: &'static str)
    ensures
        label@ == model_type(model@),
{
    kind_of(model).label()
}

/// Whether the name `a` comes no later than `b` in the order of a
/// dictionary, character by character.
pub open spec fn name_le(a: Seq<char>, b: Seq<char>) -> bool
    decreases a.len(),
{
    if a.len() == 0 {
        true
    } else if b.len() == 0 {
        false
    } else if a[0] != b[0] {
        a[0] < b[0]
    } else {
        name_le(a.drop_first(), b.drop_first())
    }
}

/// Whether `names` stand in the order of a dictionary.
pub open spec fn in_order(names: Seq<Seq<char>>) -> bool {
    forall|i: int, j: int| 0 <= i < j < names.len() ==> name_le(names[i], names[j])
}

/// The names that the strings of `list` hold.
pub open spec fn names_of(list: Seq<String>) -> Seq<Seq<char>> {
    Seq::new(list.len(), |i: int| list[i]@)
}

/// Of two names, one comes no later than the other.
pub proof fn lemma_name_le_total(a: Seq<char>, b: Seq<char>)
    ensures
        name_le(a, b) || name_le(b, a),
    decreases a.len(),
{
    if a.len() > 0 && b.len() > 0 && a[0] == b[0] {
        lemma_name_le_total(a.drop_first(), b.drop_first());
    }
}

/// The order of names is transitive.
pub proof fn lemma_name_le_transitive(a: Seq<char>, b: Seq<char>, c: Seq<char>)
    requires
        name_le(a, b),
        name_le(b, c),
    ensures
        name_le(a, c),
    decreases a.len(),
{
    if a.len() > 0 && b.len() > 0 && c.len() > 0 && a[0] == b[0] && b[0] == c[0] {
        lemma_name_le_transitive(a.drop_first(), b.drop_first(), c.drop_first());
    }
}

/// Whether the name `a` comes no later than `b`.
pub fn name_no_later(a: &str, b: &str) -> (le: bool)
    ensures
        le == name_le(a@, b@),
{
    let first = chars_of(a);
    let second = chars_of(b);
    let mut i: usize = 0;
    assert(first@.subrange(0, first.len() as int) == a@);
    assert(second@.subrange(0, second.len() as int) == b@);
    while i < first.len() && i < second.len() && first[i] == second[i]
        invariant
            i <= first.len(),
            i <= second.len(),
            name_le(first@, second@) == name_le(
                first@.subrange(i as int, first.len() as int),
                second@.subrange(i as int, second.len() as int),
            ),
        decreases first.len() - i,
    {
        assert(first@.subrange(i as int, first.len() as int).drop_first() == first@.subrange(
            i + 1,
            first.len() as int,
        ));
        assert(second@.subrange(i as int, second.len() as int).drop_first() == second@.subrange(
            i + 1,
            second.len() as int,
        ));
        i += 1;
    }
    if i == first.len() {
        true
    } else if i == second.len() {
        false
    } else {
        first[i] < second[i]
    }
}

/// Putting one more name into a list adds it to the list's contents.
proof fn lemma_insert_to_multiset(names: Seq<Seq<char>>, at: int, name: Seq<char>)
    requires
        0 <= at <= names.len(),
    ensures
        names.insert(at, name).to_multiset() == names.to_multiset().insert(name),
{
    let longer = names.insert(at, name);
    assert(longer.remove(at) =~= names);
    to_multiset_remove(longer, at);
    longer.to_multiset_ensures();
    assert(longer.contains(longer[at]));
    assert(longer.to_multiset() =~= names.to_multiset().insert(name));
}

/// The names of `names` in the order of a dictionary.
pub fn sort_names(names: &Vec<String>) -> (sorted: Vec<String>)
    ensures
        in_order(names_of(sorted@)),
        names_of(sorted@).to_multiset() == names_of(names@).to_multiset(),
{
    let mut sorted: Vec<String> = Vec::new();
    let mut i: usize = 0;
    assert(names_of(names@.subrange(0, 0)) =~= names_of(sorted@));
    while i < names.len()
        invariant
            i <= names.len(),
            in_order(names_of(sorted@)),
            names_of(sorted@).to_multiset() == names_of(names@.subrange(0, i as int)).to_multiset(),
        decreases names.len() - i,
    {
        let name = names[i].clone();
        let ghost before = names_of(sorted@);
        let mut at: usize = 0;
        while at < sorted.len() && name_no_later(sorted[at].as_str(), name.as_str())
            invariant
                at <= sorted.len(),
                before == names_of(sorted@),
                forall|k: int| 0 <= k < at ==> name_le(before[k], name@),
            decreases sorted.len() - at,
        {
            at += 1;
        }
        proof {
            let after = before.insert(at as int, name@);
            assert forall|p: int, q: int| 0 <= p < q < after.len() implies name_le(
                after[p],
                after[q],
            ) by {
                if q == at {
                } else if p == at {
                    lemma_name_le_total(before[at as int], name@);
                    if q - 1 > at {
                        lemma_name_le_transitive(name@, before[at as int], before[q - 1]);
                    }
                } else if p < at && q > at {
                    assert(name_le(before[p], before[q - 1]));
                } else if p < at {
                    assert(name_le(before[p], before[q]));
                } else {
                    assert(name_le(before[p - 1], before[q - 1]));
                }
            }
            lemma_insert_to_multiset(before, at as int, name@);
            let seen = names_of(names@.subrange(0, i as int));
            assert(names_of(names@.subrange(0, i + 1)) =~= seen.push(name@));
            to_multiset_build(seen, name@);
        }
        sorted.insert(at, name);
        assert(names_of(sorted@) =~= before.insert(at as int, name@));
        i += 1;
    }
    assert(names@.subrange(0, names.len() as int) == names@);
    sorted
}

/// The names of the models of `kind`.
pub open spec fn of_kind(kind: ModelKind) -> spec_fn(Seq<char>) -> bool {
    |name: Seq<char>| model_kind(name) == kind
}

/// The names that begin with `chatgpt`.
pub open spec fn chat_names() -> spec_fn(Seq<char>) -> bool {
    |name: Seq<char>| "chatgpt"@.is_prefix_of(name)
}

/// The names that do not begin with `chatgpt`.
pub open spec fn plain_names() -> spec_fn(Seq<char>) -> bool {
    |name: Seq<char>| !"chatgpt"@.is_prefix_of(name)
}

/// The place after the last of the first `n` names that begins with `gpt`;
/// the place after the first name where none does.
pub open spec fn after_last_gpt(names: Seq<Seq<char>>, n: int) -> int
    decreases n,
{
    if n <= 0 {
        1
    } else if "gpt"@.is_prefix_of(names[n - 1]) {
        n
    } else {
        after_last_gpt(names, n - 1)
    }
}

/// The names of the language models as they are listed: those that begin
/// with `chatgpt` stand together after the last name that begins with `gpt`,
/// or after the first name where there is no such name, or alone.
pub open spec fn chat_after_gpt(sorted: Seq<Seq<char>>) -> Seq<Seq<char>> {
    let rest = sorted.filter(plain_names());
    let at = if after_last_gpt(rest, rest.len() as int) <= rest.len() {
        after_last_gpt(rest, rest.len() as int)
    } else {
        rest.len() as int
    };
    rest.subrange(0, at) + sorted.filter(chat_names()) + rest.subrange(at, rest.len() as int)
}

/// The names of a kind as they are listed.
pub open spec fn arranged(kind: ModelKind, sorted: Seq<Seq<char>>) -> Seq<Seq<char>> {
    if kind == ModelKind::Language {
        chat_after_gpt(sorted)
    } else {
        sorted
    }
}

/// The first `n` of `names`, each on a line of its own.
pub open spec fn name_lines(names: Seq<Seq<char>>, n: int) -> Seq<char>
    decreases n,
{
    if n <= 0 {
        Seq::empty()
    } else {
        name_lines(names, n - 1) + names[n - 1] + "\n"@
    }
}

/// The block of a kind: a heading, the names, an empty line.
pub open spec fn kind_block(kind: ModelKind, names: Seq<Seq<char>>) -> Seq<char> {
    "V "@ + kind.label_text() + " V\n"@ + name_lines(names, names.len() as int) + "\n"@
}

/// Whether the user who chose `model_type` asked for the kind at `position`:
/// 0 asks for every kind, 1 to 6 for one.
pub open spec fn asked_for(model_type: int, position: int) -> bool {
    model_type == 0 || model_type == position + 1
}

/// The blocks of the first `n` kinds, of those that were asked for and have
/// a model.
pub open spec fn blocks(groups: Seq<Seq<Seq<char>>>, model_type: int, n: int) -> Seq<char>
    decreases n,
{
    if n <= 0 {
        Seq::empty()
    } else {
        blocks(groups, model_type, n - 1) + if asked_for(model_type, n - 1) && groups[n - 1].len()
            > 0 {
            kind_block(ModelKind::at(n - 1), arranged(ModelKind::at(n - 1), groups[n - 1]))
        } else {
            Seq::empty()
        }
    }
}

/// The list of models, given the names of each of the six kinds in order:
/// the blocks without the white space at their end, or a note that nothing
/// was found.
pub open spec fn list_text(groups: Seq<Seq<Seq<char>>>, model_type: int) -> Seq<char> {
    let all = blocks(groups, model_type, 6);
    if all.len() == 0 {
        "沒有找到符合條件的模型"@
    } else {
        all.subrange(0, drop_spaces(all, 0, all.len() as int))
    }
}

/// Whether `sorted` holds the names of `kind` among `names`, in the order of
/// a dictionary.
pub open spec fn is_group(sorted: Seq<Seq<char>>, names: Seq<Seq<char>>, kind: ModelKind) -> bool {
    in_order(sorted) && sorted.to_multiset() == names.filter(of_kind(kind)).to_multiset()
}

/// The names of `names` for which `wanted` says yes, or those for which it
/// says no, in their order.
fn select(names: &Vec<String>, prefix: &str, wanted: bool) -> (chosen: Vec<String>)
    ensures
        names_of(chosen@) == names_of(names@).filter(
            |name: Seq<char>| prefix@.is_prefix_of(name) == wanted,
        ),
{
    let ghost keep = |name: Seq<char>| prefix@.is_prefix_of(name) == wanted;
    let mut chosen: Vec<String> = Vec::new();
    let mut i: usize = 0;
    assert(names_of(names@.subrange(0, 0)).filter(keep) =~= names_of(chosen@)) by {
        reveal(Seq::filter);
    }
    while i < names.len()
        invariant
            i <= names.len(),
            keep == |name: Seq<char>| prefix@.is_prefix_of(name) == wanted,
            names_of(chosen@) == names_of(names@.subrange(0, i as int)).filter(keep),
        decreases names.len() - i,
    {
        let ghost seen = names_of(names@.subrange(0, i as int));
        let ghost held = names_of(chosen@);
        proof {
            assert(names_of(names@.subrange(0, i + 1)) =~= seen.push(names@[i as int]@));
            lemma_filter_push(seen, names@[i as int]@, keep);
        }
        let chars = chars_of(names[i].as_str());
        if starts_with(&chars, prefix) == wanted {
            chosen.push(names[i].clone());
            assert(names_of(chosen@) =~= held.push(names@[i as int]@));
        }
        i += 1;
    }
    assert(names@.subrange(0, names.len() as int) == names@);
    chosen
}

/// The names of `kind` among `names`, in their order.
fn members(names: &Vec<String>, kind: ModelKind) -> (chosen: Vec<String>)
    ensures
        names_of(chosen@) == names_of(names@).filter(of_kind(kind)),
{
    let mut chosen: Vec<String> = Vec::new();
    let mut i: usize = 0;
    assert(names_of(names@.subrange(0, 0)).filter(of_kind(kind)) =~= names_of(chosen@)) by {
        reveal(Seq::filter);
    }
    while i < names.len()
        invariant
            i <= names.len(),
            names_of(chosen@) == names_of(names@.subrange(0, i as int)).filter(of_kind(kind)),
        decreases names.len() - i,
    {
        let ghost seen = names_of(names@.subrange(0, i as int));
        let ghost held = names_of(chosen@);
        proof {
            assert(names_of(names@.subrange(0, i + 1)) =~= seen.push(names@[i as int]@));
            lemma_filter_push(seen, names@[i as int]@, of_kind(kind));
        }
        if kind_of(names[i].as_str()) == kind {
            chosen.push(names[i].clone());
            assert(names_of(chosen@) =~= held.push(names@[i as int]@));
        }
        i += 1;
    }
    assert(names@.subrange(0, names.len() as int) == names@);
    chosen
}

/// Copies `source[from..to]` to the end of `target`.
fn copy_to(target: &mut Vec<String>, source: &Vec<String>, from: usize, to: usize)
    requires
        from <= to <= source.len(),
    ensures
        names_of(final(target)@) == names_of(old(target)@) + names_of(source@).subrange(
            from as int,
            to as int,
        ),
{
    let mut i: usize = from;
    assert(names_of(target@) =~= names_of(old(target)@) + names_of(source@).subrange(
        from as int,
        from as int,
    ));
    while i < to
        invariant
            from <= i <= to <= source.len(),
            names_of(target@) == names_of(old(target)@) + names_of(source@).subrange(
                from as int,
                i as int,
            ),
        decreases to - i,
    {
        let ghost held = names_of(target@);
        target.push(source[i].clone());
        assert(names_of(target@) =~= held.push(source@[i as int]@));
        assert(names_of(target@) =~= names_of(old(target)@) + names_of(source@).subrange(
            from as int,
            i + 1,
        ));
        i += 1;
    }
}

/// Whether `name` begins with `prefix`.
pub fn begins_with(name: &String, prefix: &str) -> (begins: bool)
    ensures
        begins == prefix@.is_prefix_of(name@),
{
    let chars = chars_of(name.as_str());
    starts_with(&chars, prefix)
}

/// The names of the language models as they are listed.
pub fn arrange_language(sorted: &Vec<String>) -> (listed: Vec<String>)
    ensures
        names_of(listed@) == chat_after_gpt(names_of(sorted@)),
{
    let chat = select(sorted, "chatgpt", true);
    let rest = select(sorted, "chatgpt", false);
    assert(names_of(chat@) == names_of(sorted@).filter(chat_names())) by {
        assert((|name: Seq<char>| "chatgpt"@.is_prefix_of(name) == true) =~= chat_names());
    }
    assert(names_of(rest@) == names_of(sorted@).filter(plain_names())) by {
        assert((|name: Seq<char>| "chatgpt"@.is_prefix_of(name) == false) =~= plain_names());
    }
    let mut n: usize = rest.len();
    while n > 0 && !begins_with(&rest[n - 1], "gpt")
        invariant
            n <= rest.len(),
            after_last_gpt(names_of(rest@), rest.len() as int) == after_last_gpt(
                names_of(rest@),
                n as int,
            ),
        decreases n,
    {
        n -= 1;
    }
    let place: usize = if n == 0 {
        1
    } else {
        n
    };
    let at: usize = if place <= rest.len() {
        place
    } else {
        rest.len()
    };
    let mut listed: Vec<String> = Vec::new();
    copy_to(&mut listed, &rest, 0, at);
    copy_to(&mut listed, &chat, 0, chat.len());
    copy_to(&mut listed, &rest, at, rest.len());
    assert(names_of(chat@).subrange(0, chat.len() as int) == names_of(chat@));
    assert(names_of(listed@) =~= chat_after_gpt(names_of(sorted@)));
    listed
}

/// Writes the block of `kind` at the end of `text`.
fn push_block(text: &mut String, kind: ModelKind, names: &Vec<String>)
    ensures
        final(text)@ == old(text)@ + kind_block(kind, names_of(names@)),
{
    text.append("V ");
    text.append(kind.label());
    text.append(" V\n");
    let ghost head = text@;
    let mut i: usize = 0;
    assert(text@ =~= head + name_lines(names_of(names@), 0));
    while i < names.len()
        invariant
            i <= names.len(),
            text@ == head + name_lines(names_of(names@), i as int),
        decreases names.len() - i,
    {
        text.append(names[i].as_str());
        text.append("\n");
        assert(text@ =~= head + name_lines(names_of(names@), i + 1));
        i += 1;
    }
    text.append("\n");
    assert(text@ =~= old(text)@ + kind_block(kind, names_of(names@)));
}

/// Lists the models `names` by kind, for a user who chose `model_type`: 0
/// for every kind, 1 to 6 for one kind. Within a kind the names stand in the
/// order of a dictionary, but for the language models that begin with
/// `chatgpt`, which follow those that begin with `gpt`.
pub fn model_list(names: &Vec<String>, model_type: i64) -> (text: String)
    ensures
        exists|groups: Seq<Seq<Seq<char>>>|
            {
                &&& groups.len() == 6
                &&& forall|k: int|
                    0 <= k < 6 ==> is_group(#[trigger] groups[k], names_of(names@), ModelKind::at(k))
                &&& text@ == list_text(groups, model_type as int)
            },
{
    let mut all = String::new();
    let ghost mut groups: Seq<Seq<Seq<char>>> = Seq::empty();
    let mut k: usize = 0;
    assert(all@ =~= blocks(groups, model_type as int, 0));
    while k < 6
        invariant
            k <= 6,
            groups.len() == k,
            forall|j: int|
                0 <= j < k ==> is_group(#[trigger] groups[j], names_of(names@), ModelKind::at(j)),
            all@ == blocks(groups, model_type as int, k as int),
        decreases 6 - k,
    {
        let kind = ModelKind::from_position(k);
        let group = sort_names(&members(names, kind));
        let ghost earlier = groups;
        proof {
            groups = groups.push(names_of(group@));
            lemma_blocks_keep(earlier, groups, model_type as int, k as int);
        }
        if (model_type == 0 || model_type == k as i64 + 1) && group.len() > 0 {
            if k == 0 {
                let listed = arrange_language(&group);
                push_block(&mut all, kind, &listed);
            } else {
                push_block(&mut all, kind, &group);
            }
        }
        assert(all@ =~= blocks(groups, model_type as int, k + 1));
        k += 1;
    }
    let chars = chars_of(all.as_str());
    if chars.len() == 0 {
        return String::from_str("沒有找到符合條件的模型");
    }
    let end = trimmed_end(&chars);
    String::from_str(all.as_str().substring_char(0, end))
}

/// The blocks of the first kinds do not depend on the kinds that follow.
proof fn lemma_blocks_keep(
    shorter: Seq<Seq<Seq<char>>>,
    longer: Seq<Seq<Seq<char>>>,
    model_type: int,
    n: int,
)
    requires
        0 <= n <= shorter.len() <= longer.len(),
        forall|j: int| 0 <= j < shorter.len() ==> shorter[j] == longer[j],
    ensures
        blocks(shorter, model_type, n) == blocks(longer, model_type, n),
    decreases n,
{
    if n > 0 {
        lemma_blocks_keep(shorter, longer, model_type, n - 1);
    }
}

} // verus!
