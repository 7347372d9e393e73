//! The pieces of rendered text, and sums over them.

use vstd::prelude::*;
use vstd::string::{StrSliceExecFns, StringExecFns};
use vstd::utf8::encode_utf8;

verus! {

/// A piece of rendered text with its number of characters and of bytes.
#[derive(Debug)]
pub struct TextPart {
    text: String,
    characters_count: usize,
    bytes_count: usize,
}

impl View for TextPart {
    type V = Seq<char>;

    closed spec fn view(&self) -> Seq<char> {
        self.text@
    }
}

impl TextPart {
    /// The counts are those of the text.
    #[verifier::type_invariant]
    spec fn counts_match(&self) -> bool {
        &&& self.characters_count == self.text@.len()
        &&& self.bytes_count == encode_utf8(self.text@).len() as usize
    }

    /// The piece that holds `text`.
    pub fn new(text: String) -> (part: TextPart)
        ensures
            part@ == text@,
    {
        let characters_count = text.as_str().unicode_len();
        let bytes_count = text.as_str().len();
        TextPart { text, characters_count, bytes_count }
    }

    /// The text of the piece.
    pub fn text(&self) -> (text: &str)
        ensures
            text@ == self@,
    {
        self.text.as_str()
    }

    /// The number of characters of the piece.
    pub fn characters_count(&self) -> (count: usize)
        ensures
            count == self@.len(),
    {
        proof {
            use_type_invariant(self);
        }
        self.characters_count
    }

    /// The number of bytes of the piece in UTF-8.
    pub fn bytes_count(&self) -> (count: usize)
        ensures
            count == encode_utf8(self@).len() as usize,
    {
        proof {
            use_type_invariant(self);
        }
        self.bytes_count
    }
}

/// The text of each piece.
pub open spec fn parts_view(parts: Seq<TextPart>) -> Seq<Seq<char>> {
    parts.map_values(|p: TextPart| p@)
}

/// The texts `texts[from..to]` joined in order.
pub open spec fn joined(texts: Seq<Seq<char>>, from: int, to: int) -> Seq<char>
    decreases to - from,
{
    if from < 0 || to > texts.len() || from >= to {
        Seq::empty()
    } else {
        joined(texts, from, to - 1) + texts[to - 1]
    }
}

/// All texts joined in order: the rendered text.
pub open spec fn whole_text(texts: Seq<Seq<char>>) -> Seq<char> {
    joined(texts, 0, texts.len() as int)
}

/// The number of characters of the texts `texts[from..to]`.
pub open spec fn chars_between(texts: Seq<Seq<char>>, from: int, to: int) -> nat {
    joined(texts, from, to).len()
}

/// The number of characters of all texts.
pub open spec fn total_chars(texts: Seq<Seq<char>>) -> nat {
    whole_text(texts).len()
}

/// Joining is additive: the texts up to `mid` and those from `mid` on give
/// the whole.
pub proof fn lemma_joined_split(texts: Seq<Seq<char>>, from: int, mid: int, to: int)
    requires
        0 <= from <= mid <= to <= texts.len(),
    ensures
        joined(texts, from, to) == joined(texts, from, mid) + joined(texts, mid, to),
    decreases to - mid,
{
    if mid < to {
        lemma_joined_split(texts, from, mid, to - 1);
        assert(joined(texts, from, to) =~= joined(texts, from, mid) + joined(texts, mid, to));
    } else {
        assert(joined(texts, from, to) =~= joined(texts, from, mid) + joined(texts, mid, to));
    }
}

/// What is joined depends only on the texts in the range.
pub proof fn lemma_joined_agrees(a: Seq<Seq<char>>, b: Seq<Seq<char>>, from: int, to: int)
    requires
        0 <= from <= to <= a.len(),
        to <= b.len(),
        forall|i: int| from <= i < to ==> a[i] == b[i],
    ensures
        joined(a, from, to) == joined(b, from, to),
    decreases to - from,
{
    if from < to {
        lemma_joined_agrees(a, b, from, to - 1);
    }
}

/// A text added at the end is added to the end of the whole.
pub proof fn lemma_whole_text_push(texts: Seq<Seq<char>>, text: Seq<char>)
    ensures
        whole_text(texts.push(text)) == whole_text(texts) + text,
        total_chars(texts.push(text)) == total_chars(texts) + text.len(),
{
    lemma_joined_agrees(texts.push(text), texts, 0, texts.len() as int);
}

/// The number of characters of the pieces `parts[from..to]`. The sum is
/// taken in 128 bits, where it cannot overflow.
pub fn count_chars(parts: &Vec<TextPart>, from: usize, to: usize) -> (count: u128)
    requires
        from <= to <= parts@.len(),
    ensures
        count == chars_between(parts_view(parts@), from as int, to as int),
        count <= (to - from) * 0x1_0000_0000_0000_0000,
{
    let mut count: u128 = 0;
    let mut i: usize = from;
    while i < to
        invariant
            from <= i <= to <= parts@.len(),
            count == chars_between(parts_view(parts@), from as int, i as int),
            count <= (i - from) * 0x1_0000_0000_0000_0000,
        decreases to - i,
    {
        let n = parts[i].characters_count();
        assert(parts_view(parts@)[i as int] == parts@[i as int]@);
        count = count + n as u128;
        i += 1;
    }
    count
}

/// The pieces `parts[from..to]` joined in order.
pub fn join_text(parts: &Vec<TextPart>, from: usize, to: usize) -> (text: String)
    requires
        from <= to <= parts@.len(),
    ensures
        text@ == joined(parts_view(parts@), from as int, to as int),
{
    let mut text = String::new();
    let mut i: usize = from;
    while i < to
        invariant
            from <= i <= to <= parts@.len(),
            text@ == joined(parts_view(parts@), from as int, i as int),
        decreases to - i,
    {
        assert(parts_view(parts@)[i as int] == parts@[i as int]@);
        text.append(parts[i].text());
        i += 1;
    }
    text
}

} // verus!
