//! Buffer text, addressed by UTF-8 byte offset.

use vstd::prelude::*;
use vstd::utf8::encode_utf8;

verus! {

/// Whether a character has the Unicode `White_Space` property.
pub open spec fn spec_is_whitespace(c: char) -> bool {
    ||| '\u{9}' <= c <= '\u{d}'
    ||| c == ' '
    ||| c == '\u{85}'
    ||| c == '\u{a0}'
    ||| c == '\u{1680}'
    ||| '\u{2000}' <= c <= '\u{200a}'
    ||| c == '\u{2028}'
    ||| c == '\u{2029}'
    ||| c == '\u{202f}'
    ||| c == '\u{205f}'
    ||| c == '\u{3000}'
}

/// Tells whether a character has the Unicode `White_Space` property.
pub fn is_whitespace(c: char) -> (result: bool)
    ensures
        result == spec_is_whitespace(c),
{
    ('\u{9}' <= c && c <= '\u{d}') || c == ' ' || c == '\u{85}' || c == '\u{a0}' || c == '\u{1680}'
        || ('\u{2000}' <= c && c <= '\u{200a}') || c == '\u{2028}' || c == '\u{2029}' || c
        == '\u{202f}' || c == '\u{205f}' || c == '\u{3000}'
}

/// Number of bytes that UTF-8 spends on a sequence of characters.
pub open spec fn byte_len(chars: Seq<char>) -> nat {
    encode_utf8(chars).len()
}

/// Number of bytes that UTF-8 spends on one character.
pub open spec fn spec_utf8_width(c: char) -> nat {
    byte_len(seq![c])
}

/// Whether a byte offset falls between two characters of a text, or at one of its ends.
pub open spec fn is_boundary(chars: Seq<char>, offset: int) -> bool {
    exists|i: int| 0 <= i <= chars.len() && #[trigger] byte_len(chars.take(i)) == offset
}

/// Number of characters that stand before a byte offset.
pub open spec fn index_of(chars: Seq<char>, offset: int) -> int {
    choose|i: int| 0 <= i <= chars.len() && #[trigger] byte_len(chars.take(i)) == offset
}

/// The characters between two byte offsets.
pub open spec fn text_between(chars: Seq<char>, start: int, end: int) -> Seq<char> {
    chars.subrange(index_of(chars, start), index_of(chars, end))
}

/// The thresholds at which a UTF-8 encoding grows by one byte.
pub proof fn lemma_width(c: char)
    ensures
        spec_utf8_width(c) == if (c as u32) < 0x80 {
            1nat
        } else if (c as u32) < 0x800 {
            2
        } else if (c as u32) < 0x10000 {
            3
        } else {
            4
        },
        1 <= spec_utf8_width(c) <= 4,
{
    reveal_with_fuel(encode_utf8, 2);
    assert(seq![c].drop_first() =~= Seq::<char>::empty());
}

/// Encoding is additive over concatenation.
pub proof fn lemma_byte_len_concat(a: Seq<char>, b: Seq<char>)
    ensures
        byte_len(a + b) == byte_len(a) + byte_len(b),
    decreases a.len(),
{
    reveal_with_fuel(encode_utf8, 2);
    if a.len() == 0 {
        assert(a + b =~= b);
    } else {
        lemma_byte_len_concat(a.drop_first(), b);
        assert((a + b).drop_first() =~= a.drop_first() + b);
    }
}

/// One more character adds its width.
pub proof fn lemma_byte_len_take_next(chars: Seq<char>, i: int)
    requires
        0 <= i < chars.len(),
    ensures
        byte_len(chars.take(i + 1)) == byte_len(chars.take(i)) + spec_utf8_width(chars[i]),
{
    assert(chars.take(i + 1) =~= chars.take(i) + seq![chars[i]]);
    lemma_byte_len_concat(chars.take(i), seq![chars[i]]);
}

/// The bytes of a stretch are those up to its end less those up to its start.
pub proof fn lemma_byte_len_subrange(chars: Seq<char>, i: int, j: int)
    requires
        0 <= i <= j <= chars.len(),
    ensures
        byte_len(chars.subrange(i, j)) == byte_len(chars.take(j)) - byte_len(chars.take(i)),
        j - i <= byte_len(chars.subrange(i, j)) <= 4 * (j - i),
    decreases j - i,
{
    if i == j {
        assert(chars.subrange(i, j) =~= Seq::<char>::empty());
    } else {
        lemma_byte_len_subrange(chars, i, j - 1);
        lemma_byte_len_take_next(chars, j - 1);
        assert(chars.subrange(i, j) =~= chars.subrange(i, j - 1) + seq![chars[j - 1]]);
        lemma_byte_len_concat(chars.subrange(i, j - 1), seq![chars[j - 1]]);
        lemma_width(chars[j - 1]);
    }
}

/// A character index is determined by its byte offset.
pub proof fn lemma_index_of(chars: Seq<char>, i: int)
    requires
        0 <= i <= chars.len(),
    ensures
        is_boundary(chars, byte_len(chars.take(i)) as int),
        index_of(chars, byte_len(chars.take(i)) as int) == i,
        byte_len(chars.take(i)) <= byte_len(chars),
{
    let offset = byte_len(chars.take(i)) as int;
    let j = index_of(chars, offset);
    assert(0 <= j <= chars.len() && byte_len(chars.take(j)) == offset);
    if i < j {
        lemma_byte_len_subrange(chars, i, j);
    } else {
        lemma_byte_len_subrange(chars, j, i);
    }
    lemma_byte_len_subrange(chars, i, chars.len() as int);
    assert(chars.take(chars.len() as int) =~= chars);
}

/// Number of bytes that UTF-8 spends on one character.
pub fn utf8_width(c: char) -> (width: usize)
    ensures
        width == spec_utf8_width(c),
        1 <= width <= 4,
{
    proof {
        lemma_width(c);
    }
    let code: u32 = c as u32;
    if code < 0x80 {
        1
    } else if code < 0x800 {
        2
    } else if code < 0x10000 {
        3
    } else {
        4
    }
}

/// Finds the character index that a byte offset stands for.
pub fn char_index(chars: &Vec<char>, offset: usize) -> (index: Option<usize>)
    requires
        byte_len(chars@) <= usize::MAX,
    ensures
        index is Some <==> is_boundary(chars@, offset as int),
        index matches Some(i) ==> i <= chars@.len() && byte_len(chars@.take(i as int)) == offset && i
            == index_of(chars@, offset as int),
{
    let mut i: usize = 0;
    let mut at: usize = 0;
    assert(chars@.take(0) =~= Seq::<char>::empty());
    while i < chars.len() && at < offset
        invariant
            i <= chars@.len(),
            at == byte_len(chars@.take(i as int)),
            byte_len(chars@) <= usize::MAX,
            i > 0 ==> byte_len(chars@.take(i - 1)) < offset,
        decreases chars@.len() - i,
    {
        proof {
            lemma_byte_len_take_next(chars@, i as int);
            lemma_index_of(chars@, i + 1);
        }
        at = at + utf8_width(chars[i]);
        i = i + 1;
    }
    if at == offset {
        proof {
            lemma_index_of(chars@, i as int);
        }
        Some(i)
    } else {
        proof {
            if is_boundary(chars@, offset as int) {
                let j = index_of(chars@, offset as int);
                assert(0 <= j <= chars@.len() && byte_len(chars@.take(j)) == offset);
                if j < i {
                    lemma_byte_len_subrange(chars@, j, i - 1);
                } else {
                    lemma_byte_len_subrange(chars@, i as int, j);
                }
            }
        }
        None
    }
}

/// Appends one character to a string, as `String::push` does.
pub assume_specification[ String::push ](s: &mut String, c: char)
    ensures
        final(s)@ == old(s)@.push(c),
;

/// Copies a stretch of characters into a string.
pub fn collect_text(chars: &Vec<char>, start: usize, end: usize) -> (text: String)
    requires
        start <= end <= chars@.len(),
    ensures
        text@ == chars@.subrange(start as int, end as int),
{
    let mut text = String::new();
    let mut i: usize = start;
    while i < end
        invariant
            start <= i <= end <= chars@.len(),
            text@ == chars@.subrange(start as int, i as int),
        decreases end - i,
    {
        text.push(chars[i]);
        i = i + 1;
        assert(chars@.subrange(start as int, i as int) =~= chars@.subrange(
            start as int,
            i - 1,
        ).push(chars@[i - 1]));
    }
    text
}

/// Splits a string into its characters.
pub fn chars_of(text: &str) -> (chars: Vec<char>)
    ensures
        chars@ == text@,
        byte_len(chars@) <= usize::MAX,
{
    let size: usize = text.as_bytes().len();
    assert(size == byte_len(text@));
    let mut chars: Vec<char> = Vec::new();
    for c in it: text.chars()
        invariant
            chars@ == it.seq().take(it.index() as int),
            it.seq() == text@,
    {
        chars.push(c);
    }
    chars
}

/// The text of a buffer at one moment.
pub struct BufferSnapshot {
    chars: Vec<char>,
}

impl View for BufferSnapshot {
    type V = Seq<char>;

    closed spec fn view(&self) -> Seq<char> {
        self.chars@
    }
}

impl BufferSnapshot {
    /// A buffer's offsets fit the machine's word.
    #[verifier::type_invariant]
    closed spec fn well_formed(self) -> bool {
        byte_len(self.chars@) <= usize::MAX
    }

    /// Takes a snapshot of a text.
    pub fn new(text: &str) -> (snapshot: Self)
        ensures
            snapshot@ == text@,
    {
        BufferSnapshot { chars: chars_of(text) }
    }

    /// The characters of the text; their bytes fit the machine's word.
    pub fn chars(&self) -> (chars: &Vec<char>)
        ensures
            chars@ == self@,
            byte_len(chars@) <= usize::MAX,
    {
        proof {
            use_type_invariant(self);
        }
        &self.chars
    }

    /// Length of the text in bytes.
    pub fn len(&self) -> (len: usize)
        ensures
            len == byte_len(self@),
    {
        let chars = self.chars();
        let mut i: usize = 0;
        let mut at: usize = 0;
        assert(chars@.take(0) =~= Seq::<char>::empty());
        while i < chars.len()
            invariant
                i <= chars@.len(),
                at == byte_len(chars@.take(i as int)),
                byte_len(chars@) <= usize::MAX,
            decreases chars@.len() - i,
        {
            proof {
                lemma_byte_len_take_next(chars@, i as int);
                lemma_index_of(chars@, i + 1);
            }
            at = at + utf8_width(chars[i]);
            i = i + 1;
        }
        assert(chars@.take(i as int) =~= chars@);
        at
    }

    /// Tells whether a byte offset falls between two characters.
    pub fn is_char_boundary(&self, offset: usize) -> (result: bool)
        ensures
            result == is_boundary(self@, offset as int),
    {
        char_index(self.chars(), offset).is_some()
    }
}

} // verus!
