//! Text as characters and as bytes.
//!
//! Contracts speak of a text as its sequence of characters. The executable
//! code compares texts through their UTF-8 bytes, which is what a `str` holds;
//! the lemmas of this module carry a fact about the bytes over to the
//! characters.

use vstd::prelude::*;
use vstd::string::*;
use vstd::utf8::*;

verus! {

/// The byte that encodes the separating space.
pub const SPACE: u8 = 0x20;

/// The text of a label: the adjective, one space, the name.
pub open spec fn label_text(adjective: Seq<char>, name: Seq<char>) -> Seq<char> {
    adjective + seq![' '] + name
}

/// The bytes of a label's text, from the bytes of its two words.
pub open spec fn label_bytes(adjective: Seq<u8>, name: Seq<u8>) -> Seq<u8> {
    adjective + seq![SPACE] + name
}

/// Encoding goes through concatenation.
proof fn lemma_encode_concat(a: Seq<char>, b: Seq<char>)
    ensures
        encode_utf8(a + b) == encode_utf8(a) + encode_utf8(b),
    decreases a.len(),
{
    if a.len() == 0 {
        assert(a + b =~= b);
        assert(encode_utf8(a) + encode_utf8(b) =~= encode_utf8(b));
    } else {
        lemma_encode_concat(a.drop_first(), b);
        assert((a + b).drop_first() =~= a.drop_first() + b);
        assert((a + b)[0] == a[0]);
        assert(encode_utf8(a + b) =~= encode_utf8(a) + encode_utf8(b));
    }
}

/// Two texts with the same bytes are the same text.
proof fn lemma_encode_injective(a: Seq<char>, b: Seq<char>)
    requires
        encode_utf8(a) == encode_utf8(b),
    ensures
        a == b,
{
    encode_utf8_decode_utf8(a);
    encode_utf8_decode_utf8(b);
}

/// A space is encoded as the single byte `SPACE`.
proof fn lemma_encode_space()
    ensures
        encode_utf8(seq![' ']) == seq![SPACE],
{
    let s = seq![' '];
    assert(is_ascii_chars(s));
    is_ascii_chars_encode_utf8(s);
    assert(encode_utf8(s) =~= seq![SPACE]);
}

/// A text is the text of a label exactly when its bytes are the label's bytes.
pub proof fn lemma_label_text_bytes(text: Seq<char>, adjective: Seq<char>, name: Seq<char>)
    ensures
        text == label_text(adjective, name) <==> encode_utf8(text) == label_bytes(
            encode_utf8(adjective),
            encode_utf8(name),
        ),
{
    lemma_encode_space();
    lemma_encode_concat(adjective, seq![' ']);
    lemma_encode_concat(adjective + seq![' '], name);
    if encode_utf8(text) == label_bytes(encode_utf8(adjective), encode_utf8(name)) {
        lemma_encode_injective(text, label_text(adjective, name));
    }
}

/// Whether `needle` stands in `hay` at `start`.
pub open spec fn occurs_at(hay: Seq<u8>, start: int, needle: Seq<u8>) -> bool {
    &&& 0 <= start
    &&& start + needle.len() <= hay.len()
    &&& hay.subrange(start, start + needle.len()) == needle
}

/// Compares the bytes of `hay` from `start` on with `needle`.
pub fn bytes_at(hay: &[u8], start: usize, needle: &[u8]) -> (found: bool)
    ensures
        found == occurs_at(hay@, start as int, needle@),
{
    let n = needle.len();
    if start > hay.len() || hay.len() - start < n {
        return false;
    }
    let mut k: usize = 0;
    while k < n
        invariant
            k <= n,
            n == needle@.len(),
            start + n <= hay.len(),
            hay@.subrange(start as int, start + k) == needle@.subrange(0, k as int),
        decreases n - k,
    {
        if hay[start + k] != needle[k] {
            assert(hay@.subrange(start as int, start + n)[k as int] != needle@[k as int]);
            return false;
        }
        assert(hay@.subrange(start as int, start + k + 1) =~= hay@.subrange(
            start as int,
            start + k,
        ).push(hay@[start + k]));
        assert(needle@.subrange(0, k + 1) =~= needle@.subrange(0, k as int).push(needle@[k as int]));
        k = k + 1;
    }
    assert(needle@.subrange(0, n as int) =~= needle@);
    true
}

/// Whether two texts are the same, character for character.
pub fn str_eq(a: &str, b: &str) -> (same: bool)
    ensures
        same == (a@ == b@),
{
    let x = a.as_bytes();
    let y = b.as_bytes();
    let same = x.len() == y.len() && bytes_at(x, 0, y);
    proof {
        if same {
            assert(x@.subrange(0, y@.len() as int) =~= x@);
            lemma_encode_injective(a@, b@);
        }
        if a@ == b@ {
            assert(x@.subrange(0, x@.len() as int) =~= x@);
        }
    }
    same
}

/// Whether `text` is the adjective, one space and the name: nothing before,
/// between or after.
pub fn is_label_text(text: &str, adjective: &str, name: &str) -> (matches: bool)
    ensures
        matches == (text@ == label_text(adjective@, name@)),
{
    let t = text.as_bytes();
    let a = adjective.as_bytes();
    let p = name.as_bytes();
    proof {
        lemma_label_text_bytes(text@, adjective@, name@);
    }
    let ghost whole = label_bytes(a@, p@);
    if t.len() <= a.len() || t.len() - a.len() - 1 != p.len() {
        assert(t@.len() != whole.len());
        return false;
    }
    let matches = bytes_at(t, 0, a) && t[a.len()] == SPACE && bytes_at(t, a.len() + 1, p);
    proof {
        let n = a@.len() as int;
        assert(whole.subrange(0, n) =~= a@);
        assert(whole[n] == SPACE);
        assert(whole.subrange(n + 1, whole.len() as int) =~= p@);
        if matches {
            assert(t@ =~= whole);
        }
    }
    matches
}

/// Among the bytes of one character the byte of a space stands only when the
/// character is a space: the bytes of a longer character all have their
/// highest bit set.
proof fn lemma_scalar_space(c: char)
    ensures
        encode_scalar(c as u32).contains(SPACE) <==> c == ' ',
{
    let v = c as u32;
    let bytes = encode_scalar(v);
    char_is_scalar(c);
    assert(v <= 0x7F ==> (v & 0x7F) as u8 == v) by (bit_vector);
    assert((0xC0u8 | ((v >> 6) & 0x1F) as u8) != 0x20u8) by (bit_vector);
    assert((0xE0u8 | ((v >> 12) & 0x0F) as u8) != 0x20u8) by (bit_vector);
    assert((0xF0u8 | ((v >> 18) & 0x7) as u8) != 0x20u8) by (bit_vector);
    assert((0x80u8 | (v & 0x3F) as u8) != 0x20u8) by (bit_vector);
    assert((0x80u8 | ((v >> 6) & 0x3F) as u8) != 0x20u8) by (bit_vector);
    assert((0x80u8 | ((v >> 12) & 0x3F) as u8) != 0x20u8) by (bit_vector);
    if c == ' ' {
        assert(bytes[0] == SPACE);
    }
    if bytes.contains(SPACE) {
        let k = choose|k: int| 0 <= k < bytes.len() && bytes[k] == SPACE;
        assert(bytes[k] == SPACE);
        assert(has_width_1_encoding(v));
        assert(v == 0x20);
        char_u32_cast(c, v);
        char_u32_cast(' ', 0x20u32);
    }
}

/// A text holds a space exactly when its bytes hold the byte of a space.
proof fn lemma_space_in_bytes(chars: Seq<char>)
    ensures
        encode_utf8(chars).contains(SPACE) <==> chars.contains(' '),
    decreases chars.len(),
{
    if chars.len() > 0 {
        let head = encode_scalar(chars[0] as u32);
        let rest = chars.drop_first();
        let tail = encode_utf8(rest);
        lemma_scalar_space(chars[0]);
        lemma_space_in_bytes(rest);
        if chars.contains(' ') {
            let i = choose|i: int| 0 <= i < chars.len() && chars[i] == ' ';
            if i == 0 {
                let k = choose|k: int| 0 <= k < head.len() && head[k] == SPACE;
                assert((head + tail)[k] == SPACE);
            } else {
                assert(rest[i - 1] == ' ');
                let k = choose|k: int| 0 <= k < tail.len() && tail[k] == SPACE;
                assert((head + tail)[head.len() + k] == SPACE);
            }
        }
        if (head + tail).contains(SPACE) {
            let k = choose|k: int| 0 <= k < (head + tail).len() && (head + tail)[k] == SPACE;
            if k < head.len() {
                assert(head[k] == SPACE);
                assert(chars[0] == ' ');
            } else {
                assert(tail[k - head.len()] == SPACE);
                let i = choose|i: int| 0 <= i < rest.len() && rest[i] == ' ';
                assert(chars[i + 1] == ' ');
            }
        }
    }
}

/// Whether the text holds a space.
pub fn has_space(word: &str) -> (found: bool)
    ensures
        found == word@.contains(' '),
{
    let bytes = word.as_bytes();
    proof {
        lemma_space_in_bytes(word@);
    }
    let mut k: usize = 0;
    while k < bytes.len()
        invariant
            k <= bytes.len(),
            bytes@.contains(SPACE) <==> word@.contains(' '),
            forall|i: int| 0 <= i < k ==> bytes@[i] != SPACE,
        decreases bytes.len() - k,
    {
        if bytes[k] == SPACE {
            assert(bytes@[k as int] == SPACE);
            return true;
        }
        k = k + 1;
    }
    false
}

} // verus!
