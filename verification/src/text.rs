//! Text helpers shared by the roster, the command interpreter and the codec:
//! the order in which names are listed, joining with a separator, and the
//! sentinel that marks a chat line as a command.

use vstd::prelude::*;
use vstd::utf8::encode_utf8;

verus! {

/// Lexicographic order on byte strings: `a` comes no later than `b`.
pub open spec fn bytes_le(a: Seq<u8>, b: Seq<u8>) -> bool
    decreases a.len(),
{
    if a.len() == 0 {
        true
    } else if b.len() == 0 {
        false
    } else if a[0] != b[0] {
        a[0] < b[0]
    } else {
        bytes_le(a.drop_first(), b.drop_first())
    }
}

/// The order of names: by the bytes of their UTF-8 encoding.
pub open spec fn name_le(a: Seq<char>, b: Seq<char>) -> bool {
    bytes_le(encode_utf8(a), encode_utf8(b))
}

/// Every byte string is comparable with itself.
pub proof fn lemma_bytes_le_reflexive(a: Seq<u8>)
    ensures
        bytes_le(a, a),
    decreases a.len(),
{
    if a.len() > 0 {
        lemma_bytes_le_reflexive(a.drop_first());
    }
}

/// Of two byte strings, one comes no later than the other.
pub proof fn lemma_bytes_le_total(a: Seq<u8>, b: Seq<u8>)
    ensures
        bytes_le(a, b) || bytes_le(b, a),
    decreases a.len(),
{
    if a.len() > 0 && b.len() > 0 && a[0] == b[0] {
        lemma_bytes_le_total(a.drop_first(), b.drop_first());
    }
}

/// The order on byte strings is transitive.
pub proof fn lemma_bytes_le_transitive(a: Seq<u8>, b: Seq<u8>, c: Seq<u8>)
    requires
        bytes_le(a, b),
        bytes_le(b, c),
    ensures
        bytes_le(a, c),
    decreases a.len(),
{
    if a.len() > 0 && b.len() > 0 && c.len() > 0 && a[0] == b[0] && b[0] == c[0] {
        lemma_bytes_le_transitive(a.drop_first(), b.drop_first(), c.drop_first());
    }
}

/// Two byte strings that come no later than each other are the same.
pub proof fn lemma_bytes_le_antisymmetric(a: Seq<u8>, b: Seq<u8>)
    requires
        bytes_le(a, b),
        bytes_le(b, a),
    ensures
        a == b,
    decreases a.len(),
{
    if a.len() > 0 && b.len() > 0 {
        lemma_bytes_le_antisymmetric(a.drop_first(), b.drop_first());
        assert(a =~= seq![a[0]] + a.drop_first());
        assert(b =~= seq![b[0]] + b.drop_first());
    } else {
        assert(a =~= b);
    }
}

/// The order of names is total.
pub proof fn lemma_name_le_total(a: Seq<char>, b: Seq<char>)
    ensures
        name_le(a, b) || name_le(b, a),
{
    lemma_bytes_le_total(encode_utf8(a), encode_utf8(b));
}

/// The order of names is transitive.
pub proof fn lemma_name_le_transitive(a: Seq<char>, b: Seq<char>, c: Seq<char>)
    requires
        name_le(a, b),
        name_le(b, c),
    ensures
        name_le(a, c),
{
    lemma_bytes_le_transitive(encode_utf8(a), encode_utf8(b), encode_utf8(c));
}

/// Two names that come no later than each other are the same name.
pub proof fn lemma_name_le_antisymmetric(a: Seq<char>, b: Seq<char>)
    requires
        name_le(a, b),
        name_le(b, a),
    ensures
        a == b,
{
    lemma_bytes_le_antisymmetric(encode_utf8(a), encode_utf8(b));
    vstd::utf8::encode_utf8_decode_utf8(a);
    vstd::utf8::encode_utf8_decode_utf8(b);
}

/// Whether `a` comes no later than `b` in the order of names.
pub fn str_le(a: &str, b: &str) -> (le: bool)
    ensures
        le == name_le(a@, b@),
{
    let x = a.as_bytes();
    let y = b.as_bytes();
    let mut i: usize = 0;
    proof {
        assert(x@.skip(0) =~= x@);
        assert(y@.skip(0) =~= y@);
    }
    while i < x.len() && i < y.len()
        invariant
            x@ == encode_utf8(a@),
            y@ == encode_utf8(b@),
            i <= x@.len(),
            i <= y@.len(),
            bytes_le(x@, y@) == bytes_le(x@.skip(i as int), y@.skip(i as int)),
        decreases x@.len() - i,
    {
        proof {
            assert(x@.skip(i as int)[0] == x@[i as int]);
            assert(y@.skip(i as int)[0] == y@[i as int]);
            assert(x@.skip(i as int).drop_first() =~= x@.skip(i + 1));
            assert(y@.skip(i as int).drop_first() =~= y@.skip(i + 1));
        }
        if x[i] != y[i] {
            return x[i] < y[i];
        }
        i += 1;
    }
    i == x.len()
}

/// The lower-case form of a text, as `str::to_lowercase` of the standard
/// library computes it.
pub uninterp spec fn lowercase(text: Seq<char>) -> Seq<char>;

/// `str::to_lowercase` of the standard library: the result is the lower-case
/// form of `text`, a function of `text` alone that Unicode defines and that
/// this library names without spelling it out.
#[verifier::external_body]
pub(crate) fn to_lowercase(text: &str) -> (lower: String)
    ensures
        lower@ == lowercase(text@),
{
    text.to_lowercase()
}

/// Whether a character is white space: whether Unicode gives it the
/// property `White_Space`.
pub open spec fn is_white(c: char) -> bool {
    ||| '\u{9}' <= c <= '\u{d}'
    ||| c == ' '
    ||| c == '\u{85}'
    ||| c == '\u{a0}'
    ||| c == '\u{1680}'
    ||| '\u{2000}' <= c <= '\u{200a}'
    ||| c == '\u{2028}'
    ||| c == '\u{2029}'
    ||| c == '\u{202f}'
    ||| c == '\u{205f}'
    ||| c == '\u{3000}'
}

/// Whether a character is white space.
pub fn is_whitespace(c: char) -> (white: bool)
    ensures
        white == is_white(c),
{
    ('\u{9}' <= c && c <= '\u{d}') || c == ' ' || c == '\u{85}' || c == '\u{a0}' || c
        == '\u{1680}' || ('\u{2000}' <= c && c <= '\u{200a}') || c == '\u{2028}' || c
        == '\u{2029}' || c == '\u{202f}' || c == '\u{205f}' || c == '\u{3000}'
}

/// The words of a text: its longest runs of characters that are not white
/// space, in their order. Read from the left, a character that is not white
/// goes on with the word of its left neighbour, or opens a word where that
/// neighbour is white or missing.
pub open spec fn words(text: Seq<char>) -> Seq<Seq<char>>
    decreases text.len(),
{
    if text.len() == 0 {
        Seq::empty()
    } else {
        let before = words(text.drop_last());
        if is_white(text.last()) {
            before
        } else if text.len() >= 2 && !is_white(text[text.len() - 2]) {
            before.drop_last().push(before.last().push(text.last()))
        } else {
            before.push(seq![text.last()])
        }
    }
}

/// Whether a text is a word: not empty, and without white space.
pub open spec fn is_word(text: Seq<char>) -> bool {
    text.len() > 0 && forall|i: int| 0 <= i < text.len() ==> !is_white(#[trigger] text[i])
}

/// Each of the words of a text is a word, and a text that ends with a
/// character that is not white has a word.
pub proof fn lemma_words_are_words(text: Seq<char>)
    ensures
        forall|k: int| 0 <= k < words(text).len() ==> is_word(#[trigger] words(text)[k]),
        text.len() > 0 && !is_white(text.last()) ==> words(text).len() > 0,
    decreases text.len(),
{
    if text.len() > 0 {
        let front = text.drop_last();
        let before = words(front);
        lemma_words_are_words(front);
        if !is_white(text.last()) {
            if text.len() >= 2 && !is_white(text[text.len() - 2]) {
                assert(front.last() == text[text.len() - 2]);
                let grown = before.last().push(text.last());
                assert(is_word(before.last()));
                assert forall|i: int| 0 <= i < grown.len() implies !is_white(
                    #[trigger] grown[i],
                ) by {
                    if i < before.last().len() {
                        assert(grown[i] == before.last()[i]);
                    }
                }
                assert forall|k: int| 0 <= k < words(text).len() implies is_word(
                    #[trigger] words(text)[k],
                ) by {
                    if k < before.len() - 1 {
                        assert(words(text)[k] == before[k]);
                    }
                }
            } else {
                assert forall|k: int| 0 <= k < words(text).len() implies is_word(
                    #[trigger] words(text)[k],
                ) by {
                    if k < before.len() {
                        assert(words(text)[k] == before[k]);
                    }
                }
            }
        }
    }
}

/// A word behind a text that is empty or ends in white space is one more
/// word of the whole.
pub proof fn lemma_words_push(text: Seq<char>, word: Seq<char>)
    requires
        is_word(word),
        text.len() == 0 || is_white(text.last()),
    ensures
        words(text + word) == words(text).push(word),
    decreases word.len(),
{
    let whole = text + word;
    let front = word.drop_last();
    assert(whole.drop_last() =~= text + front);
    assert(whole.last() == word.last());
    assert(!is_white(word.last()));
    if front.len() == 0 {
        assert(text + front =~= text);
        assert(seq![word.last()] =~= word);
        if whole.len() >= 2 {
            assert(whole[whole.len() - 2] == text.last());
        }
    } else {
        assert(is_word(front)) by {
            assert forall|i: int| 0 <= i < front.len() implies !is_white(#[trigger] front[i]) by {
                assert(front[i] == word[i]);
            }
        }
        lemma_words_push(text, front);
        assert(whole[whole.len() - 2] == front.last());
        assert(front.last() == word[word.len() - 2]);
        assert(!is_white(word[word.len() - 2]));
        let before = words(text).push(front);
        assert(before.drop_last() =~= words(text));
        assert(front.push(word.last()) =~= word);
    }
}

/// Words that are joined with one white character between neighbours are
/// the words of the text that this gives.
pub proof fn lemma_words_of_joined(parts: Seq<Seq<char>>, sep: char)
    requires
        is_white(sep),
        forall|k: int| 0 <= k < parts.len() ==> is_word(#[trigger] parts[k]),
    ensures
        words(joined(parts, seq![sep])) == parts,
    decreases parts.len(),
{
    if parts.len() == 0 {
        assert(parts =~= Seq::<Seq<char>>::empty());
    } else if parts.len() == 1 {
        lemma_words_push(Seq::empty(), parts[0]);
        assert(Seq::<char>::empty() + parts[0] =~= parts[0]);
        assert(Seq::<Seq<char>>::empty().push(parts[0]) =~= parts);
    } else {
        let front = parts.drop_last();
        assert forall|k: int| 0 <= k < front.len() implies is_word(#[trigger] front[k]) by {
            assert(front[k] == parts[k]);
        }
        lemma_words_of_joined(front, sep);
        let head = joined(front, seq![sep]) + seq![sep];
        assert(head.drop_last() =~= joined(front, seq![sep]));
        assert(head.last() == sep);
        assert(words(head) == front);
        lemma_words_push(head, parts.last());
        assert(front.push(parts.last()) =~= parts);
    }
}

/// The characters of a text.
fn chars_of(text: &str) -> (chars: Vec<char>)
    ensures
        chars@ == text@,
{
    let mut chars: Vec<char> = Vec::new();
    for c in it: text.chars()
        invariant
            it.seq() == text@,
            chars@ == it.seq().take(it.index() as int),
    {
        chars.push(c);
        proof {
            assert(it.seq().take(it.index() + 1) =~= it.seq().take(it.index() as int).push(c));
        }
    }
    proof {
        assert(text@.take(text@.len() as int) =~= text@);
    }
    chars
}

/// The words of a text.
pub fn split_whitespace(text: &str) -> (found: Vec<String>)
    ensures
        found.deep_view() == words(text@),
{
    let chars = chars_of(text);
    let mut found: Vec<String> = Vec::new();
    let mut start: usize = 0;
    let mut inside = false;
    let mut i: usize = 0;
    proof {
        assert(text@.take(0) =~= Seq::<char>::empty());
        assert(found.deep_view() =~= Seq::<Seq<char>>::empty());
    }
    while i < chars.len()
        invariant
            chars@ == text@,
            i <= text@.len(),
            inside ==> start < i && !is_white(text@[i - 1]),
            !inside ==> i == 0 || is_white(text@[i - 1]),
            words(text@.take(i as int)) == if inside {
                found.deep_view().push(text@.subrange(start as int, i as int))
            } else {
                found.deep_view()
            },
        decreases text@.len() - i,
    {
        let c = chars[i];
        let ghost before = found.deep_view();
        proof {
            let next = text@.take(i + 1);
            assert(next.drop_last() =~= text@.take(i as int));
            assert(next.last() == c);
            if i > 0 {
                assert(next[next.len() - 2] == text@[i - 1]);
            }
        }
        if is_whitespace(c) {
            if inside {
                found.push(text.substring_char(start, i).to_owned());
                inside = false;
                proof {
                    assert(found.deep_view() =~= before.push(
                        text@.subrange(start as int, i as int),
                    ));
                }
            }
        } else if inside {
            proof {
                let word = text@.subrange(start as int, i as int);
                assert(before.push(word).drop_last() =~= before);
                assert(word.push(c) =~= text@.subrange(start as int, i + 1));
            }
        } else {
            start = i;
            inside = true;
            proof {
                assert(seq![c] =~= text@.subrange(i as int, i + 1));
            }
        }
        i += 1;
    }
    if inside {
        let ghost before = found.deep_view();
        found.push(text.substring_char(start, i).to_owned());
        proof {
            assert(found.deep_view() =~= before.push(text@.subrange(start as int, i as int)));
        }
    }
    proof {
        assert(text@.take(i as int) =~= text@);
    }
    found
}

/// The parts in order, with `sep` between each two neighbours.
pub open spec fn joined(parts: Seq<Seq<char>>, sep: Seq<char>) -> Seq<char>
    decreases parts.len(),
{
    if parts.len() == 0 {
        Seq::empty()
    } else if parts.len() == 1 {
        parts[0]
    } else {
        joined(parts.drop_last(), sep) + sep + parts.last()
    }
}

/// Joins the parts with `sep` between each two neighbours.
pub fn join(parts: &[String], sep: &str) -> (text: String)
    ensures
        text@ == joined(parts.deep_view(), sep@),
{
    let mut text = String::new();
    let mut i: usize = 0;
    while i < parts.len()
        invariant
            i <= parts@.len(),
            text@ == joined(parts.deep_view().take(i as int), sep@),
        decreases parts@.len() - i,
    {
        proof {
            let so_far = parts.deep_view().take(i as int);
            let next = parts.deep_view().take(i + 1);
            assert(next.drop_last() =~= so_far);
            assert(next.last() == parts@[i as int]@);
        }
        if i > 0 {
            text.append(sep);
        }
        text.append(parts[i].as_str());
        i += 1;
    }
    proof {
        assert(parts.deep_view().take(i as int) =~= parts.deep_view());
    }
    text
}

/// What follows the two colons that open a command line, if `text` opens
/// with them.
pub open spec fn after_sentinel(text: Seq<char>) -> Option<Seq<char>> {
    if text.len() >= 2 && text[0] == ':' && text[1] == ':' {
        Some(text.skip(2))
    } else {
        None
    }
}

/// Strips the command sentinel `::` from the front of `text`.
pub fn strip_sentinel<'a>(text: &'a str) -> (rest: Option<&'a str>)
    ensures
        match rest {
            Some(r) => after_sentinel(text@) == Some(r@),
            None => after_sentinel(text@) is None,
        },
{
    let n = text.unicode_len();
    if n >= 2 && text.get_char(0) == ':' && text.get_char(1) == ':' {
        let rest = text.substring_char(2, n);
        proof {
            assert(text@.subrange(2, n as int) =~= text@.skip(2));
        }
        Some(rest)
    } else {
        None
    }
}

} // verus!
