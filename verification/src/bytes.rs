//! Byte-level helpers shared by the source scanner, the definition parser and
//! the symbol name handling: searching, comparing and copying byte ranges.

use vstd::prelude::*;
use vstd::string::StringSliceAdditionalSpecFns;
use vstd::utf8::{decode_utf8, valid_utf8};

verus! {

pub const BYTE_TAB: u8 = 9;
pub const BYTE_NEWLINE: u8 = 10;
pub const BYTE_FORMFEED: u8 = 12;
pub const BYTE_CR: u8 = 13;
pub const BYTE_SPACE: u8 = 32;
pub const BYTE_QUOTE: u8 = 34;
pub const BYTE_PERCENT: u8 = 37;
pub const BYTE_APOSTROPHE: u8 = 39;
pub const BYTE_STAR: u8 = 42;
pub const BYTE_PLUS: u8 = 43;
pub const BYTE_COMMA: u8 = 44;
pub const BYTE_MINUS: u8 = 45;
pub const BYTE_DOT: u8 = 46;
pub const BYTE_SLASH: u8 = 47;
pub const BYTE_DIGIT_0: u8 = 48;
pub const BYTE_DIGIT_9: u8 = 57;
pub const BYTE_EQUALS: u8 = 61;
pub const BYTE_UPPER_A: u8 = 65;
pub const BYTE_UPPER_F: u8 = 70;
pub const BYTE_UPPER_Z: u8 = 90;
pub const BYTE_LBRACKET: u8 = 91;
pub const BYTE_BACKSLASH: u8 = 92;
pub const BYTE_RBRACKET: u8 = 93;
pub const BYTE_UNDERSCORE: u8 = 95;
pub const BYTE_LOWER_A: u8 = 97;
pub const BYTE_LOWER_F: u8 = 102;
pub const BYTE_LOWER_Z: u8 = 122;

/// For a byte vector the deep view and the view agree.
pub broadcast proof fn lemma_bytes_deep_view(v: Vec<u8>)
    ensures
        #[trigger] v.deep_view() == v@,
{
    assert(v.deep_view() =~= v@);
}

/// The bytes that `u8::is_ascii_whitespace` accepts: space, tab, line feed,
/// form feed and carriage return.
pub open spec fn is_ascii_ws(b: u8) -> bool {
    b == BYTE_SPACE || b == BYTE_TAB || b == BYTE_NEWLINE || b == BYTE_FORMFEED || b == BYTE_CR
}

pub fn is_ascii_whitespace(b: u8) -> (r: bool)
    ensures
        r == is_ascii_ws(b),
{
    b == BYTE_SPACE || b == BYTE_TAB || b == BYTE_NEWLINE || b == BYTE_FORMFEED || b == BYTE_CR
}

pub open spec fn is_digit(b: u8) -> bool {
    BYTE_DIGIT_0 <= b <= BYTE_DIGIT_9
}

/// The predicate "equals `needle`".
pub open spec fn byte_is(needle: u8) -> spec_fn(u8) -> bool {
    |b: u8| b == needle
}

/// The predicate "equals one of the three needles".
pub open spec fn byte_in3(b1: u8, b2: u8, b3: u8) -> spec_fn(u8) -> bool {
    |b: u8| b == b1 || b == b2 || b == b3
}

/// The index of the first byte at or after `from` that satisfies `pred`.
pub open spec fn first_index_from(s: Seq<u8>, from: int, pred: spec_fn(u8) -> bool) -> Option<
    int,
>
    decreases s.len() - from,
{
    if from < 0 || from >= s.len() {
        None
    } else if pred(s[from]) {
        Some(from)
    } else {
        first_index_from(s, from + 1, pred)
    }
}

/// The index of the first occurrence of `needle` that starts at or after `from`.
pub open spec fn first_sub_from(s: Seq<u8>, from: int, needle: Seq<u8>) -> Option<int>
    decreases s.len() + 1 - from,
{
    if from < 0 || from + needle.len() > s.len() {
        None
    } else if s.subrange(from, from + needle.len()) == needle {
        Some(from)
    } else {
        first_sub_from(s, from + 1, needle)
    }
}

/// The index of the first byte at or after `i` that is not ASCII whitespace
/// (or the length of `s`).
pub open spec fn skip_ws(s: Seq<u8>, i: int) -> int
    decreases s.len() - i,
{
    if 0 <= i < s.len() && is_ascii_ws(s[i]) {
        skip_ws(s, i + 1)
    } else {
        i
    }
}

pub proof fn lemma_skip_ws_bounds(s: Seq<u8>, i: int)
    requires
        0 <= i <= s.len(),
    ensures
        i <= skip_ws(s, i) <= s.len(),
        skip_ws(s, i) < s.len() ==> !is_ascii_ws(s[skip_ws(s, i)]),
        forall|j: int| i <= j < skip_ws(s, i) ==> is_ascii_ws(#[trigger] s[j]),
    decreases s.len() - i,
{
    if i < s.len() && is_ascii_ws(s[i]) {
        lemma_skip_ws_bounds(s, i + 1);
    }
}

/// A search result that is characterised by quantifiers is the one that
/// `first_index_from` names.
pub proof fn lemma_first_index_from(s: Seq<u8>, from: int, pred: spec_fn(u8) -> bool, r: Option<int>)
    requires
        0 <= from <= s.len(),
        match r {
            Some(i) => from <= i < s.len() && pred(s[i]) && forall|j: int|
                from <= j < i ==> !pred(#[trigger] s[j]),
            None => forall|j: int| from <= j < s.len() ==> !pred(#[trigger] s[j]),
        },
    ensures
        first_index_from(s, from, pred) == r,
    decreases s.len() - from,
{
    if from < s.len() {
        if !pred(s[from]) {
            lemma_first_index_from(s, from + 1, pred, r);
        }
    }
}

pub proof fn lemma_first_index_from_bounds(s: Seq<u8>, from: int, pred: spec_fn(u8) -> bool)
    requires
        0 <= from,
    ensures
        first_index_from(s, from, pred) matches Some(i) ==> from <= i < s.len() && pred(s[i])
            && forall|j: int| from <= j < i ==> !pred(#[trigger] s[j]),
        first_index_from(s, from, pred) is None ==> forall|j: int|
            from <= j < s.len() ==> !pred(#[trigger] s[j]),
    decreases s.len() - from,
{
    if 0 <= from < s.len() && !pred(s[from]) {
        lemma_first_index_from_bounds(s, from + 1, pred);
    }
}

pub proof fn lemma_first_sub_from(s: Seq<u8>, from: int, needle: Seq<u8>, r: Option<int>)
    requires
        0 <= from <= s.len(),
        match r {
            Some(i) => from <= i && i + needle.len() <= s.len() && s.subrange(i, i + needle.len())
                == needle && forall|j: int|
                from <= j < i ==> #[trigger] s.subrange(j, j + needle.len()) != needle,
            None => forall|j: int|
                from <= j && j + needle.len() <= s.len() ==> #[trigger] s.subrange(
                    j,
                    j + needle.len(),
                ) != needle,
        },
    ensures
        first_sub_from(s, from, needle) == r,
    decreases s.len() + 1 - from,
{
    if from + needle.len() <= s.len() {
        if s.subrange(from, from + needle.len()) != needle {
            if needle.len() == 0 {
                assert(s.subrange(from, from) =~= needle);
            }
            lemma_first_sub_from(s, from + 1, needle, r);
        }
    }
}

pub proof fn lemma_first_sub_from_bounds(s: Seq<u8>, from: int, needle: Seq<u8>)
    requires
        0 <= from <= s.len(),
    ensures
        first_sub_from(s, from, needle) matches Some(i) ==> from <= i && i + needle.len()
            <= s.len() && s.subrange(i, i + needle.len()) == needle,
    decreases s.len() - from,
{
    if from + needle.len() <= s.len() && s.subrange(from, from + needle.len()) != needle {
        if needle.len() == 0 {
            assert(s.subrange(from, from) =~= needle);
        }
        lemma_first_sub_from_bounds(s, from + 1, needle);
    }
}

/// `memchr::memchr`: the index of the first occurrence of `needle` in
/// `haystack`, or `None` when the byte does not occur.
#[verifier::external_body]
fn memchr_first(needle: u8, haystack: &[u8]) -> (r: Option<usize>)
    ensures
        match r {
            Some(i) => i < haystack@.len() && haystack@[i as int] == needle && forall|j: int|
                0 <= j < i ==> #[trigger] haystack@[j] != needle,
            None => forall|j: int| 0 <= j < haystack@.len() ==> #[trigger] haystack@[j] != needle,
        },
{
    memchr::memchr(needle, haystack)
}

/// `memchr::memchr3`: the index of the first byte in `haystack` that equals
/// one of the three needles, or `None` when there is none.
#[verifier::external_body]
fn memchr3_first(needle1: u8, needle2: u8, needle3: u8, haystack: &[u8]) -> (r: Option<usize>)
    ensures
        match r {
            Some(i) => i < haystack@.len() && (haystack@[i as int] == needle1 || haystack@[i as int]
                == needle2 || haystack@[i as int] == needle3) && forall|j: int|
                0 <= j < i ==> #[trigger] haystack@[j] != needle1 && haystack@[j] != needle2
                    && haystack@[j] != needle3,
            None => forall|j: int|
                0 <= j < haystack@.len() ==> #[trigger] haystack@[j] != needle1 && haystack@[j]
                    != needle2 && haystack@[j] != needle3,
        },
{
    memchr::memchr3(needle1, needle2, needle3, haystack)
}

/// `memchr::memmem::find`: the index of the first occurrence of a non-empty
/// `needle` in `haystack`, or `None` when it does not occur.
#[verifier::external_body]
fn memmem_find(haystack: &[u8], needle: &[u8]) -> (r: Option<usize>)
    requires
        needle@.len() > 0,
    ensures
        match r {
            Some(i) => i + needle@.len() <= haystack@.len() && haystack@.subrange(
                i as int,
                i + needle@.len(),
            ) == needle@ && forall|j: int|
                0 <= j < i ==> #[trigger] haystack@.subrange(j, j + needle@.len()) != needle@,
            None => forall|j: int|
                0 <= j && j + needle@.len() <= haystack@.len() ==> #[trigger] haystack@.subrange(
                    j,
                    j + needle@.len(),
                ) != needle@,
        },
{
    memchr::memmem::find(haystack, needle)
}

/// The first index at or after `from` that holds `needle`.
pub fn find_byte_from(data: &[u8], from: usize, needle: u8) -> (r: Option<usize>)
    requires
        from <= data@.len(),
    ensures
        r matches Some(i) ==> i < data@.len(),
        r == (match first_index_from(data@, from as int, byte_is(needle)) {
            Some(i) => Some(i as usize),
            None => None::<usize>,
        }),
{
    let data_len = data.len();
    let (_, rest) = data.split_at(from);
    assert(rest@.len() == data_len - from);
    let found = memchr_first(needle, rest);
    let ghost pred = byte_is(needle);
    match found {
        Some(i) => {
            proof {
                assert forall|j: int| from <= j < from + i implies !pred(data@[j]) by {
                    assert(rest@[j - from] == data@[j]);
                }
                assert(rest@[i as int] == data@[from + i]);
                lemma_first_index_from(data@, from as int, pred, Some(from + i));
            }
            Some(from + i)
        },
        None => {
            proof {
                assert forall|j: int| from <= j < data@.len() implies !pred(data@[j]) by {
                    assert(rest@[j - from] == data@[j]);
                }
                lemma_first_index_from(data@, from as int, pred, None);
            }
            None
        },
    }
}

/// The first index at or after `from` that holds one of three bytes.
pub fn find_byte3_from(data: &[u8], from: usize, b1: u8, b2: u8, b3: u8) -> (r: Option<usize>)
    requires
        from <= data@.len(),
    ensures
        r matches Some(i) ==> i < data@.len(),
        r == (match first_index_from(data@, from as int, byte_in3(b1, b2, b3)) {
            Some(i) => Some(i as usize),
            None => None::<usize>,
        }),
{
    let data_len = data.len();
    let (_, rest) = data.split_at(from);
    assert(rest@.len() == data_len - from);
    let found = memchr3_first(b1, b2, b3, rest);
    let ghost pred = byte_in3(b1, b2, b3);
    match found {
        Some(i) => {
            proof {
                assert forall|j: int| from <= j < from + i implies !pred(data@[j]) by {
                    assert(rest@[j - from] == data@[j]);
                }
                assert(rest@[i as int] == data@[from + i]);
                lemma_first_index_from(data@, from as int, pred, Some(from + i));
            }
            Some(from + i)
        },
        None => {
            proof {
                assert forall|j: int| from <= j < data@.len() implies !pred(data@[j]) by {
                    assert(rest@[j - from] == data@[j]);
                }
                lemma_first_index_from(data@, from as int, pred, None);
            }
            None
        },
    }
}

/// The first index at or after `from` where a non-empty `needle` starts.
pub fn find_sub_from(data: &[u8], from: usize, needle: &[u8]) -> (r: Option<usize>)
    requires
        from <= data@.len(),
        needle@.len() > 0,
    ensures
        r matches Some(i) ==> i + needle@.len() <= data@.len(),
        r == (match first_sub_from(data@, from as int, needle@) {
            Some(i) => Some(i as usize),
            None => None::<usize>,
        }),
{
    let data_len = data.len();
    let (_, rest) = data.split_at(from);
    assert(rest@.len() == data_len - from);
    let found = memmem_find(rest, needle);
    match found {
        Some(i) => {
            proof {
                assert forall|j: int| from <= j < from + i implies #[trigger] data@.subrange(
                    j,
                    j + needle@.len(),
                ) != needle@ by {
                    assert(rest@.subrange(j - from, j - from + needle@.len()) =~= data@.subrange(
                        j,
                        j + needle@.len(),
                    ));
                }
                assert(rest@.subrange(i as int, i + needle@.len()) =~= data@.subrange(
                    from + i,
                    from + i + needle@.len(),
                ));
                lemma_first_sub_from(data@, from as int, needle@, Some(from + i));
            }
            Some(from + i)
        },
        None => {
            proof {
                assert forall|j: int|
                    from <= j && j + needle@.len() <= data@.len() implies #[trigger] data@.subrange(
                    j,
                    j + needle@.len(),
                ) != needle@ by {
                    assert(rest@.subrange(j - from, j - from + needle@.len()) =~= data@.subrange(
                        j,
                        j + needle@.len(),
                    ));
                }
                lemma_first_sub_from(data@, from as int, needle@, None);
            }
            None
        },
    }
}

/// Whether two byte slices hold the same bytes.
pub fn bytes_eq(a: &[u8], b: &[u8]) -> (r: bool)
    ensures
        r == (a@ == b@),
{
    if a.len() != b.len() {
        return false;
    }
    let mut i: usize = 0;
    while i < a.len()
        invariant
            i <= a@.len(),
            a@.len() == b@.len(),
            forall|j: int| 0 <= j < i ==> a@[j] == b@[j],
        decreases a@.len() - i,
    {
        if a[i] != b[i] {
            return false;
        }
        i += 1;
    }
    assert(a@ =~= b@);
    true
}

/// Whether a token holds exactly the bytes of a keyword.
pub fn token_is(token: &[u8], keyword: &str) -> (r: bool)
    ensures
        r == (token@ == keyword.spec_bytes()),
{
    bytes_eq(token, keyword.as_bytes())
}

/// Whether `s` starts with `prefix`.
pub fn starts_with(s: &[u8], prefix: &[u8]) -> (r: bool)
    ensures
        r == (prefix@.len() <= s@.len() && s@.subrange(0, prefix@.len() as int) == prefix@),
{
    if prefix.len() > s.len() {
        return false;
    }
    let mut i: usize = 0;
    while i < prefix.len()
        invariant
            i <= prefix@.len() <= s@.len(),
            forall|j: int| 0 <= j < i ==> s@[j] == prefix@[j],
        decreases prefix@.len() - i,
    {
        if s[i] != prefix[i] {
            assert(s@.subrange(0, prefix@.len() as int)[i as int] != prefix@[i as int]);
            return false;
        }
        i += 1;
    }
    assert(s@.subrange(0, prefix@.len() as int) =~= prefix@);
    true
}

/// A copy of the bytes `data[start..end]`.
pub fn copy_range(data: &[u8], start: usize, end: usize) -> (r: Vec<u8>)
    requires
        start <= end <= data@.len(),
    ensures
        r@ == data@.subrange(start as int, end as int),
{
    let mut out: Vec<u8> = Vec::new();
    let mut i: usize = start;
    while i < end
        invariant
            start <= i <= end <= data@.len(),
            out@ == data@.subrange(start as int, i as int),
        decreases end - i,
    {
        out.push(data[i]);
        i += 1;
        assert(out@ =~= data@.subrange(start as int, i as int));
    }
    out
}

/// The index of the first byte at or after `from` that is not ASCII whitespace.
pub fn skip_whitespace(s: &[u8], from: usize) -> (r: usize)
    requires
        from <= s@.len(),
    ensures
        r == skip_ws(s@, from as int),
        from <= r <= s@.len(),
{
    let mut i = from;
    while i < s.len() && is_ascii_whitespace(s[i])
        invariant
            from <= i <= s@.len(),
            skip_ws(s@, i as int) == skip_ws(s@, from as int),
        decreases s@.len() - i,
    {
        i += 1;
    }
    i
}

/// The text that `String::from_utf8_lossy` makes of a byte sequence: the
/// bytes decoded as UTF-8, with each invalid sequence replaced by U+FFFD.
pub uninterp spec fn utf8_lossy(b: Seq<u8>) -> Seq<char>;

/// `String::from_utf8_lossy(..).into_owned()`: the bytes as text, decoded as
/// UTF-8 (the result is named by `utf8_lossy`, a function of the bytes alone);
/// bytes that are valid UTF-8 are decoded unchanged, as std documents.
#[verifier::external_body]
pub(crate) fn lossy_string(b: &[u8]) -> (r: String)
    ensures
        r@ == utf8_lossy(b@),
        valid_utf8(b@) ==> r@ == decode_utf8(b@),
{
    String::from_utf8_lossy(b).into_owned()
}

/// `std::str::from_utf8(b).is_ok()`: whether the bytes are well-formed
/// UTF-8 (vstd's `valid_utf8`: no overlong encodings, no surrogates, no
/// code point above U+10FFFF), which is what the function accepts.
#[verifier::external_body]
pub(crate) fn is_valid_utf8(b: &[u8]) -> (r: bool)
    ensures
        r == valid_utf8(b@),
{
    std::str::from_utf8(b).is_ok()
}

/// The text that the `{:?}` format (`<str as Debug>::fmt`) writes for a
/// string: the string in double quotes, with its chars escaped as
/// `char::escape_debug` does.
pub uninterp spec fn debug_str_text(s: Seq<char>) -> Seq<char>;

/// `format!("{:?}", s)`: the string quoted and escaped for display (the
/// result is named by `debug_str_text`, a function of the string alone).
#[verifier::external_body]
pub(crate) fn debug_str(s: &str) -> (r: String)
    ensures
        r@ == debug_str_text(s@),
{
    format!("{:?}", s)
}
} // verus!
