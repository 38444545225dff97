//! The formats of the binary files that calibration data is read from and
//! written to, and how a file's format is told from its extension.

use vstd::prelude::*;
use vstd::string::StringSliceAdditionalSpecFns;
use crate::creator::definitions::{ByteOrderEnum, DataType};
use crate::symbol::{first_char_from, lemma_first_char_from};

verus! {

/// The text formats of binary images that calibration supports.
#[derive(Debug, Clone, Copy, PartialEq, Eq, Structural)]
pub enum BinFileFormat {
    SREC,
    IHEX,
}

/// A char in lower case where it is an ASCII upper-case letter.
pub open spec fn ascii_lower_char(c: char) -> char {
    if 'A' <= c <= 'Z' {
        ((c as u32) + 32) as char
    } else {
        c
    }
}

/// Whether `s`, lower-cased, is `word` (a lower-case ASCII word). For the
/// words that name formats this is what comparing `str::to_lowercase` with
/// the word decides: no char outside ASCII lower-cases to their letters.
pub open spec fn is_word_ignoring_case(s: Seq<char>, word: Seq<char>) -> bool {
    s.len() == word.len() && forall|i: int| 0 <= i < s.len() ==> ascii_lower_char(#[trigger] s[i]) == word[i]
}

/// The format that a file extension names: `srec`, `s19`, `s28`, `s37` for
/// Motorola S-records, `hex`, `ihex` for Intel HEX, in any case.
pub open spec fn format_of_extension(ext: Option<Seq<char>>) -> Option<BinFileFormat> {
    match ext {
        Some(e) => if is_word_ignoring_case(e, "srec"@) || is_word_ignoring_case(e, "s19"@)
            || is_word_ignoring_case(e, "s28"@) || is_word_ignoring_case(e, "s37"@) {
            Some(BinFileFormat::SREC)
        } else if is_word_ignoring_case(e, "hex"@) || is_word_ignoring_case(e, "ihex"@) {
            Some(BinFileFormat::IHEX)
        } else {
            None
        },
        None => None,
    }
}

/// The case of an extension does not matter: it names the same format as
/// its lower-case form.
pub proof fn law_extension_case_is_ignored(e: Seq<char>)
    ensures
        format_of_extension(Some(e)) == format_of_extension(Some(e.map_values(|c: char| ascii_lower_char(c)))),
{
    let lower = e.map_values(|c: char| ascii_lower_char(c));
    assert forall|i: int| 0 <= i < e.len() implies ascii_lower_char(#[trigger] lower[i]) == ascii_lower_char(e[i]) by {
        let c = e[i];
        if 'A' <= c <= 'Z' {
            assert(!('A' <= ascii_lower_char(c) <= 'Z'));
        }
    }
    assert forall|w: Seq<char>| is_word_ignoring_case(e, w) == is_word_ignoring_case(lower, w) by {
        if is_word_ignoring_case(e, w) {
            assert forall|i: int| 0 <= i < lower.len() implies ascii_lower_char(#[trigger] lower[i]) == w[i] by {
                assert(ascii_lower_char(lower[i]) == ascii_lower_char(e[i]));
            }
        }
        if is_word_ignoring_case(lower, w) {
            assert forall|i: int| 0 <= i < e.len() implies ascii_lower_char(#[trigger] e[i]) == w[i] by {
                assert(ascii_lower_char(lower[i]) == ascii_lower_char(e[i]));
            }
        }
    }
}

/// The extensions `srec`, `s19`, `s28` and `s37`, in any case, name
/// Motorola S-record files; `hex` and `ihex`, in any case, Intel HEX files;
/// no other extension names either.
pub proof fn law_known_extensions(e: Seq<char>)
    ensures
        ({
            let lower = e.map_values(|c: char| ascii_lower_char(c));
            &&& (lower == seq!['s', 'r', 'e', 'c'] || lower == seq!['s', '1', '9'] || lower == seq!['s', '2', '8']
                || lower == seq!['s', '3', '7']) ==> format_of_extension(Some(e)) == Some(BinFileFormat::SREC)
            &&& (lower == seq!['h', 'e', 'x'] || lower == seq!['i', 'h', 'e', 'x']) ==> format_of_extension(Some(e))
                == Some(BinFileFormat::IHEX)
            &&& format_of_extension(Some(e)) == Some(BinFileFormat::SREC) ==> (lower == seq!['s', 'r', 'e', 'c'] || lower
                == seq!['s', '1', '9'] || lower == seq!['s', '2', '8'] || lower == seq!['s', '3', '7'])
            &&& format_of_extension(Some(e)) == Some(BinFileFormat::IHEX) ==> (lower == seq!['h', 'e', 'x'] || lower
                == seq!['i', 'h', 'e', 'x'])
        }),
{
    reveal_strlit("srec");
    reveal_strlit("s19");
    reveal_strlit("s28");
    reveal_strlit("s37");
    reveal_strlit("hex");
    reveal_strlit("ihex");
    let lower = e.map_values(|c: char| ascii_lower_char(c));
    assert forall|w: Seq<char>| is_word_ignoring_case(e, w) implies lower =~= w by {
        assert forall|i: int| 0 <= i < w.len() implies lower[i] == w[i] by {
            assert(ascii_lower_char(e[i]) == w[i]);
        }
    }
    assert forall|w: Seq<char>| lower == w implies is_word_ignoring_case(e, w) by {
        assert forall|i: int| 0 <= i < e.len() implies ascii_lower_char(#[trigger] e[i]) == w[i] by {
            assert(lower[i] == ascii_lower_char(e[i]));
        }
    }
    assert("srec"@ =~= seq!['s', 'r', 'e', 'c']);
    assert("s19"@ =~= seq!['s', '1', '9']);
    assert("s28"@ =~= seq!['s', '2', '8']);
    assert("s37"@ =~= seq!['s', '3', '7']);
    assert("hex"@ =~= seq!['h', 'e', 'x']);
    assert("ihex"@ =~= seq!['i', 'h', 'e', 'x']);
}

fn lower_char(c: char) -> (r: char)
    ensures
        r == ascii_lower_char(c),
{
    if 'A' <= c && c <= 'Z' {
        let v: u32 = (c as u32) + 32;
        assert(0x61 <= v <= 0x7a);
        v as u8 as char
    } else {
        c
    }
}

fn is_word(s: &str, word: &str) -> (r: bool)
    ensures
        r == is_word_ignoring_case(s@, word@),
{
    let n = s.unicode_len();
    if n != word.unicode_len() {
        return false;
    }
    let mut i: usize = 0;
    while i < n
        invariant
            n == s@.len(),
            n == word@.len(),
            i <= n,
            forall|j: int| 0 <= j < i ==> ascii_lower_char(#[trigger] s@[j]) == word@[j],
        decreases n - i,
    {
        if lower_char(s.get_char(i)) != word.get_char(i) {
            return false;
        }
        i += 1;
    }
    true
}

/// The format of a binary file, told from its extension (`None` when the
/// file name has no extension that can be read as text).
pub fn guess_binfile_format(extension: Option<&str>) -> (r: Option<BinFileFormat>)
    ensures
        r == format_of_extension(
            match extension {
                Some(e) => Some(e@),
                None => None,
            },
        ),
{
    match extension {
        Some(ext) => {
            if is_word(ext, "srec") || is_word(ext, "s19") || is_word(ext, "s28") || is_word(ext, "s37") {
                Some(BinFileFormat::SREC)
            } else if is_word(ext, "hex") || is_word(ext, "ihex") {
                Some(BinFileFormat::IHEX)
            } else {
                None
            }
        },
        None => None,
    }
}


/// Whether `c` is white space by Unicode's White_Space property, which is
/// what `char::is_whitespace` and `str::trim` go by.
pub open spec fn is_unicode_ws(c: char) -> bool {
    ||| '\u{9}' <= c <= '\u{d}'
    ||| c == ' '
    ||| c == '\u{85}'
    ||| c == '\u{a0}'
    ||| c == '\u{1680}'
    ||| '\u{2000}' <= c <= '\u{200a}'
    ||| c == '\u{2028}'
    ||| c == '\u{2029}'
    ||| c == '\u{202f}'
    ||| c == '\u{205f}'
    ||| c == '\u{3000}'
}

/// The first index in `i..end` where `s` holds no white space, or `end`.
pub open spec fn ws_skip(s: Seq<char>, i: int, end: int) -> int
    decreases end - i,
{
    if i >= end {
        end
    } else if is_unicode_ws(s[i]) {
        ws_skip(s, i + 1, end)
    } else {
        i
    }
}

/// The end of `s[start..j]` once the white space at its end is dropped.
pub open spec fn ws_back(s: Seq<char>, start: int, j: int) -> int
    decreases j - start,
{
    if j <= start {
        start
    } else if is_unicode_ws(s[j - 1]) {
        ws_back(s, start, j - 1)
    } else {
        j
    }
}

/// `s` without white space at its start and end (`str::trim`).
pub open spec fn trimmed(s: Seq<char>) -> Seq<char> {
    let a = ws_skip(s, 0, s.len() as int);
    s.subrange(a, ws_back(s, a, s.len() as int))
}

/// `s` without one `'\r'` at its end.
pub open spec fn drop_cr(s: Seq<char>) -> Seq<char> {
    if s.len() > 0 && s.last() == '\r' {
        s.drop_last()
    } else {
        s
    }
}

/// The lines of `s` as `str::lines` yields them: split at each `'\n'`, with
/// a `'\r'` just before it dropped, and no empty line after a final `'\n'`.
pub open spec fn text_lines(s: Seq<char>) -> Seq<Seq<char>>
    decreases s.len(),
{
    if s.len() == 0 {
        seq![]
    } else {
        let j = first_char_from(s, '\n', 0, s.len() as int);
        if j < s.len() {
            proof {
                lemma_first_char_from(s, '\n', 0, s.len() as int);
            }
            seq![drop_cr(s.subrange(0, j))] + text_lines(s.subrange(j + 1, s.len() as int))
        } else {
            seq![s]
        }
    }
}

/// Whether `s[a..b]` is `s` trimmed: white space before `a` and from `b`
/// on, none at either end of `s[a..b]`, and `a == b == s.len()` where `s`
/// is all white space.
pub open spec fn trim_bounds(s: Seq<char>, a: int, b: int) -> bool {
    &&& 0 <= a <= b <= s.len()
    &&& forall|j: int| 0 <= j < a ==> is_unicode_ws(#[trigger] s[j])
    &&& forall|j: int| b <= j < s.len() ==> is_unicode_ws(#[trigger] s[j])
    &&& a < b ==> !is_unicode_ws(s[a]) && !is_unicode_ws(s[b - 1])
    &&& a == b ==> a == s.len()
}

proof fn lemma_ws_skip(s: Seq<char>, i: int, end: int)
    requires
        i <= end,
    ensures
        i <= ws_skip(s, i, end) <= end,
        forall|j: int| i <= j < ws_skip(s, i, end) ==> is_unicode_ws(#[trigger] s[j]),
        ws_skip(s, i, end) < end ==> !is_unicode_ws(s[ws_skip(s, i, end)]),
    decreases end - i,
{
    if i < end && is_unicode_ws(s[i]) {
        lemma_ws_skip(s, i + 1, end);
    }
}

proof fn lemma_ws_back(s: Seq<char>, start: int, j: int)
    requires
        start <= j,
    ensures
        start <= ws_back(s, start, j) <= j,
        forall|k: int| ws_back(s, start, j) <= k < j ==> is_unicode_ws(#[trigger] s[k]),
        ws_back(s, start, j) > start ==> !is_unicode_ws(s[ws_back(s, start, j) - 1]),
    decreases j - start,
{
    if j > start && is_unicode_ws(s[j - 1]) {
        lemma_ws_back(s, start, j - 1);
    }
}

/// The bounds that `trimmed` takes are the trim bounds of `s`.
proof fn lemma_trim_bounds(s: Seq<char>)
    ensures
        trim_bounds(s, ws_skip(s, 0, s.len() as int), ws_back(s, ws_skip(s, 0, s.len() as int), s.len() as int)),
{
    let n = s.len() as int;
    lemma_ws_skip(s, 0, n);
    let a = ws_skip(s, 0, n);
    lemma_ws_back(s, a, n);
}

/// Trim bounds are unique: where `s[a..b]` has them, it is `trimmed(s)`.
proof fn lemma_trimmed_is(s: Seq<char>, a: int, b: int)
    requires
        trim_bounds(s, a, b),
    ensures
        trimmed(s) == s.subrange(a, b),
{
    let n = s.len() as int;
    lemma_trim_bounds(s);
    let x = ws_skip(s, 0, n);
    let y = ws_back(s, x, n);
    if x < a {
        assert(is_unicode_ws(s[x]));
    }
    if a < x {
        assert(is_unicode_ws(s[a]));
    }
    assert(x == a);
    if y < b {
        assert(is_unicode_ws(s[b - 1]));
    }
    if b < y {
        assert(is_unicode_ws(s[y - 1]));
    }
    assert(y == b);
}

/// The bounds of `trimmed(s)` within `s`.
proof fn lemma_trimmed_bounds(s: Seq<char>) -> (r: (int, int))
    ensures
        trim_bounds(s, r.0, r.1),
        trimmed(s) == s.subrange(r.0, r.1),
{
    lemma_trim_bounds(s);
    let a = ws_skip(s, 0, s.len() as int);
    (a, ws_back(s, a, s.len() as int))
}

proof fn lemma_trimmed_idempotent(s: Seq<char>)
    ensures
        trimmed(trimmed(s)) == trimmed(s),
        trimmed(s).len() > 0 ==> !is_unicode_ws(trimmed(s)[0]) && !is_unicode_ws(trimmed(s).last()),
{
    let (a, b) = lemma_trimmed_bounds(s);
    let t = trimmed(s);
    lemma_trimmed_is(t, 0, t.len() as int);
    assert(t.subrange(0, t.len() as int) =~= t);
}

/// White space before `a` does not change what trimming gives.
proof fn lemma_trim_ws_prefix(s: Seq<char>, a: int)
    requires
        0 <= a <= s.len(),
        forall|j: int| 0 <= j < a ==> is_unicode_ws(#[trigger] s[j]),
    ensures
        trimmed(s.subrange(a, s.len() as int)) == trimmed(s),
{
    let (x, y) = lemma_trimmed_bounds(s);
    if x < a {
        assert(is_unicode_ws(s[x]));
    }
    let u = s.subrange(a, s.len() as int);
    assert forall|j: int| 0 <= j < x - a implies is_unicode_ws(#[trigger] u[j]) by {
        assert(u[j] == s[j + a]);
    }
    assert forall|j: int| y - a <= j < u.len() implies is_unicode_ws(#[trigger] u[j]) by {
        assert(u[j] == s[j + a]);
    }
    lemma_trimmed_is(u, x - a, y - a);
    assert(u.subrange(x - a, y - a) =~= s.subrange(x, y));
}

/// White space from `b` on does not change what trimming gives.
proof fn lemma_trim_ws_suffix(s: Seq<char>, b: int)
    requires
        0 <= b <= s.len(),
        forall|j: int| b <= j < s.len() ==> is_unicode_ws(#[trigger] s[j]),
    ensures
        trimmed(s.subrange(0, b)) == trimmed(s),
{
    let (x, y) = lemma_trimmed_bounds(s);
    let u = s.subrange(0, b);
    if x == y {
        assert forall|j: int| 0 <= j < b implies is_unicode_ws(#[trigger] u[j]) by {
            assert(u[j] == s[j]);
        }
        lemma_trimmed_is(u, b, b);
        assert(u.subrange(b, b) =~= s.subrange(x, y));
    } else {
        if y > b {
            assert(is_unicode_ws(s[y - 1]));
        }
        assert forall|j: int| 0 <= j < x implies is_unicode_ws(#[trigger] u[j]) by {
            assert(u[j] == s[j]);
        }
        assert forall|j: int| y <= j < b implies is_unicode_ws(#[trigger] u[j]) by {
            assert(u[j] == s[j]);
        }
        lemma_trimmed_is(u, x, y);
        assert(u.subrange(x, y) =~= s.subrange(x, y));
    }
}

/// `first_char_from` is the first index from `from` on that holds `c`.
proof fn lemma_first_char_is(s: Seq<char>, c: char, from: int, end: int, k: int)
    requires
        from <= k <= end,
        forall|j: int| from <= j < k ==> #[trigger] s[j] != c,
        k < end ==> s[k] == c,
    ensures
        first_char_from(s, c, from, end) == k,
    decreases k - from,
{
    if from < k {
        lemma_first_char_is(s, c, from + 1, end, k);
    }
}

proof fn lemma_first_char_props(s: Seq<char>, c: char, from: int, end: int)
    requires
        from <= end,
    ensures
        from <= first_char_from(s, c, from, end) <= end,
        forall|j: int| from <= j < first_char_from(s, c, from, end) ==> #[trigger] s[j] != c,
        first_char_from(s, c, from, end) < end ==> s[first_char_from(s, c, from, end)] == c,
    decreases end - from,
{
    if from < end && s[from] != c {
        lemma_first_char_props(s, c, from + 1, end);
    }
}

/// Trimming a line does not change the calibration it names.
proof fn lemma_entry_of_trimmed(line: Seq<char>)
    ensures
        csv_entry(trimmed(line)) == csv_entry(line),
{
    let n = line.len() as int;
    let (a, b) = lemma_trimmed_bounds(line);
    let t = trimmed(line);
    lemma_first_char_props(line, ';', 0, n);
    let k = first_char_from(line, ';', 0, n);
    lemma_first_char_props(t, ';', 0, t.len() as int);
    let kt = first_char_from(t, ';', 0, t.len() as int);
    if a == b {
        assert(t.len() == 0);
        assert(kt == 0);
        assert forall|j: int| 0 <= j < k implies is_unicode_ws(#[trigger] line.subrange(0, k)[j]) by {
            assert(line.subrange(0, k)[j] == line[j]);
        }
        lemma_trimmed_is(line.subrange(0, k), k, k);
        assert(trimmed(line.subrange(0, k)).len() == 0);
        assert(trimmed(t.subrange(0, kt)).len() == 0) by {
            assert(t.subrange(0, kt) =~= Seq::<char>::empty());
            lemma_trimmed_is(t.subrange(0, kt), 0, 0);
        }
    } else {
        if k < n {
            if k < a {
                assert(is_unicode_ws(line[k]));
            }
            if k >= b {
                assert(is_unicode_ws(line[k]));
            }
            assert(a <= k < b);
            assert forall|j: int| 0 <= j < k - a implies #[trigger] t[j] != ';' by {
                assert(t[j] == line[a + j]);
            }
            assert(t[k - a] == line[k]);
            lemma_first_char_is(t, ';', 0, t.len() as int, k - a);
            assert(kt == k - a);
            // The symbol: the same field, with white space in front dropped.
            let u = line.subrange(0, k);
            assert forall|j: int| 0 <= j < a implies is_unicode_ws(#[trigger] u[j]) by {
                assert(u[j] == line[j]);
            }
            lemma_trim_ws_prefix(u, a);
            assert(u.subrange(a, u.len() as int) =~= t.subrange(0, kt));
            // The value: the same field, with white space at the end dropped.
            let tl = line.subrange(k + 1, n);
            let tt = t.subrange(kt + 1, t.len() as int);
            assert(tt =~= tl.subrange(0, b - k - 1));
            lemma_first_char_props(tl, ';', 0, tl.len() as int);
            let k2 = first_char_from(tl, ';', 0, tl.len() as int);
            if k2 < tl.len() {
                if k2 >= b - k - 1 {
                    assert(tl[k2] == line[k + 1 + k2]);
                    assert(is_unicode_ws(line[k + 1 + k2]));
                }
                assert forall|j: int| 0 <= j < k2 implies #[trigger] tt[j] != ';' by {
                    assert(tt[j] == tl[j]);
                }
                assert(tt[k2] == tl[k2]);
                lemma_first_char_is(tt, ';', 0, tt.len() as int, k2);
                assert(tt.subrange(0, k2) =~= tl.subrange(0, k2));
            } else {
                assert forall|j: int| 0 <= j < tt.len() implies #[trigger] tt[j] != ';' by {
                    assert(tt[j] == tl[j]);
                }
                lemma_first_char_is(tt, ';', 0, tt.len() as int, tt.len() as int);
                assert forall|j: int| b - k - 1 <= j < tl.len() implies is_unicode_ws(#[trigger] tl[j]) by {
                    assert(tl[j] == line[k + 1 + j]);
                }
                lemma_trim_ws_suffix(tl, b - k - 1);
                assert(tt.subrange(0, tt.len() as int) =~= tl.subrange(0, b - k - 1));
                assert(tl.subrange(0, k2) =~= tl);
            }
        } else {
            assert forall|j: int| 0 <= j < t.len() implies #[trigger] t[j] != ';' by {
                assert(t[j] == line[a + j]);
            }
            lemma_first_char_is(t, ';', 0, t.len() as int, t.len() as int);
            assert(t.subrange(0, kt) =~= t);
            assert(line.subrange(0, k) =~= line);
            lemma_trimmed_idempotent(line);
        }
    }
}

/// A value that a CSV line can hold and give back as it is: trimmed, with
/// no `';'` and no line end in it.
pub open spec fn value_writable(v: Seq<char>) -> bool {
    &&& trimmed(v) == v
    &&& !v.contains(';')
    &&& !v.contains('\n')
}

/// A value as read back from a CSV line: an empty one reads as none.
pub open spec fn value_read(v: Seq<char>) -> Option<Seq<char>> {
    if v.len() > 0 {
        Some(v)
    } else {
        None
    }
}

/// The calibrations of `entries` once the values of `cals` are written in:
/// a symbol that one of `cals` has takes the value of the last of them.
pub open spec fn updated_entries(entries: Seq<CsvEntry>, cals: Seq<CsvEntry>) -> Seq<CsvEntry> {
    entries.map_values(|e: CsvEntry| match last_with_symbol(cals, e.0) {
        Some(i) => (e.0, value_read(value_text(cals[i].1))),
        None => e,
    })
}

/// The line `symbol;value` names the symbol with the value.
proof fn lemma_entry_of_pair(f: Seq<char>, v: Seq<char>)
    requires
        trimmed(f) == f,
        f.len() > 0,
        f[0] != '#',
        !f.contains(';'),
        value_writable(v),
    ensures
        csv_entry(f + seq![';'] + v) == Some((f, value_read(v))),
{
    let line = f + seq![';'] + v;
    assert forall|j: int| 0 <= j < f.len() implies #[trigger] line[j] != ';' by {
        assert(line[j] == f[j]);
    }
    lemma_first_char_is(line, ';', 0, line.len() as int, f.len() as int);
    assert(line.subrange(0, f.len() as int) =~= f);
    let tail = line.subrange(f.len() as int + 1, line.len() as int);
    assert(tail =~= v);
    lemma_first_char_is(tail, ';', 0, tail.len() as int, tail.len() as int);
    assert(tail.subrange(0, tail.len() as int) =~= v);
}

/// What a line of the text written back holds, before its line end.
pub open spec fn rewritten_body(line: Seq<char>, cals: Seq<CsvEntry>) -> Seq<char> {
    match csv_entry(line) {
        Some(e) => match last_with_symbol(cals, e.0) {
            Some(i) => cals[i].0 + seq![';'] + value_text(cals[i].1),
            None => trimmed(line),
        },
        None => trimmed(line),
    }
}

/// The symbol a line names is trimmed and holds no `';'`, nor any char that
/// the line does not hold.
proof fn lemma_entry_symbol(line: Seq<char>)
    ensures
        csv_entry(line) matches Some(e) ==> trimmed(e.0) == e.0 && !e.0.contains(';') && (!line.contains('\n')
            ==> !e.0.contains('\n')),
{
    let n = line.len() as int;
    lemma_first_char_props(line, ';', 0, n);
    let k = first_char_from(line, ';', 0, n);
    let u = line.subrange(0, k);
    lemma_trimmed_idempotent(u);
    let (a, b) = lemma_trimmed_bounds(u);
    let f = trimmed(u);
    assert forall|j: int| 0 <= j < f.len() implies #[trigger] f[j] != ';' && f[j] == line[a + j] by {
        assert(f[j] == u[a + j]);
    }
}

/// A line written back holds no line end, and does not end in `'\r'`, and
/// names the calibration that `updated_entries` gives for the line.
proof fn lemma_rewritten_body(line: Seq<char>, cals: Seq<CsvEntry>)
    requires
        !line.contains('\n'),
        forall|i: int| 0 <= i < cals.len() ==> value_writable(value_text(#[trigger] cals[i].1)),
    ensures
        !rewritten_body(line, cals).contains('\n'),
        drop_cr(rewritten_body(line, cals)) == rewritten_body(line, cals),
        csv_entry(rewritten_body(line, cals)) == match csv_entry(line) {
            Some(e) => match last_with_symbol(cals, e.0) {
                Some(i) => Some((e.0, value_read(value_text(cals[i].1)))),
                None => Some(e),
            },
            None => None,
        },
{
    let body = rewritten_body(line, cals);
    lemma_entry_of_trimmed(line);
    lemma_trimmed_idempotent(line);
    let (a, b) = lemma_trimmed_bounds(line);
    assert forall|j: int| 0 <= j < trimmed(line).len() implies #[trigger] trimmed(line)[j] != '\n' by {
        assert(trimmed(line)[j] == line[a + j]);
    }
    lemma_entry_symbol(line);
    match csv_entry(line) {
        Some(e) => match last_with_symbol(cals, e.0) {
            Some(i) => {
                lemma_last_with_symbol(cals, e.0);
                let v = value_text(cals[i].1);
                assert(value_writable(v));
                lemma_entry_of_pair(e.0, v);
                assert forall|j: int| 0 <= j < body.len() implies #[trigger] body[j] != '\n' by {
                    if j < e.0.len() {
                        assert(body[j] == e.0[j]);
                    } else if j > e.0.len() {
                        assert(body[j] == v[j - e.0.len() - 1]);
                    }
                }
                lemma_trimmed_idempotent(v);
                if v.len() > 0 {
                    assert(body.last() == v.last());
                } else {
                    assert(body.last() == ';');
                }
            },
            None => {},
        },
        None => {},
    }
}

proof fn lemma_text_lines_cons(a: Seq<char>, b: Seq<char>)
    requires
        !a.contains('\n'),
    ensures
        text_lines(a + seq!['\n'] + b) == seq![drop_cr(a)] + text_lines(b),
{
    let s = a + seq!['\n'] + b;
    assert forall|j: int| 0 <= j < a.len() implies #[trigger] s[j] != '\n' by {
        assert(s[j] == a[j]);
    }
    assert(s[a.len() as int] == '\n');
    lemma_first_char_is(s, '\n', 0, s.len() as int, a.len() as int);
    assert(s.subrange(0, a.len() as int) =~= a);
    assert(s.subrange(a.len() as int + 1, s.len() as int) =~= b);
}

proof fn lemma_text_lines_no_newline(s: Seq<char>)
    ensures
        forall|i: int| 0 <= i < text_lines(s).len() ==> !(#[trigger] text_lines(s)[i]).contains('\n'),
    decreases s.len(),
{
    if s.len() > 0 {
        let n = s.len() as int;
        lemma_first_char_props(s, '\n', 0, n);
        let j = first_char_from(s, '\n', 0, n);
        if j < n {
            let rest = s.subrange(j + 1, n);
            lemma_text_lines_no_newline(rest);
            let line = drop_cr(s.subrange(0, j));
            assert forall|k: int| 0 <= k < line.len() implies #[trigger] line[k] != '\n' by {
                assert(line[k] == s[k]);
            }
            assert forall|i: int| 0 <= i < text_lines(s).len() implies !(#[trigger] text_lines(s)[i]).contains('\n') by {
                if i > 0 {
                    assert(text_lines(s)[i] == text_lines(rest)[i - 1]);
                }
            }
        }
    }
}

proof fn lemma_read_back(lines: Seq<Seq<char>>, cals: Seq<CsvEntry>)
    requires
        forall|i: int| 0 <= i < lines.len() ==> !(#[trigger] lines[i]).contains('\n'),
        forall|i: int| 0 <= i < cals.len() ==> value_writable(value_text(#[trigger] cals[i].1)),
    ensures
        csv_entries(text_lines(rewritten_csv(lines, cals))) == updated_entries(csv_entries(lines), cals),
    decreases lines.len(),
{
    if lines.len() == 0 {
        assert(text_lines(Seq::<char>::empty()) == Seq::<Seq<char>>::empty());
        assert(updated_entries(Seq::<CsvEntry>::empty(), cals) =~= Seq::<CsvEntry>::empty());
    } else {
        let line = lines[0];
        let rest = lines.drop_first();
        assert forall|i: int| 0 <= i < rest.len() implies !(#[trigger] rest[i]).contains('\n') by {
            assert(rest[i] == lines[i + 1]);
        }
        lemma_read_back(rest, cals);
        let body = rewritten_body(line, cals);
        lemma_rewritten_body(line, cals);
        assert(rewritten_line(line, cals) == body + seq!['\n']);
        let tail = rewritten_csv(rest, cals);
        assert(rewritten_csv(lines, cals) =~= body + seq!['\n'] + tail);
        lemma_text_lines_cons(body, tail);
        lemma_entries_cons(body, text_lines(tail));
        let upd = |e: CsvEntry| match last_with_symbol(cals, e.0) {
            Some(i) => (e.0, value_read(value_text(cals[i].1))),
            None => e,
        };
        match csv_entry(line) {
            Some(e) => {
                assert(updated_entries(csv_entries(lines), cals) =~= seq![upd(e)] + updated_entries(
                    csv_entries(rest),
                    cals,
                ));
            },
            None => {},
        }
    }
}

/// Writing calibrations into a CSV text and reading it back gives the
/// symbols that the text named, in their order, each with the value of the
/// last calibration with that symbol (an empty value reads back as none),
/// where each value is trimmed and holds no `';'` and no line end.
pub proof fn law_read_back_written_csv(text: Seq<char>, cals: Seq<CsvEntry>)
    requires
        forall|i: int| 0 <= i < cals.len() ==> value_writable(value_text(#[trigger] cals[i].1)),
    ensures
        csv_entries(text_lines(rewritten_csv(text_lines(text), cals))) == updated_entries(
            csv_entries(text_lines(text)),
            cals,
        ),
{
    lemma_text_lines_no_newline(text);
    lemma_read_back(text_lines(text), cals);
}

fn is_ws(c: char) -> (r: bool)
    ensures
        r == is_unicode_ws(c),
{
    ('\u{9}' <= c && c <= '\u{d}') || c == ' ' || c == '\u{85}' || c == '\u{a0}' || c == '\u{1680}'
        || ('\u{2000}' <= c && c <= '\u{200a}') || c == '\u{2028}' || c == '\u{2029}' || c == '\u{202f}'
        || c == '\u{205f}' || c == '\u{3000}'
}

/// The bounds of `chars[a..b]` once trimmed.
fn trim_range(chars: &Vec<char>, a: usize, b: usize) -> (r: (usize, usize))
    requires
        a <= b <= chars.len(),
    ensures
        a <= r.0 <= r.1 <= b,
        chars@.subrange(r.0 as int, r.1 as int) == trimmed(chars@.subrange(a as int, b as int)),
{
    let ghost sub = chars@.subrange(a as int, b as int);
    let ghost n = (b - a) as int;
    let mut i = a;
    while i < b && is_ws(chars[i])
        invariant
            a <= i <= b <= chars.len(),
            sub == chars@.subrange(a as int, b as int),
            n == b - a,
            ws_skip(sub, 0, n) == ws_skip(sub, i - a, n),
        decreases b - i,
    {
        i += 1;
    }
    let mut j = b;
    while j > i && is_ws(chars[j - 1])
        invariant
            a <= i <= j <= b <= chars.len(),
            sub == chars@.subrange(a as int, b as int),
            n == b - a,
            ws_skip(sub, 0, n) == i - a,
            ws_back(sub, i - a, n) == ws_back(sub, i - a, j - a),
        decreases j,
    {
        j -= 1;
    }
    assert(chars@.subrange(i as int, j as int) =~= sub.subrange(i - a, j - a));
    (i, j)
}

/// The first index in `a..b` where `chars` holds `c`, or `b`.
fn find_in(chars: &Vec<char>, c: char, a: usize, b: usize) -> (r: usize)
    requires
        a <= b <= chars.len(),
    ensures
        a <= r <= b,
        r == a + first_char_from(chars@.subrange(a as int, b as int), c, 0, b - a),
{
    let ghost sub = chars@.subrange(a as int, b as int);
    let mut i = a;
    while i < b && chars[i] != c
        invariant
            a <= i <= b <= chars.len(),
            sub == chars@.subrange(a as int, b as int),
            first_char_from(sub, c, 0, b - a) == first_char_from(sub, c, i - a, b - a),
        decreases b - i,
    {
        i += 1;
    }
    i
}

/// The chars of `text`, collected once so that they can be read by index.
fn text_chars(text: &str) -> (r: Vec<char>)
    ensures
        r@ == text@,
{
    let mut v: Vec<char> = Vec::new();
    for c in it: text.chars()
        invariant
            v@ == it.seq().take(it.index()),
    {
        v.push(c);
    }
    assert(v@ == text@);
    v
}

/// A calibration named in a CSV file: its symbol and its value as text, and
/// what the A2L description tells of its address, element size, number of
/// elements, data type and byte order.
#[derive(Debug, Clone)]
pub struct Calibration {
    pub symbol: String,
    pub value_repr: Option<String>,
    pub address: Option<u32>,
    pub size: Option<u16>,
    pub dim: Option<u16>,
    pub dtype: Option<DataType>,
    pub endianess: ByteOrderEnum,
}

/// What a line of a calibration CSV file says: a symbol and, where a second
/// field is given, a value.
pub type CsvEntry = (Seq<char>, Option<Seq<char>>);

/// The symbol and value of a calibration, as text.
pub open spec fn calibration_entry(c: Calibration) -> CsvEntry {
    (c.symbol@, match c.value_repr {
        Some(v) => Some(v@),
        None => None,
    })
}

/// The calibration that a CSV line names. Fields are separated by `';'`;
/// the first, trimmed, is the symbol, and a line whose symbol is empty or
/// starts with `'#'` names none. The second field, trimmed, is the value,
/// where it is there and not empty.
pub open spec fn csv_entry(line: Seq<char>) -> Option<CsvEntry> {
    let k = first_char_from(line, ';', 0, line.len() as int);
    let symbol = trimmed(line.subrange(0, k));
    if symbol.len() > 0 && symbol[0] != '#' {
        let value = if k < line.len() {
            let tail = line.subrange(k + 1, line.len() as int);
            let v = trimmed(tail.subrange(0, first_char_from(tail, ';', 0, tail.len() as int)));
            if v.len() > 0 {
                Some(v)
            } else {
                None
            }
        } else {
            None
        };
        Some((symbol, value))
    } else {
        None
    }
}

/// The calibrations that the lines name, in order.
pub open spec fn csv_entries(lines: Seq<Seq<char>>) -> Seq<CsvEntry>
    decreases lines.len(),
{
    if lines.len() == 0 {
        seq![]
    } else {
        match csv_entry(lines[0]) {
            Some(e) => seq![e] + csv_entries(lines.drop_first()),
            None => csv_entries(lines.drop_first()),
        }
    }
}

/// Whether a calibration holds only what the CSV file gave it, with the
/// default byte order.
pub open spec fn fresh_calibration(c: Calibration, default_endianess: ByteOrderEnum) -> bool {
    &&& c.address is None
    &&& c.size is None
    &&& c.dim is None
    &&& c.dtype is None
    &&& c.endianess == default_endianess
}

proof fn lemma_entries_cons(line: Seq<char>, rest: Seq<Seq<char>>)
    ensures
        csv_entries(seq![line] + rest) == match csv_entry(line) {
            Some(e) => seq![e] + csv_entries(rest),
            None => csv_entries(rest),
        },
{
    assert((seq![line] + rest).drop_first() =~= rest);
    assert((seq![line] + rest)[0] == line);
}

/// The calibration that the line `chars[a..b]` names, if any.
fn parse_csv_line(
    text: &str,
    chars: &Vec<char>,
    a: usize,
    b: usize,
    default_endianess: ByteOrderEnum,
) -> (r: Option<Calibration>)
    requires
        chars@ == text@,
        a <= b <= chars.len(),
    ensures
        match r {
            Some(c) => csv_entry(chars@.subrange(a as int, b as int)) == Some(calibration_entry(c))
                && fresh_calibration(c, default_endianess),
            None => csv_entry(chars@.subrange(a as int, b as int)) is None,
        },
{
    let ghost line = chars@.subrange(a as int, b as int);
    let k = find_in(chars, ';', a, b);
    let (s0, s1) = trim_range(chars, a, k);
    assert(line.subrange(0, k - a) =~= chars@.subrange(a as int, k as int));
    if s0 < s1 && chars[s0] != '#' {
        let symbol = String::from_str(text.substring_char(s0, s1));
        let mut value: Option<String> = None;
        if k < b {
            let k2 = find_in(chars, ';', k + 1, b);
            let (v0, v1) = trim_range(chars, k + 1, k2);
            proof {
                let tail = line.subrange(k - a + 1, line.len() as int);
                assert(tail =~= chars@.subrange(k + 1, b as int));
                assert(tail.subrange(0, k2 - k - 1) =~= chars@.subrange(k + 1, k2 as int));
            }
            if v0 < v1 {
                value = Some(String::from_str(text.substring_char(v0, v1)));
            }
        }
        Some(Calibration {
            symbol,
            value_repr: value,
            address: None,
            size: None,
            dim: None,
            dtype: None,
            endianess: default_endianess,
        })
    } else {
        None
    }
}

/// The next line of `chars[p..n]`: it is `chars[p..r.0]`, and the lines
/// after it start at `r.1`.
fn next_line(chars: &Vec<char>, p: usize, n: usize) -> (r: (usize, usize))
    requires
        p < n == chars.len(),
    ensures
        p <= r.0 <= r.1 <= n,
        p < r.1,
        text_lines(chars@.subrange(p as int, n as int)) == seq![chars@.subrange(p as int, r.0 as int)]
            + text_lines(chars@.subrange(r.1 as int, n as int)),
{
    let ghost rest = chars@.subrange(p as int, n as int);
    let j = find_in(chars, '\n', p, n);
    let e = if j < n && j > p && chars[j - 1] == '\r' {
        j - 1
    } else {
        j
    };
    let next = if j < n {
        j + 1
    } else {
        n
    };
    let ghost line = chars@.subrange(p as int, e as int);
    proof {
        assert(rest.len() > 0);
        if j < n {
            assert(rest.subrange(0, j - p) =~= chars@.subrange(p as int, j as int));
            assert(drop_cr(rest.subrange(0, j - p)) =~= line);
            assert(rest.subrange(j - p + 1, rest.len() as int) =~= chars@.subrange(next as int, n as int));
        } else {
            assert(chars@.subrange(next as int, n as int) =~= Seq::<char>::empty());
            assert(text_lines(chars@.subrange(next as int, n as int)) == Seq::<Seq<char>>::empty());
            assert(text_lines(rest) =~= seq![line] + Seq::<Seq<char>>::empty());
        }
    }
    (e, next)
}

/// The calibrations that a CSV text lists, one for each line whose first
/// field names a symbol, in the order of the lines; each has only its
/// symbol and value and the default byte order.
pub fn read_calibrations_csv(text: &str, default_endianess: ByteOrderEnum) -> (r: Vec<Calibration>)
    ensures
        r@.map_values(|c: Calibration| calibration_entry(c)) == csv_entries(text_lines(text@)),
        forall|i: int| 0 <= i < r.len() ==> fresh_calibration(#[trigger] r@[i], default_endianess),
{
    let chars = text_chars(text);
    let n = chars.len();
    let mut out: Vec<Calibration> = Vec::new();
    let mut p: usize = 0;
    assert(chars@.subrange(0, n as int) =~= chars@);
    while p < n
        invariant
            chars@ == text@,
            n == chars.len(),
            p <= n,
            csv_entries(text_lines(text@)) == out@.map_values(|c: Calibration| calibration_entry(c))
                + csv_entries(text_lines(chars@.subrange(p as int, n as int))),
            forall|i: int| 0 <= i < out.len() ==> fresh_calibration(#[trigger] out@[i], default_endianess),
        decreases n - p,
    {
        let ghost before = out@.map_values(|c: Calibration| calibration_entry(c));
        let (e, next) = next_line(&chars, p, n);
        proof {
            lemma_entries_cons(chars@.subrange(p as int, e as int), text_lines(chars@.subrange(next as int, n as int)));
        }
        match parse_csv_line(text, &chars, p, e, default_endianess) {
            Some(c) => {
                out.push(c);
                assert(out@.map_values(|c: Calibration| calibration_entry(c)) =~= before + seq![calibration_entry(c)]);
            },
            None => {},
        }
        p = next;
    }
    assert(chars@.subrange(p as int, n as int) =~= Seq::<char>::empty());
    assert(out@.map_values(|c: Calibration| calibration_entry(c)) + Seq::<CsvEntry>::empty()
        =~= out@.map_values(|c: Calibration| calibration_entry(c)));
    out
}

/// The index of the last calibration in `cals` with the given symbol: the one
/// that a lookup by symbol finds, as later calibrations replace earlier ones.
pub open spec fn last_with_symbol(cals: Seq<CsvEntry>, symbol: Seq<char>) -> Option<int>
    decreases cals.len(),
{
    if cals.len() == 0 {
        None
    } else if cals.last().0 == symbol {
        Some(cals.len() - 1)
    } else {
        last_with_symbol(cals.drop_last(), symbol)
    }
}

proof fn lemma_last_with_symbol(cals: Seq<CsvEntry>, symbol: Seq<char>)
    ensures
        last_with_symbol(cals, symbol) matches Some(i) ==> 0 <= i < cals.len() && cals[i].0 == symbol,
    decreases cals.len(),
{
    if cals.len() > 0 && cals.last().0 != symbol {
        lemma_last_with_symbol(cals.drop_last(), symbol);
    }
}

/// A value as written to the CSV file: empty where there is none.
pub open spec fn value_text(v: Option<Seq<char>>) -> Seq<char> {
    match v {
        Some(t) => t,
        None => seq![],
    }
}

/// A line of the CSV file as it is written back, with its line end: a line
/// that names a symbol of one of `cals` becomes `symbol;value` of the last
/// such calibration, and every other line is kept, trimmed.
pub open spec fn rewritten_line(line: Seq<char>, cals: Seq<CsvEntry>) -> Seq<char> {
    match csv_entry(line) {
        Some(e) => match last_with_symbol(cals, e.0) {
            Some(i) => cals[i].0 + seq![';'] + value_text(cals[i].1) + seq!['\n'],
            None => trimmed(line) + seq!['\n'],
        },
        None => trimmed(line) + seq!['\n'],
    }
}

/// The CSV text written back from its lines.
pub open spec fn rewritten_csv(lines: Seq<Seq<char>>, cals: Seq<CsvEntry>) -> Seq<char>
    decreases lines.len(),
{
    if lines.len() == 0 {
        seq![]
    } else {
        rewritten_line(lines[0], cals) + rewritten_csv(lines.drop_first(), cals)
    }
}

proof fn lemma_rewritten_cons(line: Seq<char>, rest: Seq<Seq<char>>, cals: Seq<CsvEntry>)
    ensures
        rewritten_csv(seq![line] + rest, cals) == rewritten_line(line, cals) + rewritten_csv(rest, cals),
{
    assert((seq![line] + rest).drop_first() =~= rest);
    assert((seq![line] + rest)[0] == line);
}

/// Whether `chars[a..b]` spells `s`.
fn chars_eq(chars: &Vec<char>, a: usize, b: usize, s: &str) -> (r: bool)
    requires
        a <= b <= chars.len(),
    ensures
        r == (chars@.subrange(a as int, b as int) == s@),
{
    let n = s.unicode_len();
    if n != b - a {
        return false;
    }
    let mut i: usize = 0;
    while i < n
        invariant
            a <= b <= chars.len(),
            n == s@.len(),
            n == b - a,
            i <= n,
            forall|j: int| 0 <= j < i ==> chars@[a + j] == s@[j],
        decreases n - i,
    {
        if chars[a + i] != s.get_char(i) {
            return false;
        }
        i += 1;
    }
    assert(chars@.subrange(a as int, b as int) =~= s@);
    true
}

/// The index of the last calibration whose symbol is `chars[a..b]`.
fn find_last_calibration(cals: &[Calibration], chars: &Vec<char>, a: usize, b: usize) -> (r: Option<usize>)
    requires
        a <= b <= chars.len(),
    ensures
        match r {
            Some(j) => last_with_symbol(cals@.map_values(|c: Calibration| calibration_entry(c)),
                chars@.subrange(a as int, b as int)) == Some(j as int),
            None => last_with_symbol(cals@.map_values(|c: Calibration| calibration_entry(c)),
                chars@.subrange(a as int, b as int)) is None,
        },
{
    let ghost view = cals@.map_values(|c: Calibration| calibration_entry(c));
    let ghost sym = chars@.subrange(a as int, b as int);
    let mut i = cals.len();
    assert(view.take(i as int) =~= view);
    while i > 0
        invariant
            i <= cals.len(),
            a <= b <= chars.len(),
            view == cals@.map_values(|c: Calibration| calibration_entry(c)),
            sym == chars@.subrange(a as int, b as int),
            last_with_symbol(view, sym) == last_with_symbol(view.take(i as int), sym),
        decreases i,
    {
        assert(view.take(i as int).last() == calibration_entry(cals@[i - 1]));
        if chars_eq(chars, a, b, cals[i - 1].symbol.as_str()) {
            return Some(i - 1);
        }
        assert(view.take(i as int).drop_last() =~= view.take(i - 1));
        i -= 1;
    }
    None
}

/// Appends the line `chars[a..b]` as it is written back.
fn write_csv_line(
    text: &str,
    chars: &Vec<char>,
    a: usize,
    b: usize,
    calibrations: &[Calibration],
    out: &mut String,
)
    requires
        chars@ == text@,
        a <= b <= chars.len(),
    ensures
        final(out)@ == old(out)@ + rewritten_line(
            chars@.subrange(a as int, b as int),
            calibrations@.map_values(|c: Calibration| calibration_entry(c)),
        ),
{
    let ghost cals = calibrations@.map_values(|c: Calibration| calibration_entry(c));
    let ghost line = chars@.subrange(a as int, b as int);
    proof {
        reveal_strlit(";");
        reveal_strlit("\n");
    }
    let k = find_in(chars, ';', a, b);
    let (f0, f1) = trim_range(chars, a, k);
    assert(line.subrange(0, k - a) =~= chars@.subrange(a as int, k as int));
    let mut found: Option<usize> = None;
    if f0 < f1 && chars[f0] != '#' {
        found = find_last_calibration(calibrations, chars, f0, f1);
    }
    match found {
        Some(i) => {
            proof {
                lemma_last_with_symbol(cals, chars@.subrange(f0 as int, f1 as int));
            }
            assert(cals[i as int] == calibration_entry(calibrations@[i as int]));
            out.append(calibrations[i].symbol.as_str());
            out.append(";");
            match &calibrations[i].value_repr {
                Some(v) => out.append(v.as_str()),
                None => {},
            }
            out.append("\n");
            assert(out@ =~= old(out)@ + rewritten_line(line, cals));
        },
        None => {
            let (s0, s1) = trim_range(chars, a, b);
            out.append(text.substring_char(s0, s1));
            out.append("\n");
            assert(out@ =~= old(out)@ + rewritten_line(line, cals));
        },
    }
}

/// The CSV text written back: each line that names a calibration of
/// `calibrations` becomes `symbol;value` of the last calibration with that
/// symbol (an empty value where it has none), every other line is kept,
/// trimmed; each line ends with `'\n'`.
pub fn write_calibrations_csv(text: &str, calibrations: &[Calibration]) -> (r: String)
    ensures
        r@ == rewritten_csv(text_lines(text@), calibrations@.map_values(|c: Calibration| calibration_entry(c))),
{
    let ghost cals = calibrations@.map_values(|c: Calibration| calibration_entry(c));
    let chars = text_chars(text);
    let n = chars.len();
    let mut out = String::new();
    let mut p: usize = 0;
    assert(chars@.subrange(0, n as int) =~= chars@);
    while p < n
        invariant
            chars@ == text@,
            n == chars.len(),
            p <= n,
            cals == calibrations@.map_values(|c: Calibration| calibration_entry(c)),
            rewritten_csv(text_lines(text@), cals) == out@ + rewritten_csv(
                text_lines(chars@.subrange(p as int, n as int)),
                cals,
            ),
        decreases n - p,
    {
        let (e, next) = next_line(&chars, p, n);
        proof {
            lemma_rewritten_cons(chars@.subrange(p as int, e as int), text_lines(chars@.subrange(next as int, n as int)), cals);
        }
        write_csv_line(text, &chars, p, e, calibrations, &mut out);
        p = next;
    }
    assert(chars@.subrange(p as int, n as int) =~= Seq::<char>::empty());
    assert(out@ + Seq::<char>::empty() =~= out@);
    out
}

} // verus!
