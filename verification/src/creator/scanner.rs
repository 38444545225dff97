//! Scanning C/C++ source text for creator definitions.
//!
//! A definition lives in a comment whose lines start with a command prefix
//! (in practice `@@`). The scanner tracks string and character literals so
//! that comment markers inside them are not mistaken for comments, and splits
//! each command line into tokens.

use vstd::prelude::*;
use crate::bytes::{
    BYTE_APOSTROPHE, BYTE_BACKSLASH, BYTE_COMMA, BYTE_EQUALS, BYTE_LBRACKET, BYTE_NEWLINE,
    BYTE_QUOTE, BYTE_RBRACKET, BYTE_SLASH, BYTE_STAR, byte_in3, byte_is, copy_range,
    find_byte3_from, find_byte_from, find_sub_from, first_index_from, first_sub_from,
    is_ascii_whitespace, is_ascii_ws, lemma_bytes_deep_view, lemma_first_index_from_bounds,
    lemma_first_sub_from_bounds, skip_whitespace, skip_ws, starts_with,
};

verus! {

broadcast use lemma_bytes_deep_view;

/// Finds creator command comments in source text.
pub struct CommentScanner<'prefix> {
    comment_prefix: &'prefix [u8],
}

/// Commands found in a source: the offset of the comment that starts each
/// command and its tokens.
pub type ScannedCommands = Vec<(usize, Vec<Vec<u8>>)>;

// ---------------------------------------------------------------------------
// Specification of the scanner
// ---------------------------------------------------------------------------

/// Bytes that end a plain token: ASCII whitespace and `=`.
pub open spec fn ws_or_equals() -> spec_fn(u8) -> bool {
    |b: u8| is_ascii_ws(b) || b == BYTE_EQUALS
}

/// The bytes `],` that separate a range from its step value.
pub open spec fn range_step_marker() -> Seq<u8> {
    seq![BYTE_RBRACKET, BYTE_COMMA]
}

/// The bytes `*/` that close a block comment.
pub open spec fn block_end_marker() -> Seq<u8> {
    seq![BYTE_STAR, BYTE_SLASH]
}

/// Prepends `p` to a token list, keeping a failure a failure.
pub open spec fn prepend_parts(p: Seq<Seq<u8>>, rest: Option<Seq<Seq<u8>>>) -> Option<
    Seq<Seq<u8>>,
> {
    match rest {
        Some(r) => Some(p + r),
        None => None,
    }
}

/// The end of the plain token that starts at `i`: the first whitespace or `=`
/// after it, or the end of the line.
pub open spec fn word_end(line: Seq<u8>, i: int) -> int {
    match first_index_from(line, i, ws_or_equals()) {
        Some(e) => e,
        None => line.len() as int,
    }
}

/// A plain token, split around the range/step marker `],` where it holds one:
/// `1.0],5` becomes `1.0`, `]`, `,`, `5`.
pub open spec fn word_parts(token: Seq<u8>) -> Seq<Seq<u8>> {
    match first_sub_from(token, 0, range_step_marker()) {
        Some(p) => (if p > 0 {
            seq![token.subrange(0, p)]
        } else {
            seq![]
        }) + seq![token.subrange(p, p + 1), token.subrange(p + 1, p + 2)] + (if p + 2
            < token.len() {
            seq![token.subrange(p + 2, token.len() as int)]
        } else {
            seq![]
        }),
        None => seq![token],
    }
}

/// The tokens of a command line from index `i` on. Tokens are separated by
/// whitespace; a double-quoted string is one token including its quotes, `=`
/// and `[` are tokens of their own. `None` when a string has no closing quote.
pub open spec fn split_tokens(line: Seq<u8>, i: int) -> Option<Seq<Seq<u8>>>
    decreases line.len() - i,
{
    if i < 0 || i >= line.len() {
        Some(seq![])
    } else if is_ascii_ws(line[i]) {
        split_tokens(line, i + 1)
    } else if line[i] == BYTE_QUOTE {
        match first_index_from(line, i + 1, byte_is(BYTE_QUOTE)) {
            Some(e) => {
                proof {
                    lemma_first_index_from_bounds(line, i + 1, byte_is(BYTE_QUOTE));
                }
                prepend_parts(seq![line.subrange(i, e + 1)], split_tokens(line, e + 1))
            },
            None => None,
        }
    } else if line[i] == BYTE_EQUALS || line[i] == BYTE_LBRACKET {
        prepend_parts(seq![line.subrange(i, i + 1)], split_tokens(line, i + 1))
    } else {
        proof {
            lemma_first_index_from_bounds(line, i, ws_or_equals());
        }
        prepend_parts(
            word_parts(line.subrange(i, word_end(line, i))),
            split_tokens(line, word_end(line, i)),
        )
    }
}

/// Every token of a command line is non-empty: the parser can rely on
/// reading at least one byte of each.
pub proof fn law_tokens_not_empty(line: Seq<u8>, i: int)
    requires
        0 <= i,
    ensures
        split_tokens(line, i) matches Some(ts) ==> forall|k: int| 0 <= k < ts.len() ==> (#[trigger] ts[k]).len() > 0,
    decreases line.len() - i,
{
    if i < line.len() {
        if is_ascii_ws(line[i]) {
            law_tokens_not_empty(line, i + 1);
        } else if line[i] == BYTE_QUOTE {
            lemma_first_index_from_bounds(line, i + 1, byte_is(BYTE_QUOTE));
            match first_index_from(line, i + 1, byte_is(BYTE_QUOTE)) {
                Some(e) => {
                    law_tokens_not_empty(line, e + 1);
                    if let Some(rest) = split_tokens(line, e + 1) {
                        let ts = seq![line.subrange(i, e + 1)] + rest;
                        assert forall|k: int| 0 <= k < ts.len() implies (#[trigger] ts[k]).len() > 0 by {
                            if k > 0 {
                                assert(ts[k] == rest[k - 1]);
                            }
                        }
                    }
                },
                None => {},
            }
        } else if line[i] == BYTE_EQUALS || line[i] == BYTE_LBRACKET {
            law_tokens_not_empty(line, i + 1);
            if let Some(rest) = split_tokens(line, i + 1) {
                let ts = seq![line.subrange(i, i + 1)] + rest;
                assert forall|k: int| 0 <= k < ts.len() implies (#[trigger] ts[k]).len() > 0 by {
                    if k > 0 {
                        assert(ts[k] == rest[k - 1]);
                    }
                }
            }
        } else {
            lemma_first_index_from_bounds(line, i, ws_or_equals());
            let e = word_end(line, i);
            assert(e > i);
            law_tokens_not_empty(line, e);
            let token = line.subrange(i, e);
            let parts = word_parts(token);
            lemma_first_sub_from_bounds(token, 0, range_step_marker());
            assert forall|k: int| 0 <= k < parts.len() implies (#[trigger] parts[k]).len() > 0 by {
                match first_sub_from(token, 0, range_step_marker()) {
                    Some(p) => {
                        let head: Seq<Seq<u8>> = if p > 0 {
                            seq![token.subrange(0, p)]
                        } else {
                            seq![]
                        };
                        let tail: Seq<Seq<u8>> = if p + 2 < token.len() {
                            seq![token.subrange(p + 2, token.len() as int)]
                        } else {
                            seq![]
                        };
                        let mid = seq![token.subrange(p, p + 1), token.subrange(p + 1, p + 2)];
                        assert(parts == head + mid + tail);
                        if k < head.len() {
                            assert(parts[k] == head[k]);
                        } else if k < head.len() + 2 {
                            assert(parts[k] == mid[k - head.len()]);
                        } else {
                            assert(parts[k] == tail[k - head.len() - 2]);
                        }
                    },
                    None => {},
                }
            }
            if let Some(rest) = split_tokens(line, e) {
                let ts = parts + rest;
                assert forall|k: int| 0 <= k < ts.len() implies (#[trigger] ts[k]).len() > 0 by {
                    if k >= parts.len() {
                        assert(ts[k] == rest[k - parts.len()]);
                    } else {
                        assert(ts[k] == parts[k]);
                    }
                }
            }
        }
    }
}

/// How one comment line reads as a command: `Some(None)` when it does not
/// start (after leading whitespace) with the prefix, `Some(Some(tokens))`
/// when it does, `None` when a string in it is not closed.
pub open spec fn command_of_line(prefix: Seq<u8>, line: Seq<u8>) -> Option<
    Option<Seq<Seq<u8>>>,
> {
    let t = skip_ws(line, 0);
    if t + prefix.len() <= line.len() && line.subrange(t, t + prefix.len()) == prefix {
        match split_tokens(line, t + prefix.len()) {
            Some(p) => Some(Some(p)),
            None => None,
        }
    } else {
        Some(None)
    }
}

/// Adds the tokens of one line to the tokens of the following lines.
pub open spec fn join_line_command(
    line: Option<Option<Seq<Seq<u8>>>>,
    rest: Option<Seq<Seq<u8>>>,
) -> Option<Seq<Seq<u8>>> {
    match line {
        None => None,
        Some(None) => rest,
        Some(Some(p)) => prepend_parts(p, rest),
    }
}

/// The tokens of all command lines of a block comment, from index `start` on.
pub open spec fn block_commands(prefix: Seq<u8>, comment: Seq<u8>, start: int) -> Option<
    Seq<Seq<u8>>,
>
    decreases comment.len() - start,
{
    if start < 0 || start > comment.len() {
        Some(seq![])
    } else {
        match first_index_from(comment, start, byte_is(BYTE_NEWLINE)) {
            Some(nl) => {
                proof {
                    lemma_first_index_from_bounds(comment, start, byte_is(BYTE_NEWLINE));
                }
                join_line_command(
                    command_of_line(prefix, comment.subrange(start, nl)),
                    block_commands(prefix, comment, nl + 1),
                )
            },
            None => join_line_command(
                command_of_line(prefix, comment.subrange(start, comment.len() as int)),
                Some(seq![]),
            ),
        }
    }
}

/// The index just after a string literal whose contents start at `p`: a
/// backslash skips the byte after it, a double quote ends the literal.
pub open spec fn string_end(data: Seq<u8>, p: int) -> int
    decreases data.len() + 1 - p,
{
    if p < 0 || p >= data.len() {
        p
    } else if data[p] == BYTE_BACKSLASH {
        string_end(data, p + 2)
    } else if data[p] == BYTE_QUOTE {
        p + 1
    } else {
        string_end(data, p + 1)
    }
}

/// The index just after a character literal that starts at `p`: `'x'` and
/// `'\x'` are skipped whole, anything else only by its quote.
pub open spec fn char_literal_end(data: Seq<u8>, p: int) -> int {
    if data.len() > p + 2 && data[p + 2] == BYTE_APOSTROPHE {
        p + 3
    } else if data.len() > p + 4 && data[p + 1] == BYTE_BACKSLASH && data[p + 3]
        == BYTE_APOSTROPHE {
        p + 4
    } else {
        p + 1
    }
}

/// The command of a line comment whose `//` is at `fp`, with the index after
/// the comment (after its newline, or the end of the data).
pub open spec fn line_comment(prefix: Seq<u8>, data: Seq<u8>, fp: int) -> (
    Option<Option<Seq<Seq<u8>>>>,
    int,
) {
    match first_index_from(data, fp + 2, byte_is(BYTE_NEWLINE)) {
        Some(nl) => (command_of_line(prefix, data.subrange(fp + 2, nl + 1)), nl + 1),
        None => (command_of_line(prefix, data.subrange(fp + 2, data.len() as int)), data.len() as int),
    }
}

/// Whether all bytes of `data[a..b]` are ASCII whitespace.
pub open spec fn all_ws(data: Seq<u8>, a: int, b: int) -> bool {
    forall|j: int| a <= j < b ==> is_ascii_ws(#[trigger] data[j])
}

/// The special bytes the scanner stops at: `/`, `"` and `'`.
pub open spec fn scan_stop() -> spec_fn(u8) -> bool {
    byte_in3(BYTE_SLASH, BYTE_QUOTE, BYTE_APOSTROPHE)
}

/// Adds the tokens of a line comment at `fp` to the commands found so far:
/// merged into the last command when `merge` holds, a new command otherwise.
pub open spec fn add_line_command(
    cmds: Seq<(usize, Seq<Seq<u8>>)>,
    fp: int,
    p: Seq<Seq<u8>>,
    merge: bool,
) -> Seq<(usize, Seq<Seq<u8>>)> {
    if p.len() == 0 {
        cmds
    } else if merge && cmds.len() > 0 {
        cmds.update(cmds.len() - 1, (cmds.last().0, cmds.last().1 + p))
    } else {
        cmds.push((fp as usize, p))
    }
}

/// The scanner state machine from index `pos` on. `prev_single` records
/// whether the item read last was a line comment; `cmds` holds the commands
/// found so far. `None` where the scan would index past the data (a `/` as
/// the last byte) or meets a command string without its closing quote.
pub open spec fn scan_from(
    prefix: Seq<u8>,
    data: Seq<u8>,
    pos: int,
    prev_single: bool,
    cmds: Seq<(usize, Seq<Seq<u8>>)>,
) -> Option<Seq<(usize, Seq<Seq<u8>>)>>
    decreases data.len() + 2 - pos,
{
    if pos < 0 || pos >= data.len() - 2 {
        Some(cmds)
    } else {
        proof {
            lemma_first_index_from_bounds(data, pos, scan_stop());
        }
        match first_index_from(data, pos, scan_stop()) {
            None => Some(cmds),
            Some(fp) => {
                if data[fp] == BYTE_QUOTE {
                    proof {
                        lemma_string_end_bounds(data, fp + 1);
                    }
                    scan_from(prefix, data, string_end(data, fp + 1), false, cmds)
                } else if data[fp] == BYTE_APOSTROPHE {
                    scan_from(prefix, data, char_literal_end(data, fp), false, cmds)
                } else if fp + 1 >= data.len() {
                    None
                } else if data[fp + 1] == BYTE_SLASH {
                    proof {
                        lemma_first_index_from_bounds(data, fp + 2, byte_is(BYTE_NEWLINE));
                    }
                    let merge = prev_single && all_ws(data, pos, fp);
                    let (outcome, next) = line_comment(prefix, data, fp);
                    match outcome {
                        None => None,
                        Some(None) => scan_from(prefix, data, next, true, cmds),
                        Some(Some(p)) => scan_from(
                            prefix,
                            data,
                            next,
                            true,
                            add_line_command(cmds, fp, p, merge),
                        ),
                    }
                } else if data[fp + 1] == BYTE_STAR {
                    proof {
                        lemma_first_sub_from_bounds(data, fp + 2, block_end_marker());
                    }
                    match first_sub_from(data, fp + 2, block_end_marker()) {
                        Some(e) => match block_commands(prefix, data.subrange(fp + 2, e), 0) {
                            None => None,
                            Some(c) => scan_from(
                                prefix,
                                data,
                                e + 2,
                                false,
                                if c.len() > 0 {
                                    cmds.push((fp as usize, c))
                                } else {
                                    cmds
                                },
                            ),
                        },
                        None => Some(cmds),
                    }
                } else {
                    scan_from(prefix, data, fp + 1, false, cmds)
                }
            },
        }
    }
}

/// All commands of a source. `None` where the scanner cannot handle the data:
/// fewer than two bytes, a `/` as the last byte reached, or a command string
/// without its closing quote.
pub open spec fn scanned_commands(prefix: Seq<u8>, data: Seq<u8>) -> Option<
    Seq<(usize, Seq<Seq<u8>>)>,
> {
    if data.len() < 2 {
        None
    } else {
        scan_from(prefix, data, 0, false, seq![])
    }
}

pub proof fn lemma_prepend_assoc(a: Seq<Seq<u8>>, b: Seq<Seq<u8>>, x: Option<Seq<Seq<u8>>>)
    ensures
        prepend_parts(a, prepend_parts(b, x)) == prepend_parts(a + b, x),
{
    if let Some(r) = x {
        assert(a + (b + r) =~= (a + b) + r);
    }
}

pub proof fn lemma_string_end_bounds(data: Seq<u8>, p: int)
    requires
        0 <= p <= data.len(),
    ensures
        p <= string_end(data, p) <= data.len() + 1,
    decreases data.len() + 1 - p,
{
    if p < data.len() {
        if data[p] == BYTE_BACKSLASH {
            if p + 2 <= data.len() {
                lemma_string_end_bounds(data, p + 2);
            }
        } else if data[p] != BYTE_QUOTE {
            lemma_string_end_bounds(data, p + 1);
        }
    }
}

// ---------------------------------------------------------------------------
// Implementation
// ---------------------------------------------------------------------------

/// Skips a character literal that starts at `pos` (a single quote).
pub fn skip_char_literal(data: &[u8], pos: usize) -> (r: usize)
    requires
        pos < data@.len(),
        data@.len() <= isize::MAX,
    ensures
        r == char_literal_end(data@, pos as int),
{
    let data_len = data.len();
    if data_len > pos + 2 && data[pos + 2] == BYTE_APOSTROPHE {
        pos + 3
    } else if data_len > pos + 4 && data[pos + 1] == BYTE_BACKSLASH && data[pos + 3]
        == BYTE_APOSTROPHE {
        pos + 4
    } else {
        pos + 1
    }
}

/// Skips a string literal whose opening double quote is at `pos`; returns the
/// index after the closing quote (or past the end of the data).
pub fn skip_string_literal(data: &[u8], pos: usize) -> (r: usize)
    requires
        pos < data@.len(),
        data@.len() <= isize::MAX,
    ensures
        r == string_end(data@, pos + 1),
        pos + 1 <= r <= data@.len() + 1,
{
    let mut p = pos + 1;
    proof {
        lemma_string_end_bounds(data@, p as int);
    }
    while p < data.len()
        invariant
            pos + 1 <= p <= data@.len() + 1,
            data@.len() <= isize::MAX,
            string_end(data@, p as int) == string_end(data@, pos + 1),
        decreases data@.len() + 1 - p,
    {
        if data[p] == BYTE_BACKSLASH {
            p += 2;
        } else if data[p] == BYTE_QUOTE {
            return p + 1;
        } else {
            p += 1;
        }
    }
    p
}

/// The end of the plain token that starts at `i` (see `word_end`).
fn find_word_end(line: &[u8], i: usize) -> (r: usize)
    requires
        i <= line@.len(),
    ensures
        r == word_end(line@, i as int),
        i <= r <= line@.len(),
{
    let mut j = i;
    while j < line.len()
        invariant
            i <= j <= line@.len(),
            first_index_from(line@, i as int, ws_or_equals()) == first_index_from(
                line@,
                j as int,
                ws_or_equals(),
            ),
        decreases line@.len() - j,
    {
        if is_ascii_whitespace(line[j]) || line[j] == BYTE_EQUALS {
            return j;
        }
        j += 1;
    }
    j
}

/// Splits a plain token around the range/step marker (see `word_parts`).
fn push_word_parts(parts: &mut Vec<Vec<u8>>, token: &[u8])
    requires
        token@.len() <= isize::MAX,
    ensures
        final(parts).deep_view() == old(parts).deep_view() + word_parts(token@),
{
    let marker = [BYTE_RBRACKET, BYTE_COMMA];
    assert(marker@ == range_step_marker());
    let ghost p0 = parts.deep_view();
    match find_sub_from(token, 0, &marker) {
        Some(pos) => {
            proof {
                lemma_first_sub_from_bounds(token@, 0, range_step_marker());
            }
            let ghost front: Seq<Seq<u8>> = if pos > 0 {
                seq![token@.subrange(0, pos as int)]
            } else {
                seq![]
            };
            let ghost mid: Seq<Seq<u8>> = seq![
                token@.subrange(pos as int, pos + 1),
                token@.subrange(pos + 1, pos + 2),
            ];
            let ghost back: Seq<Seq<u8>> = if pos + 2 < token@.len() {
                seq![token@.subrange(pos + 2, token@.len() as int)]
            } else {
                seq![]
            };
            if pos > 0 {
                parts.push(copy_range(token, 0, pos));
            }
            assert(parts.deep_view() =~= p0 + front);
            parts.push(copy_range(token, pos, pos + 1));
            parts.push(copy_range(token, pos + 1, pos + 2));
            assert(parts.deep_view() =~= p0 + front + mid);
            if pos + 2 < token.len() {
                parts.push(copy_range(token, pos + 2, token.len()));
            }
            assert(parts.deep_view() =~= p0 + front + mid + back);
            assert(word_parts(token@) == front + mid + back);
            assert(parts.deep_view() =~= p0 + word_parts(token@));
        },
        None => {
            parts.push(copy_range(token, 0, token.len()));
            assert(token@.subrange(0, token@.len() as int) =~= token@);
            assert(parts.deep_view() =~= p0 + word_parts(token@));
        },
    }
}

/// The tokens of a command line from `start` on; `None` when a string token
/// has no closing quote.
fn try_split_tokens(line: &[u8], start: usize) -> (r: Option<Vec<Vec<u8>>>)
    requires
        start <= line@.len(),
        line@.len() <= isize::MAX,
    ensures
        r.deep_view() == split_tokens(line@, start as int),
{
    let mut parts: Vec<Vec<u8>> = Vec::new();
    let mut i = start;
    let len = line.len();
    assert(parts.deep_view() =~= Seq::<Seq<u8>>::empty());
    assert(split_tokens(line@, start as int) == prepend_parts(
        parts.deep_view(),
        split_tokens(line@, i as int),
    ));
    while i < len
        invariant
            start <= i <= len,
            len == line@.len() <= isize::MAX,
            split_tokens(line@, start as int) == prepend_parts(
                parts.deep_view(),
                split_tokens(line@, i as int),
            ),
        decreases len - i,
    {
        let b = line[i];
        let ghost before = parts.deep_view();
        if is_ascii_whitespace(b) {
            i += 1;
        } else if b == BYTE_QUOTE {
            match find_byte_from(line, i + 1, BYTE_QUOTE) {
                Some(e) => {
                    proof {
                        lemma_first_index_from_bounds(line@, i + 1, byte_is(BYTE_QUOTE));
                    }
                    let ghost i0 = i;
                    parts.push(copy_range(line, i, e + 1));
                    i = e + 1;
                    proof {
                        let tok = seq![line@.subrange(i0 as int, i as int)];
                        assert(parts.deep_view() =~= before + tok);
                        lemma_prepend_assoc(before, tok, split_tokens(line@, i as int));
                    }
                },
                None => {
                    return None;
                },
            }
        } else if b == BYTE_EQUALS || b == BYTE_LBRACKET {
            let ghost i0 = i;
            parts.push(copy_range(line, i, i + 1));
            i += 1;
            proof {
                let tok = seq![line@.subrange(i0 as int, i as int)];
                assert(parts.deep_view() =~= before + tok);
                lemma_prepend_assoc(before, tok, split_tokens(line@, i as int));
            }
        } else {
            let end = find_word_end(line, i);
            let (_, tail) = line.split_at(i);
            let (token, _) = tail.split_at(end - i);
            assert(token@ =~= line@.subrange(i as int, end as int));
            proof {
                lemma_first_index_from_bounds(line@, i as int, ws_or_equals());
            }
            push_word_parts(&mut parts, token);
            proof {
                lemma_prepend_assoc(before, word_parts(token@), split_tokens(line@, end as int));
            }
            i = end;
        }
    }
    Some(parts)
}


/// Whether all bytes of `data[a..b]` are ASCII whitespace.
fn all_whitespace(data: &[u8], a: usize, b: usize) -> (r: bool)
    requires
        a <= b <= data@.len(),
    ensures
        r == all_ws(data@, a as int, b as int),
{
    let mut i = a;
    while i < b
        invariant
            a <= i <= b <= data@.len(),
            all_ws(data@, a as int, i as int),
        decreases b - i,
    {
        if !is_ascii_whitespace(data[i]) {
            return false;
        }
        i += 1;
    }
    true
}

impl<'prefix> CommentScanner<'prefix> {
    /// The command prefix that marks a definition line.
    pub closed spec fn prefix(&self) -> Seq<u8> {
        self.comment_prefix@
    }

    /// A scanner for command lines that start with `comment_prefix`.
    pub fn new(comment_prefix: &'prefix [u8]) -> (r: Self)
        ensures
            r.prefix() == comment_prefix@,
    {
        CommentScanner { comment_prefix }
    }

    /// Reads one comment line as a command (see `command_of_line`):
    /// `Some(None)` when the line does not start with the prefix,
    /// `Some(Some(tokens))` when it does, `None` when a string in it is not
    /// closed.
    pub fn split_command(&self, comment_line: &[u8]) -> (r: Option<Option<Vec<Vec<u8>>>>)
        requires
            comment_line@.len() <= isize::MAX,
        ensures
            r.deep_view() == command_of_line(self.prefix(), comment_line@),
    {
        let t = skip_whitespace(comment_line, 0);
        let (_, rest) = comment_line.split_at(t);
        if starts_with(rest, self.comment_prefix) {
            assert(rest@.subrange(0, self.comment_prefix@.len() as int) =~= comment_line@.subrange(
                t as int,
                t + self.comment_prefix@.len(),
            ));
            match try_split_tokens(comment_line, t + self.comment_prefix.len()) {
                Some(parts) => Some(Some(parts)),
                None => None,
            }
        } else {
            proof {
                if t + self.comment_prefix@.len() <= comment_line@.len() {
                    assert(rest@.subrange(0, self.comment_prefix@.len() as int)
                        =~= comment_line@.subrange(t as int, t + self.comment_prefix@.len()));
                }
            }
            Some(None)
        }
    }

    /// Reads the line comment whose `//` is at `find_pos` and moves `pos`
    /// past it (see `line_comment`).
    pub fn handle_line_comment(&self, data: &[u8], pos: &mut usize, find_pos: usize) -> (r:
        Option<Option<Vec<Vec<u8>>>>)
        requires
            find_pos + 2 <= data@.len() <= isize::MAX,
        ensures
            (r.deep_view(), *final(pos) as int) == line_comment(
                self.prefix(),
                data@,
                find_pos as int,
            ),
    {
        let start = find_pos + 2;
        let (_, tail) = data.split_at(start);
        proof {
            lemma_first_index_from_bounds(data@, start as int, byte_is(BYTE_NEWLINE));
        }
        match find_byte_from(data, start, BYTE_NEWLINE) {
            Some(nl) => {
                let (comment, _) = tail.split_at(nl + 1 - start);
                assert(comment@ =~= data@.subrange(start as int, nl + 1));
                *pos = nl + 1;
                self.split_command(comment)
            },
            None => {
                assert(tail@ =~= data@.subrange(start as int, data@.len() as int));
                *pos = data.len();
                self.split_command(tail)
            },
        }
    }

    /// The tokens of all command lines of a block comment (see
    /// `block_commands`); `None` when a string in one of them is not closed.
    pub fn block_commands(&self, comment: &[u8]) -> (r: Option<Vec<Vec<u8>>>)
        requires
            comment@.len() <= isize::MAX,
        ensures
            r.deep_view() == block_commands(self.prefix(), comment@, 0),
    {
        let mut acc: Vec<Vec<u8>> = Vec::new();
        let mut start: usize = 0;
        let len = comment.len();
        assert(acc.deep_view() =~= Seq::<Seq<u8>>::empty());
        loop
            invariant
                start <= len == comment@.len() <= isize::MAX,
                block_commands(self.prefix(), comment@, 0) == prepend_parts(
                    acc.deep_view(),
                    block_commands(self.prefix(), comment@, start as int),
                ),
            decreases len + 1 - start,
        {
            let ghost before = acc.deep_view();
            let (_, tail) = comment.split_at(start);
            proof {
                lemma_first_index_from_bounds(comment@, start as int, byte_is(BYTE_NEWLINE));
            }
            match find_byte_from(comment, start, BYTE_NEWLINE) {
                Some(nl) => {
                    let (line, _) = tail.split_at(nl - start);
                    assert(line@ =~= comment@.subrange(start as int, nl as int));
                    match self.split_command(line) {
                        None => {
                            return None;
                        },
                        Some(None) => {},
                        Some(Some(mut p)) => {
                            let ghost pv = p.deep_view();
                            acc.append(&mut p);
                            assert(acc.deep_view() =~= before + pv);
                            proof {
                                lemma_prepend_assoc(
                                    before,
                                    pv,
                                    block_commands(self.prefix(), comment@, nl + 1),
                                );
                            }
                        },
                    }
                    start = nl + 1;
                },
                None => {
                    assert(tail@ =~= comment@.subrange(start as int, comment@.len() as int));
                    match self.split_command(tail) {
                        None => {
                            return None;
                        },
                        Some(None) => {
                            assert(before + Seq::<Seq<u8>>::empty() =~= before);
                        },
                        Some(Some(mut p)) => {
                            let ghost pv = p.deep_view();
                            acc.append(&mut p);
                            assert(acc.deep_view() =~= before + pv);
                            assert(pv + Seq::<Seq<u8>>::empty() =~= pv);
                        },
                    }
                    return Some(acc);
                },
            }
        }
    }

    /// All commands in `data`, or `None` where the scan cannot handle the data
    /// (see `scanned_commands`).
    pub fn try_scan_comments(&self, data: &[u8]) -> (r: Option<ScannedCommands>)
        requires
            data@.len() <= isize::MAX,
        ensures
            r.deep_view() == scanned_commands(self.prefix(), data@),
    {
        if data.len() < 2 {
            return None;
        }
        let mut commands: ScannedCommands = Vec::new();
        let mut previous_single_line_comment = false;
        let mut pos: usize = 0;
        let ghost prefix = self.prefix();
        assert(commands.deep_view() =~= Seq::<(usize, Seq<Seq<u8>>)>::empty());
        while pos < data.len() - 2
            invariant
                pos <= data@.len() + 1,
                2 <= data@.len() <= isize::MAX,
                prefix == self.prefix(),
                scan_from(prefix, data@, pos as int, previous_single_line_comment, commands.deep_view())
                    == scanned_commands(prefix, data@),
            decreases data@.len() + 2 - pos,
        {
            let ghost cmds = commands.deep_view();
            let ghost old_pos = pos;
            let ghost old_prev = previous_single_line_comment;
            proof {
                lemma_first_index_from_bounds(data@, pos as int, scan_stop());
            }
            let found = find_byte3_from(data, pos, BYTE_SLASH, BYTE_QUOTE, BYTE_APOSTROPHE);
            let find_pos = match found {
                Some(fp) => fp,
                None => {
                    return Some(commands);
                },
            };
            if data[find_pos] == BYTE_QUOTE {
                pos = skip_string_literal(data, find_pos);
                previous_single_line_comment = false;
            } else if data[find_pos] == BYTE_APOSTROPHE {
                pos = skip_char_literal(data, find_pos);
                previous_single_line_comment = false;
            } else if find_pos + 1 >= data.len() {
                return None;
            } else if data[find_pos + 1] == BYTE_SLASH {
                let should_merge = previous_single_line_comment && all_whitespace(
                    data,
                    pos,
                    find_pos,
                );
                proof {
                    lemma_first_index_from_bounds(data@, find_pos + 2, byte_is(BYTE_NEWLINE));
                }
                match self.handle_line_comment(data, &mut pos, find_pos) {
                    None => {
                        return None;
                    },
                    Some(None) => {},
                    Some(Some(mut cur_command)) => {
                        let ghost p = cur_command.deep_view();
                        if cur_command.len() > 0 {
                            if should_merge && commands.len() > 0 {
                                let (offset, mut last_command) = commands.pop().unwrap();
                                let ghost lv = last_command.deep_view();
                                last_command.append(&mut cur_command);
                                assert(last_command.deep_view() =~= lv + p);
                                commands.push((offset, last_command));
                                assert(commands.deep_view() =~= add_line_command(
                                    cmds,
                                    find_pos as int,
                                    p,
                                    should_merge,
                                ));
                            } else {
                                commands.push((find_pos, cur_command));
                                assert(commands.deep_view() =~= add_line_command(
                                    cmds,
                                    find_pos as int,
                                    p,
                                    should_merge,
                                ));
                            }
                        }
                    },
                }
                previous_single_line_comment = true;
            } else if data[find_pos + 1] == BYTE_STAR {
                let marker = [BYTE_STAR, BYTE_SLASH];
                assert(marker@ == block_end_marker());
                proof {
                    lemma_first_sub_from_bounds(data@, find_pos + 2, block_end_marker());
                }
                match find_sub_from(data, find_pos + 2, &marker) {
                    Some(end) => {
                        let (_, tail) = data.split_at(find_pos + 2);
                        let (comment, _) = tail.split_at(end - (find_pos + 2));
                        assert(comment@ =~= data@.subrange(find_pos + 2, end as int));
                        match self.block_commands(comment) {
                            None => {
                                return None;
                            },
                            Some(cmd) => {
                                let ghost c = cmd.deep_view();
                                if cmd.len() > 0 {
                                    commands.push((find_pos, cmd));
                                    assert(commands.deep_view() =~= cmds.push((find_pos, c)));
                                }
                            },
                        }
                        pos = end + 2;
                    },
                    None => {
                        return Some(commands);
                    },
                }
                previous_single_line_comment = false;
            } else {
                pos = find_pos + 1;
                previous_single_line_comment = false;
            }
            assert(scan_from(prefix, data@, old_pos as int, old_prev, cmds) == scan_from(
                prefix,
                data@,
                pos as int,
                previous_single_line_comment,
                commands.deep_view(),
            ));
        }
        Some(commands)
    }

    /// All commands in `data`: for each command the offset of the comment
    /// that starts it and its tokens.
    pub fn scan_comments(&self, data: &[u8]) -> (r: ScannedCommands)
        requires
            data@.len() <= isize::MAX,
            scanned_commands(self.prefix(), data@) is Some,
        ensures
            Some(r.deep_view()) == scanned_commands(self.prefix(), data@),
    {
        match self.try_scan_comments(data) {
            Some(commands) => commands,
            None => Vec::new(),
        }
    }
}

} // verus!
