//! Names and texts that the creator derives from definitions: the names of
//! the items of split arrays, format strings, input signal names, and the
//! overwrites that an instance applies to the elements of its structure.

use vstd::prelude::*;
use crate::bytes::{lemma_bytes_deep_view, lossy_string, utf8_lossy};
use crate::creator::definitions::{
    ConversionAttribute, GroupAttribute, Overwrite, OverwriteSpec, SpecConversionAttribute,
    SpecGroupAttribute, SpecOverwrite, SpecOverwriteSpec, SpecSplitType, SplitType,
};
use crate::text::{append_radix, decimal_text, radix_text};

verus! {

broadcast use lemma_bytes_deep_view;

/// The prefix that marks a creator command in a source comment.
pub const COMMENT_PREFIX: &'static str = "@@";

// ---------------------------------------------------------------------------
// Definition tokens as text
// ---------------------------------------------------------------------------

/// The tokens of a definition as text, separated by single spaces.
pub open spec fn tokens_text(t: Seq<Seq<u8>>) -> Seq<char>
    decreases t.len(),
{
    if t.len() == 0 {
        seq![]
    } else if t.len() == 1 {
        utf8_lossy(t[0])
    } else {
        tokens_text(t.drop_last()) + " "@ + utf8_lossy(t.last())
    }
}

/// The tokens of a definition as one text, for messages.
pub fn deftokens_to_string(definition_tokens: &[Vec<u8>]) -> (r: String)
    ensures
        r@ == tokens_text(definition_tokens.deep_view()),
{
    let ghost t = definition_tokens.deep_view();
    let mut out = String::new();
    let mut i: usize = 0;
    while i < definition_tokens.len()
        invariant
            i <= definition_tokens@.len(),
            t == definition_tokens.deep_view(),
            out@ == tokens_text(t.subrange(0, i as int)),
        decreases definition_tokens@.len() - i,
    {
        let tok = definition_tokens[i].as_slice();
        assert(tok@ == t[i as int]);
        let text = lossy_string(tok);
        let ghost before = out@;
        if i != 0 {
            out.append(" ");
        }
        out.append(text.as_str());
        proof {
            let s = t.subrange(0, i + 1);
            assert(s.drop_last() =~= t.subrange(0, i as int));
            if i == 0 {
                assert(Seq::<char>::empty() + text@ =~= text@);
            }
        }
        i += 1;
    }
    assert(t.subrange(0, t.len() as int) =~= t);
    out
}

// ---------------------------------------------------------------------------
// Input signal names and format strings
// ---------------------------------------------------------------------------

/// The name of the input signal of an axis: prefixed with the instance name
/// when the signal is part of the instance, `NO_INPUT_QUANTITY` when there is
/// no signal.
pub open spec fn input_signal_name(
    instance_name: Option<Seq<char>>,
    input_signal: Option<Seq<char>>,
    is_instanced: bool,
) -> Seq<char> {
    match input_signal {
        Some(sig) => match instance_name {
            Some(inst) => if is_instanced {
                inst + "."@ + sig
            } else {
                sig
            },
            None => sig,
        },
        None => "NO_INPUT_QUANTITY"@,
    }
}

pub fn build_input_signal_name(
    instance_name: &Option<String>,
    input_signal: &Option<String>,
    is_instanced: bool,
) -> (r: String)
    ensures
        r@ == input_signal_name(
            instance_name.deep_view(),
            input_signal.deep_view(),
            is_instanced,
        ),
{
    if let Some(input_signal) = input_signal {
        if is_instanced && instance_name.is_some() {
            let instance_name = instance_name.as_ref().unwrap();
            let mut out = instance_name.clone();
            out.append(".");
            out.append(input_signal.as_str());
            out
        } else {
            input_signal.clone()
        }
    } else {
        String::from_str("NO_INPUT_QUANTITY")
    }
}

/// The format string of a conversion: `%length.digits` or `%.digits`.
pub open spec fn format_text(length: Option<u64>, digits: Option<u64>) -> Option<Seq<char>> {
    match (length, digits) {
        (Some(l), Some(d)) => Some("%"@ + decimal_text(l as nat) + "."@ + decimal_text(d as nat)),
        (None, Some(d)) => Some("%."@ + decimal_text(d as nat)),
        _ => None,
    }
}

pub fn build_format(length: &Option<u64>, digits: &Option<u64>) -> (r: Option<String>)
    ensures
        r.deep_view() == format_text(*length, *digits),
{
    match (length, digits) {
        (Some(l), Some(d)) => {
            let mut out = String::from_str("%");
            append_radix(&mut out, *l, 10, false);
            out.append(".");
            append_radix(&mut out, *d, 10, false);
            Some(out)
        },
        (None, Some(d)) => {
            let mut out = String::from_str("%.");
            append_radix(&mut out, *d, 10, false);
            Some(out)
        },
        _ => None,
    }
}

// ---------------------------------------------------------------------------
// Split templates
// ---------------------------------------------------------------------------

/// The text that one specifier writes for an index: `%d`, `%x`, `%X` write it
/// in decimal, lower-case or upper-case hexadecimal, `%c` and `%C` as a
/// letter (only below 26). `None` for another specifier or a letter index
/// that is too large.
pub open spec fn template_piece(c: char, v: u32) -> Option<Seq<char>> {
    if c == 'd' {
        Some(radix_text(v as nat, 10, false))
    } else if c == 'x' {
        Some(radix_text(v as nat, 16, false))
    } else if c == 'X' {
        Some(radix_text(v as nat, 16, true))
    } else if c == 'c' && v < 26 {
        Some(seq!["abcdefghijklmnopqrstuvwxyz"@[v as int]])
    } else if c == 'C' && v < 26 {
        Some(seq!["ABCDEFGHIJKLMNOPQRSTUVWXYZ"@[v as int]])
    } else {
        None
    }
}

/// The text that a template yields for the indices from `k` on, reading the
/// template from char `i`: a `%` and the char after it are replaced by
/// `template_piece` of the next index; a `%` at the end stays; anything else
/// is copied. `None` when an index is missing at a `%` or a piece is `None`.
pub open spec fn template_text(tpl: Seq<char>, i: int, idx: Seq<u32>, k: int) -> Option<Seq<char>>
    decreases tpl.len() - i,
{
    if i < 0 || i >= tpl.len() {
        Some(seq![])
    } else if tpl[i] == '%' {
        if k < 0 || k >= idx.len() {
            None
        } else if i + 1 >= tpl.len() {
            Some(seq!['%'])
        } else {
            match template_piece(tpl[i + 1], idx[k]) {
                Some(p) => match template_text(tpl, i + 2, idx, k + 1) {
                    Some(rest) => Some(p + rest),
                    None => None,
                },
                None => None,
            }
        }
    } else {
        match template_text(tpl, i + 1, idx, k) {
            Some(rest) => Some(seq![tpl[i]] + rest),
            None => None,
        }
    }
}

/// Applies a split template to a list of indices (see `template_text`).
pub fn apply_template(template: &str, indices: &[u32]) -> (r: Option<String>)
    ensures
        r.deep_view() == template_text(template@, 0, indices@, 0),
{
    let len = template.unicode_len();
    let lower = "abcdefghijklmnopqrstuvwxyz";
    let upper = "ABCDEFGHIJKLMNOPQRSTUVWXYZ";
    proof {
        reveal_strlit("abcdefghijklmnopqrstuvwxyz");
        reveal_strlit("ABCDEFGHIJKLMNOPQRSTUVWXYZ");
    }
    let mut output = String::new();
    let mut i: usize = 0;
    let mut current_index: usize = 0;
    while i < len
        invariant
            len == template@.len(),
            i <= len,
            current_index <= indices@.len(),
            lower@ == "abcdefghijklmnopqrstuvwxyz"@,
            upper@ == "ABCDEFGHIJKLMNOPQRSTUVWXYZ"@,
            lower@.len() == 26,
            upper@.len() == 26,
            template_text(template@, 0, indices@, 0) == match template_text(
                template@,
                i as int,
                indices@,
                current_index as int,
            ) {
                Some(rest) => Some(output@ + rest),
                None => None,
            },
        decreases len - i,
    {
        let ghost before = output@;
        let ghost i0 = i as int;
        let ghost k0 = current_index as int;
        let c = template.get_char(i);
        if c == '%' {
            if current_index >= indices.len() {
                return None;
            }
            let idx = indices[current_index];
            if i + 1 >= len {
                output.append(template.substring_char(i, i + 1));
                assert(template@.subrange(i as int, i + 1) =~= seq!['%']);
                assert(output@ =~= before + seq!['%'] + Seq::<char>::empty());
                i += 1;
                proof {
                    assert(template_text(template@, i as int, indices@, current_index as int)
                        == Some(Seq::<char>::empty()));
                }
                assert(output@ =~= output@ + Seq::<char>::empty());
            } else {
                let spec_char = template.get_char(i + 1);
                let ghost piece: Seq<char>;
                if spec_char == 'd' {
                    append_radix(&mut output, idx as u64, 10, false);
                    proof {
                        piece = radix_text(idx as nat, 10, false);
                    }
                } else if spec_char == 'x' {
                    append_radix(&mut output, idx as u64, 16, false);
                    proof {
                        piece = radix_text(idx as nat, 16, false);
                    }
                } else if spec_char == 'X' {
                    append_radix(&mut output, idx as u64, 16, true);
                    proof {
                        piece = radix_text(idx as nat, 16, true);
                    }
                } else if spec_char == 'c' {
                    if idx < 26 {
                        let n = idx as usize;
                        output.append(lower.substring_char(n, n + 1));
                        assert(lower@.subrange(n as int, n + 1) =~= seq![lower@[n as int]]);
                        proof {
                            piece = seq![lower@[n as int]];
                        }

                    } else {
                        return None;
                    }
                } else if spec_char == 'C' {
                    if idx < 26 {
                        let n = idx as usize;
                        output.append(upper.substring_char(n, n + 1));
                        assert(upper@.subrange(n as int, n + 1) =~= seq![upper@[n as int]]);
                        proof {
                            piece = seq![upper@[n as int]];
                        }
                    } else {
                        return None;
                    }
                } else {
                    return None;
                }
                assert(output@ == before + piece);
                assert(template@[i0] == '%' && i0 + 1 < template@.len());
                assert(template_piece(spec_char, idx) == Some(piece));
                assert(template_text(template@, i0, indices@, k0) == match template_text(
                    template@,
                    i0 + 2,
                    indices@,
                    k0 + 1,
                ) {
                    Some(rest) => Some(piece + rest),
                    None => None,
                });
                i += 2;
                current_index += 1;
                proof {
                    match template_text(template@, i as int, indices@, current_index as int) {
                        Some(rest) => {
                            assert(before + (piece + rest) =~= output@ + rest);
                        },
                        None => {},
                    }
                }
            }
        } else {
            output.append(template.substring_char(i, i + 1));
            assert(template@.subrange(i as int, i + 1) =~= seq![c]);
            i += 1;
            proof {
                match template_text(template@, i as int, indices@, current_index as int) {
                    Some(rest) => {
                        assert(before + (seq![c] + rest) =~= output@ + rest);
                    },
                    None => {},
                }
            }
        }
    }
    assert(output@ + Seq::<char>::empty() =~= output@);
    Some(output)
}

/// Characters other than `%` are copied as they are: a template without `%`
/// yields itself, whatever the indices.
pub proof fn law_template_without_specifiers_is_copied(tpl: Seq<char>, indices: Seq<u32>)
    requires
        forall|i: int| 0 <= i < tpl.len() ==> tpl[i] != '%',
    ensures
        template_text(tpl, 0, indices, 0) == Some(tpl),
{
    lemma_plain_template_from(tpl, indices, 0);
    assert(tpl.subrange(0, tpl.len() as int) =~= tpl);
}

proof fn lemma_plain_template_from(tpl: Seq<char>, indices: Seq<u32>, i: int)
    requires
        0 <= i <= tpl.len(),
        forall|j: int| 0 <= j < tpl.len() ==> tpl[j] != '%',
    ensures
        template_text(tpl, i, indices, 0) == Some(tpl.subrange(i, tpl.len() as int)),
    decreases tpl.len() - i,
{
    if i < tpl.len() {
        lemma_plain_template_from(tpl, indices, i + 1);
        assert(seq![tpl[i]] + tpl.subrange(i + 1, tpl.len() as int) =~= tpl.subrange(i, tpl.len() as int));
    } else {
        assert(tpl.subrange(i, tpl.len() as int) =~= Seq::<char>::empty());
    }
}

} // verus!
