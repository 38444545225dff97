//! The parser for creator definitions: turns the tokens of one definition
//! comment into a [`Definition`].
//!
//! Each parsing method has a specification function of the same shape: it
//! takes the tokens and the current position and yields the model of the
//! result, or the message of the error that the method returns, together
//! with the position after the step.

#![verifier::loop_isolation(false)]

use vstd::prelude::*;
use vstd::string::StringSliceAdditionalSpecFns;
use crate::bytes::{
    BYTE_DOT, BYTE_QUOTE, BYTE_RBRACKET, bytes_eq, find_sub_from, first_sub_from, is_digit,
    lemma_bytes_deep_view, lemma_first_sub_from_bounds, lossy_string, token_is, utf8_lossy,
};
use crate::creator::definitions::{
    Attributes, AxisCfg, AxisInfo, ByteOrderEnum, ConversionAttribute, ConversionConfig,
    ConversionDefinition, CurveMapCfg, DataType, Definition, ElementDefinition, EventType,
    FloatValue, FormulaCfg, GroupAttribute, InstanceDefinition, ItemConfig, LinearCfg,
    MainGroupDefinition, MapAttributes, MeasureCfg, Overwrite, OverwriteSpec, ParameterCfg,
    SelectorType, SpecAttributes, SpecAxisCfg, SpecAxisInfo, SpecConversionAttribute,
    SpecConversionConfig, SpecConversionDefinition, SpecCurveMapCfg, SpecDefinition,
    SpecElementDefinition, SpecEventType, SpecFloatValue, SpecFormulaCfg, SpecGroupAttribute,
    SpecInstanceDefinition, SpecItemConfig, SpecLinearCfg, SpecMainGroupDefinition,
    SpecMapAttributes, SpecMeasureCfg, SpecOverwrite, SpecOverwriteSpec, SpecParameterCfg,
    SpecSplitType, SpecStringAttributes, SpecStringCfg, SpecStructAttributes, SpecSubGroupDefinition,
    SpecSubStructureCfg, SpecSymbolDefinition, SpecTableCfg, SpecTableRow, SpecUnit, SpecVariant,
    SpecVarCriterionDefinition, SplitType, StringAttributes, StringCfg, StructAttributes,
    SubGroupDefinition, SubStructureCfg, SymbolDefinition, TableCfg, TableRow, Unit, Variant,
    VarCriterionDefinition,
};
use crate::creator::literals::{
    convert_float_value, float_error, float_value_of, parse_unsigned, parse_unsigned_bytes, seq_starts_with,
};
use crate::bytes::{debug_str, debug_str_text, is_valid_utf8};
use vstd::utf8::{encode_utf8, valid_utf8};

verus! {

broadcast use lemma_bytes_deep_view;

// ---------------------------------------------------------------------------
// Specification helpers
// ---------------------------------------------------------------------------

/// The bytes of a keyword.
pub open spec fn kw(s: &str) -> Seq<u8> {
    s.spec_bytes()
}

/// The outcome of a parsing step: the model of its result, or the message
/// of its error, and the position after it.
pub type Step<A> = (Result<A, Seq<char>>, int);

/// Continues a parsing step with `f` where it succeeded.
pub open spec fn sbind<A, B>(r: Step<A>, f: spec_fn(A, int) -> Step<B>) -> Step<B> {
    match r.0 {
        Ok(a) => f(a, r.1),
        Err(e) => (Err(e), r.1),
    }
}

/// Maps the result of a parsing step.
pub open spec fn smap<A, B>(r: Step<A>, f: spec_fn(A) -> B) -> Step<B> {
    match r.0 {
        Ok(a) => (Ok(f(a)), r.1),
        Err(e) => (Err(e), r.1),
    }
}

/// The model of a parser result: the deep view of its value, or its message.
pub open spec fn res_view<T: DeepView>(r: Result<T, String>) -> Result<T::V, Seq<char>> {
    match r {
        Ok(v) => Ok(v.deep_view()),
        Err(e) => Err(e@),
    }
}

/// The message for input that ends where a token was needed.
pub open spec fn end_message(context: Seq<char>) -> Seq<char> {
    "Unexpected end of input in "@ + context
}

/// The message for a next token that is no unsigned value: one that is not
/// UTF-8, a negative hexadecimal number, any other text, or no token.
pub open spec fn uint_message(t: Seq<Seq<u8>>, p: int, context: Seq<char>) -> Seq<char> {
    if 0 <= p < t.len() {
        if !valid_utf8(t[p]) {
            "Expected value in "@ + context + ", found invalid UTF-8"@
        } else if seq_starts_with(t[p], kw("-0x")) {
            "Expected unsigned value in "@ + context + ", found negative hex: "@ + utf8_lossy(t[p])
        } else {
            "Expected value in "@ + context + ", got "@ + utf8_lossy(t[p])
        }
    } else {
        "Expected integer value in "@ + context
    }
}

/// The tokens a parser accepts: none is empty, none is a lone double quote.
pub open spec fn tokens_ok(t: Seq<Seq<u8>>) -> bool {
    forall|i: int| 0 <= i < t.len() ==> (#[trigger] t[i]).len() > 0 && t[i] != seq![BYTE_QUOTE]
}

// ---------------------------------------------------------------------------
// Specification: single tokens
// ---------------------------------------------------------------------------

pub open spec fn sp_token(t: Seq<Seq<u8>>, p: int, ctx: Seq<char>) -> Step<Seq<u8>> {
    if 0 <= p < t.len() {
        (Ok(t[p]), p + 1)
    } else {
        (Err(end_message(ctx)), p)
    }
}

pub open spec fn sp_require(t: Seq<Seq<u8>>, p: int, target: Seq<char>, ctx: Seq<char>) -> Step<()> {
    if 0 <= p < t.len() {
        (
            if t[p] == encode_utf8(target) {
                Ok(())
            } else {
                Err("Expected "@ + target + " in "@ + ctx + ", got "@ + utf8_lossy(t[p]))
            },
            p + 1,
        )
    } else {
        (Err(end_message(ctx)), p)
    }
}

pub open spec fn sp_peek(t: Seq<Seq<u8>>, p: int) -> Option<Seq<u8>> {
    if 0 <= p < t.len() {
        Some(t[p])
    } else {
        None
    }
}

pub open spec fn sp_next_is(t: Seq<Seq<u8>>, p: int, expected: Seq<u8>) -> bool {
    0 <= p < t.len() && t[p] == expected
}

/// A token that can be an identifier: it neither starts with a double quote
/// nor with a digit.
pub open spec fn is_identifier_token(tok: Seq<u8>) -> bool {
    tok.len() > 0 && tok[0] != BYTE_QUOTE && !is_digit(tok[0])
}

pub open spec fn sp_identifier(t: Seq<Seq<u8>>, p: int, ctx: Seq<char>) -> Step<Seq<char>> {
    if 0 <= p < t.len() && is_identifier_token(t[p]) {
        (Ok(utf8_lossy(t[p])), p + 1)
    } else {
        (Err("Expected identifier in "@ + ctx + " definition"@), p)
    }
}

/// A token that is a quoted string.
pub open spec fn is_string_token(tok: Seq<u8>) -> bool {
    tok.len() > 0 && tok[0] == BYTE_QUOTE && tok.last() == BYTE_QUOTE
}

pub open spec fn sp_string(t: Seq<Seq<u8>>, p: int, ctx: Seq<char>) -> Step<Seq<char>> {
    if 0 <= p < t.len() && is_string_token(t[p]) {
        (Ok(utf8_lossy(t[p].subrange(1, t[p].len() - 1))), p + 1)
    } else {
        (Err("Expected quoted string in "@ + ctx + " definition"@), p)
    }
}

/// The value of an unsigned integer token: a hexadecimal `u64` after `0x`, or
/// a decimal number up to `max`; negative hexadecimal numbers are refused.
pub open spec fn uint_token(tok: Seq<u8>, max: nat) -> Option<nat> {
    if seq_starts_with(tok, kw("-0x")) {
        None
    } else if seq_starts_with(tok, kw("0x")) {
        parse_unsigned(tok.skip(kw("0x").len() as int), 16, u64::MAX as nat)
    } else {
        parse_unsigned(tok, 10, max)
    }
}

pub open spec fn sp_u32(t: Seq<Seq<u8>>, p: int, ctx: Seq<char>) -> Step<u32> {
    if 0 <= p < t.len() {
        match uint_token(t[p], u32::MAX as nat) {
            Some(v) => (Ok(v as u32), p + 1),
            None => (Err(uint_message(t, p, ctx)), p),
        }
    } else {
        (Err(uint_message(t, p, ctx)), p)
    }
}

pub open spec fn sp_u64(t: Seq<Seq<u8>>, p: int, ctx: Seq<char>) -> Step<u64> {
    if 0 <= p < t.len() {
        match uint_token(t[p], u64::MAX as nat) {
            Some(v) => (Ok(v as u64), p + 1),
            None => (Err(uint_message(t, p, ctx)), p),
        }
    } else {
        (Err(uint_message(t, p, ctx)), p)
    }
}

pub open spec fn sp_float(t: Seq<Seq<u8>>, p: int, ctx: Seq<char>) -> Step<SpecFloatValue> {
    if 0 <= p < t.len() {
        match float_value_of(t[p]) {
            Some(v) => (Ok(v), p + 1),
            None => (Err(float_error(t[p], ctx)), p),
        }
    } else {
        (Err("Expected float value in "@ + ctx), p)
    }
}

// ---------------------------------------------------------------------------
// Specification: small building blocks
// ---------------------------------------------------------------------------

pub open spec fn sp_description(t: Seq<Seq<u8>>, p: int, ctx: Seq<char>) -> Step<Option<Seq<char>>> {
    if sp_next_is(t, p, kw("DESCRIPTION")) {
        sbind(
            sp_require(t, p + 1, "="@, ctx),
            |_u: (), p1: int| smap(sp_string(t, p1, ctx), |d: Seq<char>| Some(d)),
        )
    } else {
        (Ok(None), p)
    }
}

#[verifier::opaque]
pub open spec fn sp_sub_group(t: Seq<Seq<u8>>, p: int) -> Step<SpecSubGroupDefinition> {
    sbind(
        sp_require(t, p, "="@, "SUB_GROUP"@),
        |_u: (), p1: int|
            sbind(
                sp_identifier(t, p1, "SUB_GROUP"@),
                |name: Seq<char>, p2: int|
                    sbind(
                        sp_description(t, p2, "SUB_GROUP"@),
                        |description: Option<Seq<char>>, p3: int|
                            smap(
                                sp_require(t, p3, "END"@, "SUB_GROUP"@),
                                |_v: ()| SpecSubGroupDefinition { name, description },
                            ),
                    ),
            ),
    )
}

#[verifier::opaque]
pub open spec fn sp_main_group(t: Seq<Seq<u8>>, p: int) -> Step<SpecMainGroupDefinition> {
    sbind(
        sp_require(t, p, "="@, "MAIN_GROUP"@),
        |_u: (), p1: int|
            sbind(
                sp_identifier(t, p1, "MAIN_GROUP"@),
                |name: Seq<char>, p2: int|
                    sbind(
                        sp_description(t, p2, "MAIN_GROUP"@),
                        |description: Option<Seq<char>>, p3: int|
                            smap(
                                sp_require(t, p3, "END"@, "MAIN_GROUP"@),
                                |_v: ()| SpecMainGroupDefinition { name, description },
                            ),
                    ),
            ),
    )
}


pub open spec fn sp_tagged_u32(t: Seq<Seq<u8>>, p: int, tag: Seq<char>, ctx: Seq<char>) -> Step<u32> {
    sbind(
        sp_require(t, p, tag, ctx),
        |_u: (), p1: int| sbind(sp_require(t, p1, "="@, ctx), |_v: (), p2: int| sp_u32(t, p2, ctx)),
    )
}

pub open spec fn sp_tagged_string(t: Seq<Seq<u8>>, p: int, tag: Seq<char>, ctx: Seq<char>) -> Step<Seq<char>> {
    sbind(
        sp_require(t, p, tag, ctx),
        |_u: (), p1: int| sbind(sp_require(t, p1, "="@, ctx), |_v: (), p2: int| sp_string(t, p2, ctx)),
    )
}

pub open spec fn sp_tagged_identifier(t: Seq<Seq<u8>>, p: int, tag: Seq<char>, ctx: Seq<char>) -> Step<Seq<char>> {
    sbind(
        sp_require(t, p, tag, ctx),
        |_u: (), p1: int|
            sbind(sp_require(t, p1, "="@, ctx), |_v: (), p2: int| sp_identifier(t, p2, ctx)),
    )
}

/// `WRITEABLE` or `READ_ONLY`, if one of them is next.
pub open spec fn sp_write_access(t: Seq<Seq<u8>>, p: int) -> (Option<bool>, int) {
    if sp_next_is(t, p, kw("WRITEABLE")) {
        (Some(true), p + 1)
    } else if sp_next_is(t, p, kw("READ_ONLY")) {
        (Some(false), p + 1)
    } else {
        (None, p)
    }
}

/// The optional A2L name: the next token, unless it is one of `stop_words`.
pub open spec fn sp_a2l_name(t: Seq<Seq<u8>>, p: int, stop_words: Seq<Seq<u8>>) -> (
    Option<Seq<char>>,
    int,
) {
    if 0 <= p < t.len() && !stop_words.contains(t[p]) {
        (Some(utf8_lossy(t[p])), p + 1)
    } else {
        (None, p)
    }
}

/// The data type that a keyword names.
pub open spec fn datatype_of(tok: Seq<u8>) -> Option<DataType> {
    if tok == kw("UBYTE") {
        Some(DataType::Ubyte)
    } else if tok == kw("SBYTE") {
        Some(DataType::Sbyte)
    } else if tok == kw("UWORD") {
        Some(DataType::Uword)
    } else if tok == kw("SWORD") {
        Some(DataType::Sword)
    } else if tok == kw("ULONG") {
        Some(DataType::Ulong)
    } else if tok == kw("SLONG") {
        Some(DataType::Slong)
    } else if tok == kw("UINT64") {
        Some(DataType::AUint64)
    } else if tok == kw("INT64") {
        Some(DataType::AInt64)
    } else if tok == kw("FLOAT") {
        Some(DataType::Float32Ieee)
    } else if tok == kw("DOUBLE") {
        Some(DataType::Float64Ieee)
    } else {
        None
    }
}

/// `DATA_TYPE = <type> [bitmask]`; only integer types take a bitmask.
pub open spec fn sp_data_type(t: Seq<Seq<u8>>, p: int) -> Step<(DataType, Option<u64>)> {
    sbind(
        sp_require(t, p, "DATA_TYPE"@, "DATA_TYPE"@),
        |_u: (), p1: int|
            sbind(
                sp_require(t, p1, "="@, "DATA_TYPE"@),
                |_v: (), p2: int|
                    sbind(
                        sp_token(t, p2, "DATA_TYPE"@),
                        |tok: Seq<u8>, p3: int|
                            match datatype_of(tok) {
                                Some(dt) => if dt != DataType::Float32Ieee && dt
                                    != DataType::Float64Ieee {
                                    match sp_u64(t, p3, "DATA_TYPE bitmask"@) {
                                        (Ok(bm), p4) => (Ok((dt, Some(bm))), p4),
                                        (Err(_), p4) => (Ok((dt, None)), p4),
                                    }
                                } else {
                                    (Ok((dt, None)), p3)
                                },
                                None => (Err("Unknown DATA_TYPE: "@ + debug_str_text(utf8_lossy(tok))), p3),
                            },
                    ),
            ),
    )
}

/// The two bounds of a range once its tokens are known: the end may carry the
/// closing bracket, else the bracket is the next token.
pub open spec fn sp_range_bounds(t: Seq<Seq<u8>>, start: Seq<u8>, end: Seq<u8>, p: int) -> Step<
    Option<(SpecFloatValue, SpecFloatValue)>,
> {
    match float_value_of(start) {
        None => (Err(float_error(start, "RANGE start"@)), p),
        Some(a) => if end.len() > 0 && end.last() == BYTE_RBRACKET {
            match float_value_of(end.subrange(0, end.len() - 1)) {
                Some(b) => (Ok(Some((a, b))), p),
                None => (Err(float_error(end.subrange(0, end.len() - 1), "RANGE end"@)), p),
            }
        } else {
            sbind(
                sp_require(t, p, "]"@, "RANGE"@),
                |_u: (), p1: int|
                    match float_value_of(end) {
                        Some(b) => (Ok(Some((a, b))), p1),
                        None => (Err(float_error(end, "RANGE end"@)), p1),
                    },
            )
        },
    }
}

/// The bytes `...` between the bounds of a range.
pub open spec fn ellipsis() -> Seq<u8> {
    seq![BYTE_DOT, BYTE_DOT, BYTE_DOT]
}

/// An optional range `[start ... end]`, written as separate tokens or joined.
pub open spec fn sp_opt_range(t: Seq<Seq<u8>>, p: int) -> Step<
    Option<(SpecFloatValue, SpecFloatValue)>,
> {
    if sp_next_is(t, p, kw("[")) {
        sbind(
            sp_token(t, p + 1, "RANGE"@),
            |first: Seq<u8>, p2: int|
                match first_sub_from(first, 0, ellipsis()) {
                    Some(i) => sp_range_bounds(
                        t,
                        first.subrange(0, i),
                        first.subrange(i + 3, first.len() as int),
                        p2,
                    ),
                    None => sbind(
                        sp_require(t, p2, "..."@, "RANGE"@),
                        |_u: (), p3: int|
                            sbind(
                                sp_token(t, p3, "RANGE"@),
                                |last: Seq<u8>, p4: int| sp_range_bounds(t, first, last, p4),
                            ),
                    ),
                },
        )
    } else {
        (Ok(None), p)
    }
}

/// `BYTE_ORDER = INTEL | MOTOROLA` after the keyword.
pub open spec fn sp_byte_order(t: Seq<Seq<u8>>, p: int) -> Step<ByteOrderEnum> {
    sbind(
        sp_require(t, p, "="@, "BYTE_ORDER"@),
        |_u: (), p1: int|
            sbind(
                sp_token(t, p1, "BYTE_ORDER"@),
                |tok: Seq<u8>, p2: int|
                    if tok == kw("INTEL") {
                        (Ok(ByteOrderEnum::MsbLast), p2)
                    } else if tok == kw("MOTOROLA") {
                        (Ok(ByteOrderEnum::MsbFirst), p2)
                    } else {
                        (Err("unknown byte order "@ + utf8_lossy(tok)), p2)
                    },
            ),
    )
}

/// More identifiers, each after a `|`.
pub open spec fn sp_identifier_list_rest(t: Seq<Seq<u8>>, p: int, acc: Seq<Seq<char>>, ctx: Seq<char>) -> Step<
    Seq<Seq<char>>,
>
    decreases t.len() - p,
{
    if sp_next_is(t, p, kw("|")) {
        match sp_identifier(t, p + 1, ctx) {
            (Ok(g), p2) => if p < p2 <= t.len() {
                sp_identifier_list_rest(t, p2, acc.push(g), ctx)
            } else {
                (Ok(acc.push(g)), p2)
            },
            (Err(e), p2) => (Err(e), p2),
        }
    } else {
        (Ok(acc), p)
    }
}

/// A list of identifiers separated by `|`.
pub open spec fn sp_identifier_list_value(t: Seq<Seq<u8>>, p: int, ctx: Seq<char>) -> Step<Seq<Seq<char>>> {
    sbind(sp_identifier(t, p, ctx), |g: Seq<char>, p1: int| sp_identifier_list_rest(t, p1, seq![g], ctx))
}

/// `= ident | ident ...`.
pub open spec fn sp_identifier_list(t: Seq<Seq<u8>>, p: int, ctx: Seq<char>) -> Step<Seq<Seq<char>>> {
    sbind(sp_require(t, p, "="@, ctx), |_u: (), p1: int| sp_identifier_list_value(t, p1, ctx))
}

/// Quoted strings, as many as follow.
pub open spec fn sp_strings_from(t: Seq<Seq<u8>>, p: int, acc: Seq<Seq<char>>) -> Step<
    Seq<Seq<char>>,
>
    decreases t.len() - p,
{
    match sp_string(t, p, ""@) {
        (Ok(s), p1) => if p < p1 <= t.len() {
            sp_strings_from(t, p1, acc.push(s))
        } else {
            (Ok(acc.push(s)), p1)
        },
        (Err(_), _) => (Ok(acc), p),
    }
}

/// An optional `SPLIT`, with `USE "suffix"...`, `USE_TEMPLATE "template"` or nothing.
pub open spec fn sp_opt_split(t: Seq<Seq<u8>>, p: int) -> Step<Option<SpecSplitType>> {
    if sp_next_is(t, p, kw("SPLIT")) {
        if sp_next_is(t, p + 1, kw("USE")) {
            smap(
                sp_strings_from(t, p + 2, seq![]),
                |v: Seq<Seq<char>>| Some(SpecSplitType::Manual(v)),
            )
        } else if sp_next_is(t, p + 1, kw("USE_TEMPLATE")) {
            smap(sp_string(t, p + 2, "SPLIT USE_TEMPLATE"@), |s: Seq<char>| Some(SpecSplitType::Template(s)))
        } else {
            (Ok(Some(SpecSplitType::Auto)), p + 1)
        }
    } else {
        (Ok(None), p)
    }
}

/// Up to `n` more `u32` values, as many as follow.
pub open spec fn sp_more_u32(t: Seq<Seq<u8>>, p: int, acc: Seq<u32>, n: nat) -> Step<Seq<u32>>
    decreases n,
{
    if n == 0 {
        (Ok(acc), p)
    } else {
        match sp_u32(t, p, "DIMENSION"@) {
            (Ok(d), p1) => sp_more_u32(t, p1, acc.push(d), (n - 1) as nat),
            (Err(_), _) => (Ok(acc), p),
        }
    }
}

/// `= d0 [d1 ... d4]`: one to five dimensions.
pub open spec fn sp_dimension(t: Seq<Seq<u8>>, p: int) -> Step<Seq<u32>> {
    sbind(
        sp_require(t, p, "="@, "DIMENSION"@),
        |_u: (), p1: int| sbind(sp_u32(t, p1, "DIMENSION"@), |d0: u32, p2: int| sp_more_u32(t, p2, seq![d0], 4)),
    )
}

/// An optional `DIMENSION = ... [SPLIT ...]`.
pub open spec fn sp_opt_dimension(t: Seq<Seq<u8>>, p: int) -> Step<
    (Seq<u32>, Option<SpecSplitType>),
> {
    if sp_next_is(t, p, kw("DIMENSION")) {
        sbind(
            sp_dimension(t, p + 1),
            |dim: Seq<u32>, p1: int| smap(sp_opt_split(t, p1), |s: Option<SpecSplitType>| (dim, s)),
        )
    } else {
        (Ok((seq![], None)), p)
    }
}

/// A group assignment after `GROUP`: `IN`, `OUT` or `DEF` and a list, or a list.
pub open spec fn sp_group_attribute(t: Seq<Seq<u8>>, p: int) -> Step<SpecGroupAttribute> {
    if sp_next_is(t, p, kw("IN")) {
        smap(sp_identifier_list(t, p + 1, "GROUP IN"@), |g: Seq<Seq<char>>| SpecGroupAttribute::In(g))
    } else if sp_next_is(t, p, kw("OUT")) {
        smap(sp_identifier_list(t, p + 1, "GROUP OUT"@), |g: Seq<Seq<char>>| SpecGroupAttribute::Out(g))
    } else if sp_next_is(t, p, kw("DEF")) {
        smap(sp_identifier_list(t, p + 1, "GROUP DEF"@), |g: Seq<Seq<char>>| SpecGroupAttribute::Def(g))
    } else if sp_next_is(t, p, kw("=")) {
        smap(sp_identifier_list(t, p, "GROUP"@), |g: Seq<Seq<char>>| SpecGroupAttribute::Std(g))
    } else if 0 <= p < t.len() {
        (Err("Unexpected token in GROUP: "@ + debug_str_text(utf8_lossy(t[p]))), p + 1)
    } else {
        (Err(end_message("GROUP"@)), p)
    }
}

/// Optional length and digits: one value is the digits, two are length and digits.
pub open spec fn sp_length_digits(t: Seq<Seq<u8>>, p: int) -> Step<(Option<u64>, Option<u64>)> {
    match sp_u64(t, p, "conversion length/digits"@) {
        (Err(_), _) => (Ok((None, None)), p),
        (Ok(v1), p1) => match sp_u64(t, p1, "conversion digits"@) {
            (Err(_), _) => (Ok((None, Some(v1))), p1),
            (Ok(v2), p2) => (Ok((Some(v1), Some(v2))), p2),
        },
    }
}

/// `= "unit" [length] [digits]` after `UNIT`.
pub open spec fn sp_unit_attribute(t: Seq<Seq<u8>>, p: int) -> Step<SpecConversionAttribute> {
    sbind(
        sp_require(t, p, "="@, "CONVERSION attribute"@),
        |_u: (), p1: int|
            sbind(
                sp_string(t, p1, "UNIT name"@),
                |name: Seq<char>, p2: int|
                    smap(
                        sp_length_digits(t, p2),
                        |ld: (Option<u64>, Option<u64>)|
                            SpecConversionAttribute::Unit { name, length: ld.0, digits: ld.1 },
                    ),
            ),
    )
}

/// The rows of a value table: `value "text"` or `value value "text"`.
pub open spec fn sp_table_rows(t: Seq<Seq<u8>>, p: int, rows: Seq<SpecTableRow>) -> Step<
    Seq<SpecTableRow>,
>
    decreases t.len() - p,
{
    match sp_float(t, p, "TABLE conversion row value 1"@) {
        (Err(_), _) => (Ok(rows), p),
        (Ok(v1), p1) => match sp_string(t, p1, "TABLE conversion row text"@) {
            (Ok(text), p2) => if p < p2 <= t.len() {
                sp_table_rows(t, p2, rows.push(SpecTableRow { value1: v1, value2: None, text }))
            } else {
                (Ok(rows), p2)
            },
            (Err(_), _) => match sp_float(t, p1, "TABLE conversion row value 2"@) {
                (Ok(v2), p2) => match sp_string(t, p2, "TABLE conversion row text"@) {
                    (Ok(text), p3) => if p < p3 <= t.len() {
                        sp_table_rows(
                            t,
                            p3,
                            rows.push(SpecTableRow { value1: v1, value2: Some(v2), text }),
                        )
                    } else {
                        (Ok(rows), p3)
                    },
                    (Err(_), _) => if p < p2 <= t.len() {
                        sp_table_rows(t, p2, rows)
                    } else {
                        (Ok(rows), p2)
                    },
                },
                (Err(_), _) => (Err("Invalid TABLE conversion row: expected a string or a second float value"@), p1),
            },
        },
    }
}

/// A value table and its optional `DEFAULT_VALUE "text"`.
pub open spec fn sp_conversion_table(t: Seq<Seq<u8>>, p: int) -> Step<
    (Seq<SpecTableRow>, Option<Seq<char>>),
> {
    sbind(
        sp_table_rows(t, p, seq![]),
        |rows: Seq<SpecTableRow>, p1: int|
            if sp_next_is(t, p1, kw("DEFAULT_VALUE")) {
                smap(sp_string(t, p1 + 1, "TABLE conversion default value"@), |d: Seq<char>| (rows, Some(d)))
            } else {
                (Ok((rows, None)), p1)
            },
    )
}

/// An optional `INVERSE "formula"`.
pub open spec fn sp_opt_inverse(t: Seq<Seq<u8>>, p: int) -> Step<Option<Seq<char>>> {
    if sp_next_is(t, p, kw("INVERSE")) {
        smap(sp_string(t, p + 1, "FORMULA conversion inverse formula"@), |s: Seq<char>| Some(s))
    } else {
        (Ok(None), p)
    }
}

/// `= LINEAR ... | FORMULA ... | TABLE ... | <name> ...` after `CONVERSION`.
pub open spec fn sp_conversion_attribute(t: Seq<Seq<u8>>, p: int) -> Step<
    SpecConversionAttribute,
> {
    sbind(
        sp_require(t, p, "="@, "CONVERSION attribute"@),
        |_u: (), p1: int|
            sbind(
                sp_token(t, p1, "CONVERSION attribute"@),
                |tok: Seq<u8>, p2: int|
                    if tok == kw("LINEAR") {
                        sbind(
                            sp_float(t, p2, "LINEAR conversion factor"@),
                            |factor: SpecFloatValue, p3: int|
                                sbind(
                                    sp_float(t, p3, "LINEAR conversion offset"@),
                                    |offset: SpecFloatValue, p4: int|
                                        sbind(
                                            sp_string(t, p4, "LINEAR conversion unit"@),
                                            |unit: Seq<char>, p5: int|
                                                smap(
                                                    sp_length_digits(t, p5),
                                                    |ld: (Option<u64>, Option<u64>)|
                                                        SpecConversionAttribute::Linear {
                                                            factor,
                                                            offset,
                                                            unit,
                                                            length: ld.0,
                                                            digits: ld.1,
                                                        },
                                                ),
                                        ),
                                ),
                        )
                    } else if tok == kw("FORMULA") {
                        sbind(
                            sp_string(t, p2, "FORMULA conversion formula"@),
                            |formula: Seq<char>, p3: int|
                                sbind(
                                    sp_opt_inverse(t, p3),
                                    |inverse_formula: Option<Seq<char>>, p4: int|
                                        sbind(
                                            sp_string(t, p4, "FORMULA conversion unit"@),
                                            |unit: Seq<char>, p5: int|
                                                smap(
                                                    sp_length_digits(t, p5),
                                                    |ld: (Option<u64>, Option<u64>)|
                                                        SpecConversionAttribute::Formula {
                                                            formula,
                                                            inverse_formula,
                                                            unit,
                                                            length: ld.0,
                                                            digits: ld.1,
                                                        },
                                                ),
                                        ),
                                ),
                        )
                    } else if tok == kw("TABLE") {
                        sbind(
                            sp_conversion_table(t, p2),
                            |table: (Seq<SpecTableRow>, Option<Seq<char>>), p3: int|
                                if sp_next_is(t, p3, kw("FORMAT")) {
                                    sbind(
                                        sp_u64(t, p3 + 1, "TABLE conversion FORMAT length"@),
                                        |length: u64, p4: int|
                                            smap(
                                                sp_u64(t, p4, "TABLE conversion FORMAT digits"@),
                                                |digits: u64|
                                                    SpecConversionAttribute::Table {
                                                        rows: table.0,
                                                        default_value: table.1,
                                                        format_values: Some((length, digits)),
                                                    },
                                            ),
                                    )
                                } else {
                                    (
                                        Ok(
                                            SpecConversionAttribute::Table {
                                                rows: table.0,
                                                default_value: table.1,
                                                format_values: None,
                                            },
                                        ),
                                        p3,
                                    )
                                },
                        )
                    } else {
                        smap(
                            sp_length_digits(t, p2),
                            |ld: (Option<u64>, Option<u64>)|
                                SpecConversionAttribute::Reference {
                                    name: utf8_lossy(tok),
                                    length: ld.0,
                                    digits: ld.1,
                                },
                        )
                    },
            ),
    )
}


/// `u32` values, as many as follow.
pub open spec fn sp_u32_list(t: Seq<Seq<u8>>, p: int, acc: Seq<u32>) -> Step<Seq<u32>>
    decreases t.len() - p,
{
    match sp_u32(t, p, ""@) {
        (Ok(v), p1) => if p < p1 <= t.len() {
            sp_u32_list(t, p1, acc.push(v))
        } else {
            (Ok(acc.push(v)), p1)
        },
        (Err(_), _) => (Ok(acc), p),
    }
}

/// Values where floating-point numbers are allowed, as many as follow.
pub open spec fn sp_float_list(t: Seq<Seq<u8>>, p: int, acc: Seq<SpecFloatValue>) -> Step<
    Seq<SpecFloatValue>,
>
    decreases t.len() - p,
{
    match sp_float(t, p, "AXIS FIX"@) {
        (Ok(v), p1) => if p < p1 <= t.len() {
            sp_float_list(t, p1, acc.push(v))
        } else {
            (Ok(acc.push(v)), p1)
        },
        (Err(_), _) => (Ok(acc), p),
    }
}

/// `CCP = v` or `XCP = FIXED v | VARIABLE v... | DEFAULT v` after `EVENT`.
pub open spec fn sp_event(t: Seq<Seq<u8>>, p: int) -> Step<SpecEventType> {
    sbind(
        sp_token(t, p, "EVENT"@),
        |tok: Seq<u8>, p1: int|
            sbind(
                sp_require(t, p1, "="@, "EVENT"@),
                |_u: (), p2: int|
                    if tok == kw("CCP") {
                        smap(sp_u32(t, p2, "EVENT CCP value"@), |v: u32| SpecEventType::Ccp(v))
                    } else if tok == kw("XCP") {
                        sbind(
                            sp_token(t, p2, "EVENT XCP"@),
                            |sub: Seq<u8>, p3: int|
                                if sub == kw("FIXED") {
                                    smap(sp_u32(t, p3, "EVENT XCP = FIXED value"@), |v: u32| SpecEventType::XcpFixed(v))
                                } else if sub == kw("VARIABLE") {
                                    sbind(
                                        sp_u32(t, p3, "EVENT XCP = VARIABLE value"@),
                                        |v: u32, p4: int|
                                            smap(
                                                sp_u32_list(t, p4, seq![v]),
                                                |vs: Seq<u32>| SpecEventType::XcpVariable(vs),
                                            ),
                                    )
                                } else if sub == kw("DEFAULT") {
                                    smap(sp_u32(t, p3, "EVENT XCP = DEFAULT value"@), |v: u32| SpecEventType::XcpDefault(v))
                                } else {
                                    (Err("Unknown XCP event category \""@ + utf8_lossy(sub) + "\""@), p3)
                                },
                        )
                    } else {
                        (Err("Unexpected event type "@ + utf8_lossy(tok) + " in EVENT definition"@), p2)
                    },
            ),
    )
}

/// An optional `UNIT = "name" length digits` of a named conversion.
pub open spec fn sp_unit(t: Seq<Seq<u8>>, p: int, ctx: Seq<char>) -> Step<Option<SpecUnit>> {
    if sp_next_is(t, p, kw("UNIT")) {
        sbind(
            sp_require(t, p + 1, "="@, ctx),
            |_u: (), p1: int|
                sbind(
                    sp_string(t, p1, ctx),
                    |name: Seq<char>, p2: int|
                        sbind(
                            sp_u64(t, p2, ctx),
                            |length: u64, p3: int|
                                smap(
                                    sp_u64(t, p3, ctx),
                                    |digits: u64| Some(SpecUnit { name, length, digits }),
                                ),
                        ),
                ),
        )
    } else {
        (Ok(None), p)
    }
}

/// `LAYOUT = identifier`.
pub open spec fn sp_layout(t: Seq<Seq<u8>>, p: int) -> Step<Seq<char>> {
    sp_tagged_identifier(t, p, "LAYOUT"@, "LAYOUT"@)
}

/// An optional `INPUT = [INSTANCE_NAME] identifier` of an axis.
pub open spec fn sp_axis_input_signal(t: Seq<Seq<u8>>, p: int) -> Step<(Option<Seq<char>>, bool)> {
    if sp_next_is(t, p, kw("INPUT")) {
        sbind(
            sp_require(t, p + 1, "="@, "INPUT"@),
            |_u: (), p1: int|
                if sp_next_is(t, p1, kw("INSTANCE_NAME")) {
                    smap(sp_identifier(t, p1 + 1, "INPUT"@), |n: Seq<char>| (Some(n), true))
                } else {
                    smap(sp_identifier(t, p1, "INPUT"@), |n: Seq<char>| (Some(n), false))
                },
        )
    } else {
        (Ok((None, false)), p)
    }
}

/// An optional `CONVERSION ...` or `UNIT ...` of an axis.
pub open spec fn sp_axis_conversion(t: Seq<Seq<u8>>, p: int) -> Step<
    Option<SpecConversionAttribute>,
> {
    if sp_next_is(t, p, kw("CONVERSION")) {
        smap(sp_conversion_attribute(t, p + 1), |c: SpecConversionAttribute| Some(c))
    } else if sp_next_is(t, p, kw("UNIT")) {
        smap(sp_unit_attribute(t, p + 1), |c: SpecConversionAttribute| Some(c))
    } else {
        (Ok(None), p)
    }
}

/// A standard axis: data type, ranges, dimension, input signal, conversion.
pub open spec fn sp_std_axis(t: Seq<Seq<u8>>, p: int) -> Step<SpecAxisInfo> {
    sbind(
        sp_data_type(t, p),
        |dt: (DataType, Option<u64>), p1: int|
            sbind(
                sp_opt_range(t, p1),
                |range: Option<(SpecFloatValue, SpecFloatValue)>, p2: int|
                    sbind(
                        sp_opt_range(t, p2),
                        |extended_range: Option<(SpecFloatValue, SpecFloatValue)>, p3: int|
                            sbind(
                                sp_require(t, p3, "DIMENSION"@, "AXIS"@),
                                |_u: (), p4: int|
                                    sbind(
                                        sp_dimension(t, p4),
                                        |dimension: Seq<u32>, p5: int|
                                            sbind(
                                                sp_axis_input_signal(t, p5),
                                                |input: (Option<Seq<char>>, bool), p6: int|
                                                    smap(
                                                        sp_axis_conversion(t, p6),
                                                        |conversion: Option<SpecConversionAttribute>|
                                                            SpecAxisInfo::Standard {
                                                                datatype: dt.0,
                                                                range,
                                                                extended_range,
                                                                dimension,
                                                                input_signal: input.0,
                                                                input_is_instance: input.1,
                                                                conversion,
                                                            },
                                                    ),
                                            ),
                                    ),
                            ),
                    ),
            ),
    )
}

/// An optional `, step` after the range of a fix axis.
pub open spec fn sp_opt_step(t: Seq<Seq<u8>>, p: int) -> Step<Option<SpecFloatValue>> {
    if sp_next_is(t, p, kw(",")) {
        smap(sp_float(t, p + 1, "AXIS FIX range step"@), |v: SpecFloatValue| Some(v))
    } else {
        (Ok(None), p)
    }
}

/// A fix axis given by a range and an optional step.
pub open spec fn sp_fix_axis_range(t: Seq<Seq<u8>>, p: int) -> Step<SpecAxisInfo> {
    sbind(
        sp_opt_range(t, p),
        |r: Option<(SpecFloatValue, SpecFloatValue)>, p1: int|
            match r {
                None => (Err("Invalid range value for AXIS FIX"@), p1),
                Some(range) => sbind(
                    sp_opt_step(t, p1),
                    |range_step: Option<SpecFloatValue>, p2: int|
                        sbind(
                            sp_axis_input_signal(t, p2),
                            |input: (Option<Seq<char>>, bool), p3: int|
                                smap(
                                    sp_axis_conversion(t, p3),
                                    |conversion: Option<SpecConversionAttribute>|
                                        SpecAxisInfo::FixRange {
                                            range_min: range.0,
                                            range_max: range.1,
                                            range_step,
                                            input_signal: input.0,
                                            input_is_instance: input.1,
                                            conversion,
                                        },
                                ),
                        ),
                ),
            },
    )
}

/// A fix axis given by a list of axis points.
pub open spec fn sp_fix_axis_list(t: Seq<Seq<u8>>, p: int) -> Step<SpecAxisInfo> {
    sbind(
        sp_float(t, p, "AXIS FIX"@),
        |v: SpecFloatValue, p1: int|
            sbind(
                sp_float_list(t, p1, seq![v]),
                |axis_points: Seq<SpecFloatValue>, p2: int|
                    sbind(
                        sp_axis_input_signal(t, p2),
                        |input: (Option<Seq<char>>, bool), p3: int|
                            smap(
                                sp_axis_conversion(t, p3),
                                |conversion: Option<SpecConversionAttribute>|
                                    SpecAxisInfo::FixList {
                                        axis_points,
                                        input_signal: input.0,
                                        input_is_instance: input.1,
                                        conversion,
                                    },
                            ),
                    ),
            ),
    )
}

/// A common axis: a reference to an axis item or an instance.
pub open spec fn sp_common_axis(t: Seq<Seq<u8>>, p: int) -> Step<SpecAxisInfo> {
    if sp_next_is(t, p, kw("INSTANCE_NAME")) {
        smap(
            sp_identifier(t, p + 1, "AXIS COMMON INSTANCE_NAME"@),
            |n: Seq<char>| SpecAxisInfo::Common { ref_name: n, is_instance: true },
        )
    } else {
        smap(
            sp_identifier(t, p, "AXIS COMMON"@),
            |n: Seq<char>| SpecAxisInfo::Common { ref_name: n, is_instance: false },
        )
    }
}

/// `= STANDARD ... | FIX ... | COMMON ...` after `X_AXIS` or `Y_AXIS`.
pub open spec fn sp_axis(t: Seq<Seq<u8>>, p: int) -> Step<SpecAxisInfo> {
    sbind(
        sp_require(t, p, "="@, "AXIS"@),
        |_u: (), p1: int|
            sbind(
                sp_token(t, p1, "AXIS"@),
                |tok: Seq<u8>, p2: int|
                    if tok == kw("STANDARD") {
                        sp_std_axis(t, p2)
                    } else if tok == kw("FIX") {
                        if sp_next_is(t, p2, kw("[")) {
                            sp_fix_axis_range(t, p2)
                        } else {
                            sp_fix_axis_list(t, p2)
                        }
                    } else if tok == kw("COMMON") {
                        sp_common_axis(t, p2)
                    } else {
                        (Err("unknown AXIS type "@ + utf8_lossy(tok)), p2)
                    },
            ),
    )
}


/// One attribute of a Attributes list at `p`, added to `a`; `None` when the
/// token there is no such attribute.
pub open spec fn sp_attribute_step(t: Seq<Seq<u8>>, p: int, a: SpecAttributes) -> Option<Step<SpecAttributes>> {
    let tok = t[p];
    if tok == kw("ADDRESS") {
        Some(smap(sp_tagged_u32(t, p, "ADDRESS"@, "ADDRESS"@), |v: u32| SpecAttributes { address: Some(v), ..a }))
    } else if tok == kw("ADDRESS_EXTENSION") {
        Some(smap(sp_tagged_u32(t, p, "ADDRESS_EXTENSION"@, "ADDRESS_EXTENSION"@), |v: u32| SpecAttributes { address_ext: Some(v), ..a }))
    } else if tok == kw("ALIAS") {
        Some(smap(sp_tagged_identifier(t, p, "ALIAS"@, "ALIAS"@), |v: Seq<char>| SpecAttributes { alias: Some(v), ..a }))
    } else if tok == kw("BASE_OFFSET") {
        Some(smap(sp_tagged_u32(t, p, "BASE_OFFSET"@, "BASE_OFFSET"@), |v: u32| SpecAttributes { base_offset: Some(v), ..a }))
    } else if tok == kw("BYTE_ORDER") {
        Some(smap(sp_byte_order(t, p + 1), |v: ByteOrderEnum| SpecAttributes { byte_order: Some(v), ..a }))
    } else if tok == kw("COLOR") {
        Some(smap(sp_tagged_u32(t, p, "COLOR"@, "COLOR"@), |v: u32| SpecAttributes { color: Some(v), ..a }))
    } else if tok == kw("CONVERSION") {
        Some(smap(sp_conversion_attribute(t, p + 1), |v: SpecConversionAttribute| SpecAttributes { conversion: Some(v), ..a }))
    } else if tok == kw("DESCRIPTION") {
        Some(smap(sp_tagged_string(t, p, "DESCRIPTION"@, "DESCRIPTION"@), |v: Seq<char>| SpecAttributes { description: Some(v), ..a }))
    } else if tok == kw("DIMENSION") {
        Some(sbind(sp_dimension(t, p + 1), |d: Seq<u32>, p1: int| smap(sp_opt_split(t, p1), |sp: Option<SpecSplitType>| SpecAttributes { dimension: d, split: sp, ..a })))
    } else if tok == kw("EVENT") {
        Some(smap(sp_event(t, p + 1), |v: SpecEventType| SpecAttributes { event: Some(v), ..a }))
    } else if tok == kw("GROUP") {
        Some(smap(sp_group_attribute(t, p + 1), |v: SpecGroupAttribute| SpecAttributes { group: a.group.push(v), ..a }))
    } else if tok == kw("LAYOUT") {
        Some(smap(sp_tagged_identifier(t, p, "LAYOUT"@, "LAYOUT"@), |v: Seq<char>| SpecAttributes { layout: Some(v), ..a }))
    } else if tok == kw("UNIT") {
        Some(smap(sp_unit_attribute(t, p + 1), |v: SpecConversionAttribute| SpecAttributes { conversion: Some(v), ..a }))
    } else if tok == kw("VAR_CRITERION") {
        Some(smap(sp_tagged_identifier(t, p, "VAR_CRITERION"@, "VAR_CRITERION"@), |v: Seq<char>| SpecAttributes { var_criterion: Some(v), ..a }))
    } else {
        None
    }
}

/// Attributes from `p` on, added to `a`, up to the first token that is none.
pub open spec fn sp_attributes_from(t: Seq<Seq<u8>>, p: int, a: SpecAttributes) -> Step<SpecAttributes>
    decreases t.len() - p,
{
    if !(0 <= p < t.len()) {
        (Ok(a), p)
    } else {
        match sp_attribute_step(t, p, a) {
            None => (Ok(a), p),
            Some((Err(e), p1)) => (Err(e), p1),
            Some((Ok(a2), p1)) => if p < p1 <= t.len() {
                sp_attributes_from(t, p1, a2)
            } else {
                (Ok(a2), p1)
            },
        }
    }
}

/// The empty Attributes.
pub open spec fn empty_attributes() -> SpecAttributes {
    SpecAttributes {
        address: None,
        address_ext: None,
        alias: None,
        base_offset: None,
        byte_order: None,
        color: None,
        conversion: None,
        description: None,
        dimension: seq![],
        event: None,
        group: seq![],
        layout: None,
        split: None,
        var_criterion: None,
    }
}

pub open spec fn sp_attributes(t: Seq<Seq<u8>>, p: int) -> Step<SpecAttributes> {
    sp_attributes_from(t, p, empty_attributes())
}

/// One attribute of a StringAttributes list at `p`, added to `a`; `None` when the
/// token there is no such attribute.
pub open spec fn sp_string_attribute_step(t: Seq<Seq<u8>>, p: int, a: SpecStringAttributes) -> Option<Step<SpecStringAttributes>> {
    let tok = t[p];
    if tok == kw("ADDRESS") {
        Some(smap(sp_tagged_u32(t, p, "ADDRESS"@, "ADDRESS"@), |v: u32| SpecStringAttributes { address: Some(v), ..a }))
    } else if tok == kw("ADDRESS_EXTENSION") {
        Some(smap(sp_tagged_u32(t, p, "ADDRESS_EXTENSION"@, "ADDRESS_EXTENSION"@), |v: u32| SpecStringAttributes { address_ext: Some(v), ..a }))
    } else if tok == kw("ALIAS") {
        Some(smap(sp_tagged_identifier(t, p, "ALIAS"@, "ALIAS"@), |v: Seq<char>| SpecStringAttributes { alias: Some(v), ..a }))
    } else if tok == kw("BASE_OFFSET") {
        Some(smap(sp_tagged_u32(t, p, "BASE_OFFSET"@, "BASE_OFFSET"@), |v: u32| SpecStringAttributes { base_offset: Some(v), ..a }))
    } else if tok == kw("DESCRIPTION") {
        Some(smap(sp_tagged_string(t, p, "DESCRIPTION"@, "DESCRIPTION"@), |v: Seq<char>| SpecStringAttributes { description: Some(v), ..a }))
    } else if tok == kw("DIMENSION") {
        Some(sbind(sp_dimension(t, p + 1), |d: Seq<u32>, p1: int| smap(sp_opt_split(t, p1), |sp: Option<SpecSplitType>| SpecStringAttributes { dimension: d, split: sp, ..a })))
    } else if tok == kw("GROUP") {
        Some(smap(sp_group_attribute(t, p + 1), |v: SpecGroupAttribute| SpecStringAttributes { group: a.group.push(v), ..a }))
    } else if tok == kw("VAR_CRITERION") {
        Some(smap(sp_tagged_identifier(t, p, "VAR_CRITERION"@, "VAR_CRITERION"@), |v: Seq<char>| SpecStringAttributes { var_criterion: Some(v), ..a }))
    } else {
        None
    }
}

/// StringAttributes from `p` on, added to `a`, up to the first token that is none.
pub open spec fn sp_string_attributes_from(t: Seq<Seq<u8>>, p: int, a: SpecStringAttributes) -> Step<SpecStringAttributes>
    decreases t.len() - p,
{
    if !(0 <= p < t.len()) {
        (Ok(a), p)
    } else {
        match sp_string_attribute_step(t, p, a) {
            None => (Ok(a), p),
            Some((Err(e), p1)) => (Err(e), p1),
            Some((Ok(a2), p1)) => if p < p1 <= t.len() {
                sp_string_attributes_from(t, p1, a2)
            } else {
                (Ok(a2), p1)
            },
        }
    }
}

/// The empty StringAttributes.
pub open spec fn empty_string_attributes() -> SpecStringAttributes {
    SpecStringAttributes {
        address: None,
        address_ext: None,
        alias: None,
        base_offset: None,
        description: None,
        dimension: seq![],
        group: seq![],
        split: None,
        var_criterion: None,
    }
}

pub open spec fn sp_string_attributes(t: Seq<Seq<u8>>, p: int) -> Step<SpecStringAttributes> {
    sp_string_attributes_from(t, p, empty_string_attributes())
}

/// One attribute of a MapAttributes list at `p`, added to `a`; `None` when the
/// token there is no such attribute.
pub open spec fn sp_map_attribute_step(t: Seq<Seq<u8>>, p: int, a: SpecMapAttributes) -> Option<Step<SpecMapAttributes>> {
    let tok = t[p];
    if tok == kw("ADDRESS") {
        Some(smap(sp_tagged_u32(t, p, "ADDRESS"@, "ADDRESS"@), |v: u32| SpecMapAttributes { address: Some(v), ..a }))
    } else if tok == kw("ADDRESS_EXTENSION") {
        Some(smap(sp_tagged_u32(t, p, "ADDRESS_EXTENSION"@, "ADDRESS_EXTENSION"@), |v: u32| SpecMapAttributes { address_ext: Some(v), ..a }))
    } else if tok == kw("ALIAS") {
        Some(smap(sp_tagged_identifier(t, p, "ALIAS"@, "ALIAS"@), |v: Seq<char>| SpecMapAttributes { alias: Some(v), ..a }))
    } else if tok == kw("BASE_OFFSET") {
        Some(smap(sp_tagged_u32(t, p, "BASE_OFFSET"@, "BASE_OFFSET"@), |v: u32| SpecMapAttributes { base_offset: Some(v), ..a }))
    } else if tok == kw("BYTE_ORDER") {
        Some(smap(sp_byte_order(t, p + 1), |v: ByteOrderEnum| SpecMapAttributes { byte_order: Some(v), ..a }))
    } else if tok == kw("CONVERSION") {
        Some(smap(sp_conversion_attribute(t, p + 1), |v: SpecConversionAttribute| SpecMapAttributes { conversion: Some(v), ..a }))
    } else if tok == kw("DESCRIPTION") {
        Some(smap(sp_tagged_string(t, p, "DESCRIPTION"@, "DESCRIPTION"@), |v: Seq<char>| SpecMapAttributes { description: Some(v), ..a }))
    } else if tok == kw("GROUP") {
        Some(smap(sp_group_attribute(t, p + 1), |v: SpecGroupAttribute| SpecMapAttributes { group: a.group.push(v), ..a }))
    } else if tok == kw("UNIT") {
        Some(smap(sp_unit_attribute(t, p + 1), |v: SpecConversionAttribute| SpecMapAttributes { conversion: Some(v), ..a }))
    } else if tok == kw("VAR_CRITERION") {
        Some(smap(sp_tagged_identifier(t, p, "VAR_CRITERION"@, "VAR_CRITERION"@), |v: Seq<char>| SpecMapAttributes { var_criterion: Some(v), ..a }))
    } else {
        None
    }
}

/// MapAttributes from `p` on, added to `a`, up to the first token that is none.
pub open spec fn sp_map_attributes_from(t: Seq<Seq<u8>>, p: int, a: SpecMapAttributes) -> Step<SpecMapAttributes>
    decreases t.len() - p,
{
    if !(0 <= p < t.len()) {
        (Ok(a), p)
    } else {
        match sp_map_attribute_step(t, p, a) {
            None => (Ok(a), p),
            Some((Err(e), p1)) => (Err(e), p1),
            Some((Ok(a2), p1)) => if p < p1 <= t.len() {
                sp_map_attributes_from(t, p1, a2)
            } else {
                (Ok(a2), p1)
            },
        }
    }
}

/// The empty MapAttributes.
pub open spec fn empty_map_attributes() -> SpecMapAttributes {
    SpecMapAttributes {
        address: None,
        address_ext: None,
        alias: None,
        base_offset: None,
        byte_order: None,
        conversion: None,
        description: None,
        group: seq![],
        var_criterion: None,
    }
}

pub open spec fn sp_map_attributes(t: Seq<Seq<u8>>, p: int) -> Step<SpecMapAttributes> {
    sp_map_attributes_from(t, p, empty_map_attributes())
}

/// One attribute of a StructAttributes list at `p`, added to `a`; `None` when the
/// token there is no such attribute.
pub open spec fn sp_struct_attribute_step(t: Seq<Seq<u8>>, p: int, a: SpecStructAttributes) -> Option<Step<SpecStructAttributes>> {
    let tok = t[p];
    if tok == kw("BASE_OFFSET") {
        Some(smap(sp_tagged_u32(t, p, "BASE_OFFSET"@, "BASE_OFFSET"@), |v: u32| SpecStructAttributes { base_offset: Some(v), ..a }))
    } else if tok == kw("DIMENSION") {
        Some(sbind(sp_dimension(t, p + 1), |d: Seq<u32>, p1: int| smap(sp_opt_split(t, p1), |sp: Option<SpecSplitType>| SpecStructAttributes { dimension: d, base_offset: a.base_offset, size: a.size, split: sp })))
    } else if tok == kw("SIZE") {
        Some(smap(sp_tagged_u32(t, p, "SIZE"@, "SIZE"@), |v: u32| SpecStructAttributes { size: Some(v), ..a }))
    } else {
        None
    }
}

/// StructAttributes from `p` on, added to `a`, up to the first token that is none.
pub open spec fn sp_struct_attributes_from(t: Seq<Seq<u8>>, p: int, a: SpecStructAttributes) -> Step<SpecStructAttributes>
    decreases t.len() - p,
{
    if !(0 <= p < t.len()) {
        (Ok(a), p)
    } else {
        match sp_struct_attribute_step(t, p, a) {
            None => (Ok(a), p),
            Some((Err(e), p1)) => (Err(e), p1),
            Some((Ok(a2), p1)) => if p < p1 <= t.len() {
                sp_struct_attributes_from(t, p1, a2)
            } else {
                (Ok(a2), p1)
            },
        }
    }
}

/// The empty StructAttributes.
pub open spec fn empty_struct_attributes() -> SpecStructAttributes {
    SpecStructAttributes { dimension: seq![], base_offset: None, size: None, split: None }
}

pub open spec fn sp_struct_attributes(t: Seq<Seq<u8>>, p: int) -> Step<SpecStructAttributes> {
    sp_struct_attributes_from(t, p, empty_struct_attributes())
}


/// The stop word of the A2L name of an item: `DATA_TYPE`.
pub open spec fn stop_data_type() -> Seq<Seq<u8>> {
    seq![kw("DATA_TYPE")]
}

/// The stop word of the A2L name of an instance or sub-structure: `STRUCTURE`.
pub open spec fn stop_structure() -> Seq<Seq<u8>> {
    seq![kw("STRUCTURE")]
}

/// The stop words of the A2L name of a string item: its attribute keywords and `END`.
pub open spec fn stop_string() -> Seq<Seq<u8>> {
    seq![
        kw("ADDRESS"),
        kw("ADDRESS"),
        kw("ADDRESS_EXTENSION"),
        kw("ALIAS"),
        kw("BASE_OFFSET"),
        kw("DESCRIPTION"),
        kw("DIMENSION"),
        kw("END"),
        kw("GROUP"),
        kw("VAR_CRITERION"),
    ]
}

/// The configuration of an item and its optional A2L name.
pub type SpecConfigAndName = (SpecItemConfig, Option<Seq<char>>);

pub open spec fn sp_measure_config(t: Seq<Seq<u8>>, p: int) -> Step<SpecConfigAndName> {
    let (write_access, p1) = sp_write_access(t, p);
    let (a2l_name, p2) = sp_a2l_name(t, p1, stop_data_type());
    sbind(
        sp_data_type(t, p2),
        |dt: (DataType, Option<u64>), p3: int|
            sbind(
                sp_opt_range(t, p3),
                |range: Option<(SpecFloatValue, SpecFloatValue)>, p4: int|
                    sbind(
                        sp_opt_range(t, p4),
                        |_extended: Option<(SpecFloatValue, SpecFloatValue)>, p5: int|
                            sbind(
                                sp_attributes(t, p5),
                                |attributes: SpecAttributes, p6: int|
                                    smap(
                                        sp_require(t, p6, "END"@, "SYMBOL"@),
                                        |_u: ()|
                                            (
                                                SpecItemConfig::Measure(
                                                    SpecMeasureCfg {
                                                        write_access,
                                                        datatype: dt.0,
                                                        bitmask: dt.1,
                                                        range,
                                                        attributes,
                                                    },
                                                ),
                                                a2l_name,
                                            ),
                                    ),
                            ),
                    ),
            ),
    )
}

pub open spec fn sp_parameter_config(t: Seq<Seq<u8>>, p: int) -> Step<SpecConfigAndName> {
    let (write_access, p1) = sp_write_access(t, p);
    let (a2l_name, p2) = sp_a2l_name(t, p1, stop_data_type());
    sbind(
        sp_data_type(t, p2),
        |dt: (DataType, Option<u64>), p3: int|
            sbind(
                sp_opt_range(t, p3),
                |range: Option<(SpecFloatValue, SpecFloatValue)>, p4: int|
                    sbind(
                        sp_opt_range(t, p4),
                        |extended_range: Option<(SpecFloatValue, SpecFloatValue)>, p5: int|
                            sbind(
                                sp_attributes(t, p5),
                                |attributes: SpecAttributes, p6: int|
                                    smap(
                                        sp_require(t, p6, "END"@, "SYMBOL"@),
                                        |_u: ()|
                                            (
                                                SpecItemConfig::Parameter(
                                                    SpecParameterCfg {
                                                        write_access,
                                                        datatype: dt.0,
                                                        bitmask: dt.1,
                                                        range,
                                                        extended_range,
                                                        attributes,
                                                    },
                                                ),
                                                a2l_name,
                                            ),
                                    ),
                            ),
                    ),
            ),
    )
}

/// The axes of a curve (`X_AXIS`) or map (`X_AXIS`, `Y_AXIS`), then `END`.
pub open spec fn sp_curve_map_axes(t: Seq<Seq<u8>>, p: int, is_map: bool) -> Step<
    (SpecAxisInfo, Option<SpecAxisInfo>),
> {
    sbind(
        sp_require(t, p, "X_AXIS"@, (if is_map { "MAP"@ } else { "CURVE"@ })),
        |_u: (), p1: int|
            sbind(
                sp_axis(t, p1),
                |x_axis: SpecAxisInfo, p2: int|
                    if is_map {
                        sbind(
                            sp_require(t, p2, "Y_AXIS"@, "MAP"@),
                            |_v: (), p3: int|
                                sbind(
                                    sp_axis(t, p3),
                                    |y_axis: SpecAxisInfo, p4: int|
                                        smap(
                                            sp_require(t, p4, "END"@, "SYMBOL"@),
                                            |_w: ()| (x_axis, Some(y_axis)),
                                        ),
                                ),
                        )
                    } else {
                        smap(sp_require(t, p2, "END"@, "SYMBOL"@), |_w: ()| (x_axis, None))
                    },
            ),
    )
}

pub open spec fn sp_curve_map_config(t: Seq<Seq<u8>>, p: int, is_map: bool) -> Step<
    SpecConfigAndName,
> {
    let (write_access, p1) = sp_write_access(t, p);
    let (a2l_name, p2) = sp_a2l_name(t, p1, stop_data_type());
    sbind(
        sp_data_type(t, p2),
        |dt: (DataType, Option<u64>), p3: int|
            sbind(
                sp_opt_range(t, p3),
                |range: Option<(SpecFloatValue, SpecFloatValue)>, p4: int|
                    sbind(
                        sp_opt_range(t, p4),
                        |extended_range: Option<(SpecFloatValue, SpecFloatValue)>, p5: int|
                            sbind(
                                sp_layout(t, p5),
                                |layout: Seq<char>, p6: int|
                                    sbind(
                                        sp_map_attributes(t, p6),
                                        |attributes: SpecMapAttributes, p7: int|
                                            smap(
                                                sp_curve_map_axes(t, p7, is_map),
                                                |axes: (SpecAxisInfo, Option<SpecAxisInfo>)|
                                                    (
                                                        SpecItemConfig::CurveMap(
                                                            SpecCurveMapCfg {
                                                                write_access,
                                                                datatype: dt.0,
                                                                bitmask: dt.1,
                                                                range,
                                                                extended_range,
                                                                layout,
                                                                attributes,
                                                                x_axis: axes.0,
                                                                y_axis: axes.1,
                                                            },
                                                        ),
                                                        a2l_name,
                                                    ),
                                            ),
                                    ),
                            ),
                    ),
            ),
    )
}

pub open spec fn sp_axis_config(t: Seq<Seq<u8>>, p: int) -> Step<SpecConfigAndName> {
    let (write_access, p1) = sp_write_access(t, p);
    let (a2l_name, p2) = sp_a2l_name(t, p1, stop_data_type());
    sbind(
        sp_data_type(t, p2),
        |dt: (DataType, Option<u64>), p3: int|
            sbind(
                sp_opt_range(t, p3),
                |range: Option<(SpecFloatValue, SpecFloatValue)>, p4: int|
                    sbind(
                        sp_opt_range(t, p4),
                        |extended_range: Option<(SpecFloatValue, SpecFloatValue)>, p5: int|
                            sbind(
                                sp_layout(t, p5),
                                |layout: Seq<char>, p6: int|
                                    sbind(
                                        sp_require(t, p6, "DIMENSION"@, "AXIS"@),
                                        |_u: (), p7: int|
                                            sbind(
                                                sp_dimension(t, p7),
                                                |dimension: Seq<u32>, p8: int|
                                                    sbind(
                                                        sp_axis_input_signal(t, p8),
                                                        |input: (Option<Seq<char>>, bool), p9: int|
                                                            sbind(
                                                                sp_map_attributes(t, p9),
                                                                |attributes: SpecMapAttributes, p10: int|
                                                                    smap(
                                                                        sp_require(t, p10, "END"@, "SYMBOL"@),
                                                                        |_v: ()|
                                                                            (
                                                                                SpecItemConfig::Axis(
                                                                                    SpecAxisCfg {
                                                                                        write_access,
                                                                                        datatype: dt.0,
                                                                                        range,
                                                                                        extended_range,
                                                                                        layout,
                                                                                        dimension,
                                                                                        input_signal: input.0,
                                                                                        input_is_instance: input.1,
                                                                                        attributes,
                                                                                    },
                                                                                ),
                                                                                a2l_name,
                                                                            ),
                                                                    ),
                                                            ),
                                                    ),
                                            ),
                                    ),
                            ),
                    ),
            ),
    )
}

pub open spec fn sp_string_config(t: Seq<Seq<u8>>, p: int) -> Step<SpecConfigAndName> {
    sbind(
        sp_u32(t, p, "STRING length"@),
        |length: u32, p1: int|
            {
                let (write_access, p2) = sp_write_access(t, p1);
                let (a2l_name, p3) = sp_a2l_name(t, p2, stop_string());
                sbind(
                    sp_string_attributes(t, p3),
                    |attributes: SpecStringAttributes, p4: int|
                        smap(
                            sp_require(t, p4, "END"@, "SYMBOL"@),
                            |_u: ()|
                                (
                                    SpecItemConfig::String(
                                        SpecStringCfg { length, write_access, attributes },
                                    ),
                                    a2l_name,
                                ),
                        ),
                )
            },
    )
}

/// The item type keyword and the configuration that follows it.
pub open spec fn sp_item_config(t: Seq<Seq<u8>>, p: int) -> Step<SpecConfigAndName> {
    sbind(
        sp_token(t, p, "SYMBOL"@),
        |tok: Seq<u8>, p1: int|
            if tok == kw("MEASURE") {
                sp_measure_config(t, p1)
            } else if tok == kw("PARAMETER") {
                sp_parameter_config(t, p1)
            } else if tok == kw("CURVE") {
                sp_curve_map_config(t, p1, false)
            } else if tok == kw("MAP") {
                sp_curve_map_config(t, p1, true)
            } else if tok == kw("AXIS") {
                sp_axis_config(t, p1)
            } else if tok == kw("STRING") {
                sp_string_config(t, p1)
            } else {
                (Err("Expected A2L_TYPE after SYMBOL keyword, found: "@ + debug_str_text(utf8_lossy(tok))), p1)
            },
    )
}

/// The A2L name of an item: the given one, else the symbol name.
pub open spec fn name_or(a2l_name: Option<Seq<char>>, name: Seq<char>) -> Seq<char> {
    match a2l_name {
        Some(n) => n,
        None => name,
    }
}

#[verifier::opaque]
pub open spec fn sp_symbol(t: Seq<Seq<u8>>, p: int) -> Step<SpecDefinition> {
    sbind(
        sp_require(t, p, "="@, "SYMBOL"@),
        |_u: (), p1: int|
            sbind(
                sp_identifier(t, p1, "SYMBOL"@),
                |name: Seq<char>, p2: int|
                    sbind(
                        sp_require(t, p2, "A2L_TYPE"@, "SYMBOL"@),
                        |_v: (), p3: int|
                            sbind(
                                sp_require(t, p3, "="@, "SYMBOL"@),
                                |_w: (), p4: int|
                                    smap(
                                        sp_item_config(t, p4),
                                        |cn: SpecConfigAndName|
                                            SpecDefinition::Symbol(
                                                SpecSymbolDefinition {
                                                    symbol_name: name,
                                                    a2l_name: name_or(cn.1, name),
                                                    config: cn.0,
                                                },
                                            ),
                                    ),
                            ),
                    ),
            ),
    )
}

#[verifier::opaque]
pub open spec fn sp_element(t: Seq<Seq<u8>>, p: int) -> Step<SpecDefinition> {
    sbind(
        sp_require(t, p, "="@, "ELEMENT"@),
        |_u: (), p1: int|
            sbind(
                sp_identifier(t, p1, "ELEMENT"@),
                |name: Seq<char>, p2: int|
                    sbind(
                        sp_require(t, p2, "STRUCTURE"@, "SYMBOL"@),
                        |_v: (), p3: int|
                            sbind(
                                sp_identifier_list(t, p3, "ELEMENT structure"@),
                                |structure: Seq<Seq<char>>, p4: int|
                                    sbind(
                                        sp_require(t, p4, "A2L_TYPE"@, "SYMBOL"@),
                                        |_w: (), p5: int|
                                            sbind(
                                                sp_require(t, p5, "="@, "SYMBOL"@),
                                                |_x: (), p6: int|
                                                    smap(
                                                        sp_item_config(t, p6),
                                                        |cn: SpecConfigAndName|
                                                            SpecDefinition::Element(
                                                                SpecElementDefinition {
                                                                    symbol_name: name,
                                                                    a2l_name: name_or(cn.1, name),
                                                                    structure,
                                                                    config: cn.0,
                                                                },
                                                            ),
                                                    ),
                                            ),
                                    ),
                            ),
                    ),
            ),
    )
}

/// What follows `OVERWRITE element|path`: the overwritten property.
pub open spec fn sp_overwrite_spec(t: Seq<Seq<u8>>, p: int) -> Step<SpecOverwriteSpec> {
    sbind(
        sp_token(t, p, "OVERWRITE TYPE"@),
        |tok: Seq<u8>, p1: int|
            if tok == kw("CONVERSION") {
                smap(
                    sp_conversion_attribute(t, p1),
                    |c: SpecConversionAttribute| SpecOverwriteSpec::Conversion(c),
                )
            } else if tok == kw("DESCRIPTION") {
                sbind(
                    sp_require(t, p1, "="@, "OVERWRITE"@),
                    |_u: (), p2: int|
                        smap(sp_string(t, p2, "OVERWRITE DESCRIPTION"@), |d: Seq<char>| SpecOverwriteSpec::Description(d)),
                )
            } else if tok == kw("ALIAS") {
                sbind(
                    sp_require(t, p1, "="@, "OVERWRITE"@),
                    |_u: (), p2: int|
                        smap(sp_identifier(t, p2, "OVERWRITE ALIAS"@), |a: Seq<char>| SpecOverwriteSpec::Alias(a)),
                )
            } else if tok == kw("COLOR") {
                sbind(
                    sp_require(t, p1, "="@, "OVERWRITE"@),
                    |_u: (), p2: int| smap(sp_u32(t, p2, "OVERWRITE COLOR"@), |c: u32| SpecOverwriteSpec::Color(c)),
                )
            } else if tok == kw("GROUP") {
                smap(
                    sp_group_attribute(t, p1),
                    |g: SpecGroupAttribute| SpecOverwriteSpec::GroupAssignment(g),
                )
            } else if tok == kw("RANGE") {
                sbind(
                    sp_require(t, p1, "="@, "OVERWRITE"@),
                    |_u: (), p2: int|
                        sbind(
                            sp_opt_range(t, p2),
                            |r: Option<(SpecFloatValue, SpecFloatValue)>, p3: int|
                                match r {
                                    Some(range) => (
                                        Ok(SpecOverwriteSpec::Range(range.0, range.1)),
                                        p3,
                                    ),
                                    None => (Err("Expected range value in OVERWRITE RANGE"@), p3),
                                },
                        ),
                )
            } else {
                (Err("Unexpected token "@ + utf8_lossy(tok) + " in OVERWRITE"@), p1)
            },
    )
}

/// An optional `OVERWRITE` of an instance.
#[verifier::opaque]
pub open spec fn sp_opt_overwrite(t: Seq<Seq<u8>>, p: int) -> Step<Option<SpecOverwrite>> {
    if sp_next_is(t, p, kw("OVERWRITE")) {
        sbind(
            sp_identifier_list_value(t, p + 1, "OVERWRITE"@),
            |element_path: Seq<Seq<char>>, p1: int|
                smap(
                    sp_overwrite_spec(t, p1),
                    |details: SpecOverwriteSpec| Some(SpecOverwrite { element_path, details }),
                ),
        )
    } else {
        (Ok(None), p)
    }
}

/// The overwrites of an instance, as many as follow.
pub open spec fn sp_overwrites_from(t: Seq<Seq<u8>>, p: int, acc: Seq<SpecOverwrite>) -> Step<
    Seq<SpecOverwrite>,
>
    decreases t.len() - p,
{
    match sp_opt_overwrite(t, p) {
        (Err(e), p1) => (Err(e), p1),
        (Ok(None), p1) => (Ok(acc), p1),
        (Ok(Some(o)), p1) => if p < p1 <= t.len() {
            sp_overwrites_from(t, p1, acc.push(o))
        } else {
            (Ok(acc.push(o)), p1)
        },
    }
}

/// An optional `tag = <u32>`.
pub open spec fn sp_opt_tagged_u32(t: Seq<Seq<u8>>, p: int, tag: Seq<char>, ctx: Seq<char>) -> Step<Option<u32>> {
    if sp_next_is(t, p, encode_utf8(tag)) {
        smap(sp_tagged_u32(t, p, tag, ctx), |v: u32| Some(v))
    } else {
        (Ok(None), p)
    }
}

/// An optional `GROUP ...` of an instance.
pub open spec fn sp_opt_group(t: Seq<Seq<u8>>, p: int) -> Step<Option<SpecGroupAttribute>> {
    if sp_next_is(t, p, kw("GROUP")) {
        smap(sp_group_attribute(t, p + 1), |g: SpecGroupAttribute| Some(g))
    } else {
        (Ok(None), p)
    }
}

#[verifier::opaque]
pub open spec fn sp_instance(t: Seq<Seq<u8>>, p: int) -> Step<SpecInstanceDefinition> {
    sbind(
        sp_require(t, p, "="@, "INSTANCE"@),
        |_u: (), p1: int|
            sbind(
                sp_identifier(t, p1, "INSTANCE"@),
                |name: Seq<char>, p2: int|
                    {
                        let (a2l_name, p3) = sp_a2l_name(t, p2, stop_structure());
                        sbind(
                            sp_require(t, p3, "STRUCTURE"@, "INSTANCE"@),
                            |_v: (), p4: int|
                                sbind(
                                    sp_require(t, p4, "="@, "INSTANCE"@),
                                    |_w: (), p5: int|
                                        sbind(
                                            sp_identifier(t, p5, "INSTANCE structure"@),
                                            |structure_name: Seq<char>, p6: int|
                                                sbind(
                                                    sp_opt_tagged_u32(t, p6, "ADDRESS"@, "INSTANCE address"@),
                                                    |address: Option<u32>, p7: int|
                                                        sbind(
                                                            sp_opt_dimension(t, p7),
                                                            |ds: (Seq<u32>, Option<SpecSplitType>), p8: int|
                                                                sbind(
                                                                    sp_opt_tagged_u32(t, p8, "SIZE"@, "INSTANCE size"@),
                                                                    |size: Option<u32>, p9: int|
                                                                        sbind(
                                                                            sp_opt_group(t, p9),
                                                                            |group: Option<SpecGroupAttribute>, p10: int|
                                                                                sbind(
                                                                                    sp_overwrites_from(t, p10, seq![]),
                                                                                    |overwrites: Seq<SpecOverwrite>, p11: int|
                                                                                        smap(
                                                                                            sp_require(t, p11, "END"@, "INSTANCE"@),
                                                                                            |_x: ()|
                                                                                                SpecInstanceDefinition {
                                                                                                    name,
                                                                                                    a2l_name,
                                                                                                    structure_name,
                                                                                                    address,
                                                                                                    dimension: ds.0,
                                                                                                    split: ds.1,
                                                                                                    size,
                                                                                                    group,
                                                                                                    overwrites,
                                                                                                },
                                                                                        ),
                                                                                ),
                                                                        ),
                                                                ),
                                                        ),
                                                ),
                                        ),
                                ),
                        )
                    },
            ),
    )
}

/// An optional `DATA_TYPE = STRUCTURE name` of a sub-structure.
pub open spec fn sp_opt_data_type_struct(t: Seq<Seq<u8>>, p: int) -> Step<Option<Seq<char>>> {
    if sp_next_is(t, p, kw("DATA_TYPE")) {
        sbind(
            sp_require(t, p, "DATA_TYPE"@, "SUB_STRUCTURE"@),
            |_u: (), p1: int|
                sbind(
                    sp_require(t, p1, "="@, "SUB_STRUCTURE"@),
                    |_v: (), p2: int|
                        sbind(
                            sp_require(t, p2, "STRUCTURE"@, "SUB_STRUCTURE"@),
                            |_w: (), p3: int| smap(sp_identifier(t, p3, "SUB_STRUCTURE"@), |n: Seq<char>| Some(n)),
                        ),
                ),
        )
    } else {
        (Ok(None), p)
    }
}

#[verifier::opaque]
pub open spec fn sp_sub_structure(t: Seq<Seq<u8>>, p: int) -> Step<SpecDefinition> {
    sbind(
        sp_require(t, p, "="@, "SUB_STRUCTURE"@),
        |_u: (), p1: int|
            sbind(
                sp_identifier(t, p1, "SUB_STRUCTURE"@),
                |name: Seq<char>, p2: int|
                    {
                        let (a2l_name, p3) = sp_a2l_name(t, p2, stop_structure());
                        sbind(
                            sp_require(t, p3, "STRUCTURE"@, "SYMBOL"@),
                            |_v: (), p4: int|
                                sbind(
                                    sp_identifier_list(t, p4, "SUB_STRUCTURE structure"@),
                                    |structure: Seq<Seq<char>>, p5: int|
                                        sbind(
                                            sp_opt_data_type_struct(t, p5),
                                            |data_type_struct: Option<Seq<char>>, p6: int|
                                                sbind(
                                                    sp_struct_attributes(t, p6),
                                                    |attributes: SpecStructAttributes, p7: int|
                                                        smap(
                                                            sp_require(t, p7, "END"@, "SUB_STRUCTURE"@),
                                                            |_w: ()|
                                                                SpecDefinition::Element(
                                                                    SpecElementDefinition {
                                                                        symbol_name: name,
                                                                        a2l_name: name_or(a2l_name, name),
                                                                        structure,
                                                                        config: SpecItemConfig::SubStructure(
                                                                            SpecSubStructureCfg {
                                                                                data_type_struct,
                                                                                attributes,
                                                                            },
                                                                        ),
                                                                    },
                                                                ),
                                                        ),
                                                ),
                                        ),
                                ),
                        )
                    },
            ),
    )
}

/// An optional `VARIANT = name selector_value offset`.
pub open spec fn sp_opt_variant(t: Seq<Seq<u8>>, p: int) -> Step<Option<SpecVariant>> {
    if sp_next_is(t, p, kw("VARIANT")) {
        sbind(
            sp_require(t, p + 1, "="@, "VARIANT"@),
            |_u: (), p1: int|
                sbind(
                    sp_identifier(t, p1, "VARIANT"@),
                    |name: Seq<char>, p2: int|
                        sbind(
                            sp_u32(t, p2, "VARIANT selector value"@),
                            |selector_value: u32, p3: int|
                                smap(
                                    sp_u32(t, p3, "VARIANT offset"@),
                                    |offset: u32| Some(SpecVariant { name, selector_value, offset }),
                                ),
                        ),
                ),
        )
    } else {
        (Ok(None), p)
    }
}

/// The variants of a variant criterion: as many as can be read; a variant that
/// cannot be read ends the list where reading it stopped.
pub open spec fn sp_variants_from(t: Seq<Seq<u8>>, p: int, acc: Seq<SpecVariant>) -> Step<
    Seq<SpecVariant>,
>
    decreases t.len() - p,
{
    match sp_opt_variant(t, p) {
        (Ok(Some(v)), p1) => if p < p1 <= t.len() {
            sp_variants_from(t, p1, acc.push(v))
        } else {
            (Ok(acc.push(v)), p1)
        },
        (_, p1) => (Ok(acc), p1),
    }
}

/// The selector type that a keyword names.
pub open spec fn selector_type_of(tok: Seq<u8>) -> Option<SelectorType> {
    if tok == kw("MEASURE") {
        Some(SelectorType::Measure)
    } else if tok == kw("PARAMETER") {
        Some(SelectorType::Parameter)
    } else {
        None
    }
}

#[verifier::opaque]
pub open spec fn sp_var_criterion(t: Seq<Seq<u8>>, p: int) -> Step<SpecVarCriterionDefinition> {
    sbind(
        sp_require(t, p, "="@, "VAR_CRITERION"@),
        |_u: (), p1: int|
            sbind(
                sp_identifier(t, p1, "VAR_CRITERION"@),
                |name: Seq<char>, p2: int|
                    sbind(
                        sp_description(t, p2, "VAR_CRITERION"@),
                        |description: Option<Seq<char>>, p3: int|
                            sbind(
                                sp_require(t, p3, "SELECTOR"@, "VAR_CRITERION"@),
                                |_v: (), p4: int|
                                    sbind(
                                        sp_require(t, p4, "="@, "VAR_CRITERION"@),
                                        |_w: (), p5: int|
                                            sbind(
                                                sp_token(t, p5, "VAR_CRITERION"@),
                                                |tok: Seq<u8>, p6: int|
                                                    match selector_type_of(tok) {
                                                        None => (Err("Unknown VAR_CRITERION selector type: "@ + debug_str_text(utf8_lossy(tok))), p6),
                                                        Some(selector_type) => sbind(
                                                            sp_identifier(t, p6, "VAR_CRITERION"@),
                                                            |selector: Seq<char>, p7: int|
                                                                sbind(
                                                                    sp_variants_from(t, p7, seq![]),
                                                                    |variants: Seq<SpecVariant>, p8: int|
                                                                        smap(
                                                                            sp_require(t, p8, "END"@, "VAR_CRITERION"@),
                                                                            |_x: ()|
                                                                                SpecVarCriterionDefinition {
                                                                                    name,
                                                                                    description,
                                                                                    selector_type,
                                                                                    selector,
                                                                                    variants,
                                                                                },
                                                                        ),
                                                                ),
                                                        ),
                                                    },
                                            ),
                                    ),
                            ),
                    ),
            ),
    )
}

/// The unit, description and `END` that close a named conversion.
pub open spec fn sp_conversion_tail(
    t: Seq<Seq<u8>>,
    p: int,
    name: Seq<char>,
    config: SpecConversionConfig,
) -> Step<SpecDefinition> {
    sbind(
        sp_unit(t, p, "conversion unit"@),
        |unit: Option<SpecUnit>, p1: int|
            sbind(
                sp_description(t, p1, "conversion description"@),
                |description: Option<Seq<char>>, p2: int|
                    smap(
                        sp_require(t, p2, "END"@, "CONVERSION"@),
                        |_u: ()|
                            SpecDefinition::Conversion(
                                SpecConversionDefinition { name, unit, description, config },
                            ),
                    ),
            ),
    )
}

pub open spec fn sp_linear_conversion(t: Seq<Seq<u8>>, p: int, name: Seq<char>) -> Step<
    SpecDefinition,
> {
    sbind(
        sp_float(t, p, "linear conversion factor"@),
        |factor: SpecFloatValue, p1: int|
            sbind(
                sp_float(t, p1, "linear conversion offset"@),
                |offset: SpecFloatValue, p2: int|
                    sp_conversion_tail(
                        t,
                        p2,
                        name,
                        SpecConversionConfig::Linear(SpecLinearCfg { factor, offset }),
                    ),
            ),
    )
}

pub open spec fn sp_formula_conversion(t: Seq<Seq<u8>>, p: int, name: Seq<char>) -> Step<
    SpecDefinition,
> {
    sbind(
        sp_string(t, p, "FORMULA"@),
        |formula: Seq<char>, p1: int|
            sbind(
                sp_opt_inverse(t, p1),
                |inverse_formula: Option<Seq<char>>, p2: int|
                    sp_conversion_tail(
                        t,
                        p2,
                        name,
                        SpecConversionConfig::Formula(SpecFormulaCfg { formula, inverse_formula }),
                    ),
            ),
    )
}

pub open spec fn sp_table_conversion(t: Seq<Seq<u8>>, p: int, name: Seq<char>) -> Step<
    SpecDefinition,
> {
    sbind(
        sp_conversion_table(t, p),
        |table: (Seq<SpecTableRow>, Option<Seq<char>>), p1: int|
            sp_conversion_tail(
                t,
                p1,
                name,
                SpecConversionConfig::Table(SpecTableCfg { rows: table.0, default_value: table.1 }),
            ),
    )
}

#[verifier::opaque]
pub open spec fn sp_conversion(t: Seq<Seq<u8>>, p: int) -> Step<SpecDefinition> {
    sbind(
        sp_require(t, p, "="@, "CONVERSION"@),
        |_u: (), p1: int|
            sbind(
                sp_identifier(t, p1, "CONVERSION"@),
                |name: Seq<char>, p2: int|
                    sbind(
                        sp_require(t, p2, "A2L_TYPE"@, "CONVERSION"@),
                        |_v: (), p3: int|
                            sbind(
                                sp_require(t, p3, "="@, "CONVERSION"@),
                                |_w: (), p4: int|
                                    sbind(
                                        sp_token(t, p4, "CONVERSION"@),
                                        |tok: Seq<u8>, p5: int|
                                            if tok == kw("LINEAR") {
                                                sp_linear_conversion(t, p5, name)
                                            } else if tok == kw("FORMULA") {
                                                sp_formula_conversion(t, p5, name)
                                            } else if tok == kw("TABLE") {
                                                sp_table_conversion(t, p5, name)
                                            } else {
                                                (Err("Expected A2L_TYPE after CONVERSION keyword, found: "@ + debug_str_text(utf8_lossy(tok))), p5)
                                            },
                                    ),
                            ),
                    ),
            ),
    )
}

/// A whole definition: its keyword and what follows. An unknown keyword is no
/// definition (`Ok(None)`), since the prefix may also stand in other comments.
pub open spec fn sp_run(t: Seq<Seq<u8>>, p: int) -> Step<Option<SpecDefinition>> {
    sbind(
        sp_token(t, p, "Definition"@),
        |tok: Seq<u8>, p1: int|
            if tok == kw("SYMBOL") {
                smap(sp_symbol(t, p1), |d: SpecDefinition| Some(d))
            } else if tok == kw("SUB_GROUP") {
                smap(
                    sp_sub_group(t, p1),
                    |g: SpecSubGroupDefinition| Some(SpecDefinition::SubGroup(g)),
                )
            } else if tok == kw("MAIN_GROUP") {
                smap(
                    sp_main_group(t, p1),
                    |g: SpecMainGroupDefinition| Some(SpecDefinition::MainGroup(g)),
                )
            } else if tok == kw("CONVERSION") {
                smap(sp_conversion(t, p1), |d: SpecDefinition| Some(d))
            } else if tok == kw("ELEMENT") {
                smap(sp_element(t, p1), |d: SpecDefinition| Some(d))
            } else if tok == kw("INSTANCE") {
                smap(
                    sp_instance(t, p1),
                    |i: SpecInstanceDefinition| Some(SpecDefinition::Instance(i)),
                )
            } else if tok == kw("SUB_STRUCTURE") {
                smap(sp_sub_structure(t, p1), |d: SpecDefinition| Some(d))
            } else if tok == kw("VAR_CRITERION") {
                smap(
                    sp_var_criterion(t, p1),
                    |v: SpecVarCriterionDefinition| Some(SpecDefinition::VarCriterion(v)),
                )
            } else {
                (Ok(None), p1)
            },
    )
}

/// The definition that the tokens of one comment describe.
pub open spec fn parsed_definition(t: Seq<Seq<u8>>) -> Result<Option<SpecDefinition>, Seq<char>> {
    sp_run(t, 0).0
}

/// A definition comment whose first token names no kind of definition is
/// not a definition (doc comments may hold the marker too): parsing it
/// succeeds with nothing.
pub proof fn law_unknown_keyword_is_no_definition(t: Seq<Seq<u8>>)
    requires
        t.len() > 0,
        t[0] != kw("SYMBOL"),
        t[0] != kw("SUB_GROUP"),
        t[0] != kw("MAIN_GROUP"),
        t[0] != kw("CONVERSION"),
        t[0] != kw("ELEMENT"),
        t[0] != kw("INSTANCE"),
        t[0] != kw("SUB_STRUCTURE"),
        t[0] != kw("VAR_CRITERION"),
    ensures
        parsed_definition(t) == Ok::<Option<SpecDefinition>, Seq<char>>(None),
{
}

/// Parsing an empty token list fails: a definition needs its keyword, and
/// the message says that the input ended.
pub proof fn law_empty_definition_fails(t: Seq<Seq<u8>>)
    requires
        t.len() == 0,
    ensures
        parsed_definition(t) == Err::<Option<SpecDefinition>, Seq<char>>(end_message("Definition"@)),
{
}

/// `prefix`, the token as text, then `suffix`.
fn token_message(prefix: &str, token: &[u8], suffix: &str) -> (m: String)
    ensures
        m@ == prefix@ + utf8_lossy(token@) + suffix@,
{
    let mut m = String::from_str(prefix);
    m.append(lossy_string(token).as_str());
    m.append(suffix);
    m
}

/// `prefix`, then the token as text in quotes, escaped (`{:?}`).
fn debug_token_message(prefix: &str, token: &[u8]) -> (m: String)
    ensures
        m@ == prefix@ + debug_str_text(utf8_lossy(token@)),
{
    let mut m = String::from_str(prefix);
    m.append(debug_str(lossy_string(token).as_str()).as_str());
    m
}

// ---------------------------------------------------------------------------
// The parser
// ---------------------------------------------------------------------------

/// A parser over the tokens of one definition.
pub struct Parser<'tokens> {
    tokens: &'tokens [Vec<u8>],
    position: usize,
}

impl<'tokens> Parser<'tokens> {
    /// The tokens as byte sequences.
    pub closed spec fn toks(&self) -> Seq<Seq<u8>> {
        self.tokens.deep_view()
    }

    /// The position of the next token.
    pub closed spec fn pos(&self) -> int {
        self.position as int
    }

    /// A position is never negative.
    pub proof fn lemma_pos_nonneg(&self)
        ensures
            self.pos() >= 0,
    {
    }

    /// The position is within the tokens.
    pub closed spec fn pos_ok(&self) -> bool {
        self.position <= self.tokens@.len()
    }

    /// The parser's invariant: the position is within the tokens, which are
    /// all acceptable.
    pub closed spec fn wf(&self) -> bool {
        self.pos_ok() && tokens_ok(self.toks())
    }

    /// A parser at the first of `tokens`; its invariant holds where the
    /// tokens are acceptable.
    pub fn new(tokens: &'tokens [Vec<u8>]) -> (r: Self)
        ensures
            r.toks() == tokens.deep_view(),
            r.pos() == 0,
            r.pos_ok(),
            r.wf() == tokens_ok(tokens.deep_view()),
    {
        Parser { tokens, position: 0 }
    }


    /// Takes the next token.
    pub fn get_token(&mut self, context: &str) -> (r: Result<&'tokens [u8], String>)
        requires
            old(self).pos_ok(),
        ensures
            final(self).toks() == old(self).toks(),
            final(self).pos_ok(),
            final(self).wf() == old(self).wf(),
            old(self).pos() <= final(self).pos(),
            (match r {
                Ok(tok) => Ok(tok@),
                Err(e) => Err(e@),
            }, final(self).pos()) == sp_token(old(self).toks(), old(self).pos(), context@),
    {
        if self.position < self.tokens.len() {
            let token = self.tokens[self.position].as_slice();
            self.position += 1;
            Ok(token)
        } else {
            let mut m = String::from_str("Unexpected end of input in ");
            m.append(context);
            Err(m)
        }
    }

    /// Takes the next token, which must be `target`.
    pub fn require_token(&mut self, context: &str, target: &str) -> (r: Result<(), String>)
        requires
            old(self).pos_ok(),
        ensures
            final(self).toks() == old(self).toks(),
            final(self).pos_ok(),
            final(self).wf() == old(self).wf(),
            old(self).pos() <= final(self).pos(),
            (res_view(r), final(self).pos()) == sp_require(
                old(self).toks(),
                old(self).pos(),
                target@,
                context@,
            ),
    {
        let t = self.get_token(context)?;
        if !token_is(t, target) {
            let mut m = String::from_str("Expected ");
            m.append(target);
            m.append(" in ");
            m.append(context);
            m.append(", got ");
            m.append(lossy_string(t).as_str());
            return Err(m);
        }
        Ok(())
    }

    /// The next token, without taking it.
    pub fn peek_token(&mut self) -> (r: Option<&'tokens [u8]>)
        requires
            old(self).pos_ok(),
        ensures
            *final(self) == *old(self),
            (match r {
                Some(tok) => Some(tok@),
                None => None,
            }) == sp_peek(old(self).toks(), old(self).pos()),
    {
        if self.position < self.tokens.len() {
            Some(self.tokens[self.position].as_slice())
        } else {
            None
        }
    }

    /// Whether the next token is `expected`.
    pub fn check_next_token(&mut self, expected: &str) -> (r: bool)
        requires
            old(self).pos_ok(),
        ensures
            *final(self) == *old(self),
            r == sp_next_is(old(self).toks(), old(self).pos(), expected.spec_bytes()),
    {
        if let Some(token) = self.peek_token() {
            token_is(token, expected)
        } else {
            false
        }
    }

    /// Takes the next token as an identifier.
    pub fn get_identifier(&mut self, context: &str) -> (r: Result<String, String>)
        requires
            old(self).pos_ok(),
            old(self).pos() < old(self).toks().len() ==> old(self).toks()[old(self).pos()].len() > 0,
        ensures
            final(self).toks() == old(self).toks(),
            final(self).pos_ok(),
            final(self).wf() == old(self).wf(),
            old(self).pos() <= final(self).pos(),
            (res_view(r), final(self).pos()) == sp_identifier(old(self).toks(), old(self).pos(), context@),
    {
        if self.position < self.tokens.len() {
            let t = self.tokens[self.position].as_slice();
            assert(t@ == self.toks()[self.pos()]);
            if t[0] != BYTE_QUOTE && !(crate::bytes::BYTE_DIGIT_0 <= t[0] && t[0]
                <= crate::bytes::BYTE_DIGIT_9) {
                self.position += 1;
                return Ok(lossy_string(t));
            }
        }
        let mut m = String::from_str("Expected identifier in ");
        m.append(context);
        m.append(" definition");
        Err(m)
    }

    /// Takes the next token as a quoted string, without its quotes.
    pub fn get_string(&mut self, context: &str) -> (r: Result<String, String>)
        requires
            old(self).pos_ok(),
            old(self).pos() < old(self).toks().len() ==> old(self).toks()[old(self).pos()] != seq![BYTE_QUOTE],
        ensures
            final(self).toks() == old(self).toks(),
            final(self).pos_ok(),
            final(self).wf() == old(self).wf(),
            old(self).pos() <= final(self).pos(),
            (res_view(r), final(self).pos()) == sp_string(old(self).toks(), old(self).pos(), context@),
    {
        if self.position < self.tokens.len() {
            let t = self.tokens[self.position].as_slice();
            assert(t@ == self.toks()[self.pos()]);
            let n = t.len();
            if n > 0 && t[0] == BYTE_QUOTE && t[n - 1] == BYTE_QUOTE {
                proof {
                    if n == 1 {
                        assert(t@ =~= seq![BYTE_QUOTE]);
                    }
                }
                self.position += 1;
                let (_, tail) = t.split_at(1);
                let (inner, _) = tail.split_at(n - 2);
                assert(inner@ =~= t@.subrange(1, n - 1));
                return Ok(lossy_string(inner));
            }
        }
        let mut m = String::from_str("Expected quoted string in ");
        m.append(context);
        m.append(" definition");
        Err(m)
    }

    /// Reads the next token as an unsigned value up to `max` (see `uint_token`).
    fn get_uint_token(&self, max: u64) -> (r: Option<u64>)
        requires
            self.wf(),
            self.pos() < self.toks().len(),
        ensures
            (match r {
                Some(v) => Some(v as nat),
                None => None,
            }) == uint_token(self.toks()[self.pos()], max as nat),
    {
        let t = self.tokens[self.position].as_slice();
        assert(t@ == self.toks()[self.pos()]);
        let neg_hex = "-0x";
        let pos_hex = "0x";
        let t_len = t.len();
        if crate::bytes::starts_with(t, neg_hex.as_bytes()) {
            None
        } else if crate::bytes::starts_with(t, pos_hex.as_bytes()) {
            let n = pos_hex.len();
            assert(n as int == kw("0x").len());
            let (_, hex) = t.split_at(n);
            assert(hex@ =~= t@.skip(n as int));
            parse_unsigned_bytes(hex, 16, u64::MAX)
        } else {
            parse_unsigned_bytes(t, 10, max)
        }
    }

    /// The message for a next token that is no unsigned value.
    fn uint_error(&self, context: &str) -> (m: String)
        requires
            self.wf(),
        ensures
            m@ == uint_message(self.toks(), self.pos(), context@),
    {
        if self.position < self.tokens.len() {
            let t = self.tokens[self.position].as_slice();
            assert(t@ == self.toks()[self.pos()]);
            if !is_valid_utf8(t) {
                let mut m = String::from_str("Expected value in ");
                m.append(context);
                m.append(", found invalid UTF-8");
                m
            } else if crate::bytes::starts_with(t, "-0x".as_bytes()) {
                let mut m = String::from_str("Expected unsigned value in ");
                m.append(context);
                m.append(", found negative hex: ");
                m.append(lossy_string(t).as_str());
                m
            } else {
                let mut m = String::from_str("Expected value in ");
                m.append(context);
                m.append(", got ");
                m.append(lossy_string(t).as_str());
                m
            }
        } else {
            let mut m = String::from_str("Expected integer value in ");
            m.append(context);
            m
        }
    }

    /// Takes the next token as a `u32` (a hexadecimal value is truncated).
    pub fn get_u32_value(&mut self, context: &str) -> (r: Result<u32, String>)
        requires
            old(self).wf(),
        ensures
            final(self).toks() == old(self).toks(),
            final(self).wf(),
            old(self).pos() <= final(self).pos(),
            (res_view(r), final(self).pos()) == sp_u32(old(self).toks(), old(self).pos(), context@),
    {
        if self.position < self.tokens.len() {
            if let Some(v) = self.get_uint_token(u32::MAX as u64) {
                self.position += 1;
                return Ok(v as u32);
            }
        }
        Err(self.uint_error(context))
    }

    /// Takes the next token as a `u64`.
    pub fn get_u64_value(&mut self, context: &str) -> (r: Result<u64, String>)
        requires
            old(self).wf(),
        ensures
            final(self).toks() == old(self).toks(),
            final(self).wf(),
            old(self).pos() <= final(self).pos(),
            (res_view(r), final(self).pos()) == sp_u64(old(self).toks(), old(self).pos(), context@),
    {
        if self.position < self.tokens.len() {
            if let Some(v) = self.get_uint_token(u64::MAX) {
                self.position += 1;
                return Ok(v);
            }
        }
        Err(self.uint_error(context))
    }

    /// Takes the next token as a value where a floating-point number is allowed.
    pub fn get_float_value(&mut self, context: &str) -> (r: Result<FloatValue, String>)
        requires
            old(self).wf(),
        ensures
            final(self).toks() == old(self).toks(),
            final(self).wf(),
            old(self).pos() <= final(self).pos(),
            (res_view(r), final(self).pos()) == sp_float(old(self).toks(), old(self).pos(), context@),
    {
        if self.position < self.tokens.len() {
            let t = self.tokens[self.position].as_slice();
            assert(t@ == self.toks()[self.pos()]);
            let v = convert_float_value(t, context)?;
            self.position += 1;
            Ok(v)
        } else {
            let mut m = String::from_str("Expected float value in ");
            m.append(context);
            Err(m)
        }
    }

    /// Reads an optional `DESCRIPTION = "text"`.
    pub fn parse_description(&mut self, context: &str) -> (r: Result<Option<String>, String>)
        requires
            old(self).wf(),
        ensures
            final(self).toks() == old(self).toks(),
            final(self).wf(),
            old(self).pos() <= final(self).pos(),
            (res_view(r), final(self).pos()) == sp_description(old(self).toks(), old(self).pos(), context@),
    {
        if self.check_next_token("DESCRIPTION") {
            self.get_token("")?;
            self.require_token(context, "=")?;
            let description = self.get_string(context)?;
            Ok(Some(description))
        } else {
            Ok(None)
        }
    }

    /// Reads the rest of a SUB_GROUP definition.
    pub fn parse_sub_group(&mut self) -> (r: Result<SubGroupDefinition, String>)
        requires
            old(self).wf(),
        ensures
            final(self).toks() == old(self).toks(),
            final(self).wf(),
            old(self).pos() <= final(self).pos(),
            (res_view(r), final(self).pos()) == sp_sub_group(old(self).toks(), old(self).pos()),
    {
        proof {
            reveal(sp_sub_group);
        }
        self.require_token("SUB_GROUP", "=")?;
        let name = self.get_identifier("SUB_GROUP")?;
        let description = self.parse_description("SUB_GROUP")?;
        self.require_token("SUB_GROUP", "END")?;
        Ok(SubGroupDefinition { name, description })
    }

    /// Reads the rest of a MAIN_GROUP definition.
    pub fn parse_main_group(&mut self) -> (r: Result<MainGroupDefinition, String>)
        requires
            old(self).wf(),
        ensures
            final(self).toks() == old(self).toks(),
            final(self).wf(),
            old(self).pos() <= final(self).pos(),
            (res_view(r), final(self).pos()) == sp_main_group(old(self).toks(), old(self).pos()),
    {
        proof {
            reveal(sp_main_group);
        }
        self.require_token("MAIN_GROUP", "=")?;
        let name = self.get_identifier("MAIN_GROUP")?;
        let description = self.parse_description("MAIN_GROUP")?;
        self.require_token("MAIN_GROUP", "END")?;
        Ok(MainGroupDefinition { name, description })
    }

    /// Reads `tag = <u32>`.
    pub fn parse_tagged_u32(&mut self, tag: &str, context: &str) -> (r: Result<u32, String>)
        requires
            old(self).wf(),
        ensures
            final(self).toks() == old(self).toks(),
            final(self).wf(),
            old(self).pos() <= final(self).pos(),
            (res_view(r), final(self).pos()) == sp_tagged_u32(
                old(self).toks(),
                old(self).pos(),
                tag@,
                context@,
            ),
    {
        self.require_token(context, tag)?;
        self.require_token(context, "=")?;
        let value = self.get_u32_value(context)?;
        Ok(value)
    }

    /// Reads `tag = "text"`.
    pub fn parse_tagged_string(&mut self, tag: &str, context: &str) -> (r: Result<
        String,
        String,
    >)
        requires
            old(self).wf(),
        ensures
            final(self).toks() == old(self).toks(),
            final(self).wf(),
            old(self).pos() <= final(self).pos(),
            (res_view(r), final(self).pos()) == sp_tagged_string(
                old(self).toks(),
                old(self).pos(),
                tag@,
                context@,
            ),
    {
        self.require_token(context, tag)?;
        self.require_token(context, "=")?;
        let value = self.get_string(context)?;
        Ok(value)
    }

    /// Reads `tag = identifier`.
    pub fn parse_tagged_identifier(&mut self, tag: &str, context: &str) -> (r: Result<
        String,
        String,
    >)
        requires
            old(self).wf(),
        ensures
            final(self).toks() == old(self).toks(),
            final(self).wf(),
            old(self).pos() <= final(self).pos(),
            (res_view(r), final(self).pos()) == sp_tagged_identifier(
                old(self).toks(),
                old(self).pos(),
                tag@,
                context@,
            ),
    {
        self.require_token(context, tag)?;
        self.require_token(context, "=")?;
        let value = self.get_identifier(context)?;
        Ok(value)
    }

    /// Reads an optional `WRITEABLE` or `READ_ONLY`.
    pub fn parse_write_access(&mut self) -> (r: Option<bool>)
        requires
            old(self).pos_ok(),
        ensures
            final(self).toks() == old(self).toks(),
            final(self).pos_ok(),
            final(self).wf() == old(self).wf(),
            old(self).pos() <= final(self).pos(),
            (r, final(self).pos()) == sp_write_access(old(self).toks(), old(self).pos()),
    {
        if self.check_next_token("WRITEABLE") {
            let _ = self.get_token("");
            Some(true)
        } else if self.check_next_token("READ_ONLY") {
            let _ = self.get_token("");
            Some(false)
        } else {
            None
        }
    }

    /// Reads the optional A2L name: the next token unless it is a stop word.
    pub fn parse_a2l_name(&mut self, stop_words: &[&str]) -> (r: Option<String>)
        requires
            old(self).wf(),
        ensures
            final(self).toks() == old(self).toks(),
            final(self).wf(),
            old(self).pos() <= final(self).pos(),
            (r.deep_view(), final(self).pos()) == sp_a2l_name(
                old(self).toks(),
                old(self).pos(),
                stop_words@.map_values(|w: &str| w.spec_bytes()),
            ),
    {
        let ghost stops = stop_words@.map_values(|w: &str| w.spec_bytes());
        if let Some(token) = self.peek_token() {
            let mut i: usize = 0;
            while i < stop_words.len()
                invariant
                    i <= stop_words@.len(),
                    stops == stop_words@.map_values(|w: &str| w.spec_bytes()),
                    forall|j: int| 0 <= j < i ==> stops[j] != token@,
                decreases stop_words@.len() - i,
            {
                if token_is(token, stop_words[i]) {
                    assert(stops[i as int] == token@);
                    return None;
                }
                i += 1;
            }
            assert(!stops.contains(token@));
            let _ = self.get_token("");
            Some(lossy_string(token))
        } else {
            None
        }
    }

    /// Reads `DATA_TYPE = <type> [bitmask]`.
    pub fn parse_data_type(&mut self) -> (r: Result<(DataType, Option<u64>), String>)
        requires
            old(self).wf(),
        ensures
            final(self).toks() == old(self).toks(),
            final(self).wf(),
            old(self).pos() <= final(self).pos(),
            (res_view(r), final(self).pos()) == sp_data_type(old(self).toks(), old(self).pos()),
    {
        self.require_token("DATA_TYPE", "DATA_TYPE")?;
        self.require_token("DATA_TYPE", "=")?;
        let data_type_token = self.get_token("DATA_TYPE")?;
        let data_type = if token_is(data_type_token, "UBYTE") {
            DataType::Ubyte
        } else if token_is(data_type_token, "SBYTE") {
            DataType::Sbyte
        } else if token_is(data_type_token, "UWORD") {
            DataType::Uword
        } else if token_is(data_type_token, "SWORD") {
            DataType::Sword
        } else if token_is(data_type_token, "ULONG") {
            DataType::Ulong
        } else if token_is(data_type_token, "SLONG") {
            DataType::Slong
        } else if token_is(data_type_token, "UINT64") {
            DataType::AUint64
        } else if token_is(data_type_token, "INT64") {
            DataType::AInt64
        } else if token_is(data_type_token, "FLOAT") {
            DataType::Float32Ieee
        } else if token_is(data_type_token, "DOUBLE") {
            DataType::Float64Ieee
        } else {
            return Err(debug_token_message("Unknown DATA_TYPE: ", data_type_token));
        };
        let bitmask = if data_type != DataType::Float32Ieee && data_type != DataType::Float64Ieee {
            match self.get_u64_value("DATA_TYPE bitmask") {
                Ok(value) => Some(value),
                Err(_) => None,
            }
        } else {
            None
        };
        Ok((data_type, bitmask))
    }

    /// The bounds of a range once its tokens are known (see `sp_range_bounds`).
    fn parse_range_bounds(&mut self, range_start: &[u8], range_end: &[u8]) -> (r: Result<
        Option<(FloatValue, FloatValue)>,
        String,
    >)
        requires
            old(self).wf(),
        ensures
            final(self).toks() == old(self).toks(),
            final(self).wf(),
            old(self).pos() <= final(self).pos(),
            (res_view(r), final(self).pos()) == sp_range_bounds(
                old(self).toks(),
                range_start@,
                range_end@,
                old(self).pos(),
            ),
    {
        let start_value = convert_float_value(range_start, "RANGE start")?;
        let n = range_end.len();
        if n > 0 && range_end[n - 1] == BYTE_RBRACKET {
            let (inner, _) = range_end.split_at(n - 1);
            let end_value = convert_float_value(inner, "RANGE end")?;
            Ok(Some((start_value, end_value)))
        } else {
            self.require_token("RANGE", "]")?;
            let end_value = convert_float_value(range_end, "RANGE end")?;
            Ok(Some((start_value, end_value)))
        }
    }

    /// Reads an optional range `[start ... end]`.
    pub fn parse_opt_range(&mut self) -> (r: Result<Option<(FloatValue, FloatValue)>, String>)
        requires
            old(self).wf(),
        ensures
            final(self).toks() == old(self).toks(),
            final(self).wf(),
            old(self).pos() <= final(self).pos(),
            (res_view(r), final(self).pos()) == sp_opt_range(old(self).toks(), old(self).pos()),
    {
        if self.check_next_token("[") {
            self.get_token("")?;
            let range_start = self.get_token("RANGE")?;
            let dots = [BYTE_DOT, BYTE_DOT, BYTE_DOT];
            assert(dots@ =~= ellipsis());
            let rs_len = range_start.len();
            match find_sub_from(range_start, 0, &dots) {
                Some(i) => {
                    let (first, rest) = range_start.split_at(i);
                    let (_, last) = rest.split_at(3);
                    assert(last@ =~= range_start@.subrange(i + 3, rs_len as int));
                    assert(first@ =~= range_start@.subrange(0, i as int));
                    proof {
                        lemma_first_sub_from_bounds(range_start@, 0, ellipsis());
                    }
                    self.parse_range_bounds(first, last)
                },
                None => {
                    self.require_token("RANGE", "...")?;
                    let range_end = self.get_token("RANGE")?;
                    self.parse_range_bounds(range_start, range_end)
                },
            }
        } else {
            Ok(None)
        }
    }

    /// Reads `= INTEL | MOTOROLA` after `BYTE_ORDER`.
    pub fn parse_byte_order_attribute(&mut self) -> (r: Result<ByteOrderEnum, String>)
        requires
            old(self).wf(),
        ensures
            final(self).toks() == old(self).toks(),
            final(self).wf(),
            old(self).pos() <= final(self).pos(),
            (res_view(r), final(self).pos()) == sp_byte_order(old(self).toks(), old(self).pos()),
    {
        self.require_token("BYTE_ORDER", "=")?;
        let bo_token = self.get_token("BYTE_ORDER")?;
        if token_is(bo_token, "INTEL") {
            Ok(ByteOrderEnum::MsbLast)
        } else if token_is(bo_token, "MOTOROLA") {
            Ok(ByteOrderEnum::MsbFirst)
        } else {
            let mut m = String::from_str("unknown byte order ");
            m.append(lossy_string(bo_token).as_str());
            Err(m)
        }
    }

    /// Reads a list of identifiers separated by `|`.
    pub fn parse_identifier_list_value(&mut self, context: &str) -> (r: Result<
        Vec<String>,
        String,
    >)
        requires
            old(self).wf(),
        ensures
            final(self).toks() == old(self).toks(),
            final(self).wf(),
            old(self).pos() <= final(self).pos(),
            (res_view(r), final(self).pos()) == sp_identifier_list_value(
                old(self).toks(),
                old(self).pos(),
                context@,
            ),
    {
        let ghost t = self.toks();
        let ghost p0 = self.pos();
        let first_group = self.get_identifier(context)?;
        let mut groups = vec![first_group];
        assert(groups.deep_view() =~= seq![groups@[0].deep_view()]);
        while self.check_next_token("|")
            invariant
                self.wf(),
                self.toks() == t,
                old(self).pos() <= self.pos(),
                sp_identifier_list_value(t, p0, context@) == sp_identifier_list_rest(
                    t,
                    self.pos(),
                    groups.deep_view(),
                    context@,
                ),
            decreases t.len() - self.pos(),
        {
            let ghost before = groups.deep_view();
            self.get_token("")?;
            let group = self.get_identifier(context)?;
            groups.push(group);
            assert(groups.deep_view() =~= before.push(group.deep_view()));
        }
        Ok(groups)
    }

    /// Reads `= ident | ident ...`.
    pub fn parse_identifier_list(&mut self, context: &str) -> (r: Result<Vec<String>, String>)
        requires
            old(self).wf(),
        ensures
            final(self).toks() == old(self).toks(),
            final(self).wf(),
            old(self).pos() <= final(self).pos(),
            (res_view(r), final(self).pos()) == sp_identifier_list(
                old(self).toks(),
                old(self).pos(),
                context@,
            ),
    {
        self.require_token(context, "=")?;
        self.parse_identifier_list_value(context)
    }

    /// Reads an optional `SPLIT` with its arguments.
    pub fn parse_opt_split(&mut self) -> (r: Result<Option<SplitType>, String>)
        requires
            old(self).wf(),
        ensures
            final(self).toks() == old(self).toks(),
            final(self).wf(),
            old(self).pos() <= final(self).pos(),
            (res_view(r), final(self).pos()) == sp_opt_split(old(self).toks(), old(self).pos()),
    {
        if self.check_next_token("SPLIT") {
            self.get_token("SPLIT")?;
            if self.check_next_token("USE") {
                self.get_token("")?;
                let ghost t = self.toks();
                let ghost p0 = self.pos();
                let mut split_strings: Vec<String> = Vec::new();
                assert(split_strings.deep_view() =~= Seq::<Seq<char>>::empty());
                loop
                    invariant
                        self.wf(),
                        self.toks() == t,
                        old(self).pos() <= self.pos(),
                        sp_strings_from(t, p0, seq![]) == sp_strings_from(
                            t,
                            self.pos(),
                            split_strings.deep_view(),
                        ),
                    decreases t.len() - self.pos(),
                {
                    let ghost before = split_strings.deep_view();
                    match self.get_string("") {
                        Ok(txt) => {
                            split_strings.push(txt);
                            assert(split_strings.deep_view() =~= before.push(txt.deep_view()));
                        },
                        Err(_) => {
                            return Ok(Some(SplitType::Manual(split_strings)));
                        },
                    }
                }
            } else if self.check_next_token("USE_TEMPLATE") {
                self.get_token("")?;
                let split_template = self.get_string("SPLIT USE_TEMPLATE")?;
                Ok(Some(SplitType::Template(split_template)))
            } else {
                Ok(Some(SplitType::Auto))
            }
        } else {
            Ok(None)
        }
    }

    /// Reads `= d0 [d1 ... d4]` after `DIMENSION`.
    pub fn parse_dimension_attribute(&mut self) -> (r: Result<Vec<u32>, String>)
        requires
            old(self).wf(),
        ensures
            final(self).toks() == old(self).toks(),
            final(self).wf(),
            old(self).pos() <= final(self).pos(),
            (res_view(r), final(self).pos()) == sp_dimension(old(self).toks(), old(self).pos()),
    {
        self.require_token("DIMENSION", "=")?;
        let dim0 = self.get_u32_value("DIMENSION")?;
        let mut dim = vec![dim0];
        let ghost t = self.toks();
        let ghost p0 = self.pos();
        assert(dim.deep_view() =~= seq![dim0]);
        let mut count: usize = 1;
        while count < 5
            invariant
                1 <= count <= 5,
                self.wf(),
                self.toks() == t,
                old(self).pos() <= self.pos(),
                sp_more_u32(t, p0, seq![dim0], 4) == sp_more_u32(
                    t,
                    self.pos(),
                    dim.deep_view(),
                    (5 - count) as nat,
                ),
            decreases 5 - count,
        {
            let ghost before = dim.deep_view();
            if let Ok(dim_value) = self.get_u32_value("DIMENSION") {
                dim.push(dim_value);
                assert(dim.deep_view() =~= before.push(dim_value));
            } else {
                return Ok(dim);
            }
            count += 1;
        }
        Ok(dim)
    }

    /// Reads an optional `DIMENSION = ... [SPLIT ...]`.
    pub fn parse_opt_dimension(&mut self) -> (r: Result<(Vec<u32>, Option<SplitType>), String>)
        requires
            old(self).wf(),
        ensures
            final(self).toks() == old(self).toks(),
            final(self).wf(),
            old(self).pos() <= final(self).pos(),
            (res_view(r), final(self).pos()) == sp_opt_dimension(
                old(self).toks(),
                old(self).pos(),
            ),
    {
        if self.check_next_token("DIMENSION") {
            self.get_token("")?;
            let dim = self.parse_dimension_attribute()?;
            let split = self.parse_opt_split()?;
            Ok((dim, split))
        } else {
            let empty: Vec<u32> = Vec::new();
            assert(empty.deep_view() =~= Seq::<u32>::empty());
            Ok((empty, None))
        }
    }

    /// Reads a group assignment after `GROUP`.
    pub fn parse_group_attribute(&mut self) -> (r: Result<GroupAttribute, String>)
        requires
            old(self).wf(),
        ensures
            final(self).toks() == old(self).toks(),
            final(self).wf(),
            old(self).pos() <= final(self).pos(),
            (res_view(r), final(self).pos()) == sp_group_attribute(
                old(self).toks(),
                old(self).pos(),
            ),
    {
        if self.check_next_token("IN") {
            self.get_token("")?;
            let group_list = self.parse_identifier_list("GROUP IN")?;
            Ok(GroupAttribute::In(group_list))
        } else if self.check_next_token("OUT") {
            self.get_token("")?;
            let group_list = self.parse_identifier_list("GROUP OUT")?;
            Ok(GroupAttribute::Out(group_list))
        } else if self.check_next_token("DEF") {
            self.get_token("")?;
            let group_list = self.parse_identifier_list("GROUP DEF")?;
            Ok(GroupAttribute::Def(group_list))
        } else if self.check_next_token("=") {
            let group_list = self.parse_identifier_list("GROUP")?;
            Ok(GroupAttribute::Std(group_list))
        } else {
            let next_token = self.get_token("GROUP")?;
            Err(debug_token_message("Unexpected token in GROUP: ", next_token))
        }
    }

    /// Reads optional length and digits of a conversion.
    pub fn parse_conversion_length_digits(&mut self) -> (r: (Option<u64>, Option<u64>))
        requires
            old(self).wf(),
        ensures
            final(self).toks() == old(self).toks(),
            final(self).wf(),
            old(self).pos() <= final(self).pos(),
            (Ok::<(Option<u64>, Option<u64>), Seq<char>>(r), final(self).pos()) == sp_length_digits(old(self).toks(), old(self).pos()),
    {
        let value1 = match self.get_u64_value("conversion length/digits") {
            Ok(v) => v,
            Err(_) => {
                return (None, None);
            },
        };
        let value2 = match self.get_u64_value("conversion digits") {
            Ok(v) => v,
            Err(_) => {
                return (None, Some(value1));
            },
        };
        (Some(value1), Some(value2))
    }

    /// Reads `= "unit" [length] [digits]` after `UNIT`.
    pub fn parse_unit_attribute(&mut self) -> (r: Result<ConversionAttribute, String>)
        requires
            old(self).wf(),
        ensures
            final(self).toks() == old(self).toks(),
            final(self).wf(),
            old(self).pos() <= final(self).pos(),
            (res_view(r), final(self).pos()) == sp_unit_attribute(
                old(self).toks(),
                old(self).pos(),
            ),
    {
        self.require_token("CONVERSION attribute", "=")?;
        let name = self.get_string("UNIT name")?;
        let (length, digits) = self.parse_conversion_length_digits();
        Ok(ConversionAttribute::Unit { name, length, digits })
    }

    /// Reads a value table and its optional default value.
    pub fn parse_conversion_table(&mut self) -> (r: Result<(Vec<TableRow>, Option<String>), String>)
        requires
            old(self).wf(),
        ensures
            final(self).toks() == old(self).toks(),
            final(self).wf(),
            old(self).pos() <= final(self).pos(),
            (res_view(r), final(self).pos()) == sp_conversion_table(
                old(self).toks(),
                old(self).pos(),
            ),
    {
        let ghost t = self.toks();
        let ghost p0 = self.pos();
        let mut rows: Vec<TableRow> = Vec::new();
        assert(rows.deep_view() =~= Seq::<SpecTableRow>::empty());
        loop
            invariant
                self.wf(),
                self.toks() == t,
                old(self).pos() <= self.pos(),
                sp_table_rows(t, p0, seq![]) == sp_table_rows(t, self.pos(), rows.deep_view()),
            decreases t.len() - self.pos(),
        {
            let ghost before = rows.deep_view();
            let value1 = match self.get_float_value("TABLE conversion row value 1") {
                Ok(v) => v,
                Err(_) => {
                    break;
                },
            };
            if let Ok(txt) = self.get_string("TABLE conversion row text") {
                let row = TableRow { value1, value2: None, text: txt };
                rows.push(row);
                assert(rows.deep_view() =~= before.push(row.deep_view()));
            } else if let Ok(value2) = self.get_float_value("TABLE conversion row value 2") {
                if let Ok(txt) = self.get_string("TABLE conversion row text") {
                    let row = TableRow { value1, value2: Some(value2), text: txt };
                    rows.push(row);
                    assert(rows.deep_view() =~= before.push(row.deep_view()));
                }
            } else {
                return Err(String::from_str("Invalid TABLE conversion row: expected a string or a second float value"));
            }
        }
        let default_value = if self.check_next_token("DEFAULT_VALUE") {
            self.get_token("")?;
            let default_value = self.get_string("TABLE conversion default value")?;
            Some(default_value)
        } else {
            None
        };
        Ok((rows, default_value))
    }

    /// Reads `= LINEAR ... | FORMULA ... | TABLE ... | <name> ...` after `CONVERSION`.
    pub fn parse_conversion_attribute(&mut self) -> (r: Result<ConversionAttribute, String>)
        requires
            old(self).wf(),
        ensures
            final(self).toks() == old(self).toks(),
            final(self).wf(),
            old(self).pos() <= final(self).pos(),
            (res_view(r), final(self).pos()) == sp_conversion_attribute(old(self).toks(), old(self).pos()),
    {
        self.require_token("CONVERSION attribute", "=")?;
        let cur_token = self.get_token("CONVERSION attribute")?;
        if token_is(cur_token, "LINEAR") {
            let factor = self.get_float_value("LINEAR conversion factor")?;
            let offset = self.get_float_value("LINEAR conversion offset")?;
            let unit = self.get_string("LINEAR conversion unit")?;
            let (length, digits) = self.parse_conversion_length_digits();
            Ok(ConversionAttribute::Linear { factor, offset, unit, length, digits })
        } else if token_is(cur_token, "FORMULA") {
            let formula = self.get_string("FORMULA conversion formula")?;
            let inverse_formula = if self.check_next_token("INVERSE") {
                self.get_token("")?;
                let inverse_formula = self.get_string("FORMULA conversion inverse formula")?;
                Some(inverse_formula)
            } else {
                None
            };
            let unit = self.get_string("FORMULA conversion unit")?;
            let (length, digits) = self.parse_conversion_length_digits();
            Ok(ConversionAttribute::Formula { formula, inverse_formula, unit, length, digits })
        } else if token_is(cur_token, "TABLE") {
            let (rows, default_value) = self.parse_conversion_table()?;
            let format_values = if self.check_next_token("FORMAT") {
                self.get_token("")?;
                let length = self.get_u64_value("TABLE conversion FORMAT length")?;
                let digits = self.get_u64_value("TABLE conversion FORMAT digits")?;
                Some((length, digits))
            } else {
                None
            };
            Ok(ConversionAttribute::Table { rows, default_value, format_values })
        } else {
            let name = lossy_string(cur_token);
            let (length, digits) = self.parse_conversion_length_digits();
            Ok(ConversionAttribute::Reference { name, length, digits })
        }
    }

    /// Reads the event after `EVENT`.
    pub fn parse_event_attribute(&mut self) -> (r: Result<EventType, String>)
        requires
            old(self).wf(),
        ensures
            final(self).toks() == old(self).toks(),
            final(self).wf(),
            old(self).pos() <= final(self).pos(),
            (res_view(r), final(self).pos()) == sp_event(old(self).toks(), old(self).pos()),
    {
        let cmd_type_token = self.get_token("EVENT")?;
        self.require_token("EVENT", "=")?;
        if token_is(cmd_type_token, "CCP") {
            let value = self.get_u32_value("EVENT CCP value")?;
            Ok(EventType::Ccp(value))
        } else if token_is(cmd_type_token, "XCP") {
            let sub_type_token = self.get_token("EVENT XCP")?;
            if token_is(sub_type_token, "FIXED") {
                let value = self.get_u32_value("EVENT XCP = FIXED value")?;
                Ok(EventType::XcpFixed(value))
            } else if token_is(sub_type_token, "VARIABLE") {
                let value = self.get_u32_value("EVENT XCP = VARIABLE value")?;
                let ghost t = self.toks();
                let ghost p0 = self.pos();
                let mut values = vec![value];
                assert(values.deep_view() =~= seq![value]);
                loop
                    invariant
                        self.wf(),
                        self.toks() == t,
                        old(self).pos() <= self.pos(),
                        sp_u32_list(t, p0, seq![value]) == sp_u32_list(
                            t,
                            self.pos(),
                            values.deep_view(),
                        ),
                    decreases t.len() - self.pos(),
                {
                    let ghost before = values.deep_view();
                    match self.get_u32_value("") {
                        Ok(v) => {
                            values.push(v);
                            assert(values.deep_view() =~= before.push(v));
                        },
                        Err(_) => {
                            break;
                        },
                    }
                }
                Ok(EventType::XcpVariable(values))
            } else if token_is(sub_type_token, "DEFAULT") {
                let value = self.get_u32_value("EVENT XCP = DEFAULT value")?;
                Ok(EventType::XcpDefault(value))
            } else {
                Err(token_message("Unknown XCP event category \"", sub_type_token, "\""))
            }
        } else {
            Err(token_message("Unexpected event type ", cmd_type_token, " in EVENT definition"))
        }
    }

    /// Reads an optional `UNIT = "name" length digits` of a named conversion.
    pub fn parse_unit(&mut self, context: &str) -> (r: Result<Option<Unit>, String>)
        requires
            old(self).wf(),
        ensures
            final(self).toks() == old(self).toks(),
            final(self).wf(),
            old(self).pos() <= final(self).pos(),
            (res_view(r), final(self).pos()) == sp_unit(old(self).toks(), old(self).pos(), context@),
    {
        if self.check_next_token("UNIT") {
            self.get_token("")?;
            self.require_token(context, "=")?;
            let name = self.get_string(context)?;
            let length = self.get_u64_value(context)?;
            let digits = self.get_u64_value(context)?;
            Ok(Some(Unit { name, length, digits }))
        } else {
            Ok(None)
        }
    }

    /// Reads `LAYOUT = identifier`.
    pub fn parse_layout(&mut self) -> (r: Result<String, String>)
        requires
            old(self).wf(),
        ensures
            final(self).toks() == old(self).toks(),
            final(self).wf(),
            old(self).pos() <= final(self).pos(),
            (res_view(r), final(self).pos()) == sp_layout(old(self).toks(), old(self).pos()),
    {
        self.parse_tagged_identifier("LAYOUT", "LAYOUT")
    }

    /// Reads an optional `INPUT = [INSTANCE_NAME] identifier`.
    pub fn parse_axis_input_signal(&mut self) -> (r: Result<(Option<String>, bool), String>)
        requires
            old(self).wf(),
        ensures
            final(self).toks() == old(self).toks(),
            final(self).wf(),
            old(self).pos() <= final(self).pos(),
            (res_view(r), final(self).pos()) == sp_axis_input_signal(old(self).toks(), old(self).pos()),
    {
        if self.check_next_token("INPUT") {
            self.get_token("")?;
            self.require_token("INPUT", "=")?;
            if self.check_next_token("INSTANCE_NAME") {
                self.get_token("")?;
                let name = self.get_identifier("INPUT")?;
                Ok((Some(name), true))
            } else {
                let name = self.get_identifier("INPUT")?;
                Ok((Some(name), false))
            }
        } else {
            Ok((None, false))
        }
    }

    /// Reads an optional `CONVERSION ...` or `UNIT ...` of an axis.
    pub fn parse_axis_conversion(&mut self) -> (r: Result<Option<ConversionAttribute>, String>)
        requires
            old(self).wf(),
        ensures
            final(self).toks() == old(self).toks(),
            final(self).wf(),
            old(self).pos() <= final(self).pos(),
            (res_view(r), final(self).pos()) == sp_axis_conversion(old(self).toks(), old(self).pos()),
    {
        if self.check_next_token("CONVERSION") {
            self.get_token("")?;
            let conv = self.parse_conversion_attribute()?;
            Ok(Some(conv))
        } else if self.check_next_token("UNIT") {
            self.get_token("")?;
            let conv = self.parse_unit_attribute()?;
            Ok(Some(conv))
        } else {
            Ok(None)
        }
    }

    /// Reads a standard axis.
    pub fn parse_std_axis(&mut self) -> (r: Result<AxisInfo, String>)
        requires
            old(self).wf(),
        ensures
            final(self).toks() == old(self).toks(),
            final(self).wf(),
            old(self).pos() <= final(self).pos(),
            (res_view(r), final(self).pos()) == sp_std_axis(old(self).toks(), old(self).pos()),
    {
        let (datatype, _bitmask) = self.parse_data_type()?;
        let range = self.parse_opt_range()?;
        let extended_range = self.parse_opt_range()?;
        self.require_token("AXIS", "DIMENSION")?;
        let dimension = self.parse_dimension_attribute()?;
        let (input_signal, input_is_instance) = self.parse_axis_input_signal()?;
        let conversion = self.parse_axis_conversion()?;
        Ok(
            AxisInfo::Standard {
                datatype,
                range,
                extended_range,
                dimension,
                input_signal,
                input_is_instance,
                conversion,
            },
        )
    }

    /// Reads a fix axis given by a range and an optional step.
    pub fn parse_fix_axis_range(&mut self) -> (r: Result<AxisInfo, String>)
        requires
            old(self).wf(),
        ensures
            final(self).toks() == old(self).toks(),
            final(self).wf(),
            old(self).pos() <= final(self).pos(),
            (res_view(r), final(self).pos()) == sp_fix_axis_range(old(self).toks(), old(self).pos()),
    {
        let range = match self.parse_opt_range()? {
            Some(range) => range,
            None => {
                return Err(String::from_str("Invalid range value for AXIS FIX"));
            },
        };
        let range_step = if self.check_next_token(",") {
            self.get_token("")?;
            let range_step = self.get_float_value("AXIS FIX range step")?;
            Some(range_step)
        } else {
            None
        };
        let (input_signal, input_is_instance) = self.parse_axis_input_signal()?;
        let conversion = self.parse_axis_conversion()?;
        let (range_min, range_max) = range;
        Ok(
            AxisInfo::FixRange {
                range_min,
                range_max,
                range_step,
                input_signal,
                input_is_instance,
                conversion,
            },
        )
    }

    /// Reads a fix axis given by a list of axis points.
    pub fn parse_fix_axis_list(&mut self) -> (r: Result<AxisInfo, String>)
        requires
            old(self).wf(),
        ensures
            final(self).toks() == old(self).toks(),
            final(self).wf(),
            old(self).pos() <= final(self).pos(),
            (res_view(r), final(self).pos()) == sp_fix_axis_list(old(self).toks(), old(self).pos()),
    {
        let value = self.get_float_value("AXIS FIX")?;
        let ghost t = self.toks();
        let ghost p0 = self.pos();
        let ghost v0 = value.deep_view();
        let mut axis_points = vec![value];
        assert(axis_points.deep_view() =~= seq![v0]);
        loop
            invariant
                self.wf(),
                self.toks() == t,
                old(self).pos() <= self.pos(),
                sp_float_list(t, p0, seq![v0]) == sp_float_list(
                    t,
                    self.pos(),
                    axis_points.deep_view(),
                ),
            decreases t.len() - self.pos(),
        {
            let ghost before = axis_points.deep_view();
            match self.get_float_value("AXIS FIX") {
                Ok(item) => {
                    axis_points.push(item);
                    assert(axis_points.deep_view() =~= before.push(item.deep_view()));
                },
                Err(_) => {
                    break;
                },
            }
        }
        let (input_signal, input_is_instance) = self.parse_axis_input_signal()?;
        let conversion = self.parse_axis_conversion()?;
        Ok(AxisInfo::FixList { axis_points, input_signal, input_is_instance, conversion })
    }

    /// Reads a common axis.
    pub fn parse_common_axis(&mut self) -> (r: Result<AxisInfo, String>)
        requires
            old(self).wf(),
        ensures
            final(self).toks() == old(self).toks(),
            final(self).wf(),
            old(self).pos() <= final(self).pos(),
            (res_view(r), final(self).pos()) == sp_common_axis(old(self).toks(), old(self).pos()),
    {
        if self.check_next_token("INSTANCE_NAME") {
            self.get_token("")?;
            let name = self.get_identifier("AXIS COMMON INSTANCE_NAME")?;
            Ok(AxisInfo::Common { ref_name: name, is_instance: true })
        } else {
            let name = self.get_identifier("AXIS COMMON")?;
            Ok(AxisInfo::Common { ref_name: name, is_instance: false })
        }
    }

    /// Reads `= STANDARD ... | FIX ... | COMMON ...` of an axis.
    pub fn parse_axis(&mut self) -> (r: Result<AxisInfo, String>)
        requires
            old(self).wf(),
        ensures
            final(self).toks() == old(self).toks(),
            final(self).wf(),
            old(self).pos() <= final(self).pos(),
            (res_view(r), final(self).pos()) == sp_axis(old(self).toks(), old(self).pos()),
    {
        self.require_token("AXIS", "=")?;
        let type_token = self.get_token("AXIS")?;
        if token_is(type_token, "STANDARD") {
            self.parse_std_axis()
        } else if token_is(type_token, "FIX") {
            if self.check_next_token("[") {
                self.parse_fix_axis_range()
            } else {
                self.parse_fix_axis_list()
            }
        } else if token_is(type_token, "COMMON") {
            self.parse_common_axis()
        } else {
            let mut m = String::from_str("unknown AXIS type ");
            m.append(lossy_string(type_token).as_str());
            Err(m)
        }
    }

    /// Reads Attributes up to the first token that is none.
    #[verifier::rlimit(40)]
    pub fn parse_attributes(&mut self) -> (r: Result<Attributes, String>)
        requires
            old(self).wf(),
        ensures
            final(self).toks() == old(self).toks(),
            final(self).wf(),
            old(self).pos() <= final(self).pos(),
            (res_view(r), final(self).pos()) == sp_attributes(old(self).toks(), old(self).pos()),
    {
        let ghost t = self.toks();
        let mut attributes = Attributes {
            address: None,
            address_ext: None,
            alias: None,
            base_offset: None,
            byte_order: None,
            color: None,
            conversion: None,
            description: None,
            dimension: Vec::new(),
            event: None,
            group: Vec::new(),
            layout: None,
            split: None,
            var_criterion: None,
        };
        assert(attributes.dimension.deep_view() =~= Seq::<u32>::empty());
        assert(attributes.group.deep_view() =~= Seq::<SpecGroupAttribute>::empty());
        assert(attributes.deep_view() == empty_attributes());
        loop
            invariant
                self.wf(),
                self.toks() == t,
                old(self).pos() <= self.pos(),
                sp_attributes(t, old(self).pos()) == sp_attributes_from(
                    t,
                    self.pos(),
                    attributes.deep_view(),
                ),
            decreases t.len() - self.pos(),
        {
            let ghost before = attributes.deep_view();
            let cur_token = match self.peek_token() {
                Some(tok) => tok,
                None => {
                    break;
                },
            };
            if token_is(cur_token, "ADDRESS") {
                attributes.address = Some(self.parse_tagged_u32("ADDRESS", "ADDRESS")?);
            } else if token_is(cur_token, "ADDRESS_EXTENSION") {
                attributes.address_ext = Some(self.parse_tagged_u32("ADDRESS_EXTENSION", "ADDRESS_EXTENSION")?);
            } else if token_is(cur_token, "ALIAS") {
                attributes.alias = Some(self.parse_tagged_identifier("ALIAS", "ALIAS")?);
            } else if token_is(cur_token, "BASE_OFFSET") {
                attributes.base_offset = Some(self.parse_tagged_u32("BASE_OFFSET", "BASE_OFFSET")?);
            } else if token_is(cur_token, "BYTE_ORDER") {
                self.get_token("")?;
                let byte_order = self.parse_byte_order_attribute()?;
                attributes.byte_order = Some(byte_order);
            } else if token_is(cur_token, "COLOR") {
                attributes.color = Some(self.parse_tagged_u32("COLOR", "COLOR")?);
            } else if token_is(cur_token, "CONVERSION") {
                self.get_token("")?;
                let conversion = self.parse_conversion_attribute()?;
                attributes.conversion = Some(conversion);
            } else if token_is(cur_token, "DESCRIPTION") {
                attributes.description = Some(self.parse_tagged_string("DESCRIPTION", "DESCRIPTION")?);
            } else if token_is(cur_token, "DIMENSION") {
                self.get_token("")?;
                attributes.dimension = self.parse_dimension_attribute()?;
                attributes.split = self.parse_opt_split()?;
            } else if token_is(cur_token, "EVENT") {
                self.get_token("")?;
                let event = self.parse_event_attribute()?;
                attributes.event = Some(event);
            } else if token_is(cur_token, "GROUP") {
                self.get_token("")?;
                let group_attribute = self.parse_group_attribute()?;
                attributes.group.push(group_attribute);
                assert(attributes.group.deep_view() =~= before.group.push(group_attribute.deep_view()));
            } else if token_is(cur_token, "LAYOUT") {
                attributes.layout = Some(self.parse_tagged_identifier("LAYOUT", "LAYOUT")?);
            } else if token_is(cur_token, "UNIT") {
                self.get_token("")?;
                let unit_conversion = self.parse_unit_attribute()?;
                attributes.conversion = Some(unit_conversion);
            } else if token_is(cur_token, "VAR_CRITERION") {
                attributes.var_criterion = Some(self.parse_tagged_identifier("VAR_CRITERION", "VAR_CRITERION")?);
            } else {
                break;
            }
        }
        Ok(attributes)
    }

    /// Reads StringAttributes up to the first token that is none.
    pub fn parse_string_attributes(&mut self) -> (r: Result<StringAttributes, String>)
        requires
            old(self).wf(),
        ensures
            final(self).toks() == old(self).toks(),
            final(self).wf(),
            old(self).pos() <= final(self).pos(),
            (res_view(r), final(self).pos()) == sp_string_attributes(old(self).toks(), old(self).pos()),
    {
        let ghost t = self.toks();
        let mut attributes = StringAttributes {
            address: None,
            address_ext: None,
            alias: None,
            base_offset: None,
            description: None,
            dimension: Vec::new(),
            group: Vec::new(),
            split: None,
            var_criterion: None,
        };
        assert(attributes.dimension.deep_view() =~= Seq::<u32>::empty());
        assert(attributes.group.deep_view() =~= Seq::<SpecGroupAttribute>::empty());
        assert(attributes.deep_view() == empty_string_attributes());
        loop
            invariant
                self.wf(),
                self.toks() == t,
                old(self).pos() <= self.pos(),
                sp_string_attributes(t, old(self).pos()) == sp_string_attributes_from(
                    t,
                    self.pos(),
                    attributes.deep_view(),
                ),
            decreases t.len() - self.pos(),
        {
            let ghost before = attributes.deep_view();
            let cur_token = match self.peek_token() {
                Some(tok) => tok,
                None => {
                    break;
                },
            };
            if token_is(cur_token, "ADDRESS") {
                attributes.address = Some(self.parse_tagged_u32("ADDRESS", "ADDRESS")?);
            } else if token_is(cur_token, "ADDRESS_EXTENSION") {
                attributes.address_ext = Some(self.parse_tagged_u32("ADDRESS_EXTENSION", "ADDRESS_EXTENSION")?);
            } else if token_is(cur_token, "ALIAS") {
                attributes.alias = Some(self.parse_tagged_identifier("ALIAS", "ALIAS")?);
            } else if token_is(cur_token, "BASE_OFFSET") {
                attributes.base_offset = Some(self.parse_tagged_u32("BASE_OFFSET", "BASE_OFFSET")?);
            } else if token_is(cur_token, "DESCRIPTION") {
                attributes.description = Some(self.parse_tagged_string("DESCRIPTION", "DESCRIPTION")?);
            } else if token_is(cur_token, "DIMENSION") {
                self.get_token("")?;
                attributes.dimension = self.parse_dimension_attribute()?;
                attributes.split = self.parse_opt_split()?;
            } else if token_is(cur_token, "GROUP") {
                self.get_token("")?;
                let group_attribute = self.parse_group_attribute()?;
                attributes.group.push(group_attribute);
                assert(attributes.group.deep_view() =~= before.group.push(group_attribute.deep_view()));
            } else if token_is(cur_token, "VAR_CRITERION") {
                attributes.var_criterion = Some(self.parse_tagged_identifier("VAR_CRITERION", "VAR_CRITERION")?);
            } else {
                break;
            }
        }
        Ok(attributes)
    }

    /// Reads MapAttributes up to the first token that is none.
    pub fn parse_map_attributes(&mut self) -> (r: Result<MapAttributes, String>)
        requires
            old(self).wf(),
        ensures
            final(self).toks() == old(self).toks(),
            final(self).wf(),
            old(self).pos() <= final(self).pos(),
            (res_view(r), final(self).pos()) == sp_map_attributes(old(self).toks(), old(self).pos()),
    {
        let ghost t = self.toks();
        let mut attributes = MapAttributes {
            address: None,
            address_ext: None,
            alias: None,
            base_offset: None,
            byte_order: None,
            conversion: None,
            description: None,
            group: Vec::new(),
            var_criterion: None,
        };
        assert(attributes.group.deep_view() =~= Seq::<SpecGroupAttribute>::empty());
        assert(attributes.deep_view() == empty_map_attributes());
        loop
            invariant
                self.wf(),
                self.toks() == t,
                old(self).pos() <= self.pos(),
                sp_map_attributes(t, old(self).pos()) == sp_map_attributes_from(
                    t,
                    self.pos(),
                    attributes.deep_view(),
                ),
            decreases t.len() - self.pos(),
        {
            let ghost before = attributes.deep_view();
            let cur_token = match self.peek_token() {
                Some(tok) => tok,
                None => {
                    break;
                },
            };
            if token_is(cur_token, "ADDRESS") {
                attributes.address = Some(self.parse_tagged_u32("ADDRESS", "ADDRESS")?);
            } else if token_is(cur_token, "ADDRESS_EXTENSION") {
                attributes.address_ext = Some(self.parse_tagged_u32("ADDRESS_EXTENSION", "ADDRESS_EXTENSION")?);
            } else if token_is(cur_token, "ALIAS") {
                attributes.alias = Some(self.parse_tagged_identifier("ALIAS", "ALIAS")?);
            } else if token_is(cur_token, "BASE_OFFSET") {
                attributes.base_offset = Some(self.parse_tagged_u32("BASE_OFFSET", "BASE_OFFSET")?);
            } else if token_is(cur_token, "BYTE_ORDER") {
                self.get_token("")?;
                let byte_order = self.parse_byte_order_attribute()?;
                attributes.byte_order = Some(byte_order);
            } else if token_is(cur_token, "CONVERSION") {
                self.get_token("")?;
                let conversion = self.parse_conversion_attribute()?;
                attributes.conversion = Some(conversion);
            } else if token_is(cur_token, "DESCRIPTION") {
                attributes.description = Some(self.parse_tagged_string("DESCRIPTION", "DESCRIPTION")?);
            } else if token_is(cur_token, "GROUP") {
                self.get_token("")?;
                let group_attribute = self.parse_group_attribute()?;
                attributes.group.push(group_attribute);
                assert(attributes.group.deep_view() =~= before.group.push(group_attribute.deep_view()));
            } else if token_is(cur_token, "UNIT") {
                self.get_token("")?;
                let unit_conversion = self.parse_unit_attribute()?;
                attributes.conversion = Some(unit_conversion);
            } else if token_is(cur_token, "VAR_CRITERION") {
                attributes.var_criterion = Some(self.parse_tagged_identifier("VAR_CRITERION", "VAR_CRITERION")?);
            } else {
                break;
            }
        }
        Ok(attributes)
    }

    /// Reads StructAttributes up to the first token that is none.
    pub fn parse_struct_attributes(&mut self) -> (r: Result<StructAttributes, String>)
        requires
            old(self).wf(),
        ensures
            final(self).toks() == old(self).toks(),
            final(self).wf(),
            old(self).pos() <= final(self).pos(),
            (res_view(r), final(self).pos()) == sp_struct_attributes(old(self).toks(), old(self).pos()),
    {
        let ghost t = self.toks();
        let mut attributes = StructAttributes { dimension: Vec::new(), base_offset: None, size: None, split: None };
        assert(attributes.dimension.deep_view() =~= Seq::<u32>::empty());
        assert(attributes.deep_view() == empty_struct_attributes());
        loop
            invariant
                self.wf(),
                self.toks() == t,
                old(self).pos() <= self.pos(),
                sp_struct_attributes(t, old(self).pos()) == sp_struct_attributes_from(
                    t,
                    self.pos(),
                    attributes.deep_view(),
                ),
            decreases t.len() - self.pos(),
        {
            let ghost before = attributes.deep_view();
            let cur_token = match self.peek_token() {
                Some(tok) => tok,
                None => {
                    break;
                },
            };
            if token_is(cur_token, "BASE_OFFSET") {
                attributes.base_offset = Some(self.parse_tagged_u32("BASE_OFFSET", "BASE_OFFSET")?);
            } else if token_is(cur_token, "DIMENSION") {
                self.get_token("")?;
                attributes.dimension = self.parse_dimension_attribute()?;
                attributes.split = self.parse_opt_split()?;
            } else if token_is(cur_token, "SIZE") {
                attributes.size = Some(self.parse_tagged_u32("SIZE", "SIZE")?);
            } else {
                break;
            }
        }
        Ok(attributes)
    }

    /// Reads the A2L name of an item, which stops at `DATA_TYPE`.
    fn parse_item_a2l_name(&mut self) -> (r: Option<String>)
        requires
            old(self).wf(),
        ensures
            final(self).toks() == old(self).toks(),
            final(self).wf(),
            old(self).pos() <= final(self).pos(),
            (r.deep_view(), final(self).pos()) == sp_a2l_name(
                old(self).toks(),
                old(self).pos(),
                stop_data_type(),
            ),
    {
        let stop_words = ["DATA_TYPE"];
        assert(stop_words@.map_values(|w: &str| w.spec_bytes()) =~= stop_data_type());
        self.parse_a2l_name(&stop_words)
    }

    /// Reads the A2L name of an instance or sub-structure, which stops at `STRUCTURE`.
    fn parse_structure_a2l_name(&mut self) -> (r: Option<String>)
        requires
            old(self).wf(),
        ensures
            final(self).toks() == old(self).toks(),
            final(self).wf(),
            old(self).pos() <= final(self).pos(),
            (r.deep_view(), final(self).pos()) == sp_a2l_name(
                old(self).toks(),
                old(self).pos(),
                stop_structure(),
            ),
    {
        let stop_words = ["STRUCTURE"];
        assert(stop_words@.map_values(|w: &str| w.spec_bytes()) =~= stop_structure());
        self.parse_a2l_name(&stop_words)
    }

    /// Reads the rest of a MEASURE item.
    pub fn parse_measure_config(&mut self) -> (r: Result<(ItemConfig, Option<String>), String>)
        requires
            old(self).wf(),
        ensures
            final(self).toks() == old(self).toks(),
            final(self).wf(),
            old(self).pos() <= final(self).pos(),
            (res_view(r), final(self).pos()) == sp_measure_config(old(self).toks(), old(self).pos()),
    {
        let write_access = self.parse_write_access();
        let a2l_name = self.parse_item_a2l_name();
        let (datatype, bitmask) = self.parse_data_type()?;
        let range = self.parse_opt_range()?;
        let _extended_range = self.parse_opt_range()?;
        let attributes = self.parse_attributes()?;
        self.require_token("SYMBOL", "END")?;
        let measure_cfg = MeasureCfg { write_access, datatype, bitmask, range, attributes };
        Ok((ItemConfig::Measure(measure_cfg), a2l_name))
    }

    /// Reads the rest of a PARAMETER item.
    pub fn parse_parameter_config(&mut self) -> (r: Result<(ItemConfig, Option<String>), String>)
        requires
            old(self).wf(),
        ensures
            final(self).toks() == old(self).toks(),
            final(self).wf(),
            old(self).pos() <= final(self).pos(),
            (res_view(r), final(self).pos()) == sp_parameter_config(old(self).toks(), old(self).pos()),
    {
        let write_access = self.parse_write_access();
        let a2l_name = self.parse_item_a2l_name();
        let (datatype, bitmask) = self.parse_data_type()?;
        let range = self.parse_opt_range()?;
        let extended_range = self.parse_opt_range()?;
        let attributes = self.parse_attributes()?;
        self.require_token("SYMBOL", "END")?;
        let parameter_cfg = ParameterCfg {
            write_access,
            datatype,
            bitmask,
            range,
            extended_range,
            attributes,
        };
        Ok((ItemConfig::Parameter(parameter_cfg), a2l_name))
    }

    /// Reads the axes of a curve or map and the closing `END`.
    fn parse_curve_map_axes(&mut self, is_map: bool) -> (r: Result<
        (AxisInfo, Option<AxisInfo>),
        String,
    >)
        requires
            old(self).wf(),
        ensures
            final(self).toks() == old(self).toks(),
            final(self).wf(),
            old(self).pos() <= final(self).pos(),
            (res_view(r), final(self).pos()) == sp_curve_map_axes(old(self).toks(), old(self).pos(), is_map),
    {
        let context = if is_map {
            "MAP"
        } else {
            "CURVE"
        };
        self.require_token(context, "X_AXIS")?;
        let x_axis = self.parse_axis()?;
        let y_axis = if is_map {
            self.require_token("MAP", "Y_AXIS")?;
            Some(self.parse_axis()?)
        } else {
            None
        };
        self.require_token("SYMBOL", "END")?;
        Ok((x_axis, y_axis))
    }

    /// Reads the rest of a CURVE (`is_map` false) or MAP item.
    pub fn parse_curve_map_config(&mut self, is_map: bool) -> (r: Result<(ItemConfig, Option<String>), String>)
        requires
            old(self).wf(),
        ensures
            final(self).toks() == old(self).toks(),
            final(self).wf(),
            old(self).pos() <= final(self).pos(),
            (res_view(r), final(self).pos()) == sp_curve_map_config(old(self).toks(), old(self).pos(), is_map),
    {
        let write_access = self.parse_write_access();
        let a2l_name = self.parse_item_a2l_name();
        let (datatype, bitmask) = self.parse_data_type()?;
        let range = self.parse_opt_range()?;
        let extended_range = self.parse_opt_range()?;
        let layout = self.parse_layout()?;
        let attributes = self.parse_map_attributes()?;
        let (x_axis, y_axis) = self.parse_curve_map_axes(is_map)?;
        let y_axis = match y_axis {
            Some(axis) => Some(Box::new(axis)),
            None => None,
        };
        let curve_map_cfg = CurveMapCfg {
            write_access,
            datatype,
            bitmask,
            range,
            extended_range,
            layout,
            attributes,
            x_axis: Box::new(x_axis),
            y_axis,
        };
        Ok((ItemConfig::CurveMap(curve_map_cfg), a2l_name))
    }

    /// Reads the rest of an AXIS item.
    #[verifier::rlimit(40)]
    pub fn parse_axis_config(&mut self) -> (r: Result<(ItemConfig, Option<String>), String>)
        requires
            old(self).wf(),
        ensures
            final(self).toks() == old(self).toks(),
            final(self).wf(),
            old(self).pos() <= final(self).pos(),
            (res_view(r), final(self).pos()) == sp_axis_config(old(self).toks(), old(self).pos()),
    {
        let write_access = self.parse_write_access();
        let a2l_name = self.parse_item_a2l_name();
        let (datatype, _bitmask) = self.parse_data_type()?;
        let range = self.parse_opt_range()?;
        let extended_range = self.parse_opt_range()?;
        let layout = self.parse_layout()?;
        self.require_token("AXIS", "DIMENSION")?;
        let dimension = self.parse_dimension_attribute()?;
        let (input_signal, input_is_instance) = self.parse_axis_input_signal()?;
        let attributes = self.parse_map_attributes()?;
        self.require_token("SYMBOL", "END")?;
        let axis_cfg = AxisCfg {
            write_access,
            datatype,
            range,
            extended_range,
            layout,
            dimension,
            input_signal,
            input_is_instance,
            attributes,
        };
        Ok((ItemConfig::Axis(axis_cfg), a2l_name))
    }

    /// Reads the rest of a STRING item.
    pub fn parse_string_config(&mut self) -> (r: Result<(ItemConfig, Option<String>), String>)
        requires
            old(self).wf(),
        ensures
            final(self).toks() == old(self).toks(),
            final(self).wf(),
            old(self).pos() <= final(self).pos(),
            (res_view(r), final(self).pos()) == sp_string_config(old(self).toks(), old(self).pos()),
    {
        let length = self.get_u32_value("STRING length")?;
        let write_access = self.parse_write_access();
        let stop_words = [
            "ADDRESS",
            "ADDRESS",
            "ADDRESS_EXTENSION",
            "ALIAS",
            "BASE_OFFSET",
            "DESCRIPTION",
            "DIMENSION",
            "END",
            "GROUP",
            "VAR_CRITERION",
        ];
        assert(stop_words@.map_values(|w: &str| w.spec_bytes()) =~= stop_string());
        let a2l_name = self.parse_a2l_name(&stop_words);
        let attributes = self.parse_string_attributes()?;
        self.require_token("SYMBOL", "END")?;
        let string_cfg = StringCfg { length, write_access, attributes };
        Ok((ItemConfig::String(string_cfg), a2l_name))
    }

    /// Reads the item type keyword and the configuration that follows it.
    pub fn parse_item_config(&mut self) -> (r: Result<(ItemConfig, Option<String>), String>)
        requires
            old(self).wf(),
        ensures
            final(self).toks() == old(self).toks(),
            final(self).wf(),
            old(self).pos() <= final(self).pos(),
            (res_view(r), final(self).pos()) == sp_item_config(old(self).toks(), old(self).pos()),
    {
        let a2l_type_tok = self.get_token("SYMBOL")?;
        if token_is(a2l_type_tok, "MEASURE") {
            self.parse_measure_config()
        } else if token_is(a2l_type_tok, "PARAMETER") {
            self.parse_parameter_config()
        } else if token_is(a2l_type_tok, "CURVE") {
            self.parse_curve_map_config(false)
        } else if token_is(a2l_type_tok, "MAP") {
            self.parse_curve_map_config(true)
        } else if token_is(a2l_type_tok, "AXIS") {
            self.parse_axis_config()
        } else if token_is(a2l_type_tok, "STRING") {
            self.parse_string_config()
        } else {
            Err(debug_token_message("Expected A2L_TYPE after SYMBOL keyword, found: ", a2l_type_tok))
        }
    }

    /// Reads the rest of a SYMBOL definition.
    pub fn parse_symbol(&mut self) -> (r: Result<Definition, String>)
        requires
            old(self).wf(),
        ensures
            final(self).toks() == old(self).toks(),
            final(self).wf(),
            old(self).pos() <= final(self).pos(),
            (res_view(r), final(self).pos()) == sp_symbol(old(self).toks(), old(self).pos()),
    {
        proof {
            reveal(sp_symbol);
        }
        self.require_token("SYMBOL", "=")?;
        let name = self.get_identifier("SYMBOL")?;
        self.require_token("SYMBOL", "A2L_TYPE")?;
        self.require_token("SYMBOL", "=")?;
        let (config, a2l_name) = self.parse_item_config()?;
        let a2l_name = match a2l_name {
            Some(n) => n,
            None => name.clone(),
        };
        Ok(Definition::Symbol(SymbolDefinition { symbol_name: name, a2l_name, config }))
    }

    /// Reads the rest of an ELEMENT definition.
    pub fn parse_element(&mut self) -> (r: Result<Definition, String>)
        requires
            old(self).wf(),
        ensures
            final(self).toks() == old(self).toks(),
            final(self).wf(),
            old(self).pos() <= final(self).pos(),
            (res_view(r), final(self).pos()) == sp_element(old(self).toks(), old(self).pos()),
    {
        proof {
            reveal(sp_element);
        }
        self.require_token("ELEMENT", "=")?;
        let name = self.get_identifier("ELEMENT")?;
        self.require_token("SYMBOL", "STRUCTURE")?;
        let structure = self.parse_identifier_list("ELEMENT structure")?;
        self.require_token("SYMBOL", "A2L_TYPE")?;
        self.require_token("SYMBOL", "=")?;
        let (config, a2l_name) = self.parse_item_config()?;
        let a2l_name = match a2l_name {
            Some(n) => n,
            None => name.clone(),
        };
        Ok(Definition::Element(ElementDefinition { symbol_name: name, structure, config, a2l_name }))
    }

    /// Reads an optional `OVERWRITE` of an instance.
    pub fn parse_opt_overwrite(&mut self) -> (r: Result<Option<Overwrite>, String>)
        requires
            old(self).wf(),
        ensures
            final(self).toks() == old(self).toks(),
            final(self).wf(),
            old(self).pos() <= final(self).pos(),
            (res_view(r), final(self).pos()) == sp_opt_overwrite(old(self).toks(), old(self).pos()),
            r matches Ok(Some(_)) ==> old(self).pos() < final(self).pos(),
    {
        proof {
            reveal(sp_opt_overwrite);
        }
        if self.check_next_token("OVERWRITE") {
            self.get_token("")?;
            let element_path = self.parse_identifier_list_value("OVERWRITE")?;
            let type_token = self.get_token("OVERWRITE TYPE")?;
            let details = if token_is(type_token, "CONVERSION") {
                let conversion = self.parse_conversion_attribute()?;
                OverwriteSpec::Conversion(conversion)
            } else if token_is(type_token, "DESCRIPTION") {
                self.require_token("OVERWRITE", "=")?;
                let desc = self.get_string("OVERWRITE DESCRIPTION")?;
                OverwriteSpec::Description(desc)
            } else if token_is(type_token, "ALIAS") {
                self.require_token("OVERWRITE", "=")?;
                let alias = self.get_identifier("OVERWRITE ALIAS")?;
                OverwriteSpec::Alias(alias)
            } else if token_is(type_token, "COLOR") {
                self.require_token("OVERWRITE", "=")?;
                let color = self.get_u32_value("OVERWRITE COLOR")?;
                OverwriteSpec::Color(color)
            } else if token_is(type_token, "GROUP") {
                let group = self.parse_group_attribute()?;
                OverwriteSpec::GroupAssignment(group)
            } else if token_is(type_token, "RANGE") {
                self.require_token("OVERWRITE", "=")?;
                match self.parse_opt_range()? {
                    Some((range_start, range_end)) => OverwriteSpec::Range(range_start, range_end),
                    None => {
                        return Err(String::from_str("Expected range value in OVERWRITE RANGE"));
                    },
                }
            } else {
                return Err(token_message("Unexpected token ", type_token, " in OVERWRITE"));
            };
            Ok(Some(Overwrite { element_path, details }))
        } else {
            Ok(None)
        }
    }

    /// Reads an optional `tag = <u32>`.
    fn parse_opt_tagged_u32(&mut self, tag: &str, context: &str) -> (r: Result<
        Option<u32>,
        String,
    >)
        requires
            old(self).wf(),
        ensures
            final(self).toks() == old(self).toks(),
            final(self).wf(),
            old(self).pos() <= final(self).pos(),
            (res_view(r), final(self).pos()) == sp_opt_tagged_u32(old(self).toks(), old(self).pos(), tag@, context@),
    {
        if self.check_next_token(tag) {
            let value = self.parse_tagged_u32(tag, context)?;
            Ok(Some(value))
        } else {
            Ok(None)
        }
    }

    /// Reads an optional `GROUP ...` of an instance.
    fn parse_opt_group(&mut self) -> (r: Result<Option<GroupAttribute>, String>)
        requires
            old(self).wf(),
        ensures
            final(self).toks() == old(self).toks(),
            final(self).wf(),
            old(self).pos() <= final(self).pos(),
            (res_view(r), final(self).pos()) == sp_opt_group(old(self).toks(), old(self).pos()),
    {
        if self.check_next_token("GROUP") {
            self.get_token("")?;
            let group_attribute = self.parse_group_attribute()?;
            Ok(Some(group_attribute))
        } else {
            Ok(None)
        }
    }

    /// Reads the overwrites of an instance, as many as follow.
    fn parse_overwrites(&mut self) -> (r: Result<Vec<Overwrite>, String>)
        requires
            old(self).wf(),
        ensures
            final(self).toks() == old(self).toks(),
            final(self).wf(),
            old(self).pos() <= final(self).pos(),
            (res_view(r), final(self).pos()) == sp_overwrites_from(old(self).toks(), old(self).pos(), seq![]),
    {
        let ghost t = self.toks();
        let mut overwrites: Vec<Overwrite> = Vec::new();
        assert(overwrites.deep_view() =~= Seq::<SpecOverwrite>::empty());
        loop
            invariant
                self.wf(),
                self.toks() == t,
                old(self).pos() <= self.pos(),
                sp_overwrites_from(t, old(self).pos(), seq![]) == sp_overwrites_from(
                    t,
                    self.pos(),
                    overwrites.deep_view(),
                ),
            decreases t.len() - self.pos(),
        {
            let ghost before = overwrites.deep_view();
            match self.parse_opt_overwrite()? {
                Some(overwrite) => {
                    overwrites.push(overwrite);
                    assert(overwrites.deep_view() =~= before.push(overwrite.deep_view()));
                },
                None => {
                    break;
                },
            }
        }
        Ok(overwrites)
    }

    /// Reads the rest of an INSTANCE definition.
    #[verifier::rlimit(40)]
    pub fn parse_instance(&mut self) -> (r: Result<InstanceDefinition, String>)
        requires
            old(self).wf(),
        ensures
            final(self).toks() == old(self).toks(),
            final(self).wf(),
            old(self).pos() <= final(self).pos(),
            (res_view(r), final(self).pos()) == sp_instance(old(self).toks(), old(self).pos()),
    {
        proof {
            reveal(sp_instance);
        }
        self.require_token("INSTANCE", "=")?;
        let name = self.get_identifier("INSTANCE")?;
        let a2l_name = self.parse_structure_a2l_name();
        self.require_token("INSTANCE", "STRUCTURE")?;
        self.require_token("INSTANCE", "=")?;
        let structure_name = self.get_identifier("INSTANCE structure")?;
        let address = self.parse_opt_tagged_u32("ADDRESS", "INSTANCE address")?;
        let (dimension, split) = self.parse_opt_dimension()?;
        let size = self.parse_opt_tagged_u32("SIZE", "INSTANCE size")?;
        let group = self.parse_opt_group()?;
        let overwrites = self.parse_overwrites()?;
        self.require_token("INSTANCE", "END")?;
        Ok(
            InstanceDefinition {
                name,
                a2l_name,
                structure_name,
                address,
                dimension,
                split,
                size,
                group,
                overwrites,
            },
        )
    }

    /// Reads the rest of a SUB_STRUCTURE definition.
    pub fn parse_sub_structure(&mut self) -> (r: Result<Definition, String>)
        requires
            old(self).wf(),
        ensures
            final(self).toks() == old(self).toks(),
            final(self).wf(),
            old(self).pos() <= final(self).pos(),
            (res_view(r), final(self).pos()) == sp_sub_structure(old(self).toks(), old(self).pos()),
    {
        proof {
            reveal(sp_sub_structure);
        }
        self.require_token("SUB_STRUCTURE", "=")?;
        let name = self.get_identifier("SUB_STRUCTURE")?;
        let a2l_name = self.parse_structure_a2l_name();
        let a2l_name = match a2l_name {
            Some(n) => n,
            None => name.clone(),
        };
        self.require_token("SYMBOL", "STRUCTURE")?;
        let structure = self.parse_identifier_list("SUB_STRUCTURE structure")?;
        let data_type_struct = if self.check_next_token("DATA_TYPE") {
            self.require_token("SUB_STRUCTURE", "DATA_TYPE")?;
            self.require_token("SUB_STRUCTURE", "=")?;
            self.require_token("SUB_STRUCTURE", "STRUCTURE")?;
            let struct_name = self.get_identifier("SUB_STRUCTURE")?;
            Some(struct_name)
        } else {
            None
        };
        let attributes = self.parse_struct_attributes()?;
        self.require_token("SUB_STRUCTURE", "END")?;
        let structure_cfg = SubStructureCfg { data_type_struct, attributes };
        Ok(
            Definition::Element(
                ElementDefinition {
                    symbol_name: name,
                    a2l_name,
                    structure,
                    config: ItemConfig::SubStructure(structure_cfg),
                },
            ),
        )
    }

    /// Reads an optional `VARIANT = name selector_value offset`.
    pub fn parse_opt_variant(&mut self) -> (r: Result<Option<Variant>, String>)
        requires
            old(self).wf(),
        ensures
            final(self).toks() == old(self).toks(),
            final(self).wf(),
            old(self).pos() <= final(self).pos(),
            (res_view(r), final(self).pos()) == sp_opt_variant(old(self).toks(), old(self).pos()),
    {
        if self.check_next_token("VARIANT") {
            self.get_token("")?;
            self.require_token("VARIANT", "=")?;
            let name = self.get_identifier("VARIANT")?;
            let selector_value = self.get_u32_value("VARIANT selector value")?;
            let offset = self.get_u32_value("VARIANT offset")?;
            Ok(Some(Variant { name, selector_value, offset }))
        } else {
            Ok(None)
        }
    }

    /// Reads the rest of a VAR_CRITERION definition.
    pub fn parse_var_criterion(&mut self) -> (r: Result<VarCriterionDefinition, String>)
        requires
            old(self).wf(),
        ensures
            final(self).toks() == old(self).toks(),
            final(self).wf(),
            old(self).pos() <= final(self).pos(),
            (res_view(r), final(self).pos()) == sp_var_criterion(old(self).toks(), old(self).pos()),
    {
        proof {
            reveal(sp_var_criterion);
        }
        self.require_token("VAR_CRITERION", "=")?;
        let name = self.get_identifier("VAR_CRITERION")?;
        let description = self.parse_description("VAR_CRITERION")?;
        self.require_token("VAR_CRITERION", "SELECTOR")?;
        self.require_token("VAR_CRITERION", "=")?;
        let selector_type_token = self.get_token("VAR_CRITERION")?;
        let selector_type = if token_is(selector_type_token, "MEASURE") {
            SelectorType::Measure
        } else if token_is(selector_type_token, "PARAMETER") {
            SelectorType::Parameter
        } else {
            return Err(debug_token_message("Unknown VAR_CRITERION selector type: ", selector_type_token));
        };
        let selector = self.get_identifier("VAR_CRITERION")?;
        let ghost t = self.toks();
        let ghost p0 = self.pos();
        let mut variants: Vec<Variant> = Vec::new();
        assert(variants.deep_view() =~= Seq::<SpecVariant>::empty());
        loop
            invariant
                self.wf(),
                self.toks() == t,
                old(self).pos() <= self.pos(),
                sp_variants_from(t, p0, seq![]) == sp_variants_from(
                    t,
                    self.pos(),
                    variants.deep_view(),
                ),
            decreases t.len() - self.pos(),
        {
            let ghost before = variants.deep_view();
            match self.parse_opt_variant() {
                Ok(Some(variant)) => {
                    variants.push(variant);
                    assert(variants.deep_view() =~= before.push(variant.deep_view()));
                },
                _ => {
                    break;
                },
            }
        }
        self.require_token("VAR_CRITERION", "END")?;
        Ok(VarCriterionDefinition { name, description, selector_type, selector, variants })
    }

    /// Reads the unit, description and `END` of a named conversion.
    fn parse_conversion_tail(&mut self, name: String, config: ConversionConfig) -> (r: Result<
        Definition,
        String,
    >)
        requires
            old(self).wf(),
        ensures
            final(self).toks() == old(self).toks(),
            final(self).wf(),
            old(self).pos() <= final(self).pos(),
            (res_view(r), final(self).pos()) == sp_conversion_tail(old(self).toks(), old(self).pos(), name.deep_view(), config.deep_view()),
    {
        let unit = self.parse_unit("conversion unit")?;
        let description = self.parse_description("conversion description")?;
        self.require_token("CONVERSION", "END")?;
        Ok(Definition::Conversion(ConversionDefinition { name, unit, description, config }))
    }

    /// Reads the rest of a LINEAR conversion definition.
    pub fn parse_linear_conversion(&mut self, name: String) -> (r: Result<Definition, String>)
        requires
            old(self).wf(),
        ensures
            final(self).toks() == old(self).toks(),
            final(self).wf(),
            old(self).pos() <= final(self).pos(),
            (res_view(r), final(self).pos()) == sp_linear_conversion(old(self).toks(), old(self).pos(), name.deep_view()),
    {
        let factor = self.get_float_value("linear conversion factor")?;
        let offset = self.get_float_value("linear conversion offset")?;
        self.parse_conversion_tail(name, ConversionConfig::Linear(LinearCfg { factor, offset }))
    }

    /// Reads the rest of a FORMULA conversion definition.
    pub fn parse_formula_conversion(&mut self, name: String) -> (r: Result<Definition, String>)
        requires
            old(self).wf(),
        ensures
            final(self).toks() == old(self).toks(),
            final(self).wf(),
            old(self).pos() <= final(self).pos(),
            (res_view(r), final(self).pos()) == sp_formula_conversion(old(self).toks(), old(self).pos(), name.deep_view()),
    {
        let formula = self.get_string("FORMULA")?;
        let inverse_formula = if self.check_next_token("INVERSE") {
            let _ = self.get_token("FORMULA");
            let inverse_formula = self.get_string("FORMULA conversion inverse formula")?;
            Some(inverse_formula)
        } else {
            None
        };
        self.parse_conversion_tail(
            name,
            ConversionConfig::Formula(FormulaCfg { formula, inverse_formula }),
        )
    }

    /// Reads the rest of a TABLE conversion definition.
    pub fn parse_table_conversion(&mut self, name: String) -> (r: Result<Definition, String>)
        requires
            old(self).wf(),
        ensures
            final(self).toks() == old(self).toks(),
            final(self).wf(),
            old(self).pos() <= final(self).pos(),
            (res_view(r), final(self).pos()) == sp_table_conversion(old(self).toks(), old(self).pos(), name.deep_view()),
    {
        let (rows, default_value) = self.parse_conversion_table()?;
        self.parse_conversion_tail(name, ConversionConfig::Table(TableCfg { rows, default_value }))
    }

    /// Reads the rest of a CONVERSION definition.
    pub fn parse_conversion(&mut self) -> (r: Result<Definition, String>)
        requires
            old(self).wf(),
        ensures
            final(self).toks() == old(self).toks(),
            final(self).wf(),
            old(self).pos() <= final(self).pos(),
            (res_view(r), final(self).pos()) == sp_conversion(old(self).toks(), old(self).pos()),
    {
        proof {
            reveal(sp_conversion);
        }
        self.require_token("CONVERSION", "=")?;
        let name = self.get_identifier("CONVERSION")?;
        self.require_token("CONVERSION", "A2L_TYPE")?;
        self.require_token("CONVERSION", "=")?;
        let a2l_type_tok = self.get_token("CONVERSION")?;
        if token_is(a2l_type_tok, "LINEAR") {
            self.parse_linear_conversion(name)
        } else if token_is(a2l_type_tok, "FORMULA") {
            self.parse_formula_conversion(name)
        } else if token_is(a2l_type_tok, "TABLE") {
            self.parse_table_conversion(name)
        } else {
            Err(debug_token_message("Expected A2L_TYPE after CONVERSION keyword, found: ", a2l_type_tok))
        }
    }

    /// Reads a whole definition; `Ok(None)` when its keyword is unknown.
    pub fn run(&mut self) -> (r: Result<Option<Definition>, String>)
        requires
            old(self).wf(),
        ensures
            final(self).toks() == old(self).toks(),
            final(self).wf(),
            old(self).pos() <= final(self).pos(),
            (res_view(r), final(self).pos()) == sp_run(old(self).toks(), old(self).pos()),
    {
        let cmd_type_token = self.get_token("Definition")?;
        if token_is(cmd_type_token, "SYMBOL") {
            Ok(Some(self.parse_symbol()?))
        } else if token_is(cmd_type_token, "SUB_GROUP") {
            Ok(Some(Definition::SubGroup(self.parse_sub_group()?)))
        } else if token_is(cmd_type_token, "MAIN_GROUP") {
            Ok(Some(Definition::MainGroup(self.parse_main_group()?)))
        } else if token_is(cmd_type_token, "CONVERSION") {
            Ok(Some(self.parse_conversion()?))
        } else if token_is(cmd_type_token, "ELEMENT") {
            Ok(Some(self.parse_element()?))
        } else if token_is(cmd_type_token, "INSTANCE") {
            Ok(Some(Definition::Instance(self.parse_instance()?)))
        } else if token_is(cmd_type_token, "SUB_STRUCTURE") {
            Ok(Some(self.parse_sub_structure()?))
        } else if token_is(cmd_type_token, "VAR_CRITERION") {
            Ok(Some(Definition::VarCriterion(self.parse_var_criterion()?)))
        } else {
            Ok(None)
        }
    }
}

/// Whether tokens are acceptable to the parser (see `tokens_ok`): none is
/// empty and none is a lone double quote.
pub fn tokens_acceptable(tokens: &[Vec<u8>]) -> (r: bool)
    ensures
        r == tokens_ok(tokens.deep_view()),
{
    let mut i: usize = 0;
    while i < tokens.len()
        invariant
            i <= tokens@.len(),
            forall|j: int|
                0 <= j < i ==> (#[trigger] tokens.deep_view()[j]).len() > 0 && tokens.deep_view()[j]
                    != seq![BYTE_QUOTE],
        decreases tokens@.len() - i,
    {
        let tok = tokens[i].as_slice();
        assert(tok@ == tokens.deep_view()[i as int]);
        if tok.len() == 0 {
            return false;
        }
        if tok.len() == 1 && tok[0] == BYTE_QUOTE {
            assert(tok@ =~= seq![BYTE_QUOTE]);
            return false;
        }
        proof {
            if tok@ == seq![BYTE_QUOTE] {
                assert(tok@.len() == 1);
            }
        }
        i += 1;
    }
    true
}

/// Parses the tokens of one definition comment. `Ok(None)` when the first
/// token names no known definition.
pub fn parse_definition(tokens: &[Vec<u8>]) -> (r: Result<Option<Definition>, String>)
    requires
        tokens_ok(tokens.deep_view()),
    ensures
        res_view(r) == parsed_definition(tokens.deep_view()),
{
    let mut parser = Parser::new(tokens);
    parser.run()
}

} // verus!
