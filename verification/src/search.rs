//! Selecting items by name with regular expressions, and by address ranges.

use vstd::prelude::*;

verus! {

#[verifier::external_type_specification]
#[verifier::external_body]
pub struct ExRegex(regex::Regex);

#[verifier::external_type_specification]
#[verifier::external_body]
pub struct ExRegexError(regex::Error);

/// Whether `regex::Regex::new` accepts a pattern (it is valid, and the
/// compiled program stays within the default size limit).
pub uninterp spec fn regex_compiles(pattern: Seq<char>) -> bool;

/// Whether the regular expression of a pattern matches anywhere in a text.
pub uninterp spec fn regex_is_match(pattern: Seq<char>, haystack: Seq<char>) -> bool;

/// `regex::Regex::new`: compiles a pattern; the result is `Ok` exactly for
/// the patterns that `regex_compiles` names.
#[verifier::external_body]
fn regex_new(pattern: &str) -> (r: Result<regex::Regex, regex::Error>)
    ensures
        r is Ok <==> regex_compiles(pattern@),
{
    regex::Regex::new(pattern)
}

/// A compiled regular expression together with its pattern.
pub struct CompiledRegex {
    pattern: String,
    re: regex::Regex,
}

impl View for CompiledRegex {
    type V = Seq<char>;

    /// The pattern the expression was compiled from.
    closed spec fn view(&self) -> Seq<char> {
        self.pattern@
    }
}

/// A pattern that is no valid regular expression.
#[derive(Debug)]
pub struct RegexError {
    pub pattern: String,
}

/// `regex::Regex::is_match`: whether the expression matches anywhere in the
/// text, as `regex_is_match` names it for the pattern it was compiled from.
#[verifier::external_body]
fn regex_matches(re: &CompiledRegex, haystack: &str) -> (r: bool)
    ensures
        r == regex_is_match(re@, haystack@),
{
    re.re.is_match(haystack)
}

impl CompiledRegex {
    /// Compiles a pattern.
    pub fn new(pattern: &str) -> (r: Result<CompiledRegex, RegexError>)
        ensures
            match r {
                Ok(c) => regex_compiles(pattern@) && c@ == pattern@,
                Err(e) => !regex_compiles(pattern@) && e.pattern@ == pattern@,
            },
    {
        match regex_new(pattern) {
            Ok(re) => Ok(CompiledRegex { pattern: pattern.to_string(), re }),
            Err(_) => Err(RegexError { pattern: pattern.to_string() }),
        }
    }

    /// Whether the expression matches anywhere in a text.
    pub fn is_match(&self, haystack: &str) -> (r: bool)
        ensures
            r == regex_is_match(self@, haystack@),
    {
        regex_matches(self, haystack)
    }
}

/// A pattern made to match whole names: `^pattern$`, unless the pattern
/// starts with `^` or ends with `$` already.
pub open spec fn whole_name_pattern(re: Seq<char>) -> Seq<char> {
    if !(re.len() > 0 && re[0] == '^') && !(re.len() > 0 && re.last() == '$') {
        "^"@ + re + "$"@
    } else {
        re
    }
}

/// The pattern that matches whole names (see `whole_name_pattern`).
pub fn extend_to_whole_name(re: &str) -> (r: String)
    ensures
        r@ == whole_name_pattern(re@),
{
    let n = re.unicode_len();
    let starts = n > 0 && re.get_char(0) == '^';
    let ends = n > 0 && re.get_char(n - 1) == '$';
    if !starts && !ends {
        let mut out = String::from_str("^");
        out.append(re);
        out.append("$");
        out
    } else {
        re.to_string()
    }
}

/// Whether some pattern of a list matches a name.
pub open spec fn any_match(patterns: Seq<Seq<char>>, name: Seq<char>) -> bool {
    exists|i: int| 0 <= i < patterns.len() && regex_is_match(#[trigger] patterns[i], name)
}

/// The indices of the names that some pattern matches, in order.
pub open spec fn matching_indices(names: Seq<String>, patterns: Seq<Seq<char>>) -> Seq<usize>
    decreases names.len(),
{
    if names.len() == 0 {
        seq![]
    } else {
        let before = matching_indices(names.drop_last(), patterns);
        if any_match(patterns, names.last()@) {
            before.push((names.len() - 1) as usize)
        } else {
            before
        }
    }
}

fn matches_any(regexes: &[CompiledRegex], name: &str) -> (r: bool)
    ensures
        r == exists|i: int| 0 <= i < regexes@.len() && regex_is_match(#[trigger] regexes@[i]@, name@),
{
    let mut i: usize = 0;
    while i < regexes.len()
        invariant
            i <= regexes@.len(),
            forall|j: int| 0 <= j < i ==> !regex_is_match(#[trigger] regexes@[j]@, name@),
        decreases regexes@.len() - i,
    {
        if regexes[i].is_match(name) {
            return true;
        }
        i += 1;
    }
    false
}

/// The indices of the names (of the characteristics, measurements or record
/// layouts of a module) that some of the patterns matches as a whole; each
/// pattern must compile once extended to whole names.
pub fn search_names(names: &[String], regex_strings: &[&str]) -> (r: Vec<usize>)
    requires
        forall|i: int| 0 <= i < regex_strings@.len() ==> regex_compiles(
            whole_name_pattern(#[trigger] regex_strings@[i]@),
        ),
    ensures
        r@ == matching_indices(
            names@,
            Seq::new(regex_strings@.len(), |i: int| whole_name_pattern(regex_strings@[i]@)),
        ),
{
    let ghost patterns = Seq::new(regex_strings@.len(), |i: int| whole_name_pattern(regex_strings@[i]@));
    let mut compiled: Vec<CompiledRegex> = Vec::new();
    let mut k: usize = 0;
    while k < regex_strings.len()
        invariant
            k <= regex_strings@.len(),
            compiled@.len() == k,
            patterns == Seq::new(regex_strings@.len(), |i: int| whole_name_pattern(regex_strings@[i]@)),
            forall|i: int| 0 <= i < regex_strings@.len() ==> regex_compiles(
                whole_name_pattern(#[trigger] regex_strings@[i]@),
            ),
            forall|i: int| 0 <= i < k ==> #[trigger] compiled@[i]@ == patterns[i],
        decreases regex_strings@.len() - k,
    {
        let extended = extend_to_whole_name(regex_strings[k]);
        match CompiledRegex::new(extended.as_str()) {
            Ok(c) => compiled.push(c),
            Err(_) => {
                assert(regex_compiles(whole_name_pattern(regex_strings@[k as int]@)));
                return Vec::new();
            },
        }
        k += 1;
    }
    let mut found: Vec<usize> = Vec::new();
    let mut i: usize = 0;
    while i < names.len()
        invariant
            i <= names@.len(),
            compiled@.len() == patterns.len(),
            forall|j: int| 0 <= j < compiled@.len() ==> #[trigger] compiled@[j]@ == patterns[j],
            found@ == matching_indices(names@.subrange(0, i as int), patterns),
        decreases names@.len() - i,
    {
        let m = matches_any(compiled.as_slice(), names[i].as_str());
        proof {
            let sub = names@.subrange(0, i + 1);
            assert(sub.drop_last() =~= names@.subrange(0, i as int));
            assert(sub.last() == names@[i as int]);
            if m {
                let j = choose|j: int| 0 <= j < compiled@.len() && regex_is_match(#[trigger] compiled@[j]@, names@[i as int]@);
                assert(regex_is_match(patterns[j], names@[i as int]@));
            } else {
                assert forall|j: int| 0 <= j < patterns.len() implies !regex_is_match(#[trigger] patterns[j], names@[i as int]@) by {
                    assert(compiled@[j]@ == patterns[j]);
                }
            }
        }
        if m {
            found.push(i);
        }
        i += 1;
    }
    assert(names@.subrange(0, names@.len() as int) =~= names@);
    found
}

/// Like `search_names`, but an error names the first pattern that does not
/// compile once extended to whole names.
pub fn try_search_names(names: &[String], regex_strings: &[&str]) -> (r: Result<Vec<usize>, RegexError>)
    ensures
        match r {
            Ok(v) => (forall|i: int| 0 <= i < regex_strings@.len() ==> regex_compiles(
                whole_name_pattern(#[trigger] regex_strings@[i]@),
            )) && v@ == matching_indices(
                names@,
                Seq::new(regex_strings@.len(), |i: int| whole_name_pattern(regex_strings@[i]@)),
            ),
            Err(e) => exists|i: int| 0 <= i < regex_strings@.len() && !regex_compiles(
                #[trigger] whole_name_pattern(regex_strings@[i]@),
            ) && e.pattern@ == whole_name_pattern(regex_strings@[i]@),
        },
{
    let mut k: usize = 0;
    while k < regex_strings.len()
        invariant
            k <= regex_strings@.len(),
            forall|i: int| 0 <= i < k ==> regex_compiles(whole_name_pattern(#[trigger] regex_strings@[i]@)),
        decreases regex_strings@.len() - k,
    {
        let extended = extend_to_whole_name(regex_strings[k]);
        if let Err(e) = CompiledRegex::new(extended.as_str()) {
            assert(!regex_compiles(whole_name_pattern(regex_strings@[k as int]@)));
            return Err(e);
        }
        k += 1;
    }
    Ok(search_names(names, regex_strings))
}

/// Compiles each pattern extended to whole names (see `whole_name_pattern`),
/// in order; an error names the first pattern that does not compile.
pub fn compile_whole_name_regexes(regex_strings: &[&str]) -> (r: Result<Vec<CompiledRegex>, RegexError>)
    ensures
        match r {
            Ok(v) => v@.len() == regex_strings@.len() && forall|i: int| 0 <= i < v@.len() ==> (#[trigger] v@[i])@
                == whole_name_pattern(regex_strings@[i]@),
            Err(e) => exists|i: int| 0 <= i < regex_strings@.len() && !regex_compiles(
                #[trigger] whole_name_pattern(regex_strings@[i]@),
            ) && e.pattern@ == whole_name_pattern(regex_strings@[i]@),
        },
{
    let mut compiled: Vec<CompiledRegex> = Vec::new();
    let mut k: usize = 0;
    while k < regex_strings.len()
        invariant
            k <= regex_strings@.len(),
            compiled@.len() == k,
            forall|i: int| 0 <= i < k ==> (#[trigger] compiled@[i])@ == whole_name_pattern(regex_strings@[i]@),
        decreases regex_strings@.len() - k,
    {
        let extended = extend_to_whole_name(regex_strings[k]);
        match CompiledRegex::new(extended.as_str()) {
            Ok(c) => compiled.push(c),
            Err(e) => {
                assert(!regex_compiles(whole_name_pattern(regex_strings@[k as int]@)));
                return Err(e);
            },
        }
        k += 1;
    }
    Ok(compiled)
}

/// Whether an item is to be inserted: its address lies in one of the
/// ranges (start included, end excluded), or one of the expressions matches
/// its symbol name.
pub open spec fn insert_requested(
    address: u64,
    symbol_name: Seq<char>,
    addr_ranges: Seq<(u64, u64)>,
    name_regexes: Seq<CompiledRegex>,
) -> bool {
    ||| exists|k: int| 0 <= k < addr_ranges.len() && (#[trigger] addr_ranges[k]).0 <= address < addr_ranges[k].1
    ||| exists|i: int| 0 <= i < name_regexes.len() && regex_is_match(#[trigger] name_regexes[i]@, symbol_name)
}

/// Whether an item is to be inserted (see `insert_requested`).
pub fn is_insert_requested(
    address: u64,
    symbol_name: &str,
    addr_ranges: &[(u64, u64)],
    name_regexes: &[CompiledRegex],
) -> (r: bool)
    ensures
        r == insert_requested(address, symbol_name@, addr_ranges@, name_regexes@),
{
    let mut k: usize = 0;
    while k < addr_ranges.len()
        invariant
            k <= addr_ranges@.len(),
            forall|j: int| 0 <= j < k ==> !((#[trigger] addr_ranges@[j]).0 <= address < addr_ranges@[j].1),
        decreases addr_ranges@.len() - k,
    {
        let (lower, upper) = addr_ranges[k];
        if lower <= address && address < upper {
            return true;
        }
        k += 1;
    }
    matches_any(name_regexes, symbol_name)
}

} // verus!
