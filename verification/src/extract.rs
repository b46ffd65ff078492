//! Finding the feature declarations in the upstream definition text.
//!
//! A declaration is a named block that declares an identifier:
//!
//! ```text
//! mod <name> { ... declare_id("<identifier>"); ... }
//! ```
//!
//! `mod` stands at the start of a word; white space and the name follow,
//! then, after optional white space, the opening brace. Between the brace
//! and the call anything may stand but another brace. The call is
//! `declare_id`, at the start of a word and with or without `!`; its
//! argument is one string of letters and digits.

use vstd::prelude::*;
use crate::classify::{NamedIdentifier, NamedIdentifierView};
use crate::identifier::{pubkey_from_text, FeatureId, IdError};

verus! {

/// Where the definition text of a version is published.
pub open spec fn spec_definition_url(version: Seq<char>) -> Seq<char> {
    "https://raw.githubusercontent.com/anza-xyz/agave/refs/tags/v"@ + version
        + "/sdk/src/feature_set.rs"@
}

/// Writes the address at which the definition text of a version is
/// published.
pub fn definition_url(agave_version: &str) -> (url: String)
    ensures
        url@ == spec_definition_url(agave_version@),
{
    let mut url = String::from_str("https://raw.githubusercontent.com/anza-xyz/agave/refs/tags/v");
    url.append(agave_version);
    url.append("/sdk/src/feature_set.rs");
    url
}

/// The classes of characters that the pattern speaks of.
#[derive(Clone, Copy, Debug, PartialEq, Eq, Structural)]
pub enum CharClass {
    /// White space: blank, tab, line feed, vertical tab, form feed,
    /// carriage return, and the white space of Unicode beyond ASCII.
    Space,
    /// The letters `a` to `z` and `A` to `Z`, the digits and the underscore.
    Word,
    /// The letters `a` to `z` and `A` to `Z` and the digits.
    AlphaNumeric,
}

/// Whether `c` is white space: one of the characters U+0009 to U+000D,
/// U+0020, U+0085, U+00A0, U+1680, U+2000 to U+200A, U+2028, U+2029,
/// U+202F, U+205F and U+3000.
pub open spec fn is_white_space(c: char) -> bool {
    let n = c as u32;
    ||| 0x9 <= n <= 0xd
    ||| n == 0x20
    ||| n == 0x85
    ||| n == 0xa0
    ||| n == 0x1680
    ||| 0x2000 <= n <= 0x200a
    ||| n == 0x2028
    ||| n == 0x2029
    ||| n == 0x202f
    ||| n == 0x205f
    ||| n == 0x3000
}

/// Whether `c` is one of the letters `a` to `z` and `A` to `Z` or a digit.
pub open spec fn is_alphanumeric(c: char) -> bool {
    ||| 'a' as u32 <= c as u32 <= 'z' as u32
    ||| 'A' as u32 <= c as u32 <= 'Z' as u32
    ||| '0' as u32 <= c as u32 <= '9' as u32
}

impl CharClass {
    /// Whether `c` belongs to the class.
    pub open spec fn holds(self, c: char) -> bool {
        match self {
            CharClass::Space => is_white_space(c),
            CharClass::Word => is_alphanumeric(c) || c == '_',
            CharClass::AlphaNumeric => is_alphanumeric(c),
        }
    }

    /// Whether `c` belongs to the class.
    pub fn contains(self, c: char) -> (r: bool)
        ensures
            r == self.holds(c),
    {
        let n = c as u32;
        let alphanumeric = ('a' as u32 <= n && n <= 'z' as u32) || ('A' as u32 <= n && n
            <= 'Z' as u32) || ('0' as u32 <= n && n <= '9' as u32);
        match self {
            CharClass::Space => (0x9 <= n && n <= 0xd) || n == 0x20 || n == 0x85 || n == 0xa0 || n
                == 0x1680 || (0x2000 <= n && n <= 0x200a) || n == 0x2028 || n == 0x2029 || n
                == 0x202f || n == 0x205f || n == 0x3000,
            CharClass::Word => alphanumeric || c == '_',
            CharClass::AlphaNumeric => alphanumeric,
        }
    }
}

/// Where the longest run of characters of `class` that starts at `i` ends.
pub open spec fn run_end(s: Seq<char>, i: int, class: CharClass) -> int
    decreases s.len() - i,
{
    if 0 <= i < s.len() && class.holds(s[i]) {
        run_end(s, i + 1, class)
    } else {
        i
    }
}

/// Whether `literal` stands in `s` at `i`.
pub open spec fn literal_at(s: Seq<char>, i: int, literal: Seq<char>) -> bool {
    &&& 0 <= i
    &&& i + literal.len() <= s.len()
    &&& forall|k: int| 0 <= k < literal.len() ==> s[i + k] == #[trigger] literal[k]
}

/// Whether a word could start at `i`: no character of a word stands before.
pub open spec fn word_start(s: Seq<char>, i: int) -> bool {
    i <= 0 || i > s.len() || !CharClass::Word.holds(s[i - 1])
}

/// Where the parts of one declaration stand in the text. Each part runs
/// from its start up to, not including, its end.
pub ghost struct Declaration {
    pub name_start: int,
    pub name_end: int,
    pub id_start: int,
    pub id_end: int,
    pub end: int,
}

/// The identifier of a call `declare_id("...");` that starts at `j`: where
/// its text starts and ends.
pub open spec fn call_at(s: Seq<char>, j: int) -> Option<(int, int)> {
    let bang = j + "declare_id"@.len();
    let open = if literal_at(s, bang, "!"@) {
        bang + "!"@.len()
    } else {
        bang
    };
    let id_start = open + "(\""@.len();
    let id_end = run_end(s, id_start, CharClass::AlphaNumeric);
    if word_start(s, j) && literal_at(s, j, "declare_id"@) && literal_at(s, open, "(\""@)
        && id_start < id_end && literal_at(s, id_end, "\");"@) {
        Some((id_start, id_end))
    } else {
        None
    }
}

/// The first call at or after `j` that no brace stands before.
pub open spec fn first_call(s: Seq<char>, j: int) -> Option<(int, int)>
    decreases s.len() - j,
{
    if j < 0 || j >= s.len() {
        None
    } else if call_at(s, j) is Some {
        call_at(s, j)
    } else if s[j] == '{' || s[j] == '}' {
        None
    } else {
        first_call(s, j + 1)
    }
}

/// The declaration that starts at `i`, if one does.
pub open spec fn declaration_at(s: Seq<char>, i: int) -> Option<Declaration> {
    let gap = i + "mod"@.len();
    let name_start = run_end(s, gap, CharClass::Space);
    let name_end = run_end(s, name_start, CharClass::Word);
    let brace = run_end(s, name_end, CharClass::Space);
    if word_start(s, i) && literal_at(s, i, "mod"@) && gap < name_start && name_start < name_end
        && literal_at(s, brace, "{"@) {
        match first_call(s, brace + "{"@.len()) {
            Some((id_start, id_end)) => Some(
                Declaration {
                    name_start,
                    name_end,
                    id_start,
                    id_end,
                    end: id_end + "\");"@.len(),
                },
            ),
            None => None,
        }
    } else {
        None
    }
}

/// A run of a class ends within the text, at or after its start.
pub proof fn lemma_run_end_bounds(s: Seq<char>, i: int, class: CharClass)
    requires
        0 <= i <= s.len(),
    ensures
        i <= run_end(s, i, class) <= s.len(),
        forall|k: int| i <= k < run_end(s, i, class) ==> class.holds(#[trigger] s[k]),
        run_end(s, i, class) < s.len() ==> !class.holds(s[run_end(s, i, class)]),
    decreases s.len() - i,
{
    if i < s.len() && class.holds(s[i]) {
        lemma_run_end_bounds(s, i + 1, class);
    }
}

/// A run that starts at `i` and holds all of `i..j` ends where the run
/// that starts at `j` ends.
proof fn lemma_run_extends(s: Seq<char>, i: int, j: int, class: CharClass)
    requires
        0 <= i <= j <= s.len(),
        forall|k: int| i <= k < j ==> class.holds(#[trigger] s[k]),
    ensures
        run_end(s, i, class) == run_end(s, j, class),
    decreases j - i,
{
    if i < j {
        lemma_run_extends(s, i + 1, j, class);
    }
}

/// A call lies within the text, and its identifier after its start.
pub proof fn lemma_call_extent(s: Seq<char>, j: int)
    ensures
        call_at(s, j) matches Some((id_start, id_end)) ==> 0 <= j < id_start < id_end && id_end
            + "\");"@.len() <= s.len(),
{
    reveal_strlit("declare_id");
    reveal_strlit("!");
    reveal_strlit("(\"");
    reveal_strlit("\");");
}

/// The first call from `j` on lies within the text, after `j`.
pub proof fn lemma_first_call_extent(s: Seq<char>, j: int)
    ensures
        first_call(s, j) matches Some((id_start, id_end)) ==> 0 <= j < id_start < id_end && id_end
            + "\");"@.len() <= s.len(),
    decreases s.len() - j,
{
    if 0 <= j < s.len() {
        lemma_call_extent(s, j);
        if call_at(s, j) is None && s[j] != '{' && s[j] != '}' {
            lemma_first_call_extent(s, j + 1);
        }
    }
}

/// The parts of a declaration follow one another within the text.
pub proof fn lemma_declaration_extent(s: Seq<char>, i: int)
    ensures
        declaration_at(s, i) matches Some(d) ==> 0 <= i < d.name_start < d.name_end < d.id_start
            < d.id_end < d.end <= s.len(),
{
    reveal_strlit("mod");
    reveal_strlit("{");
    reveal_strlit("\");");
    if declaration_at(s, i) is Some {
        let gap = i + 3;
        let name_start = run_end(s, gap, CharClass::Space);
        lemma_run_end_bounds(s, gap, CharClass::Space);
        let name_end = run_end(s, name_start, CharClass::Word);
        lemma_run_end_bounds(s, name_start, CharClass::Word);
        let brace = run_end(s, name_end, CharClass::Space);
        lemma_run_end_bounds(s, name_end, CharClass::Space);
        lemma_first_call_extent(s, brace + 1);
    }
}

/// The declarations of the text from `i` on: the leftmost first, each next
/// one sought after the end of the one before.
pub open spec fn declarations_from(s: Seq<char>, i: int) -> Seq<Declaration>
    decreases s.len() - i,
{
    if i < 0 || i >= s.len() {
        Seq::empty()
    } else {
        match declaration_at(s, i) {
            Some(d) => {
                proof {
                    lemma_declaration_extent(s, i);
                }
                seq![d].add(declarations_from(s, d.end))
            },
            None => declarations_from(s, i + 1),
        }
    }
}

/// Whether the parts of `d` lie in `s` from `from` on, one after another,
/// the name made of characters of words and the identifier of letters and
/// digits.
pub open spec fn well_placed(s: Seq<char>, d: Declaration, from: int) -> bool {
    &&& from <= d.name_start < d.name_end < d.id_start < d.id_end < d.end <= s.len()
    &&& forall|p: int| d.name_start <= p < d.name_end ==> CharClass::Word.holds(#[trigger] s[p])
    &&& forall|p: int| d.id_start <= p < d.id_end ==> CharClass::AlphaNumeric.holds(#[trigger] s[p])
}

/// A declaration that starts at `i` is well placed from `i` on.
proof fn lemma_declaration_placed(s: Seq<char>, i: int)
    ensures
        declaration_at(s, i) matches Some(d) ==> well_placed(s, d, i),
{
    lemma_declaration_extent(s, i);
    if declaration_at(s, i) is Some {
        reveal_strlit("mod");
        let d = declaration_at(s, i).unwrap();
        lemma_run_end_bounds(s, i + "mod"@.len(), CharClass::Space);
        lemma_run_end_bounds(s, d.name_start, CharClass::Word);
        lemma_run_end_bounds(s, d.id_start, CharClass::AlphaNumeric);
        lemma_first_call_run(s, run_end(s, d.name_end, CharClass::Space) + "{"@.len());
    }
}

/// The identifier of the first call from `j` on is the longest run of
/// letters and digits from its start.
proof fn lemma_first_call_run(s: Seq<char>, j: int)
    ensures
        first_call(s, j) matches Some((id_start, id_end)) ==> id_end == run_end(
            s,
            id_start,
            CharClass::AlphaNumeric,
        ),
    decreases s.len() - j,
{
    if 0 <= j < s.len() {
        if call_at(s, j) is None && s[j] != '{' && s[j] != '}' {
            lemma_first_call_run(s, j + 1);
        }
    }
}

/// The declarations of a text stand in it in the order in which they are
/// listed: each is well placed, and each begins where the one before it
/// has ended, or later.
pub proof fn lemma_declarations_in_order(s: Seq<char>, i: int)
    requires
        0 <= i,
    ensures
        forall|k: int|
            0 <= k < declarations_from(s, i).len() ==> well_placed(
                s,
                #[trigger] declarations_from(s, i)[k],
                i,
            ),
        forall|j: int, k: int|
            0 <= j < k < declarations_from(s, i).len() ==> (#[trigger] declarations_from(
                s,
                i,
            )[j]).end <= (#[trigger] declarations_from(s, i)[k]).name_start,
    decreases s.len() - i,
{
    if i < s.len() {
        lemma_declaration_placed(s, i);
        match declaration_at(s, i) {
            Some(d) => {
                lemma_declarations_in_order(s, d.end);
                let rest = declarations_from(s, d.end);
                let all = declarations_from(s, i);
                assert(all == seq![d].add(rest));
                assert forall|k: int| 0 <= k < all.len() implies well_placed(
                    s,
                    #[trigger] all[k],
                    i,
                ) by {
                    if k > 0 {
                        assert(all[k] == rest[k - 1]);
                        assert(well_placed(s, rest[k - 1], d.end));
                    }
                }
                assert forall|j: int, k: int| 0 <= j < k < all.len() implies (#[trigger] all[j]).end
                    <= (#[trigger] all[k]).name_start by {
                    assert(all[k] == rest[k - 1]);
                    assert(well_placed(s, rest[k - 1], d.end));
                    if j > 0 {
                        assert(all[j] == rest[j - 1]);
                    }
                }
            },
            None => {
                lemma_declarations_in_order(s, i + 1);
                let rest = declarations_from(s, i + 1);
                assert forall|k: int| 0 <= k < rest.len() implies well_placed(
                    s,
                    #[trigger] rest[k],
                    i,
                ) by {
                    assert(well_placed(s, rest[k], i + 1));
                }
            },
        }
    }
}

/// The name and the identifier text of a declaration.
pub open spec fn texts_of(s: Seq<char>, d: Declaration) -> (Seq<char>, Seq<char>) {
    (s.subrange(d.name_start, d.name_end), s.subrange(d.id_start, d.id_end))
}

/// The names and identifier texts that a text declares, in order.
pub open spec fn declared_pairs(s: Seq<char>) -> Seq<(Seq<char>, Seq<char>)> {
    declarations_from(s, 0).map_values(|d: Declaration| texts_of(s, d))
}

/// Where one declaration stands in the characters of a text.
#[derive(Clone, Copy, Debug)]
pub struct Span {
    pub name_start: usize,
    pub name_end: usize,
    pub id_start: usize,
    pub id_end: usize,
    pub end: usize,
}

impl View for Span {
    type V = Declaration;

    open spec fn view(&self) -> Declaration {
        Declaration {
            name_start: self.name_start as int,
            name_end: self.name_end as int,
            id_start: self.id_start as int,
            id_end: self.id_end as int,
            end: self.end as int,
        }
    }
}

/// Runs over the characters of `class` from `i` on.
fn scan_run(chars: &Vec<char>, i: usize, class: CharClass) -> (e: usize)
    requires
        i <= chars@.len(),
    ensures
        e == run_end(chars@, i as int, class),
        i <= e <= chars@.len(),
{
    let n = chars.len();
    let mut e = i;
    while e < n && class.contains(chars[e])
        invariant
            i <= e <= n,
            n == chars@.len(),
            forall|k: int| i <= k < e ==> class.holds(#[trigger] chars@[k]),
        decreases n - e,
    {
        e += 1;
    }
    proof {
        lemma_run_extends(chars@, i as int, e as int, class);
    }
    e
}

/// Tests whether `literal` stands at `i`.
fn has_literal(chars: &Vec<char>, i: usize, literal: &str) -> (r: bool)
    requires
        i <= chars@.len(),
    ensures
        r == literal_at(chars@, i as int, literal@),
{
    let n = chars.len();
    let m = literal.unicode_len();
    if m > n - i {
        return false;
    }
    let mut k: usize = 0;
    while k < m
        invariant
            k <= m,
            m == literal@.len(),
            n == chars@.len(),
            i + m <= n,
            forall|t: int| 0 <= t < k ==> chars@[i + t] == #[trigger] literal@[t],
        decreases m - k,
    {
        if chars[i + k] != literal.get_char(k) {
            return false;
        }
        k += 1;
    }
    true
}

/// Tests whether a word could start at `i`.
fn at_word_start(chars: &Vec<char>, i: usize) -> (r: bool)
    requires
        i <= chars@.len(),
    ensures
        r == word_start(chars@, i as int),
{
    i == 0 || !CharClass::Word.contains(chars[i - 1])
}

/// Reads the call that starts at `j`, if one does.
fn scan_call(chars: &Vec<char>, j: usize) -> (r: Option<(usize, usize)>)
    requires
        j <= chars@.len(),
    ensures
        match r {
            Some((a, b)) => call_at(chars@, j as int) == Some((a as int, b as int)),
            None => call_at(chars@, j as int) is None,
        },
{
    proof {
        reveal_strlit("declare_id");
        reveal_strlit("!");
        reveal_strlit("(\"");
        reveal_strlit("\");");
    }
    if !at_word_start(chars, j) || !has_literal(chars, j, "declare_id") {
        return None;
    }
    let n = chars.len();
    assert(j + 10 <= n);
    let bang = j + 10;
    let open = if has_literal(chars, bang, "!") {
        assert(bang + 1 <= n);
        bang + 1
    } else {
        bang
    };
    if !has_literal(chars, open, "(\"") {
        return None;
    }
    assert(open + 2 <= n);
    let id_start = open + 2;
    let id_end = scan_run(chars, id_start, CharClass::AlphaNumeric);
    if id_start < id_end && has_literal(chars, id_end, "\");") {
        Some((id_start, id_end))
    } else {
        None
    }
}

/// Seeks the first call from `start` on that no brace stands before.
fn scan_first_call(chars: &Vec<char>, start: usize) -> (r: Option<(usize, usize)>)
    requires
        start <= chars@.len(),
    ensures
        match r {
            Some((a, b)) => first_call(chars@, start as int) == Some((a as int, b as int)),
            None => first_call(chars@, start as int) is None,
        },
{
    let n = chars.len();
    let mut j = start;
    while j < n
        invariant
            start <= j <= n,
            n == chars@.len(),
            first_call(chars@, start as int) == first_call(chars@, j as int),
        decreases n - j,
    {
        match scan_call(chars, j) {
            Some(found) => {
                return Some(found);
            },
            None => {},
        }
        if chars[j] == '{' || chars[j] == '}' {
            return None;
        }
        j += 1;
    }
    None
}

/// Reads the declaration that starts at `i`, if one does.
fn scan_declaration(chars: &Vec<char>, i: usize) -> (r: Option<Span>)
    requires
        i <= chars@.len(),
    ensures
        match r {
            Some(span) => declaration_at(chars@, i as int) == Some(span@),
            None => declaration_at(chars@, i as int) is None,
        },
{
    proof {
        reveal_strlit("mod");
        reveal_strlit("{");
        reveal_strlit("\");");
        lemma_declaration_extent(chars@, i as int);
    }
    if !at_word_start(chars, i) || !has_literal(chars, i, "mod") {
        return None;
    }
    let n = chars.len();
    assert(i + 3 <= n);
    let gap = i + 3;
    let name_start = scan_run(chars, gap, CharClass::Space);
    if name_start == gap {
        return None;
    }
    let name_end = scan_run(chars, name_start, CharClass::Word);
    if name_end == name_start {
        return None;
    }
    let brace = scan_run(chars, name_end, CharClass::Space);
    if !has_literal(chars, brace, "{") {
        return None;
    }
    assert(brace + 1 <= n);
    match scan_first_call(chars, brace + 1) {
        Some((id_start, id_end)) => Some(
            Span { name_start, name_end, id_start, id_end, end: id_end + 3 },
        ),
        None => None,
    }
}

/// The characters of a text, in order.
fn chars_of(text: &str) -> (chars: Vec<char>)
    ensures
        chars@ == text@,
{
    let mut chars: Vec<char> = Vec::new();
    for c in it: text.chars()
        invariant
            chars@ == it.seq().take(it.index()),
            it.seq() == text@,
    {
        chars.push(c);
    }
    chars
}

/// The names and identifier texts that a text declares from `i` on.
pub open spec fn pairs_from(s: Seq<char>, i: int) -> Seq<(Seq<char>, Seq<char>)> {
    declarations_from(s, i).map_values(|d: Declaration| texts_of(s, d))
}

/// The views of a list of pairs of texts, in order.
pub open spec fn pairs_view(pairs: Seq<(String, String)>) -> Seq<(Seq<char>, Seq<char>)> {
    pairs.map_values(|p: (String, String)| (p.0@, p.1@))
}

/// Finds the declarations of a text: for each, in the order of the text,
/// its name and the text of its identifier. A text that declares nothing
/// gives the empty list.
pub fn declarations(text: &str) -> (pairs: Vec<(String, String)>)
    ensures
        pairs_view(pairs@) == declared_pairs(text@),
{
    let chars = chars_of(text);
    let ghost s = text@;
    let n = chars.len();
    let mut pairs: Vec<(String, String)> = Vec::new();
    let mut i: usize = 0;
    assert(pairs_view(pairs@) + pairs_from(s, 0) =~= pairs_from(s, 0));
    while i < n
        invariant
            i <= n,
            n == s.len(),
            chars@ == s,
            text@ == s,
            pairs_view(pairs@) + pairs_from(s, i as int) == pairs_from(s, 0),
        decreases n - i,
    {
        match scan_declaration(&chars, i) {
            Some(span) => {
                proof {
                    lemma_declaration_extent(s, i as int);
                }
                let name = String::from_str(text.substring_char(span.name_start, span.name_end));
                let id_text = String::from_str(text.substring_char(span.id_start, span.id_end));
                let ghost before = pairs@;
                pairs.push((name, id_text));
                proof {
                    let d = span@;
                    assert(declarations_from(s, i as int) == seq![d].add(
                        declarations_from(s, d.end),
                    ));
                    assert(pairs_from(s, i as int) =~= seq![texts_of(s, d)] + pairs_from(
                        s,
                        d.end,
                    ));
                    assert(pairs_view(pairs@) =~= pairs_view(before).push(texts_of(s, d)));
                    assert(pairs_view(pairs@) + pairs_from(s, d.end) =~= pairs_view(before)
                        + pairs_from(s, i as int));
                }
                i = span.end;
            },
            None => {
                assert(declarations_from(s, i as int) == declarations_from(s, i + 1));
                i += 1;
            },
        }
    }
    assert(pairs_view(pairs@) + pairs_from(s, n as int) =~= pairs_view(pairs@));
    pairs
}

/// Why the definition text cannot be used: the identifier of the
/// declaration `name` is not the text of a 32-byte key.
#[derive(Clone, Debug)]
pub struct ParseError {
    pub name: String,
    pub reason: IdError,
}

/// The mathematical value of a [`ParseError`].
pub ghost struct ParseErrorView {
    pub name: Seq<char>,
    pub reason: IdError,
}

impl View for ParseError {
    type V = ParseErrorView;

    open spec fn view(&self) -> ParseErrorView {
        ParseErrorView { name: self.name@, reason: self.reason }
    }
}

/// The named identifiers that pairs of name and identifier text stand
/// for, or the first pair whose identifier text does not decode.
pub open spec fn decoded(pairs: Seq<(Seq<char>, Seq<char>)>) -> Result<
    Seq<NamedIdentifierView>,
    ParseErrorView,
>
    decreases pairs.len(),
{
    if pairs.len() == 0 {
        Ok(Seq::empty())
    } else {
        match decoded(pairs.drop_last()) {
            Err(e) => Err(e),
            Ok(found) => match pubkey_from_text(pairs.last().1) {
                Ok(bytes) => Ok(found.push(NamedIdentifierView { name: pairs.last().0, id: bytes })),
                Err(reason) => Err(ParseErrorView { name: pairs.last().0, reason }),
            },
        }
    }
}

/// Whether `r` is what extracting comes to when the named identifiers, or
/// the error, are `expected`.
pub open spec fn extraction_is(
    r: Result<Vec<NamedIdentifier>, ParseError>,
    expected: Result<Seq<NamedIdentifierView>, ParseErrorView>,
) -> bool {
    match r {
        Ok(features) => expected == Ok::<Seq<NamedIdentifierView>, ParseErrorView>(
            crate::classify::features_view(features@),
        ),
        Err(e) => expected == Err::<Seq<NamedIdentifierView>, ParseErrorView>(e@),
    }
}

/// Decodes the identifier text of each pair. The first text that is not
/// the base-58 form of a 32-byte key ends the work with an error.
pub fn decode_declarations(pairs: &Vec<(String, String)>) -> (r: Result<
    Vec<NamedIdentifier>,
    ParseError,
>)
    ensures
        extraction_is(r, decoded(pairs_view(pairs@))),
{
    let ghost all = pairs_view(pairs@);
    let n = pairs.len();
    let mut features: Vec<NamedIdentifier> = Vec::new();
    let mut i: usize = 0;
    assert(all.take(0).len() == 0);
    assert(crate::classify::features_view(features@) =~= Seq::empty());
    while i < n
        invariant
            i <= n,
            n == pairs@.len(),
            all == pairs_view(pairs@),
            decoded(all.take(i as int)) == Ok::<Seq<NamedIdentifierView>, ParseErrorView>(
                crate::classify::features_view(features@),
            ),
        decreases n - i,
    {
        let pair = &pairs[i];
        proof {
            assert(all.take(i + 1).drop_last() =~= all.take(i as int));
            assert(all.take(i + 1).last() == (pair.0@, pair.1@));
        }
        match FeatureId::parse(pair.1.as_str()) {
            Ok(id) => {
                let ghost before = features@;
                features.push(NamedIdentifier { name: pair.0.clone(), id });
                assert(crate::classify::features_view(features@)
                    =~= crate::classify::features_view(before).push(
                    NamedIdentifierView { name: pair.0@, id: id@ },
                ));
            },
            Err(reason) => {
                proof {
                    lemma_decoded_error_stays(all, i + 1);
                }
                return Err(ParseError { name: pair.0.clone(), reason });
            },
        }
        i += 1;
    }
    assert(all.take(n as int) =~= all);
    Ok(features)
}

/// An error among the first `k` pairs is the error of the whole list.
proof fn lemma_decoded_error_stays(pairs: Seq<(Seq<char>, Seq<char>)>, k: int)
    requires
        0 <= k <= pairs.len(),
        decoded(pairs.take(k)) is Err,
    ensures
        decoded(pairs) == decoded(pairs.take(k)),
    decreases pairs.len() - k,
{
    if k < pairs.len() {
        assert(pairs.take(k + 1).drop_last() =~= pairs.take(k));
        lemma_decoded_error_stays(pairs, k + 1);
    } else {
        assert(pairs.take(k) =~= pairs);
    }
}

/// What extracting the named identifiers from a text comes to.
pub open spec fn extraction_of(text: Seq<char>) -> Result<
    Seq<NamedIdentifierView>,
    ParseErrorView,
> {
    decoded(declared_pairs(text))
}

/// Extracts the named identifiers that a definition text declares, in the
/// order of the text and with repetitions kept.
pub fn extract(text: &str) -> (r: Result<Vec<NamedIdentifier>, ParseError>)
    ensures
        extraction_is(r, extraction_of(text@)),
{
    let pairs = declarations(text);
    decode_declarations(&pairs)
}

/// Extracting is a function of the text: two results for one text hold
/// the same named identifiers in the same order, or the same error.
pub proof fn lemma_extract_repeatable(
    text: Seq<char>,
    first: Result<Vec<NamedIdentifier>, ParseError>,
    second: Result<Vec<NamedIdentifier>, ParseError>,
)
    requires
        extraction_is(first, extraction_of(text)),
        extraction_is(second, extraction_of(text)),
    ensures
        match (first, second) {
            (Ok(a), Ok(b)) => crate::classify::features_view(a@) == crate::classify::features_view(
                b@,
            ),
            (Err(a), Err(b)) => a@ == b@,
            _ => false,
        },
{
}

} // verus!
