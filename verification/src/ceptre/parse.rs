//! Reading annotations.
//!
//! An annotation says what a type, a predicate or a rule is there for, and
//! names logics:
//!
//! ```text
//! annotation := kind "{" spaces list spaces "}"
//! kind       := spaces "synthesis" spaces "," spaces "data" spaces
//!             | spaces "data" spaces "," spaces "synthesis" spaces
//!             | spaces ( "synthesis" | "data" | "integration" | "query" ) spaces
//! list       := ( logic ( spaces "," spaces logic )* )?
//! logic      := "collision" | "control" | "linking" | "resource"
//! spaces     := ( " " | tab | return | newline )*
//! ```
//!
//! The words are read without regard to case. Among the kinds, the first that
//! can be read is taken, in the order given. The list ends before the first
//! comma that no logic follows. What stands behind the closing brace is left
//! unread.

use crate::ceptre::boxsy_info::{Logic, LogicSet};
use crate::ceptre::ctypes::{first_tp, texts, CType};
use crate::ceptre::error::{same_text, Error};
use crate::ceptre::json::{Annote, AnnoteString, Tp};
use vstd::prelude::*;
use vstd::string::StrSliceExecFns;

verus! {

/// `c` is a space, a tab, a carriage return or a newline.
pub open spec fn is_space(c: char) -> bool {
    c == ' ' || c == '\t' || c == '\r' || c == '\n'
}

/// `c` is the letter `letter`, in either case.
pub open spec fn same_letter(c: char, letter: char) -> bool {
    c == letter || ('A' <= c <= 'Z' && c as u32 + 32 == letter as u32)
}

/// The first position at or behind `i` that holds no space.
pub open spec fn skip_spaces(s: Seq<char>, i: int) -> int
    decreases s.len() - i,
{
    if 0 <= i < s.len() && is_space(s[i]) {
        skip_spaces(s, i + 1)
    } else {
        i
    }
}

/// Where `word` ends if it stands at `i`, in whatever case.
pub open spec fn word_at(s: Seq<char>, i: int, word: Seq<char>) -> Option<int> {
    if 0 <= i && i + word.len() <= s.len() && forall|k: int|
        0 <= k < word.len() ==> same_letter(#[trigger] s[i + k], word[k]) {
        Some(i + word.len())
    } else {
        None
    }
}

/// Where the character `c` ends if it stands at `i`.
pub open spec fn char_at(s: Seq<char>, i: int, c: char) -> Option<int> {
    if 0 <= i < s.len() && s[i] == c {
        Some(i + 1)
    } else {
        None
    }
}

/// Where `word` with the spaces around it ends, if it stands at `i` behind
/// spaces.
pub open spec fn spaced_word_at(s: Seq<char>, i: int, word: Seq<char>) -> Option<int> {
    match word_at(s, skip_spaces(s, i), word) {
        Some(end) => Some(skip_spaces(s, end)),
        None => None,
    }
}

/// Where a comma with the spaces around it ends, if it stands at `i` behind
/// spaces.
pub open spec fn spaced_comma_at(s: Seq<char>, i: int) -> Option<int> {
    match char_at(s, skip_spaces(s, i), ',') {
        Some(end) => Some(skip_spaces(s, end)),
        None => None,
    }
}

/// Where `first`, a comma and `second` end, each word with spaces around it,
/// if they stand at `i`.
pub open spec fn pair_at(s: Seq<char>, i: int, first: Seq<char>, second: Seq<char>) -> Option<int> {
    match spaced_word_at(s, i, first) {
        Some(a) => match char_at(s, a, ',') {
            Some(b) => spaced_word_at(s, b, second),
            None => None,
        },
        None => None,
    }
}

/// The kind of annotation that stands at `i`, without logics, and where it
/// ends.
pub open spec fn kind_at(s: Seq<char>, i: int) -> Option<(int, Annote)> {
    match pair_at(s, i, "synthesis"@, "data"@) {
        Some(end) => Some((end, Annote::SynthData(LogicSet::spec_new()))),
        None => match pair_at(s, i, "data"@, "synthesis"@) {
            Some(end) => Some((end, Annote::SynthData(LogicSet::spec_new()))),
            None => match spaced_word_at(s, i, "synthesis"@) {
                Some(end) => Some((end, Annote::Synthesis(LogicSet::spec_new()))),
                None => match spaced_word_at(s, i, "data"@) {
                    Some(end) => Some((end, Annote::Data(LogicSet::spec_new()))),
                    None => match spaced_word_at(s, i, "integration"@) {
                        Some(end) => Some((end, Annote::Integration(LogicSet::spec_new()))),
                        None => match spaced_word_at(s, i, "query"@) {
                            Some(end) => Some((end, Annote::Query(LogicSet::spec_new()))),
                            None => None,
                        },
                    },
                },
            },
        },
    }
}

/// The logic that is named at `i`, and where its name ends.
pub open spec fn logic_at(s: Seq<char>, i: int) -> Option<(int, Logic)> {
    match word_at(s, i, "collision"@) {
        Some(end) => Some((end, Logic::Collision)),
        None => match word_at(s, i, "control"@) {
            Some(end) => Some((end, Logic::Control)),
            None => match word_at(s, i, "linking"@) {
                Some(end) => Some((end, Logic::Linking)),
                None => match word_at(s, i, "resource"@) {
                    Some(end) => Some((end, Logic::Resource)),
                    None => None,
                },
            },
        },
    }
}

/// The rest of a list of logics: what stands at `i`, behind a logic, added to
/// `so_far`, and where the list ends. The list goes on as long as a comma and a
/// logic follow.
pub open spec fn rest_of_list(s: Seq<char>, i: int, so_far: LogicSet) -> (int, LogicSet)
    decreases s.len() - i,
{
    match spaced_comma_at(s, i) {
        Some(a) => match logic_at(s, a) {
            Some((b, logic)) => if i < b <= s.len() {
                rest_of_list(s, b, so_far.spec_with(logic))
            } else {
                (i, so_far)
            },
            None => (i, so_far),
        },
        None => (i, so_far),
    }
}

/// The list of logics that stands at `i`, and where it ends. The list may be
/// empty.
pub open spec fn list_at(s: Seq<char>, i: int) -> (int, LogicSet) {
    match logic_at(s, i) {
        Some((a, logic)) => rest_of_list(s, a, LogicSet::spec_new().spec_with(logic)),
        None => (i, LogicSet::spec_new()),
    }
}

/// The list of logics in braces that stands at `i`, and where it ends.
pub open spec fn braces_at(s: Seq<char>, i: int) -> Option<(int, LogicSet)> {
    match char_at(s, i, '{') {
        Some(a) => {
            let (b, logics) = list_at(s, skip_spaces(s, a));
            match char_at(s, skip_spaces(s, b), '}') {
                Some(end) => Some((end, logics)),
                None => None,
            }
        },
        None => None,
    }
}

/// The annotation that `s` begins with, and the number of characters that it
/// takes up; `None` where `s` does not begin with an annotation.
pub open spec fn spec_parse(s: Seq<char>) -> Option<(int, Annote)> {
    match kind_at(s, 0) {
        Some((a, kind)) => match braces_at(s, a) {
            Some((end, logics)) => Some((end, kind.with_logics(logics))),
            None => None,
        },
        None => None,
    }
}

/// The characters of a text.
pub fn chars_of(text: &str) -> (chars: Vec<char>)
    ensures
        chars@ == text@,
{
    let n: usize = text.unicode_len();
    let mut chars: Vec<char> = Vec::new();
    let mut k: usize = 0;
    while k < n
        invariant
            k <= n,
            n == text@.len(),
            chars@ == text@.take(k as int),
        decreases n - k,
    {
        chars.push(text.get_char(k));
        k += 1;
        assert(chars@ =~= text@.take(k as int));
    }
    assert(text@.take(n as int) =~= text@);
    chars
}

/// Skips the spaces at `i`.
pub fn eat_spaces(s: &Vec<char>, i: usize) -> (end: usize)
    requires
        i <= s@.len(),
    ensures
        end == skip_spaces(s@, i as int),
        i <= end <= s@.len(),
{
    let mut end: usize = i;
    while end < s.len() && (s[end] == ' ' || s[end] == '\t' || s[end] == '\r' || s[end] == '\n')
        invariant
            i <= end <= s@.len(),
            skip_spaces(s@, end as int) == skip_spaces(s@, i as int),
        decreases s@.len() - end,
    {
        end += 1;
    }
    end
}

/// Whether `c` is the letter `letter`, in either case.
pub fn is_letter(c: char, letter: char) -> (same: bool)
    ensures
        same == same_letter(c, letter),
{
    c == letter || ('A' <= c && c <= 'Z' && c as u32 + 32 == letter as u32)
}

/// Reads `word` at `i`, in whatever case.
pub fn eat_word(s: &Vec<char>, i: usize, word: &Vec<char>) -> (end: Option<usize>)
    requires
        i <= s@.len(),
    ensures
        end matches Some(e) ==> i <= e <= s@.len() && e == i + word@.len(),
        match end {
            Some(e) => word_at(s@, i as int, word@) == Some(e as int),
            None => word_at(s@, i as int, word@).is_none(),
        },
{
    let n: usize = s.len();
    if word.len() > n - i {
        return None;
    }
    let mut k: usize = 0;
    while k < word.len()
        invariant
            k <= word@.len(),
            n == s@.len(),
            i + word@.len() <= s@.len(),
            forall|m: int| 0 <= m < k ==> same_letter(#[trigger] s@[i + m], word@[m]),
        decreases word@.len() - k,
    {
        if !is_letter(s[i + k], word[k]) {
            return None;
        }
        k += 1;
    }
    Some(i + word.len())
}

/// Reads the character `c` at `i`.
pub fn eat_char(s: &Vec<char>, i: usize, c: char) -> (end: Option<usize>)
    requires
        i <= s@.len(),
    ensures
        end matches Some(e) ==> e == i + 1 && e <= s@.len(),
        match end {
            Some(e) => char_at(s@, i as int, c) == Some(e as int),
            None => char_at(s@, i as int, c).is_none(),
        },
{
    if i < s.len() && s[i] == c {
        Some(i + 1)
    } else {
        None
    }
}

/// Reads `word` at `i`, with the spaces before and behind it.
pub fn eat_spaced_word(s: &Vec<char>, i: usize, word: &str) -> (end: Option<usize>)
    requires
        i <= s@.len(),
    ensures
        end matches Some(e) ==> i + word@.len() <= e <= s@.len(),
        match end {
            Some(e) => spaced_word_at(s@, i as int, word@) == Some(e as int),
            None => spaced_word_at(s@, i as int, word@).is_none(),
        },
{
    let start = eat_spaces(s, i);
    match eat_word(s, start, &chars_of(word)) {
        Some(end) => Some(eat_spaces(s, end)),
        None => None,
    }
}

/// Reads `first`, a comma and `second` at `i`, each word with spaces around
/// it.
pub fn eat_pair(s: &Vec<char>, i: usize, first: &str, second: &str) -> (end: Option<usize>)
    requires
        i <= s@.len(),
    ensures
        end matches Some(e) ==> i <= e <= s@.len(),
        match end {
            Some(e) => pair_at(s@, i as int, first@, second@) == Some(e as int),
            None => pair_at(s@, i as int, first@, second@).is_none(),
        },
{
    let a = match eat_spaced_word(s, i, first) {
        Some(a) => a,
        None => {
            return None;
        },
    };
    let b = match eat_char(s, a, ',') {
        Some(b) => b,
        None => {
            return None;
        },
    };
    eat_spaced_word(s, b, second)
}

/// Reads the kind of an annotation at `i`.
pub fn eat_kind(s: &Vec<char>, i: usize) -> (kind: Option<(usize, Annote)>)
    requires
        i <= s@.len(),
    ensures
        kind matches Some((e, _)) ==> i <= e <= s@.len(),
        match kind {
            Some((e, annote)) => kind_at(s@, i as int) == Some((e as int, annote)),
            None => kind_at(s@, i as int).is_none(),
        },
{
    if let Some(end) = eat_pair(s, i, "synthesis", "data") {
        Some((end, Annote::SynthData(LogicSet::new())))
    } else if let Some(end) = eat_pair(s, i, "data", "synthesis") {
        Some((end, Annote::SynthData(LogicSet::new())))
    } else if let Some(end) = eat_spaced_word(s, i, "synthesis") {
        Some((end, Annote::Synthesis(LogicSet::new())))
    } else if let Some(end) = eat_spaced_word(s, i, "data") {
        Some((end, Annote::Data(LogicSet::new())))
    } else if let Some(end) = eat_spaced_word(s, i, "integration") {
        Some((end, Annote::Integration(LogicSet::new())))
    } else if let Some(end) = eat_spaced_word(s, i, "query") {
        Some((end, Annote::Query(LogicSet::new())))
    } else {
        None
    }
}

/// Reads the name of a logic at `i`.
pub fn eat_logic(s: &Vec<char>, i: usize) -> (logic: Option<(usize, Logic)>)
    requires
        i <= s@.len(),
    ensures
        logic matches Some((e, _)) ==> i < e <= s@.len(),
        match logic {
            Some((e, l)) => logic_at(s@, i as int) == Some((e as int, l)),
            None => logic_at(s@, i as int).is_none(),
        },
{
    proof {
        reveal_strlit("collision");
        reveal_strlit("control");
        reveal_strlit("linking");
        reveal_strlit("resource");
    }
    if let Some(end) = eat_word(s, i, &chars_of("collision")) {
        Some((end, Logic::Collision))
    } else if let Some(end) = eat_word(s, i, &chars_of("control")) {
        Some((end, Logic::Control))
    } else if let Some(end) = eat_word(s, i, &chars_of("linking")) {
        Some((end, Logic::Linking))
    } else if let Some(end) = eat_word(s, i, &chars_of("resource")) {
        Some((end, Logic::Resource))
    } else {
        None
    }
}

/// Reads a list of logics at `i`.
pub fn eat_list(s: &Vec<char>, i: usize) -> (list: (usize, LogicSet))
    requires
        i <= s@.len(),
    ensures
        i <= list.0 <= s@.len(),
        list_at(s@, i as int) == (list.0 as int, list.1),
{
    let mut logics = LogicSet::new();
    let mut end: usize = match eat_logic(s, i) {
        Some((end, logic)) => {
            logics.insert(logic);
            end
        },
        None => {
            return (i, logics);
        },
    };
    loop
        invariant
            i <= end <= s@.len(),
            list_at(s@, i as int) == rest_of_list(s@, end as int, logics),
        decreases s@.len() - end,
    {
        let start = eat_spaces(s, end);
        let a = match eat_char(s, start, ',') {
            Some(a) => eat_spaces(s, a),
            None => {
                return (end, logics);
            },
        };
        match eat_logic(s, a) {
            Some((b, logic)) => {
                logics.insert(logic);
                end = b;
            },
            None => {
                return (end, logics);
            },
        }
    }
}

/// Reads a list of logics in braces at `i`.
pub fn eat_braces(s: &Vec<char>, i: usize) -> (list: Option<(usize, LogicSet)>)
    requires
        i <= s@.len(),
    ensures
        list matches Some((e, _)) ==> i <= e <= s@.len(),
        match list {
            Some((e, logics)) => braces_at(s@, i as int) == Some((e as int, logics)),
            None => braces_at(s@, i as int).is_none(),
        },
{
    let a = match eat_char(s, i, '{') {
        Some(a) => eat_spaces(s, a),
        None => {
            return None;
        },
    };
    let (b, logics) = eat_list(s, a);
    let c = eat_spaces(s, b);
    match eat_char(s, c, '}') {
        Some(end) => Some((end, logics)),
        None => None,
    }
}

/// Reads the annotation that a text begins with. Returns the number of
/// characters that the annotation takes up, and the annotation with the logics
/// that it names.
pub fn parse(s: &AnnoteString) -> (read: Result<(usize, Annote), Error<'static>>)
    ensures
        match read {
            Ok((end, annote)) => spec_parse(s.0@) == Some((end as int, annote)),
            Err(Error::Parse) => spec_parse(s.0@).is_none(),
            Err(_) => false,
        },
{
    let chars = chars_of(s.get_str());
    let (a, mut annote) = match eat_kind(&chars, 0) {
        Some(kind) => kind,
        None => {
            return Err(Error::Parse);
        },
    };
    let (end, list) = match eat_braces(&chars, a) {
        Some(list) => list,
        None => {
            return Err(Error::Parse);
        },
    };
    let l = annote.get_logics_mut();
    *l = list;
    Ok((end, annote))
}

/// `c` can stand in a word of a term: it is no space and no closing
/// parenthesis.
pub open spec fn in_word(c: char) -> bool {
    !is_space(c) && c != ')'
}

/// The first position at or behind `i` that holds no character of a word.
pub open spec fn word_end(s: Seq<char>, i: int) -> int
    decreases s.len() - i,
{
    if 0 <= i < s.len() && in_word(s[i]) {
        word_end(s, i + 1)
    } else {
        i
    }
}

/// The rest of a run of words: the words that follow the word that ends at
/// `i`, each behind at least one space, added to `so_far`, and where the run
/// ends.
pub open spec fn rest_of_words(s: Seq<char>, i: int, so_far: Seq<Seq<char>>) -> (
    int,
    Seq<Seq<char>>,
)
    decreases s.len() - i,
{
    let start = skip_spaces(s, i);
    let end = word_end(s, start);
    if i < start < end <= s.len() {
        rest_of_words(s, end, so_far.push(s.subrange(start, end)))
    } else {
        (i, so_far)
    }
}

/// The run of words that stands at `i`, and where it ends. Words are set
/// apart by spaces. The run may be empty.
pub open spec fn words_at(s: Seq<char>, i: int) -> (int, Seq<Seq<char>>) {
    let end = word_end(s, i);
    if 0 <= i < end <= s.len() {
        rest_of_words(s, end, seq![s.subrange(i, end)])
    } else {
        (i, Seq::empty())
    }
}

/// A term that has been read: which way of making a value it uses, by its
/// position among the ways of the type, and the words that follow its name.
pub struct ReadTerm {
    pub way: int,
    pub vals: Seq<Seq<char>>,
}

/// The term in parentheses that `s` begins with, read as a value of a type
/// with the ways `tps`, and the number of characters that it takes up: an
/// opening parenthesis, the name of a way, the words that follow it, and a
/// closing parenthesis, with spaces wherever one likes.
pub open spec fn term_in_parens(s: Seq<char>, tps: Seq<Tp>) -> Option<(int, ReadTerm)> {
    match char_at(s, 0, '(') {
        Some(a) => {
            let (b, words) = words_at(s, skip_spaces(s, a));
            if words.len() == 0 || first_tp(tps, words[0], 0) >= tps.len() {
                None
            } else {
                match char_at(s, skip_spaces(s, b), ')') {
                    Some(end) => Some(
                        (end, ReadTerm { way: first_tp(tps, words[0], 0), vals: words.skip(1) }),
                    ),
                    None => None,
                }
            }
        },
        None => None,
    }
}

/// The term that `s` is, read as a value of a type with the ways `tps`, and
/// the number of characters of `s` that count as read: a term in parentheses,
/// or else the bare name of a way, of which nothing counts as read.
pub open spec fn spec_parse_term(s: Seq<char>, tps: Seq<Tp>) -> Option<(int, ReadTerm)> {
    match term_in_parens(s, tps) {
        Some(read) => Some(read),
        None => if first_tp(tps, s, 0) < tps.len() {
            Some((0, ReadTerm { way: first_tp(tps, s, 0), vals: Seq::empty() }))
        } else {
            None
        },
    }
}

/// A term with the way of making a value that it uses.
#[derive(Debug)]
pub struct AtomTp<'tp> {
    /// The way.
    pub tp: &'tp Tp,
    /// The words that follow the name of the way.
    pub vals: Vec<String>,
}

/// Skips the characters of a word at `i`.
pub fn eat_word_chars(s: &Vec<char>, i: usize) -> (end: usize)
    requires
        i <= s@.len(),
    ensures
        end == word_end(s@, i as int),
        i <= end <= s@.len(),
{
    let mut end: usize = i;
    while end < s.len() && !(s[end] == ' ' || s[end] == '\t' || s[end] == '\r' || s[end] == '\n'
        || s[end] == ')')
        invariant
            i <= end <= s@.len(),
            word_end(s@, end as int) == word_end(s@, i as int),
        decreases s@.len() - end,
    {
        end += 1;
    }
    end
}

/// Finds the way named by the characters `name`.
pub fn find_way(tps: &Vec<Tp>, name: &str) -> (at: Option<usize>)
    ensures
        match at {
            Some(k) => k < tps@.len() && k == first_tp(tps@, name@, 0),
            None => first_tp(tps@, name@, 0) >= tps@.len(),
        },
{
    let mut k: usize = 0;
    while k < tps.len()
        invariant
            k <= tps@.len(),
            first_tp(tps@, name@, 0) == first_tp(tps@, name@, k as int),
        decreases tps@.len() - k,
    {
        if same_text(tps[k].name.as_str(), name) {
            return Some(k);
        }
        k += 1;
    }
    None
}

/// Reads a run of words at `i` of `text`, whose characters are `s`.
pub fn eat_words(text: &str, s: &Vec<char>, i: usize) -> (words: (usize, Vec<String>))
    requires
        s@ == text@,
        i <= s@.len(),
    ensures
        i <= words.0 <= s@.len(),
        words_at(s@, i as int) == (words.0 as int, texts(words.1@)),
{
    let mut words: Vec<String> = Vec::new();
    let mut end: usize = eat_word_chars(s, i);
    if end == i {
        assert(texts(words@) =~= Seq::<Seq<char>>::empty());
        return (i, words);
    }
    words.push(text.substring_char(i, end).to_owned());
    assert(texts(words@) =~= seq![s@.subrange(i as int, end as int)]);
    loop
        invariant
            s@ == text@,
            i <= end <= s@.len(),
            words_at(s@, i as int) == rest_of_words(s@, end as int, texts(words@)),
        decreases s@.len() - end,
    {
        let start = eat_spaces(s, end);
        let stop = eat_word_chars(s, start);
        if start == end || stop == start {
            return (end, words);
        }
        let ghost before = texts(words@);
        words.push(text.substring_char(start, stop).to_owned());
        assert(texts(words@) =~= before.push(s@.subrange(start as int, stop as int)));
        end = stop;
    }
}

/// Reads a term as a value of the type `ty`: a term in parentheses that
/// begins with the name of one of the ways of the type, or the bare name of a
/// way. Returns the number of characters that count as read, and the term.
pub fn parse_term<'a>(text: &str, ty: &'a CType) -> (read: Result<
    (usize, AtomTp<'a>),
    Error<'static>,
>)
    ensures
        match read {
            Ok((end, term)) => {
                &&& spec_parse_term(text@, ty.tp@) matches Some((e, t))
                &&& e == end
                &&& 0 <= t.way < ty.tp@.len()
                &&& *term.tp == ty.tp@[t.way]
                &&& texts(term.vals@) == t.vals
            },
            Err(Error::Parse) => spec_parse_term(text@, ty.tp@).is_none(),
            Err(_) => false,
        },
{
    let s = chars_of(text);
    if let Some(a) = eat_char(&s, 0, '(') {
        let start = eat_spaces(&s, a);
        let (b, mut words) = eat_words(text, &s, start);
        if words.len() > 0 {
            if let Some(way) = find_way(&ty.tp, words[0].as_str()) {
                let c = eat_spaces(&s, b);
                if let Some(end) = eat_char(&s, c, ')') {
                    let ghost all = texts(words@);
                    words.remove(0);
                    assert(texts(words@) =~= all.skip(1));
                    return Ok((end, AtomTp { tp: &ty.tp[way], vals: words }));
                }
            }
        }
    }
    match find_way(&ty.tp, text) {
        Some(way) => {
            let vals: Vec<String> = Vec::new();
            assert(texts(vals@) =~= Seq::<Seq<char>>::empty());
            Ok((0, AtomTp { tp: &ty.tp[way], vals }))
        },
        None => Err(Error::Parse),
    }
}

/// The number that the digits `s[from ..]` stand for, read from the left:
/// `so_far` with each digit put behind it.
pub open spec fn digits_value(s: Seq<char>, from: int, so_far: int) -> int
    decreases s.len() - from,
{
    if 0 <= from < s.len() {
        digits_value(s, from + 1, so_far * 10 + (s[from] as u32 - '0' as u32))
    } else {
        so_far
    }
}

/// Every character of `s` from `from` on is a digit.
pub open spec fn all_digits(s: Seq<char>, from: int) -> bool {
    forall|k: int| from <= k < s.len() ==> '0' <= #[trigger] s[k] <= '9'
}

/// The whole number that `s` stands for, if it stands for one that an `i16`
/// can hold: an optional sign, and then at least one digit.
pub open spec fn spec_parse_i16(s: Seq<char>) -> Option<i16> {
    let signed = s.len() > 0 && (s[0] == '-' || s[0] == '+');
    let from: int = if signed {
        1
    } else {
        0
    };
    if from >= s.len() || !all_digits(s, from) {
        None
    } else {
        let size = digits_value(s, from, 0);
        let value = if s[0] == '-' {
            -size
        } else {
            size
        };
        if i16::MIN <= value <= i16::MAX {
            Some(value as i16)
        } else {
            None
        }
    }
}

/// Reads a whole number: an optional sign and then digits. `None` where the
/// text is anything else, or the number is more than an `i16` can hold.
pub fn parse_i16(text: &str) -> (number: Option<i16>)
    ensures
        number == spec_parse_i16(text@),
{
    let s = chars_of(text);
    let n: usize = s.len();
    if n == 0 {
        return None;
    }
    let negative: bool = s[0] == '-';
    let from: usize = if s[0] == '-' || s[0] == '+' {
        1
    } else {
        0
    };
    if from >= n {
        return None;
    }
    let mut size: i32 = 0;
    let mut k: usize = from;
    while k < n
        invariant
            from <= k <= n,
            n == s@.len(),
            s@ == text@,
            from < n,
            from == if s@[0] == '-' || s@[0] == '+' {
                1int
            } else {
                0int
            },
            0 <= size <= 40000,
            forall|m: int| from <= m < k ==> '0' <= #[trigger] s@[m] <= '9',
            size <= 32768 ==> digits_value(s@, from as int, 0) == digits_value(
                s@,
                k as int,
                size as int,
            ),
            size > 32768 ==> (all_digits(s@, from as int) ==> digits_value(s@, from as int, 0)
                > 32768),
        decreases n - k,
    {
        let c: char = s[k];
        if !('0' <= c && c <= '9') {
            assert(!('0' <= s@[k as int] <= '9'));
            return None;
        }
        let digit: i32 = (c as u32 - '0' as u32) as i32;
        if size <= 32768 {
            proof {
                lemma_digits_grow(s@, k + 1, size * 10 + digit);
            }
            size = size * 10 + digit;
            if size > 40000 {
                size = 40000;
            }
        }
        k += 1;
    }
    let value: i32 = if negative {
        -size
    } else {
        size
    };
    if value < i16::MIN as i32 || value > i16::MAX as i32 {
        None
    } else {
        Some(value as i16)
    }
}

/// Digits put behind a number never make it less.
pub proof fn lemma_digits_grow(s: Seq<char>, from: int, so_far: int)
    requires
        0 <= so_far,
        0 <= from,
    ensures
        all_digits(s, from) ==> digits_value(s, from, so_far) >= so_far,
    decreases s.len() - from,
{
    if from < s.len() && all_digits(s, from) {
        assert('0' <= s[from] <= '9');
        lemma_digits_grow(s, from + 1, so_far * 10 + (s[from] as u32 - '0' as u32));
    }
}

} // verus!
