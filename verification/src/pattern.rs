use regex::Regex;
use vstd::prelude::*;
use vstd::utf8::{decode_utf8, encode_utf8};

verus! {

#[verifier::external_type_specification]
#[verifier::external_body]
pub struct ExRegex(regex::Regex);

#[verifier::external_type_specification]
#[verifier::external_body]
pub struct ExRegexError(regex::Error);

/// A regular expression, compiled from its source with the default
/// options, and kept together with that source.
#[derive(Debug)]
pub struct TokenRegex {
    source: String,
    regex: Regex,
}

/// Why a pattern is no regular expression.
#[derive(Debug)]
pub struct PatternError {
    pub message: String,
}

/// One match of a regular expression: the byte offsets where it starts and
/// ends, and the text in between.
#[derive(Debug)]
pub struct RegexSpan {
    pub start: usize,
    pub end: usize,
    pub text: String,
}

/// One capture group of a match: its name, if it has one, and the text it
/// captured, if it took part in the match.
#[derive(Debug)]
pub struct RegexGroup {
    pub name: Option<String>,
    pub text: Option<String>,
}

/// One match of a regular expression with its capture groups, in the
/// order of their numbers; the group with the number 0 is the whole match.
#[derive(Debug)]
pub struct RegexCapture {
    pub start: usize,
    pub end: usize,
    pub text: String,
    pub groups: Vec<RegexGroup>,
}

/// The matches of the regular expression `pattern` in `text`, from left to
/// right: of each the byte offsets of its start and its end, and of each
/// of its capture groups the name and the captured text.
pub uninterp spec fn regex_captures(pattern: Seq<char>, text: Seq<char>) -> Seq<
    (usize, usize, Seq<(Option<Seq<char>>, Option<Seq<char>>)>),
>;

/// The matches of the regular expression `pattern` in `text`, from left to
/// right, each as the byte offsets of its start and its end.
pub open spec fn regex_spans(pattern: Seq<char>, text: Seq<char>) -> Seq<(usize, usize)> {
    regex_captures(pattern, text).map_values(
        |capture: (usize, usize, Seq<(Option<Seq<char>>, Option<Seq<char>>)>)|
            (capture.0, capture.1),
    )
}

pub open spec fn text_view(text: Option<String>) -> Option<Seq<char>> {
    match text {
        Some(text) => Some(text@),
        None => None,
    }
}

pub open spec fn group_models(groups: Seq<RegexGroup>) -> Seq<(Option<Seq<char>>, Option<Seq<char>>)> {
    groups.map_values(|group: RegexGroup| (text_view(group.name), text_view(group.text)))
}

pub open spec fn capture_models(captures: Seq<RegexCapture>) -> Seq<
    (usize, usize, Seq<(Option<Seq<char>>, Option<Seq<char>>)>),
> {
    captures.map_values(
        |capture: RegexCapture| (capture.start, capture.end, group_models(capture.groups@)),
    )
}

/// Whether the regular expression `pattern` has a match anywhere in `text`.
pub uninterp spec fn regex_matches(pattern: Seq<char>, text: Seq<char>) -> bool;

/// The lower case form of a text.
pub uninterp spec fn lowercased(text: Seq<char>) -> Seq<char>;

/// The characters that the bytes of a text from `start` up to `end` spell.
pub open spec fn span_text(text: Seq<char>, start: int, end: int) -> Seq<char> {
    decode_utf8(encode_utf8(text).subrange(start, end))
}

impl View for TokenRegex {
    type V = Seq<char>;

    /// The source that the expression was compiled from.
    closed spec fn view(&self) -> Seq<char> {
        self.source@
    }
}

/// `Regex::new` of the regex crate: compiles a pattern with the default
/// options. Nothing is claimed of which patterns compile.
#[verifier::external_body]
fn compile(source: &str) -> (compiled: Result<Regex, regex::Error>) {
    Regex::new(source)
}

/// The message of a `regex::Error`, as its `Display` writes it. Nothing is
/// claimed of the text.
#[verifier::external_body]
fn error_text(error: &regex::Error) -> (text: String) {
    error.to_string()
}

/// `Regex::captures_iter` of the regex crate. Of each match it takes the
/// whole (`Captures::get_match`: its `start`, its `end` and `as_str`) and,
/// for each group that `Regex::capture_names` lists, the name and what
/// `Captures::get` has for the group's number.
///
/// The matches are those that the expression has in the text, in the
/// order in which the iterator yields them; the expression was compiled
/// from `pattern`'s source with the default options, so they depend on
/// that source and the text alone. The text of a match is the slice of the
/// searched text between its two offsets.
#[verifier::external_body]
pub(crate) fn find_captures(pattern: &TokenRegex, text: &str) -> (found: Vec<RegexCapture>)
    ensures
        capture_models(found@) == regex_captures(pattern@, text@),
        forall|i: int|
            0 <= i < found@.len() ==> (#[trigger] found@[i]).text@ == span_text(
                text@,
                found@[i].start as int,
                found@[i].end as int,
            ),
{
    pattern.regex.captures_iter(text).map(
        |capture| RegexCapture {
            start: capture.get_match().start(),
            end: capture.get_match().end(),
            text: capture.get_match().as_str().to_string(),
            groups: pattern.regex.capture_names().enumerate().map(
                |(number, name)| RegexGroup {
                    name: name.map(str::to_string),
                    text: capture.get(number).map(|group| group.as_str().to_string()),
                },
            ).collect(),
        },
    ).collect()
}

/// The matches of an expression in a text without their groups.
pub fn find_spans(pattern: &TokenRegex, text: &str) -> (found: Vec<RegexSpan>)
    ensures
        found@.len() == regex_spans(pattern@, text@).len(),
        forall|i: int|
            0 <= i < found@.len() ==> {
                &&& (#[trigger] found@[i]).start == regex_spans(pattern@, text@)[i].0
                &&& found@[i].end == regex_spans(pattern@, text@)[i].1
                &&& found@[i].text@ == span_text(
                    text@,
                    found@[i].start as int,
                    found@[i].end as int,
                )
            },
{
    let mut captures = find_captures(pattern, text);
    let ghost all = captures@;
    let mut found: Vec<RegexSpan> = Vec::new();
    assert(capture_models(all).len() == all.len());
    while captures.len() > 0
        invariant
            found@.len() + captures@.len() == all.len(),
            forall|i: int|
                0 <= i < captures@.len() ==> #[trigger] captures@[i] == all[all.len()
                    - captures@.len() + i],
            forall|i: int|
                0 <= i < found@.len() ==> {
                    &&& (#[trigger] found@[i]).start == all[i].start
                    &&& found@[i].end == all[i].end
                    &&& found@[i].text@ == all[i].text@
                },
        decreases captures@.len(),
    {
        let ghost before = captures@;
        let capture = captures.remove(0);
        assert(capture == all[all.len() - before.len()]);
        assert forall|i: int| 0 <= i < captures@.len() implies #[trigger] captures@[i] == all[all.len()
            - captures@.len() + i] by {
            assert(captures@[i] == before[i + 1]);
        }
        found.push(RegexSpan { start: capture.start, end: capture.end, text: capture.text });
    }
    assert forall|i: int| 0 <= i < found@.len() implies {
        &&& (#[trigger] found@[i]).start == regex_spans(pattern@, text@)[i].0
        &&& found@[i].end == regex_spans(pattern@, text@)[i].1
        &&& found@[i].text@ == span_text(text@, found@[i].start as int, found@[i].end as int)
    } by {
        assert(capture_models(all)[i] == regex_captures(pattern@, text@)[i]);
        assert(all[i].text@ == span_text(text@, all[i].start as int, all[i].end as int));
    }
    found
}

/// `Regex::is_match` of the regex crate: whether the expression has a
/// match anywhere in the text. The expression was compiled from
/// `pattern`'s source with the default options, so the answer depends on
/// that source and the text alone.
#[verifier::external_body]
pub(crate) fn has_match(pattern: &TokenRegex, text: &str) -> (found: bool)
    ensures
        found == regex_matches(pattern@, text@),
{
    pattern.regex.is_match(text)
}

/// `str::to_lowercase` of the standard library: the text with each
/// character replaced by its lower case form.
#[verifier::external_body]
pub(crate) fn lowercase(text: &str) -> (lower: String)
    ensures
        lower@ == lowercased(text@),
{
    text.to_lowercase()
}

impl TokenRegex {
    /// Compiles a pattern. Which patterns compile is for the regex crate to
    /// say; an expression that did compile keeps the source it was given.
    pub fn new(source: &str) -> (compiled: Result<TokenRegex, PatternError>)
        ensures
            compiled matches Ok(pattern) ==> pattern@ == source@,
    {
        TokenRegex::from_outcome(source, compile(source))
    }

    /// The source of the expression.
    pub fn as_str(&self) -> (source: &str)
        ensures
            source@ == self@,
    {
        self.source.as_str()
    }

    /// What the compiling of `source` comes to. Where the pattern compiled,
    /// that is the compiled expression together with the source; where it
    /// did not, the refusal with the compiler's message.
    fn from_outcome(source: &str, outcome: Result<Regex, regex::Error>) -> (compiled: Result<
        TokenRegex,
        PatternError,
    >)
        ensures
            compiled is Ok <==> outcome is Ok,
            compiled matches Ok(pattern) ==> pattern@ == source@ && outcome == Ok::<
                Regex,
                regex::Error,
            >(pattern.regex),
    {
        match outcome {
            Ok(regex) => Ok(TokenRegex { source: source.to_owned(), regex }),
            Err(error) => Err(PatternError { message: error_text(&error) }),
        }
    }
}

} // verus!
