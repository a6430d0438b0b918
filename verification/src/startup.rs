//! What the program makes of its arguments before it starts.

use crate::text::{lowercase_ascii, same_text};
use vstd::prelude::*;

verus! {

/// A hosted receiver of records and the key that it asks for.
#[derive(Debug)]
pub struct RemoteSink {
    pub endpoint: String,
    pub api_key: String,
}

/// Why the program does not start.
#[derive(Debug, Clone, Copy, PartialEq, Eq, Structural)]
pub enum StartupError {
    /// A receiver is named without its key.
    MissingApiKey,
    /// There is no upstream command.
    NoUpstream,
}

impl StartupError {
    /// The error in words.
    pub fn message(&self) -> (r: &'static str)
        ensures
            r@ == match *self {
                StartupError::MissingApiKey =>
                    "--endpoint requires --api-key (or DEOS_MCPD_API_KEY env)"@,
                StartupError::NoUpstream => "--upstream requires at least one argument"@,
            },
    {
        match self {
            StartupError::MissingApiKey =>
                "--endpoint requires --api-key (or DEOS_MCPD_API_KEY env)",
            StartupError::NoUpstream => "--upstream requires at least one argument",
        }
    }
}

/// A character of lowercase hexadecimal.
pub open spec fn is_hex(c: char) -> bool {
    '0' <= c <= '9' || 'a' <= c <= 'f'
}

/// A random UUID as text: groups of 8, 4, 4, 4 and 12 small hexadecimal digits
/// between hyphens, of version 4.
pub open spec fn is_uuid_v4(s: Seq<char>) -> bool {
    &&& s.len() == 36
    &&& forall|i: int|
        0 <= i < 36 ==> if i == 8 || i == 13 || i == 18 || i == 23 {
            #[trigger] s[i] == '-'
        } else {
            is_hex(s[i])
        }
    &&& s[14] == '4'
    &&& (s[19] == '8' || s[19] == '9' || s[19] == 'a' || s[19] == 'b')
}

/// `uuid::Uuid::new_v4`, displayed: a random UUID. Which one is left to chance.
#[verifier::external_body]
fn fresh_uuid() -> (r: String)
    ensures
        is_uuid_v4(r@),
{
    uuid::Uuid::new_v4().to_string()
}

/// The id of the session: the one that is given, or the one that was drawn.
pub fn session_id_from(given: Option<String>, drawn: String) -> (r: String)
    ensures
        r@ == match given {
            Some(id) => id@,
            None => drawn@,
        },
{
    match given {
        Some(id) => id,
        None => drawn,
    }
}

/// The id of the session: the one that is given, or a random UUID.
pub fn session_id(given: Option<String>) -> (r: String)
    ensures
        match given {
            Some(id) => r@ == id@,
            None => is_uuid_v4(r@),
        },
{
    let drawn = if given.is_none() {
        fresh_uuid()
    } else {
        String::new()
    };
    session_id_from(given, drawn)
}

/// Whether the control API is to run: unless its address is the word `off`, in
/// capitals or not.
pub fn control_enabled(control: &str) -> (r: bool)
    ensures
        r == (control@.map_values(|c: char| crate::text::ascii_lower(c)) != "off"@),
{
    let lowered = lowercase_ascii(control);
    !same_text(lowered.as_str(), "off")
}

/// The receiver of records, if one is named. A receiver needs a key; a key
/// without a receiver does nothing.
pub fn remote_sink(endpoint: Option<String>, api_key: Option<String>) -> (r: Result<
    Option<RemoteSink>,
    StartupError,
>)
    ensures
        match (endpoint, api_key) {
            (Some(e), Some(k)) => r matches Ok(Some(sink)) && sink.endpoint@ == e@
                && sink.api_key@ == k@,
            (Some(_), None) => r == Err::<Option<RemoteSink>, StartupError>(
                StartupError::MissingApiKey,
            ),
            (None, _) => r matches Ok(None),
        },
{
    match (endpoint, api_key) {
        (Some(endpoint), Some(api_key)) => Ok(Some(RemoteSink { endpoint, api_key })),
        (Some(_), None) => Err(StartupError::MissingApiKey),
        (None, _) => Ok(None),
    }
}

/// The texts of a list of strings.
pub open spec fn texts(words: Seq<String>) -> Seq<Seq<char>> {
    words.map_values(|w: String| w@)
}

/// Splits the upstream command line into the command and its arguments.
pub fn split_upstream(upstream: &Vec<String>) -> (r: Result<(String, Vec<String>), StartupError>)
    ensures
        match r {
            Ok((command, args)) => upstream@.len() > 0 && texts(upstream@) == seq![command@]
                + texts(args@),
            Err(e) => upstream@.len() == 0 && e == StartupError::NoUpstream,
        },
{
    if upstream.len() == 0 {
        return Err(StartupError::NoUpstream);
    }
    let command = upstream[0].clone();
    let mut args: Vec<String> = Vec::new();
    let mut i: usize = 1;
    while i < upstream.len()
        invariant
            1 <= i <= upstream@.len(),
            args@.len() == i - 1,
            forall|j: int| 0 <= j < args@.len() ==> (#[trigger] args@[j])@ == upstream@[j + 1]@,
        decreases upstream@.len() - i,
    {
        args.push(upstream[i].clone());
        i += 1;
    }
    assert(texts(upstream@) =~= seq![command@] + texts(args@));
    Ok((command, args))
}

/// Texts in a row with a space between each two.
pub open spec fn joined(words: Seq<Seq<char>>) -> Seq<char>
    decreases words.len(),
{
    if words.len() == 0 {
        Seq::empty()
    } else if words.len() == 1 {
        words[0]
    } else {
        joined(words.drop_last()) + seq![' '] + words.last()
    }
}

/// The upstream command line as one text.
pub fn upstream_label(upstream: &Vec<String>) -> (r: String)
    ensures
        r@ == joined(texts(upstream@)),
{
    proof {
        reveal_strlit(" ");
    }
    let mut label = String::new();
    let ghost words = texts(upstream@);
    let mut i: usize = 0;
    assert(words.take(0) =~= Seq::empty());
    while i < upstream.len()
        invariant
            i <= upstream@.len(),
            words == texts(upstream@),
            " "@ == seq![' '],
            label@ == joined(words.take(i as int)),
        decreases upstream@.len() - i,
    {
        if i > 0 {
            label.append(" ");
        }
        label.append(upstream[i].as_str());
        assert(words.take(i + 1).drop_last() =~= words.take(i as int));
        i += 1;
    }
    assert(words.take(i as int) =~= words);
    label
}

/// Strings have their texts, each in its place.
pub proof fn law_texts_are_those_of_the_strings(words: Seq<String>)
    ensures
        texts(words).len() == words.len(),
        forall|i: int| 0 <= i < words.len() ==> #[trigger] texts(words)[i] == words[i]@,
{
}

/// No words join to nothing, one word to itself, and two rows of words to what
/// they join to, with one space between.
pub proof fn law_words_are_joined_by_single_spaces(
    first: Seq<Seq<char>>,
    second: Seq<Seq<char>>,
    word: Seq<char>,
)
    requires
        first.len() > 0,
        second.len() > 0,
    ensures
        joined(Seq::empty()) == Seq::<char>::empty(),
        joined(seq![word]) == word,
        joined(first + second) == joined(first) + seq![' '] + joined(second),
    decreases second.len(),
{
    let both = first + second;
    let earlier = second.drop_last();
    assert(both.drop_last() =~= first + earlier);
    assert(both.last() == second.last());
    if second.len() == 1 {
        assert(first + earlier =~= first);
    } else {
        law_words_are_joined_by_single_spaces(first, earlier, word);
        assert(joined(both) =~= joined(first) + seq![' '] + joined(second));
    }
}

} // verus!
