//! Transcript to structured command.
//!
//! A transcript is matched against a vocabulary of keywords; the first token
//! found in the vocabulary picks the command.  Timer commands re-scan the
//! transcript for a duration unit ("second", "minute", "hour") and a number
//! phrase, and combine them into a duration in seconds.

use vstd::prelude::*;

use crate::number::{
    parse_number_from_voice, spec_parse_number, spec_tokens, tokenize, views_of,
};

verus! {

/// The command categories a vocabulary can map a keyword to.
#[derive(Clone, Copy, Debug, PartialEq, Eq, Structural)]
pub enum CommandType {
    Weather,
    News,
    Timer,
}

/// A recognised command.  A timer carries its duration in seconds.
#[derive(Clone, Copy, Debug, PartialEq, Eq, Structural)]
pub enum Command {
    Weather,
    News,
    Timer(u64),
}

// ---------------------------------------------------------------------------
// Substring search, for the duration unit words.
// ---------------------------------------------------------------------------

/// `p` occurs in `s` starting at position `i`.
pub open spec fn match_at(s: Seq<char>, p: Seq<char>, i: int) -> bool {
    0 <= i && i + p.len() <= s.len() && s.subrange(i, i + p.len() as int) == p
}

/// `p` occurs somewhere in `s`.
pub open spec fn spec_contains(s: Seq<char>, p: Seq<char>) -> bool {
    exists|i: int| match_at(s, p, i)
}

/// The characters of `s`, as a vector.
pub fn str_chars(s: &str) -> (r: Vec<char>)
    ensures
        r@ == s@,
{
    let n = s.unicode_len();
    let mut r: Vec<char> = Vec::new();
    let mut i: usize = 0;
    while i < n
        invariant
            i <= n,
            n == s@.len(),
            r@ == s@.subrange(0, i as int),
        decreases n - i,
    {
        r.push(s.get_char(i));
        proof {
            assert(r@ =~= s@.subrange(0, i + 1));
        }
        i = i + 1;
    }
    proof {
        assert(r@ =~= s@);
    }
    r
}

/// Whether `needle` occurs in `hay` starting at `i`.
fn matches_at(hay: &Vec<char>, needle: &str, i: usize) -> (r: bool)
    requires
        i + needle@.len() <= hay@.len(),
    ensures
        r == match_at(hay@, needle@, i as int),
{
    let n = needle.unicode_len();
    let hl = hay.len();
    let mut j: usize = 0;
    while j < n
        invariant
            j <= n,
            n == needle@.len(),
            hl == hay@.len(),
            i + n <= hl,
            forall|k: int| 0 <= k < j ==> hay@[i + k] == needle@[k],
        decreases n - j,
    {
        if hay[i + j] != needle.get_char(j) {
            proof {
                assert(hay@.subrange(i as int, i + n) != needle@) by {
                    assert(hay@.subrange(i as int, i + n)[j as int] != needle@[j as int]);
                }
            }
            return false;
        }
        j = j + 1;
    }
    proof {
        assert(hay@.subrange(i as int, i + n) =~= needle@);
    }
    true
}

/// Whether `needle` occurs anywhere in `hay`.
fn contains_chars(hay: &Vec<char>, needle: &str) -> (r: bool)
    ensures
        r == spec_contains(hay@, needle@),
{
    let n = needle.unicode_len();
    if n > hay.len() {
        proof {
            assert(forall|i: int| !match_at(hay@, needle@, i));
        }
        return false;
    }
    if n == 0 {
        proof {
            assert(hay@.subrange(0, 0) =~= needle@);
            assert(match_at(hay@, needle@, 0));
        }
        return true;
    }
    let hl = hay.len();
    let mut i: usize = 0;
    while i <= hl - n
        invariant
            n == needle@.len(),
            1 <= n <= hl,
            hl == hay@.len(),
            i <= hl - n + 1,
            forall|k: int| 0 <= k < i ==> !match_at(hay@, needle@, k),
        decreases hl - i,
    {
        if matches_at(hay, needle, i) {
            proof {
                assert(match_at(hay@, needle@, i as int));
            }
            return true;
        }
        i = i + 1;
    }
    proof {
        assert(forall|k: int| match_at(hay@, needle@, k) ==> k + n <= hay@.len());
        assert(forall|k: int| !match_at(hay@, needle@, k));
    }
    false
}

// ---------------------------------------------------------------------------
// Vocabulary lookup.
// ---------------------------------------------------------------------------

/// The view of a vocabulary: each keyword as its characters.
pub open spec fn vocab_view(m: Seq<(String, CommandType)>) -> Seq<(Seq<char>, CommandType)> {
    m.map_values(|e: (String, CommandType)| (e.0@, e.1))
}

/// The category of the first vocabulary entry whose keyword is `w`.
pub open spec fn spec_lookup(vocab: Seq<(Seq<char>, CommandType)>, w: Seq<char>) -> Option<
    CommandType,
>
    decreases vocab.len(),
{
    if vocab.len() == 0 {
        None
    } else if vocab[0].0 == w {
        Some(vocab[0].1)
    } else {
        spec_lookup(vocab.drop_first(), w)
    }
}

/// A lookup may start past entries whose keyword is not `w`.
proof fn lemma_lookup_skip(vocab: Seq<(Seq<char>, CommandType)>, w: Seq<char>, i: int)
    requires
        0 <= i <= vocab.len(),
        forall|j: int| 0 <= j < i ==> vocab[j].0 != w,
    ensures
        spec_lookup(vocab, w) == spec_lookup(vocab.skip(i), w),
    decreases i,
{
    if i > 0 {
        lemma_lookup_skip(vocab, w, i - 1);
        assert(vocab.skip(i - 1).drop_first() =~= vocab.skip(i));
    } else {
        assert(vocab.skip(0) =~= vocab);
    }
}

/// The category picked from a sequence of tokens: the first token that the
/// vocabulary knows decides.
pub open spec fn spec_first_command(
    vocab: Seq<(Seq<char>, CommandType)>,
    toks: Seq<Seq<char>>,
) -> Option<CommandType>
    decreases toks.len(),
{
    if toks.len() == 0 {
        None
    } else {
        match spec_lookup(vocab, toks[0]) {
            Some(t) => Some(t),
            None => spec_first_command(vocab, toks.drop_first()),
        }
    }
}

/// Token scanning may start past tokens that the vocabulary does not know.
proof fn lemma_first_command_skip(
    vocab: Seq<(Seq<char>, CommandType)>,
    toks: Seq<Seq<char>>,
    i: int,
)
    requires
        0 <= i <= toks.len(),
        forall|j: int| 0 <= j < i ==> spec_lookup(vocab, #[trigger] toks[j]) is None,
    ensures
        spec_first_command(vocab, toks) == spec_first_command(vocab, toks.skip(i)),
    decreases i,
{
    if i > 0 {
        lemma_first_command_skip(vocab, toks, i - 1);
        assert(toks.skip(i - 1).drop_first() =~= toks.skip(i));
    } else {
        assert(toks.skip(0) =~= toks);
    }
}

// ---------------------------------------------------------------------------
// The interpreter.
// ---------------------------------------------------------------------------

/// The duration unit named in a transcript, in seconds: "second" wins over
/// "minute", which wins over "hour".
pub open spec fn spec_unit_seconds(s: Seq<char>) -> Option<int> {
    if spec_contains(s, "second"@) {
        Some(1)
    } else if spec_contains(s, "minute"@) {
        Some(60)
    } else if spec_contains(s, "hour"@) {
        Some(3600)
    } else {
        None
    }
}

/// The timer command read from a transcript: a number phrase combined with a
/// duration unit.  There is no timer when the transcript holds no number
/// phrase, a negative one, no unit word, or a duration beyond the machine
/// range.
pub open spec fn spec_parse_timer(s: Seq<char>) -> Option<Command> {
    match spec_parse_number(s) {
        None => None,
        Some(n) => if n < 0 {
            None
        } else {
            match spec_unit_seconds(s) {
                None => None,
                Some(u) => if n * u <= u64::MAX {
                    Some(Command::Timer((n * u) as u64))
                } else {
                    None
                },
            }
        },
    }
}

/// The command read from a transcript against a vocabulary.
pub open spec fn spec_parse_command(
    vocab: Seq<(Seq<char>, CommandType)>,
    s: Seq<char>,
) -> Option<Command> {
    match spec_first_command(vocab, spec_tokens(s)) {
        None => None,
        Some(CommandType::Weather) => Some(Command::Weather),
        Some(CommandType::News) => Some(Command::News),
        Some(CommandType::Timer) => spec_parse_timer(s),
    }
}

/// Maps transcripts to commands against a fixed keyword vocabulary.  The
/// vocabulary is handed in by the caller; reading it from wherever it is
/// stored is the embedder's concern.
pub struct CommandParser {
    command_map: Vec<(String, CommandType)>,
}

impl View for CommandParser {
    type V = Seq<(Seq<char>, CommandType)>;

    closed spec fn view(&self) -> Seq<(Seq<char>, CommandType)> {
        vocab_view(self.command_map@)
    }
}

impl CommandParser {
    /// Builds a parser over the given keyword vocabulary.  When a keyword
    /// occurs twice, its first entry decides.
    pub fn new(command_map: Vec<(String, CommandType)>) -> (parser: Self)
        ensures
            parser@ == vocab_view(command_map@),
    {
        CommandParser { command_map }
    }

    /// The category of the first vocabulary entry for this word, if any.
    fn lookup(&self, w: &Vec<char>) -> (r: Option<CommandType>)
        ensures
            r == spec_lookup(self@, w@),
    {
        let mut i: usize = 0;
        while i < self.command_map.len()
            invariant
                i <= self.command_map@.len(),
                forall|j: int| 0 <= j < i ==> (#[trigger] vocab_view(self.command_map@)[j]).0
                    != w@,
            decreases self.command_map.len() - i,
        {
            if crate::number::token_eq_str(w, self.command_map[i].0.as_str()) {
                proof {
                    lemma_lookup_skip(self@, w@, i as int);
                }
                return Some(self.command_map[i].1);
            }
            i = i + 1;
        }
        proof {
            lemma_lookup_skip(self@, w@, self.command_map@.len() as int);
            assert(self@.skip(self.command_map@.len() as int).len() == 0);
        }
        None
    }

    /// Reads the transcript as a command: the first token the vocabulary
    /// knows picks the category, and a timer category is completed from the
    /// number phrase and the unit word in the transcript.
    pub fn parse(&self, command: &str) -> (r: Option<Command>)
        ensures
            r == spec_parse_command(self@, command@),
    {
        let toks = tokenize(command);
        let ghost tv = views_of(toks@);
        let mut i: usize = 0;
        while i < toks.len()
            invariant
                i <= toks.len(),
                tv == views_of(toks@),
                tv == spec_tokens(command@),
                tv.len() == toks@.len(),
                forall|j: int| 0 <= j < tv.len() ==> tv[j] == toks@[j]@,
                forall|j: int| 0 <= j < i ==> spec_lookup(self@, #[trigger] tv[j]) is None,
            decreases toks.len() - i,
        {
            match self.lookup(&toks[i]) {
                Some(t) => {
                    proof {
                        lemma_first_command_skip(self@, tv, i as int);
                        assert(tv.skip(i as int)[0] == tv[i as int]);
                    }
                    return match t {
                        CommandType::Weather => Some(Command::Weather),
                        CommandType::News => Some(Command::News),
                        CommandType::Timer => self.parse_timer(command),
                    };
                },
                None => {},
            }
            i = i + 1;
        }
        proof {
            lemma_first_command_skip(self@, tv, tv.len() as int);
            assert(tv.skip(tv.len() as int).len() == 0);
        }
        None
    }

    /// Reads the transcript as a timer command: the number phrase gives the
    /// count, the unit word the scale.  Returns nothing rather than a zero
    /// or out-of-range duration when either part is missing.
    pub fn parse_timer(&self, command: &str) -> (r: Option<Command>)
        ensures
            r == spec_parse_timer(command@),
    {
        let number = match parse_number_from_voice(command) {
            Some(n) => n,
            None => {
                return None;
            },
        };
        if number < 0 {
            return None;
        }
        let cs = str_chars(command);
        let unit: u64 = if contains_chars(&cs, "second") {
            1
        } else if contains_chars(&cs, "minute") {
            60
        } else if contains_chars(&cs, "hour") {
            3600
        } else {
            return None;
        };
        let secs: u128 = (number as u128) * (unit as u128);
        if secs > u64::MAX as u128 {
            return None;
        }
        Some(Command::Timer(secs as u64))
    }
}

} // verus!
