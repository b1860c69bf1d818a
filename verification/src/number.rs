//! Spoken-English number phrases.
//!
//! `parse_number_from_voice` scans a transcript left to right and folds the
//! number words it finds into one integer ("one hundred and twelve thousand
//! and sixty two" becomes 112062).  Two digit words in a row switch the whole
//! transcript to digit-by-digit dictation ("one two three four" becomes 1234).
//! The contract of every function here is exact: the result is a pure
//! function of the transcript text, given by the specification state machine
//! in this module.

use vstd::prelude::*;

verus! {

// ---------------------------------------------------------------------------
// Tokenisation: a transcript is split into words on ASCII whitespace.
// ---------------------------------------------------------------------------

/// A character that separates words of a transcript.
pub open spec fn is_space(c: char) -> bool {
    c == ' ' || c == '\t' || c == '\n' || c == '\r' || c == '\u{b}' || c == '\u{c}'
}

/// State of the left-to-right tokeniser: words already completed, and the
/// (possibly empty) word currently being read.
pub struct TokState {
    pub done: Seq<Seq<char>>,
    pub cur: Seq<char>,
}

pub open spec fn tok_init() -> TokState {
    TokState { done: seq![], cur: seq![] }
}

pub open spec fn tok_step(st: TokState, c: char) -> TokState {
    if is_space(c) {
        if st.cur.len() == 0 {
            st
        } else {
            TokState { done: st.done.push(st.cur), cur: seq![] }
        }
    } else {
        TokState { done: st.done, cur: st.cur.push(c) }
    }
}

/// The tokeniser state after reading the first `n` characters of `s`.
pub open spec fn tok_fold(s: Seq<char>, n: int) -> TokState
    decreases n,
{
    if n <= 0 {
        tok_init()
    } else {
        tok_step(tok_fold(s, n - 1), s[n - 1])
    }
}

/// The words of `s`, in order, with all whitespace removed.
pub open spec fn spec_tokens(s: Seq<char>) -> Seq<Seq<char>> {
    let st = tok_fold(s, s.len() as int);
    if st.cur.len() == 0 {
        st.done
    } else {
        st.done.push(st.cur)
    }
}

/// The views of a vector of words.
pub open spec fn views_of(ts: Seq<Vec<char>>) -> Seq<Seq<char>> {
    ts.map_values(|t: Vec<char>| t@)
}

/// Splits `s` into words on ASCII whitespace.
pub fn tokenize(s: &str) -> (toks: Vec<Vec<char>>)
    ensures
        views_of(toks@) == spec_tokens(s@),
{
    let n = s.unicode_len();
    let mut toks: Vec<Vec<char>> = Vec::new();
    let mut cur: Vec<char> = Vec::new();
    let mut i: usize = 0;
    proof {
        assert(views_of(toks@) =~= tok_fold(s@, 0).done);
    }
    while i < n
        invariant
            n == s@.len(),
            i <= n,
            views_of(toks@) == tok_fold(s@, i as int).done,
            cur@ == tok_fold(s@, i as int).cur,
        decreases n - i,
    {
        let ghost pre = tok_fold(s@, i as int);
        let c = s.get_char(i);
        if c == ' ' || c == '\t' || c == '\n' || c == '\r' || c == '\u{b}' || c == '\u{c}' {
            if cur.len() > 0 {
                let ghost old_toks = toks@;
                toks.push(cur);
                cur = Vec::new();
                proof {
                    assert(views_of(toks@) =~= views_of(old_toks).push(pre.cur));
                }
            }
        } else {
            cur.push(c);
        }
        i = i + 1;
    }
    if cur.len() > 0 {
        let ghost old_toks = toks@;
        let ghost last_cur = cur@;
        toks.push(cur);
        proof {
            assert(views_of(toks@) =~= views_of(old_toks).push(last_cur));
        }
    }
    toks
}

// ---------------------------------------------------------------------------
// Word classification.
// ---------------------------------------------------------------------------

/// The class a word falls in when a number phrase is read.  The recognised
/// vocabulary keeps the historical spellings "fourty" and "ninteen".
#[derive(PartialEq, Eq, Structural)]
pub enum NumWord {
    /// A single digit, "zero" to "nine".
    Digit(i64),
    /// "ten" to "ninteen": starts or extends a chunk but cannot chain.
    Teen(i64),
    /// A multiple of ten, "twenty" to "ninety": chains with a following unit.
    Decade(i64),
    /// "hundred", "thousand", "million" or "billion": multiplies a chunk.
    Magnitude(i64),
    /// "and": keeps the current chunk open.
    Chain,
    /// Any word that is not part of the number vocabulary.
    Other,
}

/// The classification of one word.
pub open spec fn spec_word_class(w: Seq<char>) -> NumWord {
    if w == "zero"@ {
        NumWord::Digit(0)
    } else if w == "one"@ {
        NumWord::Digit(1)
    } else if w == "two"@ {
        NumWord::Digit(2)
    } else if w == "three"@ {
        NumWord::Digit(3)
    } else if w == "four"@ {
        NumWord::Digit(4)
    } else if w == "five"@ {
        NumWord::Digit(5)
    } else if w == "six"@ {
        NumWord::Digit(6)
    } else if w == "seven"@ {
        NumWord::Digit(7)
    } else if w == "eight"@ {
        NumWord::Digit(8)
    } else if w == "nine"@ {
        NumWord::Digit(9)
    } else if w == "ten"@ {
        NumWord::Teen(10)
    } else if w == "eleven"@ {
        NumWord::Teen(11)
    } else if w == "twelve"@ {
        NumWord::Teen(12)
    } else if w == "thirteen"@ {
        NumWord::Teen(13)
    } else if w == "fourteen"@ {
        NumWord::Teen(14)
    } else if w == "fifteen"@ {
        NumWord::Teen(15)
    } else if w == "sixteen"@ {
        NumWord::Teen(16)
    } else if w == "seventeen"@ {
        NumWord::Teen(17)
    } else if w == "eighteen"@ {
        NumWord::Teen(18)
    } else if w == "ninteen"@ {
        NumWord::Teen(19)
    } else if w == "twenty"@ {
        NumWord::Decade(20)
    } else if w == "thirty"@ {
        NumWord::Decade(30)
    } else if w == "fourty"@ {
        NumWord::Decade(40)
    } else if w == "fifty"@ {
        NumWord::Decade(50)
    } else if w == "sixty"@ {
        NumWord::Decade(60)
    } else if w == "seventy"@ {
        NumWord::Decade(70)
    } else if w == "eighty"@ {
        NumWord::Decade(80)
    } else if w == "ninety"@ {
        NumWord::Decade(90)
    } else if w == "hundred"@ {
        NumWord::Magnitude(100)
    } else if w == "thousand"@ {
        NumWord::Magnitude(1000)
    } else if w == "million"@ {
        NumWord::Magnitude(1000000)
    } else if w == "billion"@ {
        NumWord::Magnitude(1000000000)
    } else if w == "and"@ {
        NumWord::Chain
    } else {
        NumWord::Other
    }
}

/// True when the word and the string hold the same characters.
pub fn token_eq_str(w: &Vec<char>, lit: &str) -> (r: bool)
    ensures
        r == (w@ == lit@),
{
    let n = lit.unicode_len();
    if w.len() != n {
        return false;
    }
    let mut i: usize = 0;
    while i < n
        invariant
            i <= n,
            n == lit@.len(),
            w@.len() == n,
            forall|j: int| 0 <= j < i ==> w@[j] == lit@[j],
        decreases n - i,
    {
        if w[i] != lit.get_char(i) {
            return false;
        }
        i = i + 1;
    }
    proof {
        assert(w@ =~= lit@);
    }
    true
}

/// Classifies one word of a transcript.
pub fn word_class(w: &Vec<char>) -> (c: NumWord)
    ensures
        c == spec_word_class(w@),
{
    if token_eq_str(w, "zero") {
        NumWord::Digit(0)
    } else if token_eq_str(w, "one") {
        NumWord::Digit(1)
    } else if token_eq_str(w, "two") {
        NumWord::Digit(2)
    } else if token_eq_str(w, "three") {
        NumWord::Digit(3)
    } else if token_eq_str(w, "four") {
        NumWord::Digit(4)
    } else if token_eq_str(w, "five") {
        NumWord::Digit(5)
    } else if token_eq_str(w, "six") {
        NumWord::Digit(6)
    } else if token_eq_str(w, "seven") {
        NumWord::Digit(7)
    } else if token_eq_str(w, "eight") {
        NumWord::Digit(8)
    } else if token_eq_str(w, "nine") {
        NumWord::Digit(9)
    } else if token_eq_str(w, "ten") {
        NumWord::Teen(10)
    } else if token_eq_str(w, "eleven") {
        NumWord::Teen(11)
    } else if token_eq_str(w, "twelve") {
        NumWord::Teen(12)
    } else if token_eq_str(w, "thirteen") {
        NumWord::Teen(13)
    } else if token_eq_str(w, "fourteen") {
        NumWord::Teen(14)
    } else if token_eq_str(w, "fifteen") {
        NumWord::Teen(15)
    } else if token_eq_str(w, "sixteen") {
        NumWord::Teen(16)
    } else if token_eq_str(w, "seventeen") {
        NumWord::Teen(17)
    } else if token_eq_str(w, "eighteen") {
        NumWord::Teen(18)
    } else if token_eq_str(w, "ninteen") {
        NumWord::Teen(19)
    } else if token_eq_str(w, "twenty") {
        NumWord::Decade(20)
    } else if token_eq_str(w, "thirty") {
        NumWord::Decade(30)
    } else if token_eq_str(w, "fourty") {
        NumWord::Decade(40)
    } else if token_eq_str(w, "fifty") {
        NumWord::Decade(50)
    } else if token_eq_str(w, "sixty") {
        NumWord::Decade(60)
    } else if token_eq_str(w, "seventy") {
        NumWord::Decade(70)
    } else if token_eq_str(w, "eighty") {
        NumWord::Decade(80)
    } else if token_eq_str(w, "ninety") {
        NumWord::Decade(90)
    } else if token_eq_str(w, "hundred") {
        NumWord::Magnitude(100)
    } else if token_eq_str(w, "thousand") {
        NumWord::Magnitude(1000)
    } else if token_eq_str(w, "million") {
        NumWord::Magnitude(1000000)
    } else if token_eq_str(w, "billion") {
        NumWord::Magnitude(1000000000)
    } else if token_eq_str(w, "and") {
        NumWord::Chain
    } else {
        NumWord::Other
    }
}

// ---------------------------------------------------------------------------
// The number-phrase state machine.
// ---------------------------------------------------------------------------

/// The in-range test for the machine's accumulators: every value the parser
/// keeps must fit the result type.
pub open spec fn fits_i64(x: int) -> bool {
    i64::MIN <= x <= i64::MAX
}

pub open spec fn opt0(x: Option<int>) -> int {
    match x {
        Some(v) => v,
        None => 0,
    }
}

/// The accumulators of the scan.  `curr` is a not-yet-committed chunk;
/// `total` holds only committed chunks.
pub struct NumState {
    pub total: Option<int>,
    pub curr: Option<int>,
    pub found_prefix: bool,
    pub chain: bool,
    pub last_prefix: Option<int>,
    pub last_mag: Option<int>,
    pub last_was_digit: bool,
}

/// Outcome of reading a prefix of the words: still scanning, switched to
/// digit dictation, or an accumulator left the machine range.
pub enum NumFold {
    Going(NumState),
    Dictation,
    Overflow,
}

pub open spec fn num_init() -> NumState {
    NumState {
        total: None,
        curr: None,
        found_prefix: false,
        chain: false,
        last_prefix: None,
        last_mag: None,
        last_was_digit: false,
    }
}

/// One step of the scan.  Digit and teen words commit the pending chunk and
/// open a new one unless a chain is active; decade words add into the chunk
/// and open a chain; a magnitude multiplies the chunk, or, when magnitudes
/// grow without an active chain, retroactively multiplies the committed
/// chunk; "and" opens a chain; any other word closes the phrase.
pub open spec fn num_step(st: NumState, w: Seq<char>) -> NumFold {
    match spec_word_class(w) {
        NumWord::Digit(d) => {
            if st.last_was_digit {
                NumFold::Dictation
            } else {
                if !st.chain {
                    let t2 = opt0(st.total) + opt0(st.curr);
                    if !fits_i64(t2) {
                        NumFold::Overflow
                    } else {
                        NumFold::Going(NumState {
                            total: Some(t2),
                            curr: Some(d as int),
                            found_prefix: true,
                            chain: st.chain,
                            last_prefix: Some(d as int),
                            last_mag: st.last_mag,
                            last_was_digit: true,
                        })
                    }
                } else {
                    let c2 = opt0(st.curr) + d;
                    if !fits_i64(c2) {
                        NumFold::Overflow
                    } else {
                        NumFold::Going(NumState {
                            total: st.total,
                            curr: Some(c2),
                            found_prefix: true,
                            chain: st.chain,
                            last_prefix: Some(d as int),
                            last_mag: st.last_mag,
                            last_was_digit: true,
                        })
                    }
                }
            }
        },
        NumWord::Teen(v) => {
            if !st.chain {
                let t2 = opt0(st.total) + opt0(st.curr);
                if !fits_i64(t2) {
                    NumFold::Overflow
                } else {
                    NumFold::Going(NumState {
                        total: Some(t2),
                        curr: Some(v as int),
                        found_prefix: true,
                        chain: st.chain,
                        last_prefix: Some(v as int),
                        last_mag: st.last_mag,
                        last_was_digit: st.last_was_digit,
                    })
                }
            } else {
                let c2 = opt0(st.curr) + v;
                if !fits_i64(c2) {
                    NumFold::Overflow
                } else {
                    NumFold::Going(NumState {
                        total: st.total,
                        curr: Some(c2),
                        found_prefix: true,
                        chain: st.chain,
                        last_prefix: Some(v as int),
                        last_mag: st.last_mag,
                        last_was_digit: st.last_was_digit,
                    })
                }
            }
        },
        NumWord::Decade(v) => {
            let c2 = opt0(st.curr) + v;
            if !fits_i64(c2) {
                NumFold::Overflow
            } else {
                NumFold::Going(NumState {
                    total: st.total,
                    curr: Some(c2),
                    found_prefix: st.found_prefix,
                    chain: true,
                    last_prefix: st.last_prefix,
                    last_mag: st.last_mag,
                    last_was_digit: false,
                })
            }
        },
        NumWord::Magnitude(val) => {
            let lm0 = match st.last_mag {
                Some(m) => m,
                None => val as int,
            };
            if lm0 < val && !st.chain {
                let lp = opt0(st.last_prefix);
                let prod1 = lp * lm0;
                let t2 = opt0(st.total) - prod1;
                let v2 = (val as int) * lm0;
                let prod2 = lp * v2;
                let c2 = opt0(st.curr) + prod2;
                if !(fits_i64(prod1) && fits_i64(t2) && fits_i64(v2) && fits_i64(prod2)
                    && fits_i64(c2)) {
                    NumFold::Overflow
                } else {
                    NumFold::Going(NumState {
                        total: Some(t2),
                        curr: Some(c2),
                        found_prefix: st.found_prefix,
                        chain: false,
                        last_prefix: st.last_prefix,
                        last_mag: Some(v2),
                        last_was_digit: false,
                    })
                }
            } else if st.found_prefix {
                let c2 = opt0(st.curr) * val;
                if !fits_i64(c2) {
                    NumFold::Overflow
                } else {
                    NumFold::Going(NumState {
                        total: st.total,
                        curr: Some(c2),
                        found_prefix: st.found_prefix,
                        chain: false,
                        last_prefix: st.last_prefix,
                        last_mag: Some(val as int),
                        last_was_digit: false,
                    })
                }
            } else {
                NumFold::Going(NumState {
                    total: st.total,
                    curr: Some(val as int),
                    found_prefix: true,
                    chain: false,
                    last_prefix: Some(1),
                    last_mag: Some(val as int),
                    last_was_digit: false,
                })
            }
        },
        NumWord::Chain => NumFold::Going(NumState {
            total: st.total,
            curr: st.curr,
            found_prefix: st.found_prefix,
            chain: true,
            last_prefix: st.last_prefix,
            last_mag: st.last_mag,
            last_was_digit: false,
        }),
        NumWord::Other => NumFold::Going(NumState {
            total: st.total,
            curr: st.curr,
            found_prefix: false,
            chain: false,
            last_prefix: st.last_prefix,
            last_mag: st.last_mag,
            last_was_digit: false,
        }),
    }
}

/// The machine after reading the first `n` words.  Dictation and overflow
/// are absorbing.
pub open spec fn num_fold(toks: Seq<Seq<char>>, n: int) -> NumFold
    decreases n,
{
    if n <= 0 {
        NumFold::Going(num_init())
    } else {
        match num_fold(toks, n - 1) {
            NumFold::Going(st) => num_step(st, toks[n - 1]),
            NumFold::Dictation => NumFold::Dictation,
            NumFold::Overflow => NumFold::Overflow,
        }
    }
}

/// At the end of the scan the pending chunk is committed.
pub open spec fn num_finish(st: NumState) -> Option<int> {
    match st.curr {
        Some(c) => {
            let t2 = opt0(st.total) + c;
            if fits_i64(t2) {
                Some(t2)
            } else {
                None
            }
        },
        None => st.total,
    }
}

// ---------------------------------------------------------------------------
// Digit dictation: "zero zero zero seven" is read digit by digit.
// ---------------------------------------------------------------------------

/// The value read from the digit words among the first `n` words, and
/// whether any digit word occurred there.
pub open spec fn digits_fold(toks: Seq<Seq<char>>, n: int) -> (int, bool)
    decreases n,
{
    if n <= 0 {
        (0, false)
    } else {
        let prev = digits_fold(toks, n - 1);
        match spec_word_class(toks[n - 1]) {
            NumWord::Digit(d) => (prev.0 * 10 + d, true),
            _ => prev,
        }
    }
}

/// The digit-dictation reading of a word sequence: the digit words
/// concatenated as decimal digits, or nothing when no digit word occurs or
/// the value does not fit the result type.
pub open spec fn spec_parse_digits(toks: Seq<Seq<char>>) -> Option<int> {
    let f = digits_fold(toks, toks.len() as int);
    if !f.1 {
        None
    } else if f.0 <= i64::MAX {
        Some(f.0)
    } else {
        None
    }
}

/// What the whole scan returns for a word sequence.
pub open spec fn spec_parse_tokens(toks: Seq<Seq<char>>) -> Option<int> {
    match num_fold(toks, toks.len() as int) {
        NumFold::Going(st) => num_finish(st),
        NumFold::Dictation => spec_parse_digits(toks),
        NumFold::Overflow => None,
    }
}

/// What the whole scan returns for a transcript.
pub open spec fn spec_parse_number(s: Seq<char>) -> Option<int> {
    spec_parse_tokens(spec_tokens(s))
}

pub open spec fn opt_view(x: Option<i64>) -> Option<int> {
    match x {
        Some(v) => Some(v as int),
        None => None,
    }
}

/// Dictation and overflow persist to the end of the scan.
proof fn lemma_fold_absorbs(toks: Seq<Seq<char>>, i: int, n: int)
    requires
        0 <= i <= n,
        num_fold(toks, i) == NumFold::Dictation || num_fold(toks, i) == NumFold::Overflow,
    ensures
        num_fold(toks, n) == num_fold(toks, i),
    decreases n - i,
{
    if i < n {
        lemma_fold_absorbs(toks, i, n - 1);
    }
}

/// The dictation value is never negative.
proof fn lemma_digits_nonneg(toks: Seq<Seq<char>>, n: int)
    ensures
        digits_fold(toks, n).0 >= 0,
    decreases n,
{
    if n > 0 {
        lemma_digits_nonneg(toks, n - 1);
    }
}

/// The dictation value never decreases as the scan extends, and once a digit
/// word has occurred, it stays seen.
proof fn lemma_digits_monotone(toks: Seq<Seq<char>>, i: int, n: int)
    requires
        0 <= i <= n,
    ensures
        digits_fold(toks, i).0 <= digits_fold(toks, n).0,
        digits_fold(toks, i).1 ==> digits_fold(toks, n).1,
    decreases n - i,
{
    if i < n {
        lemma_digits_monotone(toks, i, n - 1);
        lemma_digits_nonneg(toks, n - 1);
    }
}

/// The product of two values in the machine range fits well inside `i128`.
proof fn lemma_i64_mul_fits_i128(a: int, b: int)
    requires
        i64::MIN <= a <= i64::MAX,
        i64::MIN <= b <= i64::MAX,
    ensures
        -0x40000000000000000000000000000000 <= a * b <= 0x40000000000000000000000000000000,
{
    assert(-0x40000000000000000000000000000000 <= a * b
        <= 0x40000000000000000000000000000000) by (nonlinear_arith)
        requires
            i64::MIN <= a <= i64::MAX,
            i64::MIN <= b <= i64::MAX,
    ;
}

/// Reads the digit words of `toks` as one decimal number.
fn parse_digits_tokens(toks: &Vec<Vec<char>>) -> (r: Option<i64>)
    ensures
        opt_view(r) == spec_parse_digits(views_of(toks@)),
{
    let ghost tv = views_of(toks@);
    let mut value: i64 = 0;
    let mut any: bool = false;
    let mut i: usize = 0;
    while i < toks.len()
        invariant
            i <= toks.len(),
            tv == views_of(toks@),
            tv.len() == toks@.len(),
            forall|j: int| 0 <= j < tv.len() ==> tv[j] == toks@[j]@,
            value as int == digits_fold(tv, i as int).0,
            any == digits_fold(tv, i as int).1,
            value >= 0,
        decreases toks.len() - i,
    {
        let w = &toks[i];
        match word_class(w) {
            NumWord::Digit(d) => {
                let v2: i128 = (value as i128) * 10 + (d as i128);
                if v2 > i64::MAX as i128 {
                    proof {
                        lemma_digits_monotone(tv, i + 1, tv.len() as int);
                    }
                    return None;
                }
                value = v2 as i64;
                any = true;
            },
            _ => {},
        }
        i = i + 1;
    }
    if any {
        Some(value)
    } else {
        None
    }
}

/// Reads the digit words of a transcript as one decimal number, for
/// transcripts where the speaker dictated digits one by one.
pub fn parse_digits_from_command(command: &str) -> (r: Option<i64>)
    ensures
        opt_view(r) == spec_parse_digits(spec_tokens(command@)),
{
    let toks = tokenize(command);
    parse_digits_tokens(&toks)
}

/// Builds the spec state that corresponds to the executable accumulators.
pub open spec fn exec_state(
    total: Option<i64>,
    curr: Option<i64>,
    found_prefix: bool,
    chain: bool,
    last_prefix: Option<i64>,
    last_mag: Option<i64>,
    last_was_digit: bool,
) -> NumState {
    NumState {
        total: opt_view(total),
        curr: opt_view(curr),
        found_prefix: found_prefix,
        chain: chain,
        last_prefix: opt_view(last_prefix),
        last_mag: opt_view(last_mag),
        last_was_digit: last_was_digit,
    }
}

/// Runs through a transcript and reads any number phrase in it as one
/// integer.  The result is a pure function of the transcript: the
/// specification state machine `spec_parse_number` pins it down exactly, so
/// re-running the parser on the same text always yields the same value.
#[verifier::rlimit(60)]
pub fn parse_number_from_voice(command: &str) -> (r: Option<i64>)
    ensures
        opt_view(r) == spec_parse_number(command@),
{
    let toks = tokenize(command);
    let ghost tv = views_of(toks@);

    let mut total: Option<i64> = None;
    let mut curr: Option<i64> = None;
    let mut found_prefix: bool = false;
    let mut chain: bool = false;
    let mut last_prefix: Option<i64> = None;
    let mut last_mag: Option<i64> = None;
    let mut last_was_digit: bool = false;

    let mut i: usize = 0;
    while i < toks.len()
        invariant
            i <= toks.len(),
            tv == views_of(toks@),
            tv == spec_tokens(command@),
            tv.len() == toks@.len(),
            forall|j: int| 0 <= j < tv.len() ==> tv[j] == toks@[j]@,
            num_fold(tv, i as int) == NumFold::Going(
                exec_state(total, curr, found_prefix, chain, last_prefix, last_mag,
                    last_was_digit),
            ),
        decreases toks.len() - i,
    {
        let ghost pre = exec_state(total, curr, found_prefix, chain, last_prefix, last_mag,
            last_was_digit);
        let w = &toks[i];
        match word_class(w) {
            NumWord::Digit(d) => {
                if last_was_digit {
                    proof {
                        lemma_fold_absorbs(tv, i + 1, tv.len() as int);
                    }
                    return parse_digits_tokens(&toks);
                }
                if !chain {
                    let t2: i128 = (total.unwrap_or(0) as i128) + (curr.unwrap_or(0) as i128);
                    if t2 < i64::MIN as i128 || t2 > i64::MAX as i128 {
                        proof {
                            lemma_fold_absorbs(tv, i + 1, tv.len() as int);
                        }
                        return None;
                    }
                    total = Some(t2 as i64);
                    curr = Some(d);
                } else {
                    let c2: i128 = (curr.unwrap_or(0) as i128) + (d as i128);
                    if c2 < i64::MIN as i128 || c2 > i64::MAX as i128 {
                        proof {
                            lemma_fold_absorbs(tv, i + 1, tv.len() as int);
                        }
                        return None;
                    }
                    curr = Some(c2 as i64);
                }
                found_prefix = true;
                last_prefix = Some(d);
                last_was_digit = true;
            },
            NumWord::Teen(v) => {
                if !chain {
                    let t2: i128 = (total.unwrap_or(0) as i128) + (curr.unwrap_or(0) as i128);
                    if t2 < i64::MIN as i128 || t2 > i64::MAX as i128 {
                        proof {
                            lemma_fold_absorbs(tv, i + 1, tv.len() as int);
                        }
                        return None;
                    }
                    total = Some(t2 as i64);
                    curr = Some(v);
                } else {
                    let c2: i128 = (curr.unwrap_or(0) as i128) + (v as i128);
                    if c2 < i64::MIN as i128 || c2 > i64::MAX as i128 {
                        proof {
                            lemma_fold_absorbs(tv, i + 1, tv.len() as int);
                        }
                        return None;
                    }
                    curr = Some(c2 as i64);
                }
                found_prefix = true;
                last_prefix = Some(v);
            },
            NumWord::Decade(v) => {
                let c2: i128 = (curr.unwrap_or(0) as i128) + (v as i128);
                if c2 < i64::MIN as i128 || c2 > i64::MAX as i128 {
                    proof {
                        lemma_fold_absorbs(tv, i + 1, tv.len() as int);
                    }
                    return None;
                }
                curr = Some(c2 as i64);
                chain = true;
                last_was_digit = false;
            },
            NumWord::Magnitude(val) => {
                let lm0: i64 = match last_mag {
                    Some(m) => m,
                    None => val,
                };
                if lm0 < val && !chain {
                    let lp: i64 = last_prefix.unwrap_or(0);
                    proof {
                        lemma_i64_mul_fits_i128(lp as int, lm0 as int);
                        lemma_i64_mul_fits_i128(val as int, lm0 as int);
                    }
                    let prod1: i128 = (lp as i128) * (lm0 as i128);
                    let t2: i128 = (total.unwrap_or(0) as i128) - prod1;
                    let v2: i128 = (val as i128) * (lm0 as i128);
                    let fit1 = i64::MIN as i128 <= prod1 && prod1 <= i64::MAX as i128;
                    let fit2 = i64::MIN as i128 <= t2 && t2 <= i64::MAX as i128;
                    let fit3 = i64::MIN as i128 <= v2 && v2 <= i64::MAX as i128;
                    if !(fit1 && fit2 && fit3) {
                        proof {
                            lemma_fold_absorbs(tv, i + 1, tv.len() as int);
                        }
                        return None;
                    }
                    proof {
                        lemma_i64_mul_fits_i128(lp as int, v2 as int);
                    }
                    let prod2: i128 = (lp as i128) * v2;
                    let c2: i128 = (curr.unwrap_or(0) as i128) + prod2;
                    let fit4 = i64::MIN as i128 <= prod2 && prod2 <= i64::MAX as i128;
                    let fit5 = i64::MIN as i128 <= c2 && c2 <= i64::MAX as i128;
                    if !(fit4 && fit5) {
                        proof {
                            lemma_fold_absorbs(tv, i + 1, tv.len() as int);
                        }
                        return None;
                    }
                    total = Some(t2 as i64);
                    curr = Some(c2 as i64);
                    last_mag = Some(v2 as i64);
                    chain = false;
                    last_was_digit = false;
                } else if found_prefix {
                    proof {
                        lemma_i64_mul_fits_i128(curr.unwrap_or(0) as int, val as int);
                    }
                    let c2: i128 = (curr.unwrap_or(0) as i128) * (val as i128);
                    if c2 < i64::MIN as i128 || c2 > i64::MAX as i128 {
                        proof {
                            lemma_fold_absorbs(tv, i + 1, tv.len() as int);
                        }
                        return None;
                    }
                    curr = Some(c2 as i64);
                    last_mag = Some(val);
                    chain = false;
                    last_was_digit = false;
                } else {
                    curr = Some(val);
                    last_prefix = Some(1);
                    found_prefix = true;
                    last_mag = Some(val);
                    chain = false;
                    last_was_digit = false;
                }
            },
            NumWord::Chain => {
                chain = true;
                last_was_digit = false;
            },
            NumWord::Other => {
                found_prefix = false;
                chain = false;
                last_was_digit = false;
            },
        }
        proof {
            assert(num_fold(tv, i + 1) == num_step(pre, tv[i as int]));
        }
        i = i + 1;
    }
    match curr {
        Some(c) => {
            let t2: i128 = (total.unwrap_or(0) as i128) + (c as i128);
            if t2 < i64::MIN as i128 || t2 > i64::MAX as i128 {
                None
            } else {
                Some(t2 as i64)
            }
        },
        None => total,
    }
}

} // verus!
