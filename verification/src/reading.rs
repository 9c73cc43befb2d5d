//! Reading a photo: how often it is tried, and the form in which it is sent.
use base64::Engine;
use vstd::prelude::*;

use crate::numbers::decimal_text;

verus! {

use crate::numbers::decimal;

/// How often a file is tried. Another process (an indexer, a sync client) may
/// hold it for a moment.
pub const MAX_ATTEMPTS: u32 = 3;

/// The pause after the first attempt, in milliseconds; it grows with each.
pub const RETRY_PAUSE_MS: u64 = 300;

/// What a failed attempt to read a file leads to.
#[derive(Debug, PartialEq, Eq)]
pub enum ReadDecision {
    /// It is tried again after a pause.
    Retry { pause_ms: u64 },
    /// It is given up, with a message.
    GiveUp(String),
}

/// The message for a file that could not be read.
pub open spec fn unreadable(shown: Seq<char>, error: Seq<char>) -> Seq<char> {
    "failed to read "@ + shown + " after "@ + decimal(MAX_ATTEMPTS as nat) + " attempts: "@ + error
}

/// The pause after a failed attempt (the first is 1), if it is tried again.
pub open spec fn retry_pause(attempt: int) -> Option<int> {
    if attempt < MAX_ATTEMPTS {
        Some(RETRY_PAUSE_MS * attempt)
    } else {
        None
    }
}

/// Decides what the failure of the given attempt (the first is 1) leads to.
/// `shown` is the path as messages show it.
pub fn after_failed_read(attempt: u32, shown: &str, error: &str) -> (r: ReadDecision)
    ensures
        retry_pause(attempt as int) matches Some(pause) ==> r is Retry && r->pause_ms == pause,
        retry_pause(attempt as int) is None ==> r is GiveUp && r->GiveUp_0@ == unreadable(
            shown@,
            error@,
        ),
{
    if attempt < MAX_ATTEMPTS {
        ReadDecision::Retry { pause_ms: RETRY_PAUSE_MS * attempt as u64 }
    } else {
        let mut message = "failed to read ".to_owned();
        message.append(shown);
        message.append(" after ");
        message.append(decimal_text(MAX_ATTEMPTS as u64).as_str());
        message.append(" attempts: ");
        message.append(error);
        ReadDecision::GiveUp(message)
    }
}

/// The symbol of six bits in the standard Base64 alphabet.
pub open spec fn base64_symbol(v: int) -> char {
    if v < 26 {
        (65 + v) as char
    } else if v < 52 {
        (97 + v - 26) as char
    } else if v < 62 {
        (48 + v - 52) as char
    } else if v == 62 {
        '+'
    } else {
        '/'
    }
}

/// The `k`th group of six bits of `bytes`, with zeros behind the last byte.
pub open spec fn six_bits(bytes: Seq<u8>, k: int) -> int {
    let first = 6 * k / 8;
    let offset = 6 * k % 8;
    let next: int = if first + 1 < bytes.len() {
        bytes[first + 1] as int
    } else {
        0
    };
    let pair = bytes[first] * 256 + next;
    let behind: int = if offset == 0 {
        1024
    } else if offset == 2 {
        256
    } else if offset == 4 {
        64
    } else {
        16
    };
    (pair / behind) % 64
}

pub open spec fn base64_length(n: nat) -> nat {
    4 * ((n + 2) / 3)
}

/// `bytes` in standard Base64: a symbol for each six bits, padded to a multiple
/// of four.
pub open spec fn base64_text(bytes: Seq<u8>) -> Seq<char> {
    Seq::new(
        base64_length(bytes.len()),
        |k: int|
            if 6 * k < 8 * bytes.len() {
                base64_symbol(six_bits(bytes, k))
            } else {
                '='
            },
    )
}

/// `base64::Engine::encode` with the engine `STANDARD` returns standard,
/// padded Base64. It panics where the text would be longer than an allocation
/// can be, which `requires` leaves out.
#[verifier::external_body]
fn encode_base64(bytes: &[u8]) -> (r: String)
    requires
        base64_length(bytes@.len()) <= isize::MAX,
    ensures
        r@ == base64_text(bytes@),
{
    base64::engine::general_purpose::STANDARD.encode(bytes)
}

/// A photo as it is sent: its bytes in Base64.
pub fn encode_image(bytes: &[u8]) -> (r: String)
    requires
        base64_length(bytes@.len()) <= isize::MAX,
    ensures
        r@ == base64_text(bytes@),
{
    encode_base64(bytes)
}

/// How an attempt to read a file ended.
#[derive(Debug, PartialEq, Eq)]
pub enum ReadOutcome {
    /// The file's bytes.
    Bytes(Vec<u8>),
    /// It could not be read, for the given reason.
    Failed(String),
}

/// What comes next.
#[derive(Debug, PartialEq, Eq)]
pub enum ReadStage {
    /// The file is read, after a pause in milliseconds.
    Attempt { pause_ms: u64 },
    /// The file was read; this is the form in which it is sent.
    Encoded(String),
    /// It is given up, with a message.
    GaveUp(String),
}

/// The text of a `ReadStage`.
pub ghost enum ReadStageText {
    Attempt { pause_ms: int },
    Encoded(Seq<char>),
    GaveUp(Seq<char>),
}

impl View for ReadStage {
    type V = ReadStageText;

    open spec fn view(&self) -> ReadStageText {
        match self {
            ReadStage::Attempt { pause_ms } => ReadStageText::Attempt { pause_ms: *pause_ms as int },
            ReadStage::Encoded(s) => ReadStageText::Encoded(s@),
            ReadStage::GaveUp(e) => ReadStageText::GaveUp(e@),
        }
    }
}

/// The reading of one file.
#[derive(Debug, PartialEq, Eq)]
pub struct Reading {
    shown: String,
    attempt: u32,
    stage: ReadStage,
}

/// The text of a `Reading`.
pub ghost struct ReadState {
    /// The path as messages show it.
    pub shown: Seq<char>,
    /// The attempt that comes next, or was the last.
    pub attempt: int,
    pub stage: ReadStageText,
}

impl View for Reading {
    type V = ReadState;

    closed spec fn view(&self) -> ReadState {
        ReadState { shown: self.shown@, attempt: self.attempt as int, stage: self.stage@ }
    }
}

/// Where the reading of a file starts.
pub open spec fn read_start(shown: Seq<char>) -> ReadState {
    ReadState { shown, attempt: 1, stage: ReadStageText::Attempt { pause_ms: 0 } }
}

/// What an attempt leads to. Once a reading has ended, nothing changes it.
pub open spec fn after_read(st: ReadState, outcome: ReadOutcome) -> ReadState {
    match (st.stage, outcome) {
        (ReadStageText::Attempt { .. }, ReadOutcome::Bytes(bytes)) => ReadState {
            stage: ReadStageText::Encoded(base64_text(bytes@)),
            ..st
        },
        (ReadStageText::Attempt { .. }, ReadOutcome::Failed(e)) => match retry_pause(st.attempt) {
            Some(pause_ms) => ReadState {
                attempt: st.attempt + 1,
                stage: ReadStageText::Attempt { pause_ms },
                ..st
            },
            None => ReadState { stage: ReadStageText::GaveUp(unreadable(st.shown, e@)), ..st },
        },
        _ => st,
    }
}

impl Reading {
    #[verifier::type_invariant]
    spec fn inv(self) -> bool {
        1 <= self.attempt <= MAX_ATTEMPTS
    }

    /// Starts the reading of a file; `shown` is its path as messages show it.
    pub fn new(shown: String) -> (r: Self)
        ensures
            r@ == read_start(shown@),
    {
        Reading { shown, attempt: 1, stage: ReadStage::Attempt { pause_ms: 0 } }
    }

    pub fn attempt(&self) -> (r: u32)
        ensures
            r == self@.attempt,
    {
        self.attempt
    }

    pub fn stage(&self) -> (r: &ReadStage)
        ensures
            r@ == self@.stage,
    {
        &self.stage
    }

    /// Takes in how an attempt ended.
    pub fn advance(&mut self, outcome: &ReadOutcome)
        requires
            *outcome matches ReadOutcome::Bytes(bytes) ==> base64_length(bytes@.len())
                <= isize::MAX,
        ensures
            final(self)@ == after_read(old(self)@, *outcome),
    {
        proof {
            use_type_invariant(&*self);
        }
        match (&self.stage, outcome) {
            (ReadStage::Attempt { .. }, ReadOutcome::Bytes(bytes)) => {
                self.stage = ReadStage::Encoded(encode_image(bytes.as_slice()));
            },
            (ReadStage::Attempt { .. }, ReadOutcome::Failed(e)) => {
                match after_failed_read(self.attempt, self.shown.as_str(), e.as_str()) {
                    ReadDecision::Retry { pause_ms } => {
                        self.attempt = self.attempt + 1;
                        self.stage = ReadStage::Attempt { pause_ms };
                    },
                    ReadDecision::GiveUp(message) => {
                        self.stage = ReadStage::GaveUp(message);
                    },
                }
            },
            _ => {},
        }
    }
}

/// Where attempts with the given outcomes lead.
pub open spec fn after_reads(st: ReadState, outcomes: Seq<ReadOutcome>) -> ReadState
    decreases outcomes.len(),
{
    if outcomes.len() == 0 {
        st
    } else {
        after_read(after_reads(st, outcomes.drop_last()), outcomes.last())
    }
}

/// Attempts that failed lead to another, up to the last, each after a longer
/// pause.
pub proof fn failed_attempts_are_repeated(shown: Seq<char>, failures: Seq<ReadOutcome>)
    requires
        failures.len() < MAX_ATTEMPTS,
        forall|j: int| 0 <= j < failures.len() ==> #[trigger] failures[j] is Failed,
    ensures
        after_reads(read_start(shown), failures) == (ReadState {
            shown,
            attempt: failures.len() as int + 1,
            stage: ReadStageText::Attempt { pause_ms: RETRY_PAUSE_MS * failures.len() },
        }),
    decreases failures.len(),
{
    if failures.len() > 0 {
        assert(failures[failures.len() - 1] is Failed);
        failed_attempts_are_repeated(shown, failures.drop_last());
    }
}

proof fn lemma_ended(shown: Seq<char>, outcomes: Seq<ReadOutcome>, n: int)
    requires
        0 <= n <= outcomes.len(),
        !(after_reads(read_start(shown), outcomes.take(n)).stage is Attempt),
    ensures
        after_reads(read_start(shown), outcomes) == after_reads(
            read_start(shown),
            outcomes.take(n),
        ),
    decreases outcomes.len(),
{
    if n == outcomes.len() {
        assert(outcomes.take(n) =~= outcomes);
    } else {
        assert(outcomes.drop_last().take(n) =~= outcomes.take(n));
        lemma_ended(shown, outcomes.drop_last(), n);
    }
}

/// The first attempt that succeeds, among the three, is the result: it is sent as
/// it was read, and nothing is read behind it.
pub proof fn the_first_success_counts(shown: Seq<char>, outcomes: Seq<ReadOutcome>, k: int)
    requires
        0 <= k < outcomes.len(),
        k < MAX_ATTEMPTS,
        outcomes[k] is Bytes,
        forall|j: int| 0 <= j < k ==> #[trigger] outcomes[j] is Failed,
    ensures
        after_reads(read_start(shown), outcomes.take(k)).stage is Attempt,
        after_reads(read_start(shown), outcomes).stage == ReadStageText::Encoded(
            base64_text(outcomes[k]->Bytes_0@),
        ),
{
    failed_attempts_are_repeated(shown, outcomes.take(k));
    assert(outcomes.take(k + 1).drop_last() =~= outcomes.take(k));
    lemma_ended(shown, outcomes, k + 1);
}

/// A file that cannot be read three times is given up with the last error, and
/// is not read again.
pub proof fn three_failures_give_up(shown: Seq<char>, outcomes: Seq<ReadOutcome>)
    requires
        outcomes.len() >= 3,
        forall|j: int| 0 <= j < 3 ==> #[trigger] outcomes[j] is Failed,
    ensures
        after_reads(read_start(shown), outcomes.take(2)).stage is Attempt,
        after_reads(read_start(shown), outcomes).stage == ReadStageText::GaveUp(
            unreadable(shown, outcomes[2]->Failed_0@),
        ),
{
    assert(outcomes[2] is Failed);
    failed_attempts_are_repeated(shown, outcomes.take(2));
    assert(outcomes.take(3).drop_last() =~= outcomes.take(2));
    lemma_ended(shown, outcomes, 3);
}

/// The pause behind a failed attempt is three tenths of a second for each attempt
/// so far, and there is none behind the third. The message for a file that is
/// given up names it and tells the error whole.
pub proof fn pauses_grow_with_the_attempts(attempt: int, shown: Seq<char>, error: Seq<char>)
    ensures
        0 <= attempt < 3 ==> retry_pause(attempt) == Some(300 * attempt),
        attempt >= 3 ==> retry_pause(attempt) is None,
        unreadable(shown, error) == "failed to read "@ + shown + " after "@ + decimal(3)
            + " attempts: "@ + error,
{
}

/// Base64 goes by groups of three bytes: the text of two byte strings, of which the
/// first has no group left open, is the one's text and then the other's.
pub proof fn base64_goes_by_groups(a: Seq<u8>, b: Seq<u8>)
    requires
        a.len() % 3 == 0,
    ensures
        base64_text(a + b) == base64_text(a) + base64_text(b),
{
    let whole = base64_text(a + b);
    let parts = base64_text(a) + base64_text(b);
    let n = 4 * (a.len() / 3);
    assert(whole.len() == parts.len());
    assert forall|k: int| 0 <= k < whole.len() implies whole[k] == parts[k] by {
        if k < n {
            let first = 6 * k / 8;
            assert(first < a.len());
            assert((a + b)[first] == a[first]);
            if first + 1 < a.len() {
                assert((a + b)[first + 1] == a[first + 1]);
            } else {
                assert(6 * k % 8 == 2);
            }
            assert(six_bits(a + b, k) == six_bits(a, k));
        } else {
            let m = k - n;
            assert(6 * k / 8 == a.len() + 6 * m / 8);
            assert(6 * k % 8 == 6 * m % 8);
            if 6 * m < 8 * b.len() {
                let first = 6 * m / 8;
                assert((a + b)[a.len() + first] == b[first]);
                if first + 1 < b.len() {
                    assert((a + b)[a.len() + first + 1] == b[first + 1]);
                }
                assert(six_bits(a + b, k) == six_bits(b, m));
            }
        }
    }
    assert(whole =~= parts);
}

proof fn lemma_first_bits(x: int, y: int)
    requires
        0 <= x < 256,
        0 <= y < 256,
    ensures
        ((x * 256 + y) / 1024) % 64 == x / 4,
{
    let a = x / 4;
    let b = x % 4;
    assert(x * 256 + y == 1024 * a + (256 * b + y));
    assert((x * 256 + y) / 1024 == a);
}

proof fn lemma_second_bits(x: int, y: int)
    requires
        0 <= x < 256,
        0 <= y < 256,
    ensures
        ((x * 256 + y) / 16) % 64 == (x % 4) * 16 + y / 16,
{
    let a = x / 4;
    let b = x % 4;
    let c = y / 16;
    assert((x * 256 + y) / 16 == 16 * x + c);
    assert(16 * x + c == 64 * a + (16 * b + c));
}

proof fn lemma_third_bits(y: int, z: int)
    requires
        0 <= y < 256,
        0 <= z < 256,
    ensures
        ((y * 256 + z) / 64) % 64 == (y % 16) * 4 + z / 64,
{
    let c = y / 16;
    let d = y % 16;
    let e = z / 64;
    assert((y * 256 + z) / 64 == 4 * y + e);
    assert(4 * y + e == 64 * c + (4 * d + e));
}

/// No two groups of six bits share a symbol of Base64, and none has the sign that
/// fills the last group up.
pub proof fn base64_symbols_differ(u: int, v: int)
    requires
        0 <= u < v < 64,
    ensures
        base64_symbol(u) != base64_symbol(v),
        base64_symbol(u) != '=',
        base64_symbol(v) != '=',
{
}

/// The four symbols of a group of three bytes hold the bits of the bytes, six in
/// each.
pub proof fn base64_keeps_the_bits(x: u8, y: u8, z: u8) -> (bits: Seq<int>)
    ensures
        bits.len() == 4,
        base64_text(seq![x, y, z]) == seq![
            base64_symbol(bits[0]),
            base64_symbol(bits[1]),
            base64_symbol(bits[2]),
            base64_symbol(bits[3]),
        ],
        0 <= bits[0] < 64 && 0 <= bits[1] < 64 && 0 <= bits[2] < 64 && 0 <= bits[3] < 64,
        x * 65536 + y * 256 + z == bits[0] * 262144 + bits[1] * 4096 + bits[2] * 64 + bits[3],
{
    let s = seq![x, y, z];
    lemma_first_bits(x as int, y as int);
    lemma_second_bits(x as int, y as int);
    lemma_third_bits(y as int, z as int);
    assert((z * 256) / 256 == z);
    assert(six_bits(s, 0) == x / 4);
    assert(six_bits(s, 1) == (x % 4) * 16 + y / 16);
    assert(six_bits(s, 2) == (y % 16) * 4 + z / 64);
    assert(six_bits(s, 3) == z % 64);
    assert(base64_text(s) =~= seq![
        base64_symbol(six_bits(s, 0)),
        base64_symbol(six_bits(s, 1)),
        base64_symbol(six_bits(s, 2)),
        base64_symbol(six_bits(s, 3)),
    ]);
    seq![six_bits(s, 0), six_bits(s, 1), six_bits(s, 2), six_bits(s, 3)]
}

/// The stages of a reading are seen as they are.
pub proof fn readings_are_seen_whole(stage: ReadStage)
    ensures
        stage matches ReadStage::Attempt { pause_ms } ==> stage@ == (ReadStageText::Attempt {
            pause_ms: pause_ms as int,
        }),
        stage matches ReadStage::Encoded(s) ==> stage@ == ReadStageText::Encoded(s@),
        stage matches ReadStage::GaveUp(s) ==> stage@ == ReadStageText::GaveUp(s@),
{
}

} // verus!
