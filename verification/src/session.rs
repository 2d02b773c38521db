//! The bounded inference session as a state machine. The library decides
//! what is done next and when decoding stops; the caller performs each
//! action on the model and reports back what came of it.

use crate::chunks::{prompt_chunks, split_prompt};
use crate::model::texts;
use crate::text::{
    chars_of, contains, contains_text, find, find_text, lemma_find_text, string_of, trim,
    trim_chars, trimmed,
};
use crate::tuning::{HwTuning, Mode};
use vstd::prelude::*;
use vstd::string::StringExecFns;

verus! {

/// Once the output holds more characters than this, decoding stops.
pub const OUTPUT_CAP: usize = 12_000;

/// The marker that ends a turn.
pub open spec fn end_marker() -> Seq<char> {
    "<|end|>"@
}

/// What is said where no model file is known.
pub open spec fn unavailable_message() -> Seq<char> {
    "Model path not set"@
}

/// What is said of an event that the session did not ask for.
pub open spec fn protocol_message() -> Seq<char> {
    "unexpected event for this session"@
}

/// The prompt as the model reads it: both parts trimmed and set between the
/// role markers.
pub open spec fn wrapped_prompt(system_prompt: Seq<char>, user_prompt: Seq<char>) -> Seq<char> {
    "<|system|>"@ + trimmed(system_prompt) + "<|end|><|user|>"@ + trimmed(user_prompt)
        + "<|end|><|assistant|>"@
}

/// Sets the two parts of a prompt between the role markers.
pub fn wrap_prompt(system_prompt: &str, user_prompt: &str) -> (r: String)
    ensures
        r@ == wrapped_prompt(system_prompt@, user_prompt@),
{
    let mut r = "<|system|>".to_owned();
    let system = trim(system_prompt);
    let user = trim(user_prompt);
    r.append(system.as_str());
    r.append("<|end|><|user|>");
    r.append(user.as_str());
    r.append("<|end|><|assistant|>");
    r
}

// ------------------------------------------------------------------ decoding

/// Why decoding stopped.
#[derive(Clone, Copy, Debug, PartialEq, Eq, Structural)]
pub enum Stop {
    /// The output holds the end-of-turn marker.
    EndOfTurn,
    /// The time budget is used up.
    Deadline,
    /// As many pieces were taken as the token budget allows.
    TokenCap,
    /// The output is longer than the safety cap.
    TooLong,
}

/// The output of one decode as it grows.
#[derive(Clone, Debug)]
pub struct Decoder {
    pub out: Vec<char>,
    pub pieces: usize,
}

/// Whether decoding stops, and why, once the output is `out` after `pieces`
/// pieces and `elapsed_ms` milliseconds.
pub open spec fn stop_after(out: Seq<char>, pieces: nat, elapsed_ms: u64, tune: HwTuning)
    -> Option<Stop> {
    if contains_text(out, end_marker()) {
        Some(Stop::EndOfTurn)
    } else if elapsed_ms >= tune.wall_time_ms {
        Some(Stop::Deadline)
    } else if pieces >= tune.max_tokens {
        Some(Stop::TokenCap)
    } else if out.len() > OUTPUT_CAP {
        Some(Stop::TooLong)
    } else {
        None
    }
}

/// The text that a decode returns: its output up to the first end-of-turn
/// marker, without the white space at either end.
pub open spec fn final_text(out: Seq<char>) -> Seq<char> {
    trimmed(out.subrange(0, find_text(out, end_marker(), 0)))
}

/// One more piece, counted up to the largest count that a machine word
/// holds.
pub open spec fn one_more(pieces: usize) -> usize {
    if pieces < usize::MAX {
        (pieces + 1) as usize
    } else {
        pieces
    }
}

impl Decoder {
    /// A decode with no output yet.
    pub fn new() -> (d: Decoder)
        ensures
            d.out@ == Seq::<char>::empty(),
            d.pieces == 0,
    {
        Decoder { out: Vec::new(), pieces: 0 }
    }

    /// Takes the next piece of output, `elapsed_ms` milliseconds into the
    /// decode, and says whether decoding stops.
    pub fn push(&mut self, piece: &str, elapsed_ms: u64, tune: &HwTuning) -> (r: Option<Stop>)
        ensures
            final(self).out@ == old(self).out@ + piece@,
            final(self).pieces == one_more(old(self).pieces),
            r == stop_after(final(self).out@, final(self).pieces as nat, elapsed_ms, *tune),
    {
        let added = chars_of(piece);
        let ghost before = self.out@;
        let mut i: usize = 0;
        while i < added.len()
            invariant
                i <= added.len(),
                self.pieces == old(self).pieces,
                self.out@ == before + added@.subrange(0, i as int),
            decreases added.len() - i,
        {
            self.out.push(added[i]);
            i += 1;
        }
        assert(added@.subrange(0, added.len() as int) == added@);
        if self.pieces < usize::MAX {
            self.pieces = self.pieces + 1;
        }
        let marker = chars_of("<|end|>");
        if contains(&self.out, &marker) {
            Some(Stop::EndOfTurn)
        } else if elapsed_ms >= tune.wall_time_ms {
            Some(Stop::Deadline)
        } else if self.pieces >= tune.max_tokens {
            Some(Stop::TokenCap)
        } else if self.out.len() > OUTPUT_CAP {
            Some(Stop::TooLong)
        } else {
            None
        }
    }

    /// The text that the decode returns.
    pub fn finish(&self) -> (r: String)
        ensures
            r@ == final_text(self.out@),
    {
        let marker = chars_of("<|end|>");
        proof {
            reveal_strlit("<|end|>");
            lemma_find_text(self.out@, marker@, 0);
        }
        let end: usize = match find(&self.out, &marker) {
            Some(i) => i,
            None => self.out.len(),
        };
        let mut head: Vec<char> = Vec::new();
        let mut i: usize = 0;
        while i < end
            invariant
                i <= end <= self.out.len(),
                head@ == self.out@.subrange(0, i as int),
            decreases end - i,
        {
            head.push(self.out[i]);
            i += 1;
        }
        let t = trim_chars(&head);
        string_of(&t)
    }
}

// --------------------------------------------------------------- the session

/// Where a session stands.
#[derive(Clone, Copy, Debug, PartialEq, Eq, Structural)]
pub enum Phase {
    /// The model is not in memory; its load was asked for.
    Unloaded,
    /// The model is in memory; a session on it was asked for.
    Loaded,
    /// The session exists; the prompt is being fed, then completion started.
    Ready,
    /// Output is being pulled piece by piece.
    Streaming,
    /// The answer is there.
    Done,
    /// The request failed.
    Failed,
}

/// One request for an answer.
#[derive(Clone, Debug)]
pub struct Session {
    pub phase: Phase,
    pub tuning: HwTuning,
    pub chunks: Vec<String>,
    pub fed: usize,
    pub decoder: Decoder,
    pub outcome: String,
}

/// What the caller reports back.
#[derive(Clone, Debug)]
pub enum Event {
    /// The action asked for was carried out.
    Done,
    /// The action asked for failed, with this message.
    Failed(String),
    /// The pull gave this piece of output, so many milliseconds into the
    /// decode.
    Piece(String, u64),
    /// The pull gave nothing more: the stream has ended.
    End,
}

/// What the caller is to do next.
#[derive(Clone, Debug)]
pub enum Action {
    /// Load the model into memory.
    LoadModel,
    /// Create a session on the model.
    CreateSession { n_ctx: usize, n_batch: usize },
    /// Feed this chunk of the prompt.
    Feed(String),
    /// Start completion with this token budget.
    StartCompletion { max_tokens: usize },
    /// Pull the next piece of output.
    Pull,
    /// Hand this text back as the answer.
    Reply(String),
    /// Hand this message back as the error.
    Fail(String),
}

/// The mathematical content of a [`Session`].
pub struct SessionView {
    pub phase: Phase,
    pub tuning: HwTuning,
    pub chunks: Seq<Seq<char>>,
    pub fed: nat,
    pub out: Seq<char>,
    pub pieces: usize,
    pub outcome: Seq<char>,
}

/// The mathematical content of an [`Event`].
pub enum EventView {
    Done,
    Failed(Seq<char>),
    Piece(Seq<char>, u64),
    End,
}

/// The mathematical content of an [`Action`].
pub enum ActionView {
    LoadModel,
    CreateSession { n_ctx: usize, n_batch: usize },
    Feed(Seq<char>),
    StartCompletion { max_tokens: usize },
    Pull,
    Reply(Seq<char>),
    Fail(Seq<char>),
}

impl View for Session {
    type V = SessionView;

    open spec fn view(&self) -> SessionView {
        SessionView {
            phase: self.phase,
            tuning: self.tuning,
            chunks: texts(self.chunks@),
            fed: self.fed as nat,
            out: self.decoder.out@,
            pieces: self.decoder.pieces,
            outcome: self.outcome@,
        }
    }
}

impl View for Event {
    type V = EventView;

    open spec fn view(&self) -> EventView {
        match self {
            Event::Done => EventView::Done,
            Event::Failed(m) => EventView::Failed(m@),
            Event::Piece(p, t) => EventView::Piece(p@, *t),
            Event::End => EventView::End,
        }
    }
}

impl View for Action {
    type V = ActionView;

    open spec fn view(&self) -> ActionView {
        match self {
            Action::LoadModel => ActionView::LoadModel,
            Action::CreateSession { n_ctx, n_batch } => ActionView::CreateSession {
                n_ctx: *n_ctx,
                n_batch: *n_batch,
            },
            Action::Feed(c) => ActionView::Feed(c@),
            Action::StartCompletion { max_tokens } => ActionView::StartCompletion {
                max_tokens: *max_tokens,
            },
            Action::Pull => ActionView::Pull,
            Action::Reply(t) => ActionView::Reply(t@),
            Action::Fail(m) => ActionView::Fail(m@),
        }
    }
}

/// The session that failed with `message`, and the error handed back.
pub open spec fn failed(s: SessionView, message: Seq<char>) -> (SessionView, ActionView) {
    (SessionView { phase: Phase::Failed, outcome: message, ..s }, ActionView::Fail(message))
}

/// The session that ended with the text of its output, and the answer
/// handed back.
pub open spec fn finished(s: SessionView) -> (SessionView, ActionView) {
    (
        SessionView { phase: Phase::Done, outcome: final_text(s.out), ..s },
        ActionView::Reply(final_text(s.out)),
    )
}

/// What follows once the session exists or one more chunk was fed: the next
/// chunk, or the start of completion when none is left.
pub open spec fn feed_or_start(s: SessionView) -> (SessionView, ActionView) {
    if s.fed < s.chunks.len() {
        (s, ActionView::Feed(s.chunks[s.fed as int]))
    } else {
        (s, ActionView::StartCompletion { max_tokens: s.tuning.max_tokens })
    }
}

/// The transition of a session: its state and the action asked for after
/// `event`.
pub open spec fn next(s: SessionView, e: EventView) -> (SessionView, ActionView) {
    match s.phase {
        Phase::Done => (s, ActionView::Reply(s.outcome)),
        Phase::Failed => (s, ActionView::Fail(s.outcome)),
        _ => match e {
            EventView::Failed(m) => failed(s, m),
            EventView::Done => match s.phase {
                Phase::Unloaded => (
                    SessionView { phase: Phase::Loaded, ..s },
                    ActionView::CreateSession { n_ctx: s.tuning.n_ctx, n_batch: s.tuning.n_batch },
                ),
                Phase::Loaded => feed_or_start(SessionView { phase: Phase::Ready, fed: 0, ..s }),
                Phase::Ready => if s.fed < s.chunks.len() {
                    feed_or_start(SessionView { fed: s.fed + 1, ..s })
                } else {
                    (SessionView { phase: Phase::Streaming, ..s }, ActionView::Pull)
                },
                _ => failed(s, protocol_message()),
            },
            EventView::Piece(piece, elapsed_ms) => match s.phase {
                Phase::Streaming => {
                    let grown = SessionView { out: s.out + piece, pieces: one_more(s.pieces), ..s };
                    if stop_after(grown.out, grown.pieces as nat, elapsed_ms, s.tuning) is Some {
                        finished(grown)
                    } else {
                        (grown, ActionView::Pull)
                    }
                },
                _ => failed(s, protocol_message()),
            },
            EventView::End => match s.phase {
                Phase::Streaming => finished(s),
                _ => failed(s, protocol_message()),
            },
        },
    }
}

/// The session at the start of a request, and its first action.
pub open spec fn started(
    mode: Mode,
    loaded: bool,
    tuning: HwTuning,
    system_prompt: Seq<char>,
    user_prompt: Seq<char>,
) -> (SessionView, ActionView) {
    let fresh = SessionView {
        phase: Phase::Unloaded,
        tuning: tuning,
        chunks: prompt_chunks(wrapped_prompt(system_prompt, user_prompt)),
        fed: 0,
        out: Seq::empty(),
        pieces: 0,
        outcome: Seq::empty(),
    };
    if mode == Mode::Disabled {
        failed(fresh, unavailable_message())
    } else if loaded {
        (
            SessionView { phase: Phase::Loaded, ..fresh },
            ActionView::CreateSession { n_ctx: tuning.n_ctx, n_batch: tuning.n_batch },
        )
    } else {
        (fresh, ActionView::LoadModel)
    }
}

/// Begins a request for an answer to the given prompt.
///
/// Where inference is disabled the request fails at once, with the
/// unavailability message, and asks for no work on the model. Otherwise the
/// prompt is wrapped and split for feeding, and the first action is the load
/// of the model, or the creation of a session where the model is loaded.
pub fn answer(
    mode: Mode,
    loaded: bool,
    tuning: HwTuning,
    system_prompt: &str,
    user_prompt: &str,
) -> (r: (Session, Action))
    ensures
        (r.0@, r.1@) == started(mode, loaded, tuning, system_prompt@, user_prompt@),
        mode == Mode::Disabled ==> r.0.phase == Phase::Failed && r.1@ == ActionView::Fail(
            unavailable_message(),
        ),
{
    let prompt = wrap_prompt(system_prompt, user_prompt);
    let chunks = split_prompt(prompt.as_str());
    let mut session = Session {
        phase: Phase::Unloaded,
        tuning,
        chunks,
        fed: 0,
        decoder: Decoder::new(),
        outcome: String::new(),
    };
    match mode {
        Mode::Disabled => {
            session.phase = Phase::Failed;
            session.outcome = "Model path not set".to_owned();
            (session, Action::Fail("Model path not set".to_owned()))
        },
        Mode::Enabled => {
            if loaded {
                session.phase = Phase::Loaded;
                (session, Action::CreateSession { n_ctx: tuning.n_ctx, n_batch: tuning.n_batch })
            } else {
                (session, Action::LoadModel)
            }
        },
    }
}

impl Session {
    fn fail(&mut self, message: String) -> (a: Action)
        ensures
            (final(self)@, a@) == failed(old(self)@, message@),
    {
        self.phase = Phase::Failed;
        self.outcome = message.clone();
        Action::Fail(message)
    }

    fn finish(&mut self) -> (a: Action)
        ensures
            (final(self)@, a@) == finished(old(self)@),
    {
        let text = self.decoder.finish();
        self.phase = Phase::Done;
        self.outcome = text.clone();
        Action::Reply(text)
    }

    fn feed_or_start(&self) -> (a: Action)
        ensures
            (self@, a@) == feed_or_start(self@),
    {
        if self.fed < self.chunks.len() {
            assert(texts(self.chunks@)[self.fed as int] == self.chunks@[self.fed as int]@);
            Action::Feed(self.chunks[self.fed].clone())
        } else {
            Action::StartCompletion { max_tokens: self.tuning.max_tokens }
        }
    }

    /// Takes what came of the last action and says what is done next.
    ///
    /// A failure reported at any point ends the request with its message.
    /// The model is loaded, a session created, the chunks fed in order and
    /// completion started; then output is pulled until a stop condition
    /// holds or the stream ends, and the answer is the text of the output.
    /// A session that has ended keeps its state and repeats its outcome.
    pub fn step(&mut self, event: Event) -> (a: Action)
        ensures
            (final(self)@, a@) == next(old(self)@, event@),
    {
        match self.phase {
            Phase::Done => {
                return Action::Reply(self.outcome.clone());
            },
            Phase::Failed => {
                return Action::Fail(self.outcome.clone());
            },
            _ => {},
        }
        match event {
            Event::Failed(m) => self.fail(m),
            Event::Done => match self.phase {
                Phase::Unloaded => {
                    self.phase = Phase::Loaded;
                    Action::CreateSession { n_ctx: self.tuning.n_ctx, n_batch: self.tuning.n_batch }
                },
                Phase::Loaded => {
                    self.phase = Phase::Ready;
                    self.fed = 0;
                    self.feed_or_start()
                },
                Phase::Ready => {
                    if self.fed < self.chunks.len() {
                        self.fed = self.fed + 1;
                        self.feed_or_start()
                    } else {
                        self.phase = Phase::Streaming;
                        Action::Pull
                    }
                },
                _ => self.fail("unexpected event for this session".to_owned()),
            },
            Event::Piece(piece, elapsed_ms) => match self.phase {
                Phase::Streaming => {
                    let tuning = self.tuning;
                    let stop = self.decoder.push(piece.as_str(), elapsed_ms, &tuning);
                    if stop.is_some() {
                        self.finish()
                    } else {
                        Action::Pull
                    }
                },
                _ => self.fail("unexpected event for this session".to_owned()),
            },
            Event::End => match self.phase {
                Phase::Streaming => self.finish(),
                _ => self.fail("unexpected event for this session".to_owned()),
            },
        }
    }
}

} // verus!
