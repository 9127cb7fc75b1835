//! Snapshots of the owned media child, each between two readings of the player's clock.
//!
//! Positions and readings of the clock are in microseconds.
use crate::clock::{elapsed, elapsed_since};
use crate::playback::{PlaybackState, MAX_POSITION};
use vstd::prelude::*;

verus! {

pub const MAX_BYTES: usize = 12_582_912;

pub const MAX_SIDE: u32 = 4096;

pub const MAX_PIXELS: u64 = 4_194_304;

/// The longest answer of the player page, in bytes.
pub const MAX_ANSWER_BYTES: usize = 4096;

pub const TIMEOUT: u64 = 3_000_000;

pub const SAMPLE_TIMEOUT: u64 = 500_000;

pub const MIN_INTERVAL: u64 = 500_000;

/// The source of generation numbers, one for all players of a run.
#[derive(Clone, Copy, Debug)]
pub struct Generations {
    pub next: u64,
}

pub open spec fn next_number(n: u64) -> u64 {
    if n == u64::MAX { 0 } else { (n + 1) as u64 }
}

impl Generations {
    pub fn new() -> (source: Generations)
        ensures
            source.next == 1,
    {
        Generations { next: 1 }
    }

    pub fn take(&mut self) -> (generation: u64)
        ensures
            generation == old(self).next,
            final(self).next == next_number(old(self).next),
    {
        let generation: u64 = self.next;
        self.next = if generation == u64::MAX { 0 } else { generation + 1 };
        generation
    }
}

/// The place of the media child in its window, in physical pixels.
#[derive(Clone, Copy, Debug, PartialEq, Eq, Structural)]
pub struct Bounds {
    pub x: i32,
    pub y: i32,
    pub width: i32,
    pub height: i32,
}

/// An image of the player, dated by the two readings around it.
pub struct FrameCapture {
    pub generation: u64,
    pub png: Vec<u8>,
    pub width: u32,
    pub height: u32,
    pub before: i64,
    pub after: i64,
    pub playing: bool,
    pub observed_at: u64,
    pub bracket_duration: u64,
    pub capture_duration: u64,
    /// The measured sampling window, without what the decoder adds unseen.
    pub sampling_uncertainty: u64,
}

impl FrameCapture {
    /// The middle of the two readings, in microseconds.
    pub open spec fn middle(self) -> int {
        (self.before + self.after) / 2
    }

    pub fn estimated_seconds(&self) -> (middle: i64)
        ensures
            middle == self.middle(),
            middle == (self.before + self.after) / 2,
    {
        let sum: i128 = self.before as i128 + self.after as i128;
        if sum >= 0 {
            (sum / 2) as i64
        } else {
            let magnitude: i128 = (1 - sum) / 2;
            (-magnitude) as i64
        }
    }
}

/// One reading of the player's clock.
#[derive(Clone, Copy, Debug, PartialEq, Eq, Structural)]
pub struct Sample {
    pub state: PlaybackState,
    pub requested: u64,
    pub received: u64,
}

pub enum Pixels {
    Rgb { width: u32, height: u32, bytes: Vec<u8> },
    Png(Vec<u8>),
}

impl Pixels {
    /// Raw pixels hold three bytes each.
    pub open spec fn wf(self) -> bool {
        match self {
            Pixels::Rgb { width, height, bytes } => bytes@.len() == width * height * 3,
            Pixels::Png(_) => true,
        }
    }
}

/// One snapshot under way.
pub struct Job {
    pub id: u64,
    pub generation: u64,
    pub started: u64,
    pub before: Option<Sample>,
    pub native_started: Option<u64>,
    pub native_finished: Option<u64>,
    pub pixels: Option<Pixels>,
    pub after_requested: bool,
    pub after: Option<Sample>,
    pub encoding: bool,
    pub result: Option<Result<FrameCapture, String>>,
}

impl Job {
    /// Each stage has what the stages before it brought.
    pub open spec fn wf(self) -> bool {
        &&& self.pixels is Some ==> self.pixels->0.wf() && self.native_finished is Some && self.native_started is Some
        &&& self.after is Some ==> self.after_requested
        &&& self.native_started is Some && !self.encoding ==> self.before is Some
        &&& self.after_requested && !self.encoding ==> self.pixels is Some
    }
}

/// Whether the video stands still enough, and in view, to be captured.
pub open spec fn capturable(state: PlaybackState, visible: bool, now: u64) -> bool {
    &&& visible
    &&& state.ready
    &&& state.fresh(now)
    &&& !state.buffering
    &&& state.seeking is None
    &&& state.playback_intent is None
}

pub fn eligible(state: &PlaybackState, visible: bool, now: u64) -> (yes: bool)
    ensures
        yes == capturable(*state, visible, now),
{
    visible && state.ready && state.is_fresh(now) && !state.buffering && state.seeking.is_none()
        && state.playback_intent.is_none()
}

pub open spec fn capture_size(width: int, height: int) -> bool {
    0 < width <= MAX_SIDE && 0 < height <= MAX_SIDE && width * height <= MAX_PIXELS
}

pub fn dimensions(width: u32, height: u32) -> (result: Result<(), String>)
    ensures
        result is Ok == capture_size(width as int, height as int),
        result is Err ==> result->Err_0@ == "The media snapshot dimensions exceed the capture limit."@,
{
    let fits = width != 0 && height != 0 && width <= MAX_SIDE && height <= MAX_SIDE && {
        assert(width * height <= 4096 * 4096) by (nonlinear_arith)
            requires
                width <= 4096,
                height <= 4096,
        ;
        (width as u64) * (height as u64) <= MAX_PIXELS
    };
    if fits {
        Ok(())
    } else {
        Err(String::from_str("The media snapshot dimensions exceed the capture limit."))
    }
}

/// What a tick asks of the browser or of a worker.
pub enum Next {
    Wait,
    Snapshot(u64),
    After(u64),
    Encode(Encoding),
}

/// A bracketed image that is ready to be encoded.
pub struct Encoding {
    pub job: u64,
    pub generation: u64,
    pub pixels: Pixels,
    pub before: Sample,
    pub after: Sample,
    pub started: u64,
    pub finished: u64,
}

/// Where a snapshot stands when a tick looks at it.
pub enum Phase {
    Idle,
    Cancelled,
    Finished,
    TimedOut,
    Sampling,
    Stale,
    Snapshot,
    After,
    Encode,
    Working,
}

pub struct Controller {
    pub job: Option<Job>,
    pub native_pending: bool,
    pub last_requested: Option<u64>,
    pub generation: u64,
    pub jobs: u64,
}

impl Controller {
    pub open spec fn wf(self) -> bool {
        self.job is Some ==> self.job->0.wf()
    }

    pub fn new(generations: &mut Generations) -> (control: Controller)
        ensures
            control == (Controller {
                job: None,
                native_pending: false,
                last_requested: None,
                generation: old(generations).next,
                jobs: 0,
            }),
            final(generations).next == next_number(old(generations).next),
    {
        Controller {
            job: None,
            native_pending: false,
            last_requested: None,
            generation: generations.take(),
            jobs: 0,
        }
    }

    pub open spec fn cancelled(self, generation: u64) -> Controller {
        Controller { job: None, generation, ..self }
    }

    /// Drops the snapshot under way, with its image, and starts a new generation.
    pub fn cancel(&mut self, generations: &mut Generations)
        ensures
            *final(self) == old(self).cancelled(old(generations).next),
            final(generations).next == next_number(old(generations).next),
    {
        self.job = None;
        self.generation = generations.take();
    }

    pub fn generation(&self) -> (generation: u64)
        ensures
            generation == self.generation,
    {
        self.generation
    }

    pub open spec fn is_pending(self) -> bool {
        self.job is Some || self.native_pending
    }

    pub fn pending(&self) -> (pending: bool)
        ensures
            pending == self.is_pending(),
    {
        self.job.is_some() || self.native_pending
    }

    /// The outcome of the snapshot, where it has one.
    pub open spec fn outcome(self) -> Option<Result<FrameCapture, String>> {
        match self.job {
            Some(job) => job.result,
            None => None,
        }
    }

    /// What is left once the outcome was handed out.
    pub open spec fn handed_out(self) -> Controller {
        if self.outcome() is Some { Controller { job: None, ..self } } else { self }
    }

    /// Hands out the finished snapshot, once.
    pub fn take(&mut self) -> (result: Option<Result<FrameCapture, String>>)
        ensures
            result == old(self).outcome(),
            *final(self) == old(self).handed_out(),
    {
        match self.job.take() {
            None => None,
            Some(mut job) => {
                let result = job.result.take();
                if result.is_none() {
                    self.job = Some(job);
                }
                result
            },
        }
    }

    pub open spec fn may_request(self, state: PlaybackState, visible: bool, bounds: Bounds, now: u64) -> bool {
        &&& !self.is_pending()
        &&& capturable(state, visible, now)
        &&& capture_size(bounds.width as int, bounds.height as int)
        &&& self.last_requested is Some ==> elapsed_since(self.last_requested->0, now) >= MIN_INTERVAL
    }

    /// A new snapshot, of which nothing has been read yet.
    pub open spec fn requested(self, now: u64) -> Controller {
        Controller {
            job: Some(
                Job {
                    id: self.jobs,
                    generation: self.generation,
                    started: now,
                    before: None,
                    native_started: None,
                    native_finished: None,
                    pixels: None,
                    after_requested: false,
                    after: None,
                    encoding: false,
                    result: None,
                },
            ),
            last_requested: Some(now),
            jobs: next_number(self.jobs),
            ..self
        }
    }

    /// Begins a snapshot and names it, where the video is eligible and the last request is
    /// long enough ago. The caller then asks the player for its clock.
    pub fn request(&mut self, state: &PlaybackState, visible: bool, bounds: Bounds, now: u64) -> (started: Option<u64>)
        ensures
            started == if old(self).may_request(*state, visible, bounds, now) { Some(old(self).jobs) } else { None },
            *final(self) == if started is Some { old(self).requested(now) } else { *old(self) },
            old(self).wf() ==> final(self).wf(),
    {
        let recent = match self.last_requested {
            Some(at) => elapsed(at, now) < MIN_INTERVAL,
            None => false,
        };
        if self.pending() || !eligible(state, visible, now) || bounds.width < 0 || bounds.height < 0 || dimensions(
            bounds.width as u32,
            bounds.height as u32,
        ).is_err() || recent {
            return None;
        }
        let id: u64 = self.jobs;
        self.last_requested = Some(now);
        self.jobs = if id == u64::MAX { 0 } else { id + 1 };
        self.job = Some(
            Job {
                id,
                generation: self.generation,
                started: now,
                before: None,
                native_started: None,
                native_finished: None,
                pixels: None,
                after_requested: false,
                after: None,
                encoding: false,
                result: None,
            },
        );
        Some(id)
    }

    pub open spec fn phase(self, state: PlaybackState, visible: bool, now: u64) -> Phase {
        match self.job {
            None => Phase::Idle,
            Some(job) => if !capturable(state, visible, now) {
                Phase::Cancelled
            } else if job.result is Some {
                Phase::Finished
            } else if elapsed_since(job.started, now) > TIMEOUT {
                Phase::TimedOut
            } else if job.before is None {
                Phase::Sampling
            } else if job.native_started is None {
                if elapsed_since(job.before->0.received, now) > SAMPLE_TIMEOUT {
                    Phase::Stale
                } else {
                    Phase::Snapshot
                }
            } else if job.pixels is Some && !job.after_requested {
                Phase::After
            } else if job.after is Some && !job.encoding {
                Phase::Encode
            } else {
                Phase::Working
            },
        }
    }

    /// Whether there is an image to encode, and when it came.
    pub open spec fn has_image(self) -> bool {
        self.job is Some && self.job->0.pixels is Some && self.job->0.native_finished is Some
    }

    /// What one tick makes of `before`, stage by stage, and what it asks for.
    pub open spec fn ticked(
        self,
        before: Controller,
        next: Next,
        state: PlaybackState,
        visible: bool,
        now: u64,
        generation: u64,
    ) -> bool {
        match before.phase(state, visible, now) {
            Phase::Idle | Phase::Finished | Phase::Sampling | Phase::Working => next is Wait && self
                == before,
            Phase::Cancelled => next is Wait && self == before.cancelled(generation),
            Phase::TimedOut => next is Wait && self.ended(before, "The media snapshot took too long."@),
            Phase::Stale => next is Wait && self.ended(
                before,
                "The player timing sample became stale."@,
            ),
            Phase::Snapshot => next == Next::Snapshot(before.job->0.id) && self == (Controller {
                job: Some(Job { native_started: Some(now), ..before.job->0 }),
                native_pending: true,
                ..before
            }),
            Phase::After => next == Next::After(before.job->0.id) && self == (Controller {
                job: Some(Job { after_requested: true, ..before.job->0 }),
                ..before
            }),
            Phase::Encode => {
                let job = before.job->0;
                &&& next == Next::Encode(
                    Encoding {
                        job: job.id,
                        generation: job.generation,
                        pixels: job.pixels->0,
                        before: job.before->0,
                        after: job.after->0,
                        started: job.native_started->0,
                        finished: job.native_finished->0,
                    },
                )
                &&& self == (Controller {
                    job: Some(Job { encoding: true, pixels: None, before: None, after: None, ..job }),
                    ..before
                })
            },
        }
    }

    /// Takes the snapshot one stage further, or ends it.
    pub fn tick(&mut self, state: &PlaybackState, visible: bool, now: u64, generations: &mut Generations) -> (next: Next)
        requires
            old(self).phase(*state, visible, now) is Encode ==> old(self).has_image(),
        ensures
            old(self).wf() ==> final(self).wf(),
            final(generations).next == if old(self).phase(*state, visible, now) is Cancelled {
                next_number(old(generations).next)
            } else {
                old(generations).next
            },
            final(self).ticked(*old(self), next, *state, visible, now, old(generations).next),
    {
        let mut job = match self.job.take() {
            Some(job) => job,
            None => {
                return Next::Wait;
            },
        };
        if !eligible(state, visible, now) {
            self.cancel(generations);
            return Next::Wait;
        }
        if job.result.is_some() {
            self.job = Some(job);
            return Next::Wait;
        }
        if elapsed(job.started, now) > TIMEOUT {
            job.result = Some(Err(String::from_str("The media snapshot took too long.")));
            self.job = Some(job);
            return Next::Wait;
        }
        let before = match job.before {
            Some(before) => before,
            None => {
                self.job = Some(job);
                return Next::Wait;
            },
        };
        let id: u64 = job.id;
        let started: u64 = match job.native_started {
            Some(started) => started,
            None => {
                if elapsed(before.received, now) > SAMPLE_TIMEOUT {
                    job.result = Some(Err(String::from_str("The player timing sample became stale.")));
                    self.job = Some(job);
                    return Next::Wait;
                }
                job.native_started = Some(now);
                self.job = Some(job);
                self.native_pending = true;
                return Next::Snapshot(id);
            },
        };
        if job.pixels.is_some() && !job.after_requested {
            job.after_requested = true;
            self.job = Some(job);
            return Next::After(id);
        }
        if job.after.is_none() || job.encoding {
            self.job = Some(job);
            return Next::Wait;
        }
        let pixels = job.pixels.take().unwrap();
        let after = job.after.take().unwrap();
        let finished: u64 = job.native_finished.unwrap();
        let generation: u64 = job.generation;
        job.before = None;
        job.encoding = true;
        self.job = Some(job);
        Next::Encode(Encoding { job: id, generation, pixels, before, after, started, finished })
    }

    /// Whether this is `before` with its snapshot ended by this message.
    pub open spec fn ended(self, before: Controller, message: Seq<char>) -> bool {
        &&& before.job is Some
        &&& self.job is Some
        &&& self.job->0.result is Some && self.job->0.result->0 is Err && self.job->0.result->0->Err_0@ == message
        &&& self == (Controller { job: Some(Job { result: self.job->0.result, ..before.job->0 }), ..before })
    }

    /// Whether `id` is the snapshot under way, with no outcome yet.
    pub open spec fn awaits(self, id: u64) -> bool {
        self.job is Some && self.job->0.id == id && self.job->0.result is None
    }

    /// The snapshot `id` with this outcome, unless it is gone or has one.
    pub open spec fn completed(self, id: u64, result: Result<FrameCapture, String>) -> Controller {
        if self.awaits(id) {
            Controller { job: Some(Job { result: Some(result), ..self.job->0 }), ..self }
        } else {
            self
        }
    }

    /// Ends the snapshot `id`, unless it is gone or has an outcome.
    pub fn complete(&mut self, id: u64, result: Result<FrameCapture, String>)
        ensures
            *final(self) == old(self).completed(id, result),
            old(self).wf() ==> final(self).wf(),
    {
        match self.job.take() {
            None => {},
            Some(mut job) => {
                if job.id == id && job.result.is_none() {
                    job.result = Some(result);
                }
                self.job = Some(job);
            },
        }
    }

    /// Whether this is `before` with an answer to the request for the clock taken.
    pub open spec fn clocked_from(
        self,
        before: Controller,
        id: u64,
        after: bool,
        length: usize,
        parsed: Option<PlaybackState>,
        requested: u64,
        received: u64,
    ) -> bool {
        if length <= MAX_ANSWER_BYTES && parsed is Some && steady(parsed->0, requested, received) {
            let sample = Sample {
                state: PlaybackState { polled_at: Some(requested), ..parsed->0 },
                requested,
                received,
            };
            self == if !(before.job is Some && before.job->0.id == id) {
                before
            } else if after {
                (Controller { job: Some(Job { after: Some(sample), ..before.job->0 }), ..before })
            } else {
                (Controller { job: Some(Job { before: Some(sample), ..before.job->0 }), ..before })
            }
        } else if before.awaits(id) {
            self.ended(before, "The player timing changed during capture."@)
        } else {
            self == before
        }
    }

    /// Takes the player's answer to a request for its clock: its length in bytes, and what
    /// could be read of it. What is too long, cannot be read, or came too late, ends the snapshot.
    pub fn received_clock(
        &mut self,
        id: u64,
        after: bool,
        length: usize,
        parsed: Option<PlaybackState>,
        requested: u64,
        received: u64,
    )
        ensures
            final(self).clocked_from(*old(self), id, after, length, parsed, requested, received),
            old(self).wf() && (after && old(self).job is Some && old(self).job->0.id == id
                ==> old(self).job->0.after_requested) ==> final(self).wf(),
    {
        let reading = match parsed {
            Some(state) => if length <= MAX_ANSWER_BYTES && is_steady(&state, requested, received) {
                Some(state)
            } else {
                None
            },
            None => None,
        };
        match reading {
            None => {
                self.complete(id, Err(String::from_str("The player timing changed during capture.")));
            },
            Some(mut state) => {
                state.polled_at = Some(requested);
                let sample = Sample { state, requested, received };
                match self.job.take() {
                    None => {},
                    Some(mut job) => {
                        if job.id == id {
                            if after {
                                job.after = Some(sample);
                            } else {
                                job.before = Some(sample);
                            }
                        }
                        self.job = Some(job);
                    },
                }
            },
        }
    }

    /// Whether this is `before` with the clock of a snapshot out of reach.
    pub open spec fn unclocked_from(self, before: Controller, id: u64) -> bool {
        if before.awaits(id) {
            self.ended(before, "The player timing could not be sampled."@)
        } else {
            self == before
        }
    }

    /// The player could not even be asked for its clock.
    pub fn clock_failed(&mut self, id: u64)
        ensures
            final(self).unclocked_from(*old(self), id),
            old(self).wf() ==> final(self).wf(),
    {
        self.complete(id, Err(String::from_str("The player timing could not be sampled.")));
    }

    /// The browser is done with the image, or has the message for which there is none.
    pub open spec fn pictured(self, id: u64, pixels: Result<Pixels, String>, now: u64) -> Controller {
        let rested = Controller { native_pending: false, ..self };
        match pixels {
            Ok(image) => if self.job is Some && self.job->0.id == id {
                Controller {
                    job: Some(Job { native_finished: Some(now), pixels: Some(image), ..self.job->0 }),
                    ..rested
                }
            } else {
                rested
            },
            Err(message) => rested.completed(id, Err(message)),
        }
    }

    /// Takes the browser's image, or the message for which it has none.
    pub fn received_pixels(&mut self, id: u64, pixels: Result<Pixels, String>, now: u64)
        ensures
            *final(self) == old(self).pictured(id, pixels, now),
            old(self).wf() && (pixels is Ok ==> pixels->Ok_0.wf()) && (old(self).job is Some && old(self).job->0.id == id
                ==> old(self).job->0.native_started is Some) ==> final(self).wf(),
    {
        self.native_pending = false;
        match pixels {
            Err(message) => {
                self.complete(id, Err(message));
            },
            Ok(image) => match self.job.take() {
                None => {},
                Some(mut job) => {
                    if job.id == id {
                        job.native_finished = Some(now);
                        job.pixels = Some(image);
                    }
                    self.job = Some(job);
                },
            },
        }
    }
}

/// Whether a reading of the player's clock is usable: settled, within a recording, and
/// answered in time.
pub open spec fn steady(state: PlaybackState, requested: u64, received: u64) -> bool {
    state.ready && !state.buffering && 0 <= state.position <= MAX_POSITION && elapsed_since(requested, received)
        <= SAMPLE_TIMEOUT
}

fn is_steady(state: &PlaybackState, requested: u64, received: u64) -> (yes: bool)
    ensures
        yes == steady(*state, requested, received),
{
    state.ready && !state.buffering && 0 <= state.position && state.position <= MAX_POSITION && elapsed(
        requested,
        received,
    ) <= SAMPLE_TIMEOUT
}

// ---------------------------------------------------------------- images

/// The red, green and blue bytes of `width` pixels of a row that starts at `from`.
pub open spec fn row_bytes(source: Seq<u32>, from: int, width: nat) -> Seq<u8>
    decreases width,
{
    if width == 0 {
        Seq::empty()
    } else {
        let pixel = source[from + width - 1];
        row_bytes(source, from, (width - 1) as nat) + seq![
            (pixel >> 16u32) as u8,
            (pixel >> 8u32) as u8,
            pixel as u8,
        ]
    }
}

/// The bytes of the first `rows` rows of an image whose rows are `stride` pixels apart.
pub open spec fn image_bytes(source: Seq<u32>, width: nat, stride: nat, rows: nat) -> Seq<u8>
    decreases rows,
{
    if rows == 0 {
        Seq::empty()
    } else {
        image_bytes(source, width, stride, (rows - 1) as nat) + row_bytes(source, (rows - 1) * stride, width)
    }
}

proof fn lemma_row_len(source: Seq<u32>, from: int, width: nat)
    ensures
        row_bytes(source, from, width).len() == width * 3,
    decreases width,
{
    if width > 0 {
        lemma_row_len(source, from, (width - 1) as nat);
    }
}

proof fn lemma_image_len(source: Seq<u32>, width: nat, stride: nat, rows: nat)
    ensures
        image_bytes(source, width, stride, rows).len() == width * rows * 3,
    decreases rows,
{
    if rows > 0 {
        lemma_image_len(source, width, stride, (rows - 1) as nat);
        lemma_row_len(source, (rows - 1) * stride, width);
        assert(width * (rows - 1) * 3 + width * 3 == width * rows * 3) by (nonlinear_arith)
            requires
                rows > 0,
        ;
    } else {
        assert(width * rows * 3 == 0) by (nonlinear_arith)
            requires
                rows == 0,
        ;
    }
}

/// The opaque pixels of a native surface, whose rows are `stride` pixels apart.
pub fn surface_pixels(source: &Vec<u32>, width: u32, height: u32, stride: usize) -> (result: Result<Pixels, String>)
    requires
        width <= stride,
        height * stride <= source@.len(),
    ensures
        result is Ok == capture_size(width as int, height as int),
        match result {
            Ok(Pixels::Rgb { width: w, height: h, bytes }) => w == width && h == height && bytes@ == image_bytes(
                source@,
                width as nat,
                stride as nat,
                height as nat,
            ),
            Ok(Pixels::Png(_)) => false,
            Err(message) => message@ == "The media snapshot dimensions exceed the capture limit."@,
        },
        result is Ok ==> result->Ok_0.wf(),
{
    if let Err(message) = dimensions(width, height) {
        return Err(message);
    }
    let length: usize = source.len();
    let mut bytes: Vec<u8> = Vec::new();
    let mut y: u32 = 0;
    let mut base: usize = 0;
    while y < height
        invariant
            y <= height,
            width <= stride,
            length == source@.len(),
            height * stride <= source@.len(),
            base == y * stride,
            bytes@ == image_bytes(source@, width as nat, stride as nat, y as nat),
        decreases height - y,
    {
        assert(y * stride + stride <= height * stride) by (nonlinear_arith)
            requires
                y < height,
        ;
        let ghost front = bytes@;
        let mut x: u32 = 0;
        assert(front + row_bytes(source@, base as int, 0) =~= front);
        while x < width
            invariant
                x <= width,
                width <= stride,
                length == source@.len(),
                base + stride <= source@.len(),
                bytes@ == front + row_bytes(source@, base as int, x as nat),
            decreases width - x,
        {
            let pixel: u32 = source[base + x as usize];
            let ghost earlier = bytes@;
            bytes.push(#[verifier::truncate] ((pixel >> 16u32) as u8));
            bytes.push(#[verifier::truncate] ((pixel >> 8u32) as u8));
            bytes.push(#[verifier::truncate] (pixel as u8));
            proof {
                assert(row_bytes(source@, base as int, (x + 1) as nat) == row_bytes(source@, base as int, x as nat)
                    + seq![(pixel >> 16u32) as u8, (pixel >> 8u32) as u8, pixel as u8]);
                assert(bytes@ =~= front + row_bytes(source@, base as int, (x + 1) as nat));
            }
            x += 1;
        }
        y += 1;
        assert((y - 1) * stride + stride == y * stride) by (nonlinear_arith);
        base = base + stride;
    }
    proof {
        lemma_image_len(source@, width as nat, stride as nat, height as nat);
    }
    Ok(Pixels::Rgb { width, height, bytes })
}

/// What the PNG encoder makes of RGB bytes of these dimensions: nothing where it fails.
pub uninterp spec fn png_encoding(bytes: Seq<u8>, width: u32, height: u32) -> Option<Seq<u8>>;

/// `image::codecs::png::PngEncoder::write_image` into a growing buffer, with the fast
/// compression and the sub filter. The contract only names the outcome, which depends on
/// the pixels and their dimensions alone. The encoder panics on a buffer of another length.
#[verifier::external_body]
fn encode_png(bytes: &Vec<u8>, width: u32, height: u32) -> (png: Option<Vec<u8>>)
    requires
        bytes@.len() == width * height * 3,
    ensures
        match png {
            Some(data) => png_encoding(bytes@, width, height) == Some(data@),
            None => png_encoding(bytes@, width, height) is None,
        },
{
    let mut data = Vec::new();
    let encoder = image::codecs::png::PngEncoder::new_with_quality(
        &mut data,
        image::codecs::png::CompressionType::Fast,
        image::codecs::png::FilterType::Sub,
    );
    image::ImageEncoder::write_image(encoder, bytes, width, height, image::ExtendedColorType::Rgb8).ok()?;
    Some(data)
}

/// The number that four bytes write, the highest byte first.
pub open spec fn big_endian(bytes: Seq<u8>, at: int) -> int {
    bytes[at] * 16_777_216 + bytes[at + 1] * 65_536 + bytes[at + 2] * 256 + bytes[at + 3]
}

/// The first eight bytes of every PNG file.
pub open spec fn png_magic() -> Seq<u8> {
    seq![0x89u8, 0x50, 0x4e, 0x47, 0x0d, 0x0a, 0x1a, 0x0a]
}

/// The name of the header chunk, `IHDR`.
pub open spec fn header_name() -> Seq<u8> {
    seq![0x49u8, 0x48, 0x44, 0x52]
}

pub open spec fn png_header(bytes: Seq<u8>) -> bool {
    24 <= bytes.len() <= MAX_BYTES && bytes.subrange(0, 8) == png_magic() && bytes.subrange(12, 16) == header_name()
}

fn has_png_header(bytes: &Vec<u8>) -> (yes: bool)
    ensures
        yes == png_header(bytes@),
{
    if bytes.len() < 24 || bytes.len() > MAX_BYTES {
        return false;
    }
    let magic = bytes[0] == 0x89 && bytes[1] == 0x50 && bytes[2] == 0x4e && bytes[3] == 0x47 && bytes[4] == 0x0d
        && bytes[5] == 0x0a && bytes[6] == 0x1a && bytes[7] == 0x0a;
    let named = bytes[12] == 0x49 && bytes[13] == 0x48 && bytes[14] == 0x44 && bytes[15] == 0x52;
    proof {
        let front = bytes@.subrange(0, 8);
        let name = bytes@.subrange(12, 16);
        if magic {
            assert(front =~= png_magic());
        } else {
            assert(front[0] == bytes@[0] && front[1] == bytes@[1] && front[2] == bytes@[2] && front[3] == bytes@[3]
                && front[4] == bytes@[4] && front[5] == bytes@[5] && front[6] == bytes@[6] && front[7] == bytes@[7]);
            assert(front != png_magic());
        }
        if named {
            assert(name =~= header_name());
        } else {
            assert(name[0] == bytes@[12] && name[1] == bytes@[13] && name[2] == bytes@[14] && name[3] == bytes@[15]);
            assert(name != header_name());
        }
    }
    magic && named
}

fn read_big_endian(bytes: &Vec<u8>, at: usize) -> (n: u32)
    requires
        at + 4 <= bytes@.len(),
    ensures
        n == big_endian(bytes@, at as int),
{
    let length: usize = bytes.len();
    assert(at + 4 <= length);
    (bytes[at] as u32) * 16_777_216 + (bytes[at + 1] as u32) * 65_536 + (bytes[at + 2] as u32) * 256 + (bytes[at
        + 3] as u32)
}

/// How far the video moved between the two readings.
pub open spec fn movement(before: Sample, after: Sample) -> int {
    after.state.position - before.state.position
}

pub open spec fn bracket(before: Sample, after: Sample) -> u64 {
    elapsed_since(before.requested, after.received)
}

/// Whether the video went on undisturbed between the two readings.
pub open spec fn undisturbed(before: Sample, after: Sample) -> bool {
    &&& before.state.playing == after.state.playing
    &&& movement(before, after) >= -50_000
    &&& if before.state.playing {
        movement(before, after) <= bracket(before, after) * 2 + 500_000
    } else {
        movement(before, after) <= 50_000
    }
}

fn is_undisturbed(before: &Sample, after: &Sample) -> (yes: bool)
    ensures
        yes == undisturbed(*before, *after),
{
    let moved: i128 = after.state.position as i128 - before.state.position as i128;
    let span: u64 = elapsed(before.requested, after.received);
    before.state.playing == after.state.playing && moved >= -50_000 && if before.state.playing {
        moved <= span as i128 * 2 + 500_000
    } else {
        moved <= 50_000
    }
}

/// The image of a snapshot, with its dimensions, given what the encoder made of raw pixels.
pub open spec fn image_of(pixels: Pixels, encoded: Option<Seq<u8>>) -> Result<(Seq<u8>, int, int), Seq<char>> {
    match pixels {
        Pixels::Rgb { width, height, bytes } => match encoded {
            Some(data) => if data.len() <= MAX_BYTES {
                Ok((data, width as int, height as int))
            } else {
                Err("The media snapshot could not be encoded within its limit."@)
            },
            None => Err("The media snapshot could not be encoded within its limit."@),
        },
        Pixels::Png(bytes) => if !png_header(bytes@) {
            Err("The media snapshot has an invalid image header."@)
        } else if !capture_size(big_endian(bytes@, 16), big_endian(bytes@, 20)) {
            Err("The media snapshot dimensions exceed the capture limit."@)
        } else {
            Ok((bytes@, big_endian(bytes@, 16), big_endian(bytes@, 20)))
        },
    }
}

/// What the encoder makes of raw pixels; it has no part in an image that is encoded already.
pub open spec fn encoded_pixels(pixels: Pixels) -> Option<Seq<u8>> {
    match pixels {
        Pixels::Rgb { width, height, bytes } => png_encoding(bytes@, width, height),
        Pixels::Png(_) => None,
    }
}

/// The finished snapshot that the parts of a bracketed image make.
pub open spec fn is_frame(
    result: Result<FrameCapture, String>,
    generation: Option<u64>,
    pixels: Pixels,
    encoded: Option<Seq<u8>>,
    before: Sample,
    after: Sample,
    started: u64,
    finished: u64,
) -> bool {
    if generation is None {
        result is Err && result->Err_0@ == "The media snapshot was cancelled."@
    } else if !undisturbed(before, after) {
        result is Err && result->Err_0@ == "Playback changed during the media snapshot."@
    } else {
        match image_of(pixels, encoded) {
            Err(message) => result is Err && result->Err_0@ == message,
            Ok((png, width, height)) => {
                &&& result is Ok
                &&& result->Ok_0.png@ == png
                &&& result->Ok_0 == (FrameCapture {
                    generation: generation->0,
                    png: result->Ok_0.png,
                    width: width as u32,
                    height: height as u32,
                    before: before.state.position,
                    after: after.state.position,
                    playing: before.state.playing,
                    observed_at: (before.requested + bracket(before, after) / 2) as u64,
                    bracket_duration: bracket(before, after),
                    capture_duration: elapsed_since(started, finished),
                    sampling_uncertainty: uncertainty(before, after) as u64,
                })
            },
        }
    }
}

/// The longer of the time and the movement between the two readings.
pub open spec fn uncertainty(before: Sample, after: Sample) -> int {
    let moved = if movement(before, after) < 0 { -movement(before, after) } else { movement(before, after) };
    if moved > bracket(before, after) { moved } else { bracket(before, after) as int }
}

/// The finished snapshot, given what the encoder made of raw pixels.
pub fn frame_from(
    generation: Option<u64>,
    pixels: Pixels,
    encoded: Option<Vec<u8>>,
    before: Sample,
    after: Sample,
    started: u64,
    finished: u64,
) -> (result: Result<FrameCapture, String>)
    ensures
        is_frame(
            result,
            generation,
            pixels,
            match encoded {
                Some(data) => Some(data@),
                None => None,
            },
            before,
            after,
            started,
            finished,
        ),
{
    let generation: u64 = match generation {
        Some(generation) => generation,
        None => {
            return Err(String::from_str("The media snapshot was cancelled."));
        },
    };
    if !is_undisturbed(&before, &after) {
        return Err(String::from_str("Playback changed during the media snapshot."));
    }
    let (png, width, height): (Vec<u8>, u32, u32) = match pixels {
        Pixels::Rgb { width, height, bytes: _ } => match encoded {
            Some(data) => {
                if data.len() > MAX_BYTES {
                    return Err(String::from_str("The media snapshot could not be encoded within its limit."));
                }
                (data, width, height)
            },
            None => {
                return Err(String::from_str("The media snapshot could not be encoded within its limit."));
            },
        },
        Pixels::Png(bytes) => {
            if !has_png_header(&bytes) {
                return Err(String::from_str("The media snapshot has an invalid image header."));
            }
            let width: u32 = read_big_endian(&bytes, 16);
            let height: u32 = read_big_endian(&bytes, 20);
            if let Err(message) = dimensions(width, height) {
                return Err(message);
            }
            (bytes, width, height)
        },
    };
    let span: u64 = elapsed(before.requested, after.received);
    let moved: i128 = after.state.position as i128 - before.state.position as i128;
    let distance: i128 = if moved < 0 { -moved } else { moved };
    let sampling_uncertainty: u64 = if distance > span as i128 { distance as u64 } else { span };
    Ok(
        FrameCapture {
            generation,
            png,
            width,
            height,
            before: before.state.position,
            after: after.state.position,
            playing: before.state.playing,
            observed_at: before.requested + span / 2,
            bracket_duration: span,
            capture_duration: elapsed(started, finished),
            sampling_uncertainty,
        },
    )
}

/// Encodes a bracketed image. Nothing is encoded where the snapshot was cancelled or the
/// video did not go on undisturbed.
pub fn frame(
    generation: Option<u64>,
    pixels: Pixels,
    before: Sample,
    after: Sample,
    started: u64,
    finished: u64,
) -> (result: Result<FrameCapture, String>)
    requires
        pixels.wf(),
    ensures
        is_frame(result, generation, pixels, encoded_pixels(pixels), before, after, started, finished),
{
    let encoded = if generation.is_none() || !is_undisturbed(&before, &after) {
        None
    } else {
        match &pixels {
            Pixels::Rgb { width, height, bytes } => encode_png(bytes, *width, *height),
            Pixels::Png(_) => None,
        }
    };
    frame_from(generation, pixels, encoded, before, after, started, finished)
}

/// Whether an image of this many bytes is taken.
pub open spec fn room_for(size: int) -> bool {
    0 < size <= MAX_BYTES
}

/// The room for an image of this many bytes, where the browser has one and it is not too large.
pub fn image_room(size: u64) -> (result: Result<usize, String>)
    ensures
        result is Ok == room_for(size as int),
        result is Ok ==> result->Ok_0 == size,
        result is Err ==> result->Err_0@ == "The media snapshot exceeds the capture limit."@,
{
    if size > 0 && size <= MAX_BYTES as u64 {
        Ok(size as usize)
    } else {
        Err(String::from_str("The media snapshot exceeds the capture limit."))
    }
}

/// The browser's own image, once all of it was read.
pub fn browser_image(bytes: Vec<u8>, read: u32) -> (result: Result<Pixels, String>)
    ensures
        match result {
            Ok(pixels) => read == bytes@.len() && pixels == Pixels::Png(bytes) && pixels.wf(),
            Err(message) => read != bytes@.len() && message@ == "The media snapshot was incomplete."@,
        },
{
    if read as usize == bytes.len() {
        Ok(Pixels::Png(bytes))
    } else {
        Err(String::from_str("The media snapshot was incomplete."))
    }
}

// ---------------------------------------------------------------- laws

/// Cancelling releases the image and everything else of a snapshot, and no callback of it
/// can bring anything back: neither a clock, nor an image, nor an outcome.
pub proof fn cancelled_snapshots_keep_nothing(
    control: Controller,
    generation: u64,
    id: u64,
    result: Result<FrameCapture, String>,
    pixels: Result<Pixels, String>,
    clocked: Controller,
    after: bool,
    length: usize,
    parsed: Option<PlaybackState>,
    requested: u64,
    received: u64,
)
    requires
        clocked.clocked_from(control.cancelled(generation), id, after, length, parsed, requested, received),
    ensures
        control.cancelled(generation).job is None,
        control.cancelled(generation).completed(id, result).job is None,
        control.cancelled(generation).pictured(id, pixels, received).job is None,
        clocked.job is None,
{
}

/// A snapshot whose answers were asked for always has its image when it comes to be encoded.
pub proof fn asked_snapshots_have_their_image(control: Controller, state: PlaybackState, visible: bool, now: u64)
    requires
        control.wf(),
        control.phase(state, visible, now) is Encode,
    ensures
        control.has_image(),
{
}

/// The number that the source gives after `k` others.
pub open spec fn nth_number(n: u64, k: nat) -> u64
    decreases k,
{
    if k == 0 { n } else { next_number(nth_number(n, (k - 1) as nat)) }
}

proof fn lemma_nth_number(n: u64, k: nat)
    requires
        k <= u64::MAX,
    ensures
        nth_number(n, k) == if n + k <= u64::MAX { n + k } else { n + k - u64::MAX - 1 },
    decreases k,
{
    if k > 0 {
        lemma_nth_number(n, (k - 1) as nat);
    }
}

/// No generation comes back before every other number has been given out.
pub proof fn generations_differ(n: u64, k: nat)
    requires
        0 < k <= u64::MAX,
    ensures
        nth_number(n, k) != n,
{
    lemma_nth_number(n, k);
}

/// No image is ever larger than the capture limit.
pub proof fn frames_are_bounded(pixels: Pixels, encoded: Option<Seq<u8>>)
    ensures
        image_of(pixels, encoded) is Ok ==> image_of(pixels, encoded)->Ok_0.0.len() <= MAX_BYTES,
{
}

/// A playing video that moved on by no more than the time between the two readings was not
/// disturbed, and neither was a paused one that stood still.
pub proof fn ordinary_snapshots_are_undisturbed(before: Sample, after: Sample)
    requires
        before.state.playing == after.state.playing,
        before.requested <= after.received,
        before.state.position <= after.state.position,
        if before.state.playing {
            after.state.position - before.state.position <= after.received - before.requested
        } else {
            after.state.position == before.state.position
        },
    ensures
        undisturbed(before, after),
{
}

/// Two readings around an undisturbed video agree on whether it plays; it did not go back by
/// more than a twentieth of a second, nor, paused, forward; playing, it went no further than
/// twice the time between the readings and half a second.
pub proof fn undisturbed_videos_only_play_on(before: Sample, after: Sample)
    requires
        undisturbed(before, after),
    ensures
        before.state.playing == after.state.playing,
        before.state.position - after.state.position <= 50_000,
        !before.state.playing ==> after.state.position - before.state.position <= 50_000,
        before.state.playing && after.received >= before.requested ==> after.state.position - before.state.position <= 2 * (
        after.received - before.requested) + 500_000,
        before.state.playing && after.received < before.requested ==> after.state.position - before.state.position
            <= 500_000,
{
}

/// What is not disturbed on one side of these bounds is not refused: only a pause, a start, a
/// step back or a leap is.
pub proof fn only_disturbed_snapshots_are_refused(before: Sample, after: Sample)
    requires
        !undisturbed(before, after),
    ensures
        before.state.playing != after.state.playing || after.state.position < before.state.position - 50_000 || (
        !before.state.playing && after.state.position > before.state.position + 50_000) || (before.state.playing
            && after.state.position > before.state.position + 500_000 && (after.received >= before.requested
            ==> after.state.position - before.state.position > 2 * (after.received - before.requested) + 500_000)),
{
}

/// A finished snapshot holds what was read: both positions, whether it played, the dates of the
/// readings around it, and an uncertainty that covers both the time and the movement.
pub proof fn frames_hold_what_was_read(
    result: Result<FrameCapture, String>,
    generation: Option<u64>,
    pixels: Pixels,
    encoded: Option<Seq<u8>>,
    before: Sample,
    after: Sample,
    started: u64,
    finished: u64,
)
    requires
        is_frame(result, generation, pixels, encoded, before, after, started, finished),
        result is Ok,
    ensures
        ({
            let frame = result->Ok_0;
            let moved = after.state.position - before.state.position;
            &&& generation == Some(frame.generation)
            &&& frame.before == before.state.position && frame.after == after.state.position
            &&& frame.playing == before.state.playing && frame.playing == after.state.playing
            &&& before.requested <= frame.observed_at
            &&& before.requested <= after.received ==> frame.observed_at <= after.received && frame.bracket_duration
                == after.received - before.requested && frame.observed_at - before.requested <= after.received
                - frame.observed_at <= frame.observed_at - before.requested + 1
            &&& started <= finished ==> frame.capture_duration == finished - started
            &&& frame.sampling_uncertainty >= frame.bracket_duration
            &&& moved <= u64::MAX ==> frame.sampling_uncertainty >= moved && frame.sampling_uncertainty >= -moved
            &&& frame.sampling_uncertainty == frame.bracket_duration || frame.sampling_uncertainty == moved
                || frame.sampling_uncertainty == -moved
            &&& frame.png@.len() <= 12 * 1024 * 1024
            &&& pixels is Rgb ==> encoded == Some(frame.png@) && frame.width == pixels->Rgb_width && frame.height
                == pixels->Rgb_height
            &&& pixels is Png ==> frame.png@ == pixels->Png_0@ && 0 < frame.width <= 4096 && 0 < frame.height <= 4096
        }),
{
}

/// A snapshot that was not cancelled, of an undisturbed video, whose image was encoded within
/// the limit, is always had.
pub proof fn undisturbed_snapshots_succeed(
    result: Result<FrameCapture, String>,
    generation: u64,
    pixels: Pixels,
    encoded: Seq<u8>,
    before: Sample,
    after: Sample,
    started: u64,
    finished: u64,
)
    requires
        is_frame(result, Some(generation), pixels, Some(encoded), before, after, started, finished),
        pixels is Rgb,
        encoded.len() <= 12 * 1024 * 1024,
        undisturbed(before, after),
    ensures
        result is Ok,
{
}

/// The estimate lies in the middle of the two readings.
pub proof fn estimates_lie_in_the_middle(frame: FrameCapture)
    ensures
        0 <= frame.before + frame.after - 2 * frame.middle() <= 1,
        frame.before <= frame.after ==> frame.before <= frame.middle() <= frame.after,
{
}

/// A video can be captured exactly where it is in view, ready, neither buffering nor going
/// anywhere, and was asked for less than two seconds ago.
pub proof fn only_settled_videos_are_captured(state: PlaybackState, visible: bool, now: u64)
    ensures
        capturable(state, visible, now) <==> visible && state.ready && !state.buffering && state.seeking is None
            && state.playback_intent is None && state.polled_at is Some && now < state.polled_at->0 + 2_000_000,
{
}

/// Images have one to 4096 pixels on each side, and four million in all.
pub proof fn images_are_of_a_bounded_size(width: int, height: int)
    ensures
        capture_size(width, height) ==> 1 <= width <= 4096 && 1 <= height <= 4096 && width * height <= 2048 * 2048,
        1 <= width <= 4096 && 1 <= height <= 4096 && width * height <= 2048 * 2048 ==> capture_size(width, height),
        1 <= width <= 2048 && 1 <= height <= 2048 ==> capture_size(width, height),
{
    if 1 <= width <= 2048 && 1 <= height <= 2048 {
        assert(width * height <= 2048 * 2048) by (nonlinear_arith)
            requires
                1 <= width <= 2048,
                1 <= height <= 2048,
        ;
    }
}

/// A snapshot begins only where none is under way, the last was asked for half a second ago or
/// more, and the child has a size that fits; and then it does.
pub proof fn snapshots_begin_one_at_a_time(
    control: Controller,
    state: PlaybackState,
    visible: bool,
    bounds: Bounds,
    now: u64,
)
    ensures
        control.may_request(state, visible, bounds, now) ==> control.job is None && !control.native_pending && capturable(
            state,
            visible,
            now,
        ) && (control.last_requested is Some ==> now >= control.last_requested->0 + 500_000),
        control.may_request(state, visible, bounds, now) ==> 1 <= bounds.width <= 4096 && 1 <= bounds.height <= 4096,
        control.job is None && !control.native_pending && capturable(state, visible, now) && capture_size(
            bounds.width as int,
            bounds.height as int,
        ) && (control.last_requested is Some ==> now >= control.last_requested->0 + 500_000) ==> control.may_request(
            state,
            visible,
            bounds,
            now,
        ),
        control.requested(now).job is Some && control.requested(now).job->0.generation == control.generation
            && control.requested(now).job->0.started == now && control.requested(now).job->0.result is None
            && control.requested(now).job->0.id == control.jobs,
        control.requested(now).jobs != control.jobs,
        control.requested(now).is_pending(),
{
}

/// A snapshot is dropped when the video can no longer be captured, ends after three seconds, and
/// otherwise goes through its stages in turn: a clock, a picture asked for within half a second
/// of it, the clock again, and the encoder.
pub proof fn snapshots_go_through_their_stages(control: Controller, state: PlaybackState, visible: bool, now: u64)
    requires
        control.job is Some,
    ensures
        ({
            let job = control.job->0;
            let phase = control.phase(state, visible, now);
            let live = capturable(state, visible, now) && job.result is None && now <= job.started + 3_000_000;
            &&& phase is Cancelled <==> !capturable(state, visible, now)
            &&& phase is Finished <==> capturable(state, visible, now) && job.result is Some
            &&& phase is TimedOut <==> capturable(state, visible, now) && job.result is None && now > job.started
                + 3_000_000
            &&& phase is Sampling <==> live && job.before is None
            &&& phase is Stale <==> live && job.before is Some && job.native_started is None && now
                > job.before->0.received + 500_000
            &&& phase is Snapshot <==> live && job.before is Some && job.native_started is None && now
                <= job.before->0.received + 500_000
            &&& phase is After <==> live && job.before is Some && job.native_started is Some && job.pixels is Some
                && !job.after_requested
            &&& phase is Encode <==> live && job.before is Some && job.native_started is Some && !(job.pixels is Some
                && !job.after_requested) && job.after is Some && !job.encoding
            &&& !(phase is Idle)
        }),
{
}

/// A reading of the clock is of use exactly where the player was ready and not buffering, within
/// a week's recording, and answered within half a second.
pub proof fn clock_readings_are_prompt(state: PlaybackState, requested: u64, received: u64)
    ensures
        steady(state, requested, received) <==> state.ready && !state.buffering && 0 <= state.position <= 7 * 24 * 3600
            * 1_000_000 && received <= requested + 500_000,
{
}

/// Each pixel of the image is the pixel of the surface at the same place: its red, green and
/// blue, without the padding between rows.
pub proof fn images_keep_every_pixel(source: Seq<u32>, width: nat, stride: nat, rows: nat, x: int, y: int)
    requires
        0 <= x < width,
        0 <= y < rows,
    ensures
        ({
            let image = image_bytes(source, width, stride, rows);
            let at = (width * y + x) * 3;
            let pixel = source[y * stride + x];
            &&& image.len() == width * rows * 3
            &&& 0 <= at && at + 2 < image.len()
            &&& image[at] == (pixel >> 16u32) as u8
            &&& image[at + 1] == (pixel >> 8u32) as u8
            &&& image[at + 2] == pixel as u8
        }),
    decreases rows,
{
    let at = (width * y + x) * 3;
    let front = image_bytes(source, width, stride, (rows - 1) as nat);
    let row = row_bytes(source, (rows - 1) * stride, width);
    lemma_image_len(source, width, stride, rows);
    lemma_image_len(source, width, stride, (rows - 1) as nat);
    lemma_row_len(source, (rows - 1) * stride, width);
    assert(image_bytes(source, width, stride, rows) == front + row);
    assert(at + 2 < width * (y + 1) * 3) by (nonlinear_arith)
        requires
            x < width,
            at == (width * y + x) * 3,
    ;
    assert(0 <= width * y) by (nonlinear_arith)
        requires
            0 <= y,
    ;
    if y < rows - 1 {
        images_keep_every_pixel(source, width, stride, (rows - 1) as nat, x, y);
    } else {
        lemma_row_pixel(source, y * stride, width, x);
        assert(at == width * y * 3 + x * 3) by (nonlinear_arith)
            requires
                at == (width * y + x) * 3,
        ;
        assert(front.len() == width * y * 3);
        assert((front + row)[at] == row[x * 3]);
        assert((front + row)[at + 1] == row[x * 3 + 1]);
        assert((front + row)[at + 2] == row[x * 3 + 2]);
    }
}

proof fn lemma_row_pixel(source: Seq<u32>, from: int, width: nat, x: int)
    requires
        0 <= x < width,
    ensures
        row_bytes(source, from, width).len() == width * 3,
        row_bytes(source, from, width)[x * 3] == (source[from + x] >> 16u32) as u8,
        row_bytes(source, from, width)[x * 3 + 1] == (source[from + x] >> 8u32) as u8,
        row_bytes(source, from, width)[x * 3 + 2] == source[from + x] as u8,
    decreases width,
{
    lemma_row_len(source, from, width);
    lemma_row_len(source, from, (width - 1) as nat);
    if x < width - 1 {
        lemma_row_pixel(source, from, (width - 1) as nat, x);
    }
}

/// A browser's image is taken as it is where it begins as a PNG does and its header names a size
/// that fits; that size is the frame's.
pub proof fn browser_images_are_read_by_their_header(bytes: Vec<u8>, encoded: Option<Seq<u8>>)
    ensures
        match image_of(Pixels::Png(bytes), encoded) {
            Ok((png, width, height)) => {
                &&& png == bytes@ && 24 <= png.len() <= 12 * 1024 * 1024
                &&& png[0] == 137 && png[1] == 80 && png[2] == 78 && png[3] == 71
                &&& png[4] == 13 && png[5] == 10 && png[6] == 26 && png[7] == 10
                &&& png[12] == 73 && png[13] == 72 && png[14] == 68 && png[15] == 82
                &&& width == ((png[16] * 256 + png[17]) * 256 + png[18]) * 256 + png[19]
                &&& height == ((png[20] * 256 + png[21]) * 256 + png[22]) * 256 + png[23]
                &&& 0 < width <= 4096 && 0 < height <= 4096 && width * height <= 2048 * 2048
            },
            Err(_) => true,
        },
{
    if png_header(bytes@) {
        let front = bytes@.subrange(0, 8);
        let name = bytes@.subrange(12, 16);
        assert(front[0] == bytes@[0] && front[1] == bytes@[1] && front[2] == bytes@[2] && front[3] == bytes@[3]
            && front[4] == bytes@[4] && front[5] == bytes@[5] && front[6] == bytes@[6] && front[7] == bytes@[7]);
        assert(name[0] == bytes@[12] && name[1] == bytes@[13] && name[2] == bytes@[14] && name[3] == bytes@[15]);
    }
}

/// A finished snapshot is handed out once; one without an outcome stays.
pub proof fn snapshots_are_handed_out_once(control: Controller)
    ensures
        control.outcome() is Some ==> control.handed_out().job is None && control.handed_out().outcome() is None,
        control.outcome() is None ==> control.handed_out() == control,
        control.job is Some && control.job->0.result is Some ==> control.outcome() == control.job->0.result,
        control.job is None || control.job->0.result is None ==> control.outcome() is None,
        control.handed_out().generation == control.generation && control.handed_out().native_pending
            == control.native_pending && control.handed_out().jobs == control.jobs && control.handed_out().last_requested
            == control.last_requested,
{
}

/// A snapshot whose video no longer stands still is dropped; one that takes more than three seconds, or
/// whose first reading is more than half a second old before the image is asked for, ends with a
/// message. Otherwise it goes from stage to stage, and asks for each thing once.
pub proof fn snapshots_end_in_time(
    before: Controller,
    after: Controller,
    next: Next,
    state: PlaybackState,
    visible: bool,
    now: u64,
    generation: u64,
)
    requires
        after.ticked(before, next, state, visible, now, generation),
        before.job is Some,
        before.job->0.started <= now,
    ensures
        !capturable(state, visible, now) ==> after.job is None && after.generation == generation && next is Wait,
        capturable(state, visible, now) ==> after.job is Some && after.generation == before.generation && after.job->0.id
            == before.job->0.id && after.job->0.started == before.job->0.started,
        capturable(state, visible, now) && before.job->0.result is Some ==> after == before && next is Wait,
        capturable(state, visible, now) && before.job->0.result is None && now - before.job->0.started > 3_000_000
            ==> after.job->0.result is Some && after.job->0.result->0 is Err && next is Wait,
        next is Snapshot ==> {
            &&& before.job->0.before is Some && before.job->0.native_started is None && before.job->0.result is None
            &&& now <= before.job->0.started + 3_000_000 && now <= before.job->0.before->0.received + 500_000
            &&& after.job->0.native_started == Some(now) && after.native_pending
            &&& after.job->0.before == before.job->0.before
        },
        next is After ==> before.job->0.pixels is Some && !before.job->0.after_requested && after.job->0.after_requested
            && after.job->0.pixels == before.job->0.pixels && now <= before.job->0.started + 3_000_000,
        next is Encode ==> {
            let asked = next->Encode_0;
            &&& before.job->0.after is Some && !before.job->0.encoding && after.job->0.encoding
            &&& Some(asked.pixels) == before.job->0.pixels || before.job->0.pixels is None
            &&& Some(asked.after) == before.job->0.after && asked.generation == before.job->0.generation && asked.job
                == before.job->0.id
            &&& before.job->0.before is Some ==> Some(asked.before) == before.job->0.before
            &&& before.job->0.native_started is Some ==> Some(asked.started) == before.job->0.native_started
        },
        capturable(state, visible, now) && before.job->0.result is None && now <= before.job->0.started + 3_000_000
            && before.job->0.before is Some && before.job->0.native_started is None ==> {
            &&& before.job->0.before->0.received <= now <= before.job->0.before->0.received + 500_000 ==> next is Snapshot
            &&& now > before.job->0.before->0.received + 500_000 ==> after.job->0.result is Some
                && after.job->0.result->0 is Err
        },
{
}

/// An outcome is taken by the snapshot that waits for it, and by no other; one that has an outcome keeps
/// it.
pub proof fn outcomes_find_their_snapshot(control: Controller, id: u64, result: Result<FrameCapture, String>)
    ensures
        control.job is None || control.job->0.id != id || control.job->0.result is Some ==> control.completed(id, result)
            == control,
        control.job is Some && control.job->0.id == id && control.job->0.result is None ==> control.completed(id, result).job
            is Some && control.completed(id, result).job->0.result == Some(result),
        control.completed(id, result).generation == control.generation && control.completed(id, result).native_pending
            == control.native_pending,
{
}

/// A clock that was read in half a second, in at most 4,096 bytes, of a ready video inside a recording
/// is kept for its snapshot, before or after the image; any other ends the snapshot that waits.
pub proof fn clocks_are_kept_for_their_snapshot(
    before: Controller,
    after: Controller,
    id: u64,
    behind: bool,
    length: usize,
    parsed: Option<PlaybackState>,
    requested: u64,
    received: u64,
)
    requires
        after.clocked_from(before, id, behind, length, parsed, requested, received),
        requested <= received,
    ensures
        before.job is None || before.job->0.id != id ==> after == before,
        ({
            let usable = length <= 4096 && parsed is Some && parsed->0.ready && !parsed->0.buffering && 0
                <= parsed->0.position <= 604_800_000_000 && received - requested <= 500_000;
            &&& usable && before.job is Some && before.job->0.id == id ==> {
                let kept = if behind { after.job->0.after } else { after.job->0.before };
                &&& after.job is Some && after.job->0.result == before.job->0.result
                &&& kept is Some && kept->0.requested == requested && kept->0.received == received
                &&& kept->0.state.position == parsed->0.position && kept->0.state.playing == parsed->0.playing
                &&& behind ==> after.job->0.before == before.job->0.before
                &&& !behind ==> after.job->0.after == before.job->0.after
            }
            &&& !usable && before.job is Some && before.job->0.id == id && before.job->0.result is None ==> after.job is Some
                && after.job->0.result is Some && after.job->0.result->0 is Err
            &&& !usable && before.job is Some && before.job->0.result is Some ==> after == before
        }),
{
}

/// The browser is free once it has answered. An image is kept for the snapshot that asked for it, and a
/// failure ends it; any other snapshot is untouched.
pub proof fn images_are_kept_for_their_snapshot(control: Controller, id: u64, pixels: Result<Pixels, String>, now: u64)
    ensures
        !control.pictured(id, pixels, now).native_pending,
        control.job is None || control.job->0.id != id ==> control.pictured(id, pixels, now).job == control.job,
        control.job is Some && control.job->0.id == id && pixels is Ok ==> {
            let job = control.pictured(id, pixels, now).job;
            job is Some && job->0.pixels == Some(pixels->Ok_0) && job->0.native_finished == Some(now) && job->0.before
                == control.job->0.before && job->0.result == control.job->0.result
        },
        control.awaits(id) && pixels is Err ==> control.pictured(id, pixels, now).job->0.result == Some(
            Err::<FrameCapture, String>(pixels->Err_0),
        ),
        control.pictured(id, pixels, now).generation == control.generation,
{
}

/// A clock that could not be asked for ends the snapshot that waits for it, and no other.
pub proof fn missing_clocks_end_their_snapshot(before: Controller, after: Controller, id: u64)
    requires
        after.unclocked_from(before, id),
    ensures
        before.job is Some && before.job->0.id == id && before.job->0.result is None ==> after.job is Some
            && after.job->0.result is Some && after.job->0.result->0 is Err && after.generation == before.generation,
        before.job is None || before.job->0.id != id || before.job->0.result is Some ==> after == before,
{
}

/// A snapshot that is dropped leaves nothing but the browser's own work under way.
pub proof fn dropped_snapshots_leave_nothing(control: Controller, generation: u64, id: u64, result: Result<FrameCapture, String>)
    ensures
        control.cancelled(generation).job is None && control.cancelled(generation).generation == generation,
        control.cancelled(generation).is_pending() == control.native_pending,
        control.cancelled(generation).completed(id, result) == control.cancelled(generation),
        control.cancelled(generation).jobs == control.jobs && control.cancelled(generation).last_requested
            == control.last_requested,
        room_for(1) && room_for(12_582_912) && !room_for(0) && !room_for(12_582_913),
{
}

} // verus!
