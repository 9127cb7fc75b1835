//! What is known of a raid night: recordings, pulls, events, and who streams.
//!
//! Moments of the encounter are Unix milliseconds; positions in a recording are microseconds.
use crate::address::text_of;
use crate::provider::Provider;
use crate::text::same_text;
use vstd::prelude::*;

verus! {

#[derive(Clone, Copy, Debug, PartialEq, Eq, Structural)]
pub enum EventKind {
    Deaths,
    Defensives,
}

#[derive(Clone, Copy, Debug, PartialEq, Eq, Structural)]
pub enum DefensiveGroup {
    Personal,
    External,
    Healing,
    DamageReduction,
    Utility,
}

#[derive(Clone, Copy, Debug, PartialEq, Eq, Structural)]
pub enum Status {
    Live,
    Checking,
    Unknown,
    Offline,
}

/// One attempt at an encounter.
#[derive(Debug)]
pub struct Pull {
    pub report: String,
    pub id: u64,
    pub encounter: u64,
    pub difficulty: u64,
    pub report_start_ms: i64,
    /// What was left of the enemy, in tenths of a percent.
    pub remaining: Option<u32>,
    pub last_phase: Option<u32>,
    pub last_phase_is_intermission: bool,
    pub name: String,
    pub kill: bool,
    pub start_ms: i64,
    pub end_ms: i64,
    pub seconds: u64,
}

/// The mathematical content of a `Pull`.
pub struct PullView {
    pub report: Seq<char>,
    pub id: u64,
    pub encounter: u64,
    pub difficulty: u64,
    pub report_start_ms: i64,
    pub remaining: Option<u32>,
    pub last_phase: Option<u32>,
    pub last_phase_is_intermission: bool,
    pub name: Seq<char>,
    pub kill: bool,
    pub start_ms: i64,
    pub end_ms: i64,
    pub seconds: u64,
}

impl View for Pull {
    type V = PullView;

    open spec fn view(&self) -> PullView {
        PullView {
            report: self.report@,
            id: self.id,
            encounter: self.encounter,
            difficulty: self.difficulty,
            report_start_ms: self.report_start_ms,
            remaining: self.remaining,
            last_phase: self.last_phase,
            last_phase_is_intermission: self.last_phase_is_intermission,
            name: self.name@,
            kill: self.kill,
            start_ms: self.start_ms,
            end_ms: self.end_ms,
            seconds: self.seconds,
        }
    }
}

impl Clone for Pull {
    fn clone(&self) -> (copy: Pull)
        ensures
            copy@ == self@,
    {
        Pull {
            report: self.report.clone(),
            id: self.id,
            encounter: self.encounter,
            difficulty: self.difficulty,
            report_start_ms: self.report_start_ms,
            remaining: self.remaining,
            last_phase: self.last_phase,
            last_phase_is_intermission: self.last_phase_is_intermission,
            name: self.name.clone(),
            kill: self.kill,
            start_ms: self.start_ms,
            end_ms: self.end_ms,
            seconds: self.seconds,
        }
    }
}

/// The content of an optional pull.
pub open spec fn pull_view(pull: Option<Pull>) -> Option<PullView> {
    match pull {
        Some(pull) => Some(pull@),
        None => None,
    }
}

/// Whether two pulls are one and the same, however their metadata changed.
pub open spec fn same_pull(a: PullView, b: PullView) -> bool {
    a.report == b.report && a.id == b.id
}

pub fn is_same_pull(a: &Pull, b: &Pull) -> (same: bool)
    ensures
        same == same_pull(a@, b@),
{
    a.id == b.id && same_text(&a.report, &b.report)
}

/// Whether two optional pulls are one and the same, or both missing.
pub open spec fn same_selection(a: Option<PullView>, b: Option<PullView>) -> bool {
    match (a, b) {
        (Some(a), Some(b)) => same_pull(a, b),
        (None, None) => true,
        _ => false,
    }
}

pub fn is_same_selection(a: &Option<Pull>, b: &Option<Pull>) -> (same: bool)
    ensures
        same == same_selection(pull_view(*a), pull_view(*b)),
{
    match (a, b) {
        (Some(a), Some(b)) => is_same_pull(a, b),
        (None, None) => true,
        _ => false,
    }
}

/// The contents of a list of pulls.
pub open spec fn pull_views(pulls: Seq<Pull>) -> Seq<PullView> {
    Seq::new(pulls.len(), |i: int| pulls[i]@)
}

/// Where `pull` stands in the list: the first place of the same pull.
pub open spec fn place_of(pulls: Seq<PullView>, pull: PullView) -> Option<int>
    decreases pulls.len(),
{
    if pulls.len() == 0 {
        None
    } else if same_pull(pulls[0], pull) {
        Some(0)
    } else {
        match place_of(pulls.skip(1), pull) {
            Some(i) => Some(i + 1),
            None => None,
        }
    }
}

/// A place that is found is in the list and holds the pull; none is found only where none does.
pub proof fn lemma_place(pulls: Seq<PullView>, pull: PullView)
    ensures
        match place_of(pulls, pull) {
            Some(i) => 0 <= i < pulls.len() && same_pull(pulls[i], pull),
            None => forall|i: int| 0 <= i < pulls.len() ==> !same_pull(#[trigger] pulls[i], pull),
        },
    decreases pulls.len(),
{
    if pulls.len() > 0 && !same_pull(pulls[0], pull) {
        lemma_place(pulls.skip(1), pull);
        assert forall|i: int| 1 <= i < pulls.len() implies pulls.skip(1)[i - 1] == #[trigger] pulls[i] by {}
        if place_of(pulls, pull) is None {
            assert forall|i: int| 0 <= i < pulls.len() implies !same_pull(#[trigger] pulls[i], pull) by {
                if i > 0 {
                    assert(pulls.skip(1)[i - 1] == pulls[i]);
                }
            }
        }
    }
}

/// Where `pull` stands in the list.
pub fn find_pull(pulls: &Vec<Pull>, pull: &Pull) -> (place: Option<usize>)
    ensures
        match place {
            Some(i) => i < pulls@.len() && place_of(pull_views(pulls@), pull@) == Some(i as int),
            None => place_of(pull_views(pulls@), pull@) is None,
        },
{
    let ghost views = pull_views(pulls@);
    let mut i: usize = 0;
    assert(views.skip(0) =~= views);
    while i < pulls.len()
        invariant
            i <= pulls.len(),
            views == pull_views(pulls@),
            place_of(views, pull@) == match place_of(views.skip(i as int), pull@) {
                Some(k) => Some(k + i),
                None => None,
            },
        decreases pulls.len() - i,
    {
        if is_same_pull(&pulls[i], pull) {
            return Some(i);
        }
        assert(views.skip(i as int).skip(1) =~= views.skip(i as int + 1));
        i += 1;
    }
    None
}

/// What happened in a pull.
#[derive(Debug)]
pub struct RaidEvent {
    pub at_ms: i64,
    pub actor_id: u64,
    pub observed_buff: bool,
    pub actor: String,
    pub class: String,
    pub ability: String,
    pub ability_id: u64,
    pub target: Option<String>,
    pub target_actor_id: Option<u64>,
    pub kind: EventKind,
    pub group: Option<DefensiveGroup>,
}

/// How a recording's clock stands to the encounter's, found from a marker in the picture.
#[derive(Clone, Copy, Debug, PartialEq, Eq, Structural)]
pub struct Alignment {
    pub unix_seconds: i64,
    /// The position at which the pull starts, in microseconds.
    pub video: i64,
    pub uncertainty: i64,
}

/// What RFC 3339 text stands for, in nanoseconds since the Unix epoch: nothing where it
/// cannot be read.
pub uninterp spec fn rfc3339_nanos(text: Seq<char>) -> Option<i128>;

/// `time::OffsetDateTime::parse` with the RFC 3339 format, read out as a Unix time. The
/// contract only names the outcome, which depends on the text alone.
#[verifier::external_body]
fn parse_rfc3339(text: &str) -> (nanos: Option<i128>)
    ensures
        nanos == rfc3339_nanos(text@),
{
    time::OffsetDateTime::parse(text, &time::format_description::well_known::Rfc3339)
        .ok()
        .map(|moment| moment.unix_timestamp_nanos())
}

/// Whole milliseconds of a Unix time, where it is not before the epoch and fits.
pub open spec fn whole_millis(nanos: Option<i128>) -> Option<i64> {
    match nanos {
        Some(n) => if 0 <= n && n / 1_000_000 <= i64::MAX { Some((n / 1_000_000) as i64) } else { None },
        None => None,
    }
}

/// The milliseconds of a Unix time in nanoseconds.
pub fn millis_of(nanos: Option<i128>) -> (millis: Option<i64>)
    ensures
        millis == whole_millis(nanos),
{
    match nanos {
        Some(n) => if n >= 0 && n / 1_000_000 <= i64::MAX as i128 {
            Some((n / 1_000_000) as i64)
        } else {
            None
        },
        None => None,
    }
}

/// One recording.
#[derive(Debug)]
pub struct Replay {
    pub provider: Provider,
    pub video_id: String,
    pub broadcast_id: String,
    /// When the recording starts, where that is known.
    pub start_ms: Option<i64>,
    pub available_seconds: u64,
}

/// The mathematical content of a `Replay`.
pub struct ReplayView {
    pub provider: Provider,
    pub video_id: Seq<char>,
    pub broadcast_id: Seq<char>,
    pub start_ms: Option<i64>,
    pub available_seconds: u64,
}

impl View for Replay {
    type V = ReplayView;

    open spec fn view(&self) -> ReplayView {
        ReplayView {
            provider: self.provider,
            video_id: self.video_id@,
            broadcast_id: self.broadcast_id@,
            start_ms: self.start_ms,
            available_seconds: self.available_seconds,
        }
    }
}

impl Clone for Replay {
    fn clone(&self) -> (copy: Replay)
        ensures
            copy@ == self@,
    {
        Replay {
            provider: self.provider,
            video_id: self.video_id.clone(),
            broadcast_id: self.broadcast_id.clone(),
            start_ms: self.start_ms,
            available_seconds: self.available_seconds,
        }
    }
}

impl Replay {
    /// A recording whose start is given as RFC 3339 text, read once, here.
    pub fn new(
        provider: Provider,
        video_id: String,
        broadcast_id: String,
        started_at: &str,
        available_seconds: u64,
    ) -> (replay: Replay)
        ensures
            replay == (Replay {
                provider,
                video_id,
                broadcast_id,
                start_ms: whole_millis(rfc3339_nanos(started_at@)),
                available_seconds,
            }),
    {
        Replay { provider, video_id, broadcast_id, start_ms: millis_of(parse_rfc3339(started_at)), available_seconds }
    }

    /// The moments that the recording covers, where both ends can be told.
    pub fn coverage(&self) -> (range: Option<(i64, i64)>)
        ensures
            range == coverage_of(self@),
    {
        match self.start_ms {
            Some(start) => {
                let end: i128 = start as i128 + self.available_seconds as i128 * 1000;
                if self.available_seconds <= 9_223_372_036_854_775 && end <= i64::MAX as i128 {
                    Some((start, end as i64))
                } else {
                    None
                }
            },
            None => None,
        }
    }
}

/// The moments that a recording covers, where both ends can be told.
pub open spec fn coverage_of(replay: ReplayView) -> Option<(i64, i64)> {
    match replay.start_ms {
        Some(start) => if replay.available_seconds * 1000 <= i64::MAX && start + replay.available_seconds * 1000
            <= i64::MAX {
            Some((start, (start + replay.available_seconds * 1000) as i64))
        } else {
            None
        },
        None => None,
    }
}

// ---------------------------------------------------------------- per-pull clocks

/// The clock of one pull in one review.
#[derive(Debug)]
pub struct Timing {
    pub report: String,
    pub id: u64,
    pub alignment: Alignment,
}

/// The clocks that a review knows, by report and pull.
#[derive(Debug)]
pub struct Timings {
    pub entries: Vec<Timing>,
}

pub open spec fn timing_map(entries: Seq<Timing>) -> Map<(Seq<char>, u64), Alignment>
    decreases entries.len(),
{
    if entries.len() == 0 {
        Map::empty()
    } else {
        timing_map(entries.drop_last()).insert((entries.last().report@, entries.last().id), entries.last().alignment)
    }
}

impl View for Timings {
    type V = Map<(Seq<char>, u64), Alignment>;

    open spec fn view(&self) -> Map<(Seq<char>, u64), Alignment> {
        timing_map(self.entries@)
    }
}

/// What a map has for a key.
pub open spec fn at_key<K, V>(map: Map<K, V>, key: K) -> Option<V> {
    if map.dom().contains(key) { Some(map[key]) } else { None }
}

impl Timings {
    pub fn new() -> (timings: Timings)
        ensures
            timings@ == Map::<(Seq<char>, u64), Alignment>::empty(),
    {
        Timings { entries: Vec::new() }
    }

    pub fn get(&self, report: &str, id: u64) -> (alignment: Option<Alignment>)
        ensures
            alignment == at_key(self@, (report@, id)),
    {
        let mut n: usize = self.entries.len();
        assert(self.entries@.take(n as int) =~= self.entries@);
        while n > 0
            invariant
                n <= self.entries@.len(),
                at_key(self@, (report@, id)) == at_key(timing_map(self.entries@.take(n as int)), (report@, id)),
            decreases n,
        {
            assert(self.entries@.take(n as int).drop_last() =~= self.entries@.take(n as int - 1));
            let entry = &self.entries[n - 1];
            if entry.id == id && same_text(&entry.report, report) {
                return Some(entry.alignment);
            }
            n -= 1;
        }
        None
    }

    /// Forgets the clock of one pull.
    pub fn remove(&mut self, report: &str, id: u64)
        ensures
            final(self)@ == old(self)@.remove((report@, id)),
    {
        let mut kept: Vec<Timing> = Vec::new();
        let mut i: usize = 0;
        let ghost key = (report@, id);
        let ghost all = self.entries@;
        assert(timing_map(kept@) =~= timing_map(all.take(0)).remove(key));
        while i < self.entries.len()
            invariant
                i <= self.entries@.len(),
                all == self.entries@,
                key == (report@, id),
                timing_map(kept@) == timing_map(all.take(i as int)).remove(key),
            decreases self.entries.len() - i,
        {
            let entry = &self.entries[i];
            let ghost before = kept@;
            assert(all.take(i as int + 1).drop_last() =~= all.take(i as int));
            if !(entry.id == id && same_text(&entry.report, report)) {
                kept.push(Timing { report: entry.report.clone(), id: entry.id, alignment: entry.alignment });
                assert(kept@.drop_last() =~= before);
            }
            assert(timing_map(kept@) =~= timing_map(all.take(i as int + 1)).remove(key));
            i += 1;
        }
        assert(all.take(all.len() as int) =~= all);
        self.entries = kept;
    }

    /// Sets the clock of one pull.
    pub fn insert(&mut self, report: &str, id: u64, alignment: Alignment)
        ensures
            final(self)@ == old(self)@.insert((report@, id), alignment),
    {
        self.remove(report, id);
        let ghost before = self.entries@;
        self.entries.push(Timing { report: String::from_str(report), id, alignment });
        assert(self.entries@.drop_last() =~= before);
        assert(self@ =~= old(self)@.insert((report@, id), alignment));
    }

    pub fn duplicate(&self) -> (copy: Timings)
        ensures
            copy@ == self@,
    {
        let mut entries: Vec<Timing> = Vec::new();
        let mut i: usize = 0;
        assert(timing_map(entries@) =~= timing_map(self.entries@.take(0)));
        while i < self.entries.len()
            invariant
                i <= self.entries@.len(),
                timing_map(entries@) == timing_map(self.entries@.take(i as int)),
            decreases self.entries.len() - i,
        {
            let ghost before = entries@;
            let entry = &self.entries[i];
            entries.push(Timing { report: entry.report.clone(), id: entry.id, alignment: entry.alignment });
            assert(entries@.drop_last() =~= before);
            assert(self.entries@.take(i as int + 1).drop_last() =~= self.entries@.take(i as int));
            i += 1;
        }
        assert(self.entries@.take(self.entries@.len() as int) =~= self.entries@);
        Timings { entries }
    }
}

/// A clock found for exactly these bounds of a pull in this recording.
#[derive(Debug)]
pub struct Marker {
    pub provider: Provider,
    pub video_id: String,
    pub broadcast_id: String,
    pub report: String,
    pub id: u64,
    pub start_ms: i64,
    pub end_ms: i64,
    pub alignment: Alignment,
}

/// What a found clock belongs to.
pub struct MarkerKey {
    pub provider: Provider,
    pub video_id: Seq<char>,
    pub broadcast_id: Seq<char>,
    pub report: Seq<char>,
    pub id: u64,
    pub start_ms: i64,
    pub end_ms: i64,
}

impl Marker {
    pub open spec fn key(self) -> MarkerKey {
        MarkerKey {
            provider: self.provider,
            video_id: self.video_id@,
            broadcast_id: self.broadcast_id@,
            report: self.report@,
            id: self.id,
            start_ms: self.start_ms,
            end_ms: self.end_ms,
        }
    }
}

/// The key of a pull in a recording: changed bounds make another key.
pub open spec fn marker_key(replay: ReplayView, pull: PullView) -> MarkerKey {
    MarkerKey {
        provider: replay.provider,
        video_id: replay.video_id,
        broadcast_id: replay.broadcast_id,
        report: pull.report,
        id: pull.id,
        start_ms: pull.start_ms,
        end_ms: pull.end_ms,
    }
}

/// The clocks found so far, kept for the next navigation.
#[derive(Debug)]
pub struct MarkerCache {
    pub entries: Vec<Marker>,
}

pub open spec fn marker_map(entries: Seq<Marker>) -> Map<MarkerKey, Alignment>
    decreases entries.len(),
{
    if entries.len() == 0 {
        Map::empty()
    } else {
        marker_map(entries.drop_last()).insert(entries.last().key(), entries.last().alignment)
    }
}

impl View for MarkerCache {
    type V = Map<MarkerKey, Alignment>;

    open spec fn view(&self) -> Map<MarkerKey, Alignment> {
        marker_map(self.entries@)
    }
}

fn is_marker_of(entry: &Marker, replay: &Replay, pull: &Pull) -> (yes: bool)
    ensures
        yes == (entry.key() == marker_key(replay@, pull@)),
{
    entry.provider == replay.provider && entry.id == pull.id && entry.start_ms == pull.start_ms && entry.end_ms
        == pull.end_ms && same_text(&entry.video_id, &replay.video_id) && same_text(
        &entry.broadcast_id,
        &replay.broadcast_id,
    ) && same_text(&entry.report, &pull.report)
}

impl MarkerCache {
    pub fn new() -> (cache: MarkerCache)
        ensures
            cache@ == Map::<MarkerKey, Alignment>::empty(),
    {
        MarkerCache { entries: Vec::new() }
    }

    pub fn get(&self, replay: &Replay, pull: &Pull) -> (alignment: Option<Alignment>)
        ensures
            alignment == at_key(self@, marker_key(replay@, pull@)),
    {
        let ghost key = marker_key(replay@, pull@);
        let mut n: usize = self.entries.len();
        assert(self.entries@.take(n as int) =~= self.entries@);
        while n > 0
            invariant
                n <= self.entries@.len(),
                key == marker_key(replay@, pull@),
                at_key(self@, key) == at_key(marker_map(self.entries@.take(n as int)), key),
            decreases n,
        {
            assert(self.entries@.take(n as int).drop_last() =~= self.entries@.take(n as int - 1));
            if is_marker_of(&self.entries[n - 1], replay, pull) {
                return Some(self.entries[n - 1].alignment);
            }
            n -= 1;
        }
        None
    }

    pub fn insert(&mut self, replay: &Replay, pull: &Pull, alignment: Alignment)
        ensures
            final(self)@ == old(self)@.insert(marker_key(replay@, pull@), alignment),
    {
        let ghost key = marker_key(replay@, pull@);
        let ghost all = self.entries@;
        let mut kept: Vec<Marker> = Vec::new();
        let mut i: usize = 0;
        assert(marker_map(kept@) =~= marker_map(all.take(0)).remove(key));
        while i < self.entries.len()
            invariant
                i <= self.entries@.len(),
                all == self.entries@,
                key == marker_key(replay@, pull@),
                marker_map(kept@) == marker_map(all.take(i as int)).remove(key),
            decreases self.entries.len() - i,
        {
            let entry = &self.entries[i];
            let ghost before = kept@;
            assert(all.take(i as int + 1).drop_last() =~= all.take(i as int));
            if !is_marker_of(entry, replay, pull) {
                kept.push(
                    Marker {
                        provider: entry.provider,
                        video_id: entry.video_id.clone(),
                        broadcast_id: entry.broadcast_id.clone(),
                        report: entry.report.clone(),
                        id: entry.id,
                        start_ms: entry.start_ms,
                        end_ms: entry.end_ms,
                        alignment: entry.alignment,
                    },
                );
                assert(kept@.drop_last() =~= before);
                assert(kept@.last().key() == entry.key());
            }
            assert(marker_map(kept@) =~= marker_map(all.take(i as int + 1)).remove(key));
            i += 1;
        }
        assert(all.take(all.len() as int) =~= all);
        let ghost before = kept@;
        kept.push(
            Marker {
                provider: replay.provider,
                video_id: replay.video_id.clone(),
                broadcast_id: replay.broadcast_id.clone(),
                report: pull.report.clone(),
                id: pull.id,
                start_ms: pull.start_ms,
                end_ms: pull.end_ms,
                alignment,
            },
        );
        assert(kept@.drop_last() =~= before);
        assert(kept@.last().key() == key);
        self.entries = kept;
        assert(self@ =~= old(self)@.insert(key, alignment));
    }
}

// ---------------------------------------------------------------- reviews

/// A recording with its pulls and what is known of their clocks.
#[derive(Debug)]
pub struct Review {
    pub replay: Replay,
    pub pulls: Vec<Pull>,
    pub marker_timing: Timings,
}

/// The mathematical content of a `Review`.
pub struct ReviewView {
    pub replay: ReplayView,
    pub pulls: Seq<PullView>,
    pub timing: Map<(Seq<char>, u64), Alignment>,
}

impl View for Review {
    type V = ReviewView;

    open spec fn view(&self) -> ReviewView {
        ReviewView { replay: self.replay@, pulls: pull_views(self.pulls@), timing: self.marker_timing@ }
    }
}

/// A number that fits 64 bits, the nearest one where it does not.
pub open spec fn to_i64(n: int) -> i64 {
    if n > i64::MAX { i64::MAX } else if n < i64::MIN { i64::MIN } else { n as i64 }
}

pub(crate) fn narrow(n: i128) -> (out: i64)
    ensures
        out == to_i64(n as int),
{
    if n > i64::MAX as i128 { i64::MAX } else if n < i64::MIN as i128 { i64::MIN } else { n as i64 }
}

/// The clock of one pull, where the review knows it.
pub open spec fn alignment_of(review: ReviewView, pull: PullView) -> Option<Alignment> {
    at_key(review.timing, (pull.report, pull.id))
}

/// The position at which a pull starts: where its clock puts it, and otherwise as far into
/// the recording as the two starts are apart.
pub open spec fn video_start(review: ReviewView, pull: PullView) -> i64 {
    match alignment_of(review, pull) {
        Some(alignment) => alignment.video,
        None => to_i64(
            (pull.start_ms - match review.replay.start_ms {
                Some(start) => start as int,
                None => 0,
            }) * 1000,
        ),
    }
}

/// The position of a moment of the encounter, exact to the millisecond.
pub open spec fn video_position(review: ReviewView, pull: PullView, at_ms: i64) -> int {
    video_start(review, pull) + (at_ms - pull.start_ms) * 1000
}

/// The whole thousands nearest to `n`, away from zero at a tie.
pub open spec fn nearest_thousand(n: int) -> int {
    if n >= 0 { (n + 500) / 1000 } else { -((-n + 500) / 1000) }
}

/// The moment of the encounter that a position shows, to the nearest millisecond.
pub open spec fn moment_at(review: ReviewView, pull: PullView, position: i64) -> i64 {
    to_i64(pull.start_ms + nearest_thousand(position - video_start(review, pull)))
}

impl Review {
    pub fn marker_alignment(&self, pull: &Pull) -> (alignment: Option<Alignment>)
        ensures
            alignment == alignment_of(self@, pull@),
    {
        self.marker_timing.get(&pull.report, pull.id)
    }

    pub fn pull_video_start(&self, pull: &Pull) -> (position: i64)
        ensures
            position == video_start(self@, pull@),
    {
        match self.marker_alignment(pull) {
            Some(alignment) => alignment.video,
            None => {
                let start: i64 = match self.replay.start_ms {
                    Some(start) => start,
                    None => 0,
                };
                narrow((pull.start_ms as i128 - start as i128) * 1000)
            },
        }
    }

    pub fn duplicate(&self) -> (copy: Review)
        ensures
            copy@ == self@,
    {
        let mut pulls: Vec<Pull> = Vec::new();
        let mut i: usize = 0;
        while i < self.pulls.len()
            invariant
                i <= self.pulls@.len(),
                pulls@.len() == i,
                forall|j: int| 0 <= j < i ==> (#[trigger] pulls@[j])@ == self.pulls@[j]@,
            decreases self.pulls.len() - i,
        {
            pulls.push(self.pulls[i].clone());
            i += 1;
        }
        assert(pull_views(pulls@) =~= pull_views(self.pulls@));
        Review { replay: self.replay.clone(), pulls, marker_timing: self.marker_timing.duplicate() }
    }
}

/// The moment of the encounter that a position in the recording shows.
pub fn encounter_moment(review: &Review, pull: &Pull, position: i64) -> (at_ms: i64)
    ensures
        at_ms == moment_at(review@, pull@, position),
{
    let offset: i128 = position as i128 - review.pull_video_start(pull) as i128;
    let millis: i128 = if offset >= 0 { (offset + 500) / 1000 } else { -((500 - offset) / 1000) };
    narrow(pull.start_ms as i128 + millis)
}

/// The position of a moment of the encounter, where the recording holds it.
pub open spec fn position_of(review: ReviewView, pull: PullView, at_ms: i64) -> Option<i64> {
    let position = video_position(review, pull, at_ms);
    if 0 <= position <= i64::MAX && position < review.replay.available_seconds * 1_000_000 {
        Some(position as i64)
    } else {
        None
    }
}

pub fn find_position(review: &Review, pull: &Pull, at_ms: i64) -> (position: Option<i64>)
    ensures
        position == position_of(review@, pull@, at_ms),
{
    let position: i128 = review.pull_video_start(pull) as i128 + (at_ms as i128 - pull.start_ms as i128) * 1000;
    let end: i128 = review.replay.available_seconds as i128 * 1_000_000;
    if 0 <= position && position <= i64::MAX as i128 && position < end {
        Some(position as i64)
    } else {
        None
    }
}

/// Whether a position lies inside a pull.
pub open spec fn shows_pull(review: ReviewView, pull: PullView, position: i64) -> bool {
    video_start(review, pull) <= position < video_start(review, pull) + (pull.end_ms - pull.start_ms) * 1000
}

pub fn is_showing(review: &Review, pull: &Pull, position: i64) -> (yes: bool)
    ensures
        yes == shows_pull(review@, pull@, position),
{
    let start: i64 = review.pull_video_start(pull);
    position >= start && (position as i128) < start as i128 + (pull.end_ms as i128 - pull.start_ms as i128) * 1000
}

/// The first pull of the review that a position shows.
pub open spec fn shown_pull(review: ReviewView, from: int, position: i64) -> Option<int>
    decreases review.pulls.len() - from,
{
    if from < 0 || from >= review.pulls.len() {
        None
    } else if shows_pull(review, review.pulls[from], position) {
        Some(from)
    } else {
        shown_pull(review, from + 1, position)
    }
}

pub fn find_shown(review: &Review, position: i64) -> (place: Option<usize>)
    ensures
        match place {
            Some(i) => i < review.pulls@.len() && shown_pull(review@, 0, position) == Some(i as int),
            None => shown_pull(review@, 0, position) is None,
        },
{
    let mut i: usize = 0;
    while i < review.pulls.len()
        invariant
            i <= review.pulls@.len(),
            shown_pull(review@, 0, position) == shown_pull(review@, i as int, position),
        decreases review.pulls.len() - i,
    {
        assert(review@.pulls[i as int] == review.pulls@[i as int]@);
        if is_showing(review, &review.pulls[i], position) {
            return Some(i);
        }
        i += 1;
    }
    None
}

/// The review with the clock that was found for exactly this pull, where there is one.
pub open spec fn adopted(review: ReviewView, cache: Map<MarkerKey, Alignment>, pull: PullView) -> ReviewView {
    match at_key(cache, marker_key(review.replay, pull)) {
        Some(alignment) => ReviewView {
            timing: review.timing.insert((pull.report, pull.id), alignment),
            ..review
        },
        None => review,
    }
}

/// Puts the clock that was found for this pull into the review.
pub fn adopt_clock(review: &mut Review, cache: &MarkerCache, pull: &Pull)
    ensures
        final(review)@ == adopted(old(review)@, cache@, pull@),
{
    if let Some(alignment) = cache.get(&review.replay, pull) {
        review.marker_timing.insert(&pull.report, pull.id, alignment);
    }
}

// ---------------------------------------------------------------- streams

/// One guild member's view.
#[derive(Debug)]
pub struct Stream {
    pub replay_start_ms: Option<i64>,
    pub replay_end_ms: Option<i64>,
    pub recording_id: Option<String>,
    pub user_id: String,
    /// The place of the member's raid role in lists.
    pub role_order: u8,
    pub name: String,
    pub provider: Provider,
    pub channel_id: String,
    pub url: String,
    pub status: Status,
    pub broadcast_state: Option<String>,
}

impl Stream {
    pub open spec fn spec_range(self) -> Option<(i64, i64)> {
        match (self.replay_start_ms, self.replay_end_ms) {
            (Some(start), Some(end)) => Some((start, end)),
            _ => None,
        }
    }

    /// The moments that the stream's recording covers, where both ends are known.
    pub fn replay_range(&self) -> (range: Option<(i64, i64)>)
        ensures
            range == self.spec_range(),
    {
        match (self.replay_start_ms, self.replay_end_ms) {
            (Some(start), Some(end)) => Some((start, end)),
            _ => None,
        }
    }

    /// The video that a stream plays: its recording, or the channel of a YouTube stream.
    pub open spec fn spec_video(self) -> Option<Seq<char>> {
        if self.recording_id is Some {
            Some(self.recording_id->0@)
        } else if self.provider == Provider::Youtube {
            Some(self.channel_id@)
        } else {
            None
        }
    }

    pub fn video_id(&self) -> (id: Option<String>)
        ensures
            text_of(id) == self.spec_video(),
    {
        match &self.recording_id {
            Some(id) => Some(id.clone()),
            None => match self.provider {
                Provider::Youtube => Some(self.channel_id.clone()),
                Provider::Twitch => None,
            },
        }
    }
}

/// A recording covers a moment of a pull when both the pull's start and the moment lie
/// inside it. Its end is exclusive, and it is never longer than a week.
pub open spec fn covers(range: (i64, i64), pull_start_ms: i64, at_ms: i64) -> bool {
    let (start, end) = range;
    &&& 0 <= start < end
    &&& end - start <= 7 * 86_400_000
    &&& start <= pull_start_ms < end
    &&& start <= at_ms < end
}

pub fn recording_covers_moment(range: (i64, i64), pull_start_ms: i64, at_ms: i64) -> (yes: bool)
    ensures
        yes == covers(range, pull_start_ms, at_ms),
{
    let (start, end) = range;
    if start < 0 || end <= start || end - start > 604_800_000 {
        return false;
    }
    start <= pull_start_ms && pull_start_ms < end && start <= at_ms && at_ms < end
}

// ---------------------------------------------------------------- laws

/// A moment that a recording holds comes back exactly, to the millisecond, from the
/// position that a jump to it goes to: switching between views loses nothing.
pub proof fn seek_preserves_the_millisecond(review: ReviewView, pull: PullView, at_ms: i64)
    requires
        position_of(review, pull, at_ms) is Some,
    ensures
        moment_at(review, pull, position_of(review, pull, at_ms)->0) == at_ms,
{
    let offset = (at_ms - pull.start_ms) * 1000;
    if offset >= 0 {
        assert((offset + 500) / 1000 == at_ms - pull.start_ms) by (nonlinear_arith)
            requires
                offset == (at_ms - pull.start_ms) * 1000,
        ;
    } else {
        assert((-offset + 500) / 1000 == -(at_ms - pull.start_ms)) by (nonlinear_arith)
            requires
                offset == (at_ms - pull.start_ms) * 1000,
        ;
    }
}

/// Going from one view of a pull to another and back keeps the moment, whatever the two
/// recordings' clocks are.
pub proof fn views_agree_on_the_moment(one: ReviewView, other: ReviewView, pull: PullView, at_ms: i64)
    requires
        position_of(one, pull, at_ms) is Some,
        position_of(other, pull, moment_at(one, pull, position_of(one, pull, at_ms)->0)) is Some,
    ensures
        moment_at(
            other,
            pull,
            position_of(other, pull, moment_at(one, pull, position_of(one, pull, at_ms)->0))->0,
        ) == at_ms,
{
    seek_preserves_the_millisecond(one, pull, at_ms);
    seek_preserves_the_millisecond(other, pull, at_ms);
}

/// Within one pull, a recording that covers the pull's start and a later moment covers
/// everything between.
pub proof fn coverage_has_no_gaps(range: (i64, i64), pull_start_ms: i64, earlier: i64, later: i64)
    requires
        covers(range, pull_start_ms, later),
        pull_start_ms <= earlier <= later,
    ensures
        covers(range, pull_start_ms, earlier),
{
}

/// A pull starts where its own clock says; without one, as far into the video as it began after
/// the recording did.
pub proof fn pulls_start_by_their_clock(review: ReviewView, pull: PullView, clock: Alignment, began: i64)
    ensures
        video_start(
            (ReviewView { timing: review.timing.insert((pull.report, pull.id), clock), ..review }),
            pull,
        ) == clock.video,
        !review.timing.dom().contains((pull.report, pull.id)) && review.replay.start_ms == Some(began) && i64::MIN <= (
        pull.start_ms - began) * 1000 <= i64::MAX ==> video_start(review, pull) == (pull.start_ms - began) * 1000,
        !review.timing.dom().contains((pull.report, pull.id)) && review.replay.start_ms is None && i64::MIN
            <= pull.start_ms * 1000 <= i64::MAX ==> video_start(review, pull) == pull.start_ms * 1000,
{
}

/// The clock of one pull says nothing of another.
pub proof fn clocks_are_per_pull(review: ReviewView, pull: PullView, other: PullView, clock: Alignment)
    requires
        pull.report != other.report || pull.id != other.id,
    ensures
        video_start(
            (ReviewView { timing: review.timing.insert((pull.report, pull.id), clock), ..review }),
            other,
        ) == video_start(review, other),
{
}

/// A moment is in the recording exactly where its position, as far past the pull's start in the
/// video as in the encounter, lies between the recording's start and its end.
pub proof fn moments_have_their_position(review: ReviewView, pull: PullView, at_ms: i64)
    ensures
        match position_of(review, pull, at_ms) {
            Some(position) => {
                &&& position - video_start(review, pull) == (at_ms - pull.start_ms) * 1000
                &&& 0 <= position && position < review.replay.available_seconds * 1_000_000
            },
            None => {
                let wanted = video_start(review, pull) + (at_ms - pull.start_ms) * 1000;
                wanted < 0 || wanted >= review.replay.available_seconds * 1_000_000 || wanted > i64::MAX
            },
        },
{
}

/// A later moment is later in the video, by the same time.
pub proof fn positions_keep_the_distance(review: ReviewView, pull: PullView, one: i64, other: i64)
    requires
        position_of(review, pull, one) is Some,
        position_of(review, pull, other) is Some,
    ensures
        position_of(review, pull, other)->0 - position_of(review, pull, one)->0 == (other - one) * 1000,
{
}

/// The moment that a position shows is never more than half a millisecond from it, and the
/// pull's start is shown where the pull starts.
pub proof fn positions_show_their_moment(review: ReviewView, pull: PullView, position: i64)
    requires
        i64::MIN + 1 <= pull.start_ms + (position - video_start(review, pull)) / 1000 <= i64::MAX - 1,
    ensures
        ({
            let shown = (moment_at(review, pull, position) - pull.start_ms) * 1000;
            -500 <= shown - (position - video_start(review, pull)) <= 500
        }),
        position == video_start(review, pull) ==> moment_at(review, pull, position) == pull.start_ms,
{
    let offset = position - video_start(review, pull);
    if offset >= 0 {
        assert(0 <= (offset + 500) / 1000 - offset / 1000 <= 1);
    } else {
        assert(-1 <= -((-offset + 500) / 1000) - offset / 1000 <= 1);
    }
}

/// A pull is shown from its first moment to just before its last.
pub proof fn pulls_are_shown_from_start_to_end(review: ReviewView, pull: PullView, position: i64)
    ensures
        shows_pull(review, pull, position) ==> video_start(review, pull) <= position && position - video_start(
            review,
            pull,
        ) < (pull.end_ms - pull.start_ms) * 1000,
        pull.start_ms < pull.end_ms && position == video_start(review, pull) ==> shows_pull(review, pull, position),
        0 <= position - video_start(review, pull) < (pull.end_ms - pull.start_ms) * 1000 ==> shows_pull(
            review,
            pull,
            position,
        ),
{
}

/// The pull that a position belongs to is the first of the recording that shows it; none is
/// named only where none does.
pub proof fn positions_belong_to_the_first_pull(review: ReviewView, position: i64)
    ensures
        match shown_pull(review, 0, position) {
            Some(i) => {
                &&& 0 <= i < review.pulls.len()
                &&& 0 <= position - video_start(review, review.pulls[i]) < (review.pulls[i].end_ms
                    - review.pulls[i].start_ms) * 1000
                &&& forall|j: int| 0 <= j < i ==> !shows_pull(review, #[trigger] review.pulls[j], position)
            },
            None => forall|j: int| 0 <= j < review.pulls.len() ==> !shows_pull(review, #[trigger] review.pulls[j], position),
        },
{
    lemma_shown(review, 0, position);
}

proof fn lemma_shown(review: ReviewView, from: int, position: i64)
    requires
        0 <= from,
    ensures
        match shown_pull(review, from, position) {
            Some(i) => {
                &&& from <= i < review.pulls.len() && shows_pull(review, review.pulls[i], position)
                &&& forall|j: int| from <= j < i ==> !shows_pull(review, #[trigger] review.pulls[j], position)
            },
            None => forall|j: int|
                from <= j < review.pulls.len() ==> !shows_pull(review, #[trigger] review.pulls[j], position),
        },
    decreases review.pulls.len() - from,
{
    if from < review.pulls.len() {
        lemma_shown(review, from + 1, position);
    }
}

/// A found clock is used for exactly the pull, bounds and recording that it was found for.
pub proof fn found_clocks_are_used_for_their_pull(
    review: ReviewView,
    cache: Map<MarkerKey, Alignment>,
    pull: PullView,
    clock: Alignment,
)
    ensures
        video_start(adopted(review, cache.insert(marker_key(review.replay, pull), clock), pull), pull) == clock.video,
        !cache.dom().contains(marker_key(review.replay, pull)) ==> adopted(review, cache, pull) == review,
        adopted(review, cache, pull).pulls == review.pulls && adopted(review, cache, pull).replay == review.replay,
{
}

/// A pull with other bounds, of another report, or in another recording has a clock of its own.
pub proof fn clocks_belong_to_one_recording_of_one_pull(a: ReplayView, b: ReplayView, one: PullView, other: PullView)
    ensures
        marker_key(a, one) == marker_key(b, other) <==> a.provider == b.provider && a.video_id == b.video_id
            && a.broadcast_id == b.broadcast_id && one.report == other.report && one.id == other.id && one.start_ms
            == other.start_ms && one.end_ms == other.end_ms,
{
}

/// Two pulls are the same exactly where report and number are.
pub proof fn pulls_are_told_by_report_and_number(a: PullView, b: PullView)
    ensures
        same_pull(a, b) <==> a.report == b.report && a.id == b.id,
        same_selection(Some(a), Some(b)) <==> a.report == b.report && a.id == b.id,
        !same_selection(Some(a), None) && !same_selection(None, Some(b)) && same_selection(None, None),
{
}

/// A recording covers what lies between its start and its length after it.
pub proof fn recordings_cover_their_length(replay: ReplayView)
    ensures
        match coverage_of(replay) {
            Some((start, end)) => replay.start_ms == Some(start) && end - start == replay.available_seconds * 1000,
            None => replay.start_ms is None || replay.start_ms->0 + replay.available_seconds * 1000 > i64::MAX
                || replay.available_seconds * 1000 > i64::MAX,
        },
{
}

/// A moment is covered exactly where it, and the pull's start, lie in a recording of at most a
/// week; its last moment is the first that is not covered.
pub proof fn covered_moments_lie_in_the_recording(start: i64, end: i64, pull_start_ms: i64, at_ms: i64)
    ensures
        covers((start, end), pull_start_ms, at_ms) ==> start <= pull_start_ms && start <= at_ms && pull_start_ms < end
            && at_ms < end && 0 <= start && end - start <= 604_800_000,
        0 <= start && start <= pull_start_ms && pull_start_ms < end && start <= at_ms && at_ms < end && end - start
            <= 604_800_000 ==> covers((start, end), pull_start_ms, at_ms),
        !covers((start, end), pull_start_ms, end) && !covers((start, end), end, at_ms),
{
}

/// A stream plays its recording where it has one, and a YouTube stream without one its channel's
/// video.
pub proof fn streams_play_their_recording(stream: Stream)
    ensures
        stream.recording_id is Some ==> stream.spec_video() == Some(stream.recording_id->0@),
        stream.recording_id is None && stream.provider == Provider::Youtube ==> stream.spec_video() == Some(
            stream.channel_id@,
        ),
        stream.recording_id is None && stream.provider == Provider::Twitch ==> stream.spec_video() is None,
        stream.spec_range() is Some <==> stream.replay_start_ms is Some && stream.replay_end_ms is Some,
        stream.spec_range() is Some ==> stream.replay_start_ms == Some((stream.spec_range()->0).0)
            && stream.replay_end_ms == Some((stream.spec_range()->0).1),
{
}

/// A recording's start is read to the whole millisecond below; one before 1970 is unknown.
pub proof fn starts_are_whole_milliseconds(nanos: i128)
    ensures
        match whole_millis(Some(nanos)) {
            Some(millis) => 0 <= nanos - millis * 1_000_000 < 1_000_000 && 0 <= millis,
            None => nanos < 0 || nanos / 1_000_000 > i64::MAX,
        },
        whole_millis(None) is None,
{
}

/// Halfway between two, the one further from zero counts.
pub proof fn halves_are_rounded_outwards(n: int)
    requires
        n >= 0,
    ensures
        n % 1000 == 500 ==> nearest_thousand(n) * 1000 == n + 500,
        n % 1000 < 500 ==> nearest_thousand(n) * 1000 == n - n % 1000,
        nearest_thousand(-n) == -nearest_thousand(n),
{
}

} // verus!
