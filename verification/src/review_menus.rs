//! The menus of pulls and of views: what they list, and where the keyboard is.
use crate::address::text_of;
use crate::order::{lemma_text_order_total, lemma_text_order_transitive, rank_texts, text_less, Rank};
use crate::raid::{Pull, PullView, Stream};
use crate::raid_text::{
    clock, clock_text, outcome_text, pov_key, pov_key_text, pov_unavailable, pull_duration, pull_length,
    pull_outcome, unavailable_text,
};
use crate::text::{
    all_spaces, all_words_occur, ascii_text, decimal, decimal_text, has_all_words, lemma_spaces_trimmed, lowercase,
    holds, same_text, small_text, to_lowercase, trim, trimmed, trimming_keeps_the_words, word_at, words_of_both,
};
use vstd::prelude::*;

verus! {

// ---------------------------------------------------------------- the menu of pulls

/// The keys pressed while the menu of pulls is open.
#[derive(Clone, Copy, Debug, PartialEq, Eq, Structural)]
pub struct PullKeys {
    pub down: bool,
    pub up: bool,
    pub home: bool,
    pub end: bool,
    pub enter: bool,
}

/// What the keys did.
#[derive(Clone, Copy, Debug, PartialEq, Eq, Structural)]
pub struct PullMenu {
    pub cursor: Option<usize>,
    pub moved: bool,
    pub chosen: Option<usize>,
}

/// Where the cursor starts: on the chosen pull, or on the first.
pub open spec fn start_cursor(was_open: bool, current: Option<usize>, cursor: Option<usize>, count: nat) -> Option<usize> {
    if was_open && cursor is Some && cursor->0 < count {
        cursor
    } else if current is Some && current->0 < count {
        current
    } else if count > 0 {
        Some(0)
    } else {
        None
    }
}

/// The last place of a list, or the first of an empty one.
pub open spec fn last_place(count: nat) -> int {
    if count == 0 { 0 } else { count - 1 }
}

pub open spec fn moved_cursor(index: usize, keys: PullKeys, count: nat) -> int {
    let below = if keys.down {
        if index + 1 < last_place(count) { index + 1 } else { last_place(count) }
    } else {
        index as int
    };
    let above = if keys.up {
        if below > 0 { below - 1 } else { 0 }
    } else {
        below
    };
    let first = if keys.home { 0 } else { above };
    if keys.end { last_place(count) } else { first }
}

/// What the keys do in the menu of `count` pulls.
pub open spec fn menu_of(
    was_open: bool,
    current: Option<usize>,
    cursor: Option<usize>,
    count: nat,
    keys: PullKeys,
) -> PullMenu {
    let start = start_cursor(was_open, current, cursor, count);
    if was_open && start is Some {
        let place = moved_cursor(start->0, keys, count) as usize;
        PullMenu {
            cursor: Some(place),
            moved: keys.down || keys.up || keys.home || keys.end,
            chosen: if keys.enter { Some(place) } else { None },
        }
    } else {
        PullMenu { cursor: start, moved: false, chosen: None }
    }
}

/// Moves the keyboard through the menu of `count` pulls. A closed menu takes no keys.
pub fn pull_menu(was_open: bool, current: Option<usize>, cursor: Option<usize>, count: usize, keys: PullKeys) -> (menu:
    PullMenu)
    ensures
        menu == menu_of(was_open, current, cursor, count as nat, keys),
        menu.cursor is Some ==> menu.cursor->0 < count,
        menu.chosen is Some ==> menu.chosen->0 < count,
{
    let kept = match cursor {
        Some(index) => was_open && index < count,
        None => false,
    };
    let start: Option<usize> = if kept {
        cursor
    } else {
        match current {
            Some(index) => if index < count {
                current
            } else if count > 0 {
                Some(0)
            } else {
                None
            },
            None => if count > 0 {
                Some(0)
            } else {
                None
            },
        }
    };
    let index: usize = match start {
        Some(index) => index,
        None => {
            return PullMenu { cursor: None, moved: false, chosen: None };
        },
    };
    if !was_open {
        return PullMenu { cursor: start, moved: false, chosen: None };
    }
    let last: usize = count - 1;
    let mut place: usize = index;
    if keys.down && place < last {
        place += 1;
    }
    if keys.up && place > 0 {
        place -= 1;
    }
    if keys.home {
        place = 0;
    }
    if keys.end {
        place = last;
    }
    PullMenu {
        cursor: Some(place),
        moved: keys.down || keys.up || keys.home || keys.end,
        chosen: if keys.enter { Some(place) } else { None },
    }
}

/// The pull that a step to a neighbour, or a choice in the menu, leads to.
pub open spec fn step_place(
    current: Option<usize>,
    count: nat,
    previous: bool,
    next: bool,
    chosen: Option<usize>,
) -> Option<usize> {
    let stepped = if next && current is Some && current->0 + 1 < count {
        Some((current->0 + 1) as usize)
    } else if chosen is Some {
        chosen
    } else if previous && current is Some && current->0 > 0 {
        Some((current->0 - 1) as usize)
    } else {
        None
    };
    if stepped is Some && stepped != current && stepped->0 < count { stepped } else { None }
}

pub fn pull_step(current: Option<usize>, count: usize, previous: bool, next: bool, chosen: Option<usize>) -> (place:
    Option<usize>)
    ensures
        place == step_place(current, count as nat, previous, next, chosen),
{
    let mut stepped: Option<usize> = None;
    if let Some(index) = current {
        if previous && index > 0 {
            stepped = Some(index - 1);
        }
    }
    if chosen.is_some() {
        stepped = chosen;
    }
    if let Some(index) = current {
        if next && index < count && index + 1 < count {
            stepped = Some(index + 1);
        }
    }
    match stepped {
        Some(index) => {
            let same = match current {
                Some(now) => now == index,
                None => false,
            };
            if same || index >= count {
                None
            } else {
                Some(index)
            }
        },
        None => None,
    }
}

/// The words on the button of the menu.
pub open spec fn pull_button(current: Option<(PullView, int, int)>, pending: Option<Seq<char>>) -> Seq<char> {
    match current {
        Some((pull, index, count)) => pull.name + " · Pull "@ + decimal((index + 1) as nat) + " of "@ + decimal(
            count as nat,
        ),
        None => match pending {
            Some(text) => text,
            None => "Choose a pull"@,
        },
    }
}

pub fn pull_button_label(pulls: &Vec<Pull>, current: Option<usize>, pending: &Option<String>) -> (label: String)
    ensures
        label@ == pull_button(
            if current is Some && current->0 < pulls@.len() {
                Some((pulls@[current->0 as int]@, current->0 as int, pulls@.len() as int))
            } else {
                None
            },
            text_of(*pending),
        ),
{
    if let Some(index) = current {
        if index < pulls.len() {
            return pulls[index].name.clone().concat(" · Pull ").concat(&decimal_text(index as u64 + 1)).concat(
                " of ",
            ).concat(&decimal_text(pulls.len() as u64));
        }
    }
    match pending {
        Some(text) => text.clone(),
        None => String::from_str("Choose a pull"),
    }
}

/// How the chosen pull ended, beside the words on the button.
pub fn pull_button_outcome(pulls: &Vec<Pull>, current: Option<usize>) -> (outcome: Option<String>)
    ensures
        text_of(outcome) == if current is Some && current->0 < pulls@.len() {
            let pull = pulls@[current->0 as int];
            Some(outcome_text(pull.kill, pull.last_phase, pull.last_phase_is_intermission))
        } else {
            None
        },
{
    match current {
        Some(index) => if index < pulls.len() {
            let pull = &pulls[index];
            Some(pull_outcome(pull.kill, pull.last_phase, pull.last_phase_is_intermission))
        } else {
            None
        },
        None => None,
    }
}

/// The two ends of a row: place and name, outcome and length.
pub fn pull_row(pull: &Pull, index: usize) -> (row: (String, String))
    requires
        index < u64::MAX,
    ensures
        row.0@ == decimal((index + 1) as nat) + " · "@ + pull@.name,
        row.1@ == outcome_text(pull.kill, pull.last_phase, pull.last_phase_is_intermission) + " · "@ + clock_text(
            crate::raid::to_i64(pull_length(pull@)) as int,
        ),
{
    (
        decimal_text(index as u64 + 1).concat(" · ").concat(&pull.name),
        pull_outcome(pull.kill, pull.last_phase, pull.last_phase_is_intermission).concat(" · ").concat(
            &clock(pull_duration(pull)),
        ),
    )
}

// ---------------------------------------------------------------- the list of views

/// What a view is found and ordered by, in lower case where case does not matter.
pub struct PovRow {
    pub role_order: u8,
    pub name: String,
    pub provider: String,
    pub user_id: String,
    /// The name and the provider, as the search sees them.
    pub haystack: String,
}

/// The order of views: by role, name, provider and member; equal ones keep their places.
pub open spec fn row_before(rows: Seq<PovRow>, a: int, b: int) -> bool {
    let x = rows[a];
    let y = rows[b];
    x.role_order < y.role_order || (x.role_order == y.role_order && (text_less(x.name@, y.name@) || (x.name@ == y.name@
        && (text_less(x.provider@, y.provider@) || (x.provider@ == y.provider@ && (text_less(x.user_id@, y.user_id@) || (
    x.user_id@ == y.user_id@ && a < b)))))))
}

proof fn lemma_row_total(rows: Seq<PovRow>, a: int, b: int)
    requires
        a != b,
    ensures
        row_before(rows, a, b) || row_before(rows, b, a),
        !(row_before(rows, a, b) && row_before(rows, b, a)),
{
    let x = rows[a];
    let y = rows[b];
    lemma_text_order_total(x.name@, y.name@);
    lemma_text_order_total(x.provider@, y.provider@);
    lemma_text_order_total(x.user_id@, y.user_id@);
    lemma_text_order_total(y.name@, x.name@);
    lemma_text_order_total(y.provider@, x.provider@);
    lemma_text_order_total(y.user_id@, x.user_id@);
}

proof fn lemma_row_transitive(rows: Seq<PovRow>, a: int, b: int, c: int)
    requires
        row_before(rows, a, b),
        row_before(rows, b, c),
    ensures
        row_before(rows, a, c),
{
    let x = rows[a];
    let y = rows[b];
    let z = rows[c];
    if text_less(x.name@, y.name@) && text_less(y.name@, z.name@) {
        lemma_text_order_transitive(x.name@, y.name@, z.name@);
    }
    if text_less(x.provider@, y.provider@) && text_less(y.provider@, z.provider@) {
        lemma_text_order_transitive(x.provider@, y.provider@, z.provider@);
    }
    if text_less(x.user_id@, y.user_id@) && text_less(y.user_id@, z.user_id@) {
        lemma_text_order_transitive(x.user_id@, y.user_id@, z.user_id@);
    }
}

fn is_row_before(rows: &Vec<PovRow>, a: usize, b: usize) -> (before: bool)
    requires
        a < rows@.len(),
        b < rows@.len(),
    ensures
        before == row_before(rows@, a as int, b as int),
{
    let x = &rows[a];
    let y = &rows[b];
    proof {
        lemma_text_order_total(x.name@, y.name@);
        lemma_text_order_total(x.provider@, y.provider@);
        lemma_text_order_total(x.user_id@, y.user_id@);
    }
    if x.role_order != y.role_order {
        return x.role_order < y.role_order;
    }
    match rank_texts(&x.name, &y.name) {
        Rank::Before => true,
        Rank::Behind => false,
        Rank::Same => match rank_texts(&x.provider, &y.provider) {
            Rank::Before => true,
            Rank::Behind => false,
            Rank::Same => match rank_texts(&x.user_id, &y.user_id) {
                Rank::Before => true,
                Rank::Behind => false,
                Rank::Same => a < b,
            },
        },
    }
}

/// The places of the matching rows, in order: this fixes the list.
pub open spec fn arranged_rows(places: Seq<usize>, rows: Seq<PovRow>, search: Seq<char>) -> bool {
    &&& forall|i: int, j: int|
        0 <= i < j < places.len() ==> row_before(rows, #[trigger] places[i] as int, #[trigger] places[j] as int)
    &&& forall|place: usize|
        #[trigger] places.contains(place) <==> place < rows.len() && all_words_occur(search, rows[place as int].haystack@)
}

proof fn lemma_insert_place(before: Seq<usize>, after: Seq<usize>, at: int, place: usize, other: usize)
    requires
        0 <= at <= before.len(),
        after == before.insert(at, place),
    ensures
        after.contains(other) <==> (before.contains(other) || other == place),
{
    if before.contains(other) {
        let i = choose|i: int| 0 <= i < before.len() && before[i] == other;
        if i < at {
            assert(after[i] == other);
        } else {
            assert(after[i + 1] == other);
        }
    }
    if other == place {
        assert(after[at] == other);
    }
    if after.contains(other) && other != place {
        let i = choose|i: int| 0 <= i < after.len() && after[i] == other;
        if i < at {
            assert(before[i] == other);
        } else {
            assert(before[i - 1] == other);
        }
    }
}

/// The rows that hold every word of the lower-case search text, in order.
pub fn arrange_rows(rows: &Vec<PovRow>, search: &str) -> (places: Vec<usize>)
    ensures
        arranged_rows(places@, rows@, search@),
{
    let mut places: Vec<usize> = Vec::new();
    let mut n: usize = 0;
    while n < rows.len()
        invariant
            n <= rows@.len(),
            forall|i: int, j: int|
                0 <= i < j < places@.len() ==> row_before(rows@, #[trigger] places@[i] as int, #[trigger] places@[j] as int),
            forall|place: usize|
                #[trigger] places@.contains(place) <==> place < n && all_words_occur(
                    search@,
                    rows@[place as int].haystack@,
                ),
        decreases rows.len() - n,
    {
        let ghost before = places@;
        if has_all_words(search, &rows[n].haystack) {
            let mut at: usize = 0;
            assert forall|k: int| 0 <= k < before.len() implies before[k] < n by {
                assert(before.contains(before[k]));
            }
            while at < places.len() && is_row_before_place(rows, &places, at, n)
                invariant
                    at <= places@.len(),
                    places@ == before,
                    n < rows@.len(),
                    forall|k: int| 0 <= k < before.len() ==> before[k] < n,
                    forall|k: int| 0 <= k < at ==> row_before(rows@, #[trigger] before[k] as int, n as int),
                decreases places.len() - at,
            {
                at += 1;
            }
            places.insert(at, n);
            proof {
                assert(places@ =~= before.insert(at as int, n));
                if at < before.len() {
                    assert(before.contains(before[at as int]));
                    lemma_row_total(rows@, before[at as int] as int, n as int);
                }
                assert forall|i: int, j: int| 0 <= i < j < places@.len() implies row_before(
                    rows@,
                    #[trigger] places@[i] as int,
                    #[trigger] places@[j] as int,
                ) by {
                    let a = if i < at { i } else { i - 1 };
                    let b = if j < at { j } else { j - 1 };
                    if i != at {
                        assert(places@[i] == before[a]);
                    }
                    if j != at {
                        assert(places@[j] == before[b]);
                    }
                    if i == at && b > at {
                        lemma_row_transitive(rows@, n as int, before[at as int] as int, before[b] as int);
                    }
                }
            }
        }
        proof {
            assert forall|place: usize| #[trigger] places@.contains(place) <==> place < n + 1 && all_words_occur(
                search@,
                rows@[place as int].haystack@,
            ) by {
                assert(before.contains(place) <==> place < n && all_words_occur(
                    search@,
                    rows@[place as int].haystack@,
                ));
                if places@ != before {
                    let at = choose|at: int| 0 <= at <= before.len() && places@ == #[trigger] before.insert(at, n);
                    lemma_insert_place(before, places@, at, n, place);
                }
            }
        }
        n += 1;
    }
    places
}

fn is_row_before_place(rows: &Vec<PovRow>, places: &Vec<usize>, at: usize, n: usize) -> (before: bool)
    requires
        at < places@.len(),
        places@[at as int] < rows@.len(),
        n < rows@.len(),
    ensures
        before == row_before(rows@, places@[at as int] as int, n as int),
{
    is_row_before(rows, places[at], n)
}

/// A view as the list sees it.
pub open spec fn is_row(row: PovRow, stream: Stream) -> bool {
    &&& row.role_order == stream.role_order
    &&& row.name@ == lowercase(stream.name@)
    &&& row.provider@ == stream.provider.spec_key()
    &&& row.user_id@ == stream.user_id@
    &&& row.haystack@ == lowercase(stream.name@ + " "@ + stream.provider.spec_label())
}

fn pov_rows(povs: &Vec<Stream>) -> (rows: Vec<PovRow>)
    ensures
        rows@.len() == povs@.len(),
        forall|i: int| 0 <= i < povs@.len() ==> is_row(#[trigger] rows@[i], povs@[i]),
{
    let mut rows: Vec<PovRow> = Vec::new();
    let mut i: usize = 0;
    while i < povs.len()
        invariant
            i <= povs@.len(),
            rows@.len() == i,
            forall|j: int| 0 <= j < i ==> is_row(#[trigger] rows@[j], povs@[j]),
        decreases povs.len() - i,
    {
        let pov = &povs[i];
        let label = pov.name.clone().concat(" ").concat(pov.provider.label());
        rows.push(
            PovRow {
                role_order: pov.role_order,
                name: to_lowercase(&pov.name),
                provider: String::from_str(pov.provider.key()),
                user_id: pov.user_id.clone(),
                haystack: to_lowercase(&label),
            },
        );
        i += 1;
    }
    rows
}

/// Whether these are the rows of the views.
pub open spec fn rows_of(rows: Seq<PovRow>, povs: Seq<Stream>) -> bool {
    &&& rows.len() == povs.len()
    &&& forall|i: int| 0 <= i < povs.len() ==> is_row(#[trigger] rows[i], povs[i])
}

/// Whether these are the places of the views whose name and provider hold every word of the
/// search, in order. In a search of ASCII words, capitals count as small letters.
pub open spec fn matched(places: Seq<usize>, povs: Seq<Stream>, search: Seq<char>) -> bool {
    exists|rows: Seq<PovRow>|
        {
            &&& #[trigger] rows_of(rows, povs)
            &&& arranged_rows(places, rows, lowercase(trimmed(search)))
            &&& ascii_text(trimmed(search)) ==> arranged_rows(places, rows, small_text(trimmed(search)))
        }
}

/// The views whose name and provider hold every word of the search, in order.
pub fn matching_povs(povs: &Vec<Stream>, search: &str) -> (places: Vec<usize>)
    ensures
        matched(places@, povs@, search@),
{
    let wanted = to_lowercase(&trim(search));
    let rows = pov_rows(povs);
    let places = arrange_rows(&rows, &wanted);
    assert(rows_of(rows@, povs@));
    places
}

/// The places that are known to cover the moment, in their order.
pub open spec fn covered_places(places: Seq<usize>, covered: Option<Seq<bool>>) -> Seq<usize>
    decreases places.len(),
{
    if places.len() == 0 {
        Seq::empty()
    } else {
        let rest = covered_places(places.drop_last(), covered);
        let place = places.last();
        if covered is None || (place < covered->0.len() && covered->0[place as int]) { rest.push(place) } else { rest }
    }
}

/// What is known of which views cover the moment.
pub open spec fn flags_of(covered: Option<Vec<bool>>) -> Option<Seq<bool>> {
    match covered {
        Some(flags) => Some(flags@),
        None => None,
    }
}

/// Leaves out the views that do not cover the moment.
pub fn keep_covered(places: &Vec<usize>, covered: &Option<Vec<bool>>) -> (kept: Vec<usize>)
    ensures
        kept@ == covered_places(places@, flags_of(*covered)),
{
    let mut kept: Vec<usize> = Vec::new();
    let mut i: usize = 0;
    while i < places.len()
        invariant
            i <= places@.len(),
            kept@ == covered_places(places@.take(i as int), flags_of(*covered)),
        decreases places.len() - i,
    {
        assert(places@.take(i as int + 1).drop_last() =~= places@.take(i as int));
        let place: usize = places[i];
        let keep = match covered {
            None => true,
            Some(flags) => place < flags.len() && flags[place],
        };
        if keep {
            kept.push(place);
        }
        i += 1;
    }
    assert(places@.take(places@.len() as int) =~= places@);
    kept
}

// ---------------------------------------------------------------- the keyboard in the list of views

#[derive(Clone, Copy, Debug, PartialEq, Eq, Structural)]
pub enum Step {
    Stay,
    Up,
    Down,
    First,
    Last,
}

/// The contents of a list of strings.
pub open spec fn texts(list: Seq<String>) -> Seq<Seq<char>> {
    Seq::new(list.len(), |i: int| list[i]@)
}

/// The name at one place among those that can be chosen.
pub open spec fn choice(keys: Seq<Seq<char>>, available: Seq<usize>, n: int) -> Option<Seq<char>> {
    if 0 <= n < available.len() && available[n] < keys.len() { Some(keys[available[n] as int]) } else { None }
}

/// Where the cursor is among the rows that can be chosen.
pub open spec fn choice_place(keys: Seq<Seq<char>>, available: Seq<usize>, cursor: Option<Seq<char>>) -> Option<int>
    decreases available.len(),
{
    if available.len() == 0 {
        None
    } else {
        match choice_place(keys, available.drop_last(), cursor) {
            Some(n) => Some(n),
            None => if cursor is Some && available.last() < keys.len() && keys[available.last() as int] == cursor->0 {
                Some(available.len() - 1)
            } else {
                None
            },
        }
    }
}

/// The cursor before any key: where it was, or on the first row that can be chosen.
pub open spec fn settled_cursor(
    keys: Seq<Seq<char>>,
    available: Seq<usize>,
    cursor: Option<Seq<char>>,
    reset: bool,
) -> Option<Seq<char>> {
    if reset || cursor is None || !keys.contains(cursor->0) { choice(keys, available, 0) } else { cursor }
}

pub open spec fn stepped_cursor(
    keys: Seq<Seq<char>>,
    available: Seq<usize>,
    cursor: Option<Seq<char>>,
    step: Step,
) -> Option<Seq<char>> {
    let last = last_place(available.len());
    match step {
        Step::Stay => cursor,
        Step::First => choice(keys, available, 0),
        Step::Last => choice(keys, available, last),
        Step::Up => match choice_place(keys, available, cursor) {
            Some(n) => choice(keys, available, if n > 0 { n - 1 } else { 0 }),
            None => choice(keys, available, 0),
        },
        Step::Down => match choice_place(keys, available, cursor) {
            Some(n) => choice(keys, available, if n + 1 < last { n + 1 } else { last }),
            None => choice(keys, available, 0),
        },
    }
}

fn choice_at(keys: &Vec<String>, available: &Vec<usize>, n: usize) -> (key: Option<String>)
    ensures
        text_of(key) == choice(texts(keys@), available@, n as int),
{
    if n < available.len() && available[n] < keys.len() {
        assert(texts(keys@)[available@[n as int] as int] == keys@[available@[n as int] as int]@);
        Some(keys[available[n]].clone())
    } else {
        None
    }
}

fn find_choice(keys: &Vec<String>, available: &Vec<usize>, cursor: &Option<String>) -> (place: Option<usize>)
    ensures
        match place {
            Some(n) => n < available@.len() && choice_place(texts(keys@), available@, text_of(*cursor)) == Some(n as int),
            None => choice_place(texts(keys@), available@, text_of(*cursor)) is None,
        },
{
    let mut place: Option<usize> = None;
    let mut i: usize = 0;
    while i < available.len()
        invariant
            i <= available@.len(),
            match place {
                Some(n) => n < i && choice_place(texts(keys@), available@.take(i as int), text_of(*cursor)) == Some(
                    n as int,
                ),
                None => choice_place(texts(keys@), available@.take(i as int), text_of(*cursor)) is None,
            },
        decreases available.len() - i,
    {
        assert(available@.take(i as int + 1).drop_last() =~= available@.take(i as int));
        if place.is_none() && available[i] < keys.len() {
            assert(texts(keys@)[available@[i as int] as int] == keys@[available@[i as int] as int]@);
            if let Some(wanted) = cursor {
                if same_text(&keys[available[i]], wanted) {
                    place = Some(i);
                }
            }
        }
        i += 1;
    }
    assert(available@.take(available@.len() as int) =~= available@);
    place
}

fn lists_key(keys: &Vec<String>, key: &str) -> (found: bool)
    ensures
        found == texts(keys@).contains(key@),
{
    let mut i: usize = 0;
    while i < keys.len()
        invariant
            i <= keys@.len(),
            forall|j: int| 0 <= j < i ==> (#[trigger] texts(keys@)[j]) != key@,
        decreases keys.len() - i,
    {
        assert(texts(keys@)[i as int] == keys@[i as int]@);
        if same_text(&keys[i], key) {
            return true;
        }
        i += 1;
    }
    false
}

/// Moves the keyboard through the list of views. Rows that cannot be chosen are passed
/// over, and the cursor stays with its view when the list changes.
pub fn move_cursor(
    keys: &Vec<String>,
    available: &Vec<usize>,
    cursor: &Option<String>,
    reset: bool,
    step: Step,
) -> (next: Option<String>)
    ensures
        text_of(next) == stepped_cursor(
            texts(keys@),
            available@,
            settled_cursor(texts(keys@), available@, text_of(*cursor), reset),
            step,
        ),
{
    let listed = match cursor {
        Some(key) => lists_key(keys, key),
        None => false,
    };
    let settled: Option<String> = if reset || !listed {
        choice_at(keys, available, 0)
    } else {
        match cursor {
            Some(key) => Some(key.clone()),
            None => None,
        }
    };
    let last: usize = if available.len() == 0 { 0 } else { available.len() - 1 };
    match step {
        Step::Stay => settled,
        Step::First => choice_at(keys, available, 0),
        Step::Last => choice_at(keys, available, last),
        Step::Up => match find_choice(keys, available, &settled) {
            Some(n) => choice_at(keys, available, if n > 0 { n - 1 } else { 0 }),
            None => choice_at(keys, available, 0),
        },
        Step::Down => match find_choice(keys, available, &settled) {
            Some(n) => choice_at(keys, available, if n < last && n + 1 < last { n + 1 } else { last }),
            None => choice_at(keys, available, 0),
        },
    }
}

/// The rows of a list that can be chosen, in order.
pub open spec fn choosable(povs: Seq<Stream>, places: Seq<usize>, current: Stream) -> Seq<usize>
    decreases places.len(),
{
    if places.len() == 0 {
        Seq::empty()
    } else {
        let rest = choosable(povs, places.drop_last(), current);
        let place = places.last();
        if place < povs.len() && unavailable_text(povs[place as int], current) is None {
            rest.push((places.len() - 1) as usize)
        } else {
            rest
        }
    }
}

/// The rows that can be chosen, and the names of all rows.
pub fn menu_rows(povs: &Vec<Stream>, places: &Vec<usize>, current: &Stream) -> (rows: (Vec<usize>, Vec<String>))
    requires
        forall|i: int| 0 <= i < places@.len() ==> (#[trigger] places@[i]) < povs@.len(),
    ensures
        rows.0@ == choosable(povs@, places@, *current),
        rows.1@.len() == places@.len(),
        forall|i: int|
            0 <= i < places@.len() ==> (#[trigger] rows.1@[i])@ == pov_key_text(povs@[places@[i] as int]),
{
    let mut available: Vec<usize> = Vec::new();
    let mut keys: Vec<String> = Vec::new();
    let mut i: usize = 0;
    while i < places.len()
        invariant
            i <= places@.len(),
            forall|j: int| 0 <= j < places@.len() ==> (#[trigger] places@[j]) < povs@.len(),
            available@ == choosable(povs@, places@.take(i as int), *current),
            keys@.len() == i,
            forall|j: int| 0 <= j < i ==> (#[trigger] keys@[j])@ == pov_key_text(povs@[places@[j] as int]),
        decreases places.len() - i,
    {
        assert(places@.take(i as int + 1).drop_last() =~= places@.take(i as int));
        let pov = &povs[places[i]];
        let reason = pov_unavailable(pov, current);
        if reason.is_none() {
            available.push(i);
        }
        keys.push(pov_key(pov));
        i += 1;
    }
    assert(places@.take(places@.len() as int) =~= places@);
    (available, keys)
}

/// Whether a row is acted on: it is clicked, or the confirm key finds the cursor on it and it
/// can be switched to.
pub open spec fn acted_on(
    povs: Seq<Stream>,
    places: Seq<usize>,
    current: Stream,
    cursor: Option<Seq<char>>,
    clicked: Option<usize>,
    i: int,
) -> bool {
    let pov = povs[places[i] as int];
    clicked == Some(i as usize) || (cursor == Some(pov_key_text(pov)) && unavailable_text(pov, current) is None)
}

/// The view to switch to among the first `n` rows: the last that is acted on, unless it is the
/// one being watched.
pub open spec fn last_choice(
    povs: Seq<Stream>,
    places: Seq<usize>,
    current: Stream,
    cursor: Option<Seq<char>>,
    clicked: Option<usize>,
    n: nat,
) -> Option<usize>
    decreases n,
{
    if n == 0 {
        None
    } else if acted_on(povs, places, current, cursor, clicked, n - 1) && pov_key_text(povs[places[n - 1] as int])
        != pov_key_text(current) {
        Some(places[n - 1])
    } else {
        last_choice(povs, places, current, cursor, clicked, (n - 1) as nat)
    }
}

/// What the rows on show come to.
#[derive(Clone, Copy, Debug, PartialEq, Eq, Structural)]
pub struct Pick {
    /// The view to switch to.
    pub chosen: Option<usize>,
    /// Whether the menu closes: some row was acted on.
    pub closes: bool,
}

/// What the rows on show come to: the last view that is acted on, and whether any row is.
pub open spec fn picked(
    povs: Seq<Stream>,
    places: Seq<usize>,
    current: Stream,
    cursor: Option<Seq<char>>,
    clicked: Option<usize>,
) -> Pick {
    Pick {
        chosen: last_choice(povs, places, current, cursor, clicked, places.len()),
        closes: exists|i: int| 0 <= i < places.len() && #[trigger] acted_on(povs, places, current, cursor, clicked, i),
    }
}

/// Takes the row that was clicked, and the view at the cursor where the confirm key was pressed.
pub fn pick(
    povs: &Vec<Stream>,
    places: &Vec<usize>,
    current: &Stream,
    cursor: &Option<String>,
    clicked: Option<usize>,
) -> (pick: Pick)
    requires
        forall|i: int| 0 <= i < places@.len() ==> (#[trigger] places@[i]) < povs@.len(),
    ensures
        pick == picked(povs@, places@, *current, text_of(*cursor), clicked),
{
    let watched = pov_key(current);
    let mut pick = Pick { chosen: None, closes: false };
    let mut i: usize = 0;
    while i < places.len()
        invariant
            i <= places@.len(),
            watched@ == pov_key_text(*current),
            forall|j: int| 0 <= j < places@.len() ==> (#[trigger] places@[j]) < povs@.len(),
            pick.chosen == last_choice(povs@, places@, *current, text_of(*cursor), clicked, i as nat),
            pick.closes == exists|j: int|
                0 <= j < i && #[trigger] acted_on(povs@, places@, *current, text_of(*cursor), clicked, j),
        decreases places.len() - i,
    {
        let place: usize = places[i];
        let pov = &povs[place];
        let key = pov_key(pov);
        let reason = pov_unavailable(pov, current);
        let pointed = match clicked {
            Some(row) => row == i,
            None => false,
        };
        if pointed || (holds(cursor, &key) && reason.is_none()) {
            assert(acted_on(povs@, places@, *current, text_of(*cursor), clicked, i as int));
            pick.closes = true;
            if !same_text(&key, &watched) {
                pick.chosen = Some(place);
            }
        } else {
            assert(!acted_on(povs@, places@, *current, text_of(*cursor), clicked, i as int));
        }
        i += 1;
    }
    pick
}

/// The view that the confirm key switches to: the last one with the cursor's name, unless it
/// is watched.
pub fn confirm(povs: &Vec<Stream>, places: &Vec<usize>, current: &Stream, cursor: &Option<String>) -> (chosen: Option<
    usize,
>)
    requires
        forall|i: int| 0 <= i < places@.len() ==> (#[trigger] places@[i]) < povs@.len(),
    ensures
        chosen == last_choice(povs@, places@, *current, text_of(*cursor), None, places@.len()),
{
    pick(povs, places, current, cursor, None).chosen
}

/// What an empty list says.
pub fn empty_list_text(search: &str, filtered_by_moment: bool) -> (text: &'static str)
    ensures
        text@ == if trimmed(search@).len() == 0 && filtered_by_moment {
            "No other VODs cover this moment."@
        } else {
            "No matching players."@
        },
{
    if trim(search).as_str().is_empty() && filtered_by_moment {
        "No other VODs cover this moment."
    } else {
        "No matching players."
    }
}

// ---------------------------------------------------------------- laws

/// A cursor that a key moved is always on a row that can be chosen, where there is one.
pub proof fn cursor_skips_what_cannot_be_chosen(
    keys: Seq<Seq<char>>,
    available: Seq<usize>,
    cursor: Option<Seq<char>>,
    step: Step,
)
    requires
        step != Step::Stay,
        available.len() > 0,
        forall|n: int| 0 <= n < available.len() ==> (#[trigger] available[n]) < keys.len(),
    ensures
        exists|n: int|
            0 <= n < available.len() && stepped_cursor(keys, available, cursor, step) == Some(
                keys[#[trigger] available[n] as int],
            ),
{
    lemma_choice_place(keys, available, cursor);
    let last = last_place(available.len());
    let n = match step {
        Step::Stay => 0,
        Step::First => 0,
        Step::Last => last,
        Step::Up => match choice_place(keys, available, cursor) {
            Some(n) => if n > 0 { n - 1 } else { 0 },
            None => 0,
        },
        Step::Down => match choice_place(keys, available, cursor) {
            Some(n) => if n + 1 < last { n + 1 } else { last },
            None => 0,
        },
    };
    assert(0 <= n < available.len());
    assert(stepped_cursor(keys, available, cursor, step) == Some(keys[available[n] as int]));
}

proof fn lemma_choice_place(keys: Seq<Seq<char>>, available: Seq<usize>, cursor: Option<Seq<char>>)
    ensures
        choice_place(keys, available, cursor) is Some ==> 0 <= choice_place(keys, available, cursor)->0
            < available.len(),
    decreases available.len(),
{
    if available.len() > 0 {
        lemma_choice_place(keys, available.drop_last(), cursor);
    }
}

/// The places that also stand among others, in their order.
pub open spec fn also_in(places: Seq<usize>, others: Seq<usize>) -> Seq<usize>
    decreases places.len(),
{
    if places.len() == 0 {
        Seq::empty()
    } else {
        let rest = also_in(places.drop_last(), others);
        if others.contains(places.last()) { rest.push(places.last()) } else { rest }
    }
}

proof fn lemma_also_in(places: Seq<usize>, others: Seq<usize>, rows: Seq<PovRow>)
    requires
        forall|i: int, j: int|
            0 <= i < j < places.len() ==> row_before(rows, #[trigger] places[i] as int, #[trigger] places[j] as int),
    ensures
        forall|place: usize|
            #[trigger] also_in(places, others).contains(place) <==> places.contains(place) && others.contains(place),
        forall|i: int, j: int|
            0 <= i < j < also_in(places, others).len() ==> row_before(
                rows,
                #[trigger] also_in(places, others)[i] as int,
                #[trigger] also_in(places, others)[j] as int,
            ),
    decreases places.len(),
{
    let kept = also_in(places, others);
    if places.len() > 0 {
        let front = places.drop_last();
        let last = places.last();
        let rest = also_in(front, others);
        assert forall|i: int, j: int| 0 <= i < j < front.len() implies row_before(
            rows,
            #[trigger] front[i] as int,
            #[trigger] front[j] as int,
        ) by {
            assert(front[i] == places[i] && front[j] == places[j]);
        }
        lemma_also_in(front, others, rows);
        assert forall|place: usize| places.contains(place) <==> (front.contains(place) || place == last) by {
            if places.contains(place) {
                let i = choose|i: int| 0 <= i < places.len() && places[i] == place;
                if i < front.len() {
                    assert(front[i] == place);
                }
            }
            if front.contains(place) {
                let i = choose|i: int| 0 <= i < front.len() && front[i] == place;
                assert(places[i] == place);
            }
            assert(places[places.len() - 1] == last);
        }
        if others.contains(last) {
            assert forall|place: usize| #[trigger] kept.contains(place) <==> (rest.contains(place) || place == last) by {
                if rest.contains(place) {
                    let i = choose|i: int| 0 <= i < rest.len() && rest[i] == place;
                    assert(kept[i] == place);
                }
                assert(kept[rest.len() as int] == last);
                if kept.contains(place) {
                    let i = choose|i: int| 0 <= i < kept.len() && kept[i] == place;
                    if i < rest.len() {
                        assert(rest[i] == place);
                    }
                }
            }
            assert forall|i: int, j: int| 0 <= i < j < kept.len() implies row_before(
                rows,
                #[trigger] kept[i] as int,
                #[trigger] kept[j] as int,
            ) by {
                assert(kept[i] == rest[i]);
                if j < rest.len() {
                    assert(kept[j] == rest[j]);
                } else {
                    assert(rest.contains(rest[i]));
                    assert(front.contains(rest[i]));
                    let k = choose|k: int| 0 <= k < front.len() && front[k] == rest[i];
                    assert(places[k] == rest[i] && places[places.len() - 1] == last);
                }
            }
        }
    }
}

/// Two lists in order with the same rows are the same list.
proof fn lemma_ordered_unique(a: Seq<usize>, b: Seq<usize>, rows: Seq<PovRow>)
    requires
        forall|i: int, j: int|
            0 <= i < j < a.len() ==> row_before(rows, #[trigger] a[i] as int, #[trigger] a[j] as int),
        forall|i: int, j: int|
            0 <= i < j < b.len() ==> row_before(rows, #[trigger] b[i] as int, #[trigger] b[j] as int),
        forall|place: usize| #[trigger] a.contains(place) <==> b.contains(place),
    ensures
        a == b,
    decreases a.len(),
{
    if a.len() == 0 {
        if b.len() > 0 {
            assert(b.contains(b[0]));
            assert(a.contains(b[0]));
        }
        assert(a =~= b);
    } else {
        assert(a.contains(a.last()));
        assert(b.contains(a.last()));
        let i = choose|i: int| 0 <= i < b.len() && b[i] == a.last();
        assert(b.contains(b.last()));
        assert(a.contains(b.last()));
        let j = choose|j: int| 0 <= j < a.len() && a[j] == b.last();
        if i < b.len() - 1 {
            assert(row_before(rows, b[i] as int, b[b.len() - 1] as int));
            if j < a.len() - 1 {
                assert(row_before(rows, a[j] as int, a[a.len() - 1] as int));
            }
            lemma_row_irreflexive(rows, a.last() as int, b.last() as int);
        }
        assert(a.last() == b.last());
        let (front, rest) = (a.drop_last(), b.drop_last());
        assert forall|place: usize| #[trigger] front.contains(place) <==> rest.contains(place) by {
            lemma_front_contains(a, rows, place);
            lemma_front_contains(b, rows, place);
        }
        assert forall|x: int, y: int| 0 <= x < y < front.len() implies row_before(
            rows,
            #[trigger] front[x] as int,
            #[trigger] front[y] as int,
        ) by {
            assert(front[x] == a[x] && front[y] == a[y]);
        }
        assert forall|x: int, y: int| 0 <= x < y < rest.len() implies row_before(
            rows,
            #[trigger] rest[x] as int,
            #[trigger] rest[y] as int,
        ) by {
            assert(rest[x] == b[x] && rest[y] == b[y]);
        }
        lemma_ordered_unique(front, rest, rows);
        assert(a =~= front.push(a.last()));
        assert(b =~= rest.push(b.last()));
    }
}

proof fn lemma_row_irreflexive(rows: Seq<PovRow>, a: int, b: int)
    ensures
        !(row_before(rows, a, b) && row_before(rows, b, a)),
        !row_before(rows, a, a),
{
    let x = rows[a];
    let y = rows[b];
    lemma_text_order_total(x.name@, y.name@);
    lemma_text_order_total(x.provider@, y.provider@);
    lemma_text_order_total(x.user_id@, y.user_id@);
    lemma_text_order_total(x.name@, x.name@);
    lemma_text_order_total(x.provider@, x.provider@);
    lemma_text_order_total(x.user_id@, x.user_id@);
}

proof fn lemma_front_contains(places: Seq<usize>, rows: Seq<PovRow>, place: usize)
    requires
        places.len() > 0,
        forall|i: int, j: int|
            0 <= i < j < places.len() ==> row_before(rows, #[trigger] places[i] as int, #[trigger] places[j] as int),
    ensures
        places.drop_last().contains(place) <==> places.contains(place) && place != places.last(),
{
    let front = places.drop_last();
    if front.contains(place) {
        let i = choose|i: int| 0 <= i < front.len() && front[i] == place;
        assert(places[i] == place);
        assert(row_before(rows, places[i] as int, places[places.len() - 1] as int));
        lemma_row_irreflexive(rows, place as int, place as int);
    }
    if places.contains(place) && place != places.last() {
        let i = choose|i: int| 0 <= i < places.len() && places[i] == place;
        assert(front[i] == place);
    }
}

/// What a match is, on the rows of the views, for an ASCII search: the order, and the views
/// that hold its words.
proof fn lemma_matched(places: Seq<usize>, povs: Seq<Stream>, search: Seq<char>, rows: Seq<PovRow>)
    requires
        matched(places, povs, search),
        ascii_text(trimmed(search)),
        rows_of(rows, povs),
    ensures
        arranged_rows(places, rows, small_text(search)),
{
    let own = choose|own: Seq<PovRow>|
        {
            &&& #[trigger] rows_of(own, povs)
            &&& arranged_rows(places, own, small_text(trimmed(search)))
        };
    assert forall|i: int| 0 <= i < povs.len() implies #[trigger] is_row(own[i], povs[i]) && is_row(rows[i], povs[i]) by {}
    assert forall|place: usize| #[trigger] places.contains(place) <==> place < rows.len() && all_words_occur(
        small_text(search),
        rows[place as int].haystack@,
    ) by {
        if place < rows.len() {
            assert(is_row(own[place as int], povs[place as int]) && is_row(rows[place as int], povs[place as int]));
            trimming_keeps_the_words(search, rows[place as int].haystack@);
        }
    }
    assert forall|i: int, j: int| 0 <= i < j < places.len() implies row_before(
        rows,
        #[trigger] places[i] as int,
        #[trigger] places[j] as int,
    ) by {
        assert(places.contains(places[i]) && places.contains(places[j]));
        let (x, y) = (places[i] as int, places[j] as int);
        assert(is_row(own[x], povs[x]) && is_row(rows[x], povs[x]));
        assert(is_row(own[y], povs[y]) && is_row(rows[y], povs[y]));
        assert(row_before(own, x, y));
    }
}

/// A blank search, of whatever white space, lists every view.
pub proof fn blank_searches_list_every_view(povs: Seq<Stream>, search: Seq<char>, places: Seq<usize>, place: usize)
    requires
        all_spaces(search),
        matched(places, povs, search),
        place < povs.len(),
    ensures
        places.contains(place),
{
    lemma_spaces_trimmed(search);
    let rows = choose|rows: Seq<PovRow>|
        {
            &&& #[trigger] rows_of(rows, povs)
            &&& arranged_rows(places, rows, small_text(trimmed(search)))
        };
    assert forall|from: int, to: int| !#[trigger] word_at(small_text(trimmed(search)), from, to) by {}
    assert(all_words_occur(small_text(trimmed(search)), rows[place as int].haystack@));
}

/// Two ASCII searches, put together with white space between and around them and with any of
/// their letters as capitals, keep exactly the views that both keep, in the same order: a
/// further word never adds a view.
pub proof fn further_words_only_narrow(
    povs: Seq<Stream>,
    a: Seq<char>,
    b: Seq<char>,
    front: Seq<char>,
    gap: Seq<char>,
    back: Seq<char>,
    search: Seq<char>,
    of_a: Seq<usize>,
    of_b: Seq<usize>,
    of_both: Seq<usize>,
)
    requires
        ascii_text(trimmed(a)) && ascii_text(trimmed(b)) && ascii_text(trimmed(search)),
        all_spaces(front) && all_spaces(gap) && all_spaces(back) && gap.len() > 0,
        small_text(search) == small_text(front + a + gap + b + back),
        matched(of_a, povs, a),
        matched(of_b, povs, b),
        matched(of_both, povs, search),
    ensures
        of_both == also_in(of_a, of_b),
{
    let rows = choose|rows: Seq<PovRow>| #[trigger] rows_of(rows, povs);
    lemma_matched(of_a, povs, a, rows);
    lemma_matched(of_b, povs, b, rows);
    lemma_matched(of_both, povs, search, rows);
    assert forall|text: Seq<char>| #[trigger] all_words_occur(small_text(search), text) == (all_words_occur(
        small_text(a),
        text,
    ) && all_words_occur(small_text(b), text)) by {
        lemma_joined_words(a, b, front, gap, back, text);
    }
    lemma_also_in(of_a, of_b, rows);
    assert forall|place: usize| #[trigger] of_both.contains(place) <==> also_in(of_a, of_b).contains(place) by {
        if place < rows.len() {
            let text = rows[place as int].haystack@;
            assert(all_words_occur(small_text(search), text) == (all_words_occur(small_text(a), text)
                && all_words_occur(small_text(b), text)));
        }
        assert(of_a.contains(place) <==> place < rows.len() && all_words_occur(
            small_text(a),
            rows[place as int].haystack@,
        ));
        assert(of_b.contains(place) <==> place < rows.len() && all_words_occur(
            small_text(b),
            rows[place as int].haystack@,
        ));
    }
    lemma_ordered_unique(of_both, also_in(of_a, of_b), rows);
}

proof fn lemma_joined_words(
    a: Seq<char>,
    b: Seq<char>,
    front: Seq<char>,
    gap: Seq<char>,
    back: Seq<char>,
    text: Seq<char>,
)
    requires
        all_spaces(front) && all_spaces(gap) && all_spaces(back) && gap.len() > 0,
    ensures
        all_words_occur(small_text(front + a + gap + b + back), text) == (all_words_occur(small_text(a), text)
            && all_words_occur(small_text(b), text)),
{
    let none = Seq::<char>::empty();
    let (x, y) = (small_text(a), small_text(b));
    assert forall|from: int, to: int| !#[trigger] word_at(none, from, to) by {}
    assert(all_words_occur(none, text));
    let inner = x + gap + y;
    words_of_both(x, gap, y, text);
    let begun = front + inner;
    if front.len() > 0 {
        words_of_both(none, front, inner, text);
        assert(none + front + inner =~= begun);
    } else {
        assert(begun =~= inner);
    }
    let whole = begun + back;
    if back.len() > 0 {
        words_of_both(begun, back, none, text);
        assert(begun + back + none =~= whole);
    } else {
        assert(whole =~= begun);
    }
    assert(small_text(front + a + gap + b + back) =~= whole);
}

/// The same two searches in the other order, with other white space or other capitals, keep
/// the same list.
pub proof fn word_order_does_not_matter(
    povs: Seq<Stream>,
    a: Seq<char>,
    b: Seq<char>,
    spaces: (Seq<char>, Seq<char>, Seq<char>),
    other_spaces: (Seq<char>, Seq<char>, Seq<char>),
    search: Seq<char>,
    turned: Seq<char>,
    swapped: bool,
    of_search: Seq<usize>,
    of_turned: Seq<usize>,
)
    requires
        ascii_text(trimmed(search)) && ascii_text(trimmed(turned)),
        all_spaces(spaces.0) && all_spaces(spaces.1) && all_spaces(spaces.2) && spaces.1.len() > 0,
        all_spaces(other_spaces.0) && all_spaces(other_spaces.1) && all_spaces(other_spaces.2)
            && other_spaces.1.len() > 0,
        small_text(search) == small_text(spaces.0 + a + spaces.1 + b + spaces.2),
        small_text(turned) == if swapped {
            small_text(other_spaces.0 + b + other_spaces.1 + a + other_spaces.2)
        } else {
            small_text(other_spaces.0 + a + other_spaces.1 + b + other_spaces.2)
        },
        matched(of_search, povs, search),
        matched(of_turned, povs, turned),
    ensures
        of_search == of_turned,
{
    let rows = choose|rows: Seq<PovRow>| #[trigger] rows_of(rows, povs);
    lemma_matched(of_search, povs, search, rows);
    lemma_matched(of_turned, povs, turned, rows);
    assert forall|place: usize| #[trigger] of_search.contains(place) <==> of_turned.contains(place) by {
        if place < rows.len() {
            let text = rows[place as int].haystack@;
            lemma_joined_words(a, b, spaces.0, spaces.1, spaces.2, text);
            if swapped {
                lemma_joined_words(b, a, other_spaces.0, other_spaces.1, other_spaces.2, text);
            } else {
                lemma_joined_words(a, b, other_spaces.0, other_spaces.1, other_spaces.2, text);
            }
        }
    }
    lemma_ordered_unique(of_search, of_turned, rows);
}

/// A menu that opens starts on the chosen pull, or on the first, and takes no key; an open one
/// keeps its cursor while that is in the list.
pub proof fn menus_start_on_the_chosen_pull(
    current: Option<usize>,
    cursor: Option<usize>,
    count: nat,
    keys: PullKeys,
    other: PullKeys,
)
    requires
        count <= usize::MAX,
    ensures
        ({
            let opened = menu_of(false, current, cursor, count, keys);
            &&& current is Some && current->0 < count ==> opened.cursor == current
            &&& (current is None || current->0 >= count) && count > 0 ==> opened.cursor == Some(0usize)
            &&& !opened.moved && opened.chosen is None
            &&& opened == menu_of(false, current, cursor, count, other)
        }),
        count == 0 ==> menu_of(true, current, cursor, count, keys) == (PullMenu { cursor: None, moved: false, chosen: None }),
        count > 0 && cursor is Some && cursor->0 < count && !keys.down && !keys.up && !keys.home && !keys.end ==> menu_of(
            true,
            current,
            cursor,
            count,
            keys,
        ).cursor == cursor && !menu_of(true, current, cursor, count, keys).moved,
{
}

/// An arrow moves the cursor by one row and stops at the ends; the two end keys go to the first and
/// the last row; the confirm key chooses the row that the cursor is then on, and no other key does.
pub proof fn keys_move_by_one_row(current: Option<usize>, cursor: usize, count: nat, keys: PullKeys)
    requires
        cursor < count <= usize::MAX,
    ensures
        ({
            let menu = menu_of(true, current, Some(cursor), count, keys);
            let alone = !keys.home && !keys.end;
            &&& menu.cursor is Some && menu.cursor->0 < count
            &&& menu.moved == (keys.down || keys.up || keys.home || keys.end)
            &&& keys.down && !keys.up && alone && cursor + 1 < count ==> menu.cursor->0 == cursor + 1
            &&& keys.down && !keys.up && alone && cursor + 1 == count ==> menu.cursor->0 == cursor
            &&& keys.up && !keys.down && alone && cursor > 0 ==> menu.cursor->0 == cursor - 1
            &&& keys.up && !keys.down && alone && cursor == 0 ==> menu.cursor->0 == 0
            &&& keys.home && !keys.end ==> menu.cursor->0 == 0
            &&& keys.end ==> menu.cursor->0 == count - 1
            &&& keys.enter ==> menu.chosen == menu.cursor
            &&& !keys.enter ==> menu.chosen is None
        }),
{
}

/// A step leads to the neighbour, where there is one; a choice leads where it was made. The step
/// forward counts before a choice, and a choice before the step back; all lead inside the list
/// and none to the present pull.
pub proof fn steps_lead_to_the_neighbour(current: usize, count: nat, previous: bool, chosen: Option<usize>)
    requires
        current < count <= usize::MAX,
    ensures
        current + 1 < count ==> step_place(Some(current), count, previous, true, chosen) == Some((current + 1) as usize),
        current > 0 ==> step_place(Some(current), count, true, false, None) == Some((current - 1) as usize),
        current == 0 ==> step_place(Some(current), count, true, false, None) is None,
        current + 1 == count ==> step_place(Some(current), count, false, true, None) is None,
        chosen is Some && chosen->0 < count && chosen->0 != current ==> step_place(
            Some(current),
            count,
            previous,
            false,
            chosen,
        ) == chosen,
        chosen is Some && chosen->0 < count ==> step_place(None, count, previous, false, chosen) == chosen,
        chosen is Some && chosen->0 < count && chosen->0 != current && current + 1 == count ==> step_place(
            Some(current),
            count,
            previous,
            true,
            chosen,
        ) == chosen,
        current + 1 == count && current > 0 ==> step_place(Some(current), count, true, true, None) == Some(
            (current - 1) as usize,
        ),
        step_place(Some(current), count, false, false, None) is None,
        step_place(None, count, previous, true, None) is None,
        chosen is Some && (chosen->0 >= count || chosen->0 == current) ==> step_place(
            Some(current),
            count,
            previous,
            false,
            chosen,
        ) is None,
{
}

/// Views are listed by role, and within a role by name, then by provider and member; no view is
/// listed twice.
pub proof fn views_are_listed_by_role_and_name(places: Seq<usize>, povs: Seq<Stream>, search: Seq<char>, i: int, j: int)
    requires
        matched(places, povs, search),
        0 <= i < j < places.len(),
    ensures
        places[i] < povs.len() && places[j] < povs.len() && places[i] != places[j],
        povs[places[i] as int].role_order <= povs[places[j] as int].role_order,
        povs[places[i] as int].role_order == povs[places[j] as int].role_order ==> !text_less(
            lowercase(povs[places[j] as int].name@),
            lowercase(povs[places[i] as int].name@),
        ),
        povs[places[i] as int].role_order == povs[places[j] as int].role_order && povs[places[i] as int].name@
            == povs[places[j] as int].name@ && povs[places[i] as int].provider == povs[places[j] as int].provider
            && povs[places[i] as int].user_id@ == povs[places[j] as int].user_id@ ==> places[i] < places[j],
        povs[places[i] as int].role_order == povs[places[j] as int].role_order && povs[places[i] as int].name@
            == povs[places[j] as int].name@ && povs[places[i] as int].provider == povs[places[j] as int].provider
            ==> !text_less(povs[places[j] as int].user_id@, povs[places[i] as int].user_id@),
{
    let rows = choose|rows: Seq<PovRow>|
        {
            &&& #[trigger] rows_of(rows, povs)
            &&& arranged_rows(places, rows, lowercase(trimmed(search)))
        };
    assert(places.contains(places[i]) && places.contains(places[j]));
    let (x, y) = (places[i] as int, places[j] as int);
    assert(is_row(rows[x], povs[x]) && is_row(rows[y], povs[y]));
    assert(row_before(rows, x, y));
    lemma_row_irreflexive(rows, x, y);
    lemma_text_order_total(rows[x].name@, rows[y].name@);
    lemma_text_order_total(rows[x].provider@, rows[y].provider@);
    lemma_text_order_total(rows[x].user_id@, rows[y].user_id@);
}

/// Of the listed views those stay that cover the moment, in their order; all stay where nothing is
/// known of it.
pub proof fn covering_views_stay(places: Seq<usize>, flags: Seq<bool>, place: usize)
    ensures
        covered_places(places, None) == places,
        covered_places(places.push(place), Some(flags)) == covered_places(places, Some(flags)) + (if place < flags.len()
            && flags[place as int] {
            seq![place]
        } else {
            Seq::empty()
        }),
        covered_places(Seq::empty(), Some(flags)) == Seq::<usize>::empty(),
    decreases places.len(),
{
    assert(places.push(place).drop_last() =~= places);
    assert(covered_places(places.push(place), Some(flags)) =~= covered_places(places, Some(flags)) + (if place
        < flags.len() && flags[place as int] {
        seq![place]
    } else {
        Seq::empty()
    }));
    if places.len() > 0 {
        covering_views_stay(places.drop_last(), flags, place);
        assert(covered_places(places, None) =~= places);
    } else {
        assert(covered_places(places, None) =~= places);
    }
}

/// The cursor is found on the first row with its name.
pub proof fn cursors_are_found_by_name(keys: Seq<Seq<char>>, available: Seq<usize>, cursor: Option<Seq<char>>)
    requires
        forall|n: int| 0 <= n < available.len() ==> (#[trigger] available[n]) < keys.len(),
    ensures
        match choice_place(keys, available, cursor) {
            Some(n) => {
                &&& 0 <= n < available.len() && cursor == Some(keys[available[n] as int])
                &&& forall|m: int| 0 <= m < n ==> cursor != Some(keys[#[trigger] available[m] as int])
            },
            None => forall|m: int| 0 <= m < available.len() ==> cursor != Some(keys[#[trigger] available[m] as int]),
        },
    decreases available.len(),
{
    if available.len() > 0 {
        let front = available.drop_last();
        assert forall|n: int| 0 <= n < front.len() implies (#[trigger] front[n]) < keys.len() by {
            assert(front[n] == available[n]);
        }
        cursors_are_found_by_name(keys, front, cursor);
        assert(available.last() == available[available.len() - 1]);
        assert forall|n: int| 0 <= n < front.len() implies front[n] == #[trigger] available[n] by {}
    }
}

/// From the row with the cursor's name, an arrow goes to the next or the one before, among the rows
/// that can be chosen, and stops at the ends; without such a row every key goes to the first, or
/// to the last where that is asked. Without a key the cursor stays with its view.
pub proof fn cursors_move_among_the_choices(
    keys: Seq<Seq<char>>,
    available: Seq<usize>,
    cursor: Option<Seq<char>>,
    n: int,
)
    requires
        0 < available.len(),
        forall|m: int| 0 <= m < available.len() ==> (#[trigger] available[m]) < keys.len(),
        choice_place(keys, available, cursor) == Some(n),
    ensures
        n + 1 < available.len() ==> stepped_cursor(keys, available, cursor, Step::Down) == Some(
            keys[available[n + 1] as int],
        ),
        n + 1 == available.len() ==> stepped_cursor(keys, available, cursor, Step::Down) == Some(keys[available[n] as int]),
        n > 0 ==> stepped_cursor(keys, available, cursor, Step::Up) == Some(keys[available[n - 1] as int]),
        n == 0 ==> stepped_cursor(keys, available, cursor, Step::Up) == Some(keys[available[0] as int]),
        stepped_cursor(keys, available, cursor, Step::First) == Some(keys[available[0] as int]),
        stepped_cursor(keys, available, cursor, Step::Last) == Some(keys[available.last() as int]),
        stepped_cursor(keys, available, cursor, Step::Stay) == cursor,
{
    cursors_are_found_by_name(keys, available, cursor);
}

/// A cursor whose view left the list, or that is set back, starts on the first row that can be
/// chosen; any other stays.
pub proof fn cursors_stay_with_their_view(keys: Seq<Seq<char>>, available: Seq<usize>, cursor: Seq<char>)
    ensures
        keys.contains(cursor) ==> settled_cursor(keys, available, Some(cursor), false) == Some(cursor),
        available.len() > 0 && available[0] < keys.len() ==> {
            let first = Some(keys[available[0] as int]);
            &&& settled_cursor(keys, available, Some(cursor), true) == first
            &&& settled_cursor(keys, available, None, false) == first
            &&& !keys.contains(cursor) ==> settled_cursor(keys, available, Some(cursor), false) == first
            &&& stepped_cursor(keys, available, None, Step::Down) == first
            &&& stepped_cursor(keys, available, None, Step::Up) == first
        },
        available.len() == 0 ==> settled_cursor(keys, available, Some(cursor), true) is None,
{
    lemma_choice_place(keys, available, None);
    lemma_no_cursor(keys, available);
}

proof fn lemma_no_cursor(keys: Seq<Seq<char>>, available: Seq<usize>)
    ensures
        choice_place(keys, available, None) is None,
    decreases available.len(),
{
    if available.len() > 0 {
        lemma_no_cursor(keys, available.drop_last());
    }
}

/// A row can be chosen exactly where nothing speaks against its view; the rows are in order.
pub proof fn rows_without_a_reason_can_be_chosen(povs: Seq<Stream>, places: Seq<usize>, current: Stream, row: int)
    requires
        0 <= row < places.len() <= usize::MAX,
        forall|i: int| 0 <= i < places.len() ==> (#[trigger] places[i]) < povs.len(),
    ensures
        choosable(povs, places, current).contains(row as usize) <==> unavailable_text(povs[places[row] as int], current)
            is None,
        forall|a: int, b: int|
            0 <= a < b < choosable(povs, places, current).len() ==> #[trigger] choosable(povs, places, current)[a]
                < #[trigger] choosable(povs, places, current)[b],
{
    lemma_choosable(povs, places, current);
}

proof fn lemma_choosable(povs: Seq<Stream>, places: Seq<usize>, current: Stream)
    requires
        places.len() <= usize::MAX,
        forall|i: int| 0 <= i < places.len() ==> (#[trigger] places[i]) < povs.len(),
    ensures
        forall|row: int|
            0 <= row < places.len() ==> (choosable(povs, places, current).contains(row as usize) <==> unavailable_text(
                povs[#[trigger] places[row] as int],
                current,
            ) is None),
        forall|a: int| 0 <= a < choosable(povs, places, current).len() ==> #[trigger] choosable(povs, places, current)[a]
            < places.len(),
        forall|a: int, b: int|
            0 <= a < b < choosable(povs, places, current).len() ==> #[trigger] choosable(povs, places, current)[a]
                < #[trigger] choosable(povs, places, current)[b],
    decreases places.len(),
{
    if places.len() > 0 {
        let front = places.drop_last();
        assert forall|i: int| 0 <= i < front.len() implies (#[trigger] front[i]) < povs.len() by {
            assert(front[i] == places[i]);
        }
        lemma_choosable(povs, front, current);
        let rest = choosable(povs, front, current);
        let all = choosable(povs, places, current);
        let last = places.len() - 1;
        assert(places.last() == places[last]);
        assert forall|row: int| 0 <= row < places.len() implies (all.contains(row as usize) <==> unavailable_text(
            povs[#[trigger] places[row] as int],
            current,
        ) is None) by {
            if row < last {
                assert(front[row] == places[row]);
                if rest.contains(row as usize) {
                    let a = choose|a: int| 0 <= a < rest.len() && rest[a] == row as usize;
                    assert(all[a] == row as usize);
                }
                if all.contains(row as usize) {
                    let a = choose|a: int| 0 <= a < all.len() && all[a] == row as usize;
                    assert(a < rest.len());
                    assert(rest[a] == row as usize);
                }
            } else {
                if unavailable_text(povs[places[row] as int], current) is None {
                    assert(all[rest.len() as int] == row as usize);
                } else if all.contains(row as usize) {
                    let a = choose|a: int| 0 <= a < all.len() && all[a] == row as usize;
                    assert(rest[a] < front.len());
                }
            }
        }
    }
}

/// The watched view is never switched to; whatever is switched to was clicked, or had the cursor's
/// name and could be chosen. The menu closes exactly where a row was acted on.
pub proof fn only_other_views_are_switched_to(
    povs: Seq<Stream>,
    places: Seq<usize>,
    current: Stream,
    cursor: Option<Seq<char>>,
    clicked: Option<usize>,
)
    requires
        places.len() <= usize::MAX,
    ensures
        ({
            let result = picked(povs, places, current, cursor, clicked);
            &&& result.chosen is Some ==> {
                &&& result.closes
                &&& pov_key_text(povs[result.chosen->0 as int]) != pov_key_text(current)
                &&& exists|i: int|
                    0 <= i < places.len() && #[trigger] places[i] == result.chosen->0 && (clicked == Some(i as usize) || (cursor
                        == Some(pov_key_text(povs[places[i] as int])) && unavailable_text(povs[places[i] as int], current)
                        is None))
            }
            &&& cursor is None && clicked is None ==> result == (Pick { chosen: None, closes: false })
            &&& clicked is Some && clicked->0 < places.len() ==> result.closes
            &&& cursor is None && clicked is Some && clicked->0 < places.len() && pov_key_text(
                povs[places[clicked->0 as int] as int],
            ) != pov_key_text(current) ==> result.chosen == Some(places[clicked->0 as int])
        }),
{
    lemma_last_choice(povs, places, current, cursor, clicked, places.len());
    if clicked is Some && clicked->0 < places.len() {
        assert(acted_on(povs, places, current, cursor, clicked, clicked->0 as int));
    }
    if picked(povs, places, current, cursor, clicked).chosen is Some {
        let i = choose|i: int|
            0 <= i < places.len() && #[trigger] places[i] == last_choice(
                povs,
                places,
                current,
                cursor,
                clicked,
                places.len(),
            )->0 && acted_on(povs, places, current, cursor, clicked, i);
        assert(acted_on(povs, places, current, cursor, clicked, i));
    }
}

proof fn lemma_last_choice(
    povs: Seq<Stream>,
    places: Seq<usize>,
    current: Stream,
    cursor: Option<Seq<char>>,
    clicked: Option<usize>,
    n: nat,
)
    requires
        n <= places.len() <= usize::MAX,
    ensures
        match last_choice(povs, places, current, cursor, clicked, n) {
            Some(place) => {
                &&& pov_key_text(povs[place as int]) != pov_key_text(current)
                &&& exists|i: int|
                    0 <= i < n && #[trigger] places[i] == place && acted_on(povs, places, current, cursor, clicked, i)
            },
            None => true,
        },
        cursor is None && clicked is None ==> last_choice(povs, places, current, cursor, clicked, n) is None,
        cursor is None && clicked is Some && clicked->0 < n && pov_key_text(povs[places[clicked->0 as int] as int])
            != pov_key_text(current) ==> last_choice(povs, places, current, cursor, clicked, n) == Some(
            places[clicked->0 as int],
        ),
    decreases n,
{
    if n > 0 {
        lemma_last_choice(povs, places, current, cursor, clicked, (n - 1) as nat);
        assert(places[n - 1] == places[n - 1]);
    }
}

/// The confirm key on a view that can be switched to switches to it, where no row was clicked and no
/// other row has its name.
pub proof fn confirmed_views_are_switched_to(povs: Seq<Stream>, places: Seq<usize>, current: Stream, row: int)
    requires
        0 <= row < places.len() <= usize::MAX,
        unavailable_text(povs[places[row] as int], current) is None,
        pov_key_text(povs[places[row] as int]) != pov_key_text(current),
        forall|i: int|
            0 <= i < places.len() && i != row ==> pov_key_text(povs[#[trigger] places[i] as int]) != pov_key_text(
                povs[places[row] as int],
            ),
    ensures
        picked(povs, places, current, Some(pov_key_text(povs[places[row] as int])), None) == (Pick {
            chosen: Some(places[row]),
            closes: true,
        }),
{
    let cursor = Some(pov_key_text(povs[places[row] as int]));
    assert(acted_on(povs, places, current, cursor, None, row));
    lemma_confirmed(povs, places, current, row, places.len());
}

proof fn lemma_confirmed(povs: Seq<Stream>, places: Seq<usize>, current: Stream, row: int, n: nat)
    requires
        0 <= row < places.len() <= usize::MAX,
        n <= places.len(),
        unavailable_text(povs[places[row] as int], current) is None,
        pov_key_text(povs[places[row] as int]) != pov_key_text(current),
        forall|i: int|
            0 <= i < places.len() && i != row ==> pov_key_text(povs[#[trigger] places[i] as int]) != pov_key_text(
                povs[places[row] as int],
            ),
    ensures
        n > row ==> last_choice(povs, places, current, Some(pov_key_text(povs[places[row] as int])), None, n) == Some(
            places[row],
        ),
    decreases n,
{
    if n > row + 1 {
        lemma_confirmed(povs, places, current, row, (n - 1) as nat);
        assert(places[n - 1] == places[n - 1]);
    }
}

/// The button names the pull that is watched and its place, counted from one; without one it says what
/// is pending, or that one can be chosen.
pub proof fn buttons_name_the_pull(pull: PullView, index: int, count: int, pending: Option<Seq<char>>)
    requires
        0 <= index < count,
    ensures
        pull_button(Some((pull, index, count)), pending) == pull.name + " · Pull "@ + decimal((index + 1) as nat) + " of "@
            + decimal(count as nat),
        pending is Some ==> pull_button(None, pending) == pending->0,
        pending is None ==> pull_button(None, pending) == "Choose a pull"@,
{
}

} // verus!
