//! Which spells the timeline tracks, and the editor for it.
use crate::raid::{at_key, DefensiveGroup, EventKind, RaidEvent};
use crate::text::same_text;
use std::collections::BTreeMap;
use vstd::prelude::*;
use vstd::std_specs::iter::IteratorSpec;

verus! {

/// How many changed spells are kept for an account.
pub const MAX_OVERRIDES: usize = 128;

/// The evidence that counts as use of a spell.
#[derive(Clone, Copy, Debug, PartialEq, Eq, Structural)]
pub enum Observation {
    Cast,
    Buff,
}

impl Observation {
    pub open spec fn spec_accepts(self, observed_buff: bool) -> bool {
        (self == Observation::Buff) == observed_buff
    }

    /// Whether an event of this evidence counts.
    pub fn accepts(&self, observed_buff: bool) -> (yes: bool)
        ensures
            yes == self.spec_accepts(observed_buff),
    {
        match self {
            Observation::Cast => !observed_buff,
            Observation::Buff => observed_buff,
        }
    }
}

/// How one spell is tracked: in a group or not at all.
#[derive(Clone, Copy, Debug, PartialEq, Eq, Structural)]
pub struct Rule {
    pub group: Option<DefensiveGroup>,
    pub observation: Observation,
}

/// A spell that the catalogue knows.
#[derive(Debug)]
pub struct Spell {
    pub id: u64,
    pub name: String,
    pub group: DefensiveGroup,
    pub default_enabled: bool,
}

/// The mathematical content of a `Spell`.
pub struct SpellView {
    pub id: u64,
    pub name: Seq<char>,
    pub group: DefensiveGroup,
    pub default_enabled: bool,
}

impl View for Spell {
    type V = SpellView;

    open spec fn view(&self) -> SpellView {
        SpellView { id: self.id, name: self.name@, group: self.group, default_enabled: self.default_enabled }
    }
}

/// The spells of the guild's catalogue.
#[derive(Debug)]
pub struct Catalog {
    pub spells: Vec<Spell>,
}

impl View for Catalog {
    type V = Seq<SpellView>;

    open spec fn view(&self) -> Seq<SpellView> {
        Seq::new(self.spells@.len(), |i: int| self.spells@[i]@)
    }
}

/// The first spell with this id.
pub open spec fn spell_of(catalog: Seq<SpellView>, id: u64) -> Option<SpellView>
    decreases catalog.len(),
{
    if catalog.len() == 0 {
        None
    } else if catalog[0].id == id {
        Some(catalog[0])
    } else {
        spell_of(catalog.skip(1), id)
    }
}

/// How the catalogue tracks a spell: in its group where it is enabled by default.
pub open spec fn catalog_rule(catalog: Seq<SpellView>, id: u64) -> Option<Rule> {
    match spell_of(catalog, id) {
        Some(spell) => Some(
            Rule {
                group: if spell.default_enabled { Some(spell.group) } else { None },
                observation: Observation::Cast,
            },
        ),
        None => None,
    }
}

impl Catalog {
    /// The place of the first spell with this id.
    pub fn spell(&self, id: u64) -> (place: Option<usize>)
        ensures
            match place {
                Some(i) => i < self.spells@.len() && spell_of(self@, id) == Some(self.spells@[i as int]@),
                None => spell_of(self@, id) is None,
            },
    {
        let mut i: usize = 0;
        assert(self@.skip(0) =~= self@);
        while i < self.spells.len()
            invariant
                i <= self.spells@.len(),
                spell_of(self@, id) == spell_of(self@.skip(i as int), id),
            decreases self.spells.len() - i,
        {
            assert(self@[i as int] == self.spells@[i as int]@);
            if self.spells[i].id == id {
                return Some(i);
            }
            assert(self@.skip(i as int).skip(1) =~= self@.skip(i as int + 1));
            i += 1;
        }
        None
    }

    pub fn rule(&self, id: u64) -> (rule: Option<Rule>)
        ensures
            rule == catalog_rule(self@, id),
    {
        match self.spell(id) {
            Some(i) => {
                let spell = &self.spells[i];
                let group = if spell.default_enabled { Some(spell.group) } else { None };
                Some(Rule { group, observation: Observation::Cast })
            },
            None => None,
        }
    }

    pub fn duplicate(&self) -> (copy: Catalog)
        ensures
            copy@ == self@,
    {
        let mut spells: Vec<Spell> = Vec::new();
        let mut i: usize = 0;
        while i < self.spells.len()
            invariant
                i <= self.spells@.len(),
                spells@.len() == i,
                forall|j: int| 0 <= j < i ==> (#[trigger] spells@[j])@ == self.spells@[j]@,
            decreases self.spells.len() - i,
        {
            let spell = &self.spells[i];
            spells.push(
                Spell {
                    id: spell.id,
                    name: spell.name.clone(),
                    group: spell.group,
                    default_enabled: spell.default_enabled,
                },
            );
            i += 1;
        }
        let copy = Catalog { spells };
        assert(copy@ =~= self@);
        copy
    }

    pub fn same(&self, other: &Catalog) -> (same: bool)
        ensures
            same == (self@ == other@),
    {
        if self.spells.len() != other.spells.len() {
            assert(self@.len() != other@.len());
            return false;
        }
        let mut i: usize = 0;
        while i < self.spells.len()
            invariant
                i <= self.spells@.len(),
                self.spells@.len() == other.spells@.len(),
                forall|j: int| 0 <= j < i ==> self.spells@[j]@ == (#[trigger] other.spells@[j])@,
            decreases self.spells.len() - i,
        {
            let a = &self.spells[i];
            let b = &other.spells[i];
            if a.id != b.id || a.group != b.group || a.default_enabled != b.default_enabled || !same_text(
                &a.name,
                &b.name,
            ) {
                assert(self@[i as int] != other@[i as int]);
                return false;
            }
            i += 1;
        }
        assert(self@ =~= other@);
        true
    }
}

/// What an account tracks and shows.
#[derive(Debug)]
pub struct Preferences {
    pub catalog: Catalog,
    pub overrides: BTreeMap<u64, Rule>,
    pub hidden_groups: Vec<DefensiveGroup>,
}

/// The mathematical content of `Preferences`.
pub struct PreferencesView {
    pub catalog: Seq<SpellView>,
    pub overrides: Map<u64, Rule>,
    pub hidden: Seq<DefensiveGroup>,
}

impl View for Preferences {
    type V = PreferencesView;

    open spec fn view(&self) -> PreferencesView {
        PreferencesView { catalog: self.catalog@, overrides: self.overrides@, hidden: self.hidden_groups@ }
    }
}

impl PreferencesView {
    /// The account's own rule for a spell, and otherwise the catalogue's.
    pub open spec fn rule(self, id: u64) -> Option<Rule> {
        match at_key(self.overrides, id) {
            Some(rule) => Some(rule),
            None => catalog_rule(self.catalog, id),
        }
    }

    /// The group in which a spell is tracked.
    pub open spec fn classify(self, id: u64) -> Option<DefensiveGroup> {
        match self.rule(id) {
            Some(rule) => rule.group,
            None => None,
        }
    }

    pub open spec fn visible(self, group: DefensiveGroup) -> bool {
        !self.hidden.contains(group)
    }

    pub open spec fn enables(self, group: DefensiveGroup) -> bool {
        exists|id: u64| #[trigger] self.classify(id) == Some(group)
    }

    pub open spec fn knows(self, id: u64) -> bool {
        spell_of(self.catalog, id) is Some || self.overrides.dom().contains(id)
    }
}

/// The hidden groups without one of them, in their order.
pub open spec fn without_group(groups: Seq<DefensiveGroup>, group: DefensiveGroup) -> Seq<DefensiveGroup>
    decreases groups.len(),
{
    if groups.len() == 0 {
        Seq::empty()
    } else {
        let rest = without_group(groups.drop_last(), group);
        if groups.last() != group { rest.push(groups.last()) } else { rest }
    }
}

/// The hidden groups once a group is shown, or hidden last.
pub open spec fn hidden_with(groups: Seq<DefensiveGroup>, group: DefensiveGroup, visible: bool) -> Seq<DefensiveGroup> {
    if visible { without_group(groups, group) } else { without_group(groups, group).push(group) }
}

proof fn lemma_without_group(groups: Seq<DefensiveGroup>, group: DefensiveGroup, other: DefensiveGroup)
    ensures
        without_group(groups, group).contains(other) <==> (other != group && groups.contains(other)),
    decreases groups.len(),
{
    if groups.len() > 0 {
        let front = groups.drop_last();
        lemma_without_group(front, group, other);
        lemma_push_contains(front, groups.last(), other);
        lemma_push_contains(without_group(front, group), groups.last(), other);
        assert(front.push(groups.last()) =~= groups);
    }
}

/// The keys of a map, each once.
fn keys_of(rules: &BTreeMap<u64, Rule>) -> (ids: Vec<u64>)
    ensures
        ids@.no_duplicates(),
        forall|id: u64| #[trigger] ids@.contains(id) <==> rules@.contains_key(id),
{
    let mut ids: Vec<u64> = Vec::new();
    for id in it: rules.keys()
        invariant
            it.seq() == rules.keys().remaining(),
            ids@ == it.seq().unref().take(it.index() as int),
    {
        ids.push(*id);
        assert(it.seq().unref().take(it.index() as int + 1) =~= it.seq().unref().take(it.index() as int).push(*id));
    }
    assert(ids@ =~= rules.keys().remaining().unref());
    ids
}

impl Preferences {
    pub fn new(catalog: Catalog) -> (preferences: Preferences)
        ensures
            preferences@ == (PreferencesView {
                catalog: catalog@,
                overrides: Map::empty(),
                hidden: Seq::empty(),
            }),
    {
        let preferences = Preferences { catalog, overrides: BTreeMap::new(), hidden_groups: Vec::new() };
        assert(preferences.hidden_groups@ =~= Seq::empty());
        preferences
    }

    pub fn rule(&self, id: u64) -> (rule: Option<Rule>)
        ensures
            rule == self@.rule(id),
    {
        match self.overrides.get(&id) {
            Some(rule) => Some(*rule),
            None => self.catalog.rule(id),
        }
    }

    pub fn classify(&self, id: u64) -> (group: Option<DefensiveGroup>)
        ensures
            group == self@.classify(id),
    {
        match self.rule(id) {
            Some(rule) => rule.group,
            None => None,
        }
    }

    pub fn visible(&self, group: DefensiveGroup) -> (visible: bool)
        ensures
            visible == self@.visible(group),
    {
        let mut i: usize = 0;
        while i < self.hidden_groups.len()
            invariant
                i <= self.hidden_groups@.len(),
                forall|j: int| 0 <= j < i ==> self.hidden_groups@[j] != group,
            decreases self.hidden_groups.len() - i,
        {
            if self.hidden_groups[i] == group {
                return false;
            }
            i += 1;
        }
        true
    }

    /// Every spell that the catalogue or the account names, each once.
    pub fn ids(&self) -> (ids: Vec<u64>)
        ensures
            ids@.no_duplicates(),
            forall|id: u64| #[trigger] ids@.contains(id) <==> self@.knows(id),
    {
        let mut ids = keys_of(&self.overrides);
        let ghost own = ids@;
        let mut k: usize = 0;
        while k < self.catalog.spells.len()
            invariant
                k <= self.catalog.spells@.len(),
                ids@.no_duplicates(),
                forall|id: u64|
                    #[trigger] ids@.contains(id) <==> (self@.overrides.dom().contains(id) || exists|j: int|
                        0 <= j < k && (#[trigger] self.catalog.spells@[j]).id == id),
            decreases self.catalog.spells.len() - k,
        {
            let id: u64 = self.catalog.spells[k].id;
            let ghost before = ids@;
            if !list_contains(&ids, id) {
                ids.push(id);
                assert(ids@ =~= before.push(id));
            }
            proof {
                assert forall|x: u64| #[trigger] ids@.contains(x) <==> (before.contains(x) || x == id) by {
                    if before.contains(x) {
                        let j = choose|j: int| 0 <= j < before.len() && before[j] == x;
                        assert(ids@[j] == x);
                    }
                    if x == id && !before.contains(id) {
                        assert(ids@[before.len() as int] == x);
                    }
                }
                assert forall|x: u64| #[trigger] ids@.contains(x) <==> (self@.overrides.dom().contains(x) || exists|j: int|
                    0 <= j < k + 1 && (#[trigger] self.catalog.spells@[j]).id == x) by {
                    assert(ids@.contains(x) <==> (before.contains(x) || x == id));
                    if x == id {
                        assert(self.catalog.spells@[k as int].id == x);
                    }
                }
            }
            k += 1;
        }
        assert forall|id: u64| #[trigger] ids@.contains(id) <==> self@.knows(id) by {
            lemma_spell_known(self.catalog@, id);
            if exists|j: int| 0 <= j < self.catalog.spells@.len() && (#[trigger] self.catalog.spells@[j]).id == id {
                let j = choose|j: int|
                    0 <= j < self.catalog.spells@.len() && (#[trigger] self.catalog.spells@[j]).id == id;
                assert(self.catalog@[j].id == id);
            }
            if spell_of(self.catalog@, id) is Some {
                let j = choose|j: int| 0 <= j < self.catalog@.len() && (#[trigger] self.catalog@[j]).id == id;
                assert(self.catalog.spells@[j].id == id);
            }
        }
        ids
    }

    /// Whether any spell is tracked in the group.
    pub fn has_enabled_spells(&self, group: DefensiveGroup) -> (any: bool)
        ensures
            any == self@.enables(group),
    {
        let ids = self.ids();
        let mut i: usize = 0;
        while i < ids.len()
            invariant
                i <= ids@.len(),
                forall|j: int| 0 <= j < i ==> self@.classify(#[trigger] ids@[j]) != Some(group),
            decreases ids.len() - i,
        {
            if self.classify(ids[i]) == Some(group) {
                return true;
            }
            i += 1;
        }
        assert forall|id: u64| #[trigger] self@.classify(id) != Some(group) by {
            if ids@.contains(id) {
                let j = choose|j: int| 0 <= j < ids@.len() && ids@[j] == id;
                assert(self@.classify(ids@[j]) != Some(group));
            } else {
                assert(!self@.knows(id));
            }
        }
        false
    }

    pub fn duplicate(&self) -> (copy: Preferences)
        ensures
            copy@ == self@,
    {
        let mut hidden_groups: Vec<DefensiveGroup> = Vec::new();
        let mut i: usize = 0;
        while i < self.hidden_groups.len()
            invariant
                i <= self.hidden_groups@.len(),
                hidden_groups@ == self.hidden_groups@.take(i as int),
            decreases self.hidden_groups.len() - i,
        {
            hidden_groups.push(self.hidden_groups[i]);
            assert(self.hidden_groups@.take(i as int + 1) =~= self.hidden_groups@.take(i as int).push(
                self.hidden_groups@[i as int],
            ));
            i += 1;
        }
        assert(self.hidden_groups@.take(self.hidden_groups@.len() as int) =~= self.hidden_groups@);
        Preferences { catalog: self.catalog.duplicate(), overrides: self.overrides.clone(), hidden_groups }
    }

    /// Shows or hides a group in the timeline. What is tracked does not change.
    pub fn set_visible(&mut self, group: DefensiveGroup, visible: bool)
        ensures
            final(self).catalog == old(self).catalog,
            final(self).overrides == old(self).overrides,
            final(self).hidden_groups@ == hidden_with(old(self).hidden_groups@, group, visible),
            final(self)@.visible(group) == visible,
            forall|other: DefensiveGroup| other != group ==> #[trigger] final(self)@.visible(other) == old(self)@.visible(
                other,
            ),
    {
        let ghost all = self.hidden_groups@;
        let mut kept: Vec<DefensiveGroup> = Vec::new();
        let mut i: usize = 0;
        while i < self.hidden_groups.len()
            invariant
                i <= self.hidden_groups@.len(),
                all == self.hidden_groups@,
                kept@ == without_group(all.take(i as int), group),
            decreases self.hidden_groups.len() - i,
        {
            assert(all.take(i as int + 1).drop_last() =~= all.take(i as int));
            if self.hidden_groups[i] != group {
                kept.push(self.hidden_groups[i]);
            }
            i += 1;
        }
        assert(all.take(all.len() as int) =~= all);
        if !visible {
            kept.push(group);
        }
        proof {
            assert forall|g: DefensiveGroup| #[trigger] kept@.contains(g) <==> (if g == group {
                !visible
            } else {
                all.contains(g)
            }) by {
                lemma_without_group(all, group, g);
                lemma_push_contains(without_group(all, group), group, g);
            }
        }
        self.hidden_groups = kept;
    }
}

proof fn lemma_push_contains<T>(s: Seq<T>, x: T, y: T)
    ensures
        s.push(x).contains(y) <==> (s.contains(y) || x == y),
{
    if s.contains(y) {
        let i = choose|i: int| 0 <= i < s.len() && s[i] == y;
        assert(s.push(x)[i] == y);
    }
    if x == y {
        assert(s.push(x)[s.len() as int] == y);
    }
    if s.push(x).contains(y) && x != y {
        let i = choose|i: int| 0 <= i < s.push(x).len() && s.push(x)[i] == y;
        assert(s[i] == y);
    }
}

proof fn lemma_spell_known(catalog: Seq<SpellView>, id: u64)
    ensures
        spell_of(catalog, id) is Some <==> exists|j: int| 0 <= j < catalog.len() && (#[trigger] catalog[j]).id == id,
    decreases catalog.len(),
{
    if catalog.len() > 0 {
        let rest = catalog.skip(1);
        lemma_spell_known(rest, id);
        if spell_of(catalog, id) is Some {
            if catalog[0].id != id {
                let j = choose|j: int| 0 <= j < rest.len() && (#[trigger] rest[j]).id == id;
                assert(catalog[j + 1].id == id);
            }
        }
        if exists|j: int| 0 <= j < catalog.len() && (#[trigger] catalog[j]).id == id {
            let j = choose|j: int| 0 <= j < catalog.len() && (#[trigger] catalog[j]).id == id;
            if j > 0 {
                assert(rest[j - 1].id == id);
            }
        }
    }
}

fn list_contains(ids: &Vec<u64>, id: u64) -> (found: bool)
    ensures
        found == ids@.contains(id),
{
    let mut i: usize = 0;
    while i < ids.len()
        invariant
            i <= ids@.len(),
            forall|j: int| 0 <= j < i ==> ids@[j] != id,
        decreases ids.len() - i,
    {
        if ids[i] == id {
            return true;
        }
        i += 1;
    }
    false
}

/// Whether every rule of `a` is in `b`.
fn overrides_within(a: &BTreeMap<u64, Rule>, b: &BTreeMap<u64, Rule>) -> (within: bool)
    ensures
        within == forall|id: u64| #[trigger] a@.dom().contains(id) ==> at_key(b@, id) == Some(a@[id]),
{
    let ids = keys_of(a);
    let mut i: usize = 0;
    while i < ids.len()
        invariant
            i <= ids@.len(),
            forall|id: u64| #[trigger] ids@.contains(id) <==> a@.contains_key(id),
            forall|j: int| 0 <= j < i ==> at_key(b@, #[trigger] ids@[j]) == Some(a@[ids@[j]]),
        decreases ids.len() - i,
    {
        let id: u64 = ids[i];
        assert(ids@.contains(id));
        let same = match (a.get(&id), b.get(&id)) {
            (Some(mine), Some(other)) => *mine == *other,
            _ => false,
        };
        if !same {
            assert(a@.dom().contains(id));
            return false;
        }
        i += 1;
    }
    assert forall|id: u64| #[trigger] a@.dom().contains(id) implies at_key(b@, id) == Some(a@[id]) by {
        assert(ids@.contains(id));
        let j = choose|j: int| 0 <= j < ids@.len() && ids@[j] == id;
        assert(at_key(b@, ids@[j]) == Some(a@[ids@[j]]));
    }
    true
}

/// Whether two accounts change the same spells in the same way.
pub fn same_overrides(a: &BTreeMap<u64, Rule>, b: &BTreeMap<u64, Rule>) -> (same: bool)
    ensures
        same == (a@ == b@),
{
    let same = overrides_within(a, b) && overrides_within(b, a);
    proof {
        if same {
            assert(a@ =~= b@);
        }
    }
    same
}

/// Whether `new` asks for events that `old` did not: a spell that was not tracked, or was
/// tracked by other evidence.
pub open spec fn tracks_more(old: PreferencesView, new: PreferencesView) -> bool {
    exists|id: u64| #[trigger] newly_tracked(old, new, id)
}

pub open spec fn newly_tracked(old: PreferencesView, new: PreferencesView, id: u64) -> bool {
    &&& new.classify(id) is Some
    &&& old.classify(id) is None || old.rule(id)->0.observation != new.rule(id)->0.observation
}

pub fn asks_for_more(old: &Preferences, new: &Preferences) -> (more: bool)
    ensures
        more == tracks_more(old@, new@),
{
    let ids = new.ids();
    let mut i: usize = 0;
    while i < ids.len()
        invariant
            i <= ids@.len(),
            forall|j: int| 0 <= j < i ==> !newly_tracked(old@, new@, #[trigger] ids@[j]),
        decreases ids.len() - i,
    {
        let id: u64 = ids[i];
        if let Some(rule) = new.rule(id) {
            if rule.group.is_some() {
                let fresh = match old.rule(id) {
                    Some(previous) => previous.group.is_none() || previous.observation != rule.observation,
                    None => true,
                };
                if fresh {
                    assert(newly_tracked(old@, new@, id));
                    return true;
                }
            }
        }
        i += 1;
    }
    assert forall|id: u64| !#[trigger] newly_tracked(old@, new@, id) by {
        if ids@.contains(id) {
            let j = choose|j: int| 0 <= j < ids@.len() && ids@[j] == id;
            assert(!newly_tracked(old@, new@, ids@[j]));
        } else {
            assert(!new@.knows(id));
        }
    }
    false
}

// ---------------------------------------------------------------- events under new rules

/// Whether an event still belongs to the timeline under these preferences.
pub open spec fn keeps(preferences: PreferencesView, event: RaidEvent) -> bool {
    event.kind != EventKind::Defensives || (preferences.classify(event.ability_id) is Some && preferences.rule(
        event.ability_id,
    )->0.observation.spec_accepts(event.observed_buff))
}

/// The event in the group that these preferences give it.
pub open spec fn regroup(preferences: PreferencesView, event: RaidEvent) -> RaidEvent {
    if event.kind == EventKind::Defensives {
        RaidEvent { group: preferences.classify(event.ability_id), ..event }
    } else {
        event
    }
}

/// The events that stay, in their order, each in its group.
pub open spec fn regrouped(preferences: PreferencesView, events: Seq<RaidEvent>) -> Seq<RaidEvent>
    decreases events.len(),
{
    if events.len() == 0 {
        Seq::empty()
    } else {
        let rest = regrouped(preferences, events.drop_last());
        if keeps(preferences, events.last()) { rest.push(regroup(preferences, events.last())) } else { rest }
    }
}

fn reversed(events: Vec<RaidEvent>) -> (out: Vec<RaidEvent>)
    ensures
        out@ == events@.reverse(),
{
    let mut from = events;
    let mut out: Vec<RaidEvent> = Vec::new();
    let ghost all = from@;
    while from.len() > 0
        invariant
            from@.len() <= all.len(),
            from@ == all.take(from@.len() as int),
            out@ == all.skip(from@.len() as int).reverse(),
        decreases from.len(),
    {
        let ghost n = from@.len() as int;
        let ghost before = out@;
        if let Some(event) = from.pop() {
            out.push(event);
            proof {
                assert(from@ =~= all.take(n - 1));
                assert(all.skip(n - 1).reverse() =~= all.skip(n).reverse().push(all[n - 1]));
            }
        }
    }
    assert(all.skip(0) =~= all);
    out
}

/// Puts the events under new preferences.
pub fn regroup_events(preferences: &Preferences, events: Vec<RaidEvent>) -> (kept: Vec<RaidEvent>)
    ensures
        kept@ == regrouped(preferences@, events@),
{
    let ghost all = events@;
    let mut backwards = reversed(events);
    let mut kept: Vec<RaidEvent> = Vec::new();
    assert(all.take(0) =~= Seq::empty());
    while backwards.len() > 0
        invariant
            backwards@.len() <= all.len(),
            backwards@ == all.skip(all.len() - backwards@.len()).reverse(),
            kept@ == regrouped(preferences@, all.take(all.len() - backwards@.len())),
        decreases backwards.len(),
    {
        let ghost n = all.len() - backwards@.len();
        let ghost before = kept@;
        if let Some(event) = backwards.pop() {
            proof {
                assert(all.skip(n).reverse().last() == all[n]);
                assert(event == all[n]);
                assert(backwards@ =~= all.skip(n + 1).reverse());
                assert(all.take(n + 1).drop_last() =~= all.take(n));
            }
            let mut event = event;
            match event.kind {
                EventKind::Deaths => {
                    kept.push(event);
                },
                EventKind::Defensives => {
                    if let Some(rule) = preferences.rule(event.ability_id) {
                        if rule.group.is_some() && rule.observation.accepts(event.observed_buff) {
                            event.group = rule.group;
                            kept.push(event);
                        }
                    }
                },
            }
        }
    }
    assert(all.take(all.len() as int) =~= all);
    kept
}

// ---------------------------------------------------------------- laws

/// The events of one kind, in their order.
pub open spec fn of_kind(events: Seq<RaidEvent>, kind: EventKind) -> Seq<RaidEvent>
    decreases events.len(),
{
    if events.len() == 0 {
        Seq::empty()
    } else {
        let rest = of_kind(events.drop_last(), kind);
        if events.last().kind == kind { rest.push(events.last()) } else { rest }
    }
}

/// Whatever is tracked, every death stays in the timeline, unchanged and in order.
pub proof fn deaths_survive_new_preferences(preferences: PreferencesView, events: Seq<RaidEvent>)
    ensures
        of_kind(regrouped(preferences, events), EventKind::Deaths) == of_kind(events, EventKind::Deaths),
    decreases events.len(),
{
    if events.len() > 0 {
        let front = events.drop_last();
        let rest = regrouped(preferences, front);
        deaths_survive_new_preferences(preferences, front);
        let all = regrouped(preferences, events);
        if all.len() > rest.len() {
            assert(all.drop_last() =~= rest);
        }
    }
}

/// A cooldown stays exactly where its spell is tracked by the evidence that it is, and then in
/// the group of that spell, with nothing else of it changed.
pub proof fn cooldowns_follow_their_spell(preferences: PreferencesView, event: RaidEvent, rule: Rule)
    requires
        event.kind == EventKind::Defensives,
        preferences.rule(event.ability_id) == Some(rule),
    ensures
        ({
            let counts = rule.group is Some && (event.observed_buff <==> rule.observation == Observation::Buff);
            let moved = RaidEvent { group: rule.group, ..event };
            regrouped(preferences, seq![event]) == if counts { seq![moved] } else { Seq::empty() }
        }),
{
    let one = seq![event];
    assert(one.drop_last() =~= Seq::empty());
    assert(regrouped(preferences, one.drop_last()) =~= Seq::empty());
    let moved = RaidEvent { group: rule.group, ..event };
    assert(Seq::<RaidEvent>::empty().push(moved) =~= seq![moved]);
}

/// A cooldown of a spell that nobody knows goes.
pub proof fn unknown_spells_leave_the_timeline(preferences: PreferencesView, event: RaidEvent)
    requires
        event.kind == EventKind::Defensives,
        preferences.rule(event.ability_id) is None,
    ensures
        regrouped(preferences, seq![event]).len() == 0,
{
    assert(seq![event].drop_last() =~= Seq::empty());
    assert(regrouped(preferences, Seq::empty()).len() == 0);
}

/// Events are taken one by one: none makes another stay, go, or change places.
pub proof fn events_are_regrouped_one_by_one(preferences: PreferencesView, a: Seq<RaidEvent>, b: Seq<RaidEvent>)
    ensures
        regrouped(preferences, a + b) == regrouped(preferences, a) + regrouped(preferences, b),
    decreases b.len(),
{
    if b.len() == 0 {
        assert(a + b =~= a);
        assert(regrouped(preferences, a) + regrouped(preferences, b) =~= regrouped(preferences, a));
    } else {
        events_are_regrouped_one_by_one(preferences, a, b.drop_last());
        assert((a + b).drop_last() =~= a + b.drop_last());
        assert(regrouped(preferences, a + b) =~= regrouped(preferences, a) + regrouped(preferences, b));
    }
}

/// Putting events under the same preferences again changes nothing.
pub proof fn regrouping_again_changes_nothing(preferences: PreferencesView, events: Seq<RaidEvent>)
    ensures
        regrouped(preferences, regrouped(preferences, events)) == regrouped(preferences, events),
    decreases events.len(),
{
    if events.len() > 0 {
        regrouping_again_changes_nothing(preferences, events.drop_last());
        let rest = regrouped(preferences, events.drop_last());
        if keeps(preferences, events.last()) {
            let all = rest.push(regroup(preferences, events.last()));
            assert(all.drop_last() =~= rest);
        }
    }
}

/// The catalogue's spell for an id is one of its own, the first with that id; none is found only
/// where there is none.
pub proof fn spells_are_found_by_their_id(catalog: Seq<SpellView>, id: u64)
    ensures
        match spell_of(catalog, id) {
            Some(spell) => exists|i: int|
                {
                    &&& 0 <= i < catalog.len() && #[trigger] catalog[i] == spell && spell.id == id
                    &&& forall|j: int| 0 <= j < i ==> (#[trigger] catalog[j]).id != id
                },
            None => forall|i: int| 0 <= i < catalog.len() ==> (#[trigger] catalog[i]).id != id,
        },
    decreases catalog.len(),
{
    if catalog.len() > 0 && catalog[0].id != id {
        let rest = catalog.skip(1);
        spells_are_found_by_their_id(rest, id);
        if spell_of(rest, id) is Some {
            let spell = spell_of(rest, id)->0;
            let i = choose|i: int|
                {
                    &&& 0 <= i < rest.len() && #[trigger] rest[i] == spell && spell.id == id
                    &&& forall|j: int| 0 <= j < i ==> (#[trigger] rest[j]).id != id
                };
            assert(catalog[i + 1] == spell);
            assert forall|j: int| 0 <= j < i + 1 implies (#[trigger] catalog[j]).id != id by {
                if j > 0 {
                    assert(rest[j - 1] == catalog[j]);
                }
            }
        } else {
            assert forall|i: int| 0 <= i < catalog.len() implies (#[trigger] catalog[i]).id != id by {
                if i > 0 {
                    assert(rest[i - 1] == catalog[i]);
                }
            }
        }
    } else if catalog.len() > 0 {
        assert(catalog[0] == spell_of(catalog, id)->0);
    }
}

/// An account's own rule wins over the catalogue's; without one, a spell is tracked by its casts
/// in the catalogue's group where that is the default, and not at all otherwise.
pub proof fn own_rules_win(preferences: PreferencesView, id: u64, rule: Rule)
    ensures
        (PreferencesView { overrides: preferences.overrides.insert(id, rule), ..preferences }).rule(id) == Some(rule),
        (PreferencesView { overrides: preferences.overrides.insert(id, rule), ..preferences }).classify(id) == rule.group,
        !preferences.overrides.dom().contains(id) ==> match spell_of(preferences.catalog, id) {
            Some(spell) => {
                &&& preferences.classify(id) == if spell.default_enabled { Some(spell.group) } else { None }
                &&& preferences.rule(id) is Some && preferences.rule(id)->0.observation == Observation::Cast
            },
            None => preferences.rule(id) is None && preferences.classify(id) is None,
        },
{
}

/// A change to one spell says nothing of another.
pub proof fn rules_are_independent(preferences: PreferencesView, id: u64, rule: Rule, other: u64)
    requires
        id != other,
    ensures
        (PreferencesView { overrides: preferences.overrides.insert(id, rule), ..preferences }).rule(other)
            == preferences.rule(other),
        (PreferencesView { overrides: preferences.overrides.remove(id), ..preferences }).rule(other) == preferences.rule(
            other,
        ),
{
}

/// More events are wanted exactly where some spell is tracked now that was not, or by other
/// evidence: not for what is no longer tracked, moved to another group, shown or hidden.
pub proof fn more_events_only_for_new_tracking(old: PreferencesView, new: PreferencesView, id: u64)
    ensures
        old.overrides == new.overrides && old.catalog == new.catalog ==> !tracks_more(old, new),
        (forall|x: u64| #[trigger] new.classify(x) is None) ==> !tracks_more(old, new),
        new.classify(id) is Some && old.classify(id) is None ==> tracks_more(old, new),
        new.classify(id) is Some && old.classify(id) is Some && old.rule(id)->0.observation != new.rule(
            id,
        )->0.observation ==> tracks_more(old, new),
        (forall|x: u64|
            #[trigger] new.classify(x) is Some ==> old.classify(x) is Some && old.rule(x)->0.observation == new.rule(
                x,
            )->0.observation) ==> !tracks_more(old, new),
{
    if new.classify(id) is Some && (old.classify(id) is None || old.rule(id)->0.observation != new.rule(
        id,
    )->0.observation) {
        assert(newly_tracked(old, new, id));
    }
    if old.overrides == new.overrides && old.catalog == new.catalog {
        assert forall|x: u64| !#[trigger] newly_tracked(old, new, x) by {
            assert(old.rule(x) == new.rule(x));
        }
    }
    if forall|x: u64| #[trigger] new.classify(x) is None {
        assert forall|x: u64| !#[trigger] newly_tracked(old, new, x) by {
            assert(new.classify(x) is None);
        }
    }
    if forall|x: u64|
        #[trigger] new.classify(x) is Some ==> old.classify(x) is Some && old.rule(x)->0.observation == new.rule(
            x,
        )->0.observation {
        assert forall|x: u64| !#[trigger] newly_tracked(old, new, x) by {
            if new.classify(x) is Some {
            }
        }
    }
}

/// Hiding a group hides it and no other, and showing it again brings back exactly that one.
pub proof fn groups_are_hidden_one_by_one(hidden: Seq<DefensiveGroup>, group: DefensiveGroup, other: DefensiveGroup)
    ensures
        hidden_with(hidden, group, false).contains(group),
        !hidden_with(hidden, group, true).contains(group),
        other != group ==> (hidden_with(hidden, group, false).contains(other) <==> hidden.contains(other)),
        other != group ==> (hidden_with(hidden, group, true).contains(other) <==> hidden.contains(other)),
        !hidden.contains(group) ==> hidden_with(hidden, group, true) == hidden,
        !hidden.contains(group) ==> hidden_with(hidden, group, false) == hidden.push(group),
{
    lemma_without_group(hidden, group, group);
    lemma_without_group(hidden, group, other);
    lemma_push_contains(without_group(hidden, group), group, group);
    lemma_push_contains(without_group(hidden, group), group, other);
    if !hidden.contains(group) {
        lemma_without_nothing(hidden, group);
    }
}

proof fn lemma_without_nothing(groups: Seq<DefensiveGroup>, group: DefensiveGroup)
    requires
        !groups.contains(group),
    ensures
        without_group(groups, group) == groups,
    decreases groups.len(),
{
    if groups.len() > 0 {
        let front = groups.drop_last();
        assert(!front.contains(group)) by {
            if front.contains(group) {
                let i = choose|i: int| 0 <= i < front.len() && front[i] == group;
                assert(groups[i] == group);
            }
        }
        lemma_without_nothing(front, group);
        assert(groups[groups.len() - 1] != group);
        assert(front.push(groups.last()) =~= groups);
    } else {
        assert(groups =~= Seq::empty());
    }
}

} // verus!
