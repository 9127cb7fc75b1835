//! The editor of tracked spells, on a draft of an account's preferences.
use crate::address::text_of;
use crate::cooldowns::{
    catalog_rule, spell_of, Observation, Preferences, PreferencesView, Rule, MAX_OVERRIDES,
};
use crate::order::{lemma_text_order_total, lemma_text_order_transitive, rank_texts, text_less, Rank};
use crate::raid::{at_key, DefensiveGroup, RaidEvent};
use crate::text::{
    ascii_text, contains, decimal, decimal_text, lowercase, occurs, same_text, small_text, to_lowercase,
};
use std::collections::BTreeMap;
use vstd::prelude::*;

verus! {

/// The names under which events showed one spell.
#[derive(Debug)]
pub struct ObservedSpellName {
    pub display: String,
    /// All the names in lower case, each once.
    pub search: Vec<String>,
}

pub open spec fn has_text(list: Seq<String>, text: Seq<char>) -> bool {
    exists|m: int| 0 <= m < list.len() && (#[trigger] list[m])@ == text
}

pub open spec fn distinct_texts(list: Seq<String>) -> bool {
    forall|a: int, b: int| 0 <= a < b < list.len() ==> (#[trigger] list[a])@ != (#[trigger] list[b])@
}

/// The first event of a spell.
pub open spec fn first_event(events: Seq<RaidEvent>, id: u64) -> Option<int>
    decreases events.len(),
{
    if events.len() == 0 {
        None
    } else {
        match first_event(events.drop_last(), id) {
            Some(i) => Some(i),
            None => if events.last().ability_id == id { Some(events.len() - 1) } else { None },
        }
    }
}

/// Whether some event shows the spell under this lower-case name.
pub open spec fn name_seen(events: Seq<RaidEvent>, id: u64, text: Seq<char>) -> bool {
    exists|i: int|
        0 <= i < events.len() && (#[trigger] events[i]).ability_id == id && lowercase(events[i].ability@) == text
}

/// Whether an entry holds the first name of a spell, and all its names in lower case.
pub open spec fn names_spell(name: ObservedSpellName, id: u64, events: Seq<RaidEvent>) -> bool {
    &&& first_event(events, id) is Some
    &&& name.display@ == events[first_event(events, id)->0].ability@
    &&& distinct_texts(name.search@)
    &&& forall|text: Seq<char>| #[trigger] has_text(name.search@, text) <==> name_seen(events, id, text)
}

/// Whether the names are exactly those that the events show.
pub open spec fn indexed(names: Map<u64, ObservedSpellName>, events: Seq<RaidEvent>) -> bool {
    forall|id: u64|
        #![trigger names.contains_key(id)]
        #![trigger first_event(events, id)]
        (names.contains_key(id) <==> first_event(events, id) is Some) && (names.contains_key(id) ==> names_spell(
            names[id],
            id,
            events,
        ))
}

proof fn lemma_first_event(events: Seq<RaidEvent>, id: u64)
    ensures
        first_event(events, id) is Some ==> 0 <= first_event(events, id)->0 < events.len(),
    decreases events.len(),
{
    if events.len() > 0 {
        lemma_first_event(events.drop_last(), id);
    }
}

/// One more event is seen under its own name, and changes no other spell.
proof fn lemma_name_seen(events: Seq<RaidEvent>, id: u64, text: Seq<char>)
    requires
        events.len() > 0,
    ensures
        name_seen(events, id, text) <==> (name_seen(events.drop_last(), id, text) || (events.last().ability_id == id
            && lowercase(events.last().ability@) == text)),
{
    let front = events.drop_last();
    if name_seen(front, id, text) {
        let i = choose|i: int|
            0 <= i < front.len() && (#[trigger] front[i]).ability_id == id && lowercase(front[i].ability@) == text;
        assert(events[i] == front[i]);
    }
    if events.last().ability_id == id && lowercase(events.last().ability@) == text {
        assert(events[events.len() - 1].ability_id == id);
    }
    if name_seen(events, id, text) {
        let i = choose|i: int|
            0 <= i < events.len() && (#[trigger] events[i]).ability_id == id && lowercase(events[i].ability@) == text;
        if i < front.len() {
            assert(front[i] == events[i]);
        }
    }
}

/// An event of another spell leaves an entry as it is.
proof fn lemma_other_spell(name: ObservedSpellName, id: u64, events: Seq<RaidEvent>)
    requires
        events.len() > 0,
        names_spell(name, id, events.drop_last()),
        events.last().ability_id != id,
    ensures
        names_spell(name, id, events),
{
    lemma_first_event(events.drop_last(), id);
    assert forall|text: Seq<char>| #[trigger] has_text(name.search@, text) <==> name_seen(events, id, text) by {
        lemma_name_seen(events, id, text);
    }
}

fn list_has(list: &Vec<String>, text: &str) -> (found: bool)
    ensures
        found == has_text(list@, text@),
{
    let mut i: usize = 0;
    while i < list.len()
        invariant
            i <= list@.len(),
            forall|j: int| 0 <= j < i ==> (#[trigger] list@[j])@ != text@,
        decreases list.len() - i,
    {
        if same_text(&list[i], text) {
            return true;
        }
        i += 1;
    }
    false
}

/// Takes one more event into the names of its spell.
fn add_name(entry: Option<ObservedSpellName>, events: &Vec<RaidEvent>, n: usize) -> (name: ObservedSpellName)
    requires
        n < events@.len(),
        entry is Some <==> first_event(events@.take(n as int), events@[n as int].ability_id) is Some,
        entry is Some ==> names_spell(entry->0, events@[n as int].ability_id, events@.take(n as int)),
    ensures
        names_spell(name, events@[n as int].ability_id, events@.take(n as int + 1)),
{
    let event = &events[n];
    let ghost id = event.ability_id;
    let ghost front = events@.take(n as int);
    let ghost longer = events@.take(n as int + 1);
    let lower = to_lowercase(&event.ability);
    proof {
        assert(longer.drop_last() =~= front);
        assert(longer.last() == *event);
        lemma_first_event(front, id);
    }
    match entry {
        None => {
            let mut search: Vec<String> = Vec::new();
            search.push(lower);
            let name = ObservedSpellName { display: event.ability.clone(), search };
            assert forall|text: Seq<char>| #[trigger] has_text(name.search@, text) <==> name_seen(longer, id, text) by {
                lemma_name_seen(longer, id, text);
                lemma_unseen(front, id, text);
                if text == lowercase(event.ability@) {
                    assert(name.search@[0]@ == text);
                }
            }
            name
        },
        Some(old_name) => {
            let mut name = old_name;
            let ghost before = name.search@;
            let known = list_has(&name.search, &lower);
            if !known {
                name.search.push(lower);
            }
            proof {
                let added = lowercase(event.ability@);
                if !known {
                    assert(name.search@.drop_last() =~= before);
                    assert forall|a: int, b: int| 0 <= a < b < name.search@.len() implies (#[trigger] name.search@[a])@ != (
                    #[trigger] name.search@[b])@ by {
                        assert(name.search@[a] == before[a]);
                        if b < before.len() {
                            assert(name.search@[b] == before[b]);
                        }
                    }
                }
                assert forall|text: Seq<char>| #[trigger] has_text(name.search@, text) <==> name_seen(
                    longer,
                    id,
                    text,
                ) by {
                    lemma_name_seen(longer, id, text);
                    assert(has_text(before, text) <==> name_seen(front, id, text));
                    if !known {
                        if has_text(before, text) {
                            let m = choose|m: int| 0 <= m < before.len() && (#[trigger] before[m])@ == text;
                            assert(name.search@[m]@ == text);
                        }
                        if text == added {
                            assert(name.search@[before.len() as int]@ == text);
                        }
                        if has_text(name.search@, text) && text != added {
                            let m = choose|m: int| 0 <= m < name.search@.len() && (#[trigger] name.search@[m])@ == text;
                            assert(before[m]@ == text);
                        }
                    }
                }
            }
            name
        },
    }
}

/// The names that the events show.
pub fn index_names(events: &Vec<RaidEvent>) -> (names: BTreeMap<u64, ObservedSpellName>)
    ensures
        indexed(names@, events@),
{
    let mut names: BTreeMap<u64, ObservedSpellName> = BTreeMap::new();
    let mut n: usize = 0;
    assert(events@.take(0) =~= Seq::<RaidEvent>::empty());
    while n < events.len()
        invariant
            n <= events@.len(),
            indexed(names@, events@.take(n as int)),
        decreases events.len() - n,
    {
        let id: u64 = events[n].ability_id;
        let ghost longer = events@.take(n as int + 1);
        let ghost before = names@;
        assert(longer.drop_last() =~= events@.take(n as int));
        let entry = names.remove(&id);
        let name = add_name(entry, events, n);
        names.insert(id, name);
        assert forall|other: u64|
            (names@.contains_key(other) <==> first_event(longer, other) is Some) && (names@.contains_key(other)
                ==> names_spell(names@[other], other, longer)) by {
            if other != id && before.contains_key(other) {
                lemma_other_spell(before[other], other, longer);
            }
        }
        n += 1;
    }
    assert(events@.take(events@.len() as int) =~= events@);
    names
}

/// A spell without an event has no name.
proof fn lemma_unseen(events: Seq<RaidEvent>, id: u64, text: Seq<char>)
    requires
        first_event(events, id) is None,
    ensures
        !name_seen(events, id, text),
    decreases events.len(),
{
    if events.len() > 0 {
        lemma_unseen(events.drop_last(), id, text);
        lemma_name_seen(events, id, text);
    }
}

// ---------------------------------------------------------------- the editor

#[derive(Debug)]
pub struct CooldownEditor {
    pub draft: Preferences,
    pub observed_names: BTreeMap<u64, ObservedSpellName>,
    pub search: String,
    pub group: DefensiveGroup,
    pub advanced: bool,
    /// The groups of spells that are not tracked at the moment.
    pub remembered_groups: BTreeMap<u64, DefensiveGroup>,
    pub new_id: String,
    pub error: Option<String>,
}

/// The message for a full list of changed spells.
pub open spec fn full_message() -> Seq<char> {
    "Up to 128 spell changes can be saved. Reset a changed spell to make room."@
}

/// Whether the search text is in a spell's number, in its lower-case name, or in one of the
/// lower-case names under which it was seen; an empty search is in all.
pub open spec fn spell_mentioned(search: Seq<char>, id: u64, name: Option<Seq<char>>, seen: Seq<String>) -> bool {
    search.len() == 0 || occurs(decimal(id as nat), search) || (name is Some && occurs(name->0, search)) || any_occurs(
        seen,
        search,
    )
}

pub fn mentions_spell(search: &str, id: u64, name: &Option<String>, seen: &Vec<String>) -> (yes: bool)
    ensures
        yes == spell_mentioned(search@, id, text_of(*name), seen@),
{
    if search.is_empty() || contains(&decimal_text(id), search) {
        return true;
    }
    if let Some(name) = name {
        if contains(name, search) {
            return true;
        }
    }
    some_occurs(seen, search)
}

impl CooldownEditor {
    pub fn new(draft: Preferences, events: &Vec<RaidEvent>, group: DefensiveGroup) -> (editor: CooldownEditor)
        ensures
            editor.draft == draft,
            editor.group == group,
            indexed(editor.observed_names@, events@),
            editor.search@.len() == 0 && editor.new_id@.len() == 0,
            !editor.advanced,
            editor.remembered_groups@ == Map::<u64, DefensiveGroup>::empty(),
            editor.error is None,
    {
        CooldownEditor {
            draft,
            observed_names: index_names(events),
            search: String::new(),
            group,
            advanced: false,
            remembered_groups: BTreeMap::new(),
            new_id: String::new(),
            error: None,
        }
    }

    /// Takes the names from new events.
    pub fn refresh_names(&mut self, events: &Vec<RaidEvent>)
        ensures
            indexed(final(self).observed_names@, events@),
            *final(self) == (CooldownEditor { observed_names: final(self).observed_names, ..*old(self) }),
    {
        self.observed_names = index_names(events);
    }

    /// The group under which the editor lists a spell: where it is tracked, where it was,
    /// where the catalogue has it, and with the healing spells otherwise.
    pub open spec fn spec_category(self, id: u64) -> DefensiveGroup {
        if self.draft@.classify(id) is Some {
            self.draft@.classify(id)->0
        } else if at_key(self.remembered_groups@, id) is Some {
            at_key(self.remembered_groups@, id)->0
        } else if spell_of(self.draft@.catalog, id) is Some {
            spell_of(self.draft@.catalog, id)->0.group
        } else {
            DefensiveGroup::Healing
        }
    }

    pub fn category(&self, id: u64) -> (group: DefensiveGroup)
        ensures
            group == self.spec_category(id),
    {
        if let Some(group) = self.draft.classify(id) {
            return group;
        }
        if let Some(group) = self.remembered_groups.get(&id) {
            return *group;
        }
        match self.draft.catalog.spell(id) {
            Some(i) => self.draft.catalog.spells[i].group,
            None => DefensiveGroup::Healing,
        }
    }

    /// The name of a spell: as the events show it, as the catalogue has it, or a stand-in.
    pub open spec fn spec_name(self, id: u64) -> Seq<char> {
        if self.observed_names@.contains_key(id) {
            self.observed_names@[id].display@
        } else if spell_of(self.draft@.catalog, id) is Some {
            spell_of(self.draft@.catalog, id)->0.name
        } else {
            "Custom spell"@
        }
    }

    pub fn name(&self, id: u64) -> (name: String)
        ensures
            name@ == self.spec_name(id),
    {
        if let Some(seen) = self.observed_names.get(&id) {
            return seen.display.clone();
        }
        match self.draft.catalog.spell(id) {
            Some(i) => self.draft.catalog.spells[i].name.clone(),
            None => String::from_str("Custom spell"),
        }
    }

    /// Whether one more changed spell has room.
    pub open spec fn has_room(self, id: u64) -> bool {
        self.draft.overrides@.dom().contains(id) || self.draft.overrides@.len() < MAX_OVERRIDES
    }

    /// Whether this is `before` with the rule of a spell set. The catalogue's own rule needs
    /// no entry; any other takes one, where there is room.
    pub open spec fn drafted_from(self, before: CooldownEditor, id: u64, rule: Rule) -> bool {
        if catalog_rule(before.draft@.catalog, id) == Some(rule) {
            &&& self.draft@ == (PreferencesView {
                overrides: before.draft@.overrides.remove(id),
                ..before.draft@
            })
            &&& self.error == before.error
        } else if before.has_room(id) {
            &&& self.draft@ == (PreferencesView {
                overrides: before.draft@.overrides.insert(id, rule),
                ..before.draft@
            })
            &&& self.error == before.error
        } else {
            &&& text_of(self.error) == Some(full_message())
            &&& self.draft == before.draft
        }
    }

    /// The same, with the group of a change remembered.
    pub open spec fn ruled_from(self, before: CooldownEditor, id: u64, rule: Rule) -> bool {
        &&& self.drafted_from(before, id, rule)
        &&& self.remembered_groups@ == if catalog_rule(before.draft@.catalog, id) != Some(rule) && before.has_room(id)
            && rule.group is Some {
            before.remembered_groups@.insert(id, rule.group->0)
        } else {
            before.remembered_groups@
        }
    }

    /// Sets the rule of a spell.
    pub fn apply_rule(&mut self, id: u64, rule: Rule)
        ensures
            final(self).ruled_from(*old(self), id, rule),
            final(self).draft.catalog == old(self).draft.catalog,
            final(self).draft.hidden_groups == old(self).draft.hidden_groups,
            *final(self) == (CooldownEditor {
                draft: final(self).draft,
                remembered_groups: final(self).remembered_groups,
                error: final(self).error,
                ..*old(self)
            }),
            old(self).draft.overrides@.len() <= MAX_OVERRIDES ==> final(self).draft.overrides@.len()
                <= MAX_OVERRIDES,
    {
        if self.draft.catalog.rule(id) == Some(rule) {
            self.draft.overrides.remove(&id);
        } else if self.draft.overrides.contains_key(&id) || self.draft.overrides.len() < MAX_OVERRIDES {
            self.draft.overrides.insert(id, rule);
            if let Some(group) = rule.group {
                self.remembered_groups.insert(id, group);
            }
        } else {
            self.error = Some(
                String::from_str("Up to 128 spell changes can be saved. Reset a changed spell to make room."),
            );
        }
    }

    /// The list shows or hides its advanced controls.
    pub fn toggle_advanced(&mut self)
        ensures
            *final(self) == (CooldownEditor { advanced: !old(self).advanced, ..*old(self) }),
    {
        self.advanced = !self.advanced;
    }

    /// Whether this is `before` but for the rules of spells, the remembered groups and the error;
    /// the catalogue and the hidden groups are not rules.
    pub open spec fn same_but_rules(self, before: CooldownEditor) -> bool {
        &&& self.draft.catalog == before.draft.catalog
        &&& self.draft.hidden_groups == before.draft.hidden_groups
        &&& self == (CooldownEditor {
            draft: self.draft,
            remembered_groups: self.remembered_groups,
            error: self.error,
            ..before
        })
    }

    /// Whether this is `before` with a spell ticked or unticked.
    pub open spec fn tracked_from(self, before: CooldownEditor, id: u64, wanted: bool) -> bool {
        let rule = Rule {
            group: if wanted { Some(before.spec_category(id)) } else { None },
            ..before.draft@.rule(id)->0
        };
        let settled = rule == before.draft@.rule(id)->0 || catalog_rule(before.draft@.catalog, id) == Some(rule)
            || before.has_room(id);
        &&& rule == before.draft@.rule(id)->0 ==> self.draft == before.draft
        &&& rule != before.draft@.rule(id)->0 ==> self.drafted_from(before, id, rule)
        &&& settled ==> self.draft@.rule(id) == Some(rule)
        &&& settled ==> self.error == before.error
        &&& !settled ==> self.draft == before.draft && text_of(self.error) == Some(full_message())
        &&& forall|other: u64| other != id ==> #[trigger] self.draft@.rule(other) == before.draft@.rule(other)
        &&& self.remembered_groups@ == before.remembered_groups@.insert(id, before.spec_category(id))
    }

    /// Ticks or unticks a spell. Its group is remembered while it is not tracked.
    pub fn set_tracked(&mut self, id: u64, wanted: bool)
        requires
            old(self).draft@.rule(id) is Some,
        ensures
            final(self).tracked_from(*old(self), id, wanted),
            final(self).same_but_rules(*old(self)),
            old(self).draft.overrides@.len() <= MAX_OVERRIDES ==> final(self).draft.overrides@.len()
                <= MAX_OVERRIDES,
    {
        let category = self.category(id);
        let before = self.draft.rule(id).unwrap();
        let mut rule = before;
        self.remembered_groups.insert(id, category);
        rule.group = if wanted { Some(category) } else { None };
        if rule != before {
            self.apply_rule(id, rule);
        }
        assert(self.remembered_groups@ =~= old(self).remembered_groups@.insert(id, category));
    }

    /// Whether this is `before` with a spell moved to another group.
    pub open spec fn recategorised_from(self, before: CooldownEditor, id: u64, group: DefensiveGroup) -> bool {
        &&& group == before.spec_category(id) ==> self == before
        &&& group != before.spec_category(id) ==> {
            let was = before.draft@.rule(id)->0;
            let rule = Rule { group: Some(group), ..was };
            let fits = catalog_rule(before.draft@.catalog, id) == Some(rule) || before.has_room(id);
            &&& self.remembered_groups@ == before.remembered_groups@.insert(id, group)
            &&& was.group is None ==> self.draft == before.draft && self.error == before.error
            &&& was.group is Some ==> self.drafted_from(before, id, rule)
            &&& was.group is Some && fits ==> self.draft@.rule(id) == Some(rule) && self.error == before.error
            &&& was.group is Some && !fits ==> self.draft == before.draft && text_of(self.error) == Some(full_message())
            &&& forall|other: u64| other != id ==> #[trigger] self.draft@.rule(other) == before.draft@.rule(other)
        }
    }

    /// Moves a spell to another group, tracked or only remembered.
    pub fn set_category(&mut self, id: u64, group: DefensiveGroup)
        requires
            old(self).draft@.rule(id) is Some,
        ensures
            final(self).recategorised_from(*old(self), id, group),
            final(self).same_but_rules(*old(self)),
            old(self).draft.overrides@.len() <= MAX_OVERRIDES ==> final(self).draft.overrides@.len()
                <= MAX_OVERRIDES,
    {
        if group == self.category(id) {
            return;
        }
        let before = self.draft.rule(id).unwrap();
        self.remembered_groups.insert(id, group);
        if before.group.is_some() {
            let rule = Rule { group: Some(group), observation: before.observation };
            if rule != before {
                self.apply_rule(id, rule);
            }
        }
        assert(self.remembered_groups@ =~= old(self).remembered_groups@.insert(id, group));
    }

    /// Whether this is `before` with other evidence for a spell.
    pub open spec fn reobserved_from(self, before: CooldownEditor, id: u64, observation: Observation) -> bool {
        let was = before.draft@.rule(id)->0;
        let rule = Rule { observation, ..was };
        let fits = catalog_rule(before.draft@.catalog, id) == Some(rule) || before.has_room(id);
        &&& rule == was ==> self == before
        &&& rule != was ==> self.ruled_from(before, id, rule)
        &&& rule != was && fits ==> self.draft@.rule(id) == Some(rule) && self.error == before.error
        &&& rule != was && !fits ==> self.draft == before.draft && text_of(self.error) == Some(full_message())
        &&& forall|other: u64| other != id ==> #[trigger] self.draft@.rule(other) == before.draft@.rule(other)
    }

    /// Changes what counts as use of a spell.
    pub fn set_observation(&mut self, id: u64, observation: Observation)
        requires
            old(self).draft@.rule(id) is Some,
        ensures
            final(self).reobserved_from(*old(self), id, observation),
            final(self).same_but_rules(*old(self)),
            old(self).draft.overrides@.len() <= MAX_OVERRIDES ==> final(self).draft.overrides@.len()
                <= MAX_OVERRIDES,
    {
        let before = self.draft.rule(id).unwrap();
        let rule = Rule { group: before.group, observation };
        if rule != before {
            self.apply_rule(id, rule);
        }
    }

    /// Whether this is `before` with a spell back to the catalogue's rule.
    pub open spec fn spell_reset_from(self, before: CooldownEditor, id: u64) -> bool {
        &&& self.draft@ == (PreferencesView { overrides: before.draft@.overrides.remove(id), ..before.draft@ })
        &&& self.remembered_groups@ == before.remembered_groups@.remove(id)
        &&& self == (CooldownEditor { draft: self.draft, remembered_groups: self.remembered_groups, ..before })
    }

    /// Puts a spell back to the catalogue's rule.
    pub fn reset_spell(&mut self, id: u64)
        ensures
            final(self).spell_reset_from(*old(self), id),
    {
        self.draft.overrides.remove(&id);
        self.remembered_groups.remove(&id);
    }

    /// Whether this is `before` with the typed spell added, or with the reason why not.
    pub open spec fn added_from(self, before: CooldownEditor, parsed: Result<u64, String>) -> bool {
        match parsed {
            Err(message) => self == (CooldownEditor { error: Some(message), ..before }),
            Ok(id) => {
                let rule = Rule { group: Some(before.group), observation: Observation::Cast };
                let fits = catalog_rule(before.draft@.catalog, id) == Some(rule) || before.has_room(id);
                &&& self.ruled_from((CooldownEditor { error: None, ..before }), id, rule)
                &&& (CooldownEditor { search: before.search, new_id: before.new_id, ..self }).same_but_rules(before)
                &&& if fits {
                    &&& self.draft@.rule(id) == Some(rule)
                    &&& self.error is None
                    &&& self.search@ == decimal(id as nat)
                    &&& self.new_id@.len() == 0
                    &&& forall|other: u64| other != id ==> #[trigger] self.draft@.rule(other) == before.draft@.rule(other)
                } else {
                    &&& text_of(self.error) == Some(full_message())
                    &&& self.draft == before.draft
                    &&& self.search == before.search
                    &&& self.new_id == before.new_id
                }
            },
        }
    }

    /// Adds the spell whose id was typed, tracked by its casts in this group; `parsed` is
    /// what was read of the typed text.
    pub fn add_spell(&mut self, parsed: Result<u64, String>)
        ensures
            final(self).added_from(*old(self), parsed),
            old(self).draft.overrides@.len() <= MAX_OVERRIDES ==> final(self).draft.overrides@.len()
                <= MAX_OVERRIDES,
    {
        match parsed {
            Err(message) => {
                self.error = Some(message);
            },
            Ok(id) => {
                self.error = None;
                let group = self.group;
                self.apply_rule(id, Rule { group: Some(group), observation: Observation::Cast });
                if self.error.is_none() {
                    self.search = decimal_text(id);
                    self.new_id = String::new();
                }
            },
        }
    }

    /// Whether a reset of this group's spells concerns a spell.
    pub open spec fn in_group(self, id: u64) -> bool {
        self.spec_category(id) == self.group || (spell_of(self.draft@.catalog, id) is Some && spell_of(
            self.draft@.catalog,
            id,
        )->0.group == self.group)
    }

    /// Whether this is `before` with every spell of its group back to the catalogue's rule.
    pub open spec fn category_reset_from(self, before: CooldownEditor) -> bool {
        &&& forall|id: u64|
            #[trigger] at_key(self.draft@.overrides, id) == if before.in_group(id) {
                None
            } else {
                at_key(before.draft@.overrides, id)
            }
        &&& self.draft.catalog == before.draft.catalog
        &&& self.draft.hidden_groups == before.draft.hidden_groups
        &&& self.remembered_groups@ == Map::<u64, DefensiveGroup>::empty()
        &&& self.search@.len() == 0
        &&& self.error is None
        &&& self == (CooldownEditor {
            draft: self.draft,
            remembered_groups: self.remembered_groups,
            search: self.search,
            error: self.error,
            ..before
        })
    }

    /// Puts every spell of this group back to the catalogue's rule.
    pub fn reset_category(&mut self)
        ensures
            final(self).category_reset_from(*old(self)),
            final(self).draft.overrides@.len() <= old(self).draft.overrides@.len(),
    {
        let ids = self.draft.ids();
        let mut chosen: Vec<u64> = Vec::new();
        let mut i: usize = 0;
        while i < ids.len()
            invariant
                i <= ids@.len(),
                *self == *old(self),
                forall|id: u64| #[trigger] chosen@.contains(id) <==> (ids@.take(i as int).contains(id) && self.in_group(id)),
            decreases ids.len() - i,
        {
            let id: u64 = ids[i];
            let ghost before = chosen@;
            let in_catalog = match self.draft.catalog.spell(id) {
                Some(k) => self.draft.catalog.spells[k].group == self.group,
                None => false,
            };
            assert(ids@.take(i as int + 1) =~= ids@.take(i as int).push(id));
            let take = self.category(id) == self.group || in_catalog;
            if take {
                chosen.push(id);
            }
            proof {
                assert forall|x: u64| #[trigger] chosen@.contains(x) <==> (ids@.take(i as int + 1).contains(x)
                    && self.in_group(x)) by {
                    lemma_push_has(ids@.take(i as int), id, x);
                    if take {
                        assert(chosen@ =~= before.push(id));
                        lemma_push_has(before, id, x);
                    }
                    assert(before.contains(x) <==> (ids@.take(i as int).contains(x) && self.in_group(x)));
                }
            }
            i += 1;
        }
        assert(ids@.take(ids@.len() as int) =~= ids@);
        let ghost first = *self;
        let mut k: usize = 0;
        while k < chosen.len()
            invariant
                k <= chosen@.len(),
                first == *old(self),
                self.draft.catalog == first.draft.catalog,
                self.draft.hidden_groups == first.draft.hidden_groups,
                *self == (CooldownEditor { draft: self.draft, ..first }),
                self.draft.overrides@.len() <= first.draft.overrides@.len(),
                forall|id: u64|
                    #[trigger] at_key(self.draft@.overrides, id) == if chosen@.take(k as int).contains(id) {
                        None
                    } else {
                        at_key(first.draft@.overrides, id)
                    },
            decreases chosen.len() - k,
        {
            let id: u64 = chosen[k];
            let ghost before = self.draft@.overrides;
            self.draft.overrides.remove(&id);
            proof {
                assert(chosen@.take(k as int + 1) =~= chosen@.take(k as int).push(id));
                assert forall|x: u64| #[trigger] at_key(self.draft@.overrides, x) == if chosen@.take(
                    k as int + 1,
                ).contains(x) {
                    None
                } else {
                    at_key(first.draft@.overrides, x)
                } by {
                    lemma_push_has(chosen@.take(k as int), id, x);
                    assert(at_key(before, x) == if chosen@.take(k as int).contains(x) {
                        None
                    } else {
                        at_key(first.draft@.overrides, x)
                    });
                }
            }
            k += 1;
        }
        assert(chosen@.take(chosen@.len() as int) =~= chosen@);
        proof {
            assert forall|id: u64| #[trigger] at_key(self.draft@.overrides, id) == if first.in_group(id) {
                None
            } else {
                at_key(first.draft@.overrides, id)
            } by {
                assert(chosen@.contains(id) <==> (ids@.contains(id) && first.in_group(id)));
                assert(ids@.contains(id) <==> first.draft@.knows(id));
            }
        }
        self.remembered_groups = BTreeMap::new();
        self.search = String::new();
        self.error = None;
    }

    // ------------------------------------------------------------ the list

    /// Whether the list shows a spell for the lower-case search text.
    pub open spec fn lists(self, id: u64, search: Seq<char>) -> bool {
        &&& self.draft@.knows(id)
        &&& self.spec_category(id) == self.group
        &&& spell_mentioned(
            search,
            id,
            match spell_of(self.draft@.catalog, id) {
                Some(spell) => Some(lowercase(spell.name)),
                None => None,
            },
            if self.observed_names@.contains_key(id) { self.observed_names@[id].search@ } else { Seq::empty() },
        )
    }

    /// The order of the list: by name, then by id.
    pub open spec fn listed_before(self, a: u64, b: u64) -> bool {
        text_less(self.spec_name(a), self.spec_name(b)) || (self.spec_name(a) == self.spec_name(b) && a < b)
    }

    fn is_listed(&self, id: u64, search: &str) -> (yes: bool)
        requires
            self.draft@.knows(id),
        ensures
            yes == self.lists(id, search@),
    {
        if self.category(id) != self.group {
            return false;
        }
        let name = match self.draft.catalog.spell(id) {
            Some(i) => Some(to_lowercase(&self.draft.catalog.spells[i].name)),
            None => None,
        };
        match self.observed_names.get(&id) {
            Some(seen) => mentions_spell(search, id, &name, &seen.search),
            None => {
                let unseen: Vec<String> = Vec::new();
                assert(unseen@ =~= Seq::<String>::empty());
                mentions_spell(search, id, &name, &unseen)
            },
        }
    }

    fn comes_first(&self, a: u64, b: u64) -> (yes: bool)
        ensures
            yes == self.listed_before(a, b),
    {
        proof {
            lemma_text_order_total(self.spec_name(a), self.spec_name(b));
        }
        match rank_texts(&self.name(a), &self.name(b)) {
            Rank::Before => true,
            Rank::Same => a < b,
            Rank::Behind => false,
        }
    }

    /// Whether these are the rows for a lower-case search text, in their order.
    pub open spec fn lists_rows(self, rows: Seq<u64>, search: Seq<char>) -> bool {
        &&& forall|i: int, j: int| 0 <= i < j < rows.len() ==> self.listed_before(#[trigger] rows[i], #[trigger] rows[j])
        &&& forall|id: u64| #[trigger] rows.contains(id) <==> self.lists(id, search)
    }

    /// The spells of this group that match the search, by name and id.
    pub fn listed(&self) -> (rows: Vec<u64>)
        ensures
            self.lists_rows(rows@, lowercase(self.search@)),
            ascii_text(self.search@) ==> self.lists_rows(rows@, small_text(self.search@)),
    {
        let search = to_lowercase(&self.search);
        let ids = self.draft.ids();
        let mut rows: Vec<u64> = Vec::new();
        let mut n: usize = 0;
        while n < ids.len()
            invariant
                n <= ids@.len(),
                ids@.no_duplicates(),
                search@ == lowercase(self.search@),
                forall|id: u64| #[trigger] ids@.contains(id) <==> self.draft@.knows(id),
                forall|i: int, j: int|
                    0 <= i < j < rows@.len() ==> self.listed_before(#[trigger] rows@[i], #[trigger] rows@[j]),
                forall|id: u64|
                    #[trigger] rows@.contains(id) <==> (ids@.take(n as int).contains(id) && self.lists(id, search@)),
            decreases ids.len() - n,
        {
            let id: u64 = ids[n];
            let ghost old_rows = rows@;
            let ghost front = ids@.take(n as int);
            assert(ids@.contains(id));
            assert(ids@.take(n as int + 1) =~= front.push(id));
            assert(!front.contains(id)) by {
                if front.contains(id) {
                    let j = choose|j: int| 0 <= j < front.len() && front[j] == id;
                    assert(ids@[j] == ids@[n as int]);
                }
            }
            if self.is_listed(id, &search) {
                let mut p: usize = 0;
                while p < rows.len() && self.comes_first(rows[p], id)
                    invariant
                        p <= rows@.len(),
                        rows@ == old_rows,
                        forall|k: int| 0 <= k < p ==> self.listed_before(#[trigger] old_rows[k], id),
                    decreases rows.len() - p,
                {
                    p += 1;
                }
                rows.insert(p, id);
                proof {
                    assert(rows@ =~= old_rows.insert(p as int, id));
                    if p < old_rows.len() {
                        assert(old_rows.contains(old_rows[p as int]));
                        assert(old_rows[p as int] != id);
                        lemma_text_order_total(self.spec_name(old_rows[p as int]), self.spec_name(id));
                        assert(self.listed_before(id, old_rows[p as int]));
                    }
                    assert forall|i: int, j: int| 0 <= i < j < rows@.len() implies self.listed_before(
                        #[trigger] rows@[i],
                        #[trigger] rows@[j],
                    ) by {
                        let a = if i < p { i } else { i - 1 };
                        let b = if j < p { j } else { j - 1 };
                        if i != p {
                            assert(rows@[i] == old_rows[a]);
                        }
                        if j != p {
                            assert(rows@[j] == old_rows[b]);
                        }
                        if i == p && b > p {
                            lemma_listed_transitive(*self, id, old_rows[p as int], old_rows[b]);
                        }
                    }
                }
            }
            proof {
                assert forall|x: u64| #[trigger] rows@.contains(x) <==> (ids@.take(n as int + 1).contains(x)
                    && self.lists(x, search@)) by {
                    lemma_push_has(front, id, x);
                    assert(old_rows.contains(x) <==> (front.contains(x) && self.lists(x, search@)));
                    if rows@ != old_rows {
                        lemma_insert_has(old_rows, rows@, id, x);
                    }
                }
            }
            n += 1;
        }
        assert(ids@.take(ids@.len() as int) =~= ids@);
        rows
    }

    /// How many of the listed spells are tracked.
    pub fn tracked_count(&self, rows: &Vec<u64>) -> (count: usize)
        ensures
            count == tracked_in(self.draft@, rows@),
            count <= rows@.len(),
    {
        let mut count: usize = 0;
        let mut i: usize = 0;
        while i < rows.len()
            invariant
                i <= rows@.len(),
                count <= i,
                count == tracked_in(self.draft@, rows@.take(i as int)),
            decreases rows.len() - i,
        {
            assert(rows@.take(i as int + 1).drop_last() =~= rows@.take(i as int));
            if self.draft.classify(rows[i]).is_some() {
                count += 1;
            }
            i += 1;
        }
        assert(rows@.take(rows@.len() as int) =~= rows@);
        count
    }
}

pub open spec fn any_occurs(list: Seq<String>, search: Seq<char>) -> bool {
    exists|m: int| 0 <= m < list.len() && occurs((#[trigger] list[m])@, search)
}

fn some_occurs(list: &Vec<String>, search: &str) -> (found: bool)
    ensures
        found == any_occurs(list@, search@),
{
    let mut i: usize = 0;
    while i < list.len()
        invariant
            i <= list@.len(),
            forall|j: int| 0 <= j < i ==> !occurs((#[trigger] list@[j])@, search@),
        decreases list.len() - i,
    {
        if contains(&list[i], search) {
            return true;
        }
        i += 1;
    }
    false
}

/// How many of these spells are tracked.
pub open spec fn tracked_in(preferences: PreferencesView, ids: Seq<u64>) -> nat
    decreases ids.len(),
{
    if ids.len() == 0 {
        0
    } else {
        tracked_in(preferences, ids.drop_last()) + if preferences.classify(ids.last()) is Some { 1nat } else { 0nat }
    }
}

proof fn lemma_push_has(s: Seq<u64>, x: u64, y: u64)
    ensures
        s.push(x).contains(y) <==> (s.contains(y) || x == y),
{
    if s.contains(y) {
        let i = choose|i: int| 0 <= i < s.len() && s[i] == y;
        assert(s.push(x)[i] == y);
    }
    if x == y {
        assert(s.push(x)[s.len() as int] == y);
    }
    if s.push(x).contains(y) && x != y {
        let i = choose|i: int| 0 <= i < s.push(x).len() && s.push(x)[i] == y;
        assert(s[i] == y);
    }
}

proof fn lemma_insert_has(s: Seq<u64>, t: Seq<u64>, x: u64, y: u64)
    requires
        exists|p: int| 0 <= p <= s.len() && t == #[trigger] s.insert(p, x),
    ensures
        t.contains(y) <==> (s.contains(y) || x == y),
{
    let p = choose|p: int| 0 <= p <= s.len() && t == #[trigger] s.insert(p, x);
    if s.contains(y) {
        let i = choose|i: int| 0 <= i < s.len() && s[i] == y;
        if i < p {
            assert(t[i] == y);
        } else {
            assert(t[i + 1] == y);
        }
    }
    if x == y {
        assert(t[p] == y);
    }
    if t.contains(y) && x != y {
        let i = choose|i: int| 0 <= i < t.len() && t[i] == y;
        if i < p {
            assert(s[i] == y);
        } else {
            assert(s[i - 1] == y);
        }
    }
}

proof fn lemma_listed_transitive(editor: CooldownEditor, a: u64, b: u64, c: u64)
    requires
        editor.listed_before(a, b),
        editor.listed_before(b, c),
    ensures
        editor.listed_before(a, c),
{
    if text_less(editor.spec_name(a), editor.spec_name(b)) && text_less(editor.spec_name(b), editor.spec_name(c)) {
        lemma_text_order_transitive(editor.spec_name(a), editor.spec_name(b), editor.spec_name(c));
    }
}

// ---------------------------------------------------------------- laws

/// Setting a spell to any rule and back to the catalogue's own leaves no change behind.
pub proof fn restoring_the_default_leaves_no_change(
    before: CooldownEditor,
    changed: CooldownEditor,
    restored: CooldownEditor,
    id: u64,
    rule: Rule,
    default: Rule,
)
    requires
        !before.draft@.overrides.dom().contains(id),
        catalog_rule(before.draft@.catalog, id) == Some(default),
        changed.ruled_from(before, id, rule),
        restored.ruled_from(changed, id, default),
    ensures
        restored.draft@ == before.draft@,
{
    let overrides = before.draft@.overrides;
    assert(overrides.insert(id, rule).remove(id) =~= overrides);
    assert(overrides.remove(id) =~= overrides);
}

/// A name that the events show is that of the spell's first event, and every name of the spell can
/// be searched, in lower case; a spell without an event has none.
pub proof fn spells_are_named_by_their_events(
    names: Map<u64, ObservedSpellName>,
    events: Seq<RaidEvent>,
    i: int,
    id: u64,
)
    requires
        indexed(names, events),
        0 <= i < events.len(),
    ensures
        names.contains_key(events[i].ability_id),
        has_text(names[events[i].ability_id].search@, lowercase(events[i].ability@)),
        forall|a: int, b: int|
            0 <= a < b < names[events[i].ability_id].search@.len() ==> (#[trigger] names[events[i].ability_id].search@[a])@
                != (#[trigger] names[events[i].ability_id].search@[b])@,
        (forall|j: int| 0 <= j < i ==> (#[trigger] events[j]).ability_id != events[i].ability_id)
            ==> names[events[i].ability_id].display@ == events[i].ability@,
        (forall|j: int| 0 <= j < events.len() ==> (#[trigger] events[j]).ability_id != id) ==> !names.contains_key(id),
{
    lemma_first(events, events[i].ability_id);
    lemma_first(events, id);
    assert(name_seen(events, events[i].ability_id, lowercase(events[i].ability@)));
    assert(names_spell(names[events[i].ability_id], events[i].ability_id, events));
}

/// The first event of a spell is one of it, and none before it is.
proof fn lemma_first(events: Seq<RaidEvent>, id: u64)
    ensures
        match first_event(events, id) {
            Some(i) => 0 <= i < events.len() && events[i].ability_id == id && forall|j: int|
                0 <= j < i ==> (#[trigger] events[j]).ability_id != id,
            None => forall|j: int| 0 <= j < events.len() ==> (#[trigger] events[j]).ability_id != id,
        },
    decreases events.len(),
{
    if events.len() > 0 {
        let front = events.drop_last();
        lemma_first(front, id);
        assert(events.last() == events[events.len() - 1]);
        assert forall|j: int| 0 <= j < front.len() implies front[j] == #[trigger] events[j] by {}
    }
}

/// A search finds a spell by a part of its number, of its name in the catalogue, or of a name under
/// which it was seen, and by nothing else; an empty one finds every spell.
pub proof fn spells_are_found_by_number_or_name(search: Seq<char>, id: u64, name: Seq<char>, seen: Seq<String>, m: int)
    ensures
        search.len() == 0 ==> spell_mentioned(search, id, None, seen),
        occurs(decimal(id as nat), search) ==> spell_mentioned(search, id, None, seen),
        occurs(name, search) ==> spell_mentioned(search, id, Some(name), seen),
        0 <= m < seen.len() && occurs(seen[m]@, search) ==> spell_mentioned(search, id, None, seen),
        search.len() > 0 && !occurs(decimal(id as nat), search) && !occurs(name, search) && (forall|k: int|
            0 <= k < seen.len() ==> !occurs((#[trigger] seen[k])@, search)) ==> !spell_mentioned(
            search,
            id,
            Some(name),
            seen,
        ),
{
}

/// A spell is listed under the group that tracks it; one that is not tracked where it was, where
/// the catalogue has it, or with the healing spells.
pub proof fn spells_stay_in_their_group(editor: CooldownEditor, id: u64)
    ensures
        editor.draft@.classify(id) is Some ==> Some(editor.spec_category(id)) == editor.draft@.classify(id),
        editor.draft@.classify(id) is None && editor.remembered_groups@.dom().contains(id) ==> editor.spec_category(id)
            == editor.remembered_groups@[id],
        editor.draft@.classify(id) is None && !editor.remembered_groups@.dom().contains(id) && spell_of(
            editor.draft@.catalog,
            id,
        ) is Some ==> editor.spec_category(id) == spell_of(editor.draft@.catalog, id)->0.group,
        editor.draft@.classify(id) is None && !editor.remembered_groups@.dom().contains(id) && spell_of(
            editor.draft@.catalog,
            id,
        ) is None ==> editor.spec_category(id) == DefensiveGroup::Healing,
        editor.observed_names@.contains_key(id) ==> editor.spec_name(id) == editor.observed_names@[id].display@,
        !editor.observed_names@.contains_key(id) && spell_of(editor.draft@.catalog, id) is Some ==> editor.spec_name(id)
            == spell_of(editor.draft@.catalog, id)->0.name,
{
}

/// A rule that was set holds, and no other spell's changes; one like the catalogue's takes no room.
/// Where up to 128 changes are made, no further spell can be changed: the draft stays, with a
/// message.
pub proof fn rules_hold_once_set(before: CooldownEditor, after: CooldownEditor, id: u64, rule: Rule, other: u64)
    requires
        after.ruled_from(before, id, rule),
    ensures
        catalog_rule(before.draft@.catalog, id) == Some(rule) || before.draft@.overrides.dom().contains(id)
            || before.draft@.overrides.len() < 128 ==> after.draft@.rule(id) == Some(rule) && after.error == before.error,
        other != id ==> after.draft@.rule(other) == before.draft@.rule(other),
        catalog_rule(before.draft@.catalog, id) == Some(rule) ==> !after.draft@.overrides.dom().contains(id),
        catalog_rule(before.draft@.catalog, id) != Some(rule) && !before.draft@.overrides.dom().contains(id)
            && before.draft@.overrides.len() >= 128 ==> after.draft == before.draft && after.error is Some
            && after.remembered_groups@ == before.remembered_groups@,
        catalog_rule(before.draft@.catalog, id) != Some(rule) && (before.draft@.overrides.dom().contains(id)
            || before.draft@.overrides.len() < 128) && rule.group is Some ==> at_key(after.remembered_groups@, id)
            == rule.group,
        rule.group is None ==> after.remembered_groups@ == before.remembered_groups@,
        other != id ==> at_key(after.remembered_groups@, other) == at_key(before.remembered_groups@, other),
        after.draft@.hidden == before.draft@.hidden && after.draft@.catalog == before.draft@.catalog,
{
}

/// A spell that is unticked is no longer tracked, and ticking it again tracks it in the group that
/// it was in, by the same evidence.
pub proof fn ticking_again_restores_the_group(
    before: CooldownEditor,
    off: CooldownEditor,
    on: CooldownEditor,
    id: u64,
)
    requires
        before.draft@.rule(id) is Some && before.draft@.rule(id)->0.group is Some,
        before.draft@.overrides.dom().finite() && before.draft@.overrides.len() < 128,
        off.tracked_from(before, id, false),
        on.tracked_from(off, id, true),
    ensures
        off.draft@.rule(id)->0.group is None,
        on.draft@.rule(id) == before.draft@.rule(id),
        on.error == before.error,
{
}

/// Ticking a spell changes only whether it is tracked: its evidence, and every other spell, stay.
pub proof fn ticking_changes_one_spell(before: CooldownEditor, after: CooldownEditor, id: u64, wanted: bool, other: u64)
    requires
        before.draft@.rule(id) is Some,
        after.tracked_from(before, id, wanted),
    ensures
        before.draft@.overrides.dom().contains(id) || before.draft@.overrides.len() < 128 ==> after.draft@.rule(id) is Some
            && after.draft@.rule(id)->0.group == (if wanted { Some(before.spec_category(id)) } else { None })
            && after.draft@.rule(id)->0.observation == before.draft@.rule(id)->0.observation && after.error
            == before.error,
        other != id ==> after.draft@.rule(other) == before.draft@.rule(other),
        at_key(after.remembered_groups@, id) == Some(before.spec_category(id)),
{
}

/// Moving a spell changes only its group, whether it is tracked or not; a move to where it is
/// changes nothing.
pub proof fn moving_changes_only_the_group(
    before: CooldownEditor,
    after: CooldownEditor,
    id: u64,
    group: DefensiveGroup,
    other: u64,
)
    requires
        before.draft@.rule(id) is Some,
        after.recategorised_from(before, id, group),
    ensures
        group == before.spec_category(id) ==> after == before,
        group != before.spec_category(id) ==> at_key(after.remembered_groups@, id) == Some(group),
        before.draft@.rule(id)->0.group is None ==> after.draft == before.draft && after.error == before.error,
        group != before.spec_category(id) && before.draft@.rule(id)->0.group is Some && (
        before.draft@.overrides.dom().contains(id) || before.draft@.overrides.len() < 128) ==> after.draft@.rule(id) is Some
            && after.draft@.rule(id)->0.group == Some(group) && after.draft@.rule(id)->0.observation
            == before.draft@.rule(id)->0.observation,
        other != id ==> after.draft@.rule(other) == before.draft@.rule(other),
{
}

/// Other evidence for a spell changes neither its group nor another spell.
pub proof fn evidence_changes_one_spell(
    before: CooldownEditor,
    after: CooldownEditor,
    id: u64,
    observation: Observation,
    other: u64,
)
    requires
        before.draft@.rule(id) is Some,
        after.reobserved_from(before, id, observation),
    ensures
        before.draft@.overrides.dom().contains(id) || before.draft@.overrides.len() < 128 ==> after.draft@.rule(id) is Some
            && after.draft@.rule(id)->0.observation == observation && after.draft@.rule(id)->0.group
            == before.draft@.rule(id)->0.group,
        other != id ==> after.draft@.rule(other) == before.draft@.rule(other),
{
}

/// A spell that is reset has the catalogue's rule again, and no other spell changes.
pub proof fn reset_spells_follow_the_catalogue(before: CooldownEditor, after: CooldownEditor, id: u64, other: u64)
    requires
        after.spell_reset_from(before, id),
    ensures
        after.draft@.rule(id) == catalog_rule(before.draft@.catalog, id),
        !after.draft@.overrides.dom().contains(id) && !after.remembered_groups@.dom().contains(id),
        other != id ==> after.draft@.rule(other) == before.draft@.rule(other),
        after.draft@.hidden == before.draft@.hidden && after.error == before.error && after.search == before.search,
{
}

/// A spell that was typed is tracked by its casts in the group on show, and the list then searches
/// for it; a text that is no spell, or one too many, leaves the draft and the text, with a message.
pub proof fn typed_spells_are_tracked(before: CooldownEditor, after: CooldownEditor, parsed: Result<u64, String>)
    requires
        after.added_from(before, parsed),
    ensures
        parsed is Err ==> after.draft == before.draft && after.error == Some(parsed->Err_0) && after.new_id
            == before.new_id && after.search == before.search,
        parsed is Ok && (before.draft@.overrides.dom().contains(parsed->Ok_0) || before.draft@.overrides.len() < 128) ==> {
            &&& after.draft@.rule(parsed->Ok_0) is Some && after.draft@.rule(parsed->Ok_0)->0.group == Some(before.group)
                && after.draft@.rule(parsed->Ok_0)->0.observation == Observation::Cast
            &&& after.error is None && after.new_id@.len() == 0 && after.search@ == decimal(parsed->Ok_0 as nat)
        },
        parsed is Ok && after.error is Some ==> after.draft == before.draft && after.new_id == before.new_id,
        after.group == before.group && after.draft@.hidden == before.draft@.hidden,
{
}

/// A group that is reset has the catalogue's rules again; the changed spells of other groups keep
/// their changes, and the search is empty.
pub proof fn reset_groups_follow_the_catalogue(before: CooldownEditor, after: CooldownEditor, id: u64)
    requires
        after.category_reset_from(before),
    ensures
        before.spec_category(id) == before.group ==> after.draft@.rule(id) == catalog_rule(before.draft@.catalog, id),
        before.spec_category(id) != before.group && (spell_of(before.draft@.catalog, id) is None || spell_of(
            before.draft@.catalog,
            id,
        )->0.group != before.group) ==> after.draft@.rule(id) == before.draft@.rule(id),
        after.search@.len() == 0 && after.error is None && after.group == before.group,
        after.draft@.hidden == before.draft@.hidden,
{
    let was = at_key(before.draft@.overrides, id);
    let is = at_key(after.draft@.overrides, id);
    assert(is == if before.in_group(id) { None } else { was });
}

/// The list shows each spell of its group that the search finds, once, by name and number.
pub proof fn lists_are_by_name(editor: CooldownEditor, rows: Seq<u64>, search: Seq<char>, i: int, j: int, id: u64)
    requires
        editor.lists_rows(rows, search),
        0 <= i < j < rows.len(),
    ensures
        rows[i] != rows[j],
        !text_less(editor.spec_name(rows[j]), editor.spec_name(rows[i])),
        editor.spec_name(rows[i]) == editor.spec_name(rows[j]) ==> rows[i] < rows[j],
        editor.spec_category(rows[i]) == editor.group && editor.draft@.knows(rows[i]),
        search.len() == 0 && editor.draft@.knows(id) && editor.spec_category(id) == editor.group ==> rows.contains(id),
{
    assert(editor.listed_before(rows[i], rows[j]));
    lemma_text_order_total(editor.spec_name(rows[i]), editor.spec_name(rows[j]));
    lemma_text_order_total(editor.spec_name(rows[i]), editor.spec_name(rows[i]));
    assert(rows.contains(rows[i]));
}

/// Each listed spell that is tracked counts once.
pub proof fn tracked_spells_are_counted(preferences: PreferencesView, ids: Seq<u64>, id: u64)
    ensures
        tracked_in(preferences, Seq::empty()) == 0,
        tracked_in(preferences, ids.push(id)) == tracked_in(preferences, ids) + (if preferences.classify(id) is Some {
            1int
        } else {
            0
        }),
        tracked_in(preferences, ids) <= ids.len(),
    decreases ids.len(),
{
    assert(ids.push(id).drop_last() =~= ids);
    if ids.len() > 0 {
        tracked_spells_are_counted(preferences, ids.drop_last(), id);
    }
}

} // verus!
