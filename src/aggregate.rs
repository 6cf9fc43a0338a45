use vstd::prelude::*;
use vstd::string::StringExecFns;

use crate::catalog::{copy_ids, has_season, season_table, completed_count, completed_in, CatalogError, Quest, QuestCatalog, Season, SeasonIndex, catalog_with};
use crate::document::Output;
use crate::options::{
    game_name, table_insert, OptionGroup, OptionValue, Trigger, TriggerModel, ValueModel,
    WeightTable, weight_of,
};
use crate::storyline::{all_storylines, Storyline, STORYLINE_COUNT};
use crate::text::{decimal, decimal_text};

verus! {

/// Weight given to a character, a profession or a race when nothing else is said.
pub const DEFAULT_WEIGHT: u32 = 50;

pub fn default_weight() -> (r: u32)
    ensures
        r == DEFAULT_WEIGHT,
{
    DEFAULT_WEIGHT
}

/// A character record of the remote account.
pub struct Character {
    pub name: String,
    pub race: String,
    pub profession: String,
}

/// What the user asks for one character: its weight, and optionally the
/// storylines to offer with their weights, by storyline key.
pub struct CharacterInput {
    pub weight: u32,
    pub storyline: Option<WeightTable>,
}

impl CharacterInput {
    pub open spec fn wf(&self) -> bool {
        match self.storyline {
            Some(t) => t.wf(),
            None => true,
        }
    }

    pub open spec fn overrides(&self) -> Option<Seq<(Seq<char>, u32)>> {
        match self.storyline {
            Some(t) => Some(t@),
            None => None,
        }
    }
}

/// What is known of a character once the remote account has been consulted.
pub struct CharacterProgress {
    pub profession: String,
    pub race: String,
    pub completed: Option<Vec<u32>>,
}

/// Profession, race and completed quest ids, as data.
pub type ProgressModel = (Seq<char>, Seq<char>, Option<Seq<u32>>);

/// Whether a fetched completed-quest list, when present, names each quest once.
pub open spec fn ids_distinct(ids: Option<Vec<u32>>) -> bool {
    match ids {
        Some(v) => v@.no_duplicates(),
        None => true,
    }
}

pub open spec fn ids_view(ids: Option<Vec<u32>>) -> Option<Seq<u32>> {
    match ids {
        Some(v) => Some(v@),
        None => None,
    }
}

impl CharacterProgress {
    /// The completed quests form a set: no id twice.
    pub open spec fn wf(&self) -> bool {
        ids_distinct(self.completed)
    }

    pub open spec fn completed_ids(&self) -> Option<Seq<u32>> {
        ids_view(self.completed)
    }
}

impl View for CharacterProgress {
    type V = ProgressModel;

    open spec fn view(&self) -> ProgressModel {
        (self.profession@, self.race@, self.completed_ids())
    }
}

pub open spec fn progress_views(v: Seq<CharacterProgress>) -> Seq<ProgressModel> {
    Seq::new(v.len(), |i: int| v[i]@)
}

/// Label used for a profession or race that is not known.
pub open spec fn random_label() -> Seq<char> {
    "random"@
}

/// The weight a storyline gets: its default when the user gave no storyline
/// map, else the weight the map gives its key, and none when the key is absent.
pub open spec fn storyline_weight(overrides: Option<Seq<(Seq<char>, u32)>>, s: Storyline) -> Option<u32> {
    match overrides {
        None => Some(s.spec_default_weight()),
        Some(t) => weight_of(t, s.spec_key()),
    }
}

/// The storylines of `list` that get a weight, with that weight, in the order of `list`.
pub open spec fn included(list: Seq<Storyline>, overrides: Option<Seq<(Seq<char>, u32)>>) -> Seq<(Storyline, u32)>
    decreases list.len(),
{
    if list.len() == 0 {
        Seq::empty()
    } else {
        let prev = included(list.drop_last(), overrides);
        match storyline_weight(overrides, list.last()) {
            Some(w) => prev.push((list.last(), w)),
            None => prev,
        }
    }
}

/// Completed quests of a character that count toward a season; none when
/// the character's completions are unknown.
pub open spec fn progress_count(completed: Option<Seq<u32>>, catalog: Map<u32, u32>, stories: Seq<u32>) -> nat {
    match completed {
        None => 0,
        Some(c) => completed_in(c, catalog, stories),
    }
}

/// The option value that names a storyline for a character.
pub open spec fn composite_key(s: Storyline, name: Seq<char>) -> Seq<char> {
    s.spec_key() + " "@ + name
}

/// Quests left in a storyline; below zero when more were counted than it has.
pub open spec fn remaining_quests(s: Storyline, count: nat) -> int {
    s.spec_max_quests() - count
}

/// Sets each entry's weight in turn.
pub open spec fn insert_all(t: Seq<(Seq<char>, u32)>, entries: Seq<(Seq<char>, u32)>) -> Seq<(Seq<char>, u32)>
    decreases entries.len(),
{
    if entries.len() == 0 {
        t
    } else {
        table_insert(insert_all(t, entries.drop_last()), entries.last().0, entries.last().1)
    }
}

/// The storyline choices of a character's trigger.
pub open spec fn storyline_entries(inc: Seq<(Storyline, u32)>, name: Seq<char>) -> Seq<(Seq<char>, u32)> {
    Seq::new(inc.len(), |i: int| (composite_key(inc[i].0, name), inc[i].1))
}

/// The trigger that applies to one storyline of a character.
pub open spec fn storyline_trigger(s: Storyline, name: Seq<char>, remaining: int) -> TriggerModel {
    TriggerModel {
        category: game_name(),
        name: "storyline"@,
        result: composite_key(s, name),
        options: seq![(game_name(), seq![
            ("max_quests"@, ValueModel::Value(decimal_text(remaining))),
            ("storyline"@, ValueModel::Value(s.spec_key())),
        ])],
    }
}

/// The trigger that applies when a character is chosen.
pub open spec fn character_trigger(
    name: Seq<char>,
    profession: Seq<char>,
    race: Seq<char>,
    storylines: Seq<(Seq<char>, u32)>,
) -> TriggerModel {
    TriggerModel {
        category: game_name(),
        name: "character"@,
        result: name,
        options: seq![(game_name(), seq![
            ("character_profession"@, ValueModel::Table(seq![(profession, DEFAULT_WEIGHT)])),
            ("character_race"@, ValueModel::Table(seq![(race, DEFAULT_WEIGHT)])),
            ("storyline"@, ValueModel::Table(storylines)),
        ])],
    }
}

/// The storyline triggers of a character, one per included storyline.
pub open spec fn storyline_triggers(
    inc: Seq<(Storyline, u32)>,
    name: Seq<char>,
    completed: Option<Seq<u32>>,
    catalog: Map<u32, u32>,
    seasons: Seq<Seq<u32>>,
) -> Seq<TriggerModel> {
    Seq::new(inc.len(), |i: int| storyline_trigger(
        inc[i].0,
        name,
        remaining_quests(inc[i].0, progress_count(completed, catalog, seasons[inc[i].0.spec_index()])),
    ))
}

/// The triggers of one character: its character trigger, then one trigger
/// per included storyline in enumeration order.
pub open spec fn group_triggers(
    name: Seq<char>,
    overrides: Option<Seq<(Seq<char>, u32)>>,
    profession: Seq<char>,
    race: Seq<char>,
    completed: Option<Seq<u32>>,
    catalog: Map<u32, u32>,
    seasons: Seq<Seq<u32>>,
) -> Seq<TriggerModel> {
    let inc = included(all_storylines(), overrides);
    seq![character_trigger(name, profession, race, insert_all(Seq::empty(), storyline_entries(inc, name)))]
        + storyline_triggers(inc, name, completed, catalog, seasons)
}

pub open spec fn triggers_view(v: Seq<Trigger>) -> Seq<TriggerModel> {
    Seq::new(v.len(), |i: int| v[i]@)
}

/// The first remote record with this name.
pub fn find_character(characters: &Vec<Character>, name: &String) -> (r: Option<usize>)
    ensures
        match r {
            Some(i) => i < characters@.len() && characters@[i as int].name@ == name@
                && forall|j: int| 0 <= j < i ==> #[trigger] characters@[j].name@ != name@,
            None => forall|j: int| 0 <= j < characters@.len() ==> #[trigger] characters@[j].name@ != name@,
        },
{
    let mut i: usize = 0;
    while i < characters.len()
        invariant
            i <= characters@.len(),
            forall|j: int| 0 <= j < i ==> #[trigger] characters@[j].name@ != name@,
        decreases characters@.len() - i,
    {
        if characters[i].name == *name {
            return Some(i);
        }
        i = i + 1;
    }
    None
}

/// Profession, race and completions of a character: those of its remote
/// record when it has one, else `random` twice and no completions.
pub fn resolve_progress(found: Option<&Character>, completed: Option<Vec<u32>>) -> (r: CharacterProgress)
    requires
        ids_distinct(completed),
    ensures
        r.wf(),
        match found {
            Some(c) => r.profession@ == c.profession@ && r.race@ == c.race@ && r.completed == completed,
            None => r.profession@ == random_label() && r.race@ == random_label() && r.completed is None,
        },
{
    match found {
        Some(c) => CharacterProgress {
            profession: c.profession.clone(),
            race: c.race.clone(),
            completed,
        },
        None => CharacterProgress {
            profession: String::from_str("random"),
            race: String::from_str("random"),
            completed: None,
        },
    }
}

/// The weight a storyline gets for a character, if it is offered at all.
pub fn storyline_weight_for(input: &CharacterInput, s: Storyline) -> (r: Option<u32>)
    requires
        input.wf(),
    ensures
        r == storyline_weight(input.overrides(), s),
{
    match &input.storyline {
        Some(t) => t.get(&String::from_str(s.snake_case())),
        None => Some(s.default_weight()),
    }
}

/// How many of the character's completed quests belong to a storyline.
fn count_for(progress: &CharacterProgress, catalog: &QuestCatalog, seasons: &SeasonIndex, s: Storyline) -> (r: usize)
    requires
        progress.wf(),
        seasons.wf(),
    ensures
        r == progress_count(progress.completed_ids(), catalog@, seasons@[s.spec_index()]),
{
    match &progress.completed {
        Some(c) => completed_count(c, catalog, seasons.stories(s)),
        None => 0,
    }
}

fn make_storyline_trigger(s: Storyline, key: String, remaining: i128) -> (r: Trigger)
    ensures
        r@ == (TriggerModel {
            category: game_name(),
            name: "storyline"@,
            result: key@,
            options: seq![(game_name(), seq![
                ("max_quests"@, ValueModel::Value(decimal_text(remaining as int))),
                ("storyline"@, ValueModel::Value(s.spec_key())),
            ])],
        }),
{
    let mut t = Trigger::new(String::from_str("storyline"), key);
    let mut g = OptionGroup::new();
    g.push("max_quests", OptionValue::Value(decimal(remaining)));
    g.push("storyline", OptionValue::Value(String::from_str(s.snake_case())));
    t.push_group("Guild Wars 2", g);
    assert(t@.options[0].1 =~= seq![
        ("max_quests"@, ValueModel::Value(decimal_text(remaining as int))),
        ("storyline"@, ValueModel::Value(s.spec_key())),
    ]);
    assert(t@.options =~= seq![(game_name(), t@.options[0].1)]);
    t
}

fn single_table(label: String) -> (r: OptionValue)
    ensures
        r@ == ValueModel::Table(seq![(label@, DEFAULT_WEIGHT)]),
{
    let mut t = WeightTable::new();
    t.insert(label, default_weight());
    assert(t@ =~= seq![(t@[0].0, DEFAULT_WEIGHT)]);
    OptionValue::Table(t)
}

/// The triggers of one selected character: its character trigger first,
/// then one trigger per offered storyline, in enumeration order.
pub fn character_triggers(
    name: &String,
    input: &CharacterInput,
    progress: &CharacterProgress,
    catalog: &QuestCatalog,
    seasons: &SeasonIndex,
) -> (r: Vec<Trigger>)
    requires
        input.wf(),
        progress.wf(),
        seasons.wf(),
    ensures
        triggers_view(r@) == group_triggers(
            name@,
            input.overrides(),
            progress.profession@,
            progress.race@,
            progress.completed_ids(),
            catalog@,
            seasons@,
        ),
{
    let ghost ov = input.overrides();
    let ghost done = progress.completed_ids();
    let all = Storyline::all();
    let mut table = WeightTable::new();
    let mut subs: Vec<Trigger> = Vec::new();
    let mut k: usize = 0;
    while k < all.len()
        invariant
            all@ == all_storylines(),
            k <= all@.len(),
            input.wf(),
            progress.wf(),
            seasons.wf(),
            ov == input.overrides(),
            done == progress.completed_ids(),
            table.wf(),
            table@ == insert_all(Seq::empty(), storyline_entries(included(all@.subrange(0, k as int), ov), name@)),
            triggers_view(subs@) == storyline_triggers(
                included(all@.subrange(0, k as int), ov), name@, done, catalog@, seasons@),
        decreases all@.len() - k,
    {
        let s = all[k];
        let ghost prev = included(all@.subrange(0, k as int), ov);
        proof {
            assert(all@.subrange(0, k + 1).drop_last() =~= all@.subrange(0, k as int));
        }
        match storyline_weight_for(input, s) {
            Some(w) => {
                let mut key = String::from_str(s.snake_case());
                key.append(" ");
                key.append(name.as_str());
                table.insert(key.clone(), w);
                let count = count_for(progress, catalog, seasons, s);
                let remaining = s.max_quests() as i128 - count as i128;
                let ghost key_view = key@;
                let t = make_storyline_trigger(s, key, remaining);
                let ghost before = triggers_view(subs@);
                let ghost old_subs = subs@;
                assert(before.len() == old_subs.len());
                assert(storyline_triggers(prev, name@, done, catalog@, seasons@).len() == prev.len());
                subs.push(t);
                proof {
                    assert(subs@ == old_subs.push(t));
                    assert(subs@.len() == prev.len() + 1);
                    let inc = prev.push((s, w));
                    assert(key_view == composite_key(s, name@));
                    assert(remaining as int == remaining_quests(s, progress_count(done, catalog@, seasons@[s.spec_index()])));
                    assert(subs@[subs@.len() - 1]@ == storyline_trigger(s, name@, remaining as int));
                    assert forall|i: int| 0 <= i < prev.len() implies triggers_view(subs@)[i]
                        == storyline_triggers(inc, name@, done, catalog@, seasons@)[i] by {
                        assert(subs@[i] == old_subs[i]);
                        assert(triggers_view(subs@)[i] == subs@[i]@);
                        assert(before[i] == old_subs[i]@);
                        assert(before[i] == storyline_triggers(prev, name@, done, catalog@, seasons@)[i]);
                        assert(inc[i] == prev[i]);
                    }
                    assert(included(all@.subrange(0, k + 1), ov) == inc);
                    assert(storyline_entries(inc, name@).drop_last() =~= storyline_entries(prev, name@));
                    assert(triggers_view(subs@) =~= storyline_triggers(inc, name@, done, catalog@, seasons@));
                }
            },
            None => {},
        }
        k = k + 1;
    }
    proof {
        assert(all@.subrange(0, all@.len() as int) =~= all@);
    }
    let mut group = OptionGroup::new();
    group.push("character_profession", single_table(progress.profession.clone()));
    group.push("character_race", single_table(progress.race.clone()));
    group.push("storyline", OptionValue::Table(table));
    let mut head = Trigger::new(String::from_str("character"), name.clone());
    head.push_group("Guild Wars 2", group);
    let ghost inc = included(all_storylines(), ov);
    proof {
        assert(head@.options[0].1 =~= character_trigger(
            name@, progress.profession@, progress.race@,
            insert_all(Seq::empty(), storyline_entries(inc, name@))).options[0].1);
        assert(head@.options =~= character_trigger(
            name@, progress.profession@, progress.race@,
            insert_all(Seq::empty(), storyline_entries(inc, name@))).options);
    }
    let mut r: Vec<Trigger> = Vec::new();
    r.push(head);
    r.append(&mut subs);
    assert(triggers_view(r@) =~= group_triggers(name@, ov, progress.profession@, progress.race@, done, catalog@, seasons@));
    r
}

/// The user's selection: the access token and the characters to weight, in
/// the order given.
pub struct Input {
    pub api_key: String,
    pub characters: Vec<(String, CharacterInput)>,
}

impl Input {
    pub open spec fn wf(&self) -> bool {
        forall|i: int| 0 <= i < self.characters@.len() ==> (#[trigger] self.characters@[i]).1.wf()
    }
}

/// The triggers of one selected character, from its progress.
pub open spec fn group_of(
    entry: (String, CharacterInput),
    progress: ProgressModel,
    catalog: Map<u32, u32>,
    seasons: Seq<Seq<u32>>,
) -> Seq<TriggerModel> {
    group_triggers(entry.0@, entry.1.overrides(), progress.0, progress.1, progress.2, catalog, seasons)
}

/// The triggers of the first `n` selected characters, group after group.
pub open spec fn all_groups(
    chars: Seq<(String, CharacterInput)>,
    progress: Seq<ProgressModel>,
    catalog: Map<u32, u32>,
    seasons: Seq<Seq<u32>>,
    n: nat,
) -> Seq<TriggerModel>
    decreases n,
{
    if n == 0 {
        Seq::empty()
    } else {
        all_groups(chars, progress, catalog, seasons, (n - 1) as nat)
            + group_of(chars[n - 1], progress[n - 1], catalog, seasons)
    }
}

/// Each selected character's name with its weight.
pub open spec fn weight_entries(chars: Seq<(String, CharacterInput)>) -> Seq<(Seq<char>, u32)> {
    Seq::new(chars.len(), |i: int| (chars[i].0@, chars[i].1.weight))
}

/// Adds one selected character to the options: its weight in the character
/// table, and its triggers after those already there.
pub fn add_character(
    out: &mut crate::document::OutputOptions,
    name: &String,
    input: &CharacterInput,
    progress: &CharacterProgress,
    catalog: &QuestCatalog,
    seasons: &SeasonIndex,
)
    requires
        old(out).wf(),
        input.wf(),
        progress.wf(),
        seasons.wf(),
    ensures
        final(out).wf(),
        final(out).character@ == table_insert(old(out).character@, name@, input.weight),
        triggers_view(final(out).triggers@) == triggers_view(old(out).triggers@) + group_triggers(
            name@,
            input.overrides(),
            progress.profession@,
            progress.race@,
            progress.completed_ids(),
            catalog@,
            seasons@,
        ),
        final(out).storyline@ == old(out).storyline@,
        final(out).character_profession@ == old(out).character_profession@,
        final(out).character_race@ == old(out).character_race@,
        final(out).standard_weights() == old(out).standard_weights(),
        final(out).required_mist_fragments == old(out).required_mist_fragments,
        final(out).extra_mist_fragments == old(out).extra_mist_fragments,
{
    out.character.insert(name.clone(), input.weight);
    let mut group = character_triggers(name, input, progress, catalog, seasons);
    let ghost before = out.triggers@;
    let ghost added = group@;
    out.triggers.append(&mut group);
    assert(triggers_view(out.triggers@) =~= triggers_view(before) + triggers_view(added));
}

/// Builds the document: the standard options, then each selected character
/// in input order, `progress[i]` being what is known of the `i`-th.
pub fn assemble(
    input: &Input,
    progress: &Vec<CharacterProgress>,
    catalog: &QuestCatalog,
    seasons: &SeasonIndex,
) -> (r: Output)
    requires
        input.wf(),
        seasons.wf(),
        progress@.len() == input.characters@.len(),
        forall|i: int| 0 <= i < progress@.len() ==> (#[trigger] progress@[i]).wf(),
    ensures
        r.game_options.wf(),
        r.game_options.character@ == insert_all(Seq::empty(), weight_entries(input.characters@)),
        triggers_view(r.game_options.triggers@) == all_groups(
            input.characters@,
            progress_views(progress@),
            catalog@,
            seasons@,
            input.characters@.len(),
        ),
        r.game_options.storyline@.len() == 0,
        r.name@ == crate::document::template_name(),
        r.description@ == crate::document::template_description(),
        r.game@ == game_name(),
        r.game_options.standard_weights(),
        r.game_options.required_mist_fragments == crate::document::REQUIRED_MIST_FRAGMENTS,
        r.game_options.extra_mist_fragments == crate::document::EXTRA_MIST_FRAGMENTS,
        r.game_options.character_profession@.len() == 0,
        r.game_options.character_race@.len() == 0,
{
    let mut out = Output::default();
    let mut i: usize = 0;
    while i < input.characters.len()
        invariant
            i <= input.characters@.len(),
            input.wf(),
            seasons.wf(),
            progress@.len() == input.characters@.len(),
            forall|i: int| 0 <= i < progress@.len() ==> (#[trigger] progress@[i]).wf(),
            out.game_options.wf(),
            out.game_options.character@ == insert_all(
                Seq::empty(), weight_entries(input.characters@.subrange(0, i as int))),
            triggers_view(out.game_options.triggers@) == all_groups(
                input.characters@, progress_views(progress@), catalog@, seasons@, i as nat),
            out.game_options.storyline@.len() == 0,
            out.name@ == crate::document::template_name(),
            out.description@ == crate::document::template_description(),
            out.game@ == game_name(),
            out.game_options.standard_weights(),
            out.game_options.required_mist_fragments == crate::document::REQUIRED_MIST_FRAGMENTS,
            out.game_options.extra_mist_fragments == crate::document::EXTRA_MIST_FRAGMENTS,
            out.game_options.character_profession@.len() == 0,
            out.game_options.character_race@.len() == 0,
        decreases input.characters@.len() - i,
    {
        let entry = &input.characters[i];
        assert(input.characters@[i as int].1.wf());
        add_character(&mut out.game_options, &entry.0, &entry.1, &progress[i], catalog, seasons);
        proof {
            assert(weight_entries(input.characters@.subrange(0, i + 1)).drop_last()
                =~= weight_entries(input.characters@.subrange(0, i as int)));
        }
        i = i + 1;
    }
    assert(input.characters@.subrange(0, input.characters@.len() as int) =~= input.characters@);
    out
}

/// Whether `i` is the first remote record named `name`.
pub open spec fn first_character(remote: Seq<Character>, name: Seq<char>, i: int) -> bool {
    &&& 0 <= i < remote.len()
    &&& remote[i].name@ == name
    &&& forall|j: int| 0 <= j < i ==> #[trigger] remote[j].name@ != name
}

/// The remote record of a character, if the account has one.
pub open spec fn remote_of(remote: Seq<Character>, name: Seq<char>) -> Option<Character> {
    if exists|i: int| first_character(remote, name, i) {
        Some(remote[choose|i: int| first_character(remote, name, i)])
    } else {
        None
    }
}

/// What is known of a character: its remote profession, race and
/// completions, or `random` twice and no completions when it has no record.
pub open spec fn resolved(remote: Seq<Character>, name: Seq<char>, completed: Option<Seq<u32>>) -> ProgressModel {
    match remote_of(remote, name) {
        Some(c) => (c.profession@, c.race@, completed),
        None => (random_label(), random_label(), None),
    }
}

/// What is known of each selected character, `completed[i]` being the
/// completions fetched for the `i`-th.
pub open spec fn resolved_all(
    chars: Seq<(String, CharacterInput)>,
    remote: Seq<Character>,
    completed: Seq<Option<Vec<u32>>>,
) -> Seq<ProgressModel> {
    Seq::new(chars.len(), |i: int| resolved(remote, chars[i].0@, ids_view(completed[i])))
}

fn copy_completed(c: &Option<Vec<u32>>) -> (r: Option<Vec<u32>>)
    ensures
        ids_distinct(*c) ==> ids_distinct(r),
        ids_view(r) == ids_view(*c),
{
    match c {
        Some(v) => Some(copy_ids(v)),
        None => None,
    }
}

/// Resolves one selected character against the remote records.
pub fn progress_of(remote: &Vec<Character>, name: &String, completed: &Option<Vec<u32>>) -> (r: CharacterProgress)
    requires
        ids_distinct(*completed),
    ensures
        r.wf(),
        r@ == resolved(remote@, name@, ids_view(*completed)),
{
    let c = copy_completed(completed);
    match find_character(remote, name) {
        Some(j) => {
            proof {
                let k = choose|k: int| first_character(remote@, name@, k);
                assert(first_character(remote@, name@, j as int));
                if k < j {
                    assert(remote@[k].name@ != name@);
                } else if k > j {
                    assert(remote@[j as int].name@ != name@);
                }
            }
            resolve_progress(Some(&remote[j]), c)
        },
        None => {
            proof {
                assert(!exists|i: int| first_character(remote@, name@, i));
            }
            resolve_progress(None, c)
        },
    }
}

/// Builds the document from the selection and everything fetched: the
/// remote character records, the completions fetched for each selected
/// character, the quest catalog and the seasons. Fails when a storyline has
/// no season.
pub fn build_output(
    input: &Input,
    remote: &Vec<Character>,
    completed: &Vec<Option<Vec<u32>>>,
    quests: &Vec<Quest>,
    seasons: &Vec<Season>,
) -> (r: Result<Output, CatalogError>)
    requires
        input.wf(),
        completed@.len() == input.characters@.len(),
        forall|i: int| 0 <= i < completed@.len() ==> ids_distinct(#[trigger] completed@[i]),
    ensures
        match r {
            Ok(out) => {
                &&& out.name@ == crate::document::template_name()
                &&& out.description@ == crate::document::template_description()
                &&& out.game@ == game_name()
                &&& out.game_options.standard_weights()
                &&& out.game_options.required_mist_fragments == crate::document::REQUIRED_MIST_FRAGMENTS
                &&& out.game_options.extra_mist_fragments == crate::document::EXTRA_MIST_FRAGMENTS
                &&& out.game_options.character_profession@.len() == 0
                &&& out.game_options.character_race@.len() == 0
                &&& out.game_options.storyline@.len() == 0
                &&& forall|k: int| 0 <= k < STORYLINE_COUNT ==> has_season(seasons@, #[trigger] all_storylines()[k])
                &&& out.game_options.wf()
                &&& out.game_options.character@ == insert_all(Seq::empty(), weight_entries(input.characters@))
                &&& triggers_view(out.game_options.triggers@) == all_groups(
                    input.characters@,
                    resolved_all(input.characters@, remote@, completed@),
                    catalog_with(Map::empty(), quests@),
                    season_table(seasons@),
                    input.characters@.len(),
                )
            },
            Err(CatalogError::MissingSeason(s)) => !has_season(seasons@, s)
                && forall|k: int| 0 <= k < s.spec_index() ==> has_season(seasons@, #[trigger] all_storylines()[k]),
        },
{
    let ix = match SeasonIndex::build(seasons) {
        Ok(ix) => ix,
        Err(e) => {
            return Err(e);
        },
    };
    assert(ix@ =~= season_table(seasons@));
    let catalog = QuestCatalog::from_quests(quests);
    let mut progress: Vec<CharacterProgress> = Vec::new();
    let mut i: usize = 0;
    while i < input.characters.len()
        invariant
            i <= input.characters@.len(),
            completed@.len() == input.characters@.len(),
            progress@.len() == i,
            forall|j: int| 0 <= j < completed@.len() ==> ids_distinct(#[trigger] completed@[j]),
            forall|j: int| 0 <= j < i ==> (#[trigger] progress@[j]).wf(),
            forall|j: int| 0 <= j < i ==> #[trigger] progress@[j]@ == resolved(
                remote@, input.characters@[j].0@, ids_view(completed@[j])),
        decreases input.characters@.len() - i,
    {
        let p = progress_of(remote, &input.characters[i].0, &completed[i]);
        progress.push(p);
        i = i + 1;
    }
    assert(progress_views(progress@) =~= resolved_all(input.characters@, remote@, completed@));
    Ok(assemble(input, &progress, &catalog, &ix))
}

} // verus!
