use vstd::prelude::*;

use crate::aggregate::{
    all_groups, composite_key, insert_all, storyline_entries, first_character, group_of, remote_of, resolved_all, group_triggers, included, progress_count, random_label,
    remaining_quests, resolved, storyline_trigger, storyline_triggers, storyline_weight, Character, CharacterInput,
    ProgressModel,
};
use crate::catalog::{catalog_with, has_season, completed_in, counts_toward, first_season, season_stories, season_table, Quest, Season};
use crate::options::{has_label, label_at, labels_unique, weight_of};
use crate::storyline::{all_storylines, Storyline, STORYLINE_COUNT};

verus! {

/// A character with no remote record resolves to a `random` profession and
/// race, and none of its quests count toward any storyline.
pub proof fn absent_character_resolves_to_random(
    remote: Seq<Character>,
    name: Seq<char>,
    completed: Option<Seq<u32>>,
    catalog: Map<u32, u32>,
    stories: Seq<u32>,
)
    requires
        forall|i: int| 0 <= i < remote.len() ==> #[trigger] remote[i].name@ != name,
    ensures
        resolved(remote, name, completed).0 == random_label(),
        resolved(remote, name, completed).1 == random_label(),
        resolved(remote, name, completed).2 is None,
        progress_count(resolved(remote, name, completed).2, catalog, stories) == 0,
{
}

proof fn lemma_storyline_positions()
    ensures
        all_storylines().len() == STORYLINE_COUNT,
        forall|k: int| 0 <= k < STORYLINE_COUNT ==> (#[trigger] all_storylines()[k]).spec_index() == k,
        forall|s: Storyline| 0 <= #[trigger] s.spec_index() < STORYLINE_COUNT
            && all_storylines()[s.spec_index()] == s,
{
}

/// The storylines included from the first `k` of the enumeration: each with
/// the weight it resolves to, in enumeration order, and every one that has a
/// weight present.
proof fn lemma_included_prefix(ov: Option<Seq<(Seq<char>, u32)>>, k: int)
    requires
        0 <= k <= STORYLINE_COUNT,
    ensures
        ({
            let inc = included(all_storylines().subrange(0, k), ov);
            &&& forall|i: int| 0 <= i < inc.len() ==> 0 <= (#[trigger] inc[i]).0.spec_index() < k
                && storyline_weight(ov, inc[i].0) == Some(inc[i].1)
            &&& forall|i: int, j: int| 0 <= i < j < inc.len()
                ==> (#[trigger] inc[i]).0.spec_index() < (#[trigger] inc[j]).0.spec_index()
            &&& forall|s: Storyline| s.spec_index() < k && (#[trigger] storyline_weight(ov, s)) is Some
                ==> exists|i: int| 0 <= i < inc.len() && (#[trigger] inc[i]).0 == s
        }),
    decreases k,
{
    lemma_storyline_positions();
    if k > 0 {
        lemma_included_prefix(ov, k - 1);
        let list = all_storylines().subrange(0, k);
        assert(list.drop_last() =~= all_storylines().subrange(0, k - 1));
        let prev = included(all_storylines().subrange(0, k - 1), ov);
        let inc = included(list, ov);
        let last = all_storylines()[k - 1];
        assert(list.last() == last);
        assert forall|s: Storyline| s.spec_index() < k && (#[trigger] storyline_weight(ov, s)) is Some
            implies exists|i: int| 0 <= i < inc.len() && (#[trigger] inc[i]).0 == s by {
            if s.spec_index() == k - 1 {
                assert(s == last);
                assert(inc[inc.len() - 1].0 == s);
            } else {
                let i = choose|i: int| 0 <= i < prev.len() && (#[trigger] prev[i]).0 == s;
                assert(inc[i] == prev[i]);
            }
        }
    }
}

/// With a storyline map, exactly the storylines whose key the map holds are
/// offered, each with the map's weight, in enumeration order whatever the
/// map's order.
pub proof fn overrides_select_storylines(overrides: Seq<(Seq<char>, u32)>)
    ensures
        ({
            let inc = included(all_storylines(), Some(overrides));
            &&& forall|i: int| 0 <= i < inc.len() ==> has_label(overrides, (#[trigger] inc[i]).0.spec_key())
                && weight_of(overrides, inc[i].0.spec_key()) == Some(inc[i].1)
            &&& forall|s: Storyline| #[trigger] has_label(overrides, s.spec_key())
                ==> exists|i: int| 0 <= i < inc.len() && (#[trigger] inc[i]).0 == s
            &&& forall|i: int, j: int| 0 <= i < j < inc.len()
                ==> (#[trigger] inc[i]).0.spec_index() < (#[trigger] inc[j]).0.spec_index()
        }),
{
    lemma_storyline_positions();
    lemma_included_prefix(Some(overrides), STORYLINE_COUNT as int);
    assert(all_storylines().subrange(0, STORYLINE_COUNT as int) =~= all_storylines());
    let inc = included(all_storylines(), Some(overrides));
    assert forall|s: Storyline| #[trigger] has_label(overrides, s.spec_key())
        implies exists|i: int| 0 <= i < inc.len() && (#[trigger] inc[i]).0 == s by {
        assert(storyline_weight(Some(overrides), s) is Some);
    }
}

proof fn lemma_included_without_map(list: Seq<Storyline>)
    ensures
        included(list, None) == Seq::new(list.len(), |k: int| (list[k], list[k].spec_default_weight())),
    decreases list.len(),
{
    if list.len() > 0 {
        lemma_included_without_map(list.drop_last());
        assert(included(list, None) =~= Seq::new(list.len(), |k: int| (list[k], list[k].spec_default_weight())));
    } else {
        assert(included(list, None) =~= Seq::new(list.len(), |k: int| (list[k], list[k].spec_default_weight())));
    }
}

/// Without a storyline map, every storyline is offered with its default
/// weight, in enumeration order.
pub proof fn defaults_offer_every_storyline()
    ensures
        included(all_storylines(), None) == Seq::new(
            STORYLINE_COUNT as nat,
            |k: int| (all_storylines()[k], all_storylines()[k].spec_default_weight()),
        ),
{
    lemma_included_without_map(all_storylines());
}

/// A character's triggers: the character trigger first, then one storyline
/// trigger per offered storyline in enumeration order, each carrying the
/// storyline's maximum quest count less the quests counted toward it.
pub proof fn group_layout(
    name: Seq<char>,
    overrides: Option<Seq<(Seq<char>, u32)>>,
    profession: Seq<char>,
    race: Seq<char>,
    completed: Option<Seq<u32>>,
    catalog: Map<u32, u32>,
    seasons: Seq<Seq<u32>>,
)
    ensures
        ({
            let g = group_triggers(name, overrides, profession, race, completed, catalog, seasons);
            let inc = included(all_storylines(), overrides);
            &&& g.len() == inc.len() + 1
            &&& g[0].name == "character"@
            &&& g[0].result == name
            &&& forall|i: int| 0 <= i < inc.len() ==> #[trigger] g[i + 1] == storyline_trigger(
                inc[i].0,
                name,
                remaining_quests(inc[i].0, progress_count(completed, catalog, seasons[inc[i].0.spec_index()])),
            )
        }),
{
}

/// The quest count left for a storyline is its maximum less the completed
/// count, below zero when more quests were counted than it has.
pub proof fn remaining_is_max_less_completed(s: Storyline, count: nat)
    ensures
        remaining_quests(s, count) == s.spec_max_quests() - count,
        count > s.spec_max_quests() ==> remaining_quests(s, count) < 0,
{
}

proof fn lemma_groups_prefix(
    chars: Seq<(String, CharacterInput)>,
    progress: Seq<ProgressModel>,
    catalog: Map<u32, u32>,
    seasons: Seq<Seq<u32>>,
    m: nat,
    n: nat,
)
    requires
        m <= n,
    ensures
        all_groups(chars, progress, catalog, seasons, m).len() <= all_groups(chars, progress, catalog, seasons, n).len(),
        all_groups(chars, progress, catalog, seasons, n).subrange(
            0, all_groups(chars, progress, catalog, seasons, m).len() as int,
        ) == all_groups(chars, progress, catalog, seasons, m),
    decreases n,
{
    if m < n {
        lemma_groups_prefix(chars, progress, catalog, seasons, m, (n - 1) as nat);
        let a = all_groups(chars, progress, catalog, seasons, (n - 1) as nat);
        let b = all_groups(chars, progress, catalog, seasons, n);
        let p = all_groups(chars, progress, catalog, seasons, m);
        assert(b.subrange(0, p.len() as int) =~= a.subrange(0, p.len() as int));
    } else {
        let p = all_groups(chars, progress, catalog, seasons, m);
        assert(p.subrange(0, p.len() as int) =~= p);
    }
}

/// Characters' triggers follow input order: the triggers of the `a`-th
/// selected character form one block, after those of every earlier character
/// and before those of every later one.
pub proof fn groups_follow_input_order(
    chars: Seq<(String, CharacterInput)>,
    progress: Seq<ProgressModel>,
    catalog: Map<u32, u32>,
    seasons: Seq<Seq<u32>>,
    a: nat,
    n: nat,
)
    requires
        a < n,
    ensures
        ({
            let all = all_groups(chars, progress, catalog, seasons, n);
            let start = all_groups(chars, progress, catalog, seasons, a).len() as int;
            let g = group_of(chars[a as int], progress[a as int], catalog, seasons);
            &&& start + g.len() <= all.len()
            &&& all.subrange(0, start) == all_groups(chars, progress, catalog, seasons, a)
            &&& all.subrange(start, start + g.len()) == g
        }),
{
    lemma_groups_prefix(chars, progress, catalog, seasons, (a + 1) as nat, n);
    lemma_groups_prefix(chars, progress, catalog, seasons, a, n);
    let all = all_groups(chars, progress, catalog, seasons, n);
    let next = all_groups(chars, progress, catalog, seasons, (a + 1) as nat);
    let start = all_groups(chars, progress, catalog, seasons, a).len() as int;
    let g = group_of(chars[a as int], progress[a as int], catalog, seasons);
    assert(next == all_groups(chars, progress, catalog, seasons, a) + g);
    assert(all.subrange(start, start + g.len()) =~= next.subrange(start, start + g.len()));
    assert(next.subrange(start, start + g.len()) =~= g);
}

/// The completed quests of a storyline, as a set: the completed quest ids
/// whose story, by the catalog, is one of the season's stories.
pub open spec fn counted_quests(completed: Seq<u32>, catalog: Map<u32, u32>, stories: Seq<u32>) -> Set<u32> {
    completed.to_set().filter(|q: u32| counts_toward(catalog, stories, q))
}

/// The completion count of a storyline is the size of the set of completed
/// quests whose catalog story belongs to the season; completed ids missing
/// from the catalog are in no such set.
pub proof fn completed_count_is_set_size(completed: Seq<u32>, catalog: Map<u32, u32>, stories: Seq<u32>)
    requires
        completed.no_duplicates(),
    ensures
        completed_in(completed, catalog, stories) == counted_quests(completed, catalog, stories).len(),
        forall|q: u32| #[trigger] counted_quests(completed, catalog, stories).contains(q) ==> catalog.contains_key(q),
    decreases completed.len(),
{
    broadcast use vstd::seq_lib::seq_to_set_is_finite;
    let c = counted_quests(completed, catalog, stories);
    if completed.len() == 0 {
        assert(c =~= Set::<u32>::empty());
    } else {
        let init = completed.drop_last();
        let x = completed.last();
        assert(init.no_duplicates());
        completed_count_is_set_size(init, catalog, stories);
        assert(completed == init + seq![x]);
        Seq::<u32>::lemma_to_set_insert_commutes(init, x);
        assert(!init.to_set().contains(x)) by {
            if init.contains(x) {
                let j = choose|j: int| 0 <= j < init.len() && init[j] == x;
                assert(completed[j] == completed[completed.len() - 1]);
            }
        }
        let before = counted_quests(init, catalog, stories);
        if counts_toward(catalog, stories, x) {
            assert(c =~= before.insert(x));
        } else {
            assert(c =~= before);
        }
    }
}

/// Whether no two remote records share a name.
pub open spec fn names_unique(remote: Seq<Character>) -> bool {
    forall|i: int, j: int| 0 <= i < remote.len() && 0 <= j < remote.len() && i != j
        ==> #[trigger] remote[i].name@ != #[trigger] remote[j].name@
}

/// Whether no two quest records share an id.
pub open spec fn quest_ids_unique(quests: Seq<Quest>) -> bool {
    forall|i: int, j: int| 0 <= i < quests.len() && 0 <= j < quests.len() && i != j
        ==> #[trigger] quests[i].id != #[trigger] quests[j].id
}

/// Whether no two season records share an id.
pub open spec fn season_ids_unique(seasons: Seq<Season>) -> bool {
    forall|i: int, j: int| 0 <= i < seasons.len() && 0 <= j < seasons.len() && i != j
        ==> #[trigger] seasons[i].id@ != #[trigger] seasons[j].id@
}

proof fn lemma_remote_of_is_member(remote: Seq<Character>, name: Seq<char>, i: int)
    requires
        names_unique(remote),
        0 <= i < remote.len(),
        remote[i].name@ == name,
    ensures
        remote_of(remote, name) == Some(remote[i]),
{
    assert(first_character(remote, name, i));
    let k = choose|k: int| first_character(remote, name, k);
    if k != i {
        assert(remote[k].name@ != remote[i].name@);
    }
}

/// With distinct names, the record a character resolves to does not depend
/// on the order in which the records arrived.
pub proof fn remote_order_is_irrelevant(r1: Seq<Character>, r2: Seq<Character>, name: Seq<char>)
    requires
        names_unique(r1),
        names_unique(r2),
        r1.to_set() == r2.to_set(),
    ensures
        remote_of(r1, name) == remote_of(r2, name),
{
    if exists|i: int| 0 <= i < r1.len() && #[trigger] r1[i].name@ == name {
        let i = choose|i: int| 0 <= i < r1.len() && #[trigger] r1[i].name@ == name;
        assert(r2.to_set().contains(r1[i]));
        let j = choose|j: int| 0 <= j < r2.len() && r2[j] == r1[i];
        lemma_remote_of_is_member(r1, name, i);
        lemma_remote_of_is_member(r2, name, j);
    } else if exists|j: int| 0 <= j < r2.len() && #[trigger] r2[j].name@ == name {
        let j = choose|j: int| 0 <= j < r2.len() && #[trigger] r2[j].name@ == name;
        assert(r1.to_set().contains(r2[j]));
        let i = choose|i: int| 0 <= i < r1.len() && r1[i] == r2[j];
        assert(r1[i].name@ == name);
    } else {
        assert(!exists|i: int| first_character(r1, name, i));
        assert(!exists|j: int| first_character(r2, name, j));
    }
}

proof fn lemma_season_stories_is_member(seasons: Seq<Season>, s: Storyline, i: int)
    requires
        season_ids_unique(seasons),
        0 <= i < seasons.len(),
        seasons[i].id@ == s.spec_id(),
    ensures
        season_stories(seasons, s) == seasons[i].story_ids@,
{
    assert(first_season(seasons, s.spec_id(), i));
    let k = choose|k: int| first_season(seasons, s.spec_id(), k);
    if k != i {
        assert(seasons[k].id@ != seasons[i].id@);
    }
}

/// With distinct ids, the story ids joined to each storyline do not depend on
/// the order in which the seasons arrived, provided each storyline has one.
pub proof fn season_order_is_irrelevant(s1: Seq<Season>, s2: Seq<Season>)
    requires
        season_ids_unique(s1),
        season_ids_unique(s2),
        s1.to_set() == s2.to_set(),
        forall|k: int| 0 <= k < STORYLINE_COUNT ==> has_season(s1, #[trigger] all_storylines()[k]),
    ensures
        season_table(s1) == season_table(s2),
{
    assert forall|k: int| 0 <= k < STORYLINE_COUNT implies #[trigger] season_table(s1)[k] == season_table(s2)[k] by {
        let st = all_storylines()[k];
        let i = choose|i: int| 0 <= i < s1.len() && #[trigger] s1[i].id@ == st.spec_id();
        assert(s2.to_set().contains(s1[i]));
        let j = choose|j: int| 0 <= j < s2.len() && s2[j] == s1[i];
        lemma_season_stories_is_member(s1, st, i);
        lemma_season_stories_is_member(s2, st, j);
    }
    assert(season_table(s1) =~= season_table(s2));
}

proof fn lemma_catalog_contents(quests: Seq<Quest>)
    requires
        quest_ids_unique(quests),
    ensures
        forall|q: u32| #[trigger] catalog_with(Map::empty(), quests).contains_key(q)
            <==> exists|i: int| 0 <= i < quests.len() && #[trigger] quests[i].id == q,
        forall|i: int| 0 <= i < quests.len() ==> #[trigger] catalog_with(Map::empty(), quests)[quests[i].id]
            == quests[i].story_id,
    decreases quests.len(),
{
    if quests.len() > 0 {
        let init = quests.drop_last();
        assert(quest_ids_unique(init)) by {
            assert forall|i: int, j: int| 0 <= i < init.len() && 0 <= j < init.len() && i != j
                implies #[trigger] init[i].id != #[trigger] init[j].id by {
                assert(quests[i].id != quests[j].id);
            }
        }
        lemma_catalog_contents(init);
        let m = catalog_with(Map::empty(), quests);
        assert(m == catalog_with(Map::empty(), init).insert(quests.last().id, quests.last().story_id));
        assert forall|q: u32| #[trigger] m.contains_key(q)
            implies exists|i: int| 0 <= i < quests.len() && #[trigger] quests[i].id == q by {
            if q != quests.last().id {
                let i = choose|i: int| 0 <= i < init.len() && #[trigger] init[i].id == q;
                assert(quests[i].id == q);
            } else {
                assert(quests[quests.len() - 1].id == q);
            }
        }
        assert forall|q: u32| (exists|i: int| 0 <= i < quests.len() && #[trigger] quests[i].id == q)
            implies #[trigger] m.contains_key(q) by {
            let i = choose|i: int| 0 <= i < quests.len() && #[trigger] quests[i].id == q;
            if i < init.len() {
                assert(init[i].id == q);
            }
        }
        assert forall|i: int| 0 <= i < quests.len() implies #[trigger] m[quests[i].id] == quests[i].story_id by {
            if i < init.len() {
                assert(init[i] == quests[i]);
                assert(quests[i].id != quests[quests.len() - 1].id);
            }
        }
    }
}

/// With distinct ids, the quest catalog does not depend on the order in
/// which the quest batches arrived.
pub proof fn quest_order_is_irrelevant(q1: Seq<Quest>, q2: Seq<Quest>)
    requires
        quest_ids_unique(q1),
        quest_ids_unique(q2),
        q1.to_set() == q2.to_set(),
    ensures
        catalog_with(Map::empty(), q1) == catalog_with(Map::empty(), q2),
{
    lemma_catalog_contents(q1);
    lemma_catalog_contents(q2);
    let m1 = catalog_with(Map::empty(), q1);
    let m2 = catalog_with(Map::empty(), q2);
    assert forall|q: u32| m1.contains_key(q) <==> m2.contains_key(q) by {
        if m1.contains_key(q) {
            let i = choose|i: int| 0 <= i < q1.len() && #[trigger] q1[i].id == q;
            assert(q2.to_set().contains(q1[i]));
            let j = choose|j: int| 0 <= j < q2.len() && q2[j] == q1[i];
            assert(q2[j].id == q);
        }
        if m2.contains_key(q) {
            let j = choose|j: int| 0 <= j < q2.len() && #[trigger] q2[j].id == q;
            assert(q1.to_set().contains(q2[j]));
            let i = choose|i: int| 0 <= i < q1.len() && q1[i] == q2[j];
            assert(q1[i].id == q);
        }
    }
    assert forall|q: u32| m1.contains_key(q) implies m1[q] == m2[q] by {
        let i = choose|i: int| 0 <= i < q1.len() && #[trigger] q1[i].id == q;
        assert(q2.to_set().contains(q1[i]));
        let j = choose|j: int| 0 <= j < q2.len() && q2[j] == q1[i];
        assert(m2[q2[j].id] == q2[j].story_id);
    }
    assert(m1 =~= m2);
}

/// The document's triggers depend only on what was fetched, not on the
/// order in which concurrent requests completed: remote records, quest
/// records and seasons that arrive in another order give the same triggers.
pub proof fn triggers_independent_of_fetch_order(
    chars: Seq<(String, CharacterInput)>,
    completed: Seq<Option<Vec<u32>>>,
    r1: Seq<Character>,
    r2: Seq<Character>,
    q1: Seq<Quest>,
    q2: Seq<Quest>,
    s1: Seq<Season>,
    s2: Seq<Season>,
)
    requires
        names_unique(r1),
        names_unique(r2),
        r1.to_set() == r2.to_set(),
        quest_ids_unique(q1),
        quest_ids_unique(q2),
        q1.to_set() == q2.to_set(),
        season_ids_unique(s1),
        season_ids_unique(s2),
        s1.to_set() == s2.to_set(),
        forall|k: int| 0 <= k < STORYLINE_COUNT ==> has_season(s1, #[trigger] all_storylines()[k]),
    ensures
        all_groups(chars, resolved_all(chars, r1, completed), catalog_with(Map::empty(), q1), season_table(s1), chars.len())
            == all_groups(chars, resolved_all(chars, r2, completed), catalog_with(Map::empty(), q2), season_table(s2), chars.len()),
{
    quest_order_is_irrelevant(q1, q2);
    season_order_is_irrelevant(s1, s2);
    assert forall|i: int| 0 <= i < chars.len() implies
        #[trigger] resolved_all(chars, r1, completed)[i] == resolved_all(chars, r2, completed)[i] by {
        remote_order_is_irrelevant(r1, r2, chars[i].0@);
    }
    assert(resolved_all(chars, r1, completed) =~= resolved_all(chars, r2, completed));
}

/// The completed ids that the quest catalog knows.
pub open spec fn known_quests(completed: Seq<u32>, catalog: Map<u32, u32>) -> Seq<u32> {
    completed.filter(|q: u32| catalog.contains_key(q))
}

/// Completed ids that the catalog does not know add nothing to any count.
pub proof fn unknown_quests_add_nothing(completed: Seq<u32>, catalog: Map<u32, u32>, stories: Seq<u32>)
    ensures
        completed_in(completed, catalog, stories) == completed_in(known_quests(completed, catalog), catalog, stories),
    decreases completed.len(),
{
    reveal(Seq::filter);
    if completed.len() > 0 {
        unknown_quests_add_nothing(completed.drop_last(), catalog, stories);
        let known = known_quests(completed, catalog);
        let before = known_quests(completed.drop_last(), catalog);
        if catalog.contains_key(completed.last()) {
            assert(known == before.push(completed.last()));
            assert(known.drop_last() =~= before);
        } else {
            assert(known == before);
        }
    }
}

/// Dropping the completed ids that the catalog does not know leaves a
/// character's triggers unchanged.
pub proof fn unknown_quests_leave_triggers_unchanged(
    name: Seq<char>,
    overrides: Option<Seq<(Seq<char>, u32)>>,
    profession: Seq<char>,
    race: Seq<char>,
    completed: Seq<u32>,
    catalog: Map<u32, u32>,
    seasons: Seq<Seq<u32>>,
)
    ensures
        group_triggers(name, overrides, profession, race, Some(completed), catalog, seasons)
            == group_triggers(name, overrides, profession, race, Some(known_quests(completed, catalog)), catalog, seasons),
{
    let inc = included(all_storylines(), overrides);
    let a = storyline_triggers(inc, name, Some(completed), catalog, seasons);
    let b = storyline_triggers(inc, name, Some(known_quests(completed, catalog)), catalog, seasons);
    assert forall|i: int| 0 <= i < inc.len() implies #[trigger] a[i] == b[i] by {
        unknown_quests_add_nothing(completed, catalog, seasons[inc[i].0.spec_index()]);
    }
    assert(a =~= b);
}

proof fn lemma_keys_distinct(s1: Storyline, s2: Storyline)
    requires
        s1.spec_key() == s2.spec_key(),
    ensures
        s1 == s2,
{
    reveal_strlit("core");
    assert("core"@.len() == 4);
    reveal_strlit("season_1");
    assert("season_1"@.len() == 8);
    reveal_strlit("season_2");
    assert("season_2"@.len() == 8);
    reveal_strlit("heart_of_thorns");
    assert("heart_of_thorns"@.len() == 15);
    reveal_strlit("season_3");
    assert("season_3"@.len() == 8);
    reveal_strlit("path_of_fire");
    assert("path_of_fire"@.len() == 12);
    reveal_strlit("season_4");
    assert("season_4"@.len() == 8);
    reveal_strlit("icebrood_saga");
    assert("icebrood_saga"@.len() == 13);
    reveal_strlit("end_of_dragons");
    assert("end_of_dragons"@.len() == 14);
    reveal_strlit("secrets_of_the_obscure");
    assert("secrets_of_the_obscure"@.len() == 22);
    assert("season_1"@[7] == '1');
    assert("season_2"@[7] == '2');
    assert("season_1"@[7] == '1');
    assert("season_3"@[7] == '3');
    assert("season_1"@[7] == '1');
    assert("season_4"@[7] == '4');
    assert("season_2"@[7] == '2');
    assert("season_3"@[7] == '3');
    assert("season_2"@[7] == '2');
    assert("season_4"@[7] == '4');
    assert("season_3"@[7] == '3');
    assert("season_4"@[7] == '4');
}

/// Distinct storylines give a character distinct option values.
pub proof fn composite_keys_distinct(s1: Storyline, s2: Storyline, name: Seq<char>)
    requires
        composite_key(s1, name) == composite_key(s2, name),
    ensures
        s1 == s2,
{
    reveal_strlit(" ");
    let k1 = s1.spec_key();
    let k2 = s2.spec_key();
    assert(composite_key(s1, name).len() == k1.len() + 1 + name.len());
    assert(k1.len() == k2.len());
    assert(composite_key(s1, name).subrange(0, k1.len() as int) =~= k1);
    assert(composite_key(s2, name).subrange(0, k2.len() as int) =~= k2);
    lemma_keys_distinct(s1, s2);
}

proof fn lemma_insert_all_fresh(entries: Seq<(Seq<char>, u32)>)
    requires
        labels_unique(entries),
    ensures
        insert_all(Seq::empty(), entries) == entries,
    decreases entries.len(),
{
    if entries.len() > 0 {
        let init = entries.drop_last();
        assert(labels_unique(init)) by {
            assert forall|i: int, j: int| 0 <= i < j < init.len() implies
                #[trigger] init[i].0 != #[trigger] init[j].0 by {
                assert(entries[i].0 != entries[j].0);
            }
        }
        lemma_insert_all_fresh(init);
        let last = entries.last();
        assert(!has_label(init, last.0)) by {
            if has_label(init, last.0) {
                let i = choose|i: int| label_at(init, last.0, i);
                assert(entries[i].0 != entries[entries.len() - 1].0);
            }
        }
        assert(init.push(last) =~= entries);
    }
}

/// With a storyline map, the storyline table of a character's trigger holds
/// exactly the values `<key> <name>` of the storylines whose key the map
/// holds, each with the map's weight, in enumeration order; and a storyline
/// trigger for such a value is emitted exactly then.
pub proof fn storyline_table_follows_map(
    name: Seq<char>,
    overrides: Seq<(Seq<char>, u32)>,
    profession: Seq<char>,
    race: Seq<char>,
    completed: Option<Seq<u32>>,
    catalog: Map<u32, u32>,
    seasons: Seq<Seq<u32>>,
)
    ensures
        ({
            let inc = included(all_storylines(), Some(overrides));
            let table = insert_all(Seq::empty(), storyline_entries(inc, name));
            let g = group_triggers(name, Some(overrides), profession, race, completed, catalog, seasons);
            &&& table == storyline_entries(inc, name)
            &&& forall|s: Storyline| #[trigger] has_label(table, composite_key(s, name))
                <==> has_label(overrides, s.spec_key())
            &&& forall|s: Storyline| has_label(overrides, s.spec_key())
                ==> #[trigger] weight_of(table, composite_key(s, name)) == weight_of(overrides, s.spec_key())
            &&& forall|s: Storyline| (exists|i: int| 1 <= i < g.len() && (#[trigger] g[i]).result == composite_key(s, name))
                <==> has_label(overrides, s.spec_key())
        }),
{
    overrides_select_storylines(overrides);
    let inc = included(all_storylines(), Some(overrides));
    let entries = storyline_entries(inc, name);
    let g = group_triggers(name, Some(overrides), profession, race, completed, catalog, seasons);
    group_layout(name, Some(overrides), profession, race, completed, catalog, seasons);
    assert(labels_unique(entries)) by {
        assert forall|i: int, j: int| 0 <= i < j < entries.len() implies
            #[trigger] entries[i].0 != #[trigger] entries[j].0 by {
            if entries[i].0 == entries[j].0 {
                composite_keys_distinct(inc[i].0, inc[j].0, name);
                assert(inc[i].0.spec_index() < inc[j].0.spec_index());
            }
        }
    }
    lemma_insert_all_fresh(entries);
    assert forall|s: Storyline| #[trigger] has_label(entries, composite_key(s, name))
        <==> has_label(overrides, s.spec_key()) by {
        if has_label(entries, composite_key(s, name)) {
            let i = choose|i: int| label_at(entries, composite_key(s, name), i);
            composite_keys_distinct(inc[i].0, s, name);
            assert(has_label(overrides, inc[i].0.spec_key()));
        }
        if has_label(overrides, s.spec_key()) {
            let i = choose|i: int| 0 <= i < inc.len() && (#[trigger] inc[i]).0 == s;
            assert(label_at(entries, composite_key(s, name), i));
        }
    }
    assert forall|s: Storyline| has_label(overrides, s.spec_key())
        implies #[trigger] weight_of(entries, composite_key(s, name)) == weight_of(overrides, s.spec_key()) by {
        let i = choose|i: int| 0 <= i < inc.len() && (#[trigger] inc[i]).0 == s;
        assert(label_at(entries, composite_key(s, name), i));
        let c = choose|c: int| label_at(entries, composite_key(s, name), c);
        if c != i {
            assert(entries[c].0 != entries[i].0);
        }
    }
    assert forall|s: Storyline| (exists|i: int| 1 <= i < g.len() && (#[trigger] g[i]).result == composite_key(s, name))
        <==> has_label(overrides, s.spec_key()) by {
        if exists|i: int| 1 <= i < g.len() && (#[trigger] g[i]).result == composite_key(s, name) {
            let i = choose|i: int| 1 <= i < g.len() && (#[trigger] g[i]).result == composite_key(s, name);
            assert(g[(i - 1) + 1] == g[i]);
            composite_keys_distinct(inc[i - 1].0, s, name);
            assert(has_label(overrides, inc[i - 1].0.spec_key()));
        }
        if has_label(overrides, s.spec_key()) {
            let i = choose|i: int| 0 <= i < inc.len() && (#[trigger] inc[i]).0 == s;
            assert(g[i + 1].result == composite_key(s, name));
        }
    }
}

} // verus!
