use vstd::prelude::*;

use vstd::string::StringExecFns;

use crate::storyline::{all_storylines, Storyline, STORYLINE_COUNT};

verus! {

broadcast use vstd::std_specs::hash::group_hash_axioms;

/// A remote season record: the story ids that make up one storyline.
pub struct Season {
    pub id: String,
    pub story_ids: Vec<u32>,
}

/// A remote quest record.
pub struct Quest {
    pub id: u32,
    pub name: String,
    pub story_id: u32,
}

/// The season lookup failed: the fetched seasons hold none for this storyline.
#[derive(PartialEq, Eq, Structural, Clone, Copy, Debug)]
pub enum CatalogError {
    MissingSeason(Storyline),
}

/// Quest id to story id, each quest record overriding earlier ones with the same id.
pub open spec fn catalog_with(m: Map<u32, u32>, quests: Seq<Quest>) -> Map<u32, u32>
    decreases quests.len(),
{
    if quests.len() == 0 {
        m
    } else {
        catalog_with(m, quests.drop_last()).insert(quests.last().id, quests.last().story_id)
    }
}

/// Index from quest id to the story the quest belongs to.
pub struct QuestCatalog {
    story_of: std::collections::HashMap<u32, u32>,
}

impl View for QuestCatalog {
    type V = Map<u32, u32>;

    closed spec fn view(&self) -> Map<u32, u32> {
        self.story_of@
    }
}

impl QuestCatalog {
    pub fn new() -> (r: QuestCatalog)
        ensures
            r@ == Map::<u32, u32>::empty(),
    {
        QuestCatalog { story_of: std::collections::HashMap::new() }
    }

    /// Adds a batch of quest details to the index.
    pub fn extend(&mut self, quests: &Vec<Quest>)
        ensures
            final(self)@ == catalog_with(old(self)@, quests@),
    {
        let mut i: usize = 0;
        while i < quests.len()
            invariant
                i <= quests@.len(),
                self@ == catalog_with(old(self)@, quests@.subrange(0, i as int)),
            decreases quests@.len() - i,
        {
            self.story_of.insert(quests[i].id, quests[i].story_id);
            proof {
                assert(quests@.subrange(0, i + 1).drop_last() =~= quests@.subrange(0, i as int));
            }
            i = i + 1;
        }
        assert(quests@.subrange(0, quests@.len() as int) =~= quests@);
    }

    /// Builds the index from every fetched quest record.
    pub fn from_quests(quests: &Vec<Quest>) -> (r: QuestCatalog)
        ensures
            r@ == catalog_with(Map::empty(), quests@),
    {
        let mut r = QuestCatalog::new();
        r.extend(quests);
        r
    }

    /// The story of a quest, or `None` for a quest the catalog does not hold.
    pub fn story_of(&self, quest: u32) -> (r: Option<u32>)
        ensures
            r == (if self@.contains_key(quest) { Some(self@[quest]) } else { None::<u32> }),
    {
        match self.story_of.get(&quest) {
            Some(s) => Some(*s),
            None => None,
        }
    }
}

/// Finds the season fetched for a storyline: the first record whose id is the
/// storyline's season id.
pub fn season_for(seasons: &Vec<Season>, s: Storyline) -> (r: Result<usize, CatalogError>)
    ensures
        match r {
            Ok(i) => i < seasons@.len() && seasons@[i as int].id@ == s.spec_id()
                && forall|j: int| 0 <= j < i ==> #[trigger] seasons@[j].id@ != s.spec_id(),
            Err(e) => e == CatalogError::MissingSeason(s)
                && forall|j: int| 0 <= j < seasons@.len() ==> #[trigger] seasons@[j].id@ != s.spec_id(),
        },
{
    let id = String::from_str(s.id());
    let mut i: usize = 0;
    while i < seasons.len()
        invariant
            i <= seasons@.len(),
            id@ == s.spec_id(),
            forall|j: int| 0 <= j < i ==> #[trigger] seasons@[j].id@ != s.spec_id(),
        decreases seasons@.len() - i,
    {
        if seasons[i].id == id {
            return Ok(i);
        }
        i = i + 1;
    }
    Err(CatalogError::MissingSeason(s))
}

/// Whether `i` is the first fetched season that carries `id`.
pub open spec fn first_season(seasons: Seq<Season>, id: Seq<char>, i: int) -> bool {
    &&& 0 <= i < seasons.len()
    &&& seasons[i].id@ == id
    &&& forall|j: int| 0 <= j < i ==> #[trigger] seasons[j].id@ != id
}

/// Whether some fetched season belongs to a storyline.
pub open spec fn has_season(seasons: Seq<Season>, s: Storyline) -> bool {
    exists|i: int| 0 <= i < seasons.len() && #[trigger] seasons[i].id@ == s.spec_id()
}

/// The story ids of the season fetched for a storyline.
pub open spec fn season_stories(seasons: Seq<Season>, s: Storyline) -> Seq<u32> {
    seasons[choose|i: int| first_season(seasons, s.spec_id(), i)].story_ids@
}

/// The story ids of each storyline's season, in enumeration order.
pub open spec fn season_table(seasons: Seq<Season>) -> Seq<Seq<u32>> {
    Seq::new(STORYLINE_COUNT as nat, |k: int| season_stories(seasons, all_storylines()[k]))
}

pub(crate) fn copy_ids(v: &Vec<u32>) -> (r: Vec<u32>)
    ensures
        r@ == v@,
{
    let mut r: Vec<u32> = Vec::new();
    let mut i: usize = 0;
    while i < v.len()
        invariant
            i <= v@.len(),
            r@ == v@.subrange(0, i as int),
        decreases v@.len() - i,
    {
        r.push(v[i]);
        assert(r@ =~= v@.subrange(0, i + 1));
        i = i + 1;
    }
    assert(v@.subrange(0, v@.len() as int) =~= v@);
    r
}

/// The story ids of each storyline's season, in enumeration order.
pub struct SeasonIndex {
    stories: Vec<Vec<u32>>,
}

impl View for SeasonIndex {
    type V = Seq<Seq<u32>>;

    closed spec fn view(&self) -> Seq<Seq<u32>> {
        Seq::new(self.stories@.len(), |k: int| self.stories@[k]@)
    }
}

impl SeasonIndex {
    /// Joins every storyline to its fetched season. Fails on the first
    /// storyline, in enumeration order, that has none.
    pub fn build(seasons: &Vec<Season>) -> (r: Result<SeasonIndex, CatalogError>)
        ensures
            match r {
                Ok(ix) => ix@.len() == STORYLINE_COUNT && forall|k: int| 0 <= k < STORYLINE_COUNT ==> {
                    &&& has_season(seasons@, #[trigger] all_storylines()[k])
                    &&& ix@[k] == season_stories(seasons@, all_storylines()[k])
                },
                Err(CatalogError::MissingSeason(s)) => !has_season(seasons@, s)
                    && forall|k: int| 0 <= k < s.spec_index() ==> has_season(seasons@, #[trigger] all_storylines()[k]),
            },
    {
        let all = Storyline::all();
        let mut stories: Vec<Vec<u32>> = Vec::new();
        let mut k: usize = 0;
        while k < all.len()
            invariant
                all@ == all_storylines(),
                k <= all@.len(),
                stories@.len() == k,
                forall|j: int| 0 <= j < k ==> {
                    &&& has_season(seasons@, #[trigger] all_storylines()[j])
                    &&& stories@[j]@ == season_stories(seasons@, all_storylines()[j])
                },
            decreases all@.len() - k,
        {
            let s = all[k];
            match season_for(seasons, s) {
                Ok(i) => {
                    proof {
                        let c = choose|c: int| first_season(seasons@, s.spec_id(), c);
                        assert(first_season(seasons@, s.spec_id(), i as int));
                        if c < i {
                            assert(seasons@[c].id@ != s.spec_id());
                        } else if c > i {
                            assert(seasons@[i as int].id@ != s.spec_id());
                        }
                    }
                    stories.push(copy_ids(&seasons[i].story_ids));
                },
                Err(e) => {
                    proof {
                        assert(s.spec_index() == k) by {
                            assert(all_storylines()[k as int] == s);
                        }
                    }
                    return Err(e);
                },
            }
            k = k + 1;
        }
        let ix = SeasonIndex { stories };
        assert forall|k: int| 0 <= k < STORYLINE_COUNT implies ix@[k] == season_stories(seasons@, all_storylines()[k]) by {
            assert(ix.stories@[k]@ == season_stories(seasons@, all_storylines()[k]));
        }
        Ok(ix)
    }

    pub open spec fn wf(&self) -> bool {
        self@.len() == STORYLINE_COUNT
    }

    /// The story ids of a storyline's season.
    pub fn stories(&self, s: Storyline) -> (r: &Vec<u32>)
        requires
            self.wf(),
        ensures
            r@ == self@[s.spec_index()],
    {
        let k = s.index();
        assert(self@[k as int] == self.stories@[k as int]@);
        &self.stories[k]
    }
}

/// Whether a completed quest counts toward a season: the catalog knows the
/// quest, and its story is one of the season's stories.
pub open spec fn counts_toward(catalog: Map<u32, u32>, stories: Seq<u32>, q: u32) -> bool {
    catalog.contains_key(q) && stories.contains(catalog[q])
}

/// Number of completed quests that count toward a season.
pub open spec fn completed_in(completed: Seq<u32>, catalog: Map<u32, u32>, stories: Seq<u32>) -> nat
    decreases completed.len(),
{
    if completed.len() == 0 {
        0
    } else {
        completed_in(completed.drop_last(), catalog, stories)
            + if counts_toward(catalog, stories, completed.last()) { 1nat } else { 0nat }
    }
}

proof fn lemma_completed_in_bound(completed: Seq<u32>, catalog: Map<u32, u32>, stories: Seq<u32>)
    ensures
        completed_in(completed, catalog, stories) <= completed.len(),
    decreases completed.len(),
{
    if completed.len() > 0 {
        lemma_completed_in_bound(completed.drop_last(), catalog, stories);
    }
}

/// Whether `v` holds `x`.
pub fn contains_id(v: &Vec<u32>, x: u32) -> (r: bool)
    ensures
        r == v@.contains(x),
{
    let mut i: usize = 0;
    while i < v.len()
        invariant
            i <= v@.len(),
            forall|j: int| 0 <= j < i ==> v@[j] != x,
        decreases v@.len() - i,
    {
        if v[i] == x {
            return true;
        }
        i = i + 1;
    }
    false
}

/// How many of a character's completed quests belong to one of `stories`;
/// quests missing from the catalog are left out.
pub fn completed_count(completed: &Vec<u32>, catalog: &QuestCatalog, stories: &Vec<u32>) -> (r: usize)
    requires
        completed@.no_duplicates(),
    ensures
        r == completed_in(completed@, catalog@, stories@),
{
    let mut n: usize = 0;
    let mut i: usize = 0;
    while i < completed.len()
        invariant
            i <= completed@.len(),
            n == completed_in(completed@.subrange(0, i as int), catalog@, stories@),
        decreases completed@.len() - i,
    {
        proof {
            assert(completed@.subrange(0, i + 1).drop_last() =~= completed@.subrange(0, i as int));
            lemma_completed_in_bound(completed@.subrange(0, i as int), catalog@, stories@);
        }
        match catalog.story_of(completed[i]) {
            Some(story) => {
                if contains_id(stories, story) {
                    n = n + 1;
                }
            },
            None => {},
        }
        i = i + 1;
    }
    assert(completed@.subrange(0, completed@.len() as int) =~= completed@);
    n
}

} // verus!
