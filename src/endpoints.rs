use vstd::prelude::*;
use vstd::string::StringExecFns;

use crate::storyline::Storyline;
use crate::text::{decimal, decimal_text};

verus! {

/// Largest number of quest ids that one detail request may carry.
pub const QUEST_BATCH_SIZE: usize = 100;

pub open spec fn api_root() -> Seq<char> {
    "https://api.guildwars2.com/v2/"@
}

pub open spec fn spec_characters_url(token: Seq<char>) -> Seq<char> {
    api_root() + "characters?access_token="@ + token
}

pub open spec fn spec_character_core_url(name: Seq<char>, token: Seq<char>) -> Seq<char> {
    api_root() + "characters/"@ + name + "/core?access_token="@ + token
}

pub open spec fn spec_character_quests_url(name: Seq<char>, token: Seq<char>) -> Seq<char> {
    api_root() + "characters/"@ + name + "/quests?access_token="@ + token
}

pub open spec fn spec_season_url(s: Storyline) -> Seq<char> {
    api_root() + "stories/seasons/"@ + s.spec_id()
}

pub open spec fn spec_quests_url() -> Seq<char> {
    api_root() + "quests"@
}

/// The detail request for a batch of quest ids: every id followed by a comma.
pub open spec fn spec_quest_batch_url(ids: Seq<u32>) -> Seq<char>
    decreases ids.len(),
{
    if ids.len() == 0 {
        api_root() + "quests?ids="@
    } else {
        spec_quest_batch_url(ids.drop_last()) + decimal_text(ids.last() as int) + ","@
    }
}

/// Number of detail requests needed for `n` quest ids.
pub open spec fn batch_count(n: nat) -> nat {
    (n + 99) / 100
}

/// The ids of the `k`-th detail request.
pub open spec fn batch_ids(ids: Seq<u32>, k: int) -> Seq<u32> {
    let lo = 100 * k;
    let hi = if 100 * (k + 1) < ids.len() { 100 * (k + 1) } else { ids.len() as int };
    ids.subrange(lo, hi)
}

/// Names of the characters whose records are fetched: every remote name when
/// the selection is empty, else the remote names that the selection lists.
pub open spec fn spec_selected_names(remote: Seq<Seq<char>>, wanted: Seq<Seq<char>>) -> Seq<Seq<char>> {
    if wanted.len() == 0 {
        remote
    } else {
        remote.filter(|n: Seq<char>| wanted.contains(n))
    }
}

fn text(s: &str) -> (r: String)
    ensures
        r@ == s@,
{
    String::from_str(s)
}

pub fn characters_url(token: &str) -> (r: String)
    ensures
        r@ == spec_characters_url(token@),
{
    let mut r = text("https://api.guildwars2.com/v2/");
    r.append("characters?access_token=");
    r.append(token);
    r
}

pub fn character_core_url(name: &str, token: &str) -> (r: String)
    ensures
        r@ == spec_character_core_url(name@, token@),
{
    let mut r = text("https://api.guildwars2.com/v2/");
    r.append("characters/");
    r.append(name);
    r.append("/core?access_token=");
    r.append(token);
    r
}

pub fn character_quests_url(name: &str, token: &str) -> (r: String)
    ensures
        r@ == spec_character_quests_url(name@, token@),
{
    let mut r = text("https://api.guildwars2.com/v2/");
    r.append("characters/");
    r.append(name);
    r.append("/quests?access_token=");
    r.append(token);
    r
}

pub fn season_url(s: Storyline) -> (r: String)
    ensures
        r@ == spec_season_url(s),
{
    let mut r = text("https://api.guildwars2.com/v2/");
    r.append("stories/seasons/");
    r.append(s.id());
    r
}

pub fn quests_url() -> (r: String)
    ensures
        r@ == spec_quests_url(),
{
    let mut r = text("https://api.guildwars2.com/v2/");
    r.append("quests");
    r
}

pub fn quest_batch_url(ids: &[u32]) -> (r: String)
    ensures
        r@ == spec_quest_batch_url(ids@),
{
    let mut r = text("https://api.guildwars2.com/v2/");
    r.append("quests?ids=");
    let mut i: usize = 0;
    while i < ids.len()
        invariant
            i <= ids@.len(),
            r@ == spec_quest_batch_url(ids@.subrange(0, i as int)),
        decreases ids@.len() - i,
    {
        let d = decimal(ids[i] as i128);
        r.append(d.as_str());
        r.append(",");
        proof {
            let next = ids@.subrange(0, i + 1);
            assert(next.drop_last() =~= ids@.subrange(0, i as int));
        }
        i = i + 1;
    }
    assert(ids@.subrange(0, ids@.len() as int) =~= ids@);
    r
}

/// Detail requests for the whole quest catalog, at most a hundred ids each,
/// in the catalog's order.
pub fn quest_batch_urls(ids: &Vec<u32>) -> (r: Vec<String>)
    ensures
        r@.len() == batch_count(ids@.len()),
        forall|k: int| 0 <= k < r@.len() ==> #[trigger] r@[k]@ == spec_quest_batch_url(batch_ids(ids@, k)),
{
    let mut r: Vec<String> = Vec::new();
    let mut lo: usize = 0;
    while lo < ids.len()
        invariant
            lo <= ids@.len(),
            lo < ids@.len() ==> lo == 100 * r@.len(),
            lo < ids@.len() ==> r@.len() < batch_count(ids@.len()),
            lo >= ids@.len() ==> r@.len() == batch_count(ids@.len()),
            forall|k: int| 0 <= k < r@.len() ==> #[trigger] r@[k]@ == spec_quest_batch_url(batch_ids(ids@, k)),
        decreases ids@.len() - lo,
    {
        let hi: usize = if ids.len() - lo > QUEST_BATCH_SIZE { lo + QUEST_BATCH_SIZE } else { ids.len() };
        let url = quest_batch_url(&ids.as_slice()[lo..hi]);
        proof {
            let k = r@.len() as int;
            assert(ids@.subrange(lo as int, hi as int) =~= batch_ids(ids@, k));
        }
        r.push(url);
        proof {
            let n = ids@.len() as int;
            let k = r@.len() as int;
            if hi < n {
                assert(hi == 100 * k);
                assert(k < (n + 99) / 100) by (nonlinear_arith)
                    requires 100 * k < n, k >= 0;
            } else {
                assert(100 * (k - 1) < n && n <= 100 * k);
                assert(k == (n + 99) / 100) by (nonlinear_arith)
                    requires 100 * (k - 1) < n, n <= 100 * k, k >= 1;
            }
        }
        lo = hi;
    }
    r
}

/// Picks the remote character names whose records are fetched.
pub fn selected_names(remote: &Vec<String>, wanted: &Vec<String>) -> (r: Vec<String>)
    ensures
        r@.map_values(|s: String| s@) == spec_selected_names(
            remote@.map_values(|s: String| s@),
            wanted@.map_values(|s: String| s@),
        ),
{
    let ghost rv = remote@.map_values(|s: String| s@);
    let ghost wv = wanted@.map_values(|s: String| s@);
    if wanted.len() == 0 {
        let r = remote.clone();
        assert(r@.map_values(|s: String| s@) =~= rv);
        return r;
    }
    let mut r: Vec<String> = Vec::new();
    let mut i: usize = 0;
    while i < remote.len()
        invariant
            i <= remote@.len(),
            rv == remote@.map_values(|s: String| s@),
            wv == wanted@.map_values(|s: String| s@),
            wv.len() > 0,
            r@.map_values(|s: String| s@) == spec_selected_names(rv.subrange(0, i as int), wv),
        decreases remote@.len() - i,
    {
        let keep = contains_text(wanted, &remote[i]);
        proof {
            assert(rv.subrange(0, i + 1).drop_last() =~= rv.subrange(0, i as int));
            reveal(Seq::filter);
        }
        if keep {
            r.push(remote[i].clone());
        }
        i = i + 1;
    }
    assert(rv.subrange(0, remote@.len() as int) =~= rv);
    r
}

/// Whether `v` holds a string equal to `s`.
pub fn contains_text(v: &Vec<String>, s: &String) -> (r: bool)
    ensures
        r == v@.map_values(|t: String| t@).contains(s@),
{
    let mut i: usize = 0;
    while i < v.len()
        invariant
            i <= v@.len(),
            forall|j: int| 0 <= j < i ==> v@[j]@ != s@,
        decreases v@.len() - i,
    {
        if v[i] == *s {
            assert(v@.map_values(|t: String| t@)[i as int] == s@);
            return true;
        }
        i = i + 1;
    }
    proof {
        let vv = v@.map_values(|t: String| t@);
        if vv.contains(s@) {
            let j = choose|j: int| 0 <= j < vv.len() && vv[j] == s@;
            assert(v@[j]@ == s@);
        }
    }
    false
}

} // verus!
