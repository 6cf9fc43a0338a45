use gw2_template::aggregate::{
    build_output, character_triggers, default_weight, find_character, progress_of, resolve_progress,
    storyline_weight_for, Character, CharacterInput, CharacterProgress, Input,
};
use gw2_template::catalog::{completed_count, CatalogError, Quest, QuestCatalog, Season, SeasonIndex};
use gw2_template::document::{Output, OutputOptions};
use gw2_template::endpoints::{
    character_core_url, character_quests_url, characters_url, quest_batch_url, quest_batch_urls,
    quests_url, season_url, selected_names,
};
use gw2_template::options::{OptionGroup, OptionValue, Trigger, WeightTable};
use gw2_template::storyline::Storyline;
use gw2_template::text::decimal;

fn s(x: &str) -> String {
    x.to_string()
}

fn all_seasons() -> Vec<Season> {
    Storyline::all()
        .iter()
        .enumerate()
        .map(|(k, st)| Season { id: s(st.id()), story_ids: vec![100 + k as u32, 200 + k as u32] })
        .collect()
}

fn quest(id: u32, story_id: u32) -> Quest {
    Quest { id, name: format!("quest {}", id), story_id }
}

fn table_entries(t: &WeightTable) -> Vec<(String, u32)> {
    t.entries.clone()
}

fn group<'a>(t: &'a Trigger) -> &'a OptionGroup {
    assert_eq!(t.options.len(), 1);
    assert_eq!(t.options[0].0, "Guild Wars 2");
    &t.options[0].1
}

fn value<'a>(g: &'a OptionGroup, name: &str) -> &'a OptionValue {
    &g.entries.iter().find(|e| e.0 == name).expect("option present").1
}

fn text(v: &OptionValue) -> String {
    match v {
        OptionValue::Value(x) => x.clone(),
        OptionValue::Table(_) => panic!("expected a text value"),
    }
}

fn table(v: &OptionValue) -> Vec<(String, u32)> {
    match v {
        OptionValue::Table(t) => table_entries(t),
        OptionValue::Value(_) => panic!("expected a table"),
    }
}

fn input_of(chars: Vec<(&str, CharacterInput)>) -> Input {
    Input { api_key: s("KEY"), characters: chars.into_iter().map(|(n, c)| (s(n), c)).collect() }
}

fn overrides(pairs: &[(&str, u32)]) -> WeightTable {
    let mut t = WeightTable::new();
    for (k, w) in pairs {
        t.insert(s(k), *w);
    }
    t
}

#[test]
fn storyline_constants() {
    let all = Storyline::all();
    assert_eq!(all.len(), 10);
    assert_eq!(all[0], Storyline::Core);
    assert_eq!(all[9], Storyline::SecretsOfTheObscure);
    assert_eq!(Storyline::Core.id(), "215AAA0F-CDAC-4F93-86DA-C155A99B5784");
    assert_eq!(Storyline::PathOfFire.snake_case(), "path_of_fire");
    assert_eq!(Storyline::Season4.default_weight(), 64);
    assert_eq!(Storyline::IcebroodSaga.max_quests(), 41);
    assert_eq!(Storyline::EndOfDragons.index(), 8);
    assert_eq!(default_weight(), 50);
}

#[test]
fn endpoint_urls() {
    assert_eq!(characters_url("TOKEN"), "https://api.guildwars2.com/v2/characters?access_token=TOKEN");
    assert_eq!(
        character_core_url("Mara", "T"),
        "https://api.guildwars2.com/v2/characters/Mara/core?access_token=T"
    );
    assert_eq!(
        character_quests_url("Mara", "T"),
        "https://api.guildwars2.com/v2/characters/Mara/quests?access_token=T"
    );
    assert_eq!(
        season_url(Storyline::Season1),
        "https://api.guildwars2.com/v2/stories/seasons/A49D0CD7-E725-4141-8E10-180F1CED7CAF"
    );
    assert_eq!(quests_url(), "https://api.guildwars2.com/v2/quests");
}

#[test]
fn quest_batches_hold_a_hundred_ids() {
    assert_eq!(quest_batch_url(&[1, 22, 333]), "https://api.guildwars2.com/v2/quests?ids=1,22,333,");
    assert_eq!(quest_batch_url(&[]), "https://api.guildwars2.com/v2/quests?ids=");
    let ids: Vec<u32> = (1..=250).collect();
    let urls = quest_batch_urls(&ids);
    assert_eq!(urls.len(), 3);
    assert!(urls[0].ends_with("?ids=1,2,3,4,5,6,7,8,9,10,11,12,13,14,15,16,17,18,19,20,21,22,23,24,25,26,27,28,29,30,31,32,33,34,35,36,37,38,39,40,41,42,43,44,45,46,47,48,49,50,51,52,53,54,55,56,57,58,59,60,61,62,63,64,65,66,67,68,69,70,71,72,73,74,75,76,77,78,79,80,81,82,83,84,85,86,87,88,89,90,91,92,93,94,95,96,97,98,99,100,"));
    assert!(urls[2].ends_with("?ids=201,202,203,204,205,206,207,208,209,210,211,212,213,214,215,216,217,218,219,220,221,222,223,224,225,226,227,228,229,230,231,232,233,234,235,236,237,238,239,240,241,242,243,244,245,246,247,248,249,250,"));
    assert_eq!(quest_batch_urls(&vec![]).len(), 0);
    assert_eq!(quest_batch_urls(&(1..=100).collect()).len(), 1);
}

#[test]
fn selected_names_filter_by_selection() {
    let remote = vec![s("A"), s("B"), s("C")];
    assert_eq!(selected_names(&remote, &vec![]), remote);
    assert_eq!(selected_names(&remote, &vec![s("C"), s("A"), s("Z")]), vec![s("A"), s("C")]);
}

#[test]
fn weight_table_insert_replaces() {
    let mut t = WeightTable::new();
    assert_eq!(t.insert(s("a"), 1), None);
    assert_eq!(t.insert(s("b"), 2), None);
    assert_eq!(t.insert(s("a"), 7), Some(1));
    assert_eq!(table_entries(&t), vec![(s("a"), 7), (s("b"), 2)]);
    assert_eq!(t.get(&s("b")), Some(2));
    assert_eq!(t.get(&s("c")), None);
    let mut v = OptionValue::Table(WeightTable::new());
    assert_eq!(v.insert(s("x"), 3), None);
    assert_eq!(v.insert(s("x"), 4), Some(3));
    assert_eq!(table(&v), vec![(s("x"), 4)]);
}

#[test]
fn trigger_new_is_empty() {
    let t = Trigger::new(s("character"), s("Mara"));
    assert_eq!(t.option_category, "Guild Wars 2");
    assert_eq!(t.option_name, "character");
    assert_eq!(t.option_result, "Mara");
    assert!(t.options.is_empty());
}

#[test]
fn output_defaults() {
    let o = OutputOptions::new();
    assert_eq!(o.required_mist_fragments, 10);
    assert_eq!(o.extra_mist_fragments, 5);
    assert!(o.group_content.entries.is_empty());
    let d = Output::default();
    assert_eq!(d.name, "Player{number}");
    assert_eq!(d.description, "Customized Guild Wars 2 Template");
    assert_eq!(d.game, "Guild Wars 2");
    assert_eq!(table_entries(&d.game_options.group_content), vec![(s("none"), 50), (s("five_man"), 25), (s("ten_man"), 10)]);
    assert_eq!(d.game_options.starting_mainhand_weapon.get(&s("random_proficient")), Some(50));
    assert!(d.game_options.triggers.is_empty());
    assert!(d.game_options.character.entries.is_empty());
}

#[test]
fn completion_count_skips_unknown_quests() {
    let catalog = QuestCatalog::from_quests(&vec![quest(1, 100), quest(2, 100), quest(3, 300)]);
    assert_eq!(catalog.story_of(1), Some(100));
    assert_eq!(catalog.story_of(9), None);
    // quest 9 is not in the catalog and is left out; quest 3 is another season's
    assert_eq!(completed_count(&vec![1, 2, 3, 9], &catalog, &vec![100, 101]), 2);
    assert_eq!(completed_count(&vec![], &catalog, &vec![100]), 0);
}

#[test]
fn missing_season_is_an_error() {
    let mut seasons = all_seasons();
    seasons.remove(3);
    assert_eq!(SeasonIndex::build(&seasons).err(), Some(CatalogError::MissingSeason(Storyline::HeartOfThorns)));
    assert!(SeasonIndex::build(&all_seasons()).is_ok());
    let input = input_of(vec![]);
    assert!(matches!(
        build_output(&input, &vec![], &vec![], &vec![], &seasons),
        Err(CatalogError::MissingSeason(Storyline::HeartOfThorns))
    ));
}

#[test]
fn absent_character_is_random() {
    let remote = vec![Character { name: s("Other"), race: s("Asura"), profession: s("Thief") }];
    assert_eq!(find_character(&remote, &s("Mara")), None);
    let p = progress_of(&remote, &s("Mara"), &None);
    assert_eq!(p.profession, "random");
    assert_eq!(p.race, "random");
    assert!(p.completed.is_none());
    let found = progress_of(&remote, &s("Other"), &Some(vec![4]));
    assert_eq!(found.profession, "Thief");
    assert_eq!(found.race, "Asura");
    assert_eq!(found.completed, Some(vec![4]));
    let r = resolve_progress(None, Some(vec![1]));
    assert!(r.completed.is_none());
}

#[test]
fn mara_not_found_uses_defaults() {
    let input = input_of(vec![("Mara", CharacterInput { weight: 50, storyline: None })]);
    let out = build_output(&input, &vec![], &vec![None], &vec![], &all_seasons()).expect("all seasons present");
    let opts = &out.game_options;
    assert_eq!(table_entries(&opts.character), vec![(s("Mara"), 50)]);
    assert_eq!(opts.triggers.len(), 11);
    let head = &opts.triggers[0];
    assert_eq!(head.option_name, "character");
    assert_eq!(head.option_result, "Mara");
    let g = group(head);
    assert_eq!(table(value(g, "character_profession")), vec![(s("random"), 50)]);
    assert_eq!(table(value(g, "character_race")), vec![(s("random"), 50)]);
    let stories = table(value(g, "storyline"));
    assert_eq!(stories.len(), 10);
    for (k, st) in Storyline::all().iter().enumerate() {
        assert_eq!(stories[k], (format!("{} Mara", st.snake_case()), st.default_weight()));
        let t = &opts.triggers[k + 1];
        assert_eq!(t.option_name, "storyline");
        assert_eq!(t.option_result, format!("{} Mara", st.snake_case()));
        assert_eq!(text(value(group(t), "max_quests")), st.max_quests().to_string());
        assert_eq!(text(value(group(t), "storyline")), st.snake_case());
    }
}

#[test]
fn core_override_only() {
    let input = input_of(vec![("Mara", CharacterInput { weight: 20, storyline: Some(overrides(&[("core", 5)])) })]);
    let out = build_output(&input, &vec![], &vec![None], &vec![], &all_seasons()).unwrap();
    let opts = &out.game_options;
    assert_eq!(opts.triggers.len(), 2);
    assert_eq!(table(value(group(&opts.triggers[0]), "storyline")), vec![(s("core Mara"), 5)]);
    assert_eq!(opts.triggers[1].option_result, "core Mara");
    assert_eq!(table_entries(&opts.character), vec![(s("Mara"), 20)]);
}

#[test]
fn overrides_follow_enumeration_order_and_skip_unknown_keys() {
    let input = CharacterInput {
        weight: 1,
        storyline: Some(overrides(&[("season_4", 9), ("bogus", 3), ("core", 2)])),
    };
    assert_eq!(storyline_weight_for(&input, Storyline::Season4), Some(9));
    assert_eq!(storyline_weight_for(&input, Storyline::Season1), None);
    let progress = CharacterProgress { profession: s("Guardian"), race: s("Norn"), completed: None };
    let ix = SeasonIndex::build(&all_seasons()).unwrap();
    let ts = character_triggers(&s("Kel"), &input, &progress, &QuestCatalog::new(), &ix);
    let results: Vec<String> = ts.iter().map(|t| t.option_result.clone()).collect();
    assert_eq!(results, vec![s("Kel"), s("core Kel"), s("season_4 Kel")]);
    assert_eq!(table(value(group(&ts[0]), "character_profession")), vec![(s("Guardian"), 50)]);
}

#[test]
fn completed_quests_lower_max_quests() {
    // Core's season holds stories 100 and 200; quests 1 and 2 are in them, 3 is not, 4 is unknown
    let remote = vec![Character { name: s("Mara"), race: s("Human"), profession: s("Mesmer") }];
    let quests = vec![quest(1, 100), quest(2, 200), quest(3, 101)];
    let input = input_of(vec![("Mara", CharacterInput { weight: 50, storyline: Some(overrides(&[("core", 1), ("season_1", 1)])) })]);
    let out = build_output(&input, &remote, &vec![Some(vec![1, 2, 3, 4])], &quests, &all_seasons()).unwrap();
    let ts = &out.game_options.triggers;
    assert_eq!(ts.len(), 3);
    assert_eq!(text(value(group(&ts[1]), "max_quests")), "47");
    assert_eq!(text(value(group(&ts[2]), "max_quests")), "29");
}

#[test]
fn max_quests_may_go_negative() {
    let quests: Vec<Quest> = (1..=25).map(|i| quest(i, 103)).collect();
    let remote = vec![Character { name: s("Z"), race: s("Sylvari"), profession: s("Ranger") }];
    let input = input_of(vec![("Z", CharacterInput { weight: 50, storyline: Some(overrides(&[("heart_of_thorns", 1)])) })]);
    let out = build_output(&input, &remote, &vec![Some((1..=25).collect())], &quests, &all_seasons()).unwrap();
    assert_eq!(text(value(group(&out.game_options.triggers[1]), "max_quests")), "-9");
}

#[test]
fn triggers_follow_input_order() {
    let input = input_of(vec![
        ("B", CharacterInput { weight: 1, storyline: Some(overrides(&[("core", 1), ("path_of_fire", 1)])) }),
        ("A", CharacterInput { weight: 2, storyline: Some(overrides(&[("season_2", 1)])) }),
    ]);
    let out = build_output(&input, &vec![], &vec![None, None], &vec![], &all_seasons()).unwrap();
    let results: Vec<String> = out.game_options.triggers.iter().map(|t| t.option_result.clone()).collect();
    assert_eq!(results, vec![s("B"), s("core B"), s("path_of_fire B"), s("A"), s("season_2 A")]);
    assert_eq!(table_entries(&out.game_options.character), vec![(s("B"), 1), (s("A"), 2)]);
}

#[test]
fn output_is_the_same_for_any_fetch_order() {
    let remote1 = vec![
        Character { name: s("A"), race: s("Asura"), profession: s("Engineer") },
        Character { name: s("B"), race: s("Charr"), profession: s("Warrior") },
    ];
    let remote2 = vec![
        Character { name: s("B"), race: s("Charr"), profession: s("Warrior") },
        Character { name: s("A"), race: s("Asura"), profession: s("Engineer") },
    ];
    let q1 = vec![quest(1, 100), quest(2, 101)];
    let q2 = vec![quest(2, 101), quest(1, 100)];
    let mut seasons2 = all_seasons();
    seasons2.reverse();
    let input = input_of(vec![
        ("A", CharacterInput { weight: 3, storyline: None }),
        ("B", CharacterInput { weight: 4, storyline: None }),
    ]);
    let done = vec![Some(vec![1]), Some(vec![2, 1])];
    let o1 = build_output(&input, &remote1, &done, &q1, &all_seasons()).unwrap();
    let o2 = build_output(&input, &remote2, &done, &q2, &seasons2).unwrap();
    let view = |o: &Output| -> Vec<(String, String, Vec<String>)> {
        o.game_options
            .triggers
            .iter()
            .map(|t| {
                let g = group(t);
                let vals = g.entries.iter().map(|e| match &e.1 {
                    OptionValue::Value(v) => format!("{}={}", e.0, v),
                    OptionValue::Table(t) => format!("{}={:?}", e.0, table_entries(t)),
                }).collect();
                (t.option_name.clone(), t.option_result.clone(), vals)
            })
            .collect()
    };
    assert_eq!(view(&o1), view(&o2));
    assert_eq!(view(&o1).len(), 22);
}

#[test]
fn decimal_text_of_integers() {
    assert_eq!(decimal(0), "0");
    assert_eq!(decimal(7), "7");
    assert_eq!(decimal(1200), "1200");
    assert_eq!(decimal(-9), "-9");
    assert_eq!(decimal(i128::MIN), i128::MIN.to_string());
    assert_eq!(decimal(i128::MAX), i128::MAX.to_string());
}
