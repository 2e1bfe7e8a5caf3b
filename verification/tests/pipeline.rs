use runcache::codec::{read_cache, write_cache};
use runcache::lookup::{complete_lookup, run_details_url, start_lookup, LookupStep};
use runcache::response::key::{Character, Dungeon, Items, KeyResponse, Roster};
use runcache::store::{append_to, lookup_in};
use runcache::summary::{Role, RosterEntry, RunSummary};

fn entry(role: Role, item_level: i64, name: &str) -> RosterEntry {
    RosterEntry { role, item_level, character_name: name.to_string() }
}

fn grim_batol() -> RunSummary {
    RunSummary {
        id: 42,
        num_chests: 3,
        level: 10,
        dungeon_name: "Grim Batol".to_string(),
        roster: vec![
            entry(Role::Tank, 591, "Tacostruck"),
            entry(Role::Healer, 622, "Ghostbrew"),
            entry(Role::Other("dps".to_string()), 632, "Spikyy"),
        ],
    }
}

fn raw_member(role: &str, item_level: i64, name: &str) -> Roster {
    Roster {
        character: Character { name: name.to_string() },
        items: Items { item_level_equipped: item_level },
        role: role.to_string(),
    }
}

fn grim_batol_response() -> KeyResponse {
    KeyResponse {
        season: "season-tww-2".to_string(),
        status: "finished".to_string(),
        dungeon: Dungeon { name: "Grim Batol".to_string(), short_name: "GB".to_string() },
        keystone_run_id: 42,
        mythic_level: 10,
        num_chests: 3,
        roster: vec![
            raw_member("dps", 632, "Spikyy"),
            raw_member("tank", 591, "Tacostruck"),
            raw_member("healer", 622, "Ghostbrew"),
        ],
    }
}

#[test]
fn render_format_exact() {
    let report = runcache::render::render(&grim_batol());
    assert_eq!(
        report,
        "+++10 - Grim Batol\n\ntank\t591\tTacostruck\nhealer\t622\tGhostbrew\ndps\t632\tSpikyy\n"
    );
}

#[test]
fn render_no_chests_empty_roster() {
    let s = RunSummary {
        id: 1,
        num_chests: 0,
        level: 7,
        dungeon_name: "Ara-Kara".to_string(),
        roster: vec![],
    };
    assert_eq!(runcache::render::render(&s), "7 - Ara-Kara\n\n");
}

#[test]
fn sort_is_stable_and_promotes_tank_healer() {
    let mut roster = vec![
        raw_member("dps", 1, "A"),
        raw_member("tank", 2, "B"),
        raw_member("healer", 3, "C"),
        raw_member("dps", 4, "D"),
    ];
    runcache::roster::sort_roster(&mut roster);
    let names: Vec<&str> = roster.iter().map(|m| m.character.name.as_str()).collect();
    assert_eq!(names, vec!["B", "C", "A", "D"]);
}

#[test]
fn sort_keeps_unknown_roles_in_order() {
    let mut roster = vec![
        raw_member("augmentation", 1, "A"),
        raw_member("dps", 2, "B"),
        raw_member("tank", 3, "C"),
        raw_member("augmentation", 4, "D"),
    ];
    runcache::roster::sort_roster(&mut roster);
    let names: Vec<&str> = roster.iter().map(|m| m.character.name.as_str()).collect();
    assert_eq!(names, vec!["C", "A", "B", "D"]);
}

#[test]
fn append_then_lookup_round_trips() {
    let mut cache: Vec<RunSummary> = Vec::new();
    append_to(&mut cache, grim_batol());
    let other = RunSummary {
        id: 7,
        num_chests: 1,
        level: 12,
        dungeon_name: "The Dawnbreaker".to_string(),
        roster: vec![entry(Role::Tank, 600, "Solo")],
    };
    append_to(&mut cache, other);
    let text = write_cache(&cache);
    let reread = read_cache(&text).expect("a written cache reads back");
    let found = lookup_in(&reread, 42).expect("id 42 is present");
    assert_eq!(found, grim_batol());
    let found7 = lookup_in(&reread, 7).expect("id 7 is present");
    assert_eq!(found7.dungeon_name, "The Dawnbreaker");
}

#[test]
fn append_same_id_keeps_one_entry() {
    let mut cache: Vec<RunSummary> = Vec::new();
    append_to(&mut cache, grim_batol());
    let mut replacement = grim_batol();
    replacement.level = 11;
    append_to(&mut cache, replacement);
    assert_eq!(cache.len(), 1);
    assert_eq!(cache.iter().filter(|s| s.id == 42).count(), 1);
    let found = lookup_in(&cache, 42).expect("id 42 is present");
    assert_eq!(found.level, 11);
}

#[test]
fn lookup_in_empty_cache_finds_nothing() {
    let cache: Vec<RunSummary> = Vec::new();
    assert!(lookup_in(&cache, 42).is_none());
}

#[test]
fn missing_file_is_an_empty_cache() {
    match start_lookup(None, 42) {
        LookupStep::Miss { url, cache, cache_was_corrupt } => {
            assert!(cache.is_empty());
            assert!(!cache_was_corrupt);
            assert_eq!(
                url,
                "https://raider.io/api/v1/mythic-plus/run-details?season=season-tww-2&id=42"
            );
        }
        LookupStep::Hit { .. } => panic!("an empty cache cannot hit"),
    }
}

#[test]
fn corrupt_content_recovers_to_one_entry() {
    let step = start_lookup(Some("{ not a cache ]"), 42);
    match step {
        LookupStep::Miss { cache, cache_was_corrupt, .. } => {
            assert!(cache_was_corrupt);
            assert!(cache.is_empty());
            let outcome = complete_lookup(cache, grim_batol_response());
            let reread = read_cache(&outcome.new_content).expect("fresh cache reads back");
            assert_eq!(reread.len(), 1);
            assert_eq!(reread[0].id, 42);
        }
        LookupStep::Hit { .. } => panic!("corrupt content cannot hit"),
    }
}

#[test]
fn truncated_cache_is_rejected() {
    let mut cache: Vec<RunSummary> = Vec::new();
    append_to(&mut cache, grim_batol());
    let text = write_cache(&cache);
    let truncated = &text[..text.len() - 3];
    assert!(read_cache(truncated).is_none());
    let mut padded = text.clone();
    padded.push('x');
    assert!(read_cache(&padded).is_none());
}

#[test]
fn second_lookup_hits_with_identical_report() {
    let step = start_lookup(None, 42);
    let cache = match step {
        LookupStep::Miss { cache, .. } => cache,
        LookupStep::Hit { .. } => panic!("an empty cache cannot hit"),
    };
    let outcome = complete_lookup(cache, grim_batol_response());
    assert_eq!(
        outcome.report,
        "+++10 - Grim Batol\n\ntank\t591\tTacostruck\nhealer\t622\tGhostbrew\ndps\t632\tSpikyy\n"
    );
    match start_lookup(Some(&outcome.new_content), 42) {
        LookupStep::Hit { report } => assert_eq!(report, outcome.report),
        LookupStep::Miss { .. } => panic!("the appended id must hit"),
    }
}

#[test]
fn normalization_preserves_free_text_roles() {
    let resp = KeyResponse {
        season: "season-tww-2".to_string(),
        status: "finished".to_string(),
        dungeon: Dungeon { name: "Mists".to_string(), short_name: "MISTS".to_string() },
        keystone_run_id: 9,
        mythic_level: 2,
        num_chests: 2,
        roster: vec![raw_member("shadow", 500, "Umbra"), raw_member("tank", 501, "Wall")],
    };
    let s = runcache::lookup::build_summary(resp);
    assert_eq!(s.roster[0].role, Role::Tank);
    assert_eq!(s.roster[1].role, Role::Other("shadow".to_string()));
    let report = runcache::render::render(&s);
    assert_eq!(report, "++2 - Mists\n\ntank\t501\tWall\nshadow\t500\tUmbra\n");
}

#[test]
fn extreme_ids_survive_the_codec() {
    let mut cache: Vec<RunSummary> = Vec::new();
    let mut low = grim_batol();
    low.id = i64::MIN;
    low.num_chests = 0;
    let mut high = grim_batol();
    high.id = i64::MAX;
    append_to(&mut cache, low);
    append_to(&mut cache, high);
    let text = write_cache(&cache);
    let reread = read_cache(&text).expect("extremes read back");
    assert_eq!(reread.len(), 2);
    assert_eq!(reread[0].id, i64::MIN);
    assert_eq!(reread[1].id, i64::MAX);
}

#[test]
fn names_with_separators_survive_the_codec() {
    let tricky = RunSummary {
        id: 3,
        num_chests: 2,
        level: 15,
        dungeon_name: "A B\nC:D 7:".to_string(),
        roster: vec![entry(Role::Other("off tank".to_string()), 10, "x 9:\ny")],
    };
    let mut cache: Vec<RunSummary> = Vec::new();
    append_to(&mut cache, tricky);
    let text = write_cache(&cache);
    let reread = read_cache(&text).expect("tricky text reads back");
    assert_eq!(reread[0].dungeon_name, "A B\nC:D 7:");
    assert_eq!(reread[0].roster[0].character_name, "x 9:\ny");
    assert_eq!(reread[0].roster[0].role, Role::Other("off tank".to_string()));
}

#[test]
fn url_embeds_season_and_id() {
    assert_eq!(
        run_details_url(1234567),
        "https://raider.io/api/v1/mythic-plus/run-details?season=season-tww-2&id=1234567"
    );
}
