use slp_sorter::classify::{
    extract_features, plan_slp, route, FeatureSet, OutputFolder, RoutingDecision,
};
use slp_sorter::collect::{bytes_equal, get_all_slps_paths, has_component, is_replay_candidate, ScanEntry};
use slp_sorter::config::{
    SortConfig, CPU_OUTPUT_FOLDER_NAME, HANDWARMERS_OUTPUT_FOLDER_NAME, MINIMUM_TOURNAMENT_DAMAGE,
};
use slp_sorter::damage::{calculate_damage_done, port_damage};
use slp_sorter::game::{game_has_cpu_player, GameRecord, PlayerKind};
use slp_sorter::relocate::{destination_path, folder_name};

fn entry(path: &str, is_file: bool) -> ScanEntry {
    let components: Vec<Vec<u8>> = path.split('/').map(|c| c.as_bytes().to_vec()).collect();
    let name = path.rsplit('/').next().unwrap();
    let extension = match name.rfind('.') {
        Some(0) | None => None,
        Some(dot) => Some(name[dot + 1..].as_bytes().to_vec()),
    };
    ScanEntry { components, extension, is_file }
}

fn game(players: Vec<PlayerKind>, percents: Vec<Vec<u32>>) -> GameRecord {
    GameRecord { players, percents }
}

#[test]
fn default_config_values() {
    let c = SortConfig::new();
    assert_eq!(c.cpu_folder, b"@cpu_games".to_vec());
    assert_eq!(c.handwarmers_folder, b"@handwarmers".to_vec());
    assert_eq!(c.extension, b"slp".to_vec());
    assert_eq!(c.min_tournament_damage, 100_000);
    assert_eq!(CPU_OUTPUT_FOLDER_NAME, "@cpu_games");
    assert_eq!(HANDWARMERS_OUTPUT_FOLDER_NAME, "@handwarmers");
}

#[test]
fn rising_readings_give_last_less_first() {
    assert_eq!(port_damage(&vec![0, 10_000, 30_000, 30_000, 75_500]), 75_500);
    assert_eq!(port_damage(&vec![5_000, 6_000, 9_000]), 4_000);
}

#[test]
fn stock_loss_adds_nothing() {
    assert_eq!(port_damage(&vec![0, 20_000, 45_000, 0, 15_000]), 60_000);
}

#[test]
fn short_sequences_add_nothing() {
    assert_eq!(port_damage(&vec![]), 0);
    assert_eq!(port_damage(&vec![42_000]), 0);
    assert_eq!(port_damage(&vec![7_000, 7_000, 7_000]), 0);
}

#[test]
fn damage_adds_over_ports() {
    let g = game(
        vec![PlayerKind::Human, PlayerKind::Human],
        vec![vec![0, 20_000, 45_000, 0, 15_000], vec![0, 30_000, 10_000, 50_000], vec![]],
    );
    assert_eq!(calculate_damage_done(&g), 60_000 + 70_000);
}

#[test]
fn damage_of_monotone_game_is_sum_of_rises() {
    let g = game(
        vec![PlayerKind::Human, PlayerKind::Human],
        vec![vec![1_000, 2_000, 8_000], vec![0, 0, 3_500, 99_000]],
    );
    assert_eq!(calculate_damage_done(&g), (8_000 - 1_000) + (99_000 - 0));
}

#[test]
fn huge_rises_hold_at_the_largest_count() {
    let g = game(vec![], vec![vec![0, u32::MAX, 0, u32::MAX], vec![0, u32::MAX]]);
    assert_eq!(calculate_damage_done(&g), 3 * (u32::MAX as u64));
}

#[test]
fn cpu_player_is_found() {
    assert!(game_has_cpu_player(&game(vec![PlayerKind::Human, PlayerKind::Cpu], vec![])));
    assert!(!game_has_cpu_player(&game(vec![PlayerKind::Human, PlayerKind::Demo], vec![])));
    assert!(!game_has_cpu_player(&game(vec![], vec![])));
}

#[test]
fn cpu_game_goes_to_cpu_folder_even_with_low_damage() {
    let c = SortConfig::new();
    let g = game(vec![PlayerKind::Cpu, PlayerKind::Human], vec![vec![0, 5_000]]);
    let plan = plan_slp(&Some(g), &c);
    assert_eq!(plan.decision, RoutingDecision::MoveTo(OutputFolder::Cpu));
    assert_eq!(
        plan.features,
        Some(FeatureSet { has_cpu_participant: true, total_damage: 5_000 })
    );
    let high = FeatureSet { has_cpu_participant: true, total_damage: 900_000 };
    assert_eq!(route(&high, &c), RoutingDecision::MoveTo(OutputFolder::Cpu));
}

#[test]
fn threshold_is_strict() {
    let c = SortConfig::new();
    let at = FeatureSet { has_cpu_participant: false, total_damage: MINIMUM_TOURNAMENT_DAMAGE };
    let below = FeatureSet { has_cpu_participant: false, total_damage: 99_999 };
    let above = FeatureSet { has_cpu_participant: false, total_damage: 250_000 };
    assert_eq!(route(&at, &c), RoutingDecision::NoMove);
    assert_eq!(route(&below, &c), RoutingDecision::MoveTo(OutputFolder::Handwarmers));
    assert_eq!(route(&above, &c), RoutingDecision::NoMove);
}

#[test]
fn low_damage_game_is_a_handwarmer() {
    let c = SortConfig::new();
    let g = game(vec![PlayerKind::Human, PlayerKind::Human], vec![vec![0, 40_000], vec![0, 59_999]]);
    assert_eq!(
        extract_features(&g),
        FeatureSet { has_cpu_participant: false, total_damage: 99_999 }
    );
    assert_eq!(
        plan_slp(&Some(g), &c).decision,
        RoutingDecision::MoveTo(OutputFolder::Handwarmers)
    );
    let g2 = game(vec![PlayerKind::Human], vec![vec![0, 40_000], vec![0, 60_000]]);
    assert_eq!(plan_slp(&Some(g2), &c).decision, RoutingDecision::NoMove);
}

#[test]
fn undecodable_file_stays() {
    let plan = plan_slp(&None, &SortConfig::new());
    assert_eq!(plan.decision, RoutingDecision::NoMove);
    assert_eq!(plan.features, None);
}

#[test]
fn collector_keeps_replays_outside_output_folders() {
    let c = SortConfig::new();
    let entries = vec![
        entry("./a/game1.slp", true),
        entry("./@cpu_games/game2.slp", true),
        entry("./x/@handwarmers/y/game3.slp", true),
        entry("./@cpu_games_old/game4.slp", true),
        entry("./notes.txt", true),
        entry("./dir.slp", false),
        entry("./README", true),
        entry("./.slp", true),
        entry("./b/game5.slp", true),
        entry("./my@handwarmers/game6.slp", true),
    ];
    assert_eq!(get_all_slps_paths(&entries, &c), vec![0, 3, 8, 9]);
    assert!(!is_replay_candidate(&entries[1], &c));
    assert!(is_replay_candidate(&entries[3], &c));
    assert_eq!(get_all_slps_paths(&vec![], &c), Vec::<usize>::new());
}

#[test]
fn component_match_is_exact() {
    let e = entry("./@cpu_games_x/@handwarmers/a.slp", true);
    assert!(!has_component(&e, &b"@cpu_games".to_vec()));
    assert!(has_component(&e, &b"@handwarmers".to_vec()));
    assert!(bytes_equal(&b"slp".to_vec(), &b"slp".to_vec()));
    assert!(!bytes_equal(&b"slp".to_vec(), &b"slpx".to_vec()));
    assert!(!bytes_equal(&b"slq".to_vec(), &b"slp".to_vec()));
}

#[test]
fn moved_file_keeps_its_name() {
    let c = SortConfig::new();
    assert_eq!(
        destination_path(&c, OutputFolder::Cpu, &b"Game_1.slp".to_vec()),
        b"@cpu_games/Game_1.slp".to_vec()
    );
    assert_eq!(
        destination_path(&c, OutputFolder::Handwarmers, &b"g.slp".to_vec()),
        b"@handwarmers/g.slp".to_vec()
    );
    assert_eq!(folder_name(&c, OutputFolder::Cpu), &b"@cpu_games".to_vec());
}

#[test]
fn second_run_moves_nothing() {
    let c = SortConfig::new();
    let games = vec![
        Some(game(vec![PlayerKind::Cpu], vec![vec![0, 500_000]])),
        Some(game(vec![PlayerKind::Human], vec![vec![0, 10_000]])),
        Some(game(vec![PlayerKind::Human], vec![vec![0, 300_000]])),
        None,
    ];
    let names = ["g1.slp", "g2.slp", "g3.slp", "g4.slp"];
    let first: Vec<ScanEntry> = names.iter().map(|n| entry(&format!("./{}", n), true)).collect();
    let mut second_paths: Vec<String> = Vec::new();
    let mut moved = 0;
    for i in get_all_slps_paths(&first, &c) {
        let plan = plan_slp(&games[i], &c);
        match plan.decision {
            RoutingDecision::MoveTo(f) => {
                moved += 1;
                let dest = destination_path(&c, f, &names[i].as_bytes().to_vec());
                second_paths.push(format!("./{}", String::from_utf8(dest).unwrap()));
            }
            RoutingDecision::NoMove => second_paths.push(format!("./{}", names[i])),
        }
    }
    assert_eq!(moved, 2);
    let second: Vec<ScanEntry> = second_paths.iter().map(|p| entry(p, true)).collect();
    let mut moved_again = 0;
    for i in get_all_slps_paths(&second, &c) {
        if plan_slp(&games[i], &c).decision != RoutingDecision::NoMove {
            moved_again += 1;
        }
    }
    assert_eq!(moved_again, 0);
}
