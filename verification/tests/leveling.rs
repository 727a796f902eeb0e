use jutils::database::leveling::{
    add_xp, get_leaderboard, get_leaderboard_page, get_user_level, get_user_leveling, get_user_rank,
    get_user_xp, leveling_or_new, recompute_levels, save_user_leveling, Leveling, LevelingError, UserLevel,
};
use jutils::database::timezones::Timezones;
use jutils::utils::leveling::event_handler::{award_message_xp, blacklisted, xp_eligible};

fn entry(id: &str, level: i64, xp: i64) -> UserLevel {
    UserLevel { user_id: id.to_string(), level, xp }
}

fn table(entries: Vec<UserLevel>) -> Leveling {
    Leveling { guild_id: "g".to_string(), levels: entries }
}

fn level_of(xp: i64) -> i64 {
    let mut u = entry("u", 0, xp);
    u.compute_level();
    u.level
}

#[test]
fn compute_level_thresholds() {
    assert_eq!(level_of(0), 0);
    assert_eq!(level_of(49), 0);
    assert_eq!(level_of(50), 1);
    assert_eq!(level_of(124), 1);
    assert_eq!(level_of(125), 2);
    assert_eq!(level_of(249), 2);
    assert_eq!(level_of(250), 3);
    assert_eq!(level_of(-10), 0);
    assert_eq!(level_of(i64::MAX), 607400099);
}

#[test]
fn compute_xp_required_values() {
    assert_eq!(entry("u", 0, 0).compute_xp_required(), 50);
    assert_eq!(entry("u", 1, 0).compute_xp_required(), 125);
    assert_eq!(entry("u", 2, 0).compute_xp_required(), 250);
    assert_eq!(entry("u", 10, 0).compute_xp_required(), 3050);
}

#[test]
fn level_matches_required_xp() {
    for level in 0..50i64 {
        let needed = entry("u", level, 0).compute_xp_required();
        assert_eq!(level_of(needed), level + 1);
        assert_eq!(level_of(needed - 1), level);
    }
}

#[test]
fn user_level_new_and_add_xp() {
    let mut u = UserLevel::new("42".to_string());
    assert_eq!((u.user_id.as_str(), u.level, u.xp), ("42", 0, 0));
    u.add_xp(130);
    assert_eq!((u.level, u.xp), (0, 130));
    u.compute_level();
    assert_eq!(u.level, 2);
}

#[test]
fn add_user_merges_existing_entry() {
    let mut l = table(vec![entry("a", 0, 10), entry("b", 1, 60)]);
    l.add_user(entry("b", 0, 70));
    assert_eq!(l.levels.len(), 2);
    assert_eq!((l.levels[1].user_id.as_str(), l.levels[1].xp, l.levels[1].level), ("b", 130, 2));
    assert_eq!((l.levels[0].xp, l.levels[0].level), (10, 0));
}

#[test]
fn add_user_appends_new_member() {
    let mut l = Leveling::new("g".to_string());
    assert!(l.levels.is_empty());
    l.add_user(entry("a", 0, 5));
    l.add_user(entry("c", 3, 400));
    assert_eq!(l.levels.len(), 2);
    assert_eq!((l.levels[1].user_id.as_str(), l.levels[1].level, l.levels[1].xp), ("c", 3, 400));
}

#[test]
fn add_user_keeps_ids_distinct() {
    let mut l = Leveling::new("g".to_string());
    for id in ["a", "b", "a", "c", "b", "a"] {
        l.add_user(entry(id, 0, 1));
    }
    let ids: Vec<&str> = l.levels.iter().map(|u| u.user_id.as_str()).collect();
    assert_eq!(ids, vec!["a", "b", "c"]);
    assert_eq!(l.levels[0].xp, 3);
}

#[test]
fn add_xp_counts_previous_experience_twice() {
    let mut l = table(vec![entry("a", 1, 100)]);
    add_xp(&mut l, "a".to_string(), 20);
    assert_eq!(l.levels[0].xp, 220);
    assert_eq!(l.levels[0].level, 2);
    add_xp(&mut l, "new".to_string(), 60);
    assert_eq!(l.levels.len(), 2);
    assert_eq!((l.levels[1].xp, l.levels[1].level), (60, 1));
}

#[test]
fn save_user_leveling_merges() {
    let mut l = table(vec![entry("a", 0, 10)]);
    save_user_leveling(&mut l, entry("a", 0, 40));
    assert_eq!((l.levels[0].xp, l.levels[0].level), (50, 1));
}

#[test]
fn user_lookups() {
    let l = table(vec![entry("a", 2, 130), entry("b", 0, 5)]);
    let u = get_user_leveling(&l, "a".to_string());
    assert_eq!((u.user_id.as_str(), u.level, u.xp), ("a", 2, 130));
    let missing = get_user_leveling(&l, "z".to_string());
    assert_eq!((missing.user_id.as_str(), missing.level, missing.xp), ("z", 0, 0));
    assert_eq!(get_user_level(&l, "a".to_string()), 2);
    assert_eq!(get_user_xp(&l, "b".to_string()), 5);
    assert_eq!(get_user_xp(&l, "z".to_string()), 0);
}

#[test]
fn user_rank_counts_members_with_more_xp() {
    let l = table(vec![entry("a", 0, 10), entry("b", 0, 30), entry("c", 0, 20), entry("d", 0, 30)]);
    assert_eq!(get_user_rank(&l, "b".to_string()), Ok(1));
    assert_eq!(get_user_rank(&l, "d".to_string()), Ok(1));
    assert_eq!(get_user_rank(&l, "c".to_string()), Ok(3));
    assert_eq!(get_user_rank(&l, "a".to_string()), Ok(4));
    assert_eq!(get_user_rank(&l, "x".to_string()), Err(LevelingError::UserNotFound));
}

#[test]
fn leaderboard_is_sorted_and_stable() {
    let l = table(vec![entry("a", 0, 10), entry("b", 0, 30), entry("c", 0, 20), entry("d", 0, 30), entry("e", 0, 10)]);
    let board = get_leaderboard(l);
    let ids: Vec<&str> = board.iter().map(|u| u.user_id.as_str()).collect();
    assert_eq!(ids, vec!["b", "d", "c", "a", "e"]);
}

#[test]
fn leaderboard_page_skips_then_takes_up_to_the_end_index() {
    let mk = || table((0..10).map(|i| entry(&i.to_string(), 0, 100 - i)).collect());
    let first: Vec<String> = get_leaderboard_page(mk(), 1, 3).into_iter().map(|u| u.user_id).collect();
    assert_eq!(first, vec!["0", "1", "2"]);
    let second: Vec<String> = get_leaderboard_page(mk(), 2, 3).into_iter().map(|u| u.user_id).collect();
    assert_eq!(second, vec!["3", "4", "5", "6", "7", "8"]);
    assert!(get_leaderboard_page(mk(), 5, 3).is_empty());
    assert!(get_leaderboard_page(mk(), 0, 3).is_empty());
}

#[test]
fn recompute_levels_fixes_every_entry() {
    let mut l = table(vec![entry("a", 9, 0), entry("b", 0, 250)]);
    recompute_levels(&mut l);
    assert_eq!((l.levels[0].level, l.levels[1].level), (0, 3));
}

#[test]
fn leveling_or_new_creates_missing_table() {
    let (l, fresh) = leveling_or_new(None, "g1".to_string());
    assert!(fresh);
    assert_eq!(l.guild_id, "g1");
    assert!(l.levels.is_empty());
    let (l2, fresh2) = leveling_or_new(Some(table(vec![entry("a", 0, 1)])), "g1".to_string());
    assert!(!fresh2);
    assert_eq!(l2.levels.len(), 1);
}

#[test]
fn award_message_xp_reports_level_change() {
    let mut l = table(vec![entry("a", 0, 40)]);
    assert_eq!(award_message_xp(&mut l, "a".to_string(), 15), (0, 1));
    assert_eq!(l.levels[0].xp, 55);
    assert_eq!(award_message_xp(&mut l, "b".to_string(), 200), (0, 2));
    assert_eq!(l.levels.len(), 2);
}

#[test]
fn xp_eligibility() {
    assert!(xp_eligible(false, false, true, "hey"));
    assert!(!xp_eligible(true, false, true, "hello"));
    assert!(!xp_eligible(false, true, true, "hello"));
    assert!(!xp_eligible(false, false, false, "hello"));
    assert!(!xp_eligible(false, false, true, "hi"));
    assert!(xp_eligible(false, false, true, "é!"));
}

#[test]
fn blacklists() {
    let chans = vec!["1".to_string(), "2".to_string()];
    let roles = vec!["10".to_string()];
    assert!(blacklisted(&chans, "2", &roles, &vec![]));
    assert!(blacklisted(&chans, "3", &roles, &vec!["5".to_string(), "10".to_string()]));
    assert!(!blacklisted(&chans, "3", &roles, &vec!["5".to_string()]));
}

#[test]
fn timezone_record() {
    let t = Timezones::new("7".to_string(), "Europe/Paris".to_string());
    assert_eq!((t.user_id.as_str(), t.timezone.as_str()), ("7", "Europe/Paris"));
}

#[test]
fn ranks_follow_the_leaderboard() {
    let l = table(vec![entry("a", 0, 10), entry("b", 0, 30), entry("c", 0, 20), entry("d", 0, 30), entry("e", 0, 10)]);
    let board = get_leaderboard(l.clone());
    let ranks: Vec<i64> = board.iter().map(|u| get_user_rank(&l, u.user_id.clone()).unwrap()).collect();
    assert_eq!(ranks, vec![1, 1, 3, 4, 4]);
    for (i, rank) in ranks.iter().enumerate() {
        assert!(*rank <= i as i64 + 1);
        if i == 0 || board[i - 1].xp > board[i].xp {
            assert_eq!(*rank, i as i64 + 1);
        }
    }
}

#[test]
fn add_user_keeps_ids_and_adds_experience() {
    let mut l = table(vec![entry("a", 0, 10), entry("b", 1, 120)]);
    let total = |l: &Leveling| l.levels.iter().map(|u| u.xp).sum::<i64>();
    let ids = |l: &Leveling| {
        let mut v: Vec<String> = l.levels.iter().map(|u| u.user_id.clone()).collect();
        v.sort();
        v
    };
    let before = total(&l);
    l.add_user(entry("b", 0, 30));
    assert_eq!(total(&l), before + 30);
    assert_eq!(ids(&l), vec!["a".to_string(), "b".to_string()]);
    assert_eq!(l.levels.len(), 2);
    l.add_user(entry("c", 0, 7));
    assert_eq!(total(&l), before + 37);
    assert_eq!(ids(&l), vec!["a".to_string(), "b".to_string(), "c".to_string()]);
    assert_eq!(l.levels.len(), 3);
    assert_eq!(l.guild_id, "g");
}
