use athanor::backup::{
    as_user_args, btrfs_args, is_user_home, command, create_args, delete_args, display_args, keep, parse_id, plan,
    relative_to_home_root, restore_commands, snapshots_of, Command, CommandError, PathError, Stamp,
    HOURLY,
};
use chrono::{Duration, NaiveDate, NaiveDateTime};

fn at(day: u32, hour: u32, minute: u32) -> NaiveDateTime {
    NaiveDate::from_ymd_opt(2026, 9, day).and_then(|date| date.and_hms_opt(hour, minute, 0)).expect("valid test time")
}

fn stamp(t: NaiveDateTime) -> Stamp {
    (t.and_utc().timestamp(), t.and_utc().timestamp_subsec_nanos())
}

fn kept(times: &[NaiveDateTime]) -> Vec<bool> {
    let stamps: Vec<Stamp> = times.iter().map(|t| stamp(*t)).collect();
    keep(&stamps).expect("times chrono holds")
}

#[test]
fn paths_resolve_under_either_home_root() {
    for root in ["/var/home", "/home"] {
        assert_eq!(
            relative_to_home_root(&format!("{root}/tester/Documenti/a.txt")).expect("valid path"),
            "tester/Documenti/a.txt"
        );
    }
    assert_eq!(relative_to_home_root("/home/tester").expect("a whole home"), "tester");
}

#[test]
fn paths_outside_a_home_or_with_parent_steps_are_refused() {
    for path in [
        "/etc/shadow",
        "/var/home",
        "/home/",
        "/home/tester/../other",
        "tester/a",
        "/var/homeother/a",
        "/home/../etc",
    ] {
        assert!(relative_to_home_root(path).is_err(), "{path} must be refused");
    }
}

#[test]
fn a_dot_below_the_home_root_is_refused_with_its_own_error() {
    assert_eq!(relative_to_home_root("/etc/shadow"), Err(PathError::NotUnderHome));
    assert_eq!(relative_to_home_root("/home/tester/./a"), Err(PathError::NotInsideHome));
    assert_eq!(relative_to_home_root("/home//tester/a/"), Ok("tester/a".to_owned()));
}

#[test]
fn snapshot_names_round_trip_and_nothing_else_parses() {
    let id = "20260924T081500Z";
    assert!(parse_id(id).is_some());
    for name in ["", "latest", "2026-09-24T08:15:00Z", "20260924T081500", "20260924T081500Z/..", "../20260924T081500Z"] {
        assert!(parse_id(name).is_none(), "{name} must not be a snapshot name");
    }
}

#[test]
fn snapshots_are_listed_newest_first_and_other_entries_left_alone() {
    let names = vec![
        "20260924T081500Z".to_owned(),
        "lost+found".to_owned(),
        "20260925T000000Z".to_owned(),
        "20260101T120000Z".to_owned(),
    ];
    let listed: Vec<String> = snapshots_of(names).into_iter().map(|(_, id)| id).collect();
    assert_eq!(listed, ["20260925T000000Z", "20260924T081500Z", "20260101T120000Z"]);
}

#[test]
fn a_restore_lands_under_the_homes_restore_directory() {
    let p = plan("20260924T081500Z", "/home/tester/Documenti/sub/a.txt").expect("a path in a home");
    assert_eq!(p.home, "/var/home/tester");
    assert_eq!(p.parent, "tester/Documenti/sub");
    assert_eq!(p.name, "a.txt");
    assert_eq!(p.destination, "/var/home/tester/Ripristinati/20260924T081500Z/Documenti/sub");
    let whole = plan("20260924T081500Z", "/var/home/tester").expect("a whole home");
    assert_eq!((whole.parent.as_str(), whole.name.as_str()), (".", "tester"));
    assert_eq!(whole.destination, "/var/home/tester/Ripristinati/20260924T081500Z/");
    let top = plan("20260924T081500Z", "/var/home/tester/a.txt").expect("a file in a home");
    assert_eq!((top.parent.as_str(), top.name.as_str()), ("tester", "a.txt"));
    assert_eq!(top.destination, "/var/home/tester/Ripristinati/20260924T081500Z/");
}

#[test]
fn a_non_root_caller_is_told_to_use_sudo_and_a_bad_command_gets_the_usage() {
    let err = command(&["frobnicate".to_owned()], false).expect_err("unknown command");
    assert!(err.message().starts_with("usage:"));
    let err = command(&["list".to_owned()], false).expect_err("not root");
    assert!(err.message().contains("sudo athanor-backup list"));
    assert_eq!(command(&["list".to_owned()], true), Ok(Command::List));
    assert_eq!(
        command(&["restore".to_owned(), "x".to_owned(), "/home/a".to_owned()], true),
        Ok(Command::Restore { id: "x".into(), path: "/home/a".into() })
    );
    assert_eq!(command(&["restore".to_owned()], true), Err(CommandError::Usage));
}

#[test]
fn several_snapshots_in_one_hour_keep_only_the_newest() {
    let times: Vec<_> = (0..30).rev().map(|minute| at(23, 10, minute)).collect();
    let kept = kept(&times);
    assert!(kept[0]);
    assert_eq!(kept.iter().filter(|&&k| k).count(), 1);
}

#[test]
fn three_days_of_hourly_snapshots_keep_a_day_of_hours_and_each_day() {
    let newest = at(23, 23, 0);
    let times: Vec<_> = (0..72).map(|hours| newest - Duration::hours(hours)).collect();
    let kept = kept(&times);
    assert!(kept[..HOURLY].iter().all(|&k| k), "the newest 24 hours are kept");
    assert!(kept[24] && kept[48]);
    assert_eq!(kept.iter().filter(|&&k| k).count(), HOURLY + 2);
    assert!(!kept[71], "the oldest snapshot is pruned");
}

#[test]
fn weeks_reach_further_back_than_days() {
    let newest = at(30, 23, 0);
    let times: Vec<_> = (0..40 * 24).map(|hours| newest - Duration::hours(hours)).collect();
    let kept = kept(&times);
    let is_kept = |time: NaiveDateTime| times.iter().zip(&kept).any(|(&t, &k)| t == time && k);
    assert!(is_kept(at(24, 23, 0)) && !is_kept(at(23, 23, 0)));
    assert!(is_kept(at(20, 23, 0)) && is_kept(at(13, 23, 0)));
    assert!(!is_kept(at(6, 23, 0)));
    assert_eq!(kept.iter().filter(|&&k| k).count(), HOURLY + 6 + 2);
}

#[test]
fn nothing_is_pruned_below_the_limits() {
    let times: Vec<_> = (0..5).rev().map(|hour| at(23, hour, 0)).collect();
    assert!(kept(&times).iter().all(|&k| k));
}

#[test]
fn btrfs_is_quiet_and_snapshots_live_in_the_snapshot_directory() {
    assert_eq!(btrfs_args(&["subvolume", "list"]), ["-q", "subvolume", "list"]);
    assert_eq!(create_args("20260924T081500Z"), ["-q", "subvolume", "snapshot", "-r", "/var/home", "/var/home/.snapshots/20260924T081500Z"]);
    assert_eq!(delete_args("20260924T081500Z"), ["-q", "subvolume", "delete", "/var/home/.snapshots/20260924T081500Z"]);
}

#[test]
fn a_restore_runs_as_the_owner_without_privileges() {
    assert_eq!(
        as_user_args(1000, 1001, &["mkdir", "-p"]),
        ["--reuid", "1000", "--regid", "1001", "--init-groups", "--no-new-privs", "--inh-caps=-all", "--bounding-set=-all", "--", "mkdir", "-p"]
    );
    let plan = plan("20260924T081500Z", "/home/tester/Documenti/a.txt").expect("valid path");
    let (mkdir, copy) = restore_commands(&plan, 7);
    assert_eq!(mkdir, ["mkdir", "-p", "--", "/var/home/tester/Ripristinati/20260924T081500Z/Documenti"]);
    assert_eq!(copy, ["cp", "-a", "--reflink=auto", "--update=none-fail", "--", "/proc/self/fd/7/a.txt", "/var/home/tester/Ripristinati/20260924T081500Z/Documenti"]);
}

#[test]
fn a_failed_command_is_named_with_its_arguments() {
    assert_eq!(display_args(&["subvolume", "delete", "/var/home/.snapshots/x"]), "subvolume delete /var/home/.snapshots/x");
    assert_eq!(display_args(&[]), "");
}

#[test]
fn only_a_directory_not_owned_by_root_is_a_users_home() {
    assert!(is_user_home(true, 1000));
    assert!(!is_user_home(true, 0));
    assert!(!is_user_home(false, 1000));
}
