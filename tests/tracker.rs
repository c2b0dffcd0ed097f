use patrol_time::channels::get_main_channel;
use patrol_time::config::{Config, PatrolTime, RoleConfig};
use patrol_time::store::{create_patrol_voice, patrol_row, patrol_voice_rows};
use patrol_time::tracker::{
    decide_voice_update, ChannelLog, PatrolRecord, PatrolTracker, TrackerError, VoiceAction,
};
use std::collections::HashSet;

const GUILD: u64 = 1;
const USER: u64 = 7;

fn config(monitored: &[u64], bad: &[&str]) -> Config {
    Config {
        token: "SECRET-REDACTED".to_owned(),
        guild_id: GUILD,
        guild_error_text: "no guild".to_owned(),
        roles: RoleConfig { lpd: 5 },
        patrol_time: PatrolTime {
            monitored_categories: HashSet::new(),
            monitored_channels: monitored.iter().copied().collect(),
            ignored_channels: HashSet::new(),
            bad_main_channel_starts: bad.iter().map(|s| s.to_string()).collect(),
        },
    }
}

/// Runs one update; on going off duty, closes the patrol with the given names.
fn step(
    t: &mut PatrolTracker,
    cfg: &Config,
    channel: Option<u64>,
    now: i64,
    names: &dyn Fn(u64) -> Option<String>,
) -> Option<PatrolRecord> {
    let action = t.voice_state_update(cfg, USER, Some(GUILD), channel, None, now).unwrap();
    if action == VoiceAction::GoOffDuty {
        let log = t.voice_log(USER);
        let ns: Vec<Option<String>> = log.iter().map(|l| names(l.channel_id)).collect();
        let rec = t
            .go_off_duty(USER, &ns, &cfg.patrol_time.bad_main_channel_starts, now)
            .unwrap();
        t.finish_off_duty(USER);
        return Some(rec);
    }
    None
}

fn no_names(_: u64) -> Option<String> {
    None
}

#[test]
fn simple_patrol() {
    let cfg = config(&[100], &[]);
    let mut t = PatrolTracker::new();
    assert!(step(&mut t, &cfg, Some(100), 0, &no_names).is_none());
    assert_eq!(t.is_on_patrol(USER), Ok(true));
    let rec = step(&mut t, &cfg, None, 600, &no_names).unwrap();
    assert_eq!(t.is_on_patrol(USER), Ok(false));
    assert_eq!((rec.officer_id, rec.start, rec.end, rec.main_channel_id), (7, 0, 600, 100));
    let row = patrol_row(&rec, 11);
    assert_eq!((row.officer_id, row.main_channel_id, row.start, row.end, row.event_id), (7, 11, 0, 600, None));
    let voices = patrol_voice_rows(&rec, 3, &vec![11]);
    assert_eq!(voices.len(), 1);
    assert_eq!((voices[0].patrol_id, voices[0].channel_id, voices[0].start, voices[0].end), (3, 11, 0, 600));
}

#[test]
fn hop_then_leave() {
    let cfg = config(&[100, 101], &[]);
    let mut t = PatrolTracker::new();
    step(&mut t, &cfg, Some(100), 0, &no_names);
    assert!(step(&mut t, &cfg, Some(101), 300, &no_names).is_none());
    let rec = step(&mut t, &cfg, None, 900, &no_names).unwrap();
    assert_eq!((rec.start, rec.end), (0, 900));
    let spans: Vec<(i64, Option<i64>, u64)> =
        rec.voice_log.iter().map(|l| (l.start, l.end, l.channel_id)).collect();
    assert_eq!(spans, vec![(0, Some(300), 100), (300, Some(900), 101)]);
    let voices = patrol_voice_rows(&rec, 1, &vec![20, 21]);
    assert_eq!((voices[0].start, voices[0].end, voices[0].channel_id), (0, 300, 20));
    assert_eq!((voices[1].start, voices[1].end, voices[1].channel_id), (300, 900, 21));
}

#[test]
fn exit_to_unmonitored_channel() {
    let cfg = config(&[100], &[]);
    let mut t = PatrolTracker::new();
    step(&mut t, &cfg, Some(100), 0, &no_names);
    let rec = step(&mut t, &cfg, Some(200), 500, &no_names).unwrap();
    assert_eq!((rec.start, rec.end, rec.voice_log.len()), (0, 500, 1));
    assert_eq!(t.is_on_patrol(USER), Ok(false));
}

fn afk_names(c: u64) -> Option<String> {
    match c {
        100 => Some("AFK-1".to_owned()),
        101 => Some("Main".to_owned()),
        _ => None,
    }
}

#[test]
fn main_channel_skips_bad_names() {
    let cfg = config(&[100, 101], &["AFK"]);
    let mut t = PatrolTracker::new();
    step(&mut t, &cfg, Some(100), 0, &afk_names);
    step(&mut t, &cfg, Some(101), 100, &afk_names);
    let rec = step(&mut t, &cfg, None, 200, &afk_names).unwrap();
    assert_eq!(rec.main_channel_id, 101);
}

#[test]
fn main_channel_falls_back_to_last() {
    let log = vec![
        ChannelLog { guild_id: 1, channel_id: 100, start: 0, end: Some(5) },
        ChannelLog { guild_id: 1, channel_id: 102, start: 5, end: None },
    ];
    let names = vec![Some("AFK-1".to_owned()), Some("AFK-2".to_owned())];
    assert_eq!(get_main_channel(&log, &names, &vec!["AFK".to_owned()]), Ok(102));
    let names = vec![None, Some("AFK-2".to_owned())];
    assert_eq!(get_main_channel(&log, &names, &vec!["AFK".to_owned()]), Ok(102));
    let names = vec![None, Some("Main".to_owned())];
    assert_eq!(get_main_channel(&log, &names, &vec!["AFK".to_owned()]), Ok(102));
    assert_eq!(get_main_channel(&vec![], &vec![], &vec![]), Err(TrackerError::InvariantViolation));
}

#[test]
fn self_transition_is_ignored() {
    let cfg = config(&[100], &[]);
    let mut t = PatrolTracker::new();
    step(&mut t, &cfg, Some(100), 0, &no_names);
    let action = t.voice_state_update(&cfg, USER, Some(GUILD), Some(100), None, 50).unwrap();
    assert_eq!(action, VoiceAction::Nothing);
    assert_eq!(t.voice_log(USER).len(), 1);
}

#[test]
fn other_guild_is_ignored() {
    let cfg = config(&[100], &[]);
    let mut t = PatrolTracker::new();
    let action = t.voice_state_update(&cfg, USER, Some(99), Some(100), None, 0).unwrap();
    assert_eq!(action, VoiceAction::Nothing);
    assert_eq!(t.is_on_patrol(USER), Ok(false));
}

#[test]
fn tracked_exactly_when_last_stretch_open() {
    let cfg = config(&[100, 101], &[]);
    let mut t = PatrolTracker::new();
    let events = [Some(100), Some(101), Some(300), None, Some(101), Some(101), None];
    for (i, e) in events.iter().enumerate() {
        step(&mut t, &cfg, *e, i as i64 * 10, &no_names);
        let log = t.voice_log(USER);
        let on = t.is_on_patrol(USER).unwrap();
        assert_eq!(on, !log.is_empty());
        if on {
            assert!(log.last().unwrap().end.is_none());
        }
    }
}

#[test]
fn stored_stretches_are_contiguous() {
    let cfg = config(&[100, 101, 102], &[]);
    let mut t = PatrolTracker::new();
    step(&mut t, &cfg, Some(100), 10, &no_names);
    step(&mut t, &cfg, Some(101), 20, &no_names);
    step(&mut t, &cfg, Some(102), 35, &no_names);
    let rec = step(&mut t, &cfg, None, 60, &no_names).unwrap();
    let rows = patrol_voice_rows(&rec, 9, &vec![1, 2, 3]);
    assert_eq!(rows[0].start, rec.start);
    assert_eq!(rows[2].end, rec.end);
    for i in 0..rows.len() - 1 {
        assert_eq!(rows[i].end, rows[i + 1].start);
    }
}

#[test]
fn repeat_event_leaves_tracker_unchanged() {
    let cfg = config(&[100, 101], &[]);
    let mut t = PatrolTracker::new();
    step(&mut t, &cfg, Some(100), 0, &no_names);
    step(&mut t, &cfg, Some(101), 40, &no_names);
    let before = t.voice_log(USER);
    let action = t.voice_state_update(&cfg, USER, Some(GUILD), Some(101), None, 70).unwrap();
    assert_eq!(action, VoiceAction::Nothing);
    assert_eq!(t.voice_log(USER), before);
}

#[test]
fn clock_before_last_stretch_is_refused() {
    let cfg = config(&[100], &[]);
    let mut t = PatrolTracker::new();
    // a patrol that starts far in the future
    t.go_on_duty(USER, GUILD, 100, i64::MAX).unwrap();
    assert!(!t.is_not_before_last(USER, 5));
    assert_eq!(
        t.voice_state_update_now(&cfg, USER, Some(GUILD), None, None),
        Err(TrackerError::InvariantViolation)
    );
    assert_eq!(t.is_on_patrol(USER), Ok(true));
    assert!(t.go_off_duty_now(USER, &vec![None], &vec![]).is_err());
}

#[test]
fn going_on_duty_twice_drops_the_patrol() {
    let mut t = PatrolTracker::new();
    assert_eq!(t.go_on_duty(USER, GUILD, 100, 0), Ok(()));
    assert_eq!(t.go_on_duty(USER, GUILD, 101, 5), Err(TrackerError::AlreadyOnDuty));
    assert_eq!(t.is_on_patrol(USER), Ok(false));
}

#[test]
fn moving_without_patrol_fails() {
    let mut t = PatrolTracker::new();
    assert_eq!(t.move_on_duty_vc(USER, GUILD, 100, 0), Err(TrackerError::InvariantViolation));
    assert!(t.go_off_duty(USER, &vec![], &vec![], 0).is_err());
}

#[test]
fn transition_table() {
    assert_eq!(decide_voice_update(None, Some(4), true), VoiceAction::GoOnDuty(4));
    assert_eq!(decide_voice_update(None, Some(4), false), VoiceAction::Nothing);
    assert_eq!(decide_voice_update(None, None, false), VoiceAction::Nothing);
    assert_eq!(decide_voice_update(Some(3), Some(4), true), VoiceAction::MoveOnDutyVc(4));
    assert_eq!(decide_voice_update(Some(3), Some(4), false), VoiceAction::GoOffDuty);
    assert_eq!(decide_voice_update(Some(3), Some(3), false), VoiceAction::Nothing);
    assert_eq!(decide_voice_update(Some(3), None, false), VoiceAction::GoOffDuty);
}

#[test]
fn open_stretch_row_ends_now() {
    let log = ChannelLog { guild_id: 1, channel_id: 5, start: 10, end: None };
    let row = create_patrol_voice(2, &log, 8, 99);
    assert_eq!((row.patrol_id, row.channel_id, row.start, row.end), (2, 8, 10, 99));
}
