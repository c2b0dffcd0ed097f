use patrol_time::duration::{display_duration, display_duration_multiline, split_duration};
use patrol_time::query::{
    date_from_days, day_bounds, get_patrol_time, is_in_query, resolve_from_date, QueryError,
};
use patrol_time::roles::{get_role_by_decorated_name, remove_role_decoration};
use patrol_time::store::{
    get_saved_voice_channel, DbErrorKind, Patrol, PatrolVoice, ResolveAction, ResolveError,
    ResolveStep, SavedVoiceChannel,
};

fn patrol(start: i64, end: i64) -> (Patrol, Vec<PatrolVoice>) {
    (
        Patrol { id: 1, officer_id: 7, main_channel_id: 1, start, end, event_id: None },
        vec![],
    )
}

#[test]
fn split_duration_units() {
    assert_eq!(split_duration(0), (0, 0, 0, 0, 0));
    assert_eq!(split_duration(59), (0, 0, 0, 0, 59));
    assert_eq!(split_duration(3661), (0, 0, 1, 1, 1));
    assert_eq!(split_duration(694861), (1, 1, 1, 1, 1));
    assert_eq!(split_duration(-61), (0, 0, 0, -1, -1));
}

#[test]
fn single_line_duration() {
    assert_eq!(display_duration(694861), "1:1:1:1:1");
    assert_eq!(display_duration(600), "0:0:0:10:0");
    assert_eq!(display_duration(-5), "0:0:0:0:-5");
}

#[test]
fn multiline_duration() {
    assert_eq!(display_duration_multiline(5), "Seconds: 5");
    assert_eq!(display_duration_multiline(3605), "Hours: 1\nMinutes: 0\nSeconds: 5");
    assert_eq!(
        display_duration_multiline(604800),
        "Weeks: 1\nDays: 0\nHours: 0\nMinutes: 0\nSeconds: 0"
    );
}

#[test]
fn patrol_time_sums_durations() {
    assert_eq!(get_patrol_time(&vec![]), Some(0));
    assert_eq!(get_patrol_time(&vec![patrol(0, 600), patrol(1000, 1900)]), Some(1500));
    assert_eq!(get_patrol_time(&vec![patrol(i64::MIN, i64::MAX)]), None);
}

#[test]
fn query_bounds_are_strict() {
    let (p, _) = patrol(100, 200);
    assert!(is_in_query(&p, 99, 201, 7));
    assert!(!is_in_query(&p, 100, 201, 7));
    assert!(!is_in_query(&p, 99, 200, 7));
    assert!(!is_in_query(&p, 99, 201, 8));
}

#[test]
fn query_range_options() {
    assert_eq!(resolve_from_date(Some(1), Some(2), 100), Err(QueryError::DaysAndFromDate));
    assert_eq!(resolve_from_date(None, Some(2), 100), Ok(2));
    assert_eq!(resolve_from_date(Some(10), None, 100), Ok(90));
    assert_eq!(resolve_from_date(None, None, 100), Ok(72));
    assert_eq!(date_from_days(i64::MIN, 1), Err(QueryError::DateOverflow));
    assert_eq!(day_bounds(1, 2), Ok((86400, 3 * 86400 - 1)));
    assert_eq!(day_bounds(i64::MAX, 0), Err(QueryError::DateOverflow));
}

#[test]
fn role_decoration_removed() {
    assert_eq!(remove_role_decoration("| Officer |"), "Officer");
    assert_eq!(remove_role_decoration("\u{2800}\u{1680} LPD Officer \u{2800}"), "LPD Officer");
    assert_eq!(remove_role_decoration("||  ||"), "");
    assert_eq!(remove_role_decoration("Cadet"), "Cadet");
}

#[test]
fn role_found_by_bare_name() {
    let names = vec!["| Cadet |".to_owned(), "\u{2800}Officer\u{2800}".to_owned(), "Officer".to_owned()];
    assert_eq!(get_role_by_decorated_name(&names, "Officer"), Some(1));
    assert_eq!(get_role_by_decorated_name(&names, "Chief"), None);
}

fn row(id: i32) -> SavedVoiceChannel {
    SavedVoiceChannel { id, channel_id: 100, guild_id: 1, name: "".to_owned() }
}

#[test]
fn resolver_steps() {
    match get_saved_voice_channel(1, 100, ResolveStep::Selected(Some(row(4)))) {
        ResolveAction::Done(c) => assert_eq!(c.id, 4),
        other => panic!("unexpected {:?}", other),
    }
    assert!(matches!(get_saved_voice_channel(1, 100, ResolveStep::Selected(None)), ResolveAction::Insert));
    match get_saved_voice_channel(1, 100, ResolveStep::Inserted(Ok(9))) {
        ResolveAction::Done(c) => {
            assert_eq!((c.id, c.guild_id, c.channel_id, c.name.as_str()), (9, 1, 100, ""))
        }
        other => panic!("unexpected {:?}", other),
    }
    assert!(matches!(
        get_saved_voice_channel(1, 100, ResolveStep::Inserted(Err(DbErrorKind::InsertConflict))),
        ResolveAction::Reselect
    ));
    assert!(matches!(
        get_saved_voice_channel(1, 100, ResolveStep::Inserted(Err(DbErrorKind::Other))),
        ResolveAction::Fail(ResolveError::Db)
    ));
    assert!(matches!(
        get_saved_voice_channel(1, 100, ResolveStep::Reselected(None)),
        ResolveAction::Fail(ResolveError::ResolverLost)
    ));
}

#[test]
fn concurrent_resolutions_share_one_id() {
    let a = get_saved_voice_channel(1, 100, ResolveStep::Inserted(Ok(4)));
    let b = get_saved_voice_channel(1, 100, ResolveStep::Reselected(Some(row(4))));
    let c = get_saved_voice_channel(1, 100, ResolveStep::Selected(Some(row(4))));
    for action in [a, b, c] {
        match action {
            ResolveAction::Done(r) => assert_eq!(r.id, 4),
            other => panic!("unexpected {:?}", other),
        }
    }
}
