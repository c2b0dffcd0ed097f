use patrol_time::listing::{format_patrol_list, render_patrol_list};
use patrol_time::store::{Patrol, PatrolVoice};

fn patrol(start: i64, end: i64, voices: &[(i64, i64)]) -> (Patrol, Vec<PatrolVoice>) {
    (
        Patrol { id: 1, officer_id: 7, main_channel_id: 2, start, end, event_id: None },
        voices
            .iter()
            .map(|&(s, e)| PatrolVoice { id: 3, patrol_id: 1, channel_id: 2, start: s, end: e })
            .collect(),
    )
}

#[test]
fn listing_from_given_texts() {
    let patrols = vec![patrol(0, 900, &[(0, 300), (300, 900)]), patrol(1000, 1060, &[(1000, 1060)])];
    let starts = vec!["A".to_owned(), "B".to_owned()];
    let voice_starts = vec![vec!["a1".to_owned(), "a2".to_owned()], vec!["b1".to_owned()]];
    assert_eq!(
        render_patrol_list(&patrols, &starts, &voice_starts),
        "```\nA - 0:0:0:15:0\n    a1 - 0:0:0:5:0\n    a2 - 0:0:0:10:0\nB - 0:0:0:1:0\n    b1 - 0:0:0:1:0```"
    );
}

#[test]
fn empty_listing() {
    assert_eq!(render_patrol_list(&vec![], &vec![], &vec![]), "```\n```");
}

#[test]
fn listing_writes_times_with_chrono() {
    let patrols = vec![patrol(0, 600, &[(0, 600)])];
    assert_eq!(
        format_patrol_list(&patrols),
        "```\n1970-01-01 00:00:00 - 0:0:0:10:0\n    1970-01-01 00:00:00 - 0:0:0:10:0```"
    );
}
