use patrol_time::config::RoleConfig;
use patrol_time::roster::{
    has_lpd_role, plan_add, MemberAction, Officer, OfficerWrite, Roster, RosterError, GRACE_SECS,
};

const DAY: i64 = 86400;
const NOW: i64 = 1_700_000_000;

fn officer(id: u64, deleted_at: Option<i64>) -> Officer {
    Officer {
        id,
        vrchat_name: "Name".to_owned(),
        vrchat_id: "usr_1".to_owned(),
        started_monitoring: 1_600_000_000,
        deleted_at,
    }
}

fn same(a: &Officer, b: &Officer) -> bool {
    a.id == b.id
        && a.vrchat_name == b.vrchat_name
        && a.vrchat_id == b.vrchat_id
        && a.started_monitoring == b.started_monitoring
        && a.deleted_at == b.deleted_at
}

#[test]
fn roster_grace_keeps_profile() {
    let prior = Some(officer(4, Some(NOW - 3 * DAY)));
    match plan_add(&prior, 4, NOW) {
        Ok(OfficerWrite::Reactivate(o)) => {
            assert!(same(&o, &officer(4, None)));
        }
        other => panic!("unexpected {:?}", other),
    }
}

#[test]
fn roster_reset_after_grace() {
    let prior = Some(officer(4, Some(NOW - 30 * DAY)));
    match plan_add(&prior, 4, NOW) {
        Ok(OfficerWrite::Insert(o)) => {
            assert_eq!(o.vrchat_name, "");
            assert_eq!(o.vrchat_id, "");
            assert_eq!(o.started_monitoring, NOW);
            assert_eq!(o.deleted_at, None);
            assert_eq!(o.id, 4);
        }
        other => panic!("unexpected {:?}", other),
    }
}

#[test]
fn grace_window_is_strict() {
    let prior = Some(officer(4, Some(NOW - GRACE_SECS)));
    assert!(matches!(plan_add(&prior, 4, NOW), Ok(OfficerWrite::Insert(_))));
    let prior = Some(officer(4, Some(NOW - GRACE_SECS + 1)));
    assert!(matches!(plan_add(&prior, 4, NOW), Ok(OfficerWrite::Reactivate(_))));
}

#[test]
fn adding_active_officer_fails() {
    let prior = Some(officer(4, None));
    assert!(matches!(plan_add(&prior, 4, NOW), Err(RosterError::AlreadyActive)));
}

#[test]
fn grace_window_overflow() {
    assert!(matches!(plan_add(&None, 4, i64::MIN + 5), Err(RosterError::TimeOverflow)));
}

#[test]
fn removing_unknown_officer_fails() {
    let mut r = Roster::new(vec![]);
    assert!(matches!(r.remove_member(9, NOW), Err(RosterError::NotFound)));
}

#[test]
fn roster_round_trip() {
    let mut r = Roster::new(vec![]);
    let first = match r.add_member(&None, 4, NOW).unwrap() {
        OfficerWrite::Insert(o) => o,
        other => panic!("unexpected {:?}", other),
    };
    match r.remove_member(4, NOW + DAY).unwrap() {
        OfficerWrite::MarkDeleted { id, at } => assert_eq!((id, at), (4, NOW + DAY)),
        other => panic!("unexpected {:?}", other),
    }
    let prior = r.get_member_from_cache(4);
    assert_eq!(prior.as_ref().unwrap().deleted_at, Some(NOW + DAY));
    match r.add_member(&prior, 4, NOW + 3 * DAY).unwrap() {
        OfficerWrite::Reactivate(o) => assert!(same(&o, &first)),
        other => panic!("unexpected {:?}", other),
    }
    assert!(same(&r.get_member_from_cache(4).unwrap(), &first));
}

#[test]
fn roster_from_rows_and_member_updates() {
    let cfg = RoleConfig { lpd: 55 };
    let r = Roster::new(vec![officer(1, None), officer(2, Some(NOW))]);
    assert!(r.get_member_from_cache(1).is_some());
    assert!(r.get_member_from_cache(3).is_none());
    assert_eq!(r.member_update_action(1, &[55], &cfg), MemberAction::Nothing);
    assert_eq!(r.member_update_action(1, &[54], &cfg), MemberAction::Remove);
    assert_eq!(r.member_update_action(2, &[55], &cfg), MemberAction::Add);
    assert_eq!(r.member_update_action(3, &[55, 2], &cfg), MemberAction::Add);
    assert_eq!(r.member_update_action(3, &[], &cfg), MemberAction::Nothing);
}

#[test]
fn role_membership() {
    let cfg = RoleConfig { lpd: 55 };
    assert!(has_lpd_role(&[1, 55, 3], &cfg));
    assert!(!has_lpd_role(&[1, 3], &cfg));
    assert!(!has_lpd_role(&[], &cfg));
}
