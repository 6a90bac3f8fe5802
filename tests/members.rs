use deepwell::error::Error;
use deepwell::site_member::{SiteMemberService, SiteMembership};

#[test]
fn add_get_remove_membership() {
    let mut s = SiteMemberService::new();
    let key = SiteMembership { site_id: 1, user_id: 2 };
    assert!(s.get_optional(key).is_none());
    assert!(matches!(s.get(key), Err(Error::NotFound)));
    let m = s.add(key, 10).unwrap();
    assert_eq!((m.site_id, m.user_id, m.date_joined, m.date_left), (1, 2, 10, None));
    assert!(s.add(key, 11).is_none());
    assert_eq!(s.get(key).unwrap(), m);
    let left = s.remove(key, 20).unwrap();
    assert_eq!(left.date_left, Some(20));
    assert!(s.get_optional(key).is_none());
    assert!(matches!(s.remove(key, 21), Err(Error::NotFound)));
    let again = s.add(key, 30).unwrap();
    assert_eq!(again.date_joined, 30);
}

#[test]
fn memberships_are_per_site_and_user() {
    let mut s = SiteMemberService::new();
    s.add(SiteMembership { site_id: 1, user_id: 2 }, 1).unwrap();
    assert!(s.get_optional(SiteMembership { site_id: 2, user_id: 2 }).is_none());
    assert!(s.get_optional(SiteMembership { site_id: 1, user_id: 3 }).is_none());
    assert!(s.add(SiteMembership { site_id: 2, user_id: 2 }, 1).is_some());
}
