use book_catalog::model::UserPermission;

fn all_levels() -> Vec<UserPermission> {
    vec![
        UserPermission::PermNone,
        UserPermission::PermUser,
        UserPermission::PermAuthor,
        UserPermission::PermAdmin,
    ]
}

#[test]
fn rank_follows_the_declared_order() {
    assert_eq!(UserPermission::PermNone.rank(), 0);
    assert_eq!(UserPermission::PermUser.rank(), 1);
    assert_eq!(UserPermission::PermAuthor.rank(), 2);
    assert_eq!(UserPermission::PermAdmin.rank(), 3);
}

#[test]
fn satisfies_is_exactly_rank_comparison_for_every_pair() {
    for a in all_levels() {
        for b in all_levels() {
            assert_eq!(a.satisfies(&b), a.rank() >= b.rank(), "{:?} vs {:?}", a, b);
        }
    }
}

#[test]
fn user_level_passes_none_and_user_only() {
    let u = UserPermission::PermUser;
    assert!(u.satisfies(&UserPermission::PermNone));
    assert!(u.satisfies(&UserPermission::PermUser));
    assert!(!u.satisfies(&UserPermission::PermAuthor));
    assert!(!u.satisfies(&UserPermission::PermAdmin));
}

#[test]
fn admin_passes_everything_none_passes_only_none() {
    for b in all_levels() {
        assert!(UserPermission::PermAdmin.satisfies(&b));
    }
    assert!(UserPermission::PermNone.satisfies(&UserPermission::PermNone));
    assert!(!UserPermission::PermNone.satisfies(&UserPermission::PermUser));
}
