use content_service::{ServiceError, User, UserManager};

#[test]
fn test_user_manager() {
    let mut manager = UserManager::new();
    let id = manager
        .add_user("Test".to_string(), "test@example.com".to_string(), "Tester".to_string())
        .unwrap();
    assert_eq!(id, 1);
}

#[test]
fn ids_rise_from_one() {
    let mut manager = UserManager::new();
    let a = manager.add_user("A".to_string(), "a@x.io".to_string(), "p".to_string()).unwrap();
    let b = manager.add_user("B".to_string(), "b@x.io".to_string(), "q".to_string()).unwrap();
    assert_eq!((a, b), (1, 2));
    assert_eq!(manager.next_id(), 3);
    assert_eq!(manager.len(), 2);
}

#[test]
fn duplicate_email_keeps_counter() {
    let mut manager = UserManager::new();
    manager.add_user("A".to_string(), "a@x.io".to_string(), "p".to_string()).unwrap();
    let r = manager.add_user("B".to_string(), "a@x.io".to_string(), "q".to_string());
    assert_eq!(r, Err(ServiceError::DuplicateEmail { email: "a@x.io".to_string() }));
    assert_eq!(manager.next_id(), 2);
    assert_eq!(manager.len(), 1);
    let c = manager.add_user("C".to_string(), "c@x.io".to_string(), "r".to_string()).unwrap();
    assert_eq!(c, 2);
}

#[test]
fn invalid_email_is_refused() {
    let mut manager = UserManager::new();
    for bad in ["", "plain", "@x.io", "a@", "a@@x.io", "a b@x.io", "a@x@y"] {
        let r = manager.add_user("A".to_string(), bad.to_string(), "p".to_string());
        assert_eq!(r, Err(ServiceError::InvalidEmail { email: bad.to_string() }));
    }
    assert_eq!(manager.next_id(), 1);
}

#[test]
fn get_user_returns_copy() {
    let mut manager = UserManager::new();
    let id = manager
        .add_user("John Doe".to_string(), "john@example.com".to_string(), "Software Developer".to_string())
        .unwrap();
    let user = manager.get_user(id).unwrap();
    assert_eq!(
        user,
        User {
            id: 1,
            name: "John Doe".to_string(),
            email: "john@example.com".to_string(),
            profile: "Software Developer".to_string(),
        }
    );
}

#[test]
fn get_missing_user_is_not_found() {
    let manager = UserManager::new();
    assert_eq!(manager.get_user(999), Err(ServiceError::NotFound { key: "999".to_string() }));
    assert_eq!(manager.get_user(0), Err(ServiceError::NotFound { key: "0".to_string() }));
    assert_eq!(
        manager.get_user(4294967295),
        Err(ServiceError::NotFound { key: "4294967295".to_string() })
    );
}

#[test]
fn update_user_changes_name_and_email() {
    let mut manager = UserManager::new();
    let id = manager.add_user("A".to_string(), "a@x.io".to_string(), "p".to_string()).unwrap();
    manager.update_user(id, "B".to_string(), "b@x.io".to_string()).unwrap();
    let user = manager.get_user(id).unwrap();
    assert_eq!(user.name, "B");
    assert_eq!(user.email, "b@x.io");
    assert_eq!(user.profile, "p");
}

#[test]
fn update_user_errors_leave_record() {
    let mut manager = UserManager::new();
    let id = manager.add_user("A".to_string(), "a@x.io".to_string(), "p".to_string()).unwrap();
    assert_eq!(
        manager.update_user(7, "B".to_string(), "b@x.io".to_string()),
        Err(ServiceError::NotFound { key: "7".to_string() })
    );
    assert_eq!(
        manager.update_user(id, "B".to_string(), "broken".to_string()),
        Err(ServiceError::InvalidEmail { email: "broken".to_string() })
    );
    let user = manager.get_user(id).unwrap();
    assert_eq!(user.name, "A");
    assert_eq!(user.email, "a@x.io");
}

#[test]
fn find_user_by_email_scans() {
    let mut manager = UserManager::new();
    manager.add_user("A".to_string(), "a@x.io".to_string(), "p".to_string()).unwrap();
    manager.add_user("B".to_string(), "b@x.io".to_string(), "q".to_string()).unwrap();
    assert_eq!(manager.find_user_by_email("b@x.io").unwrap().id, 2);
    assert_eq!(
        manager.find_user_by_email("z@x.io"),
        Err(ServiceError::NotFound { key: "z@x.io".to_string() })
    );
}
