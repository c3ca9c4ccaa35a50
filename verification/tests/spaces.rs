use ockam_relay::cli_state::spaces::{
    found_or_error, lookup_for, NotFound, Space, SpaceLookup, Subscription,
};

fn gold() -> Subscription {
    Subscription {
        name: "gold".to_string(),
        is_free_trial: false,
        marketplace: None,
        start_date: None,
        end_date: None,
    }
}

#[test]
fn a_space_is_made_of_what_it_is_given() {
    let space = Space::new("1", "name1", &vec!["me@ockam.io", "you@ockam.io"], Some(&gold()));
    assert_eq!(
        space,
        Space {
            id: "1".to_string(),
            name: "name1".to_string(),
            users: vec!["me@ockam.io".to_string(), "you@ockam.io".to_string()],
            subscription: Some(gold()),
        }
    );
    let updated = Space::new("1", "name1", &vec!["them@ockam.io"], None);
    assert_eq!(updated.users, ["them@ockam.io"]);
    assert_eq!(updated.subscription, None);
    assert!(Space::new("", "", &vec![], None).users.is_empty());
    let trial = Subscription {
        marketplace: Some("aws".to_string()),
        is_free_trial: true,
        start_date: Some(1),
        end_date: Some(2),
        ..gold()
    };
    assert_eq!(trial.clone(), trial);
}

#[test]
fn a_command_means_the_space_it_names_or_the_default() {
    assert_eq!(
        lookup_for(&Some("name1".to_string())),
        SpaceLookup::ByName("name1".to_string())
    );
    assert_eq!(lookup_for(&None), SpaceLookup::Default);
}

#[test]
fn a_missing_space_is_an_error_that_says_which() {
    let space = Space::new("1", "name1", &vec![], None);
    assert_eq!(
        found_or_error(&SpaceLookup::Default, Some(space.clone())),
        Ok(space.clone())
    );
    assert_eq!(
        found_or_error(&SpaceLookup::ByName("other".to_string()), Some(space.clone())),
        Ok(space)
    );
    assert_eq!(
        found_or_error(&SpaceLookup::Default, None),
        Err(NotFound { message: "there is no default space".to_string() })
    );
    assert_eq!(
        found_or_error(&SpaceLookup::ByName("name1".to_string()), None),
        Err(NotFound { message: "there is no space with name name1".to_string() })
    );
}
