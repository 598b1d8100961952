use snzup_subscription::roster::{contains, position, without};
use snzup_subscription::Identity;

fn pid(n: u8) -> Identity {
    Identity::new([n; 32])
}

#[test]
fn position_is_of_the_first_occurrence() {
    let list = vec![pid(1), pid(2), pid(3), pid(2)];
    assert_eq!(position(&list, &pid(1)), Some(0));
    assert_eq!(position(&list, &pid(2)), Some(1));
    assert_eq!(position(&list, &pid(3)), Some(2));
    assert_eq!(position(&list, &pid(4)), None);
    assert_eq!(position(&vec![], &pid(1)), None);
}

#[test]
fn contains_tells_members_from_others() {
    let list = vec![pid(1), pid(2)];
    assert!(contains(&list, &pid(1)));
    assert!(contains(&list, &pid(2)));
    assert!(!contains(&list, &pid(3)));
    assert!(!contains(&vec![], &pid(1)));
}

#[test]
fn without_keeps_the_others_in_order() {
    let list = vec![pid(1), pid(2), pid(3), pid(4), pid(5)];
    assert_eq!(without(&list, &vec![pid(4), pid(2), pid(9)]), vec![pid(1), pid(3), pid(5)]);
    assert_eq!(without(&list, &vec![]), list);
    assert_eq!(without(&list, &list), vec![]);
    assert_eq!(without(&vec![pid(1), pid(1), pid(2)], &vec![pid(1)]), vec![pid(2)]);
}
