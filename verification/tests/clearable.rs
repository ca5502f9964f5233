use std::collections::HashMap;
use std::collections::HashSet;

use kmacros::clearable::Clearable;

#[test]
fn vec_clears_in_place() {
    let mut v = vec![1, 2, 3];
    Clearable::clear(&mut v);
    assert!(v.is_empty());
}

#[test]
fn option_clears_to_none() {
    let mut o = Some(5);
    Clearable::clear(&mut o);
    assert_eq!(o, None);
}

#[test]
fn hash_map_clears_in_place() {
    let mut m: HashMap<u32, u32> = HashMap::new();
    m.insert(1, 2);
    m.insert(3, 4);
    Clearable::clear(&mut m);
    assert!(m.is_empty());
}

#[test]
fn hash_set_clears_in_place() {
    let mut set: HashSet<u32> = HashSet::new();
    set.insert(1);
    Clearable::clear(&mut set);
    assert!(set.is_empty());
}

#[test]
fn cleared_hands_the_container_back() {
    let mut v = vec![1, 2, 3];
    v.cleared().push(9);
    assert_eq!(v, vec![9]);
}

#[test]
fn cleared_if_clears_only_when_asked() {
    let mut v = vec![1, 2, 3];
    v.cleared_if(false).push(4);
    assert_eq!(v, vec![1, 2, 3, 4]);
    v.cleared_if(true).push(5);
    assert_eq!(v, vec![5]);
}
