use std::collections::HashMap;

use bevy_ninepatch::content::NinePatchContent;

#[test]
fn graft_hands_the_ready_node_out_once() {
    let mut mark = NinePatchContent { content: 2, loaded: false, parent: 11 };
    let mut ready: HashMap<u32, u64> = HashMap::new();
    assert_eq!(mark.graft(&ready), None);
    assert!(!mark.loaded);
    ready.insert(1, 10);
    assert_eq!(mark.graft(&ready), None);
    assert!(!mark.loaded);
    ready.insert(2, 20);
    assert_eq!(mark.graft(&ready), Some(20));
    assert_eq!(mark, NinePatchContent { content: 2, loaded: true, parent: 11 });
    assert_eq!(mark.graft(&ready), None);
    assert!(mark.loaded);
}

#[test]
fn a_loaded_slot_stays_loaded() {
    let mut mark = NinePatchContent { content: 2, loaded: true, parent: 11 };
    let mut ready: HashMap<u32, u64> = HashMap::new();
    ready.insert(2, 20);
    assert_eq!(mark.graft(&ready), None);
    assert_eq!(mark.graft(&HashMap::new()), None);
    assert_eq!(mark, NinePatchContent { content: 2, loaded: true, parent: 11 });
    ready.insert(2, 21);
    assert_eq!(mark.graft(&ready), None);
    assert!(mark.loaded);
}
