use laydown::record::{Category, Standup};

fn strings(items: &[&str]) -> Vec<String> {
    items.iter().map(|s| s.to_string()).collect()
}

#[test]
fn new_record_is_empty() {
    let s = Standup::new();
    assert!(s.did.is_empty());
    assert!(s.doing.is_empty());
    assert!(s.blockers.is_empty());
    assert!(s.sidebars.is_empty());
    assert!(s.history.is_empty());
}

#[test]
fn aliases_name_their_lists() {
    assert_eq!(Category::from_alias("did"), Some(Category::Did));
    assert_eq!(Category::from_alias("di"), Some(Category::Did));
    assert_eq!(Category::from_alias("doing"), Some(Category::Doing));
    assert_eq!(Category::from_alias("do"), Some(Category::Doing));
    assert_eq!(Category::from_alias("blocker"), Some(Category::Blocker));
    assert_eq!(Category::from_alias("bl"), Some(Category::Blocker));
    assert_eq!(Category::from_alias("sidebar"), Some(Category::Sidebar));
    assert_eq!(Category::from_alias("sb"), Some(Category::Sidebar));
    assert_eq!(Category::from_alias("blockers"), None);
    assert_eq!(Category::from_alias(""), None);
}

#[test]
fn add_item_appends_and_records() {
    let mut s = Standup::new();
    s.add_item(Category::Doing, "write tests".to_string());
    s.add_item(Category::Doing, "review".to_string());
    s.add_item(Category::Blocker, "waiting on CI".to_string());
    assert_eq!(s.doing, strings(&["write tests", "review"]));
    assert_eq!(s.blockers, strings(&["waiting on CI"]));
    assert_eq!(s.history.len(), 3);
    assert_eq!(s.history[2].category, Category::Blocker);
    assert_eq!(s.history[2].item, "waiting on CI");
}

#[test]
fn undo_after_append_restores_record() {
    let mut s = Standup::new();
    s.add_item(Category::Did, "a".to_string());
    s.add_item(Category::Sidebar, "b".to_string());
    let before = s.clone();
    s.add_item(Category::Did, "c".to_string());
    s.undo();
    assert_eq!(s.did, before.did);
    assert_eq!(s.doing, before.doing);
    assert_eq!(s.blockers, before.blockers);
    assert_eq!(s.sidebars, before.sidebars);
    assert_eq!(s.history.len(), before.history.len());
    assert_eq!(s.history[1].item, "b");
}

#[test]
fn undo_removes_the_last_duplicate() {
    let mut s = Standup::new();
    s.add_item(Category::Did, "x".to_string());
    s.did.push("y".to_string());
    s.add_item(Category::Did, "x".to_string());
    s.did.push("z".to_string());
    s.undo();
    assert_eq!(s.did, strings(&["x", "y", "z"]));
    assert_eq!(s.history.len(), 1);
}

#[test]
fn undo_of_a_hand_removed_item_only_drops_history() {
    let mut s = Standup::new();
    s.add_item(Category::Doing, "gone".to_string());
    s.doing.clear();
    s.doing.push("kept".to_string());
    s.undo();
    assert_eq!(s.doing, strings(&["kept"]));
    assert!(s.history.is_empty());
}

#[test]
fn undo_on_empty_history_is_a_no_op() {
    let mut s = Standup::new();
    s.did.push("hand written".to_string());
    s.undo();
    assert_eq!(s.did, strings(&["hand written"]));
    assert!(s.history.is_empty());
    let mut e = Standup::new();
    e.undo();
    assert!(e.did.is_empty() && e.history.is_empty());
}

#[test]
fn rendering_lists_sections_in_order() {
    let mut s = Standup::new();
    s.add_item(Category::Sidebar, "lunch".to_string());
    s.add_item(Category::Did, "shipped x".to_string());
    s.add_item(Category::Did, "fixed y".to_string());
    assert_eq!(
        s.to_string(),
        "DID:\n- shipped x\n- fixed y\n\nDOING:\n\nBLOCKERS:\n\nSIDEBARS:\n- lunch\n"
    );
    assert_eq!(
        Standup::new().to_string(),
        "DID:\n\nDOING:\n\nBLOCKERS:\n\nSIDEBARS:\n"
    );
}
