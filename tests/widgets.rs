use osrs_gph::collapsible::Collapsible;
use osrs_gph::counter::{Counter, Message};

#[test]
fn toggling_flips_the_section() {
    let mut c = Collapsible::new("situps".to_string(), false);
    c.toggle();
    assert!(c.is_expanded);
    c.toggle();
    assert!(!c.is_expanded);
    assert_eq!(c.title, "situps");
}

#[test]
fn counter_steps() {
    let mut c = Counter::default();
    c.update(Message::IncrementPressed);
    c.update(Message::IncrementPressed);
    c.update(Message::DecrementPressed);
    assert_eq!(c.value, 1);
}
