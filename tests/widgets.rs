use ybc::binding::WidgetBinding;
use ybc::registry::{Attach, WidgetRegistry};

#[test]
fn attach_twice_creates_one_instance() {
    let mut reg = WidgetRegistry::new();
    let first = reg.attach("cal");
    let second = reg.attach("cal");
    assert_eq!(first, Attach::Created(0));
    assert_eq!(second, Attach::Existing(0));
    assert!(first.is_created());
    assert!(!second.is_created());
    assert_eq!(reg.handle_of("cal"), Some(0));
    let other = reg.attach("acc");
    assert_eq!(other, Attach::Created(1));
}

#[test]
fn detach_then_attach_creates_fresh_instance() {
    let mut reg = WidgetRegistry::new();
    let first = reg.attach("tags");
    reg.detach("tags");
    assert!(!reg.contains("tags"));
    let again = reg.attach("tags");
    assert!(again.is_created());
    assert_ne!(again.handle(), first.handle());
    assert_eq!(reg.handle_of("tags"), Some(again.handle()));
}

#[test]
fn detach_without_entry_is_noop() {
    let mut reg = WidgetRegistry::new();
    reg.attach("a");
    reg.detach("b");
    assert!(reg.contains("a"));
    assert_eq!(reg.handle_of("b"), None);
    reg.detach("a");
    reg.detach("a");
    assert!(!reg.contains("a"));
}

#[test]
fn rerender_does_not_reattach() {
    let mut reg = WidgetRegistry::new();
    let mut binding = WidgetBinding::new("demo");
    assert!(!binding.is_bound());
    let first = binding.rendered(&mut reg, true);
    assert_eq!(first, Some(Attach::Created(0)));
    assert!(binding.is_bound());
    assert_eq!(binding.rendered(&mut reg, false), None);
    assert_eq!(binding.rendered(&mut reg, false), None);
    assert_eq!(reg.handle_of("demo"), Some(0));
    binding.destroy(&mut reg);
    assert!(!binding.is_bound());
    assert!(!reg.contains("demo"));
}

#[test]
fn two_bindings_on_one_id_share_the_instance() {
    let mut reg = WidgetRegistry::new();
    let mut a = WidgetBinding::new("same");
    let mut b = WidgetBinding::new("same");
    assert_eq!(a.rendered(&mut reg, true), Some(Attach::Created(0)));
    assert_eq!(b.rendered(&mut reg, true), Some(Attach::Existing(0)));
}
