use ybc::modal::{close_request, decode, ignores_click, ModalCloseMsg, ModalState};

#[test]
fn modal_id_isolation() {
    let mut a = ModalState::new("a");
    let mut b = ModalState::new("b");
    a.open("a");
    b.open("b");
    assert!(a.active && b.active);
    let bus = ModalCloseMsg::new("a").reduce(close_request("a"));
    assert_eq!(bus.0, "a-close");
    assert_eq!(a.on_bus(&bus.0), Some("a".to_string()));
    assert_eq!(b.on_bus(&bus.0), None);
    assert!(!a.active);
    assert!(b.active);
}

#[test]
fn acknowledgment_is_not_a_close() {
    let mut a = ModalState::new("a");
    a.open("a");
    let ack = a.on_bus("a-close").unwrap();
    a.open(&ack);
    assert!(a.active);
    assert_eq!(a.on_bus(&ack), None);
    assert!(a.active);
}

#[test]
fn decode_reads_suffix() {
    let s = decode("a-close");
    assert_eq!(s.target, "a");
    assert!(s.close);
    let s = decode("demo-modal-close");
    assert_eq!(s.target, "demo-modal");
    assert!(s.close);
    let s = decode("a-b");
    assert_eq!(s.target, "a-b");
    assert!(!s.close);
    let s = decode("a");
    assert_eq!(s.target, "a");
    assert!(!s.close);
    assert_eq!(close_request("x-y"), "x-y-close");
}

#[test]
fn trigger_opens_only_named_modal() {
    let mut a = ModalState::new("a");
    a.open("b");
    assert!(!a.active);
    assert!(!a.is_shown());
    a.open("a");
    assert!(a.active);
    assert!(a.is_shown());
    a.close();
    assert!(!a.active);
}

#[test]
fn other_close_request_keeps_modal_shown() {
    let mut a = ModalState::new("a");
    let mut b = ModalState::new("b");
    a.open("a");
    b.open("b");
    assert_eq!(a.on_bus("a-close"), Some("a".to_string()));
    assert_eq!(b.on_bus("a-close"), None);
    assert!(!a.is_shown());
    assert!(b.is_shown());
}

#[test]
fn background_click_respects_ignored_elements() {
    let mut m = ModalState::new("m");
    m.open("m");
    assert!(m.background_click(Some("modal-ignore-input")));
    assert!(m.active);
    assert!(!m.background_click(Some("other")));
    assert!(!m.active);
    m.open("m");
    assert!(!m.background_click(None));
    assert!(!m.active);
    assert!(ignores_click("modal-ignore-"));
    assert!(!ignores_click("modal-ignor"));
}
