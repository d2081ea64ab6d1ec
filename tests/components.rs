use ybc::accordion::{accordion_item_class, Accordions};
use ybc::autocomplete::{
    is_selected, keyed_input_value, render_mode, source_mode, suggestion_url, RenderMode, SourceMode, Suggestions,
};
use ybc::breadcrumb::{breadcrumb_classes, BreadcrumbSeparator, BreadcrumbSize};
use ybc::calendar::{date_from_value, pattern_or, resolve_pattern, Calendar};
use ybc::bridge::WidgetEvent;
use ybc::registry::{Attach, WidgetRegistry};
use ybc::{Alignment, Size};

#[test]
fn calendar_clear_semantics() {
    let mut cal = Calendar::create("c", Some("2030-01-01".to_string()));
    let event = Calendar::bridge(String::new());
    assert_eq!(event, WidgetEvent::Changed(String::new()));
    let passed = cal.update(event);
    assert_eq!(passed, Some(String::new()));
    assert_eq!(cal.date, None);
    assert_eq!(date_from_value(String::new()), None);
}

#[test]
fn calendar_scenario() {
    let mut reg = WidgetRegistry::new();
    let mut cal = Calendar::create("demo-calendar", Some("2030-01-01".to_string()));
    let attach = cal.rendered(&mut reg, true);
    assert_eq!(attach, Some(Attach::Created(0)));
    let config = cal.config("yyyy-MM-dd", "");
    assert_eq!(config.seed, "2030-01-01");
    assert_eq!(config.date_format, "yyyy-MM-dd");
    assert_eq!(config.time_format, "HH:mm");
    let passed = cal.update(Calendar::bridge("2031-06-15".to_string()));
    assert_eq!(passed, Some("2031-06-15".to_string()));
    assert_eq!(cal.date, Some("2031-06-15".to_string()));
    assert_eq!(cal.rendered(&mut reg, false), None);
    assert!(reg.contains("demo-calendar"));
}

#[test]
fn calendar_takes_new_date_without_rebinding() {
    let mut reg = WidgetRegistry::new();
    let mut cal = Calendar::create("demo-calendar", Some("2030-01-01".to_string()));
    assert_eq!(cal.rendered(&mut reg, true), Some(Attach::Created(0)));
    let seed = cal.changed(Some("2032-02-02".to_string()));
    assert_eq!(seed, "2032-02-02");
    assert_eq!(cal.date, Some("2032-02-02".to_string()));
    assert_eq!(cal.binding.handle, Some(0));
    assert_eq!(cal.changed(None), "");
    assert_eq!(cal.date, None);
    assert_eq!(reg.handle_of("demo-calendar"), Some(0));
    assert_eq!(reg.issued(), 1);
}

#[test]
fn calendar_ignores_tag_events() {
    let mut cal = Calendar::create("c", Some("2030-01-01".to_string()));
    assert_eq!(cal.update(WidgetEvent::Added("x".to_string())), None);
    assert_eq!(cal.date, Some("2030-01-01".to_string()));
}

#[test]
fn calendar_config_without_date_seeds_empty() {
    let cal = Calendar::create("c", None);
    let config = cal.config("  dd/MM/yyyy ", " \t ");
    assert_eq!(config.seed, "");
    assert_eq!(config.date_format, "dd/MM/yyyy");
    assert_eq!(config.time_format, "HH:mm");
}

#[test]
fn patterns_fall_back_when_blank() {
    assert_eq!(resolve_pattern("", "yyyy-MM-dd"), "yyyy-MM-dd");
    assert_eq!(resolve_pattern("   ", "HH:mm"), "HH:mm");
    assert_eq!(resolve_pattern(" HH:mm:ss\n", "HH:mm"), "HH:mm:ss");
    assert_eq!(resolve_pattern("\u{3000}d M y\u{a0}", "HH:mm"), "d M y");
    assert_eq!(resolve_pattern("yyyy-MM-dd", "HH:mm"), "yyyy-MM-dd");
    assert_eq!(pattern_or("", "HH:mm"), "HH:mm");
    assert_eq!(pattern_or("h", "HH:mm"), "h");
}

#[test]
fn fetch_failure_isolation() {
    let mut s: Suggestions<String> = Suggestions::new();
    assert!(s.on_response(200, Some(vec!["Rust".to_string(), "Yew".to_string()])));
    assert!(!s.on_response(500, Some(vec!["Other".to_string()])));
    assert_eq!(s.items, vec!["Rust".to_string(), "Yew".to_string()]);
    assert!(!s.on_response(404, None));
    assert!(!s.on_response(200, None));
    assert_eq!(s.items, vec!["Rust".to_string(), "Yew".to_string()]);
    assert!(s.on_response(200, Some(vec![])));
    assert!(s.items.is_empty());
}

#[test]
fn autocomplete_modes_and_values() {
    assert_eq!(source_mode(""), SourceMode::Static);
    assert_eq!(source_mode("https://x/?q="), SourceMode::Dynamic);
    assert_eq!(suggestion_url("https://x/?q=", "ru"), "https://x/?q=ru");
    assert_eq!(render_mode(3, "", ""), RenderMode::Select);
    assert_eq!(render_mode(3, "name", "id"), RenderMode::KeyedInput);
    assert_eq!(render_mode(0, "name", "id"), RenderMode::KeyedInput);
    assert_eq!(render_mode(0, "", ""), RenderMode::PlainInput);
    assert_eq!(render_mode(2, "name", ""), RenderMode::PlainInput);
    assert_eq!(keyed_input_value("id", "42"), "{\"id\":\"42\"}");
    assert_eq!(keyed_input_value("id", ""), "{}");
    assert!(is_selected("Rust", "Rust"));
    assert!(!is_selected("Rust", "Yew"));
}

#[test]
fn class_names() {
    assert_eq!(Size::Small.class_name(), "is-small");
    assert_eq!(Size::Large.into_prop_value(), "is-large");
    assert_eq!(Alignment::Centered.class_name(), "is-centered");
    assert_eq!(accordion_item_class(true), "accordion is-active");
    assert_eq!(accordion_item_class(false), "accordion");
    assert_eq!(
        breadcrumb_classes(Some(BreadcrumbSize::Medium), None, Some(BreadcrumbSeparator::Dot)),
        vec!["breadcrumb".to_string(), "are-medium".to_string(), "has-dot-separator".to_string()]
    );
    assert_eq!(
        breadcrumb_classes(None, Some(Alignment::Right), None),
        vec!["breadcrumb".to_string(), "is-right".to_string()]
    );
}

#[test]
fn accordion_binds_once() {
    let mut reg = WidgetRegistry::new();
    let mut acc = Accordions::create("faq");
    assert_eq!(acc.binding.rendered(&mut reg, true), Some(Attach::Created(0)));
    assert_eq!(acc.binding.rendered(&mut reg, false), None);
    acc.binding.destroy(&mut reg);
    assert!(!reg.contains("faq"));
}
