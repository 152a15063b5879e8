use ruma_lints::use_order::{Item, UseOrder};
use ruma_lints::utils::{
    docs_link, span_lint, span_lint_and_help, span_lint_and_sugg, span_lint_and_then,
    Applicability, Diagnostic, DocsLinks, Note,
};

fn links(release: Option<&str>) -> DocsLinks {
    DocsLinks { enabled: true, release_num: release.map(|r| r.to_string()) }
}

const MASTER_LINK: &str =
    "for further information visit https://rust-lang.github.io/rust-clippy/master/index.html#ruma::use_order";

#[test]
fn docs_link_master() {
    assert_eq!(docs_link("ruma::use_order", &links(None)), Some(MASTER_LINK.to_string()));
}

#[test]
fn docs_link_release() {
    assert_eq!(
        docs_link("clippy::needless_lifetimes", &links(Some("1.50.0"))),
        Some("for further information visit https://rust-lang.github.io/rust-clippy/rust-1.50/index.html#needless_lifetimes".to_string())
    );
}

#[test]
fn docs_link_only_first_prefix_removed() {
    assert_eq!(
        docs_link("x::clippy::clippy::y", &links(Some("2.0"))),
        Some("for further information visit https://rust-lang.github.io/rust-clippy/rust-2/index.html#x::clippy::y".to_string())
    );
}

#[test]
fn docs_link_disabled() {
    let off = DocsLinks { enabled: false, release_num: Some("no dot".to_string()) };
    assert_eq!(docs_link("ruma::use_order", &off), None);
}

#[test]
fn span_lint_has_docs_note() {
    let d = span_lint(&links(None), "ruma::use_order", 7u32, "msg");
    assert_eq!(d, Diagnostic { span: 7, msg: "msg".to_string(), notes: vec![Note::Help(MASTER_LINK.to_string())] });
}

#[test]
fn span_lint_without_docs() {
    let off = DocsLinks { enabled: false, release_num: None };
    let d = span_lint(&off, "ruma::use_order", 7u32, "msg");
    assert!(d.notes.is_empty());
}

#[test]
fn span_lint_and_help_with_and_without_span() {
    let d = span_lint_and_help(&links(None), "ruma::use_order", 1u32, "m", Some(2), "h");
    assert_eq!(d.notes, vec![Note::SpanHelp(2, "h".to_string()), Note::Help(MASTER_LINK.to_string())]);
    let d = span_lint_and_help(&links(None), "ruma::use_order", 1u32, "m", None, "h");
    assert_eq!(d.notes, vec![Note::Help("h".to_string()), Note::Help(MASTER_LINK.to_string())]);
}

#[test]
fn span_lint_and_then_keeps_added_notes_first() {
    let added = vec![Note::Help("a".to_string()), Note::SpanHelp(3u32, "b".to_string())];
    let d = span_lint_and_then(&links(None), "ruma::use_order", 1u32, "m", added.clone());
    let mut expected = added;
    expected.push(Note::Help(MASTER_LINK.to_string()));
    assert_eq!(d.notes, expected);
}

#[test]
fn span_lint_and_sugg_suggests_at_the_span() {
    let d = span_lint_and_sugg(&links(None), "ruma::use_order", 9u32, "m", "try", "x".to_string(), Applicability::MaybeIncorrect);
    assert_eq!(d.span, 9);
    assert_eq!(
        d.notes,
        vec![
            Note::Suggestion(9, "try".to_string(), "x".to_string(), Applicability::MaybeIncorrect),
            Note::Help(MASTER_LINK.to_string())
        ]
    );
}

fn use_item(path: &[&str], span: u32) -> Item<u32> {
    Item::Use { segments: path.iter().map(|s| s.to_string()).collect(), span }
}

#[test]
fn check_item_records_use_roots() {
    let mut pass: UseOrder<u32> = UseOrder::default();
    assert!(pass.check_item(use_item(&["std", "io", "Read"], 10)));
    assert!(!pass.check_item(Item::Other));
    assert!(!pass.check_item(use_item(&[], 11)));
    assert!(pass.check_item(use_item(&["crate", "utils"], 12)));
    assert_eq!(pass.imports(), &vec![("std".to_string(), 10), ("crate".to_string(), 12)]);
}

fn recorded(roots: &[(&str, u32)]) -> UseOrder<u32> {
    let mut pass: UseOrder<u32> = UseOrder::default();
    for (root, span) in roots {
        pass.check_item(use_item(&[root, "x"], *span));
    }
    pass
}

fn report_at(sp: u32) -> Diagnostic<u32> {
    Diagnostic {
        span: sp,
        msg: "hello".to_string(),
        notes: vec![
            Note::Suggestion(sp, "help".to_string(), "sugg".to_string(), Applicability::MachineApplicable),
            Note::Help(MASTER_LINK.to_string()),
        ],
    }
}

#[test]
fn check_crate_post_single_import_not_reported() {
    let pass = recorded(&[("crate", 4)]);
    assert!(!pass.has_misplaced());
    assert!(pass.check_crate_post(&links(None), "ruma::use_order").is_empty());
}

#[test]
fn check_crate_post_ordered_groups_not_reported() {
    let pass = recorded(&[("std", 1), ("alloc", 2), ("serde", 3), ("ruma", 4), ("self", 5), ("crate", 6)]);
    assert!(!pass.has_misplaced());
    assert!(pass.check_crate_post(&links(None), "ruma::use_order").is_empty());
}

#[test]
fn check_crate_post_reports_std_after_crate() {
    let pass = recorded(&[("crate", 4), ("std", 5)]);
    assert!(pass.has_misplaced());
    assert_eq!(pass.check_crate_post(&links(None), "ruma::use_order"), vec![report_at(5)]);
}

#[test]
fn check_crate_post_reports_each_misplaced_import() {
    let pass = recorded(&[("serde", 1), ("std", 2), ("core", 3), ("super", 4), ("ruma", 5), ("crate", 6)]);
    assert_eq!(
        pass.check_crate_post(&links(None), "ruma::use_order"),
        vec![report_at(2), report_at(3), report_at(5)]
    );
}

#[test]
fn check_crate_post_empty() {
    let pass: UseOrder<u32> = UseOrder::default();
    assert!(pass.check_crate_post(&links(None), "ruma::use_order").is_empty());
}

#[test]
fn check_crate_post_without_reports_needs_no_release_dot() {
    let odd = DocsLinks { enabled: true, release_num: Some("nodot".to_string()) };
    assert!(!odd.is_ready());
    let pass = recorded(&[("std", 1), ("crate", 2)]);
    assert!(pass.check_crate_post(&odd, "ruma::use_order").is_empty());
}

#[test]
fn docs_links_readiness() {
    assert!(links(None).is_ready());
    assert!(links(Some("1.2")).is_ready());
    assert!(!links(Some("12")).is_ready());
    assert!(DocsLinks { enabled: false, release_num: Some("12".to_string()) }.is_ready());
}

#[test]
fn span_lint_and_then_other_note_kinds() {
    let added = vec![
        Note::Note("n".to_string()),
        Note::SpanNote(2u32, "sn".to_string()),
        Note::SpanLabel(3u32, "l".to_string()),
    ];
    let off = DocsLinks { enabled: false, release_num: None };
    let d = span_lint_and_then(&off, "ruma::use_order", 1u32, "m", added.clone());
    assert_eq!(d.notes, added);
}

#[test]
fn misplaced_places_in_order() {
    let pass = recorded(&[("serde", 1), ("std", 2), ("crate", 3), ("ruma", 4)]);
    assert_eq!(pass.misplaced_places(), vec![2, 4]);
    assert!(recorded(&[("std", 1)]).misplaced_places().is_empty());
}
