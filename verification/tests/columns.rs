use periscope::columns::{Columns, Layout};
use periscope::objects::{ColumnSpec, KindId};

fn pods() -> KindId {
    KindId::new("", "v1", "Pod", "pods")
}

fn specs() -> Vec<ColumnSpec> {
    vec![
        ColumnSpec::fixed("READY", 60),
        ColumnSpec::fixed("STATUS", 100),
        ColumnSpec::fixed("RESTARTS", 80),
        ColumnSpec::flexible("NODE"),
    ]
}

fn layout(kind: &str, columns: &[&str]) -> Layout {
    let mut chosen = Columns::default();
    chosen.pick(kind, columns.iter().map(|name| String::from(*name)).collect());
    Layout::new(chosen)
}

#[test]
fn an_unconfigured_kind_shows_everything() {
    assert_eq!(Layout::default().indices(&pods(), &specs()), None);
}

#[test]
fn chosen_columns_are_resolved_in_the_order_they_were_written() {
    // Order is the user's, not the kind's: somebody who put STATUS first
    // wants to read it first.
    let layout = layout("pods", &vec!["STATUS", "READY"]);

    assert_eq!(layout.indices(&pods(), &specs()), Some(vec![1, 0]));
}

#[test]
fn names_are_matched_without_regard_to_case_or_padding() {
    let layout = layout("pods", &vec!["status", " Ready "]);

    assert_eq!(layout.indices(&pods(), &specs()), Some(vec![1, 0]));
}

#[test]
fn a_column_this_kind_does_not_have_is_skipped_not_fatal() {
    // Column sets differ between Kubernetes versions and between CRDs.
    let layout = layout("pods", &vec!["STATUS", "IMPOSSIBLE"]);

    assert_eq!(layout.indices(&pods(), &specs()), Some(vec![1]));
}

#[test]
fn nothing_matching_leaves_the_kind_alone() {
    // Rendering a table with no columns at all would look like a bug in the
    // app rather than a mistake in a config file.
    let layout = layout("pods", &vec!["nonsense", "also-nonsense"]);

    assert_eq!(layout.indices(&pods(), &specs()), None);
}

#[test]
fn a_choice_applies_only_to_the_kind_it_names() {
    let layout = layout("deployments.apps", &vec!["READY"]);

    assert_eq!(layout.indices(&pods(), &specs()), None);
}
