use fzf_select::lines::join_candidates;
use fzf_select::lines::parse_selections;

fn strings(items: &[&str]) -> Vec<String> {
    items.iter().map(|s| s.to_string()).collect()
}

#[test]
fn join_two_candidates() {
    let joined = join_candidates(&strings(&["alpha", "beta"]));
    assert_eq!(joined, "alpha\nbeta\n");
}

#[test]
fn join_no_candidates() {
    let joined = join_candidates(&strings(&[]));
    assert_eq!(joined, "");
}

#[test]
fn join_keeps_duplicates_and_order() {
    let joined = join_candidates(&strings(&["b", "a", "b"]));
    assert_eq!(joined, "b\na\nb\n");
}

#[test]
fn join_keeps_whitespace() {
    let joined = join_candidates(&strings(&["pick me ", " lead"]));
    assert_eq!(joined, "pick me \n lead\n");
}

#[test]
fn parse_single_selection() {
    let parsed = parse_selections("pickme\n");
    assert_eq!(parsed, strings(&["pickme"]));
}

#[test]
fn parse_empty_output_means_no_selection() {
    let parsed = parse_selections("");
    assert_eq!(parsed, strings(&[]));
}

#[test]
fn parse_multi_selection_keeps_order_and_count() {
    let parsed = parse_selections("pick me multi \npick me too!\n");
    assert_eq!(parsed, strings(&["pick me multi ", "pick me too!"]));
}

#[test]
fn parse_keeps_intentional_empty_entries() {
    let parsed = parse_selections("a\n\nb\n");
    assert_eq!(parsed, strings(&["a", "", "b"]));
}

#[test]
fn parse_drops_only_the_trailing_entry() {
    // A fragment not terminated by the protocol newline is the trailing
    // entry of the split and is discarded, exactly as an empty one is.
    let parsed = parse_selections("a\nb");
    assert_eq!(parsed, strings(&["a"]));
}

#[test]
fn parse_lone_newline_is_one_empty_selection() {
    let parsed = parse_selections("\n");
    assert_eq!(parsed, strings(&[""]));
}

#[test]
fn round_trip_trailing_spaces() {
    let candidates = strings(&["pickme ", "me"]);
    let joined = join_candidates(&candidates);
    assert_eq!(joined, "pickme \nme\n");
    let parsed = parse_selections(&joined);
    assert_eq!(parsed, candidates);
}

#[test]
fn round_trip_middle_spaces() {
    let candidates = strings(&["pick me ", "me"]);
    let parsed = parse_selections(&join_candidates(&candidates));
    assert_eq!(parsed, candidates);
}
