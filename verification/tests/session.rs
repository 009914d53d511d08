use quarto_term::protocol::LineSpec;
use quarto_term::renderer::RenderedLine;
use quarto_term::session::{
    adjacent_key, adjacent_key_pick, apply_callouts, apply_remove, apply_spacing, apply_truncate,
    format_truncation_message, html_escape_basic, key_pace, on_same_hand, parse_range_spec,
    resolve_line_specs, resolve_single_index, KeyPace,
};
use rand::SeedableRng;

fn make_rendered(text: &str) -> RenderedLine {
    RenderedLine { html: text.to_string(), text: text.to_string() }
}

/// The delay factor the typing model gives each pace.
fn factor(p: KeyPace) -> f64 {
    match p {
        KeyPace::Base => 1.0,
        KeyPace::AfterSpace => 1.3,
        KeyPace::AfterPunctuation => 1.8,
        KeyPace::Repeat => 1.4,
        KeyPace::SameHand => 1.1,
        KeyPace::OtherHand => 0.9,
    }
}

fn bigram_factor(prev: Option<char>, curr: char) -> f64 {
    factor(key_pace(prev, curr))
}

#[test]
fn apply_spacing_single_command() {
    let mut lines = vec![make_rendered("$ echo hi"), make_rendered("hi")];
    apply_spacing(&mut lines, "$");
    assert_eq!(lines.len(), 2);
}

#[test]
fn apply_spacing_two_commands() {
    let mut lines = vec![
        make_rendered("$ echo a"),
        make_rendered("a"),
        make_rendered("$ echo b"),
        make_rendered("b"),
    ];
    apply_spacing(&mut lines, "$");
    assert_eq!(lines.len(), 5);
    assert_eq!(lines[2].text, "");
}

#[test]
fn apply_spacing_custom_prompt() {
    let mut lines = vec![make_rendered("> cmd1"), make_rendered("out1"), make_rendered("> cmd2")];
    apply_spacing(&mut lines, ">");
    assert_eq!(lines.len(), 4);
    assert_eq!(lines[2].text, "");
}

#[test]
fn apply_spacing_no_prompt_prefix() {
    let mut lines = vec![make_rendered("abc"), make_rendered("def")];
    apply_spacing(&mut lines, "$");
    assert_eq!(lines.len(), 2);
}

#[test]
fn apply_remove_empty_specs() {
    let mut lines = vec![make_rendered("a"), make_rendered("b")];
    apply_remove(&mut lines, &[]);
    assert_eq!(lines.len(), 2);
}

#[test]
fn apply_remove_positive_index() {
    let mut lines = vec![make_rendered("a"), make_rendered("b"), make_rendered("c")];
    apply_remove(&mut lines, &[LineSpec::Index(1)]);
    assert_eq!(lines.len(), 2);
    assert_eq!(lines[0].text, "b");
}

#[test]
fn apply_remove_negative_index() {
    let mut lines = vec![make_rendered("a"), make_rendered("b"), make_rendered("c")];
    apply_remove(&mut lines, &[LineSpec::Index(-1)]);
    assert_eq!(lines.len(), 2);
    assert_eq!(lines[1].text, "b");
}

#[test]
fn apply_remove_zero_index_skipped() {
    let mut lines = vec![make_rendered("a"), make_rendered("b")];
    apply_remove(&mut lines, &[LineSpec::Index(0)]);
    assert_eq!(lines.len(), 2);
}

#[test]
fn apply_remove_out_of_bounds() {
    let mut lines = vec![make_rendered("a")];
    apply_remove(&mut lines, &[LineSpec::Index(99)]);
    assert_eq!(lines.len(), 1);
}

#[test]
fn apply_remove_pattern() {
    let mut lines = vec![make_rendered("keep this"), make_rendered("remove_me"), make_rendered("also keep")];
    apply_remove(&mut lines, &[LineSpec::Expr("remove_me".to_string())]);
    assert_eq!(lines.len(), 2);
    assert_eq!(lines[0].text, "keep this");
    assert_eq!(lines[1].text, "also keep");
}

#[test]
fn apply_remove_multiple_specs() {
    let mut lines = vec![make_rendered("a"), make_rendered("b"), make_rendered("c"), make_rendered("d")];
    apply_remove(&mut lines, &[LineSpec::Index(1), LineSpec::Index(-1)]);
    assert_eq!(lines.len(), 2);
    assert_eq!(lines[0].text, "b");
    assert_eq!(lines[1].text, "c");
}

#[test]
fn apply_remove_number_expression() {
    let mut lines = vec![make_rendered("a"), make_rendered("b"), make_rendered("c")];
    apply_remove(&mut lines, &[LineSpec::Expr("2".to_string())]);
    assert_eq!(lines.len(), 2);
    assert_eq!(lines[1].text, "c");
}

#[test]
fn apply_callouts_empty_specs() {
    let mut lines = vec![make_rendered("a")];
    apply_callouts(&mut lines, &[]);
    assert_eq!(lines[0].html, "a");
}

#[test]
fn apply_callouts_positive_index() {
    let mut lines = vec![make_rendered("a"), make_rendered("b")];
    apply_callouts(&mut lines, &[LineSpec::Index(1)]);
    assert!(lines[0].html.contains("term-callout"));
    assert!(lines[0].html.contains("&lt;1&gt;"));
    assert!(!lines[1].html.contains("term-callout"));
}

#[test]
fn apply_callouts_negative_index() {
    let mut lines = vec![make_rendered("a"), make_rendered("b"), make_rendered("c")];
    apply_callouts(&mut lines, &[LineSpec::Index(-1)]);
    assert!(lines[2].html.contains("term-callout"));
    assert!(lines[2].html.contains("&lt;1&gt;"));
}

#[test]
fn apply_callouts_pattern() {
    let mut lines = vec![make_rendered("no match"), make_rendered("target line"), make_rendered("another")];
    apply_callouts(&mut lines, &[LineSpec::Expr("target".to_string())]);
    assert!(lines[1].html.contains("term-callout"));
    assert!(!lines[2].html.contains("term-callout"));
}

#[test]
fn apply_callouts_sequential_numbering() {
    let mut lines = vec![make_rendered("a"), make_rendered("b"), make_rendered("c")];
    apply_callouts(&mut lines, &[LineSpec::Index(1), LineSpec::Index(3)]);
    assert!(lines[0].html.contains("&lt;1&gt;"));
    assert!(lines[2].html.contains("&lt;2&gt;"));
}

#[test]
fn apply_callouts_exact_marker() {
    let mut lines = vec![make_rendered("x"), make_rendered("y")];
    apply_callouts(&mut lines, &[LineSpec::Expr("2:2".to_string())]);
    assert_eq!(lines[0].html, "x");
    assert_eq!(lines[1].html, "y <span class=\"term-callout\">&lt;1&gt;</span>");
    assert_eq!(lines[1].text, "y");
}

#[test]
fn parse_range_start_end() {
    assert_eq!(parse_range_spec("3:7", 10), vec![2, 3, 4, 5, 6]);
}

#[test]
fn parse_range_open_start() {
    assert_eq!(parse_range_spec(":3", 10), vec![0, 1, 2]);
}

#[test]
fn parse_range_open_end() {
    assert_eq!(parse_range_spec("8:", 10), vec![7, 8, 9]);
}

#[test]
fn parse_range_negative_start() {
    assert_eq!(parse_range_spec("-3:", 10), vec![7, 8, 9]);
}

#[test]
fn parse_range_negative_both() {
    assert_eq!(parse_range_spec("-5:-2", 10), vec![5, 6, 7, 8]);
}

#[test]
fn parse_range_out_of_bounds_fully() {
    assert_eq!(parse_range_spec("8:20", 5), Vec::<usize>::new());
}

#[test]
fn parse_range_partially_out_of_bounds() {
    assert_eq!(parse_range_spec("4:20", 5), vec![3, 4]);
}

#[test]
fn parse_range_invalid() {
    assert_eq!(parse_range_spec("abc:def", 10), Vec::<usize>::new());
}

#[test]
fn parse_range_trims_spaces() {
    assert_eq!(parse_range_spec(" 2 : 3 ", 10), vec![1, 2]);
}

#[test]
fn resolve_single_index_cases() {
    assert_eq!(resolve_single_index(1, 3), Some(0));
    assert_eq!(resolve_single_index(-1, 3), Some(2));
    assert_eq!(resolve_single_index(0, 3), None);
    assert_eq!(resolve_single_index(4, 3), None);
    assert_eq!(resolve_single_index(-4, 3), None);
}

#[test]
fn resolve_specs_range() {
    let lines = vec![make_rendered("a"), make_rendered("b"), make_rendered("c"), make_rendered("d"), make_rendered("e")];
    let specs = vec![LineSpec::Expr("2:4".to_string())];
    assert_eq!(resolve_line_specs(&specs, &lines), vec![1, 2, 3]);
}

#[test]
fn resolve_specs_mixed() {
    let lines = vec![make_rendered("a"), make_rendered("b"), make_rendered("c"), make_rendered("d"), make_rendered("e")];
    let specs = vec![LineSpec::Index(1), LineSpec::Expr("-1:".to_string())];
    assert_eq!(resolve_line_specs(&specs, &lines), vec![0, 4]);
}

#[test]
fn resolve_specs_regex() {
    let lines = vec![make_rendered("hello"), make_rendered("world"), make_rendered("hello again")];
    let specs = vec![LineSpec::Expr("^hello".to_string())];
    assert_eq!(resolve_line_specs(&specs, &lines), vec![0, 2]);
}

#[test]
fn resolve_specs_sorted_without_duplicates() {
    let lines = vec![make_rendered("a"), make_rendered("b"), make_rendered("c")];
    let specs = vec![LineSpec::Index(3), LineSpec::Index(1), LineSpec::Expr("1:2".to_string())];
    assert_eq!(resolve_line_specs(&specs, &lines), vec![0, 1, 2]);
}

#[test]
fn resolve_specs_invalid_regex_selects_nothing() {
    let lines = vec![make_rendered("a("), make_rendered("b")];
    let specs = vec![LineSpec::Expr("a(".to_string())];
    assert_eq!(resolve_line_specs(&specs, &lines), Vec::<usize>::new());
}

#[test]
fn apply_truncate_empty_specs() {
    let mut lines = vec![make_rendered("a"), make_rendered("b")];
    apply_truncate(&mut lines, &[], "html");
    assert_eq!(lines.len(), 2);
}

#[test]
fn apply_truncate_single_run() {
    let mut lines: Vec<_> = (1..=10).map(|i| make_rendered(&format!("line {}", i))).collect();
    apply_truncate(&mut lines, &[LineSpec::Expr("3:7".to_string())], "html");
    assert_eq!(lines.len(), 6);
    assert_eq!(lines[0].text, "line 1");
    assert_eq!(lines[1].text, "line 2");
    assert!(lines[2].html.contains("term-truncated"));
    assert!(lines[2].text.contains("5 lines truncated"));
    assert_eq!(lines[3].text, "line 8");
    assert_eq!(lines[4].text, "line 9");
    assert_eq!(lines[5].text, "line 10");
}

#[test]
fn apply_truncate_two_runs() {
    let mut lines: Vec<_> = (1..=10).map(|i| make_rendered(&format!("line {}", i))).collect();
    apply_truncate(&mut lines, &[LineSpec::Expr(":2".to_string()), LineSpec::Expr("-2:".to_string())], "html");
    assert_eq!(lines.len(), 8);
    assert!(lines[0].text.contains("2 lines truncated"));
    assert_eq!(lines[1].text, "line 3");
    assert_eq!(lines[6].text, "line 8");
    assert!(lines[7].text.contains("2 lines truncated"));
}

#[test]
fn apply_truncate_adjacent_merge() {
    let mut lines: Vec<_> = (1..=10).map(|i| make_rendered(&format!("line {}", i))).collect();
    apply_truncate(&mut lines, &[LineSpec::Expr("2:4".to_string()), LineSpec::Expr("5:6".to_string())], "html");
    assert_eq!(lines.len(), 6);
    assert_eq!(lines[0].text, "line 1");
    assert!(lines[1].text.contains("5 lines truncated"));
    assert_eq!(lines[2].text, "line 7");
}

#[test]
fn apply_truncate_single_line() {
    let mut lines = vec![make_rendered("a"), make_rendered("b"), make_rendered("c")];
    apply_truncate(&mut lines, &[LineSpec::Index(2)], "html");
    assert_eq!(lines.len(), 3);
    assert_eq!(lines[0].text, "a");
    assert!(lines[1].text.contains("1 line truncated"));
    assert_eq!(lines[2].text, "c");
}

#[test]
fn apply_truncate_latex_format() {
    let mut lines = vec![make_rendered("a"), make_rendered("b"), make_rendered("c")];
    apply_truncate(&mut lines, &[LineSpec::Index(2)], "latex");
    assert!(lines[1].html.contains("\\textit"));
}

#[test]
fn apply_truncate_markdown_format() {
    let mut lines = vec![make_rendered("a"), make_rendered("b"), make_rendered("c")];
    apply_truncate(&mut lines, &[LineSpec::Index(2)], "markdown");
    assert_eq!(lines[1].html, "*[1 line truncated]*");
}

#[test]
fn truncation_message_formats() {
    let m = format_truncation_message(3, "typst");
    assert_eq!(m.text, "[3 lines truncated]");
    assert_eq!(m.html, "_[3 lines truncated]_");
    let m = format_truncation_message(1, "html");
    assert_eq!(m.html, "<span class=\"term-truncated\">[1 line truncated]</span>");
}

#[test]
fn apply_remove_range() {
    let mut lines: Vec<_> = (1..=5).map(|i| make_rendered(&format!("line {}", i))).collect();
    apply_remove(&mut lines, &[LineSpec::Expr("2:4".to_string())]);
    assert_eq!(lines.len(), 2);
    assert_eq!(lines[0].text, "line 1");
    assert_eq!(lines[1].text, "line 5");
}

#[test]
fn html_escape_basic_works() {
    assert_eq!(html_escape_basic("a&b"), "a&amp;b");
    assert_eq!(html_escape_basic("<>"), "&lt;&gt;");
    assert_eq!(html_escape_basic("hello"), "hello");
}

#[test]
fn html_escape_basic_leaves_quotes() {
    assert_eq!(html_escape_basic("say \"hi\""), "say \"hi\"");
}

#[test]
fn bigram_factor_none_prev() {
    assert_eq!(bigram_factor(None, 'a'), 1.0);
}

#[test]
fn bigram_factor_space_after_punct() {
    assert_eq!(bigram_factor(Some('.'), 'a'), 1.8);
    assert_eq!(bigram_factor(Some(','), 'b'), 1.8);
}

#[test]
fn bigram_factor_same_char() {
    assert_eq!(bigram_factor(Some('a'), 'a'), 1.4);
}

#[test]
fn bigram_factor_space_curr() {
    assert_eq!(bigram_factor(Some('a'), ' '), 1.0);
}

#[test]
fn bigram_factor_space_prev() {
    assert_eq!(bigram_factor(Some(' '), 'a'), 1.3);
}

#[test]
fn bigram_factor_same_hand() {
    assert_eq!(bigram_factor(Some('q'), 'w'), 1.1);
}

#[test]
fn bigram_factor_cross_hand() {
    assert_eq!(bigram_factor(Some('f'), 'j'), 0.9);
}

#[test]
fn same_hand_ignores_case() {
    assert!(on_same_hand('Q', 'a'));
    assert!(!on_same_hand('q', 'P'));
}

#[test]
fn adjacent_key_known_char() {
    let mut rng = rand::rngs::StdRng::seed_from_u64(42);
    let result = adjacent_key('a', &mut rng);
    assert!(['s', 'q', 'z', 'w'].contains(&result));
}

#[test]
fn adjacent_key_uppercase() {
    let mut rng = rand::rngs::StdRng::seed_from_u64(42);
    let result = adjacent_key('A', &mut rng);
    assert!(result.is_uppercase());
}

#[test]
fn adjacent_key_unknown() {
    let mut rng = rand::rngs::StdRng::seed_from_u64(42);
    let result = adjacent_key('!', &mut rng);
    assert_eq!(result, '!');
}

#[test]
fn adjacent_key_pick_is_the_listed_neighbour() {
    assert_eq!(adjacent_key_pick('a', 0), 's');
    assert_eq!(adjacent_key_pick('a', 3), 'w');
    assert_eq!(adjacent_key_pick('D', 1), 'E');
    assert_eq!(adjacent_key_pick('!', 0), '!');
}

#[test]
fn adjacent_key_d_neighbour_order() {
    assert_eq!(adjacent_key_pick('d', 3), 'f');
    assert_eq!(adjacent_key_pick('d', 4), 'c');
}
