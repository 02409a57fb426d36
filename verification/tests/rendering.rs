//! Palette resolution, per-value annotation, and whole-run rendering.

use envy_core::annotate::annotate_value;
use envy_core::config::Config;
use envy_core::engine::render_env;
use envy_core::order::EnvEntry;
use envy_core::palette::parse_overrides;
use envy_core::palette::resolve_palette;
use envy_core::pattern::NamePattern;
use envy_core::regexes::compile_search;
use envy_core::render::render_entry;
use envy_core::split::split_value;

fn cv(s: &str) -> Vec<char> {
    s.chars().collect()
}

fn sv(v: &Vec<char>) -> String {
    v.iter().collect()
}

fn lines(out: &Vec<Vec<char>>) -> Vec<String> {
    out.iter().map(sv).collect()
}

fn plain_config() -> Config {
    Config {
        pattern: NamePattern::Glob(cv("*")),
        search: None,
        only_matching: false,
        check_paths: false,
        path_separator: '/',
        separators: cv(":,"),
        use_color: false,
    }
}

#[test]
fn overrides_parse_and_malformed_parts_are_ignored() {
    let ovr = parse_overrides(&cv("var=31:mis=1;41:bogus:xx=2:mat=abc"));
    assert_eq!(ovr.len(), 2);
    assert_eq!(sv(&ovr[0].token), "31");
    assert_eq!(sv(&ovr[1].token), "1;41");
}

#[test]
fn overrides_cover_all_seven_keys() {
    let ovr = parse_overrides(&cv("var=1:val=2:mat=3:unm=4:mis=5:spe=6:sep=7"));
    assert_eq!(ovr.len(), 7);
}

#[test]
fn palette_resolves_overrides_defaults_and_reset() {
    let ovr = parse_overrides(&cv("var=31:var=32:mis=1;41"));
    let pal = resolve_palette(true, &ovr);
    assert_eq!(sv(&pal.variable), "\x1b[32m");
    assert_eq!(sv(&pal.missing), "\x1b[1;41m");
    assert_eq!(sv(&pal.matched), "\x1b[4;97m");
    assert_eq!(sv(&pal.unmatched), "\x1b[90m");
    assert_eq!(sv(&pal.value), "\x1b[m");
    assert_eq!(sv(&pal.special), "\x1b[36m");
    assert_eq!(sv(&pal.separator), "\x1b[90m");
    assert_eq!(sv(&pal.reset), "\x1b[0m");
}

#[test]
fn palette_without_color_is_empty() {
    let ovr = parse_overrides(&cv("var=31"));
    let pal = resolve_palette(false, &ovr);
    assert_eq!(sv(&pal.variable), "");
    assert_eq!(sv(&pal.missing), "");
    assert_eq!(sv(&pal.reset), "");
}

#[test]
fn elision_collapses_a_run_to_one_marker() {
    let search = Some(compile_search(&cv("zzz"), false).unwrap());
    let segs = split_value(&cv("a:b:c:d"), &cv(":,"));
    assert_eq!(segs.len(), 4);
    let ex = vec![false, false, false, false];
    let pal = resolve_palette(false, &Vec::new());
    let (anns, any) = annotate_value(&segs, &ex, &search, true, false, &pal);
    assert!(!any);
    let markers = anns.iter().filter(|a| sv(&a.text) == "...").count();
    assert_eq!(markers, 1);
    assert_eq!(anns.len(), 1);
    let mut cfg = plain_config();
    cfg.search = Some(compile_search(&cv("zzz"), false).unwrap());
    cfg.only_matching = true;
    let suppressed = render_entry(&cv("V"), &cv("a:b:c:d"), &ex, &cfg, &pal);
    assert!(suppressed.is_none());
}

#[test]
fn elision_resets_after_a_matching_segment() {
    let mut cfg = plain_config();
    cfg.search = Some(compile_search(&cv("x"), false).unwrap());
    cfg.only_matching = true;
    let pal = resolve_palette(false, &Vec::new());
    let ex = vec![false, false, false, false];
    let out = render_entry(&cv("X"), &cv("x:a:b:x"), &ex, &cfg, &pal).unwrap();
    assert_eq!(lines(&out), vec!["X=", "* x:", "  ...", "* x", ""]);
}

#[test]
fn missing_style_takes_precedence_and_keeps_highlight() {
    let mut cfg = plain_config();
    cfg.search = Some(compile_search(&cv("op"), false).unwrap());
    cfg.check_paths = true;
    cfg.use_color = true;
    let pal = resolve_palette(true, &Vec::new());
    let ex = vec![false];
    let out = render_entry(&cv("X"), &cv("/nope"), &ex, &cfg, &pal).unwrap();
    let line = sv(&out[1]);
    assert!(line.starts_with("  \x1b[2;31m"));
    assert!(line.contains("\x1b[4;97mop\x1b[0m\x1b[2;31m"));
}

#[test]
fn variable_without_any_value_match_is_suppressed() {
    let mut cfg = plain_config();
    cfg.pattern = NamePattern::Glob(cv("HOME"));
    cfg.search = Some(compile_search(&cv("/usr"), false).unwrap());
    let pal = resolve_palette(false, &Vec::new());
    let entries = vec![EnvEntry { name: cv("HOME"), value: cv("/home/bob") }];
    let out = render_env(entries, &cfg, &pal, |_p: Vec<char>| true);
    assert_eq!(out.len(), 0);
}

#[test]
fn path_check_marks_only_missing_segments() {
    let mut cfg = plain_config();
    cfg.check_paths = true;
    let pal = resolve_palette(false, &Vec::new());
    let entries = vec![EnvEntry { name: cv("PATH"), value: cv("/bin:/nope") }];
    let out = render_env(entries, &cfg, &pal, |p: Vec<char>| {
        let s: String = p.into_iter().collect();
        s == "/bin"
    });
    assert_eq!(lines(&out), vec!["PATH=", "  /bin:", " !/nope", ""]);
}

#[test]
fn path_check_skips_values_without_path_separator() {
    let mut cfg = plain_config();
    cfg.check_paths = true;
    let pal = resolve_palette(false, &Vec::new());
    let entries = vec![EnvEntry { name: cv("LANG"), value: cv("C.UTF-8") }];
    let out = render_env(entries, &cfg, &pal, |_p: Vec<char>| false);
    assert_eq!(lines(&out), vec!["LANG=", "  C.UTF-8", ""]);
}

#[test]
fn variables_are_sorted_by_name() {
    let cfg = plain_config();
    let pal = resolve_palette(false, &Vec::new());
    let entries = vec![
        EnvEntry { name: cv("B"), value: cv("2") },
        EnvEntry { name: cv("A"), value: cv("1") },
    ];
    let out = render_env(entries, &cfg, &pal, |_p: Vec<char>| true);
    assert_eq!(lines(&out), vec!["A=", "  1", "", "B=", "  2", ""]);
}

#[test]
fn name_filter_excludes_other_variables() {
    let mut cfg = plain_config();
    cfg.pattern = NamePattern::Glob(cv("HOME"));
    let pal = resolve_palette(false, &Vec::new());
    let entries = vec![
        EnvEntry { name: cv("HOME"), value: cv("/home/bob") },
        EnvEntry { name: cv("PATH"), value: cv("/bin") },
    ];
    let out = render_env(entries, &cfg, &pal, |_p: Vec<char>| true);
    assert_eq!(lines(&out), vec!["HOME=", "  /home/bob", ""]);
}

#[test]
fn empty_value_still_prints_a_header_and_open_line() {
    let cfg = plain_config();
    let pal = resolve_palette(false, &Vec::new());
    let entries = vec![EnvEntry { name: cv("E"), value: cv("") }];
    let out = render_env(entries, &cfg, &pal, |_p: Vec<char>| true);
    assert_eq!(lines(&out), vec!["E=", "  ", ""]);
}

#[test]
fn control_characters_are_escaped_in_rendered_lines() {
    let cfg = plain_config();
    let pal = resolve_palette(false, &Vec::new());
    let entries = vec![EnvEntry { name: cv("T"), value: cv("a\tb") }];
    let out = render_env(entries, &cfg, &pal, |_p: Vec<char>| true);
    assert_eq!(lines(&out), vec!["T=", "  a\\tb", ""]);
}

#[test]
fn search_highlights_every_occurrence() {
    let mut cfg = plain_config();
    cfg.search = Some(compile_search(&cv("a"), false).unwrap());
    cfg.use_color = true;
    let pal = resolve_palette(true, &Vec::new());
    let ex = vec![false];
    let out = render_entry(&cv("V"), &cv("banana"), &ex, &cfg, &pal).unwrap();
    let line = sv(&out[1]);
    assert_eq!(line.matches("\x1b[4;97ma\x1b[0m\x1b[m").count(), 3);
}

#[test]
fn colored_lines_frame_every_style_token() {
    let mut cfg = plain_config();
    cfg.use_color = true;
    let pal = resolve_palette(true, &Vec::new());
    let entries = vec![EnvEntry { name: cv("N"), value: cv("v:w") }];
    let out = render_env(entries, &cfg, &pal, |_p: Vec<char>| true);
    assert_eq!(
        lines(&out),
        vec![
            "\x1b[1mN\x1b[0m\x1b[90m=\x1b[0m".to_string(),
            "  \x1b[mv\x1b[0m\x1b[90m:\x1b[0m".to_string(),
            "  \x1b[mw\x1b[0m\x1b[90m\x1b[0m".to_string(),
            "".to_string(),
        ]
    );
}

#[test]
fn regex_name_pattern_selects_case_insensitively() {
    let mut cfg = plain_config();
    cfg.pattern = NamePattern::Regex(compile_search(&cv("^path$"), true).unwrap());
    let pal = resolve_palette(false, &Vec::new());
    let entries = vec![
        EnvEntry { name: cv("PATH"), value: cv("/bin") },
        EnvEntry { name: cv("PATHEXT"), value: cv("x") },
    ];
    let out = render_env(entries, &cfg, &pal, |_p: Vec<char>| true);
    assert_eq!(lines(&out), vec!["PATH=", "  /bin", ""]);
}

#[test]
fn found_marker_appears_without_color() {
    let mut cfg = plain_config();
    cfg.search = Some(compile_search(&cv("bin"), false).unwrap());
    let pal = resolve_palette(false, &Vec::new());
    let entries = vec![EnvEntry { name: cv("PATH"), value: cv("/bin:/etc") }];
    let out = render_env(entries, &cfg, &pal, |_p: Vec<char>| true);
    assert_eq!(lines(&out), vec!["PATH=", "* /bin:", "  /etc", ""]);
}
