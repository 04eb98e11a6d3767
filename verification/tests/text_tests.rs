use host42::text;
use host42::order;
use host42::plugins;
use host42::players;
use host42::server::LogKind;

fn c(s: &str) -> Vec<char> {
    s.chars().collect()
}

fn s(v: &[char]) -> String {
    v.iter().collect()
}

#[test]
fn trims_like_std() {
    for x in ["  a b \t", "\u{3000}x\u{a0}", "", "   ", "abc"] {
        assert_eq!(s(&text::trim(&c(x))), x.trim());
    }
}

#[test]
fn find_and_rfind() {
    assert_eq!(text::find(&c("abcabc"), &c("bc")), Some(1));
    assert_eq!(text::rfind(&c("abcabc"), &c("bc")), Some(4));
    assert_eq!(text::find(&c("abc"), &c("x")), None);
    assert_eq!(s(&text::after_last(&c("a]: b]: c"), &c("]: "))), "c");
    assert_eq!(s(&text::after_last(&c("plain"), &c("]: "))), "plain");
}

#[test]
fn lines_like_std() {
    for x in ["a\nb", "a\r\nb\r\n", "a\n\nb\n", "", "\n", "x\r", "one"] {
        let ours: Vec<String> = text::lines(&c(x)).iter().map(|l| s(l)).collect();
        let std: Vec<String> = x.lines().map(|l| l.to_string()).collect();
        assert_eq!(ours, std, "input {:?}", x);
    }
}

#[test]
fn split_words_and_join() {
    assert_eq!(text::split_whitespace("  -Xmx2G   -Xms1G\t-Dx=1 "), vec!["-Xmx2G", "-Xms1G", "-Dx=1"]);
    assert!(text::split_whitespace("   ").is_empty());
    let v = vec!["-Xmx2G".to_string(), "-Xms1G".to_string()];
    assert_eq!(text::join(&v, " "), "-Xmx2G -Xms1G");
    assert_eq!(text::join(&Vec::new(), " "), "");
}

#[test]
fn parse_unsigned() {
    assert_eq!(text::parse_usize(&c("2")), Some(2));
    assert_eq!(text::parse_usize(&c("+3")), Some(3));
    assert_eq!(text::parse_usize(&c("-1")), None);
    assert_eq!(text::parse_usize(&c("")), None);
    assert_eq!(text::parse_usize(&c("+")), None);
    assert_eq!(text::parse_usize(&c("1a")), None);
    assert_eq!(text::parse_usize(&c("99999999999999999999999")), None);
    assert_eq!(text::parse_usize(&c("007")), Some(7));
}

#[test]
fn decimals() {
    assert_eq!(s(&text::decimal(0)), "0");
    assert_eq!(s(&text::decimal(1234567890)), "1234567890");
    assert_eq!(s(&text::padded_decimal(7, 2)), "07");
    assert_eq!(s(&text::padded_decimal(123, 2)), "123");
}

#[test]
fn trims_patterns() {
    assert_eq!(s(&text::trim_end_matches(&c("a.jar.disabled.disabled"), &c(".disabled"))), "a.jar");
    assert_eq!(s(&text::trim_start_matches(&c("\"\"java\""), &c("\""))), "java\"");
    assert!(text::eq_ignore_ascii_case(&c("EULA=True"), &c("eula=true")));
    assert!(!text::eq_ignore_ascii_case(&c("eula=false"), &c("eula=true")));
    assert!(text::contains("Done (1.2s)", "Done ("));
}

#[test]
fn case_mapping() {
    assert_eq!(plugins::config_folder_name("ÀB-Plugin.jar"), "àb-plugin");
    assert!(players::player_matches("ÀLEX", "àl"));
    assert!(!players::player_matches("ÀLEX", "ÀX"));
    assert_eq!(LogKind::classify("straße error"), LogKind::Error);
}

#[test]
fn lexicographic_order() {
    assert!(order::lex_less(&c("Alex"), &c("Steve")));
    assert!(order::lex_less(&c("Ste"), &c("Steve")));
    assert!(!order::lex_less(&c("steve"), &c("Steve")));
    assert!(!order::lex_less(&c("x"), &c("x")));
    let mut v: Vec<Vec<char>> = Vec::new();
    for n in ["b", "a", "c", "a"] {
        order::sorted_insert(&mut v, c(n));
    }
    let names: Vec<String> = v.iter().map(|x| s(x)).collect();
    assert_eq!(names, vec!["a", "b", "c"]);
    order::sorted_remove(&mut v, &c("b"));
    let names: Vec<String> = v.iter().map(|x| s(x)).collect();
    assert_eq!(names, vec!["a", "c"]);
}
