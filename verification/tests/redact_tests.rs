use termcard::redact::{default_rules_from, RedactRule, Redaction};

fn rules(pairs: &[(&str, &str, bool)]) -> Redaction {
    Redaction {
        rules: pairs
            .iter()
            .map(|(p, r, e)| RedactRule {
                pattern: p.to_string(),
                replacement: r.to_string(),
                enabled: *e,
                is_default: false,
            })
            .collect(),
    }
}

#[test]
fn home_becomes_tilde() {
    let r = rules(&[("/home/maria", "~", true)]);
    assert_eq!(r.apply("cd /home/maria/proyecto"), "cd ~/proyecto");
}

#[test]
fn user_and_hostname() {
    let r = rules(&[
        ("\\bmaria\\b", "usuario", true),
        ("mi-pc", "localhost", true),
    ]);
    assert_eq!(
        r.apply("maria@mi-pc:~/repo (maria)"),
        "usuario@localhost:~/repo (usuario)"
    );
}

#[test]
fn disabled_rules_skipped() {
    let r = rules(&[("secret", "X", false)]);
    assert_eq!(r.apply("secret token"), "secret token");
}

#[test]
fn invalid_pattern_ignored() {
    let r = rules(&[("(unclosed", "X", true)]);
    assert_eq!(r.apply("(unclosed text"), "(unclosed text");
    assert_eq!(r.invalid_patterns().len(), 1);
}

#[test]
fn applied_in_order() {
    let r = rules(&[("a", "b", true), ("b", "c", true)]);
    assert_eq!(r.apply("a"), "c");
}

#[test]
fn command_line_is_just_text() {
    let r = rules(&[("/home/maria", "~", true)]);
    assert_eq!(r.apply("cat /home/maria/.zshrc"), "cat ~/.zshrc");
}

#[test]
fn default_rules_valid() {
    let d = default_rules_from(Some("/home/maria".into()), "maria", "mi-pc");
    assert_eq!(d.len(), 3);
    assert!(d.iter().all(|r| regex::Regex::new(&r.pattern).is_ok()));
    let r = Redaction { rules: d };
    assert!(r.invalid_patterns().is_empty());
}
