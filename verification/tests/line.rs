use ssh_probe::line::{keyword, read_directive, Keyword};

fn letters(text: &str) -> Vec<char> {
    text.chars().collect()
}

fn read(line: &str) -> Option<(Keyword, String)> {
    let chars = letters(line);
    let end: usize = chars.len();
    read_directive(&chars, 0, end)
        .map(|found| (found.keyword, chars[found.start..found.end].iter().collect()))
}

fn keyword_in(key: &str) -> Option<Keyword> {
    let chars = letters(key);
    let end: usize = chars.len();
    keyword(&chars, 0, end)
}

#[test]
fn keywords_are_found_whatever_their_case() {
    assert_eq!(keyword_in("Host"), Some(Keyword::Host));
    assert_eq!(keyword_in("host"), Some(Keyword::Host));
    assert_eq!(keyword_in("HOST"), Some(Keyword::Host));
    assert_eq!(keyword_in("HostName"), Some(Keyword::HostName));
    assert_eq!(keyword_in("hostname"), Some(Keyword::HostName));
    assert_eq!(keyword_in("IdentityFile"), Some(Keyword::IdentityFile));
    assert_eq!(keyword_in("IDENTITYFILE"), Some(Keyword::IdentityFile));
    assert_eq!(keyword_in("User"), Some(Keyword::User));
    assert_eq!(keyword_in("uSeR"), Some(Keyword::User));
}

#[test]
fn other_keys_are_no_keywords() {
    assert_eq!(keyword_in(""), None);
    assert_eq!(keyword_in("Port"), None);
    assert_eq!(keyword_in("Hos"), None);
    assert_eq!(keyword_in("Hosts"), None);
    assert_eq!(keyword_in("Include"), None);
    assert_eq!(keyword_in("Match"), None);
    assert_eq!(keyword_in("\u{130}dentityFile"), None);
}

#[test]
fn keywords_agree_with_unicode_lowercasing() {
    let words = [
        ("host", Keyword::Host),
        ("hostname", Keyword::HostName),
        ("identityfile", Keyword::IdentityFile),
        ("user", Keyword::User),
    ];
    let mut code: u32 = 0;
    while code <= 0x10FFFF {
        if let Some(c) = char::from_u32(code) {
            for (word, expected) in words {
                let mut key = String::new();
                key.push(c);
                key.push_str(&word[1..]);
                let found = keyword_in(&key);
                if key.to_lowercase() == word {
                    assert_eq!(found, Some(expected), "U+{:04X}", code);
                } else {
                    assert_ne!(found, Some(expected), "U+{:04X}", code);
                }
            }
        }
        code += 1;
    }
}

#[test]
fn keywords_agree_with_unicode_lowercasing_at_every_position() {
    let words = ["host", "hostname", "identityfile", "user"];
    let odd = ['\u{212a}', '\u{130}', '\u{3a3}', '\u{df}', 'K', 'k', 'I', 'S', '\u{17f}', '\u{fb01}'];
    for word in words {
        let base: Vec<char> = word.chars().collect();
        let mut at: usize = 0;
        while at < base.len() {
            for c in odd {
                let mut changed = base.clone();
                changed[at] = c;
                let key: String = changed.iter().collect();
                assert_eq!(
                    keyword_in(&key).is_some(),
                    words.contains(&key.to_lowercase().as_str()),
                    "{:?}",
                    key
                );
            }
            at += 1;
        }
    }
}

#[test]
fn a_directive_is_a_keyword_and_a_value() {
    assert_eq!(read("Host a"), Some((Keyword::Host, "a".to_string())));
    assert_eq!(read("HostName example.com"), Some((Keyword::HostName, "example.com".to_string())));
    assert_eq!(read("IdentityFile ~/.ssh/id"), Some((Keyword::IdentityFile, "~/.ssh/id".to_string())));
    assert_eq!(read("User git"), Some((Keyword::User, "git".to_string())));
}

#[test]
fn a_directive_is_trimmed() {
    assert_eq!(read("   Host   a  "), Some((Keyword::Host, "a".to_string())));
    assert_eq!(read("\tUser\tgit\r"), Some((Keyword::User, "git".to_string())));
    assert_eq!(read("\u{a0}User\u{3000}git\u{2028}"), Some((Keyword::User, "git".to_string())));
}

#[test]
fn equals_separates_key_and_value() {
    assert_eq!(read("User=bob"), Some((Keyword::User, "bob".to_string())));
    assert_eq!(read("  User=  bob  "), Some((Keyword::User, "bob".to_string())));
    assert_eq!(read("Host="), Some((Keyword::Host, "".to_string())));
}

#[test]
fn only_the_first_separator_splits_the_line() {
    assert_eq!(
        read("User  name=with=equals"),
        Some((Keyword::User, "name=with=equals".to_string()))
    );
    assert_eq!(read("Host = a"), Some((Keyword::Host, "= a".to_string())));
    assert_eq!(read("Host a b c"), Some((Keyword::Host, "a b c".to_string())));
    assert_eq!(read("User=a b"), Some((Keyword::User, "a b".to_string())));
}

#[test]
fn a_value_may_hold_a_hash() {
    assert_eq!(read("User bob # admin"), Some((Keyword::User, "bob # admin".to_string())));
}

#[test]
fn blank_lines_and_comments_say_nothing() {
    assert_eq!(read(""), None);
    assert_eq!(read("   "), None);
    assert_eq!(read("\t\r"), None);
    assert_eq!(read("# comment"), None);
    assert_eq!(read("   # Host a"), None);
    assert_eq!(read("#Host a"), None);
}

#[test]
fn lines_without_separator_say_nothing() {
    assert_eq!(read("garbage"), None);
    assert_eq!(read("Host"), None);
    assert_eq!(read("  Host  "), None);
}

#[test]
fn lines_with_other_keys_say_nothing() {
    assert_eq!(read("Port 22"), None);
    assert_eq!(read("=foo"), None);
    assert_eq!(read("Include other"), None);
    assert_eq!(read("Hostname# x"), None);
}

#[test]
fn a_directive_is_read_inside_its_window() {
    let chars = letters("Host a\nUser  bob \nPort 22");
    let found = read_directive(&chars, 7, 17).unwrap();
    assert_eq!(found.keyword, Keyword::User);
    assert_eq!((found.start, found.end), (13, 16));
    assert!(read_directive(&chars, 18, 25).is_none());
    assert!(read_directive(&chars, 6, 6).is_none());
}
