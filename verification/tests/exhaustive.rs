use goal_extract::chars::{chars_of, split, trim};
use goal_extract::filter::date_like;
use goal_extract::normalize::{find_date_stamp, normalize_chars};
use goal_extract::strategy::split_lines;

/// Every text over `alphabet` of `length` characters.
fn texts(alphabet: &[char], length: usize) -> Vec<Vec<char>> {
    let mut all = vec![Vec::new()];
    for _ in 0..length {
        let mut longer = Vec::with_capacity(all.len() * alphabet.len());
        for text in &all {
            for c in alphabet {
                let mut t = text.clone();
                t.push(*c);
                longer.push(t);
            }
        }
        all = longer;
    }
    all
}

fn space(c: char) -> bool {
    c == ' ' || c == '\t'
}

fn digit(c: char) -> bool {
    c.is_ascii_digit()
}

fn tilde(c: char) -> bool {
    c == '~' || c == '〜'
}

/// Whether `s` as a whole is a date stamp, trying every way of cutting it
/// into the parts of one.
fn stamp(s: &[char]) -> bool {
    let n = s.len();
    for a in 0..=n {
        if !s[..a].iter().all(|c| space(*c)) {
            break;
        }
        for t in 0..=1 {
            if t == 1 && !(a < n && tilde(s[a])) {
                continue;
            }
            let b = a + t;
            for c in b..=n {
                if !s[b..c].iter().all(|x| space(*x)) {
                    break;
                }
                for m in 1..=2 {
                    let d = c + m;
                    if d > n || !s[c..d].iter().all(|x| digit(*x)) {
                        continue;
                    }
                    if !(d < n && s[d] == '/') {
                        continue;
                    }
                    for k in 1..=2 {
                        let e = d + 1 + k;
                        if e > n || !s[d + 1..e].iter().all(|x| digit(*x)) {
                            continue;
                        }
                        for f in e + 1..=n {
                            if !s[e..f].iter().all(|x| space(*x)) {
                                break;
                            }
                            if f + 5 > n {
                                continue;
                            }
                            let clock = digit(s[f])
                                && digit(s[f + 1])
                                && s[f + 2] == ':'
                                && digit(s[f + 3])
                                && digit(s[f + 4]);
                            if clock && s[f + 5..].iter().all(|x| space(*x)) {
                                return true;
                            }
                        }
                    }
                }
            }
        }
    }
    false
}

fn leftmost_stamp(s: &[char]) -> usize {
    (0..s.len()).find(|i| stamp(&s[*i..])).unwrap_or(s.len())
}

fn expected_title(s: &[char]) -> String {
    let cut = &s[..leftmost_stamp(s)];
    let text: String = cut.iter().collect();
    text.trim_start_matches(|c| space(c) || c == '▶' || c == '○')
        .trim_matches(space)
        .to_string()
}

#[test]
fn date_stamp_agrees_with_trying_every_cut_on_short_texts() {
    let alphabet = [' ', '~', '1', '/', ':', 'a'];
    for length in 0..=6 {
        for text in texts(&alphabet, length) {
            assert_eq!(find_date_stamp(&text), leftmost_stamp(&text), "{:?}", text);
        }
    }
}

#[test]
fn date_stamp_agrees_with_trying_every_cut_around_a_stamp() {
    let alphabet = [' ', '~', '1', '/', 'a'];
    let tails = ["1/1 11:11", "11/11  11:11 ", "~1/11 11:11", " 〜 11/1\t11:11", "1/1 1:11", "1/1 11:1"];
    for length in 0..=4 {
        for head in texts(&alphabet, length) {
            for tail in tails {
                let mut text = head.clone();
                text.extend(tail.chars());
                assert_eq!(find_date_stamp(&text), leftmost_stamp(&text), "{:?}", text);
                let title: String = normalize_chars(&text).iter().collect();
                assert_eq!(title, expected_title(&text), "{:?}", text);
            }
        }
    }
}

#[test]
fn titles_agree_with_plain_trimming_on_short_texts() {
    let alphabet = [' ', '▶', '○', 'a', '1'];
    for length in 0..=6 {
        for text in texts(&alphabet, length) {
            let title: String = normalize_chars(&text).iter().collect();
            assert_eq!(title, expected_title(&text), "{:?}", text);
        }
    }
}

#[test]
fn date_like_agrees_with_its_two_patterns_on_short_texts() {
    let alphabet = [' ', '~', '1', '/', 'a'];
    for length in 0..=6 {
        for text in texts(&alphabet, length) {
            let n = text.len();
            let after_tilde = n >= 1 && tilde(text[0]) && {
                let rest: Vec<char> = text[1..].iter().copied().skip_while(|c| space(*c)).collect();
                !rest.is_empty() && digit(rest[0])
            };
            let month_day = (1..=2).any(|m| {
                n > m + 1
                    && text[..m].iter().all(|c| digit(*c))
                    && text[m] == '/'
                    && digit(text[m + 1])
            });
            assert_eq!(date_like(&text), after_tilde || month_day, "{:?}", text);
        }
    }
}

#[test]
fn lines_agree_with_the_standard_library_on_short_texts() {
    let alphabet = ['\n', ' ', '\t', 'a', 'b'];
    for length in 0..=7 {
        for text in texts(&alphabet, length) {
            let s: String = text.iter().collect();
            let expected: Vec<String> = s
                .split('\n')
                .map(|l| l.trim_matches(space).to_string())
                .filter(|l| !l.is_empty())
                .collect();
            let lines: Vec<String> = split_lines(&s).iter().map(|l| l.iter().collect()).collect();
            assert_eq!(lines, expected, "{:?}", s);
            let pieces: Vec<String> =
                split(&chars_of(&s), '\n').iter().map(|l| l.iter().collect()).collect();
            let expected: Vec<String> = s.split('\n').map(|l| l.to_string()).collect();
            assert_eq!(pieces, expected, "{:?}", s);
            let trimmed: String = trim(&text).iter().collect();
            assert_eq!(trimmed, s.trim_matches(|c| space(c) || c == '\n'), "{:?}", s);
        }
    }
}
