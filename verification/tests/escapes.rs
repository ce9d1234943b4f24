use zed::open_request::{OpenRequest, OpenRequestKind};

const ALPHABET: [char; 12] = [
    '%', '2', 'b', 'B', 'F', 'g', '+', '\u{e9}', '&', '=', 'c', '3',
];

/// Every string of up to `length` characters of the alphabet, behind `prefix`.
fn strings(prefix: &str, length: usize) -> Vec<String> {
    let mut all = vec![prefix.to_string()];
    let mut last = all.clone();
    for _ in 0..length {
        let mut next = Vec::new();
        for s in &last {
            for c in ALPHABET {
                next.push(format!("{}{}", s, c));
            }
        }
        all.extend(next.iter().cloned());
        last = next;
    }
    all
}

fn unescaped(bytes: &[u8]) -> Vec<u8> {
    let mut out = Vec::new();
    let mut i = 0;
    while i < bytes.len() {
        let digit = |k: usize| bytes.get(k).and_then(|b| char::from(*b).to_digit(16));
        match (bytes[i], digit(i + 1), digit(i + 2)) {
            (b'%', Some(high), Some(low)) => {
                out.push((high * 16 + low) as u8);
                i += 3;
            }
            (b, _, _) => {
                out.push(b);
                i += 1;
            }
        }
    }
    out
}

fn form_text(s: &str) -> String {
    let bytes = unescaped(s.replace('+', " ").as_bytes());
    String::from_utf8_lossy(&bytes).into_owned()
}

fn first_value(query: &str, name: &str) -> Option<String> {
    query
        .split('&')
        .filter(|part| !part.is_empty())
        .map(|part| part.split_once('=').unwrap_or((part, "")))
        .find(|(key, _)| form_text(key) == name)
        .map(|(_, value)| form_text(value))
        .filter(|value| !value.is_empty())
}

fn path_of(file: &str) -> Option<String> {
    let mut request = OpenRequest::default();
    request.parse_file_path(file);
    request.open_paths.pop()
}

fn prompt_of(agent_path: &str) -> Option<String> {
    let mut request = OpenRequest::default();
    request.parse_agent_url(agent_path);
    match request.kind {
        Some(OpenRequestKind::AgentPanel { initial_prompt }) => initial_prompt,
        other => panic!("unexpected kind {:?}", other),
    }
}

#[test]
fn escapes_are_replaced_in_every_path() {
    for prefix in ["", "/a%20", "%c3%", "\u{4f60}%e4%bd%"] {
        for file in strings(prefix, 4) {
            let expected = String::from_utf8(unescaped(file.as_bytes())).ok();
            assert_eq!(path_of(&file), expected, "{}", file);
        }
    }
}

#[test]
fn escapes_are_replaced_in_every_prompt() {
    for prefix in ["", "prompt=", "a=b&prompt=", "%70rompt=%", "prompt=&prompt="] {
        for query in strings(prefix, 3) {
            assert_eq!(
                prompt_of(&format!("?{}", query)),
                first_value(&query, "prompt"),
                "{}",
                query
            );
        }
    }
}

#[test]
fn what_is_no_text_is_replaced_in_a_prompt() {
    assert_eq!(prompt_of("?prompt=a%FFb").as_deref(), Some("a\u{fffd}b"));
    assert_eq!(path_of("a%FFb"), None);
}

#[test]
fn escaped_text_reads_back() {
    for text in ["", " ", "a b", "100%", "+&=?#", "\u{e9}\u{4f60}\u{1f600}", "%20"] {
        let escaped: String = text.bytes().map(|b| format!("%{:02X}", b)).collect();
        assert_eq!(path_of(&escaped).as_deref(), Some(text));
        let expected = if text.is_empty() { None } else { Some(text) };
        assert_eq!(prompt_of(&format!("?prompt={}", escaped)).as_deref(), expected);
    }
}

#[test]
fn plain_text_stands_for_itself() {
    for text in ["/home/me/a+b&c=d", "\u{e9}?#"] {
        assert_eq!(path_of(text).as_deref(), Some(text));
    }
    assert_eq!(prompt_of("?prompt=a=b?c").as_deref(), Some("a=b?c"));
    assert_eq!(prompt_of("?prompt=a+b").as_deref(), Some("a b"));
}
