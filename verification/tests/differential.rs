use camofy::compose::generate_merged_config;
use camofy::cron::parse_dow_field;
use camofy::cron::parse_field;
use camofy::engine::custom_download;
use camofy::engine::resolve_core_download_url;
use camofy::engine::CoreDownloadRequest;
use camofy::http::build_http_request;
use camofy::http::encode_path_segment;
use camofy::http::lines_of;
use camofy::text::blank_text;
use camofy::text::contains;
use camofy::text::ends_with;
use camofy::text::eq_ignore_ascii_case;
use camofy::text::split_chars;
use camofy::text::split_words;
use camofy::text::starts_with;
use camofy::text::trim_text;
use serde_yaml::Mapping;
use std::io::BufRead;
use std::io::Read;
use serde_yaml::Value;

struct Dice(u64);

impl Dice {
    fn roll(&mut self, sides: u64) -> u64 {
        self.0 = self.0.wrapping_mul(6364136223846793005).wrapping_add(1442695040888963407);
        (self.0 >> 33) % sides
    }

    fn pick<'a>(&mut self, from: &[&'a str]) -> &'a str {
        from[self.roll(from.len() as u64) as usize]
    }

    fn text(&mut self, alphabet: &[&str], max: u64) -> String {
        let n = self.roll(max + 1);
        (0..n).map(|_| self.pick(alphabet)).collect()
    }
}

fn strings(parts: Vec<Vec<char>>) -> Vec<String> {
    parts.into_iter().map(|p| p.into_iter().collect()).collect()
}

const TEXT_ALPHABET: [&str; 14] =
    ["a", "B", " ", "\t", "\n", "\r", ",", "\u{a0}", "\u{3000}", "é", "1", "/", "-", "\r\n"];

#[test]
fn text_helpers_agree_with_std() {
    let mut dice = Dice(7);
    for _ in 0..3000 {
        let s = dice.text(&TEXT_ALPHABET, 8);
        let t = dice.text(&TEXT_ALPHABET, 3);
        let chars: Vec<char> = s.chars().collect();
        assert_eq!(trim_text(&s), s.trim(), "{s:?}");
        assert_eq!(blank_text(&s), s.trim().is_empty(), "{s:?}");
        assert_eq!(strings(split_chars(&chars, ',')), s.split(',').collect::<Vec<&str>>(), "{s:?}");
        assert_eq!(strings(split_words(&chars)), s.split_whitespace().collect::<Vec<&str>>(), "{s:?}");
        assert_eq!(strings(lines_of(&chars)), s.lines().collect::<Vec<&str>>(), "{s:?}");
        assert_eq!(starts_with(&s, &t), s.starts_with(t.as_str()), "{s:?} {t:?}");
        assert_eq!(ends_with(&s, &t), s.ends_with(t.as_str()), "{s:?} {t:?}");
        assert_eq!(contains(&s, &t), s.contains(t.as_str()), "{s:?} {t:?}");
        assert_eq!(eq_ignore_ascii_case(&s, &t), s.eq_ignore_ascii_case(&t), "{s:?} {t:?}");
        assert_eq!(eq_ignore_ascii_case(&s, &s.to_ascii_uppercase()), true, "{s:?}");
    }
}

fn plain_segment(input: &str) -> String {
    let mut out = String::new();
    for b in input.bytes() {
        match b {
            b'A'..=b'Z' | b'a'..=b'z' | b'0'..=b'9' | b'-' | b'_' | b'.' | b'~' => out.push(b as char),
            _ => out.push_str(&format!("%{:02X}", b)),
        }
    }
    out
}

fn plain_request(method: &str, path: &str, body: Option<&str>, secret: &str) -> String {
    let path = if path.starts_with('/') { path.to_string() } else { format!("/{}", path) };
    let mut req = String::new();
    req.push_str(&format!("{method} {path} HTTP/1.1\r\n"));
    req.push_str("Host: 127.0.0.1\r\n");
    req.push_str("Accept: application/json\r\n");
    req.push_str("Connection: close\r\n");
    req.push_str(&format!("Authorization: Bearer {secret}\r\n"));
    if let Some(body_str) = body {
        req.push_str("Content-Type: application/json\r\n");
        req.push_str(&format!("Content-Length: {}\r\n", body_str.len()));
        req.push_str("\r\n");
        req.push_str(body_str);
    } else {
        req.push_str("\r\n");
    }
    req
}

#[test]
fn requests_and_segments_agree_with_plain_formatting() {
    let mut dice = Dice(11);
    let alphabet = ["a", "Z", "9", "/", " ", "~", "%", "é", "节", "\u{7f}", "?", "&", "=", "."];
    for _ in 0..2000 {
        let s = dice.text(&alphabet, 10);
        let body = dice.text(&alphabet, 12);
        assert_eq!(encode_path_segment(&s), plain_segment(&s), "{s:?}");
        assert_eq!(build_http_request("PUT", &s, Some(&body), "k"), plain_request("PUT", &s, Some(&body), "k"));
        assert_eq!(build_http_request("GET", &s, None, &body), plain_request("GET", &s, None, &body));
    }
}

#[test]
fn download_names_agree_with_plain_string_handling() {
    let mut dice = Dice(13);
    let alphabet = ["a", "v", "/", " ", ".", "1", "z"];
    for _ in 0..2000 {
        let url = dice.text(&alphabet, 10);
        let got = custom_download(&CoreDownloadRequest { url: Some(url.clone()) });
        let trimmed = url.trim();
        let want = if trimmed.is_empty() {
            None
        } else {
            let name = trimmed.rsplit('/').next().filter(|s| !s.is_empty()).unwrap_or("mihomo");
            Some((trimmed.to_string(), name.to_string()))
        };
        assert_eq!(got, want, "{url:?}");
        let tag = dice.text(&alphabet, 6);
        let asset = resolve_core_download_url(&tag, "arch");
        assert_eq!(asset.version, tag.trim_start_matches('v'), "{tag:?}");
        assert_eq!(asset.file_name, format!("mihomo-arch-v{}.gz", tag.trim_start_matches('v')));
    }
}

fn simple_field(spec: &str, min: u32, max: u32) -> Result<Vec<bool>, ()> {
    let mut allowed = vec![false; (max - min + 1) as usize];
    let mut mark = |start: u32, end: u32, step: u32| {
        let step = step.max(1);
        let start = start.max(min);
        let end = end.min(max);
        let mut v = start;
        while v <= end {
            allowed[(v - min) as usize] = true;
            match v.checked_add(step) {
                Some(next) => v = next,
                None => break,
            }
        }
    };
    let spec = spec.trim();
    if spec == "*" {
        mark(min, max, 1);
        return Ok(allowed);
    }
    for part in spec.split(',') {
        let part = part.trim();
        if part.is_empty() {
            continue;
        }
        let (range_part, step_part) = match part.split_once('/') {
            Some((r, s)) => (r.trim(), Some(s.trim())),
            None => (part, None),
        };
        let step = match step_part {
            Some(s) => s.parse::<u32>().map_err(|_| ())?,
            None => 1,
        };
        if range_part == "*" {
            mark(min, max, step);
            continue;
        }
        let (start, end) = if let Some((a, b)) = range_part.split_once('-') {
            (a.trim().parse::<u32>().map_err(|_| ())?, b.trim().parse::<u32>().map_err(|_| ())?)
        } else {
            let value = range_part.parse::<u32>().map_err(|_| ())?;
            (value, value)
        };
        if start > end {
            return Err(());
        }
        mark(start, end, step);
    }
    Ok(allowed)
}

#[test]
fn cron_fields_agree_with_a_simple_reading() {
    let mut dice = Dice(17);
    let alphabet = ["*", "/", "-", ",", " ", "0", "1", "2", "5", "7", "9", "3", "+", "x"];
    let bounds = [(0u32, 59u32), (0, 23), (1, 31), (1, 12), (0, 7)];
    let mut accepted = 0;
    for round in 0..6000 {
        let spec = dice.text(&alphabet, 7);
        let (min, max) = bounds[round % bounds.len()];
        let got = parse_field(&spec, min, max);
        let want = simple_field(&spec, min, max);
        assert_eq!(got.is_ok(), want.is_ok(), "{spec:?}");
        if let (Ok(field), Ok(allowed)) = (got, want) {
            accepted += 1;
            for v in 0..=(max + 2) {
                let expected = v >= min && v <= max && allowed[(v - min) as usize];
                assert_eq!(field.matches(v), expected, "{spec:?} at {v}");
            }
        }
        let dow = parse_dow_field(&spec);
        let want = simple_field(&spec, 0, 7);
        assert_eq!(dow.is_ok(), want.is_ok(), "{spec:?}");
        if let (Ok(field), Ok(mut allowed)) = (dow, want) {
            if allowed[7] {
                allowed[0] = true;
                allowed[7] = false;
            }
            for v in 0..=9u32 {
                let expected = v <= 7 && allowed[v as usize];
                assert_eq!(field.matches(v), expected, "{spec:?} at {v}");
            }
        }
    }
    assert!(accepted > 500);
}

fn simple_deep_merge(target: &mut Mapping, source: &Mapping) {
    for (k, v) in source {
        match (target.get_mut(k), v) {
            (Some(Value::Mapping(dst)), Value::Mapping(src)) => simple_deep_merge(dst, src),
            _ => {
                target.insert(k.clone(), v.clone());
            }
        }
    }
}

fn simple_items(value: Option<&Value>) -> Result<Vec<Value>, ()> {
    match value {
        Some(Value::Sequence(seq)) => Ok(seq.clone()),
        Some(Value::Null) | None => Ok(Vec::new()),
        Some(_) => Err(()),
    }
}

fn simple_merge(base: Option<&Value>, over: Option<&Value>) -> Result<Value, ()> {
    let root = |value: Option<&Value>| match value {
        None | Some(Value::Null) => Ok(Mapping::new()),
        Some(Value::Mapping(m)) => Ok(m.clone()),
        Some(_) => Err(()),
    };
    let base_map = root(base)?;
    let over_map = root(over)?;
    let mut result = base_map.clone();
    for (k, v) in &over_map {
        let key = k.as_str();
        if let Some(name) = key {
            if name.starts_with("prepend-") || name.starts_with("append-") {
                let field = name.trim_start_matches("prepend-").trim_start_matches("append-");
                if matches!(field, "rules" | "proxies" | "proxy-groups") {
                    continue;
                }
            }
        }
        match (result.get_mut(k), v) {
            (Some(Value::Mapping(dst)), Value::Mapping(src))
                if key != Some("rules") && key != Some("proxies") =>
            {
                simple_deep_merge(dst, src)
            }
            _ => {
                result.insert(k.clone(), v.clone());
            }
        }
    }
    for field in ["rules", "proxies", "proxy-groups"] {
        let prepend = over_map.get(format!("prepend-{field}"));
        let append = over_map.get(format!("append-{field}"));
        if prepend.is_some() || append.is_some() {
            let inner = over_map.get(field).or_else(|| base_map.get(field));
            let middle = simple_items(inner)?;
            let mut all = simple_items(prepend)?;
            all.extend(middle);
            all.extend(simple_items(append)?);
            result.insert(Value::String(field.to_string()), Value::Sequence(all));
        }
    }
    Ok(Value::Mapping(result))
}

fn random_value(dice: &mut Dice, depth: u64) -> String {
    let keys = [
        "a",
        "b",
        "c",
        "rules",
        "proxies",
        "proxy-groups",
        "prepend-rules",
        "append-rules",
        "prepend-proxies",
        "append-proxies",
        "prepend-proxy-groups",
        "append-proxy-groups",
        "1",
        "true",
        "[k]",
        "{m: n}",
    ];
    match dice.roll(if depth == 0 { 4 } else { 7 }) {
        0 => dice.pick(&["1", "-2", "3.5", "0"]).to_string(),
        1 => dice.pick(&["x", "y", "'z z'", "\"q\""]).to_string(),
        2 => dice.pick(&["true", "false", "~"]).to_string(),
        3 => "[]".to_string(),
        4 => {
            let n = dice.roll(3);
            let items: Vec<String> = (0..n).map(|_| random_value(dice, depth - 1)).collect();
            format!("[{}]", items.join(", "))
        }
        _ => {
            let n = dice.roll(4);
            let mut used: Vec<&str> = Vec::new();
            let mut entries: Vec<String> = Vec::new();
            for _ in 0..n {
                let key = dice.pick(&keys);
                if used.contains(&key) {
                    continue;
                }
                used.push(key);
                entries.push(format!("{key}: {}", random_value(dice, depth - 1)));
            }
            format!("{{{}}}", entries.join(", "))
        }
    }
}

fn random_document(dice: &mut Dice) -> Option<String> {
    match dice.roll(8) {
        0 => None,
        1 => Some(String::new()),
        2 => Some(random_value(dice, 0)),
        _ => {
            let mut text = random_value(dice, 3);
            while !text.starts_with('{') {
                text = random_value(dice, 3);
            }
            Some(text)
        }
    }
}

fn simple_document(text: Option<&str>) -> Result<Option<Value>, ()> {
    match text {
        None => Ok(None),
        Some(t) if t.trim().is_empty() => Ok(Some(Value::Null)),
        Some(t) => serde_yaml::from_str::<Value>(t).map(Some).map_err(|_| ()),
    }
}

fn simple_compose(base: Option<&str>, over: Option<&str>, defaults: Option<&str>) -> Result<String, ()> {
    let base = simple_document(base)?;
    let over = simple_document(over)?;
    let mut merged = simple_merge(base.as_ref(), over.as_ref())?;
    if let Some(text) = defaults {
        if let Ok(Some(tree)) = simple_document(Some(text)) {
            merged = simple_merge(Some(&merged), Some(&tree))?;
        }
    }
    serde_yaml::to_string(&merged).map_err(|_| ())
}

#[test]
fn composition_agrees_with_a_simple_merge_of_values() {
    let mut dice = Dice(23);
    let mut composed = 0;
    let mut refused = 0;
    for _ in 0..4000 {
        let base = random_document(&mut dice);
        let over = random_document(&mut dice);
        let defaults = random_document(&mut dice);
        let got = generate_merged_config(base.as_deref(), over.as_deref(), defaults.as_deref());
        let want = simple_compose(base.as_deref(), over.as_deref(), defaults.as_deref());
        match (got, want) {
            (Ok(text), Ok(expected)) => {
                composed += 1;
                assert_eq!(text, expected, "{base:?} {over:?} {defaults:?}");
            }
            (Err(_), Err(())) => refused += 1,
            (got, want) => panic!("{base:?} {over:?} {defaults:?}: {got:?} against {want:?}"),
        }
    }
    assert!(composed > 1000);
    assert!(refused > 100);
}

fn simple_response(raw: &[u8]) -> Result<(u16, String), ()> {
    let mut reader = std::io::BufReader::new(raw);
    let mut header = String::new();
    loop {
        let mut line = String::new();
        let size = reader.read_line(&mut line).map_err(|_| ())?;
        if size == 0 {
            return Err(());
        }
        header.push_str(&line);
        if line == "\r\n" {
            break;
        }
    }
    let mut content_length: Option<usize> = None;
    let mut is_chunked = false;
    for line in header.lines() {
        let lower = line.to_ascii_lowercase();
        if let Some(v) = lower.strip_prefix("content-length: ") {
            if let Ok(len) = v.trim().parse::<usize>() {
                content_length = Some(len);
            }
        }
        if lower.contains("transfer-encoding: chunked") {
            is_chunked = true;
        }
    }
    let body = if is_chunked {
        let mut body = Vec::new();
        loop {
            let mut size_line = String::new();
            let read = reader.read_line(&mut size_line).map_err(|_| ())?;
            if read == 0 {
                return Err(());
            }
            let size_line = size_line.trim();
            if size_line.is_empty() {
                continue;
            }
            let chunk_size = usize::from_str_radix(size_line, 16).map_err(|_| ())?;
            if chunk_size == 0 {
                let mut end = String::new();
                reader.read_line(&mut end).map_err(|_| ())?;
                break;
            }
            if chunk_size > raw.len() {
                return Err(());
            }
            let mut chunk = vec![0u8; chunk_size];
            reader.read_exact(&mut chunk).map_err(|_| ())?;
            body.extend_from_slice(&chunk);
            let mut crlf = String::new();
            reader.read_line(&mut crlf).map_err(|_| ())?;
        }
        String::from_utf8(body).map_err(|_| ())?
    } else if let Some(len) = content_length {
        if len > raw.len() {
            return Err(());
        }
        let mut buf = vec![0u8; len];
        reader.read_exact(&mut buf).map_err(|_| ())?;
        String::from_utf8(buf).map_err(|_| ())?
    } else {
        let mut buf = String::new();
        reader.read_to_string(&mut buf).map_err(|_| ())?;
        buf
    };
    let status_line = header.lines().next().ok_or(())?;
    let mut parts = status_line.split_whitespace();
    parts.next().ok_or(())?;
    let code = parts.next().ok_or(())?;
    let status: u16 = code.parse().map_err(|_| ())?;
    Ok((status, body))
}

#[test]
fn responses_agree_with_a_simple_reader() {
    let mut dice = Dice(29);
    let heads: [&[u8]; 12] = [
        b"HTTP/1.1 200 OK\r\n",
        b"HTTP/1.1 404\r\n",
        b"HTTP/1.1\r\n",
        b"HTTP/1.1 x\r\n",
        b"\r\n",
        b"Content-Length: 3\r\n",
        b"content-length: 0\r\n",
        b"CONTENT-LENGTH:  12 \r\n",
        b"Content-Length: z\r\n",
        b"Transfer-Encoding: chunked\r\n",
        b"X: y\n",
        b"\xff\r\n",
    ];
    let bodies: [&[u8]; 14] = [
        b"abc",
        b"\r\n",
        b"3\r\nabc\r\n",
        b"0\r\n",
        b"0\r\n\r\n",
        b"A\r\n0123456789\r\n",
        b"1\r\n",
        b"\xc3",
        b"\xa9",
        b"zz\r\n",
        b"+2\r\nhi\n",
        b" 1 \r\nq\r\n",
        b"\n",
        b"ffffffffffffffffff\r\n",
    ];
    let mut read = 0;
    let mut refused = 0;
    for _ in 0..6000 {
        let mut raw: Vec<u8> = Vec::new();
        for _ in 0..dice.roll(4) {
            raw.extend_from_slice(heads[dice.roll(heads.len() as u64) as usize]);
        }
        if dice.roll(8) != 0 {
            raw.extend_from_slice(b"\r\n");
        }
        for _ in 0..dice.roll(5) {
            raw.extend_from_slice(bodies[dice.roll(bodies.len() as u64) as usize]);
        }
        let got = camofy::http::parse_http_response(&raw);
        let want = simple_response(&raw);
        match (&got, &want) {
            (Ok(a), Ok(b)) => {
                read += 1;
                assert_eq!(a, b, "{:?}", String::from_utf8_lossy(&raw));
            }
            (Err(_), Err(())) => refused += 1,
            _ => panic!("{:?}: {got:?} against {want:?}", String::from_utf8_lossy(&raw)),
        }
    }
    assert!(read > 500);
    assert!(refused > 500);
}
