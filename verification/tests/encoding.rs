use cloudflare_tfvars::encode::encode_collection;
use cloudflare_tfvars::record::DomainRecord;

fn record(
    name: &str,
    rec_id: &str,
    zone_name: &str,
    prio: Option<&str>,
    ttl: u32,
    record_type: &str,
    content: &str,
) -> DomainRecord {
    DomainRecord {
        name: name.to_owned(),
        rec_id: rec_id.to_owned(),
        zone_name: zone_name.to_owned(),
        prio: prio.map(|p| p.to_owned()),
        ttl,
        record_type: record_type.to_owned(),
        content: content.to_owned(),
    }
}

fn www_record() -> DomainRecord {
    record("www", "123", "example.com", None, 300, "A", "1.2.3.4")
}

const WWW_FRAGMENT: &str = "\"cloudflare_record.www\": {\n    \"type\": \"cloudflare_record\",\n    \"primary\": {\n        \"id\": \"123\",\n        \"attributes\": {\n            \"domain\": \"example.com\",\n            \"hostname\": \"example.com\",\n            \"id\": \"123\",\n            \"name\": \"www\",\n            \"priority\": \"\",\n            \"ttl\": \"300\",\n            \"type\": \"A\",\n            \"value\": \"1.2.3.4\"\n        }\n    }\n}";

#[test]
fn single_record_exact_fragment() {
    assert_eq!(www_record().encode(), WWW_FRAGMENT);
}

#[test]
fn example_record_fields() {
    let s = www_record().encode();
    assert!(s.contains("\"id\": \"123\""));
    assert!(s.contains("\"name\": \"www\""));
    assert!(s.contains("\"priority\": \"\""));
    assert!(s.contains("\"ttl\": \"300\""));
    assert!(s.contains("\"type\": \"A\""));
    assert!(s.contains("\"value\": \"1.2.3.4\""));
    assert!(s.contains("\"domain\": \"example.com\""));
    assert!(s.contains("\"hostname\": \"example.com\""));
}

#[test]
fn empty_collection_is_empty_brackets() {
    let records: Vec<DomainRecord> = vec![];
    assert_eq!(encode_collection(&records), "[]");
}

#[test]
fn two_records_single_separator() {
    let r1 = www_record();
    let r2 = record("mail", "456", "example.com", Some("10"), 600, "MX", "mx.example.com");
    let frag1 = r1.encode();
    let frag2 = r2.encode();
    let joined = encode_collection(&vec![r1, r2]);
    assert_eq!(joined, format!("[{},\n{}]", frag1, frag2));
}

#[test]
fn collection_preserves_input_order() {
    let names = ["b", "a", "c"];
    let records: Vec<DomainRecord> = names
        .iter()
        .map(|n| record(n, "1", "example.com", None, 60, "A", "9.9.9.9"))
        .collect();
    let s = encode_collection(&records);
    let pos: Vec<usize> = names
        .iter()
        .map(|n| s.find(&format!("\"cloudflare_record.{}\"", n)).unwrap())
        .collect();
    assert!(pos[0] < pos[1] && pos[1] < pos[2]);
    let fragments: Vec<String> = records.iter().map(|r| r.encode()).collect();
    assert_eq!(s, format!("[{},\n{},\n{}]", fragments[0], fragments[1], fragments[2]));
}

#[test]
fn present_priority_renders_its_text() {
    let s = record("mail", "456", "example.com", Some("10"), 600, "MX", "mx.example.com").encode();
    assert!(s.contains("\"priority\": \"10\""));
}

#[test]
fn absent_priority_renders_empty() {
    let s = www_record().encode();
    assert!(s.contains("\"priority\": \"\""));
}

#[test]
fn present_but_empty_priority_renders_like_absent() {
    let with_empty = record("www", "123", "example.com", Some(""), 300, "A", "1.2.3.4");
    assert_eq!(with_empty.encode(), WWW_FRAGMENT);
}

#[test]
fn encoding_twice_is_byte_identical() {
    let r = www_record();
    assert_eq!(r.encode(), r.encode());
}

#[test]
fn ttl_zero_renders_as_zero() {
    let s = record("www", "1", "example.com", None, 0, "A", "1.2.3.4").encode();
    assert!(s.contains("\"ttl\": \"0\""));
}

#[test]
fn ttl_largest_value_renders_in_full() {
    let s = record("www", "1", "example.com", None, u32::MAX, "A", "1.2.3.4").encode();
    assert!(s.contains("\"ttl\": \"4294967295\""));
}

#[test]
fn empty_text_fields_render_as_empty_strings() {
    let s = record("", "", "", None, 1, "", "").encode();
    assert!(s.starts_with("\"cloudflare_record.\": {"));
    assert!(s.contains("\"id\": \"\""));
    assert!(s.contains("\"value\": \"\""));
}

fn split_top_level(s: &str) -> Vec<String> {
    let chars: Vec<char> = s.chars().collect();
    let mut parts = vec![String::new()];
    let mut depth: i64 = 0;
    let mut i: usize = 0;
    while i < chars.len() {
        if depth == 0 && chars[i] == ',' && i + 1 < chars.len() && chars[i + 1] == '\n' {
            parts.push(String::new());
            i += 2;
        } else {
            match chars[i] {
                '{' => depth += 1,
                '}' => depth -= 1,
                _ => {}
            }
            parts.last_mut().unwrap().push(chars[i]);
            i += 1;
        }
    }
    parts
}

#[test]
fn top_level_split_recovers_each_fragment() {
    let r1 = www_record();
    let r2 = record("mail", "456", "example.com", Some("10"), 600, "MX", "mx.example.com");
    let r3 = record("txt", "789", "example.com", None, 60, "TXT", "v=spf1 -all");
    let frags: Vec<String> = vec![r1.encode(), r2.encode(), r3.encode()];
    let s = encode_collection(&vec![r1, r2, r3]);
    let inner = &s[1..s.len() - 1];
    // the separator pair also occurs inside every fragment, so a split that
    // ignores depth yields too many parts...
    assert!(inner.split(",\n").count() > 3);
    // ...while the top-level split yields exactly one part per record, in order
    assert_eq!(split_top_level(inner), frags);
}

fn value_after(s: &str, key: &str) -> String {
    let marker = format!("\"{}\": \"", key);
    let start = s.find(&marker).unwrap() + marker.len();
    let rest = &s[start..];
    let end = rest.find('"').unwrap();
    rest[..end].to_owned()
}

#[test]
fn reparsing_fragment_recovers_fields() {
    let full = record("ftp", "789", "example.org", Some("5"), 120, "MX", "mx2.example.org").encode();
    let s = &full[full.find("\"attributes\"").unwrap()..];
    assert_eq!(value_after(&s, "domain"), "example.org");
    assert_eq!(value_after(&s, "hostname"), "example.org");
    assert_eq!(value_after(&s, "name"), "ftp");
    assert_eq!(value_after(&s, "priority"), "5");
    assert_eq!(value_after(&s, "ttl"), "120");
    assert_eq!(value_after(&s, "type"), "MX");
    assert_eq!(value_after(&s, "value"), "mx2.example.org");
    assert_eq!(value_after(&s, "id"), "789");
}
