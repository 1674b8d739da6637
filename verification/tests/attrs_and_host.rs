use sysident::attrs::UserAttr;
use sysident::error::IdError;
use sysident::host::{nodename_from_bytes, zonename_from_raw, ZONENAME_MAX};
use sysident::lookup::finish_user_attr_lookup;
use sysident::text::split_and_trim;

fn pairs(kvs: &[(&str, &str)]) -> Vec<(Vec<u8>, Vec<u8>)> {
    kvs.iter()
        .map(|(k, v)| (k.as_bytes().to_vec(), v.as_bytes().to_vec()))
        .collect()
}

#[test]
fn profiles_split_and_trimmed_in_order() {
    let ua = UserAttr::from_pairs(
        "alice".to_string(),
        &pairs(&[("profiles", "a, b,c")]),
    );
    assert_eq!(
        ua.profiles(),
        vec!["a".to_string(), "b".to_string(), "c".to_string()]
    );
}

#[test]
fn profiles_keep_duplicates_and_empties() {
    let ua = UserAttr::from_pairs(
        "alice".to_string(),
        &pairs(&[("profiles", " x ,, x ")]),
    );
    assert_eq!(
        ua.profiles(),
        vec!["x".to_string(), String::new(), "x".to_string()]
    );
}

#[test]
fn missing_profiles_attribute_gives_empty_list() {
    let ua = UserAttr::from_pairs("alice".to_string(), &pairs(&[("type", "normal")]));
    assert_eq!(ua.profiles(), Vec::<String>::new());
}

#[test]
fn empty_profiles_value_gives_one_empty_entry() {
    let ua = UserAttr::from_pairs("alice".to_string(), &pairs(&[("profiles", "")]));
    assert_eq!(ua.profiles(), vec![String::new()]);
}

#[test]
fn split_and_trim_exact_pieces() {
    assert_eq!(
        split_and_trim("a, b,c"),
        vec!["a".to_string(), "b".to_string(), "c".to_string()]
    );
    assert_eq!(split_and_trim(""), vec![String::new()]);
    assert_eq!(
        split_and_trim(" Basic Solaris User ,Printer Management"),
        vec![
            "Basic Solaris User".to_string(),
            "Printer Management".to_string()
        ]
    );
}

#[test]
fn later_attribute_entry_overrides_earlier() {
    let ua = UserAttr::from_pairs(
        "alice".to_string(),
        &pairs(&[("type", "normal"), ("type", "role")]),
    );
    assert_eq!(ua.get_attr(&"type".to_string()), Some(&"role".to_string()));
    assert_eq!(ua.attr.len(), 1);
    assert_eq!(ua.attr[0], ("type".to_string(), "role".to_string()));
}

#[test]
fn undecodable_attribute_pair_is_silently_skipped() {
    let mut kvs = pairs(&[("type", "normal")]);
    kvs.push((vec![0xFF], b"junk".to_vec()));
    kvs.push((b"lock_after_retries".to_vec(), vec![0x80, 0x80]));
    let ua = UserAttr::from_pairs("alice".to_string(), &kvs);
    assert_eq!(ua.attr.len(), 1);
    assert_eq!(ua.get_attr(&"type".to_string()), Some(&"normal".to_string()));
    assert_eq!(ua.get_attr(&"lock_after_retries".to_string()), None);
}

#[test]
fn user_attr_lookup_carries_name_and_pairs() {
    let ua = finish_user_attr_lookup(
        "operator".to_string(),
        Some(pairs(&[("profiles", "Operator")])),
    )
    .unwrap();
    assert_eq!(ua.name, "operator".to_string());
    assert_eq!(ua.profiles(), vec!["Operator".to_string()]);
}

#[test]
fn nodename_takes_bytes_before_nul() {
    let mut buf = b"myhost".to_vec();
    buf.push(0);
    buf.extend_from_slice(b"junk after");
    assert_eq!(nodename_from_bytes(&buf), Ok("myhost".to_string()));
}

#[test]
fn nodename_without_terminator_is_unrecoverable() {
    assert_eq!(
        nodename_from_bytes(b"no terminator here"),
        Err(IdError::Unrecoverable)
    );
}

#[test]
fn nodename_with_undecodable_text_is_unrecoverable() {
    assert_eq!(
        nodename_from_bytes(&[0xFF, 0xFE, 0x00]),
        Err(IdError::Unrecoverable)
    );
}

fn zone_buf(name: &[u8]) -> ([u8; 64], isize) {
    let mut buf = [0u8; 64];
    buf[..name.len()].copy_from_slice(name);
    (buf, (name.len() + 1) as isize)
}

#[test]
fn zonename_extracts_terminated_name() {
    let (buf, sz) = zone_buf(b"global");
    assert_eq!(zonename_from_raw(&buf, sz), Ok("global".to_string()));
}

#[test]
fn zonename_rejects_bad_reported_length() {
    let buf = [0u8; 64];
    assert_eq!(zonename_from_raw(&buf, -1), Err(IdError::Unrecoverable));
    assert_eq!(
        zonename_from_raw(&buf, (ZONENAME_MAX + 1) as isize),
        Err(IdError::Unrecoverable)
    );
    assert_eq!(zonename_from_raw(&buf, 0), Err(IdError::Unrecoverable));
}

#[test]
fn zonename_rejects_missing_or_interior_nul() {
    let mut buf = [0u8; 64];
    buf[..4].copy_from_slice(b"zone");
    buf[4] = b'x';
    assert_eq!(zonename_from_raw(&buf, 5), Err(IdError::Unrecoverable));
    let mut buf2 = [0u8; 64];
    buf2[..2].copy_from_slice(b"ab");
    buf2[2] = 0;
    buf2[3] = b'c';
    buf2[4] = 0;
    assert_eq!(zonename_from_raw(&buf2, 5), Err(IdError::Unrecoverable));
}
