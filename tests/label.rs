use k8s_psl::{parse_label, InvalidLabel};

fn pair(key: &str, value: &str) -> (String, String) {
    (key.to_string(), value.to_string())
}

#[test]
fn label_plain_key() {
    assert_eq!(parse_label("stage=done"), Ok(pair("stage", "done")));
}

#[test]
fn label_prefixed_key() {
    assert_eq!(
        parse_label("example.com/stage=done"),
        Ok(pair("example.com/stage", "done"))
    );
}

#[test]
fn label_inner_punctuation() {
    assert_eq!(parse_label("a-b_c.d=x.y-z_1"), Ok(pair("a-b_c.d", "x.y-z_1")));
}

#[test]
fn label_single_characters() {
    assert_eq!(parse_label("a=1"), Ok(pair("a", "1")));
}

#[test]
fn label_case_kept() {
    assert_eq!(parse_label("Stage=Done"), Ok(pair("Stage", "Done")));
}

#[test]
fn label_longest_segments() {
    let name = "k".repeat(63);
    let value = "v".repeat(63);
    let prefix = "p".repeat(253);
    let text = format!("{}/{}={}", prefix, name, value);
    assert_eq!(
        parse_label(&text),
        Ok((format!("{}/{}", prefix, name), value.clone()))
    );
}

#[test]
fn label_name_too_long() {
    let text = format!("{}=v", "k".repeat(64));
    assert_eq!(parse_label(&text), Err(InvalidLabel));
}

#[test]
fn label_value_too_long() {
    let text = format!("k={}", "v".repeat(64));
    assert_eq!(parse_label(&text), Err(InvalidLabel));
}

#[test]
fn label_prefix_too_long() {
    let text = format!("{}/k=v", "p".repeat(254));
    assert_eq!(parse_label(&text), Err(InvalidLabel));
}

#[test]
fn label_without_eq() {
    assert_eq!(parse_label("stage"), Err(InvalidLabel));
}

#[test]
fn label_two_eqs() {
    assert_eq!(parse_label("a=b=c"), Err(InvalidLabel));
}

#[test]
fn label_empty_parts() {
    assert_eq!(parse_label(""), Err(InvalidLabel));
    assert_eq!(parse_label("="), Err(InvalidLabel));
    assert_eq!(parse_label("k="), Err(InvalidLabel));
    assert_eq!(parse_label("=v"), Err(InvalidLabel));
    assert_eq!(parse_label("/k=v"), Err(InvalidLabel));
}

#[test]
fn label_invalid_characters() {
    assert_eq!(parse_label("st age=done"), Err(InvalidLabel));
    assert_eq!(parse_label("stage=do ne"), Err(InvalidLabel));
    assert_eq!(parse_label("ex_ample/k=v"), Err(InvalidLabel));
    assert_eq!(parse_label("a/b/c=v"), Err(InvalidLabel));
    assert_eq!(parse_label("stagé=done"), Err(InvalidLabel));
}

#[test]
fn label_boundaries_alphanumeric() {
    assert_eq!(parse_label("stage-=done"), Err(InvalidLabel));
    assert_eq!(parse_label("stage=done."), Err(InvalidLabel));
    assert_eq!(parse_label("-stage=done"), Err(InvalidLabel));
    assert_eq!(parse_label("stage=_done"), Err(InvalidLabel));
    assert_eq!(parse_label(".ex/k=v"), Err(InvalidLabel));
}

#[test]
fn label_no_trimming() {
    assert_eq!(parse_label(" stage=done"), Err(InvalidLabel));
    assert_eq!(parse_label("stage=done\n"), Err(InvalidLabel));
}

#[test]
fn label_error_message() {
    assert_eq!(InvalidLabel.message(), "Invalid label value");
}
