use bff::utils::template::{render, urlencoding};

fn params(pairs: &[(&str, &str)]) -> Vec<(String, String)> {
    pairs.iter().map(|(k, v)| (k.to_string(), v.to_string())).collect()
}

#[test]
fn renders_placeholders() {
    let p = params(&[("userId", "1 a")]);
    assert_eq!(render("http://x/users/{userId}?q={q}", &p), "http://x/users/1%20a?q=%7Bq%7D");
}

#[test]
fn render_keeps_unclosed_brace() {
    let p = params(&[("a", "x")]);
    assert_eq!(render("/p/{a}/{b", &p), "/p/x/{b");
    assert_eq!(render("no placeholders", &p), "no placeholders");
    assert_eq!(render("", &p), "");
}

#[test]
fn render_encodes_values() {
    let p = params(&[("v", "a/b?c=d&e"), ("u", "é")]);
    assert_eq!(render("{v}|{u}", &p), "a%2Fb%3Fc%3Dd%26e|%C3%A9");
}

#[test]
fn urlencoding_keeps_unreserved() {
    assert_eq!(urlencoding("AZaz09-_.~"), "AZaz09-_.~");
    assert_eq!(urlencoding(" +"), "%20%2B");
}
