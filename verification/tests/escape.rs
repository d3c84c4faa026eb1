use aresty::escape::{Csv, Escape, Html, NoEscape, Tsv, Url};
use aresty::{hello_world, Greeting, Template};

#[test]
fn test_html_escape() {
    let mut buf = Vec::new();
    Html.write(&mut buf, "<i>Sample & \"test@example.com\"</a>").expect("write");
    assert_eq!(String::from_utf8(buf).expect("parse"), "&lt;i&gt;Sample &amp; &quot;test&#64;example.com&quot;&lt;/a&gt;");
}

#[test]
fn test_csv_escape() {
    let mut buf = Vec::new();
    Csv.write(&mut buf, "val1,\"val2\"").expect("write");
    assert_eq!(String::from_utf8(buf).expect("parse"), "\"val1,\"\"val2\"\"\"");
}

#[test]
fn test_tsv_escape() {
    let mut buf = Vec::new();
    Tsv.write(&mut buf, "\\val1\t\nval2").expect("write");
    assert_eq!(String::from_utf8(buf).expect("parse"), "\\\\val1\\t\\nval2");
}

#[test]
fn test_url_escape() {
    let mut buf = Vec::new();
    Url.write(&mut buf, "a=b&c='d e'").expect("write");
    assert_eq!(String::from_utf8(buf).expect("parse"), "a%3Db%26c%3D%27d+e%27");
}

fn escaped(strategy: &impl Escape, val: &str) -> String {
    let mut buf = Vec::new();
    strategy.write(&mut buf, val).expect("write");
    String::from_utf8(buf).expect("parse")
}

#[test]
fn plain_text_is_unchanged_by_every_strategy() {
    let plain = "plain text 0123 grüße";
    assert_eq!(escaped(&NoEscape, plain), plain);
    assert_eq!(escaped(&Html, plain), plain);
    assert_eq!(escaped(&Tsv, plain), plain);
    assert_eq!(escaped(&Csv, plain), plain);
    assert_eq!(escaped(&Url, "plain-text_0123.grüße~"), "plain-text_0123.grüße~");
}

#[test]
fn empty_value_stays_empty() {
    assert_eq!(escaped(&NoEscape, ""), "");
    assert_eq!(escaped(&Html, ""), "");
    assert_eq!(escaped(&Tsv, ""), "");
    assert_eq!(escaped(&Csv, ""), "");
    assert_eq!(escaped(&Url, ""), "");
}

#[test]
fn no_escape_passes_trigger_characters_through() {
    assert_eq!(escaped(&NoEscape, "<a href=\"x\">&</a>"), "<a href=\"x\">&</a>");
}

#[test]
fn write_appends_to_what_the_sink_holds() {
    let mut buf = b"id=".to_vec();
    Html.write(&mut buf, "<7>").expect("write");
    assert_eq!(buf, b"id=&lt;7&gt;".to_vec());
}

#[test]
fn html_rewrites_each_of_its_five_characters() {
    assert_eq!(escaped(&Html, "\""), "&quot;");
    assert_eq!(escaped(&Html, "&"), "&amp;");
    assert_eq!(escaped(&Html, "<"), "&lt;");
    assert_eq!(escaped(&Html, ">"), "&gt;");
    assert_eq!(escaped(&Html, "@"), "&#64;");
    assert_eq!(escaped(&Html, "'"), "'");
}

#[test]
fn tsv_rewrites_each_of_its_four_characters() {
    assert_eq!(escaped(&Tsv, "\n"), "\\n");
    assert_eq!(escaped(&Tsv, "\r"), "\\r");
    assert_eq!(escaped(&Tsv, "\t"), "\\t");
    assert_eq!(escaped(&Tsv, "\\"), "\\\\");
}

#[test]
fn url_encodes_every_reserved_character() {
    assert_eq!(
        escaped(&Url, "!#$&'()*+,/:;=?@[]% "),
        "%21%23%24%26%27%28%29%2A%2B%2C%2F%3A%3B%3D%3F%40%5B%5D%25+"
    );
}

#[test]
fn csv_quotes_a_field_with_a_separator_or_line_break() {
    assert_eq!(escaped(&Csv, "a,b"), "\"a,b\"");
    assert_eq!(escaped(&Csv, "a;b"), "\"a;b\"");
    assert_eq!(escaped(&Csv, "a\nb"), "\"a\nb\"");
    assert_eq!(escaped(&Csv, "a\rb"), "\"a\rb\"");
    assert_eq!(escaped(&Csv, "\""), "\"\"\"\"");
    assert_eq!(escaped(&Csv, "a b"), "a b");
}

#[test]
fn characters_beyond_ascii_pass_through() {
    assert_eq!(escaped(&Html, "é<ü"), "é&lt;ü");
    assert_eq!(escaped(&Url, "é ü"), "é+ü");
    assert_eq!(escaped(&Csv, "é,ü"), "\"é,ü\"");
}

#[test]
fn hello_world_greets() {
    let mut out = Vec::new();
    hello_world(&mut out).expect("write");
    assert_eq!(String::from_utf8(out).expect("parse"), "Hello, World!");
}

#[test]
fn greeting_renders_as_text_and_as_html() {
    let greeting = Greeting { name: "Tom & Jerry" };
    let mut text = Vec::new();
    greeting.render_text(&mut text).expect("write");
    assert_eq!(String::from_utf8(text).expect("parse"), "Hello, Tom & Jerry");
    let mut html = Vec::new();
    greeting.render_html(&mut html).expect("write");
    assert_eq!(String::from_utf8(html).expect("parse"), "Hello, Tom &amp; Jerry");
    let mut url = Vec::new();
    greeting.render(&mut url, &Url).expect("write");
    assert_eq!(String::from_utf8(url).expect("parse"), "Hello, Tom+%26+Jerry");
}
