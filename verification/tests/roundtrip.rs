//! Concrete instances of the round-trip laws: formatting a node and
//! parsing the result gives the node back, and marker-free text passes
//! through the parser unchanged.

use gemview::gemtext::{parse_gemtext, GemtextNode, Link};

fn roundtrips(node: GemtextNode) {
    let line = node.to_line();
    let parsed = parse_gemtext(&line);
    assert_eq!(parsed, vec![node]);
}

#[test]
fn roundtrip_h1() {
    assert_eq!(GemtextNode::H1("x".to_string()).to_line(), "# x");
    roundtrips(GemtextNode::H1("x".to_string()));
}

#[test]
fn roundtrip_h2_h3() {
    roundtrips(GemtextNode::H2("two words".to_string()));
    roundtrips(GemtextNode::H3("deep".to_string()));
}

#[test]
fn roundtrip_list_item() {
    assert_eq!(GemtextNode::ListItem("item".to_string()).to_line(), "* item");
    roundtrips(GemtextNode::ListItem("item".to_string()));
}

#[test]
fn roundtrip_blockquote() {
    assert_eq!(GemtextNode::Blockquote("quoted".to_string()).to_line(), "> quoted");
    roundtrips(GemtextNode::Blockquote("quoted".to_string()));
}

#[test]
fn roundtrip_text() {
    roundtrips(GemtextNode::Text("nothing special here".to_string()));
}

#[test]
fn roundtrip_link() {
    let node = GemtextNode::Link(Link {
        url: "u".to_string(),
        display: Some("d".to_string()),
    });
    assert_eq!(node.to_line(), "=> u d");
    roundtrips(node);
    roundtrips(GemtextNode::Link(Link {
        url: "gemini://example.com/".to_string(),
        display: None,
    }));
}

#[test]
fn roundtrip_prompt() {
    let node = GemtextNode::Prompt(Link {
        url: "spartan://example.com/up".to_string(),
        display: Some("send words".to_string()),
    });
    assert_eq!(node.to_line(), "=: spartan://example.com/up send words");
    roundtrips(node);
}

#[test]
fn roundtrip_preformatted() {
    let node = GemtextNode::Preformatted(
        "fn main() {\n    body\n}".to_string(),
        Some("rust".to_string()),
    );
    assert_eq!(node.to_line(), "```rust\nfn main() {\n    body\n}\n```");
    roundtrips(node);
    roundtrips(GemtextNode::Preformatted("bare block".to_string(), None));
}

#[test]
fn plain_text_reconstruction() {
    // with no markers present, the parse is one text node per line and
    // concatenating them reproduces the input
    let text = "first line\n\nthird line";
    let parsed = parse_gemtext(text);
    assert_eq!(
        parsed,
        vec![
            GemtextNode::Text("first line".to_string()),
            GemtextNode::EmptyLine,
            GemtextNode::Text("third line".to_string()),
        ]
    );
    let mut rebuilt = String::new();
    for (i, node) in parsed.iter().enumerate() {
        if i > 0 {
            rebuilt.push('\n');
        }
        match node {
            GemtextNode::Text(s) => rebuilt.push_str(s),
            GemtextNode::EmptyLine => {}
            other => panic!("unexpected node {:?}", other),
        }
    }
    assert_eq!(rebuilt, text);
}

#[test]
fn quote_flushes_at_end_of_input() {
    // a document ending inside a quote run still yields the quote
    let parsed = parse_gemtext("> only quote");
    assert_eq!(parsed, vec![GemtextNode::Blockquote("only quote".to_string())]);
    let parsed = parse_gemtext("> a\n> b");
    assert_eq!(parsed, vec![GemtextNode::Blockquote("a\nb".to_string())]);
}

#[test]
fn parser_never_fails_on_junk() {
    // worst case is an all-text reproduction plus flushed blocks
    let junk = "=>\n=:\n#nospace\n*nospace\n>\n``\n```unclosed\nstill inside";
    let parsed = parse_gemtext(junk);
    assert_eq!(parsed[0], GemtextNode::Text("=>".to_string()));
    assert_eq!(parsed[1], GemtextNode::Text("=:".to_string()));
    assert_eq!(parsed[2], GemtextNode::Text("#nospace".to_string()));
    assert_eq!(parsed[3], GemtextNode::Text("*nospace".to_string()));
    assert_eq!(parsed[4], GemtextNode::Text(">".to_string()));
    assert_eq!(parsed[5], GemtextNode::Text("``".to_string()));
    assert_eq!(
        parsed[6],
        GemtextNode::Preformatted("still inside".to_string(), Some("unclosed".to_string()))
    );
    assert_eq!(parsed.len(), 7);
}
