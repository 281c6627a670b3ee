use gemview::gemtext::{parse_gemtext, GemtextNode, Link};

#[test]
fn parse_link() {
    let line = "=>   gemini://test.gmi Test line";
    let parsed = GemtextNode::parse_link(line);
    assert_eq!(
        parsed,
        GemtextNode::Link(Link {
            url: "gemini://test.gmi".to_string(),
            display: Some(String::from("Test line")),
        })
    );
}

#[test]
fn parse_link_nodisplay() {
    let line = "=> spartan://c.ca";
    let parsed = GemtextNode::parse_link(line);
    assert_eq!(
        parsed,
        GemtextNode::Link(Link {
            url: "spartan://c.ca".to_string(),
            display: None,
        })
    );
}

#[test]
fn parse_link_malformed() {
    let line = "=>gemini://c.ca";
    let parsed = GemtextNode::parse_link(line);
    assert_eq!(parsed, GemtextNode::Text(line.to_string()))
}

#[test]
fn parse_prompt() {
    let line = "=:   gemini://test.gmi/echo Test\techo";
    let parsed = GemtextNode::parse_prompt(line);
    assert_eq!(
        parsed,
        GemtextNode::Prompt(Link {
            url: "gemini://test.gmi/echo".to_string(),
            display: Some(String::from("Test echo")),
        })
    );
}

#[test]
fn parse_prompt_nodisplay() {
    let line = "=: spartan://c.ca/echo";
    let parsed = GemtextNode::parse_prompt(line);
    assert_eq!(
        parsed,
        GemtextNode::Prompt(Link {
            url: "spartan://c.ca/echo".to_string(),
            display: None,
        })
    );
}

#[test]
fn parse_h1() {
    let line = "# Hello World!";
    let parsed = GemtextNode::parse_heading(line);
    assert_eq!(parsed, GemtextNode::H1("Hello World!".to_string()));
}

#[test]
fn parse_h2() {
    let line = "## Hello World!";
    let parsed = GemtextNode::parse_heading(line);
    assert_eq!(parsed, GemtextNode::H2("Hello World!".to_string()));
}

#[test]
fn parse_h3() {
    let line = "### Hello World!";
    let parsed = GemtextNode::parse_heading(line);
    assert_eq!(parsed, GemtextNode::H3("Hello World!".to_string()));
}

#[test]
fn parse_heading_malformed() {
    let line = "##Hello World!";
    let parsed = GemtextNode::parse_heading(line);
    assert_eq!(parsed, GemtextNode::Text(line.to_string()));
}

#[test]
fn parse_li() {
    let line = "* Item 1";
    let parsed = GemtextNode::parse_list_item(line);
    assert_eq!(parsed, GemtextNode::ListItem("Item 1".to_string()));
}

#[test]
fn parse_li_bad_prefix() {
    let line = "** Item 2";
    let parsed = GemtextNode::parse_list_item(line);
    assert_eq!(parsed, GemtextNode::Text(line.to_string()));
}

#[test]
fn parse_li_nospace() {
    let line = "*Item3";
    let parsed = GemtextNode::parse_list_item(line);
    assert_eq!(parsed, GemtextNode::Text(line.to_string()));
}

#[test]
fn parse_quote() {
    let line = "> Don't Panic";
    let parsed = GemtextNode::parse_blockquote(line);
    assert_eq!(parsed, GemtextNode::Blockquote("Don't Panic".to_string()));
}

#[test]
fn parse_quote_bad_prefix() {
    let line = ">> So long and thanks for all the fish";
    let parsed = GemtextNode::parse_blockquote(line);
    assert_eq!(parsed, GemtextNode::Text(line.to_string()));
}

#[test]
fn parse_quote_nospace() {
    let line = ">Oh no not again";
    let parsed = GemtextNode::parse_blockquote(line);
    assert_eq!(parsed, GemtextNode::Text(line.to_string()));
}

#[test]
fn parse_doc() {
    let doc = "# A heading\n\
               ```Ignore this\n\
               # This should be preformatted\n\
               > And this\n\
               * This too\n\
               And this\n\
               ```\n\
               This is just text.\n\
               > This is a single line blockquote\n\
               * A list item\n\
               > A blockquote spanning\n\
               > Multiple lines\n\
               > I can do this all day\n\
               => gemini://the.end This is the end";
    let parsed = parse_gemtext(doc);
    assert_eq!(parsed[0], GemtextNode::H1("A heading".to_string()));
    assert_eq!(
        parsed[1],
        GemtextNode::Preformatted(
            "# This should be preformatted\n> And this\n* This too\nAnd this".to_string(),
            Some("Ignore this".to_string()),
        )
    );
    assert_eq!(parsed[2], GemtextNode::Text("This is just text.".to_string()));
    assert_eq!(
        parsed[3],
        GemtextNode::Blockquote("This is a single line blockquote".to_string())
    );
    assert_eq!(parsed[4], GemtextNode::ListItem("A list item".to_string()));
    assert_eq!(
        parsed[5],
        GemtextNode::Blockquote(
            "A blockquote spanning\nMultiple lines\nI can do this all day".to_string()
        )
    );
    assert_eq!(
        parsed[6],
        GemtextNode::Link(Link {
            url: "gemini://the.end".to_string(),
            display: Some("This is the end".to_string()),
        })
    );
    assert_eq!(parsed.len(), 7);
}
