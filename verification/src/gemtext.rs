//! The Gemtext parser: a line-oriented pass turning raw text into typed
//! nodes, with state only for preformatted blocks and runs of quote lines.
//!
//! Parsing never fails: a malformed marker line degrades to a `Text` node.
//! The mathematical model is `Node`; `spec_parse_gemtext` is the reference
//! parse that the executable parser is proved to implement.

use crate::outside::chars_to_string;
use crate::strutil::{
    find_char, find_ws, join_char, lemma_find_char, lemma_find_ws, lines_of, spec_lines,
    split_ws, split_ws_in, str_chars, subvec, trim_end_spec, trim_end_vec,
};
use vstd::prelude::*;

verus! {

/// The model of a parsed Gemtext node.
pub enum Node {
    Text(Seq<char>),
    Link { url: Seq<char>, display: Option<Seq<char>> },
    Prompt { url: Seq<char>, display: Option<Seq<char>> },
    H1(Seq<char>),
    H2(Seq<char>),
    H3(Seq<char>),
    ListItem(Seq<char>),
    Blockquote(Seq<char>),
    Preformatted { body: Seq<char>, alt: Option<Seq<char>> },
    EmptyLine,
}

/// A link (or Spartan prompt) target with its optional display text.
#[derive(Debug, PartialEq, Eq, Clone)]
pub struct Link {
    pub url: String,
    pub display: Option<String>,
}

/// A parsed Gemtext node.
///
/// `Link` lines start with `=>`, `Prompt` lines (a Spartan upload form)
/// with `=:`; one to three `#` followed by a space open a heading; `* `
/// opens a list item; `>` followed by whitespace opens a blockquote, and
/// consecutive quote lines merge into one node; three backticks toggle a
/// preformatted block whose opening line may carry an alt text. An empty
/// line is its own node, and anything else — malformed markers included —
/// is plain text.
#[derive(Debug, PartialEq, Eq, Clone)]
pub enum GemtextNode {
    Text(String),
    Link(Link),
    Prompt(Link),
    H1(String),
    H2(String),
    H3(String),
    ListItem(String),
    Blockquote(String),
    Preformatted(String, Option<String>),
    EmptyLine,
}

impl View for GemtextNode {
    type V = Node;

    open spec fn view(&self) -> Node {
        match self {
            GemtextNode::Text(s) => Node::Text(s@),
            GemtextNode::Link(l) => Node::Link { url: l.url@, display: l.display.deep_view() },
            GemtextNode::Prompt(l) => Node::Prompt { url: l.url@, display: l.display.deep_view() },
            GemtextNode::H1(s) => Node::H1(s@),
            GemtextNode::H2(s) => Node::H2(s@),
            GemtextNode::H3(s) => Node::H3(s@),
            GemtextNode::ListItem(s) => Node::ListItem(s@),
            GemtextNode::Blockquote(s) => Node::Blockquote(s@),
            GemtextNode::Preformatted(s, alt) => Node::Preformatted {
                body: s@,
                alt: alt.deep_view(),
            },
            GemtextNode::EmptyLine => Node::EmptyLine,
        }
    }
}

impl DeepView for GemtextNode {
    type V = Node;

    open spec fn deep_view(&self) -> Node {
        self.view()
    }
}

/// The link parse of a whole line: the first whitespace-separated token
/// must be exactly `=>` or `=:`, the second is the URL, and the remaining
/// tokens joined by single spaces form the display text (absent if empty).
pub open spec fn link_of(s: Seq<char>) -> Option<(Seq<char>, Option<Seq<char>>)> {
    let toks = split_ws(s);
    if toks.len() >= 2 && (toks[0] == "=>"@ || toks[0] == "=:"@) {
        let d = join_char(toks.skip(2), ' ');
        Some((toks[1], if d.len() == 0 {
            None
        } else {
            Some(d)
        }))
    } else {
        None
    }
}

/// The heading parse of a line: `#`/`##`/`###` before the first space give
/// `H1`/`H2`/`H3` of the rest; anything else stays text.
pub open spec fn heading_of(s: Seq<char>) -> Node {
    let i = find_char(s, ' ');
    if 0 <= i < s.len() {
        let h = s.take(i);
        let rest = s.skip(i + 1);
        if h == "#"@ {
            Node::H1(rest)
        } else if h == "##"@ {
            Node::H2(rest)
        } else if h == "###"@ {
            Node::H3(rest)
        } else {
            Node::Text(s)
        }
    } else {
        Node::Text(s)
    }
}

/// The list-item parse of a line: exactly `*` before the first space gives
/// a list item of the rest; anything else stays text.
pub open spec fn list_item_of(s: Seq<char>) -> Node {
    let i = find_char(s, ' ');
    if 0 <= i < s.len() && s.take(i) == "*"@ {
        Node::ListItem(s.skip(i + 1))
    } else {
        Node::Text(s)
    }
}

/// The blockquote parse of a line: exactly `>` before the first whitespace
/// character gives a blockquote of the rest; anything else stays text.
pub open spec fn blockquote_of(s: Seq<char>) -> Node {
    let i = find_ws(s);
    if 0 <= i < s.len() && s.take(i) == ">"@ {
        Node::Blockquote(s.skip(i + 1))
    } else {
        Node::Text(s)
    }
}

/// A `Link` node from `link_of`, or the line as text.
pub open spec fn link_node_of(s: Seq<char>) -> Node {
    match link_of(s) {
        Some((url, display)) => Node::Link { url, display },
        None => Node::Text(s),
    }
}

/// A `Prompt` node from `link_of`, or the line as text.
pub open spec fn prompt_node_of(s: Seq<char>) -> Node {
    match link_of(s) {
        Some((url, display)) => Node::Prompt { url, display },
        None => Node::Text(s),
    }
}

/// Parses a link or prompt line from its characters; `prompt` selects the
/// node variant. Lines that are not a well-formed link degrade to text.
fn link_chars(line: &Vec<char>, prompt: bool) -> (r: GemtextNode)
    ensures
        !prompt ==> r@ == link_node_of(line@),
        prompt ==> r@ == prompt_node_of(line@),
{
    let toks = split_ws_in(line);
    proof {
        assert(forall|j: int|
            0 <= j < toks@.len() ==> toks.deep_view()[j] == #[trigger] toks@[j]@);
    }
    if toks.len() >= 2 {
        let is_link = crate::strutil::eq_str(&toks[0], "=>");
        let is_prompt_tok = crate::strutil::eq_str(&toks[0], "=:");
        if is_link || is_prompt_tok {
            let d = crate::strutil::join_char_from(&toks, 2, ' ');
            let url = chars_to_string(&toks[1]);
            let display: Option<String> = if d.len() == 0 {
                None
            } else {
                Some(chars_to_string(&d))
            };
            let l = Link { url, display };
            let r = if prompt {
                GemtextNode::Prompt(l)
            } else {
                GemtextNode::Link(l)
            };
            proof {
                let m = link_of(line@);
                assert(m matches Some(p) && p.0 == toks.deep_view()[1] && p.1
                    == (if join_char(toks.deep_view().skip(2), ' ').len() == 0 {
                    None::<Seq<char>>
                } else {
                    Some(join_char(toks.deep_view().skip(2), ' '))
                }));
            }
            return r;
        }
    }
    let r = GemtextNode::Text(chars_to_string(line));
    proof {
        assert(link_of(line@) is None);
    }
    r
}

/// Parses a heading line from its characters.
fn heading_chars(line: &Vec<char>) -> (r: GemtextNode)
    ensures
        r@ == heading_of(line@),
{
    proof {
        lemma_find_char(line@, ' ');
    }
    let i = crate::strutil::find_char_in(line, ' ');
    if i < line.len() {
        let h = subvec(line, 0, i);
        let rest = subvec(line, i + 1, line.len());
        proof {
            assert(h@ == line@.take(i as int));
            assert(rest@ == line@.skip(i + 1));
        }
        if crate::strutil::eq_str(&h, "#") {
            GemtextNode::H1(chars_to_string(&rest))
        } else if crate::strutil::eq_str(&h, "##") {
            GemtextNode::H2(chars_to_string(&rest))
        } else if crate::strutil::eq_str(&h, "###") {
            GemtextNode::H3(chars_to_string(&rest))
        } else {
            GemtextNode::Text(chars_to_string(line))
        }
    } else {
        GemtextNode::Text(chars_to_string(line))
    }
}

/// Parses a list-item line from its characters.
fn list_item_chars(line: &Vec<char>) -> (r: GemtextNode)
    ensures
        r@ == list_item_of(line@),
{
    proof {
        lemma_find_char(line@, ' ');
    }
    let i = crate::strutil::find_char_in(line, ' ');
    if i < line.len() {
        let h = subvec(line, 0, i);
        proof {
            assert(h@ == line@.take(i as int));
        }
        if crate::strutil::eq_str(&h, "*") {
            let rest = subvec(line, i + 1, line.len());
            proof {
                assert(rest@ == line@.skip(i + 1));
            }
            return GemtextNode::ListItem(chars_to_string(&rest));
        }
    }
    GemtextNode::Text(chars_to_string(line))
}

/// Parses a blockquote line from its characters.
fn blockquote_chars(line: &Vec<char>) -> (r: GemtextNode)
    ensures
        r@ == blockquote_of(line@),
{
    proof {
        lemma_find_ws(line@);
    }
    let i = crate::strutil::find_ws_in(line);
    if i < line.len() {
        let h = subvec(line, 0, i);
        proof {
            assert(h@ == line@.take(i as int));
        }
        if crate::strutil::eq_str(&h, ">") {
            let rest = subvec(line, i + 1, line.len());
            proof {
                assert(rest@ == line@.skip(i + 1));
            }
            return GemtextNode::Blockquote(chars_to_string(&rest));
        }
    }
    GemtextNode::Text(chars_to_string(line))
}

impl GemtextNode {
    /// Parses a line that starts with `=>` as a link, degrading to text.
    pub fn parse_link(text: &str) -> (r: GemtextNode)
        ensures
            r@ == link_node_of(text@),
    {
        let chars = str_chars(text);
        link_chars(&chars, false)
    }

    /// Parses a line that starts with `=:` as a prompt, degrading to text.
    pub fn parse_prompt(text: &str) -> (r: GemtextNode)
        ensures
            r@ == prompt_node_of(text@),
    {
        let chars = str_chars(text);
        link_chars(&chars, true)
    }

    /// Parses a heading line, degrading to text.
    pub fn parse_heading(text: &str) -> (r: GemtextNode)
        ensures
            r@ == heading_of(text@),
    {
        let chars = str_chars(text);
        heading_chars(&chars)
    }

    /// Parses a list-item line, degrading to text.
    pub fn parse_list_item(text: &str) -> (r: GemtextNode)
        ensures
            r@ == list_item_of(text@),
    {
        let chars = str_chars(text);
        list_item_chars(&chars)
    }

    /// Parses a blockquote line, degrading to text.
    pub fn parse_blockquote(text: &str) -> (r: GemtextNode)
        ensures
            r@ == blockquote_of(text@),
    {
        let chars = str_chars(text);
        blockquote_chars(&chars)
    }
}

/// The line (or lines, for a preformatted block) that renders a node back
/// into Gemtext source.
pub open spec fn format_node(n: Node) -> Seq<char> {
    match n {
        Node::Text(s) => s,
        Node::Link { url, display } => match display {
            Some(d) => "=> "@ + url + " "@ + d,
            None => "=> "@ + url,
        },
        Node::Prompt { url, display } => match display {
            Some(d) => "=: "@ + url + " "@ + d,
            None => "=: "@ + url,
        },
        Node::H1(s) => "# "@ + s,
        Node::H2(s) => "## "@ + s,
        Node::H3(s) => "### "@ + s,
        Node::ListItem(s) => "* "@ + s,
        Node::Blockquote(s) => "> "@ + s,
        Node::Preformatted { body, alt } => match alt {
            Some(a) => "```"@ + a + "\n"@ + body + "\n```"@,
            None => "```"@ + "\n"@ + body + "\n```"@,
        },
        Node::EmptyLine => Seq::empty(),
    }
}

impl GemtextNode {
    /// Renders the node back into Gemtext source text.
    pub fn to_line(&self) -> (r: String)
        ensures
            r@ == format_node(self@),
    {
        let mut v: Vec<char> = Vec::new();
        match self {
            GemtextNode::Text(s) => {
                let c = str_chars(s.as_str());
                crate::strutil::extend_chars(&mut v, &c);
            },
            GemtextNode::Link(l) => {
                let p = str_chars("=> ");
                crate::strutil::extend_chars(&mut v, &p);
                let u = str_chars(l.url.as_str());
                crate::strutil::extend_chars(&mut v, &u);
                match &l.display {
                    Some(d) => {
                        let sp = str_chars(" ");
                        crate::strutil::extend_chars(&mut v, &sp);
                        let dc = str_chars(d.as_str());
                        crate::strutil::extend_chars(&mut v, &dc);
                    },
                    None => {},
                }
            },
            GemtextNode::Prompt(l) => {
                let p = str_chars("=: ");
                crate::strutil::extend_chars(&mut v, &p);
                let u = str_chars(l.url.as_str());
                crate::strutil::extend_chars(&mut v, &u);
                match &l.display {
                    Some(d) => {
                        let sp = str_chars(" ");
                        crate::strutil::extend_chars(&mut v, &sp);
                        let dc = str_chars(d.as_str());
                        crate::strutil::extend_chars(&mut v, &dc);
                    },
                    None => {},
                }
            },
            GemtextNode::H1(s) => {
                let p = str_chars("# ");
                crate::strutil::extend_chars(&mut v, &p);
                let c = str_chars(s.as_str());
                crate::strutil::extend_chars(&mut v, &c);
            },
            GemtextNode::H2(s) => {
                let p = str_chars("## ");
                crate::strutil::extend_chars(&mut v, &p);
                let c = str_chars(s.as_str());
                crate::strutil::extend_chars(&mut v, &c);
            },
            GemtextNode::H3(s) => {
                let p = str_chars("### ");
                crate::strutil::extend_chars(&mut v, &p);
                let c = str_chars(s.as_str());
                crate::strutil::extend_chars(&mut v, &c);
            },
            GemtextNode::ListItem(s) => {
                let p = str_chars("* ");
                crate::strutil::extend_chars(&mut v, &p);
                let c = str_chars(s.as_str());
                crate::strutil::extend_chars(&mut v, &c);
            },
            GemtextNode::Blockquote(s) => {
                let p = str_chars("> ");
                crate::strutil::extend_chars(&mut v, &p);
                let c = str_chars(s.as_str());
                crate::strutil::extend_chars(&mut v, &c);
            },
            GemtextNode::Preformatted(body, alt) => {
                let p = str_chars("```");
                crate::strutil::extend_chars(&mut v, &p);
                match alt {
                    Some(a) => {
                        let ac = str_chars(a.as_str());
                        crate::strutil::extend_chars(&mut v, &ac);
                    },
                    None => {},
                }
                let nl = str_chars("\n");
                crate::strutil::extend_chars(&mut v, &nl);
                let bc = str_chars(body.as_str());
                crate::strutil::extend_chars(&mut v, &bc);
                let close = str_chars("\n```");
                crate::strutil::extend_chars(&mut v, &close);
            },
            GemtextNode::EmptyLine => {},
        }
        proof {
            assert(v@ =~= format_node(self@));
        }
        chars_to_string(&v)
    }
}

/// The parser's state between lines: outside any block, inside a
/// preformatted block, or inside a run of quote lines.
pub enum PState {
    Normal,
    Pre { body: Seq<char>, alt: Option<Seq<char>> },
    Quote { acc: Seq<char> },
}

/// One step of the parser from the `Normal` state: the next state and the
/// nodes emitted for this line.
pub open spec fn step_normal(line: Seq<char>) -> (PState, Seq<Node>) {
    if "=>"@.is_prefix_of(line) {
        (PState::Normal, seq![link_node_of(line)])
    } else if "=:"@.is_prefix_of(line) {
        (PState::Normal, seq![prompt_node_of(line)])
    } else if line.len() > 0 && line[0] == '#' {
        (PState::Normal, seq![heading_of(line)])
    } else if line.len() > 0 && line[0] == '*' {
        (PState::Normal, seq![list_item_of(line)])
    } else if line.len() > 0 && line[0] == '>' {
        match blockquote_of(line) {
            Node::Blockquote(q) => (PState::Quote { acc: q + seq!['\n'] }, Seq::empty()),
            _ => (PState::Normal, seq![Node::Text(line)]),
        }
    } else if "```"@.is_prefix_of(line) {
        (
            PState::Pre {
                body: Seq::empty(),
                alt: if line.len() > 3 {
                    Some(line.skip(3))
                } else {
                    None
                },
            },
            Seq::empty(),
        )
    } else if line.len() == 0 {
        (PState::Normal, seq![Node::EmptyLine])
    } else {
        (PState::Normal, seq![Node::Text(line)])
    }
}

/// One step of the parser on a line, in any state.
///
/// Inside a preformatted block a fence line closes the block (its body
/// trailing-trimmed); other lines accumulate. Inside a quote, further
/// quote lines merge; any other line flushes the accumulated quote and is
/// then dispatched as from `Normal`.
pub open spec fn step(st: PState, line: Seq<char>) -> (PState, Seq<Node>) {
    match st {
        PState::Normal => step_normal(line),
        PState::Pre { body, alt } => {
            if "```"@.is_prefix_of(line) {
                (PState::Normal, seq![Node::Preformatted { body: trim_end_spec(body), alt }])
            } else {
                (PState::Pre { body: body + line + seq!['\n'], alt }, Seq::empty())
            }
        },
        PState::Quote { acc } => {
            if line.len() > 0 && line[0] == '>' {
                match blockquote_of(line) {
                    Node::Blockquote(q) => (PState::Quote { acc: acc + q + seq!['\n'] },
                    Seq::empty()),
                    _ => (
                        PState::Normal,
                        seq![Node::Blockquote(trim_end_spec(acc)), Node::Text(line)],
                    ),
                }
            } else {
                let (st2, out) = step_normal(line);
                (st2, seq![Node::Blockquote(trim_end_spec(acc))] + out)
            }
        },
    }
}

/// Runs the parser over a sequence of lines from a given state.
pub open spec fn run_lines(st: PState, lines: Seq<Seq<char>>) -> (PState, Seq<Node>)
    decreases lines.len(),
{
    if lines.len() == 0 {
        (st, Seq::empty())
    } else {
        let (st1, out1) = step(st, lines[0]);
        let (st2, out2) = run_lines(st1, lines.skip(1));
        (st2, out1 + out2)
    }
}

/// The nodes still owed at end of input: an open quote or preformatted
/// block is flushed rather than lost.
pub open spec fn finish_state(st: PState) -> Seq<Node> {
    match st {
        PState::Normal => Seq::empty(),
        PState::Pre { body, alt } => seq![
            Node::Preformatted { body: trim_end_spec(body), alt },
        ],
        PState::Quote { acc } => seq![Node::Blockquote(trim_end_spec(acc))],
    }
}

/// The reference parse of a whole document.
pub open spec fn spec_parse_gemtext(text: Seq<char>) -> Seq<Node> {
    let (st, out) = run_lines(PState::Normal, spec_lines(text));
    out + finish_state(st)
}

/// Running over `lines` extended by one more line is one more `step`.
pub proof fn lemma_run_snoc(st: PState, lines: Seq<Seq<char>>, line: Seq<char>)
    ensures
        run_lines(st, lines.push(line)) == {
            let (st1, out1) = run_lines(st, lines);
            let (st2, out2) = step(st1, line);
            (st2, out1 + out2)
        },
    decreases lines.len(),
{
    let whole = lines.push(line);
    if lines.len() == 0 {
        assert(whole.len() == 1);
        assert(whole[0] == line);
        assert(whole.skip(1) =~= Seq::<Seq<char>>::empty());
        let (st1, out1) = step(st, line);
        assert(run_lines(st1, whole.skip(1)) == (st1, Seq::<Node>::empty()));
        assert(run_lines(st, lines) == (st, Seq::<Node>::empty()));
        assert(out1 + Seq::<Node>::empty() =~= out1);
        assert(Seq::<Node>::empty() + out1 =~= out1);
    } else {
        assert(whole[0] == lines[0]);
        let (sta, outa) = step(st, lines[0]);
        assert(whole.skip(1) =~= lines.skip(1).push(line));
        lemma_run_snoc(sta, lines.skip(1), line);
        let (stb, outb) = run_lines(sta, lines.skip(1));
        let (stc, outc) = step(stb, line);
        assert(run_lines(st, whole).1 =~= outa + (outb + outc));
        assert(run_lines(st, lines).1 =~= outa + outb);
        assert((outa + outb) + outc =~= outa + (outb + outc));
    }
}

/// Parses a Gemtext document into its nodes. Parsing cannot fail: every
/// line yields (or contributes to) a node of the reference parse.
#[must_use]
pub fn parse_gemtext(text: &str) -> (r: Vec<GemtextNode>)
    ensures
        r.deep_view() == spec_parse_gemtext(text@),
{
    let chars = str_chars(text);
    let lines = lines_of(&chars);
    let ghost lv = lines.deep_view();
    let mut out: Vec<GemtextNode> = Vec::new();
    // exec mirror of the spec state: 0 = Normal, 1 = Pre, 2 = Quote
    let mut state: u8 = 0;
    let mut preblk: Vec<char> = Vec::new();
    let mut pre_alt: Option<String> = None;
    let mut quoteblk: Vec<char> = Vec::new();
    let n = lines.len();
    let mut i: usize = 0;
    proof {
        assert(lv.take(0) =~= Seq::<Seq<char>>::empty());
        assert(out.deep_view() =~= Seq::<Node>::empty());
    }
    while i < n
        invariant
            n == lines@.len(),
            n == lv.len(),
            lv == lines.deep_view(),
            forall|j: int| 0 <= j < n ==> lv[j] == #[trigger] lines@[j]@,
            i <= n,
            state == 0 || state == 1 || state == 2,
            state != 1 ==> preblk@.len() == 0,
            state != 2 ==> quoteblk@.len() == 0,
            run_lines(PState::Normal, lv.take(i as int)).0 == (if state == 0 {
                PState::Normal
            } else if state == 1 {
                PState::Pre { body: preblk@, alt: pre_alt.deep_view() }
            } else {
                PState::Quote { acc: quoteblk@ }
            }),
            run_lines(PState::Normal, lv.take(i as int)).1 == out.deep_view(),
        decreases n - i,
    {
        let ghost st_before = run_lines(PState::Normal, lv.take(i as int)).0;
        let ghost out_before = out.deep_view();
        let line: Vec<char> = subvec(&lines[i], 0, lines[i].len());
        proof {
            assert(line@ =~= lv[i as int]);
            assert(lv.take(i + 1) =~= lv.take(i as int).push(lv[i as int]));
            lemma_run_snoc(PState::Normal, lv.take(i as int), lv[i as int]);
        }
        if state == 1 {
            // inside a preformatted block
            if crate::strutil::starts_with_str(&line, "```") {
                let body = trim_end_vec(&preblk);
                let node = GemtextNode::Preformatted(chars_to_string(&body), pre_alt);
                out.push(node);
                proof {
                    assert(out.deep_view() =~= out_before.push(
                        Node::Preformatted {
                            body: trim_end_spec(st_before->Pre_body),
                            alt: st_before->Pre_alt,
                        },
                    ));
                    assert(out.deep_view() =~= run_lines(PState::Normal, lv.take(i + 1)).1);
                }
                state = 0;
                pre_alt = None;
                preblk = Vec::new();
                proof {
                    assert(preblk@ =~= Seq::<char>::empty());
                }
            } else {
                crate::strutil::extend_chars(&mut preblk, &line);
                preblk.push('\n');
                proof {
                    assert(preblk@ =~= st_before->Pre_body + line@ + seq!['\n']);
                    assert(out.deep_view() =~= run_lines(PState::Normal, lv.take(i + 1)).1);
                }
            }
        } else if state == 2 {
            // inside a run of quote lines
            let is_quote_line = line.len() > 0 && line[0] == '>';
            if is_quote_line {
                let parsed = blockquote_chars(&line);
                match parsed {
                    GemtextNode::Blockquote(q) => {
                        let qc = str_chars(q.as_str());
                        crate::strutil::extend_chars(&mut quoteblk, &qc);
                        quoteblk.push('\n');
                        proof {
                            assert(blockquote_of(line@) matches Node::Blockquote(qq) && qq == qc@);
                            assert(quoteblk@ =~= st_before->Quote_acc + qc@ + seq!['\n']);
                            assert(out.deep_view() =~= run_lines(
                                PState::Normal,
                                lv.take(i + 1),
                            ).1);
                        }
                    },
                    _ => {
                        let flushed = trim_end_vec(&quoteblk);
                        out.push(GemtextNode::Blockquote(chars_to_string(&flushed)));
                        out.push(GemtextNode::Text(chars_to_string(&line)));
                        state = 0;
                        quoteblk = Vec::new();
                        proof {
                            assert(blockquote_of(line@) matches Node::Text(t) && t == line@);
                            assert(quoteblk@ =~= Seq::<char>::empty());
                            assert(out.deep_view() =~= out_before.push(
                                Node::Blockquote(trim_end_spec(st_before->Quote_acc)),
                            ).push(Node::Text(line@)));
                            assert(out.deep_view() =~= run_lines(
                                PState::Normal,
                                lv.take(i + 1),
                            ).1);
                        }
                    },
                }
            } else {
                let flushed = trim_end_vec(&quoteblk);
                out.push(GemtextNode::Blockquote(chars_to_string(&flushed)));
                state = 0;
                quoteblk = Vec::new();
                proof {
                    assert(quoteblk@ =~= Seq::<char>::empty());
                }
                dispatch_normal(&line, &mut out, &mut state, &mut preblk, &mut pre_alt,
                    &mut quoteblk);
                proof {
                    let (st2, o2) = step_normal(line@);
                    assert(out.deep_view() =~= out_before.push(
                        Node::Blockquote(trim_end_spec(st_before->Quote_acc)),
                    ) + o2);
                    assert(seq![Node::Blockquote(trim_end_spec(st_before->Quote_acc))] + o2
                        =~= out.deep_view().skip(out_before.len() as int));
                    assert(out.deep_view() =~= run_lines(PState::Normal, lv.take(i + 1)).1);
                }
            }
        } else {
            dispatch_normal(&line, &mut out, &mut state, &mut preblk, &mut pre_alt,
                &mut quoteblk);
            proof {
                assert(out.deep_view() =~= run_lines(PState::Normal, lv.take(i + 1)).1);
            }
        }
        i = i + 1;
    }
    proof {
        assert(lv.take(n as int) =~= lv);
    }
    // end of input: flush whatever block is still open
    if state == 1 {
        let body = trim_end_vec(&preblk);
        out.push(GemtextNode::Preformatted(chars_to_string(&body), pre_alt));
    } else if state == 2 {
        let flushed = trim_end_vec(&quoteblk);
        out.push(GemtextNode::Blockquote(chars_to_string(&flushed)));
    }
    proof {
        let (st, o) = run_lines(PState::Normal, lv);
        assert(out.deep_view() =~= o + finish_state(st));
    }
    out
}

/// Dispatches one line from the `Normal` state, updating the exec parser
/// state to mirror `step_normal`.
fn dispatch_normal(
    line: &Vec<char>,
    out: &mut Vec<GemtextNode>,
    state: &mut u8,
    preblk: &mut Vec<char>,
    pre_alt: &mut Option<String>,
    quoteblk: &mut Vec<char>,
)
    requires
        *old(state) == 0,
        old(preblk)@.len() == 0,
        old(quoteblk)@.len() == 0,
    ensures
        ({
            let (st2, o2) = step_normal(line@);
            &&& final(out).deep_view() == old(out).deep_view() + o2
            &&& *final(state) == (if st2 is Normal {
                0u8
            } else if st2 is Pre {
                1u8
            } else {
                2u8
            })
            &&& (st2 is Pre ==> final(preblk)@ == st2->Pre_body && final(pre_alt).deep_view()
                == st2->Pre_alt)
            &&& (st2 is Pre ==> final(quoteblk)@.len() == 0)
            &&& (st2 is Quote ==> final(quoteblk)@ == st2->Quote_acc && final(preblk)@.len()
                == 0)
            &&& (st2 is Normal ==> final(preblk)@.len() == 0 && final(quoteblk)@.len() == 0)
        }),
{
    let ghost out0 = out.deep_view();
    if crate::strutil::starts_with_str(line, "=>") {
        out.push(link_chars(line, false));
        proof {
            assert(out.deep_view() =~= out0 + seq![link_node_of(line@)]);
        }
    } else if crate::strutil::starts_with_str(line, "=:") {
        out.push(link_chars(line, true));
        proof {
            assert(out.deep_view() =~= out0 + seq![prompt_node_of(line@)]);
        }
    } else if line.len() > 0 && line[0] == '#' {
        out.push(heading_chars(line));
        proof {
            assert(out.deep_view() =~= out0 + seq![heading_of(line@)]);
        }
    } else if line.len() > 0 && line[0] == '*' {
        out.push(list_item_chars(line));
        proof {
            assert(out.deep_view() =~= out0 + seq![list_item_of(line@)]);
        }
    } else if line.len() > 0 && line[0] == '>' {
        let parsed = blockquote_chars(line);
        match parsed {
            GemtextNode::Blockquote(q) => {
                let qc = str_chars(q.as_str());
                crate::strutil::extend_chars(quoteblk, &qc);
                quoteblk.push('\n');
                *state = 2;
                proof {
                    assert(blockquote_of(line@) matches Node::Blockquote(qq) && qq == qc@);
                    assert(quoteblk@ =~= qc@ + seq!['\n']);
                    assert(out.deep_view() =~= out0 + Seq::<Node>::empty());
                }
            },
            _ => {
                out.push(GemtextNode::Text(chars_to_string(line)));
                proof {
                    assert(blockquote_of(line@) matches Node::Text(t) && t == line@);
                    assert(out.deep_view() =~= out0 + seq![Node::Text(line@)]);
                }
            },
        }
    } else if crate::strutil::starts_with_str(line, "```") {
        *state = 1;
        if line.len() > 3 {
            let alt = subvec(line, 3, line.len());
            *pre_alt = Some(chars_to_string(&alt));
            proof {
                assert(alt@ =~= line@.skip(3));
            }
        } else {
            *pre_alt = None;
        }
        proof {
            assert(out.deep_view() =~= out0 + Seq::<Node>::empty());
        }
    } else if line.len() == 0 {
        out.push(GemtextNode::EmptyLine);
        proof {
            assert(out.deep_view() =~= out0 + seq![Node::EmptyLine]);
        }
    } else {
        out.push(GemtextNode::Text(chars_to_string(line)));
        proof {
            assert(out.deep_view() =~= out0 + seq![Node::Text(line@)]);
        }
    }
}

} // verus!
