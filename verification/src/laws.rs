//! The stated properties of the parsers, proved once and for all: that
//! formatting a Gemtext node and parsing it back reproduces the node, that
//! marker-free text survives a parse unchanged, and that the Gopher map
//! test accepts and rejects exactly as described.

use crate::gemtext::{blockquote_of, finish_state, format_node, heading_of, link_node_of,
    link_of, list_item_of, prompt_node_of, run_lines, spec_parse_gemtext, step, step_normal,
    Node, PState};
use crate::gopher::{is_gopher_type, spec_is_map, spec_lines_are_map};
use crate::strutil::{find_char, find_ws, is_ws, join_char, lemma_find_char, lemma_find_ws,
    lemma_lines_concat, lemma_lines_concat_multi, lemma_lines_join, lemma_lines_single,
    lemma_split_ws_concat, lemma_split_ws_join, norm_text, spec_lines, split_ws, trim_end_spec};
use vstd::prelude::*;

verus! {

/// The views of the marker literals, spelled out character by character.
proof fn lemma_fmt_literals()
    ensures
        "=>"@ == seq!['=', '>'],
        "=:"@ == seq!['=', ':'],
        "=> "@ == seq!['=', '>', ' '],
        "=: "@ == seq!['=', ':', ' '],
        "#"@ == seq!['#'],
        "##"@ == seq!['#', '#'],
        "###"@ == seq!['#', '#', '#'],
        "# "@ == seq!['#', ' '],
        "## "@ == seq!['#', '#', ' '],
        "### "@ == seq!['#', '#', '#', ' '],
        "*"@ == seq!['*'],
        "* "@ == seq!['*', ' '],
        ">"@ == seq!['>'],
        "> "@ == seq!['>', ' '],
        "```"@ == seq!['`', '`', '`'],
        "\n"@ == seq!['\n'],
        "\n```"@ == seq!['\n', '`', '`', '`'],
        " "@ == seq![' '],
{
    reveal_strlit("=>");
    reveal_strlit("=:");
    reveal_strlit("=> ");
    reveal_strlit("=: ");
    reveal_strlit("#");
    reveal_strlit("##");
    reveal_strlit("###");
    reveal_strlit("# ");
    reveal_strlit("## ");
    reveal_strlit("### ");
    reveal_strlit("*");
    reveal_strlit("* ");
    reveal_strlit(">");
    reveal_strlit("> ");
    reveal_strlit("```");
    reveal_strlit("\n");
    reveal_strlit("\n```");
    reveal_strlit(" ");
    assert("=>"@ =~= seq!['=', '>']);
    assert("=:"@ =~= seq!['=', ':']);
    assert("=> "@ =~= seq!['=', '>', ' ']);
    assert("=: "@ =~= seq!['=', ':', ' ']);
    assert("#"@ =~= seq!['#']);
    assert("##"@ =~= seq!['#', '#']);
    assert("###"@ =~= seq!['#', '#', '#']);
    assert("# "@ =~= seq!['#', ' ']);
    assert("## "@ =~= seq!['#', '#', ' ']);
    assert("### "@ =~= seq!['#', '#', '#', ' ']);
    assert("*"@ =~= seq!['*']);
    assert("* "@ =~= seq!['*', ' ']);
    assert(">"@ =~= seq!['>']);
    assert("> "@ =~= seq!['>', ' ']);
    assert("```"@ =~= seq!['`', '`', '`']);
    assert("\n"@ =~= seq!['\n']);
    assert("\n```"@ =~= seq!['\n', '`', '`', '`']);
    assert(" "@ =~= seq![' ']);
}

/// What each marker prefix says about the first characters of a line.
proof fn lemma_marker_prefixes(l: Seq<char>)
    ensures
        "=>"@.is_prefix_of(l) <==> l.len() >= 2 && l[0] == '=' && l[1] == '>',
        "=:"@.is_prefix_of(l) <==> l.len() >= 2 && l[0] == '=' && l[1] == ':',
        "```"@.is_prefix_of(l) <==> l.len() >= 3 && l[0] == '`' && l[1] == '`' && l[2] == '`',
{
    lemma_fmt_literals();
    if l.len() >= 2 && l[0] == '=' && l[1] == '>' {
        assert("=>"@ =~= l.subrange(0, 2));
    }
    if l.len() >= 2 && l[0] == '=' && l[1] == ':' {
        assert("=:"@ =~= l.subrange(0, 2));
    }
    if l.len() >= 3 && l[0] == '`' && l[1] == '`' && l[2] == '`' {
        assert("```"@ =~= l.subrange(0, 3));
    }
}

/// Running the parser over one line is one `step_normal`.
proof fn lemma_run_single(l: Seq<char>)
    ensures
        run_lines(PState::Normal, seq![l]) == step_normal(l),
{
    let (st1, out1) = step_normal(l);
    assert(seq![l].skip(1) =~= Seq::<Seq<char>>::empty());
    assert(run_lines(st1, seq![l].skip(1)) == (st1, Seq::<Node>::empty()));
    assert(out1 + Seq::<Node>::empty() =~= out1);
    assert(run_lines(PState::Normal, seq![l]) == (st1, out1));
}

/// A character sequence with no newlines or carriage returns, fit for a
/// single formatted line.
pub open spec fn line_safe(s: Seq<char>) -> bool {
    forall|j: int| 0 <= j < s.len() ==> #[trigger] s[j] != '\n' && s[j] != '\r'
}

/// Trimming does nothing to a sequence without trailing whitespace.
proof fn lemma_trim_end_noop(s: Seq<char>)
    requires
        s.len() > 0 ==> !is_ws(s.last()),
    ensures
        trim_end_spec(s) == s,
{
}

/// Trimming eats one trailing newline.
proof fn lemma_trim_end_nl(s: Seq<char>)
    ensures
        trim_end_spec(s + seq!['\n']) == trim_end_spec(s),
{
    let w = s + seq!['\n'];
    assert(w.last() == '\n');
    assert(is_ws('\n'));
    assert(w.drop_last() =~= s);
}

/// When formatting a node and parsing the result reproduces the node.
///
/// Headings and list items only need their text on one line. A blockquote
/// must also not end in whitespace (trimmed when the quote is flushed),
/// and plain text must not itself open with a marker. A link's URL must
/// be a single whitespace-free token and its display text normalized (the
/// parser collapses whitespace runs to single spaces). A preformatted
/// body must carry no carriage returns, no trailing whitespace and no
/// line opening a fence; its alt text, if any, must be non-empty and fit
/// on the fence line. An empty line formats as the empty string, which
/// parses to no node at all, so it is left out.
pub open spec fn roundtrip_safe(n: Node) -> bool {
    match n {
        Node::Text(s) => line_safe(s) && s.len() > 0 && !"=>"@.is_prefix_of(s)
            && !"=:"@.is_prefix_of(s) && s[0] != '#' && s[0] != '*' && s[0] != '>'
            && !"```"@.is_prefix_of(s),
        Node::H1(s) => line_safe(s),
        Node::H2(s) => line_safe(s),
        Node::H3(s) => line_safe(s),
        Node::ListItem(s) => line_safe(s),
        Node::Blockquote(s) => line_safe(s) && (s.len() > 0 ==> !is_ws(s.last())),
        Node::Link { url, display } => url.len() > 0 && (forall|j: int|
            0 <= j < url.len() ==> !is_ws(#[trigger] url[j])) && (match display {
            Some(d) => norm_text(d),
            None => true,
        }),
        Node::Prompt { url, display } => url.len() > 0 && (forall|j: int|
            0 <= j < url.len() ==> !is_ws(#[trigger] url[j])) && (match display {
            Some(d) => norm_text(d),
            None => true,
        }),
        Node::Preformatted { body, alt } => (forall|j: int|
            0 <= j < body.len() ==> #[trigger] body[j] != '\r') && trim_end_spec(body) == body
            && (forall|i: int|
            0 <= i < spec_lines(body).len() ==> !"```"@.is_prefix_of(
                #[trigger] spec_lines(body)[i],
            )) && (match alt {
            Some(a) => a.len() > 0 && line_safe(a),
            None => true,
        }),
        Node::EmptyLine => false,
    }
}

/// Formatting a heading and parsing it back gives the heading: the
/// shared argument for the three heading levels and the list item.
proof fn lemma_roundtrip_marker_space(l: Seq<char>, k: int, s: Seq<char>)
    requires
        line_safe(s),
        1 <= k <= 3,
        l == l.take(k) + seq![' '] + s,
        l.len() == k + 1 + s.len(),
        forall|j: int| 0 <= j < k ==> #[trigger] l[j] != ' ',
    ensures
        find_char(l, ' ') == k,
        l.skip(k + 1) == s,
{
    lemma_find_char(l, ' ');
    let f = find_char(l, ' ');
    assert(l[k] == ' ');
    if f < k {
        assert(l[f] == ' ');
    }
    if f > k {
        assert(l[k] != ' ');
    }
    assert(l.skip(k + 1) =~= s);
}

/// Gemtext round trip: for every node but the empty line, under the side
/// conditions of `roundtrip_safe`, formatting the node and parsing the
/// result yields exactly that node again.
pub proof fn lemma_format_parse_roundtrip(n: Node)
    requires
        roundtrip_safe(n),
    ensures
        spec_parse_gemtext(format_node(n)) == seq![n],
{
    lemma_fmt_literals();
    let l = format_node(n);
    match n {
        Node::H1(s) => {
            assert(l =~= seq!['#', ' '] + s);
            lemma_single_line_dispatch(l);
            lemma_marker_prefixes(l);
            assert(l =~= l.take(1) + seq![' '] + s);
            lemma_roundtrip_marker_space(l, 1, s);
            assert(l.take(1) =~= "#"@);
            assert(heading_of(l) == Node::H1(s));
            lemma_finish_single(l, n);
        },
        Node::H2(s) => {
            assert(l =~= seq!['#', '#', ' '] + s);
            lemma_single_line_dispatch(l);
            lemma_marker_prefixes(l);
            assert(l =~= l.take(2) + seq![' '] + s);
            lemma_roundtrip_marker_space(l, 2, s);
            assert(l.take(2) =~= "##"@);
            assert(l.take(2) != "#"@);
            assert(heading_of(l) == Node::H2(s));
            lemma_finish_single(l, n);
        },
        Node::H3(s) => {
            assert(l =~= seq!['#', '#', '#', ' '] + s);
            lemma_single_line_dispatch(l);
            lemma_marker_prefixes(l);
            assert(l =~= l.take(3) + seq![' '] + s);
            lemma_roundtrip_marker_space(l, 3, s);
            assert(l.take(3) =~= "###"@);
            assert(l.take(3) != "#"@);
            assert(l.take(3) != "##"@);
            assert(heading_of(l) == Node::H3(s));
            lemma_finish_single(l, n);
        },
        Node::ListItem(s) => {
            assert(l =~= seq!['*', ' '] + s);
            lemma_single_line_dispatch(l);
            lemma_marker_prefixes(l);
            assert(l =~= l.take(1) + seq![' '] + s);
            lemma_roundtrip_marker_space(l, 1, s);
            assert(l.take(1) =~= "*"@);
            assert(list_item_of(l) == Node::ListItem(s));
            lemma_finish_single(l, n);
        },
        Node::Text(s) => {
            assert(l == s);
            lemma_single_line_dispatch(l);
            lemma_marker_prefixes(l);
            lemma_finish_single(l, n);
        },
        Node::Blockquote(s) => {
            assert(l =~= seq!['>', ' '] + s);
            lemma_single_line_dispatch(l);
            lemma_marker_prefixes(l);
            lemma_find_ws(l);
            let f = find_ws(l);
            assert(l[1] == ' ' && is_ws(' '));
            if f < 1 {
                assert(is_ws(l[0]));
            }
            if f > 1 {
                assert(!is_ws(l[1]));
            }
            assert(f == 1);
            assert(l.take(1) =~= ">"@);
            assert(l.skip(2) =~= s);
            assert(blockquote_of(l) == Node::Blockquote(s));
            // the quote is flushed (and trimmed) at end of input
            lemma_run_single(l);
            let (st1, out1) = step_normal(l);
            assert(st1 == PState::Quote { acc: s + seq!['\n'] });
            assert(out1 =~= Seq::<Node>::empty());
            lemma_trim_end_nl(s);
            lemma_trim_end_noop(s);
            assert(finish_state(st1) =~= seq![Node::Blockquote(s)]);
            assert(spec_parse_gemtext(l) =~= seq![n]);
        },
        Node::Link { url, display } => {
            lemma_roundtrip_link(url, display, false);
        },
        Node::Prompt { url, display } => {
            lemma_roundtrip_link(url, display, true);
        },
        Node::Preformatted { body, alt } => {
            lemma_roundtrip_pre(body, alt);
        },
        Node::EmptyLine => {
            assert(false);
        },
    }
}

/// The formatted text of a single-line node is one line.
proof fn lemma_single_line_dispatch(l: Seq<char>)
    requires
        l.len() > 0,
        forall|j: int| 0 <= j < l.len() ==> #[trigger] l[j] != '\n' && l[j] != '\r',
    ensures
        spec_lines(l) == seq![l],
{
    lemma_lines_single(l);
}

/// For a node whose dispatch emits one node and returns to `Normal`, the
/// whole parse is that node.
proof fn lemma_finish_single(l: Seq<char>, n: Node)
    requires
        spec_lines(l) == seq![l],
        step_normal(l) == (PState::Normal, seq![n]),
    ensures
        spec_parse_gemtext(l) == seq![n],
{
    lemma_run_single(l);
    assert(finish_state(PState::Normal) =~= Seq::<Node>::empty());
    assert(seq![n] + Seq::<Node>::empty() =~= seq![n]);
}

/// The link (or prompt) round trip.
proof fn lemma_roundtrip_link(url: Seq<char>, display: Option<Seq<char>>, prompt: bool)
    requires
        url.len() > 0,
        forall|j: int| 0 <= j < url.len() ==> !is_ws(#[trigger] url[j]),
        display matches Some(d) ==> norm_text(d),
    ensures
        !prompt ==> spec_parse_gemtext(format_node(Node::Link { url, display })) == seq![
            Node::Link { url, display },
        ],
        prompt ==> spec_parse_gemtext(format_node(Node::Prompt { url, display })) == seq![
            Node::Prompt { url, display },
        ],
{
    lemma_fmt_literals();
    let n = if prompt {
        Node::Prompt { url, display }
    } else {
        Node::Link { url, display }
    };
    let l = format_node(n);
    let marker = if prompt {
        seq!['=', ':']
    } else {
        seq!['=', '>']
    };
    // the line splits into the marker token, the url token, and the
    // display tokens
    let tail: Seq<char> = match display {
        Some(d) => seq![' '] + d,
        None => Seq::empty(),
    };
    assert(l =~= marker + (seq![' '] + url + tail));
    assert(!is_ws('=') && !is_ws('>') && !is_ws(':'));
    lemma_split_ws_concat(marker, seq![' '] + url + tail);
    assert((seq![' '] + url + tail).skip(1) =~= url + tail);
    assert(is_ws((seq![' '] + url + tail)[0]));
    assert(split_ws(seq![' '] + url + tail) == split_ws(url + tail));
    match display {
        Some(d) => {
            assert(tail[0] == ' ' && is_ws(tail[0]));
            lemma_split_ws_concat(url, tail);
            assert(tail.skip(1) =~= d);
            assert(split_ws(tail) == split_ws(d));
            lemma_split_ws_join(d);
            let toks = split_ws(l);
            assert(toks =~= seq![marker, url] + split_ws(d));
            assert(toks.len() >= 3);
            assert(toks[0] == marker && toks[1] == url);
            assert(toks.skip(2) =~= split_ws(d));
            assert(join_char(toks.skip(2), ' ') == d);
            assert(d.len() > 0);
            assert(link_of(l) == Some((url, Some(d))));
        },
        None => {
            assert(url + tail =~= url);
            lemma_split_ws_concat(url, Seq::empty());
            assert(split_ws(Seq::<char>::empty()) =~= Seq::<Seq<char>>::empty());
            let toks = split_ws(l);
            assert(toks =~= seq![marker, url]);
            assert(toks.len() == 2);
            assert(toks.skip(2) =~= Seq::<Seq<char>>::empty());
            assert(join_char(toks.skip(2), ' ') =~= Seq::<char>::empty());
            assert(link_of(l) == Some((url, Option::<Seq<char>>::None)));
        },
    }
    // the formatted line is a single line
    assert(forall|j: int| 0 <= j < l.len() ==> #[trigger] l[j] != '\n' && l[j] != '\r') by {
        assert(forall|j: int| 0 <= j < url.len() ==> !is_ws(#[trigger] url[j]));
        assert(is_ws('\n') && is_ws('\r'));
        match display {
            Some(d) => {
                assert(forall|j: int|
                    0 <= j < d.len() ==> (is_ws(#[trigger] d[j]) ==> d[j] == ' '));
            },
            None => {},
        }
    }
    lemma_single_line_dispatch(l);
    lemma_marker_prefixes(l);
    if prompt {
        assert(l[0] == '=' && l[1] == ':');
        assert("=:"@.is_prefix_of(l));
        assert(!"=>"@.is_prefix_of(l));
        assert(prompt_node_of(l) == n);
        lemma_finish_single(l, n);
    } else {
        assert(l[0] == '=' && l[1] == '>');
        assert("=>"@.is_prefix_of(l));
        assert(link_node_of(l) == n);
        lemma_finish_single(l, n);
    }
}

/// The lines of a preformatted body as the parser re-accumulates them:
/// each line followed by a newline.
spec fn cat_lines(ls: Seq<Seq<char>>) -> Seq<char>
    decreases ls.len(),
{
    if ls.len() == 0 {
        Seq::empty()
    } else {
        ls[0] + seq!['\n'] + cat_lines(ls.skip(1))
    }
}

/// Feeding fence-free lines to the parser inside a preformatted block
/// only accumulates them.
proof fn lemma_run_pre(b0: Seq<char>, alt: Option<Seq<char>>, ls: Seq<Seq<char>>)
    requires
        forall|i: int| 0 <= i < ls.len() ==> !"```"@.is_prefix_of(#[trigger] ls[i]),
    ensures
        run_lines(PState::Pre { body: b0, alt }, ls) == (
            PState::Pre { body: b0 + cat_lines(ls), alt },
            Seq::<Node>::empty(),
        ),
    decreases ls.len(),
{
    if ls.len() == 0 {
        assert(b0 + cat_lines(ls) =~= b0);
    } else {
        let line = ls[0];
        assert(step(PState::Pre { body: b0, alt }, line) == (
            PState::Pre { body: b0 + line + seq!['\n'], alt },
            Seq::<Node>::empty(),
        ));
        assert(forall|i: int|
            0 <= i < ls.skip(1).len() ==> !"```"@.is_prefix_of(#[trigger] ls.skip(1)[i])) by {
            assert(forall|i: int| 0 <= i < ls.skip(1).len() ==> ls.skip(1)[i] == ls[i + 1]);
        }
        lemma_run_pre(b0 + line + seq!['\n'], alt, ls.skip(1));
        assert(b0 + line + seq!['\n'] + cat_lines(ls.skip(1)) =~= b0 + cat_lines(ls));
        assert(Seq::<Node>::empty() + Seq::<Node>::empty() =~= Seq::<Node>::empty());
    }
}

/// Accumulating lines is joining them with newlines, plus one final
/// newline.
proof fn lemma_cat_join(ls: Seq<Seq<char>>)
    requires
        ls.len() >= 1,
    ensures
        cat_lines(ls) == join_char(ls, '\n') + seq!['\n'],
    decreases ls.len(),
{
    if ls.len() == 1 {
        assert(cat_lines(ls.skip(1)) =~= Seq::<char>::empty());
        assert(cat_lines(ls) =~= ls[0] + seq!['\n']);
        assert(join_char(ls, '\n') == ls[0]);
    } else {
        lemma_cat_join(ls.skip(1));
        assert(join_char(ls, '\n') == ls[0] + seq!['\n'] + join_char(ls.skip(1), '\n'));
        assert(cat_lines(ls) =~= ls[0] + seq!['\n'] + (join_char(ls.skip(1), '\n')
            + seq!['\n']));
        assert(ls[0] + seq!['\n'] + (join_char(ls.skip(1), '\n') + seq!['\n']) =~= (ls[0]
            + seq!['\n'] + join_char(ls.skip(1), '\n')) + seq!['\n']);
    }
}

/// The preformatted round trip: the opening fence line (with any alt
/// text), the body lines, and the closing fence parse back to the same
/// block.
#[verifier::rlimit(100)]
proof fn lemma_roundtrip_pre(body: Seq<char>, alt: Option<Seq<char>>)
    requires
        forall|j: int| 0 <= j < body.len() ==> #[trigger] body[j] != '\r',
        trim_end_spec(body) == body,
        forall|i: int|
            0 <= i < spec_lines(body).len() ==> !"```"@.is_prefix_of(
                #[trigger] spec_lines(body)[i],
            ),
        alt matches Some(a) ==> a.len() > 0 && line_safe(a),
    ensures
        spec_parse_gemtext(format_node(Node::Preformatted { body, alt })) == seq![
            Node::Preformatted { body, alt },
        ],
{
    lemma_fmt_literals();
    let n = Node::Preformatted { body, alt };
    let l = format_node(n);
    let fence = seq!['`', '`', '`'];
    let open: Seq<char> = match alt {
        Some(a) => fence + a,
        None => fence,
    };
    assert(l =~= open + seq!['\n'] + (body + seq!['\n'] + fence));
    // split into lines: the opening fence, the body lines, the closing
    // fence
    assert(forall|j: int| 0 <= j < open.len() ==> #[trigger] open[j] != '\n');
    assert(open.last() != '\r');
    lemma_lines_concat(open, body + seq!['\n'] + fence);
    // the body must not end in a newline: it equals its own trim
    assert(body.len() > 0 ==> body.last() != '\n') by {
        if body.len() > 0 && body.last() == '\n' {
            assert(is_ws(body.last()));
            assert(trim_end_spec(body) == trim_end_spec(body.drop_last()));
            crate::strutil::lemma_trim_end_len(body.drop_last());
            assert(trim_end_spec(body).len() < body.len());
        }
    }
    lemma_lines_concat_multi(body, fence);
    lemma_lines_single(fence);
    let bl: Seq<Seq<char>> = if body.len() == 0 {
        seq![Seq::<char>::empty()]
    } else {
        spec_lines(body)
    };
    assert(spec_lines(body + seq!['\n'] + fence) == bl.add(seq![fence]));
    let lines = spec_lines(l);
    assert(lines =~= seq![open] + bl + seq![fence]);
    // run the parser: the fence opens the block
    assert("```"@.is_prefix_of(open)) by {
        assert("```"@ =~= open.subrange(0, 3));
    }
    lemma_marker_prefixes(open);
    assert(open[0] == '`');
    let st1 = PState::Pre {
        body: Seq::<char>::empty(),
        alt: if open.len() > 3 {
            Some(open.skip(3))
        } else {
            None
        },
    };
    assert(step_normal(open) == (st1, Seq::<Node>::empty()));
    assert(st1 == PState::Pre { body: Seq::<char>::empty(), alt }) by {
        match alt {
            Some(a) => {
                assert(open.len() == 3 + a.len() > 3);
                assert(open.skip(3) =~= a);
            },
            None => {
                assert(open.len() == 3);
            },
        }
    }
    // the body lines accumulate
    assert(forall|i: int| 0 <= i < bl.len() ==> !"```"@.is_prefix_of(#[trigger] bl[i])) by {
        if body.len() == 0 {
            lemma_marker_prefixes(Seq::<char>::empty());
        }
    }
    lemma_run_pre(Seq::<char>::empty(), alt, bl);
    let acc = Seq::<char>::empty() + cat_lines(bl);
    // the closing fence emits the block
    assert("```"@.is_prefix_of(fence)) by {
        assert("```"@ =~= fence.subrange(0, 3));
    }
    let closed = Node::Preformatted { body: trim_end_spec(acc), alt };
    assert(step(PState::Pre { body: acc, alt }, fence) == (PState::Normal, seq![closed]));
    // stitch the run together
    assert(seq![open] + (bl + seq![fence]) =~= lines);
    lemma_run_single(open);
    assert(run_lines(PState::Normal, seq![open]) == (st1, Seq::<Node>::empty()));
    lemma_run_pre(Seq::<char>::empty(), alt, bl);
    assert(run_lines(st1, bl) == (PState::Pre { body: acc, alt }, Seq::<Node>::empty()));
    lemma_run_single_any(PState::Pre { body: acc, alt }, fence);
    assert(run_lines(PState::Pre { body: acc, alt }, seq![fence]) == (
        PState::Normal,
        seq![closed],
    ));
    lemma_run_concat(st1, bl, seq![fence]);
    assert(run_lines(st1, bl + seq![fence]) == (
        PState::Normal,
        Seq::<Node>::empty() + seq![closed],
    ));
    lemma_run_concat(PState::Normal, seq![open], bl + seq![fence]);
    assert(run_lines(PState::Normal, lines) == (
        PState::Normal,
        Seq::<Node>::empty() + (Seq::<Node>::empty() + seq![closed]),
    ));
    let (st_end, out) = run_lines(PState::Normal, lines);
    assert(st_end == PState::Normal);
    assert(out =~= seq![closed]);
    // and the accumulated body trims back to what was formatted
    assert(trim_end_spec(acc) == body) by {
        assert(acc =~= cat_lines(bl));
        lemma_cat_join(bl);
        if body.len() == 0 {
            assert(join_char(bl, '\n') == Seq::<char>::empty());
            assert(acc =~= seq!['\n']);
            assert(Seq::<char>::empty() + seq!['\n'] =~= seq!['\n']);
            lemma_trim_end_nl(Seq::<char>::empty());
            assert(trim_end_spec(Seq::<char>::empty()) =~= Seq::<char>::empty());
            assert(trim_end_spec(acc) =~= body);
        } else {
            lemma_lines_join(body);
            assert(join_char(bl, '\n') == body);
            assert(acc =~= body + seq!['\n']);
            lemma_trim_end_nl(body);
        }
    }
    assert(spec_parse_gemtext(l) =~= seq![closed] + finish_state(PState::Normal));
    assert(seq![closed] + finish_state(PState::Normal) =~= seq![n]);
}

/// Running over the concatenation of two line sequences is running over
/// the first, then the second from where it left off.
proof fn lemma_run_concat(st: PState, a: Seq<Seq<char>>, b: Seq<Seq<char>>)
    ensures
        run_lines(st, a + b) == {
            let (st1, out1) = run_lines(st, a);
            let (st2, out2) = run_lines(st1, b);
            (st2, out1 + out2)
        },
    decreases a.len(),
{
    if a.len() == 0 {
        assert(a + b =~= b);
        let (st2, out2) = run_lines(st, b);
        assert(Seq::<Node>::empty() + out2 =~= out2);
    } else {
        let (sta, outa) = step(st, a[0]);
        assert((a + b)[0] == a[0]);
        assert((a + b).skip(1) =~= a.skip(1) + b);
        lemma_run_concat(sta, a.skip(1), b);
        let (stb, outb) = run_lines(sta, a.skip(1));
        let (stc, outc) = run_lines(stb, b);
        assert(outa + (outb + outc) =~= (outa + outb) + outc);
    }
}

/// One more line from any state is one more `step`.
proof fn lemma_run_single_any(st: PState, l: Seq<char>)
    ensures
        run_lines(st, seq![l]) == {
            let (st1, out1) = step(st, l);
            (st1, out1)
        },
{
    let (st1, out1) = step(st, l);
    assert(seq![l].skip(1) =~= Seq::<Seq<char>>::empty());
    assert(run_lines(st1, seq![l].skip(1)) == (st1, Seq::<Node>::empty()));
    assert(out1 + Seq::<Node>::empty() =~= out1);
    assert(run_lines(st, seq![l]) == (st1, out1));
}

/// A line that carries no Gemtext marker at all.
pub open spec fn plain_line(l: Seq<char>) -> bool {
    &&& !"=>"@.is_prefix_of(l)
    &&& !"=:"@.is_prefix_of(l)
    &&& !"```"@.is_prefix_of(l)
    &&& (l.len() > 0 ==> l[0] != '#' && l[0] != '*' && l[0] != '>')
}

/// The node a marker-free line parses to.
pub open spec fn line_node(l: Seq<char>) -> Node {
    if l.len() == 0 {
        Node::EmptyLine
    } else {
        Node::Text(l)
    }
}

/// The nodes a sequence of marker-free lines parses to.
pub open spec fn line_nodes(ls: Seq<Seq<char>>) -> Seq<Node>
    decreases ls.len(),
{
    if ls.len() == 0 {
        Seq::empty()
    } else {
        seq![line_node(ls[0])].add(line_nodes(ls.skip(1)))
    }
}

/// The text a node contributes when a document is reassembled: its line
/// for text nodes, nothing for an empty line.
pub open spec fn node_text(n: Node) -> Seq<char> {
    match n {
        Node::Text(s) => s,
        _ => Seq::empty(),
    }
}

/// The texts of a sequence of nodes, in order.
pub open spec fn node_texts(ns: Seq<Node>) -> Seq<Seq<char>>
    decreases ns.len(),
{
    if ns.len() == 0 {
        Seq::empty()
    } else {
        seq![node_text(ns[0])].add(node_texts(ns.skip(1)))
    }
}

/// Marker-free lines pass through the parser one text (or empty-line)
/// node each, never leaving the `Normal` state.
proof fn lemma_run_plain(ls: Seq<Seq<char>>)
    requires
        forall|i: int| 0 <= i < ls.len() ==> plain_line(#[trigger] ls[i]),
    ensures
        run_lines(PState::Normal, ls) == (PState::Normal, line_nodes(ls)),
    decreases ls.len(),
{
    if ls.len() == 0 {
    } else {
        let l = ls[0];
        assert(plain_line(l));
        assert(step_normal(l) == (PState::Normal, seq![line_node(l)]));
        assert(forall|i: int|
            0 <= i < ls.skip(1).len() ==> plain_line(#[trigger] ls.skip(1)[i])) by {
            assert(forall|i: int| 0 <= i < ls.skip(1).len() ==> ls.skip(1)[i] == ls[i + 1]);
        }
        lemma_run_plain(ls.skip(1));
        assert(run_lines(PState::Normal, ls) == (
            PState::Normal,
            seq![line_node(l)] + line_nodes(ls.skip(1)),
        ));
    }
}

/// The texts of the nodes of marker-free lines are the lines themselves.
proof fn lemma_texts_of_lines(ls: Seq<Seq<char>>)
    ensures
        node_texts(line_nodes(ls)) == ls,
    decreases ls.len(),
{
    if ls.len() == 0 {
        assert(node_texts(line_nodes(ls)) =~= ls);
    } else {
        lemma_texts_of_lines(ls.skip(1));
        let ns = line_nodes(ls);
        assert(ns[0] == line_node(ls[0]));
        assert(ns.skip(1) =~= line_nodes(ls.skip(1)));
        assert(node_text(line_node(ls[0])) =~= ls[0]);
        assert(node_texts(ns) =~= seq![node_text(ns[0])].add(node_texts(ns.skip(1))));
        assert(node_texts(ns) =~= ls);
    }
}

/// A document with no markers parses to one text node per line (an
/// empty-line node for empty lines), and joining those texts with
/// newlines reconstructs the document — up to the one trailing newline
/// that line splitting swallows. In particular the parse never fails and
/// never loses marker-free content.
pub proof fn lemma_plain_text_reconstruction(text: Seq<char>)
    requires
        forall|j: int| 0 <= j < text.len() ==> #[trigger] text[j] != '\r',
        forall|i: int|
            0 <= i < spec_lines(text).len() ==> plain_line(#[trigger] spec_lines(text)[i]),
    ensures
        spec_parse_gemtext(text) == line_nodes(spec_lines(text)),
        ({
            let joined = join_char(node_texts(spec_parse_gemtext(text)), '\n');
            joined == text || (text.len() > 0 && text.last() == '\n' && joined
                == text.drop_last())
        }),
{
    lemma_run_plain(spec_lines(text));
    assert(finish_state(PState::Normal) =~= Seq::<Node>::empty());
    assert(line_nodes(spec_lines(text)) + Seq::<Node>::empty() =~= line_nodes(
        spec_lines(text),
    ));
    lemma_texts_of_lines(spec_lines(text));
    lemma_lines_join(text);
}

/// Part of the Gopher map test, as a reusable induction: a line before
/// any terminator that is empty or opens with an unrecognized character
/// sinks the whole test.
proof fn lemma_lines_not_map(ls: Seq<Seq<char>>, i: int)
    requires
        0 <= i < ls.len(),
        forall|j: int| 0 <= j < i ==> #[trigger] ls[j] != "."@,
        ls[i] != "."@,
        !(ls[i].len() > 0 && is_gopher_type(ls[i][0])),
    ensures
        !spec_lines_are_map(ls),
    decreases i,
{
    if i == 0 {
    } else {
        assert(ls[0] != "."@);
        if ls[0].len() > 0 && is_gopher_type(ls[0][0]) {
            assert(forall|j: int| 0 <= j < i - 1 ==> ls.skip(1)[j] == ls[j + 1]);
            assert(ls.skip(1)[i - 1] == ls[i]);
            lemma_lines_not_map(ls.skip(1), i - 1);
        }
    }
}

/// The Gopher map test rejects: as soon as any line before a `.`
/// terminator is empty or opens with a character outside the recognized
/// item types, the content is not a map — whatever its MIME type.
pub proof fn lemma_is_map_rejects(mime: Seq<char>, text: Seq<char>, i: int)
    requires
        0 <= i < spec_lines(text).len(),
        forall|j: int| 0 <= j < i ==> #[trigger] spec_lines(text)[j] != "."@,
        spec_lines(text)[i] != "."@,
        !(spec_lines(text)[i].len() > 0 && is_gopher_type(spec_lines(text)[i][0])),
    ensures
        !spec_is_map(mime, text),
{
    lemma_lines_not_map(spec_lines(text), i);
}

/// Part of the acceptance direction, as an induction over the lines.
proof fn lemma_lines_all_map(ls: Seq<Seq<char>>)
    requires
        forall|i: int|
            0 <= i < ls.len() ==> (#[trigger] ls[i] == "."@ || (ls[i].len() > 0
                && is_gopher_type(ls[i][0]))),
    ensures
        spec_lines_are_map(ls),
    decreases ls.len(),
{
    if ls.len() == 0 {
    } else if ls[0] == "."@ {
    } else {
        assert(forall|i: int| 0 <= i < ls.skip(1).len() ==> ls.skip(1)[i] == ls[i + 1]);
        lemma_lines_all_map(ls.skip(1));
    }
}

/// The Gopher map test accepts: textual content whose every line is the
/// terminator or opens with a recognized item-type character — an
/// all-`i`/`0`/`1` document, say — is a map.
pub proof fn lemma_is_map_accepts(mime: Seq<char>, text: Seq<char>)
    requires
        "text"@.is_prefix_of(mime),
        forall|i: int|
            0 <= i < spec_lines(text).len() ==> (#[trigger] spec_lines(text)[i] == "."@ || (
            spec_lines(text)[i].len() > 0 && is_gopher_type(spec_lines(text)[i][0]))),
    ensures
        spec_is_map(mime, text),
{
    lemma_lines_all_map(spec_lines(text));
}

} // verus!
