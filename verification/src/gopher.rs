//! The Gopher-map parser: deciding whether text content is a map, and
//! classifying each tab-delimited map line as text, a link, a search
//! query, or an HTTP link.

use crate::outside::{chars_to_string, percent_decode, percent_decode_of, utf8_lossy,
    utf8_lossy_of};
use crate::scheme::Content;
use crate::strutil::{
    extend_chars, find_char, lemma_find_char, lines_of, spec_lines, split_char, split_char_in,
    str_chars, subvec,
};
use vstd::prelude::*;

verus! {

/// The model of a parsed Gopher-map line.
pub enum LineModel {
    Text(Seq<char>),
    Link { display: Seq<char>, path: Seq<char>, host: Seq<char>, port: Seq<char> },
    Query { display: Seq<char>, path: Seq<char>, host: Seq<char>, port: Seq<char> },
    Http { display: Seq<char>, url: Seq<char> },
}

/// A Gopher link: the displayed text and the selector's path, host and
/// port.
#[derive(Clone, Debug, PartialEq, Eq)]
pub struct Link {
    /// The string displayed to represent the link.
    pub display: String,
    /// The path from the server root to this document.
    pub path: String,
    /// The fully qualified domain name of the server.
    pub host: String,
    /// The port this server runs on.
    pub port: String,
}

/// A link out of Gopher space, carried in a map line of type `h`.
#[derive(Clone, Debug, PartialEq, Eq)]
pub struct ExternLink {
    pub display: String,
    pub url: String,
}

/// A classified Gopher-map line.
#[derive(Clone, Debug, PartialEq, Eq)]
pub enum LineType {
    /// An ordinary text line.
    Text(String),
    /// A Gopher link.
    Link(Link),
    /// A Gopher search query.
    Query(Link),
    /// An HTTP link.
    Http(ExternLink),
}

impl View for LineType {
    type V = LineModel;

    open spec fn view(&self) -> LineModel {
        match self {
            LineType::Text(s) => LineModel::Text(s@),
            LineType::Link(l) => LineModel::Link {
                display: l.display@,
                path: l.path@,
                host: l.host@,
                port: l.port@,
            },
            LineType::Query(l) => LineModel::Query {
                display: l.display@,
                path: l.path@,
                host: l.host@,
                port: l.port@,
            },
            LineType::Http(l) => LineModel::Http { display: l.display@, url: l.url@ },
        }
    }
}

impl DeepView for LineType {
    type V = LineModel;

    open spec fn deep_view(&self) -> LineModel {
        self.view()
    }
}

/// The link fields of a map line: the first tab field minus its type
/// character, then path, host and port. Lines with fewer than four fields,
/// or an empty first field, are dropped.
pub open spec fn spec_from_line(s: Seq<char>) -> Option<
    (Seq<char>, Seq<char>, Seq<char>, Seq<char>),
> {
    let f = split_char(s, '\t');
    if f.len() >= 4 && f[0].len() >= 1 {
        Some((f[0].skip(1), f[1], f[2], f[3]))
    } else {
        None
    }
}

/// The classification of one map line.
///
/// A lone `.` terminates the map and yields nothing. Type `i` is text
/// (the first field minus the type character); type `7` is a query; type
/// `h` whose second field starts `URL:` is an HTTP link to what follows
/// that prefix; everything else is an ordinary link via `spec_from_line`.
pub open spec fn spec_parse_line(s: Seq<char>) -> Option<LineModel> {
    if s == "."@ {
        None
    } else if s.len() > 0 && s[0] == 'i' {
        Some(LineModel::Text(split_char(s, '\t')[0].skip(1)))
    } else if s.len() > 0 && s[0] == '7' {
        match spec_from_line(s) {
            Some((display, path, host, port)) => Some(
                LineModel::Query { display, path, host, port },
            ),
            None => None,
        }
    } else if s.len() > 0 && s[0] == 'h' {
        let f = split_char(s, '\t');
        if f.len() >= 2 && "URL:"@.is_prefix_of(f[1]) {
            Some(LineModel::Http { display: f[0].skip(1), url: f[1].skip(4) })
        } else {
            match spec_from_line(s) {
                Some((display, path, host, port)) => Some(
                    LineModel::Link { display, path, host, port },
                ),
                None => None,
            }
        }
    } else {
        match spec_from_line(s) {
            Some((display, path, host, port)) => Some(
                LineModel::Link { display, path, host, port },
            ),
            None => None,
        }
    }
}

impl Link {
    /// Extracts the link fields of a map line, dropping malformed lines.
    pub fn from_line(line: &str) -> (r: Option<Link>)
        ensures
            match spec_from_line(line@) {
                Some((display, path, host, port)) => r matches Some(l) && l.display@ == display
                    && l.path@ == path && l.host@ == host && l.port@ == port,
                None => r is None,
            },
    {
        let chars = str_chars(line);
        let f = split_char_in(&chars, '\t');
        proof {
            assert(forall|j: int|
                0 <= j < f@.len() ==> f.deep_view()[j] == #[trigger] f@[j]@);
        }
        if f.len() >= 4 && f[0].len() >= 1 {
            let display = subvec(&f[0], 1, f[0].len());
            proof {
                assert(display@ == f.deep_view()[0].skip(1));
            }
            Some(
                Link {
                    display: chars_to_string(&display),
                    path: chars_to_string(&f[1]),
                    host: chars_to_string(&f[2]),
                    port: chars_to_string(&f[3]),
                },
            )
        } else {
            None
        }
    }

    /// The URL this link points at.
    pub fn to_url(&self) -> (r: String)
        ensures
            r@ == "gopher://"@ + self.host@ + ":"@ + self.port@ + self.path@,
    {
        let mut v: Vec<char> = Vec::new();
        let p = str_chars("gopher://");
        extend_chars(&mut v, &p);
        let h = str_chars(self.host.as_str());
        extend_chars(&mut v, &h);
        let colon = str_chars(":");
        extend_chars(&mut v, &colon);
        let po = str_chars(self.port.as_str());
        extend_chars(&mut v, &po);
        let pa = str_chars(self.path.as_str());
        extend_chars(&mut v, &pa);
        proof {
            assert(v@ =~= "gopher://"@ + self.host@ + ":"@ + self.port@ + self.path@);
        }
        chars_to_string(&v)
    }
}

impl ExternLink {
    /// Pairs a display text with a URL.
    pub fn new(display: String, url: String) -> (r: Self)
        ensures
            r.display@ == display@,
            r.url@ == url@,
    {
        Self { display, url }
    }
}

impl LineType {
    /// Classifies one map line, as `spec_parse_line` says.
    pub fn parse_line(line: &str) -> (r: Option<LineType>)
        ensures
            match spec_parse_line(line@) {
                Some(m) => r matches Some(l) && l@ == m,
                None => r is None,
            },
    {
        let chars = str_chars(line);
        if crate::strutil::eq_str(&chars, ".") {
            return None;
        }
        if chars.len() > 0 && chars[0] == 'i' {
            let f = split_char_in(&chars, '\t');
            proof {
                assert(f.deep_view()[0] == f@[0]@);
                crate::strutil::lemma_find_char(chars@, '\t');
                assert(f.deep_view()[0] == chars@.take(find_char(chars@, '\t')));
                assert(f.deep_view()[0].len() >= 1);
            }
            let display = subvec(&f[0], 1, f[0].len());
            proof {
                assert(display@ == f.deep_view()[0].skip(1));
            }
            return Some(LineType::Text(chars_to_string(&display)));
        }
        if chars.len() > 0 && chars[0] == '7' {
            return match Link::from_line(line) {
                Some(l) => Some(LineType::Query(l)),
                None => None,
            };
        }
        if chars.len() > 0 && chars[0] == 'h' {
            let f = split_char_in(&chars, '\t');
            proof {
                assert(forall|j: int|
                    0 <= j < f@.len() ==> f.deep_view()[j] == #[trigger] f@[j]@);
                crate::strutil::lemma_find_char(chars@, '\t');
                assert(f.deep_view()[0].len() >= 1);
            }
            if f.len() >= 2 && crate::strutil::starts_with_str(&f[1], "URL:") {
                proof {
                    reveal_strlit("URL:");
                    assert(f@[1]@.len() >= 4);
                }
                let display = subvec(&f[0], 1, f[0].len());
                let url = subvec(&f[1], 4, f[1].len());
                proof {
                    reveal_strlit("URL:");
                    assert(display@ == f.deep_view()[0].skip(1));
                    assert(url@ == f.deep_view()[1].skip(4));
                }
                return Some(
                    LineType::Http(
                        ExternLink {
                            display: chars_to_string(&display),
                            url: chars_to_string(&url),
                        },
                    ),
                );
            }
            return match Link::from_line(line) {
                Some(l) => Some(LineType::Link(l)),
                None => None,
            };
        }
        match Link::from_line(line) {
            Some(l) => Some(LineType::Link(l)),
            None => None,
        }
    }
}

/// A character that may open a Gopher-map line.
pub open spec fn is_gopher_type(c: char) -> bool {
    ('0' <= c && c <= '9') || c == '+' || c == 'g' || c == 'I' || c == 'T' || c == ':' || c == ';'
        || c == '<' || c == 'd' || c == 'h' || c == 'i' || c == 's'
}

/// Whether every line up to a `.` terminator (or the end) opens with a
/// recognized item-type character. An empty line fails.
pub open spec fn spec_lines_are_map(ls: Seq<Seq<char>>) -> bool
    decreases ls.len(),
{
    if ls.len() == 0 {
        true
    } else if ls[0] == "."@ {
        true
    } else if ls[0].len() > 0 && is_gopher_type(ls[0][0]) {
        spec_lines_are_map(ls.skip(1))
    } else {
        false
    }
}

/// Whether content is a Gopher map: its MIME type must be textual and
/// every line up to a `.` terminator must open with a recognized
/// item-type character.
pub open spec fn spec_is_map(mime: Seq<char>, text: Seq<char>) -> bool {
    "text"@.is_prefix_of(mime) && spec_lines_are_map(spec_lines(text))
}

/// The classification of a whole map: each line in order, dropped lines
/// omitted.
pub open spec fn spec_parse_map(ls: Seq<Seq<char>>) -> Seq<LineModel>
    decreases ls.len(),
{
    if ls.len() == 0 {
        Seq::empty()
    } else {
        match spec_parse_line(ls[0]) {
            Some(m) => seq![m].add(spec_parse_map(ls.skip(1))),
            None => spec_parse_map(ls.skip(1)),
        }
    }
}

impl Content {
    /// Decides whether this content is a Gopher map, over the lossy UTF-8
    /// decoding of its bytes.
    pub fn is_map(&self) -> (r: bool)
        ensures
            r == spec_is_map(self.mime@, utf8_lossy_of(self.bytes@)),
    {
        let mc = str_chars(self.mime.as_str());
        if !crate::strutil::starts_with_str(&mc, "text") {
            return false;
        }
        proof {
        assert("text"@.is_prefix_of(self.mime@));
        }
        let page = utf8_lossy(self.bytes.as_slice());
        let pc = str_chars(page.as_str());
        let lines = lines_of(&pc);
        let ghost lv = lines.deep_view();
        proof {
            assert(pc@ == utf8_lossy_of(self.bytes@));
            assert(lv == spec_lines(utf8_lossy_of(self.bytes@)));
        }
        let n = lines.len();
        let mut i: usize = 0;
        proof {
            assert(lv.skip(0) =~= lv);
        }
        while i < n
            invariant
                n == lines@.len(),
                n == lv.len(),
                lv == lines.deep_view(),
                forall|j: int| 0 <= j < n ==> lv[j] == #[trigger] lines@[j]@,
                i <= n,
                "text"@.is_prefix_of(self.mime@),
                lv == spec_lines(utf8_lossy_of(self.bytes@)),
                spec_lines_are_map(lv) == spec_lines_are_map(lv.skip(i as int)),
            decreases n - i,
        {
            let line = &lines[i];
            if crate::strutil::eq_str(line, ".") {
                proof {
                    assert(lv.skip(i as int)[0] == lv[i as int]);
                }
                return true;
            }
            if line.len() == 0 {
                proof {
                    assert(lv.skip(i as int)[0] == lv[i as int]);
                }
                return false;
            }
            let c = line[0];
            let ok = ('0' <= c && c <= '9') || c == '+' || c == 'g' || c == 'I' || c == 'T' || c
                == ':' || c == ';' || c == '<' || c == 'd' || c == 'h' || c == 'i' || c == 's';
            proof {
                assert(lv.skip(i as int)[0] == lv[i as int]);
                assert(ok == is_gopher_type(lv[i as int][0]));
            }
            if !ok {
                return false;
            }
            proof {
                assert(lv.skip(i as int).skip(1) =~= lv.skip(i + 1));
            }
            i = i + 1;
        }
        proof {
            assert(lv.skip(n as int) =~= Seq::<Seq<char>>::empty());
        }
        true
    }

    /// Classifies every line of this content as a Gopher-map line,
    /// dropping terminator and malformed lines.
    pub fn parse(&self) -> (r: Vec<LineType>)
        ensures
            r.deep_view() == spec_parse_map(spec_lines(utf8_lossy_of(self.bytes@))),
    {
        let page = utf8_lossy(self.bytes.as_slice());
        let pc = str_chars(page.as_str());
        let lines = lines_of(&pc);
        let ghost lv = lines.deep_view();
        let mut r: Vec<LineType> = Vec::new();
        let n = lines.len();
        let mut i: usize = 0;
        proof {
            assert(lv.skip(0) =~= lv);
            assert(r.deep_view() =~= Seq::<LineModel>::empty());
            assert(r.deep_view() + spec_parse_map(lv) =~= spec_parse_map(lv));
        }
        while i < n
            invariant
                n == lines@.len(),
                n == lv.len(),
                lv == lines.deep_view(),
                forall|j: int| 0 <= j < n ==> lv[j] == #[trigger] lines@[j]@,
                i <= n,
                lv == spec_lines(utf8_lossy_of(self.bytes@)),
                r.deep_view() + spec_parse_map(lv.skip(i as int)) == spec_parse_map(lv),
            decreases n - i,
        {
            let ghost old_r = r.deep_view();
            let line_s = chars_to_string(&lines[i]);
            proof {
                assert(lv.skip(i as int)[0] == lv[i as int]);
                assert(lv.skip(i as int).skip(1) =~= lv.skip(i + 1));
            }
            match LineType::parse_line(line_s.as_str()) {
                Some(l) => {
                    r.push(l);
                    proof {
                        assert(r.deep_view() =~= old_r.push(
                            spec_parse_line(lv[i as int]).unwrap(),
                        ));
                        assert(r.deep_view() + spec_parse_map(lv.skip(i + 1)) =~= spec_parse_map(
                            lv,
                        ));
                    }
                },
                None => {
                    proof {
                        assert(r.deep_view() + spec_parse_map(lv.skip(i + 1)) =~= spec_parse_map(
                            lv,
                        ));
                    }
                },
            }
            i = i + 1;
        }
        proof {
            assert(lv.skip(n as int) =~= Seq::<Seq<char>>::empty());
            assert(r.deep_view() + spec_parse_map(lv.skip(n as int)) =~= r.deep_view());
        }
        r
    }
}

/// The selector paths whose leading type indicator is stripped before a
/// request is sent.
pub open spec fn spec_trim_path(p: Seq<char>) -> Seq<char> {
    if "/0/"@.is_prefix_of(p) || "/1/"@.is_prefix_of(p) || "/g/"@.is_prefix_of(p)
        || "/I/"@.is_prefix_of(p) || "/9/"@.is_prefix_of(p) {
        p.skip(2)
    } else {
        p
    }
}

/// Strips a leading item-type indicator (`/0/`, `/1/`, `/g/`, `/I/`,
/// `/9/`) from a selector path.
pub fn trim_path(path: &str) -> (r: String)
    ensures
        r@ == spec_trim_path(path@),
{
    let pc = str_chars(path);
    if crate::strutil::starts_with_str(&pc, "/0/") || crate::strutil::starts_with_str(&pc, "/1/")
        || crate::strutil::starts_with_str(&pc, "/g/") || crate::strutil::starts_with_str(
        &pc,
        "/I/",
    ) || crate::strutil::starts_with_str(&pc, "/9/") {
        proof {
            reveal_strlit("/0/");
            reveal_strlit("/1/");
            reveal_strlit("/g/");
            reveal_strlit("/I/");
            reveal_strlit("/9/");
        }
        let rest = subvec(&pc, 2, pc.len());
        proof {
            assert(rest@ == path@.skip(2));
        }
        chars_to_string(&rest)
    } else {
        chars_to_string(&pc)
    }
}

/// The selector a Gopher request sends for a URL path and optional query:
/// the trimmed path, the query after `?`, a closing CRLF, the whole
/// percent-decoded.
pub open spec fn spec_selector_path(path: Seq<char>, query: Option<Seq<char>>) -> Seq<char> {
    let p = spec_trim_path(path);
    (match query {
        Some(q) => p + seq!['?'] + q,
        None => p,
    }) + "\r\n"@
}

/// Builds the selector line a Gopher request sends. `None` where
/// percent-decoding fails.
pub fn selector_line(path: &str, query: Option<&str>) -> (r: Option<String>)
    ensures
        match percent_decode_of(spec_selector_path(path@, match query {
            Some(q) => Some(q@),
            None => None,
        })) {
            Some(d) => r matches Some(line) && line@ == d,
            None => r is None,
        },
{
    let trimmed = trim_path(path);
    let mut v: Vec<char> = str_chars(trimmed.as_str());
    match query {
        Some(q) => {
            v.push('?');
            let qc = str_chars(q);
            extend_chars(&mut v, &qc);
        },
        None => {},
    }
    let tail = str_chars("\r\n");
    extend_chars(&mut v, &tail);
    proof {
        assert(v@ =~= spec_selector_path(path@, match query {
            Some(q) => Some(q@),
            None => None,
        }));
    }
    let s = chars_to_string(&v);
    percent_decode(s.as_str())
}

} // verus!
