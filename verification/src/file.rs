//! The computable part of the `file:` scheme: choosing the MIME type for
//! a local file and synthesizing the Gemtext index page of a directory.
//! Reading the filesystem itself happens outside this crate; callers hand
//! in the sniffed type, the extension, and the directory entries.

use crate::outside::chars_to_string;
use crate::strutil::{extend_chars, str_chars};
use vstd::prelude::*;

verus! {

/// The MIME type used for a local file: a textual sniffed type is
/// overridden to `text/gemini` when the extension is `gmi` or `gemini`;
/// anything else keeps the sniffed type.
pub open spec fn spec_file_mime(sniffed: Seq<char>, extension: Option<Seq<char>>) -> Seq<char> {
    if "text/"@.is_prefix_of(sniffed) && (extension == Some("gmi"@) || extension == Some(
        "gemini"@,
    )) {
        "text/gemini"@
    } else {
        sniffed
    }
}

/// Picks the MIME type for a local file, as `spec_file_mime` says.
pub fn file_mime(sniffed: &str, extension: Option<&str>) -> (r: String)
    ensures
        r@ == spec_file_mime(sniffed@, match extension {
            Some(e) => Some(e@),
            None => None,
        }),
{
    let sc = str_chars(sniffed);
    if crate::strutil::starts_with_str(&sc, "text/") {
        match extension {
            Some(e) => {
                let ec = str_chars(e);
                if crate::strutil::eq_str(&ec, "gmi") || crate::strutil::eq_str(&ec, "gemini") {
                    let v = str_chars("text/gemini");
                    return chars_to_string(&v);
                }
            },
            None => {},
        }
    }
    chars_to_string(&sc)
}

/// One entry of a directory listing: the entry's full path and its name.
#[derive(Clone, Debug, PartialEq, Eq)]
pub struct DirEntry {
    pub path: String,
    pub name: String,
}

/// The link lines of a directory index, one `=> file://` link per entry.
pub open spec fn spec_entry_lines(entries: Seq<DirEntry>) -> Seq<char>
    decreases entries.len(),
{
    if entries.len() == 0 {
        Seq::empty()
    } else {
        "=> file://"@ + entries[0].path@ + " "@ + entries[0].name@ + "\n"@ + spec_entry_lines(
            entries.skip(1),
        )
    }
}

/// The Gemtext index page of a directory: a heading naming the path, a
/// link to the parent if there is one, then one link per entry.
pub open spec fn spec_dir_index(
    path: Seq<char>,
    parent: Option<Seq<char>>,
    entries: Seq<DirEntry>,
) -> Seq<char> {
    "# Index of "@ + path + "\n"@ + (match parent {
        Some(p) => "=> file://"@ + p + " parent directory\n\n"@,
        None => Seq::empty(),
    }) + spec_entry_lines(entries)
}

/// Builds the Gemtext index page of a directory, as `spec_dir_index`
/// says.
pub fn dir_index(path: &str, parent: Option<&str>, entries: &Vec<DirEntry>) -> (r: String)
    ensures
        r@ == spec_dir_index(path@, match parent {
            Some(p) => Some(p@),
            None => None,
        }, entries@),
{
    let mut v: Vec<char> = Vec::new();
    let head = str_chars("# Index of ");
    extend_chars(&mut v, &head);
    let pc = str_chars(path);
    extend_chars(&mut v, &pc);
    let nl = str_chars("\n");
    extend_chars(&mut v, &nl);
    match parent {
        Some(p) => {
            let pre = str_chars("=> file://");
            extend_chars(&mut v, &pre);
            let par = str_chars(p);
            extend_chars(&mut v, &par);
            let tail = str_chars(" parent directory\n\n");
            extend_chars(&mut v, &tail);
        },
        None => {},
    }
    let ghost prefix = v@;
    proof {
        assert(prefix =~= "# Index of "@ + path@ + "\n"@ + (match parent {
            Some(p) => "=> file://"@ + p@ + " parent directory\n\n"@,
            None => Seq::<char>::empty(),
        }));
        assert(entries@.skip(0) =~= entries@);
        assert(v@ + spec_entry_lines(entries@.skip(0)) =~= prefix + spec_entry_lines(entries@));
    }
    let n = entries.len();
    let mut i: usize = 0;
    while i < n
        invariant
            n == entries@.len(),
            i <= n,
            v@ + spec_entry_lines(entries@.skip(i as int)) == prefix + spec_entry_lines(
                entries@,
            ),
        decreases n - i,
    {
        let ghost old_v = v@;
        let pre = str_chars("=> file://");
        extend_chars(&mut v, &pre);
        let ep = str_chars(entries[i].path.as_str());
        extend_chars(&mut v, &ep);
        let sp = str_chars(" ");
        extend_chars(&mut v, &sp);
        let en = str_chars(entries[i].name.as_str());
        extend_chars(&mut v, &en);
        let nl2 = str_chars("\n");
        extend_chars(&mut v, &nl2);
        proof {
            let rest = entries@.skip(i as int);
            assert(rest[0] == entries@[i as int]);
            assert(rest.skip(1) =~= entries@.skip(i + 1));
            assert(v@ =~= old_v + ("=> file://"@ + entries@[i as int].path@ + " "@
                + entries@[i as int].name@ + "\n"@));
            assert(v@ + spec_entry_lines(entries@.skip(i + 1)) =~= old_v + spec_entry_lines(
                rest,
            ));
        }
        i = i + 1;
    }
    proof {
        assert(entries@.skip(n as int) =~= Seq::<DirEntry>::empty());
        assert(v@ =~= prefix + spec_entry_lines(entries@));
        assert(v@ =~= spec_dir_index(path@, match parent {
            Some(p) => Some(p@),
            None => None,
        }, entries@));
    }
    chars_to_string(&v)
}

} // verus!
