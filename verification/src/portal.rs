//! What the file dialogs of the desktop give back.

use vstd::prelude::*;

use crate::encode;
use crate::encode::percent_decode_text;
use crate::text;
use crate::text::strip_prefix;

verus! {

/// The path that a URI stands for: percent-decoded, without a leading
/// `file://`. A URI that does not decode to text stands for the empty path.
pub open spec fn path_of_uri(uri: Seq<char>) -> Seq<char> {
    let bytes = encode::percent_decoded(vstd::utf8::encode_utf8(uri));
    let decoded = if vstd::utf8::valid_utf8(bytes) {
        vstd::utf8::decode_utf8(bytes)
    } else {
        Seq::empty()
    };
    match text::stripped(decoded, "file://"@) {
        Some(path) => path,
        None => decoded,
    }
}

/// The path that the URI stands for.
pub fn uri_to_path(uri: &str) -> (r: String)
    ensures
        r@ == path_of_uri(uri@),
        !vstd::utf8::valid_utf8(
            encode::percent_decoded(vstd::utf8::encode_utf8(uri@)),
        ) ==> r@.len() == 0,
        vstd::utf8::valid_utf8(encode::percent_decoded(vstd::utf8::encode_utf8(uri@))) ==> ({
            let decoded = vstd::utf8::decode_utf8(
                encode::percent_decoded(vstd::utf8::encode_utf8(uri@)),
            );
            r@ == (if text::begins(decoded, "file://"@) {
                decoded.skip(7)
            } else {
                decoded
            })
        }),
{
    proof {
        reveal_strlit("file://");
    }
    let decoded = match percent_decode_text(uri) {
        Some(s) => s,
        None => String::new(),
    };
    match strip_prefix(&decoded, "file://") {
        Some(path) => path,
        None => decoded,
    }
}

/// The paths that are not empty.
pub open spec fn chosen_paths(uris: Seq<Seq<char>>) -> Seq<Seq<char>>
    decreases uris.len(),
{
    if uris.len() == 0 {
        Seq::empty()
    } else {
        let before = chosen_paths(uris.drop_last());
        let path = path_of_uri(uris.last());
        if path.len() == 0 {
            before
        } else {
            before.push(path)
        }
    }
}

/// The paths of the files that were picked. Without an answer of the dialog
/// there are none.
pub fn pick_files(uris: &Option<Vec<String>>) -> (r: Vec<String>)
    ensures
        r.deep_view() == (match uris.deep_view() {
            Some(u) => chosen_paths(u),
            None => Seq::empty(),
        }),
{
    let mut r: Vec<String> = Vec::new();
    proof {
        assert(r.deep_view() =~= Seq::<Seq<char>>::empty());
    }
    if let Some(list) = uris {
        let ghost all = list.deep_view();
        let mut i: usize = 0;
        proof {
            assert(all.take(0) =~= Seq::empty());
        }
        while i < list.len()
            invariant
                i <= list@.len(),
                all == list.deep_view(),
                r.deep_view() == chosen_paths(all.take(i as int)),
            decreases list@.len() - i,
        {
            let ghost before = r.deep_view();
            proof {
                assert(all.take(i + 1).drop_last() == all.take(i as int));
                assert(all.take(i + 1).last() == list@[i as int]@);
            }
            let path = uri_to_path(&list[i]);
            if !path.as_str().is_empty() {
                r.push(path);
                proof {
                    assert(r.deep_view() =~= before.push(path@));
                }
            }
            i = i + 1;
        }
        proof {
            assert(all.take(i as int) == all);
        }
    }
    r
}

/// The path of the first URI, unless it is empty.
pub open spec fn first_path(uris: Option<Seq<Seq<char>>>) -> Option<Seq<char>> {
    if uris is Some && uris->0.len() > 0 && path_of_uri(uris->0[0]).len() > 0 {
        Some(path_of_uri(uris->0[0]))
    } else {
        None
    }
}

fn first_choice(uris: &Option<Vec<String>>) -> (r: Option<String>)
    ensures
        r.deep_view() == first_path(uris.deep_view()),
{
    match uris {
        Some(list) => {
            if list.len() == 0 {
                return None;
            }
            proof {
                assert(list.deep_view()[0] == list@[0]@);
            }
            let path = uri_to_path(&list[0]);
            if path.as_str().is_empty() {
                None
            } else {
                Some(path)
            }
        },
        None => None,
    }
}

/// The destination that was chosen in a save dialog.
pub fn save_file(uris: &Option<Vec<String>>) -> (r: Option<String>)
    ensures
        r.deep_view() == first_path(uris.deep_view()),
        (uris is None || uris->0@.len() == 0) ==> r is None,
        uris is Some && uris->0@.len() > 0 ==> ({
            let path = path_of_uri(uris->0@[0]@);
            if path.len() > 0 {
                r is Some && r->0@ == path
            } else {
                r is None
            }
        }),
{
    first_choice(uris)
}

/// The folder that was picked.
pub fn pick_folder(uris: &Option<Vec<String>>) -> (r: Option<String>)
    ensures
        r.deep_view() == first_path(uris.deep_view()),
        (uris is None || uris->0@.len() == 0) ==> r is None,
        uris is Some && uris->0@.len() > 0 ==> ({
            let path = path_of_uri(uris->0@[0]@);
            if path.len() > 0 {
                r is Some && r->0@ == path
            } else {
                r is None
            }
        }),
{
    first_choice(uris)
}

/// Which files a dialog offers.
#[derive(Debug, PartialEq, Eq)]
pub struct FileFilter {
    pub name: String,
    pub patterns: Vec<String>,
}

impl FileFilter {
    /// A filter without patterns.
    pub fn new(name: String) -> (r: FileFilter)
        ensures
            r.name == name,
            r.patterns@.len() == 0,
    {
        FileFilter { name, patterns: Vec::new() }
    }

    /// The filter with one more pattern.
    pub fn pattern(self, pattern: String) -> (r: FileFilter)
        ensures
            r.name == self.name,
            r.patterns@ == self.patterns@.push(pattern),
    {
        let mut patterns = self.patterns;
        patterns.push(pattern);
        FileFilter { name: self.name, patterns }
    }

    /// The filter with these patterns in place of its own.
    pub fn patterns(self, patterns: Vec<String>) -> (r: FileFilter)
        ensures
            r.name == self.name,
            r.patterns@ == patterns@,
    {
        FileFilter { name: self.name, patterns }
    }
}

/// A file URI without escapes stands for the path behind its scheme.
pub proof fn lemma_plain_uris(path: Seq<char>)
    requires
        !vstd::utf8::encode_utf8("file://"@ + path).contains(37),
    ensures
        path_of_uri("file://"@ + path) == path,
{
    let uri = "file://"@ + path;
    encode::lemma_percent_plain(vstd::utf8::encode_utf8(uri));
    vstd::utf8::encode_utf8_valid_utf8(uri);
    vstd::utf8::encode_utf8_decode_utf8(uri);
    text::lemma_prefixes("file://"@, path, uri);
}

/// Every file that is picked is given back, in its place, unless its URI stands
/// for no path.
pub proof fn lemma_picked_files_are_given_back(uris: Seq<Seq<char>>, uri: Seq<char>)
    ensures
        path_of_uri(uri).len() > 0 ==> chosen_paths(uris.push(uri)) == chosen_paths(uris).push(
            path_of_uri(uri),
        ),
        path_of_uri(uri).len() == 0 ==> chosen_paths(uris.push(uri)) == chosen_paths(uris),
        chosen_paths(Seq::empty()).len() == 0,
{
    assert(uris.push(uri).drop_last() =~= uris);
}

} // verus!
