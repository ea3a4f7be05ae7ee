//! Where received files go.

use vstd::prelude::*;

use crate::paths;
use crate::paths::{join_path, split_extension};
use crate::text;
use crate::text::{chars_of, digits_text, same};

verus! {

/// What can go wrong with the name of a received file.
#[derive(Debug, Clone, Copy, PartialEq, Eq, Structural)]
pub enum DownloadError {
    InvalidFilename,
    NoAvailableName,
    WriteFailed,
}

/// A name that selects a file and nothing else: no separator, no NUL, and not
/// one of the names of a directory.
pub open spec fn valid_name(name: Seq<char>) -> bool {
    &&& name.len() > 0
    &&& !name.contains('/')
    &&& !name.contains('\\')
    &&& !name.contains('\0')
    &&& name != "."@
    &&& name != ".."@
}

/// Remote names may select a file, never a directory or another path.
pub fn validate_filename(filename: &str) -> (r: Result<(), DownloadError>)
    ensures
        r is Ok <==> valid_name(filename@),
        r is Ok <==> filename@.len() > 0 && !filename@.contains('/') && !filename@.contains('\\')
            && !filename@.contains('\0') && filename@ != "."@ && filename@ != ".."@,
        r is Err ==> r->Err_0 == DownloadError::InvalidFilename,
{
    let v = chars_of(filename);
    let mut i: usize = 0;
    while i < v.len()
        invariant
            i <= v@.len(),
            v@ == filename@,
            forall|j: int| 0 <= j < i ==> v@[j] != '/' && v@[j] != '\\' && v@[j] != '\0',
        decreases v@.len() - i,
    {
        if v[i] == '/' || v[i] == '\\' || v[i] == '\0' {
            proof {
                assert(filename@.contains(v@[i as int]));
            }
            return Err(DownloadError::InvalidFilename);
        }
        i = i + 1;
    }
    if v.len() == 0 || same(filename, ".") || same(filename, "..") {
        return Err(DownloadError::InvalidFilename);
    }
    Ok(())
}

/// The name that the `n`-th attempt to publish a file uses: the file's own
/// name first, then numbered names.
pub open spec fn candidate(name: Seq<char>, n: nat) -> Seq<char> {
    if n == 0 {
        name
    } else {
        paths::stem(name) + " ("@ + text::digits(n, 10) + ")"@ + (match paths::extension(name) {
            Some(e) => "."@ + e,
            None => Seq::empty(),
        })
    }
}

/// A download that is being published under its name.
#[derive(Debug, PartialEq, Eq)]
pub struct Download {
    directory: String,
    filename: String,
    unique: bool,
    suffix: u32,
}

/// What an attempt to publish a file came to.
#[derive(Debug, Clone, Copy, PartialEq, Eq, Structural)]
pub enum Attempt {
    Published,
    NameTaken,
    Failed,
}

/// What follows an attempt to publish a file.
#[derive(Debug, PartialEq, Eq)]
pub enum Next {
    /// The file stands at this path.
    Done(String),
    /// Try again under the next name.
    Again(Download),
    /// Nothing more can be done.
    Stop(DownloadError),
}

impl Download {
    /// The directory of the file.
    pub closed spec fn dir(&self) -> Seq<char> {
        self.directory@
    }

    /// The name that the file was announced under.
    pub closed spec fn name(&self) -> Seq<char> {
        self.filename@
    }

    /// Whether the file must not replace another.
    pub closed spec fn is_unique(&self) -> bool {
        self.unique
    }

    /// How many names were taken so far.
    pub closed spec fn tried(&self) -> nat {
        self.suffix as nat
    }

    /// The name is valid, and only a file that must not replace another moves
    /// on to further names.
    pub open spec fn wf(&self) -> bool {
        &&& valid_name(self.name())
        &&& !self.is_unique() ==> self.tried() == 0
        &&& self.tried() <= u32::MAX
    }

    /// A download into the directory. With `unique` it takes a free name;
    /// without, it replaces the file of that name.
    pub fn new(directory: &str, filename: &str, unique: bool) -> (r: Result<Download, DownloadError>)
        ensures
            r is Ok <==> valid_name(filename@),
            r is Err ==> r->Err_0 == DownloadError::InvalidFilename,
            r is Ok ==> {
                let d = r->Ok_0;
                d.wf() && d.dir() == directory@ && d.name() == filename@ && d.is_unique() == unique
                    && d.tried() == 0
            },
    {
        match validate_filename(filename) {
            Ok(_) => Ok(
                Download {
                    directory: directory.to_owned(),
                    filename: filename.to_owned(),
                    unique,
                    suffix: 0,
                },
            ),
            Err(e) => Err(e),
        }
    }

    /// The path to publish the file at now.
    pub fn path(&self) -> (r: String)
        requires
            self.wf(),
        ensures
            r@ == paths::joined(self.dir(), candidate(self.name(), self.tried())),
    {
        if self.suffix == 0 {
            return join_path(&self.directory, &self.filename);
        }
        let (head, ext) = split_extension(&self.filename);
        let number = digits_text(self.suffix as u128, 10);
        let mut name = head;
        name.append(" (");
        name.append(&number);
        name.append(")");
        match ext {
            Some(e) => {
                let ghost before = name@;
                name.append(".");
                name.append(&e);
                proof {
                    assert(name@ =~= before + ("."@ + e@));
                }
            },
            None => {
                proof {
                    assert(name@ + Seq::<char>::empty() =~= name@);
                }
            },
        }
        join_path(&self.directory, &name)
    }

    /// Goes on after an attempt to publish the file at `path`. A taken name
    /// leads to the next one, where the file may not replace another.
    pub fn finish(self, attempt: Attempt) -> (r: Next)
        requires
            self.wf(),
        ensures
            attempt == Attempt::Published ==> (r matches Next::Done(p) && p@ == paths::joined(
                self.dir(),
                candidate(self.name(), self.tried()),
            )),
            attempt == Attempt::NameTaken && self.is_unique() && self.tried() < u32::MAX ==> (
            r matches Next::Again(d) && d.wf() && d.dir() == self.dir() && d.name() == self.name()
                && d.is_unique() && d.tried() == self.tried() + 1),
            attempt == Attempt::NameTaken && self.is_unique() && self.tried() == u32::MAX ==> (
            r matches Next::Stop(e) && e == DownloadError::NoAvailableName),
            attempt == Attempt::NameTaken && !self.is_unique() ==> (r matches Next::Stop(e) && e
                == DownloadError::WriteFailed),
            attempt == Attempt::Failed ==> (r matches Next::Stop(e) && e == DownloadError::WriteFailed),
    {
        match attempt {
            Attempt::Published => Next::Done(self.path()),
            Attempt::NameTaken => {
                if !self.unique {
                    Next::Stop(DownloadError::WriteFailed)
                } else if self.suffix == u32::MAX {
                    Next::Stop(DownloadError::NoAvailableName)
                } else {
                    Next::Again(Download { suffix: self.suffix + 1, ..self })
                }
            },
            Attempt::Failed => Next::Stop(DownloadError::WriteFailed),
        }
    }
}

proof fn lemma_digits_injective(a: nat, b: nat)
    requires
        text::digits(a, 10) == text::digits(b, 10),
    ensures
        a == b,
    decreases a,
{
    let da = text::digits(a, 10);
    let db = text::digits(b, 10);
    lemma_digits_len(a);
    lemma_digits_len(b);
    assert(da.last() == text::digit((a % 10) as int));
    assert(db.last() == text::digit((b % 10) as int));
    assert(a % 10 == b % 10);
    if a >= 10 && b >= 10 {
        assert(da.drop_last() =~= text::digits(a / 10, 10));
        assert(db.drop_last() =~= text::digits(b / 10, 10));
        lemma_digits_injective(a / 10, b / 10);
    } else if a >= 10 {
        lemma_digits_len(a / 10);
    } else if b >= 10 {
        lemma_digits_len(b / 10);
    }
}

proof fn lemma_digits_len(a: nat)
    ensures
        text::digits(a, 10).len() >= 1,
        forall|i: int|
            0 <= i < text::digits(a, 10).len() ==> '0' <= #[trigger] text::digits(a, 10)[i] <= '9',
    decreases a,
{
    if a >= 10 {
        lemma_digits_len(a / 10);
    }
}

/// No two attempts use the same name, so a file is never published over
/// another of its own attempts and the search for a free name always moves on.
pub proof fn lemma_candidates_differ(name: Seq<char>, a: nat, b: nat)
    requires
        a != b,
    ensures
        candidate(name, a) != candidate(name, b),
{
    reveal_strlit(" (");
    reveal_strlit(")");
    reveal_strlit(".");
    lemma_digits_len(a);
    lemma_digits_len(b);
    let tail = match paths::extension(name) {
        Some(e) => "."@ + e,
        None => Seq::empty(),
    };
    paths::lemma_last_dot(name);
    assert(paths::stem(name).len() + tail.len() == name.len()) by {
        if paths::has_extension(name) {
            assert(tail.len() == 1 + name.skip(paths::last_dot(name) + 1).len());
        }
    }
    if a > 0 && b > 0 && candidate(name, a) == candidate(name, b) {
        let da = text::digits(a, 10);
        let db = text::digits(b, 10);
        let n = paths::stem(name).len() as int;
        assert(candidate(name, a).len() == n + 2 + da.len() + 1 + tail.len());
        assert(candidate(name, b).len() == n + 2 + db.len() + 1 + tail.len());
        assert(candidate(name, a).subrange(n + 2, n + 2 + da.len()) =~= da);
        assert(candidate(name, b).subrange(n + 2, n + 2 + db.len()) =~= db);
        lemma_digits_injective(a, b);
    }
}

/// Every name that a valid file name leads to is valid: numbering never leaves
/// the directory.
pub proof fn lemma_candidates_are_valid(name: Seq<char>, n: nat)
    requires
        valid_name(name),
    ensures
        valid_name(candidate(name, n)),
{
    if n > 0 {
        reveal_strlit(" (");
        reveal_strlit(")");
        reveal_strlit(".");
        reveal_strlit("..");
        lemma_digits_len(n);
        paths::lemma_last_dot(name);
        let c = candidate(name, n);
        let d = text::digits(n, 10);
        let st = paths::stem(name);
        let tail = match paths::extension(name) {
            Some(e) => "."@ + e,
            None => Seq::empty(),
        };
        assert(c.len() >= 3);
        assert forall|i: int| 0 <= i < c.len() implies c[i] != '/' && c[i] != '\\' && c[i] != '\0' by {
            if i < st.len() {
                assert(c[i] == st[i] && st[i] == name[i]);
                assert(name.contains(name[i]));
            } else if i < st.len() + 2 {
                assert(c[i] == " ("@[i - st.len()]);
            } else if i < st.len() + 2 + d.len() {
                assert(c[i] == d[i - st.len() - 2]);
            } else if i == st.len() + 2 + d.len() {
                assert(c[i] == ')');
            } else {
                let k = i - st.len() - 3 - d.len();
                assert(c[i] == tail[k]);
                if k > 0 {
                    assert(tail[k] == name[paths::last_dot(name) + k]);
                    assert(name.contains(name[paths::last_dot(name) + k]));
                }
            }
        }
    }
}

/// The first attempt uses the name of the file. Later ones put their number in
/// brackets behind it, before the extension where there is one.
pub proof fn lemma_numbered_names(head: Seq<char>, ext: Seq<char>, n: nat)
    requires
        !ext.contains('.'),
        head.len() > 0,
        head.push('.') + ext != ".."@,
        n > 0,
    ensures
        candidate(head, 0) == head,
        candidate(head.push('.') + ext, n) == head + " ("@ + text::digits(n, 10) + ")"@ + ("."@
            + ext),
        candidate(ext, n) == ext + " ("@ + text::digits(n, 10) + ")"@,
{
    paths::lemma_names_split_at_the_last_dot(head, ext);
    assert(ext + " ("@ + text::digits(n, 10) + ")"@ + Seq::<char>::empty() =~= ext + " ("@
        + text::digits(n, 10) + ")"@);
}

} // verus!
