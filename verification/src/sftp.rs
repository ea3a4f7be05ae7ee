//! Browsing the files of a phone through a mounted share.

use vstd::prelude::*;

use crate::device;
use crate::device::is_id_char;
use crate::paths;
use crate::paths::join_path;
use crate::table::TextMap;
use crate::text;
use crate::text::{
    chars_of, digits_text, from_utf8_lossy, is_alphanumeric, join2, lines_of, same,
    starts_with, text_of_range, trim, words_of,
};

verus! {

/// Login information that a phone sends when it has started its file server.
#[derive(Debug, PartialEq, Eq)]
pub struct SftpInfo {
    pub ip: String,
    pub port: u16,
    pub user: String,
    pub password: String,
    pub path: Option<String>,
    pub multi_paths: Option<Vec<String>>,
}

/// Why browsing cannot start, in terms that the user can act on.
#[derive(Debug, Clone, Copy, PartialEq, Eq, Structural)]
pub enum BrowsePreflightError {
    /// `sshfs` is not on the host.
    SshfsMissing,
    /// The host cannot be reached out of the sandbox.
    FlatpakSpawnUnavailable,
}

impl BrowsePreflightError {
    /// The wording of the error.
    pub open spec fn wording(self) -> Seq<char> {
        match self {
            BrowsePreflightError::SshfsMissing => "sshfs is not installed on this system. Install it (e.g. `sudo apt install sshfs` or `sudo dnf install fuse-sshfs`) to browse device files."@,
            BrowsePreflightError::FlatpakSpawnUnavailable => "Can't reach the host to mount the device. Check that this app's \"org.freedesktop.Flatpak\" permission hasn't been revoked (e.g. in Flatseal)."@,
        }
    }

    /// The message shown for the error.
    pub fn message(&self) -> (r: String)
        ensures
            r@ == self.wording(),
            *self is SshfsMissing ==> r@ == "sshfs is not installed on this system. Install it (e.g. `sudo apt install sshfs` or `sudo dnf install fuse-sshfs`) to browse device files."@,
            *self is FlatpakSpawnUnavailable ==> r@ == "Can't reach the host to mount the device. Check that this app's \"org.freedesktop.Flatpak\" permission hasn't been revoked (e.g. in Flatseal)."@,
    {
        match self {
            BrowsePreflightError::SshfsMissing => "sshfs is not installed on this system. Install it (e.g. `sudo apt install sshfs` or `sudo dnf install fuse-sshfs`) to browse device files.".to_owned(),
            BrowsePreflightError::FlatpakSpawnUnavailable => "Can't reach the host to mount the device. Check that this app's \"org.freedesktop.Flatpak\" permission hasn't been revoked (e.g. in Flatseal).".to_owned(),
        }
    }
}

/// Whether browsing can start. `passed` remembers an earlier success; the other
/// answers count only where it is not set, and `reachable` only in a sandbox.
pub fn preflight(passed: bool, in_flatpak: bool, reachable: bool, has_sshfs: bool) -> (r: Result<
    (),
    BrowsePreflightError,
>)
    ensures
        r is Ok <==> passed || ((in_flatpak ==> reachable) && has_sshfs),
        r is Err ==> r->Err_0 == (if in_flatpak && !reachable {
            BrowsePreflightError::FlatpakSpawnUnavailable
        } else {
            BrowsePreflightError::SshfsMissing
        }),
{
    if passed {
        return Ok(());
    }
    if in_flatpak && !reachable {
        return Err(BrowsePreflightError::FlatpakSpawnUnavailable);
    }
    if !has_sshfs {
        return Err(BrowsePreflightError::SshfsMissing);
    }
    Ok(())
}

/// The command line that runs a program on the host.
pub fn host_command(in_flatpak: bool, program: &str) -> (r: Vec<String>)
    ensures
        r.deep_view() == (if in_flatpak {
            seq!["flatpak-spawn"@, "--host"@, program@]
        } else {
            seq![program@]
        }),
{
    let mut r: Vec<String> = Vec::new();
    if in_flatpak {
        r.push("flatpak-spawn".to_owned());
        r.push("--host".to_owned());
    }
    r.push(program.to_owned());
    proof {
        if in_flatpak {
            assert(r.deep_view() =~= seq!["flatpak-spawn"@, "--host"@, program@]);
        } else {
            assert(r.deep_view() =~= seq![program@]);
        }
    }
    r
}

/// The directory below which shares are mounted.
pub open spec fn base_dir(home: Option<Seq<char>>) -> Seq<char> {
    paths::joined(
        if home is Some {
            home->0
        } else {
            "/tmp"@
        },
        "KDE Connect"@,
    )
}

/// The directory below which shares are mounted: a visible one, so that file
/// managers list what is in it.
pub fn mounts_base_dir(home: Option<String>) -> (r: String)
    ensures
        r@ == base_dir(home.deep_view()),
        home is Some ==> r@ == paths::joined(home->0@, "KDE Connect"@),
        home is None ==> r@ == paths::joined("/tmp"@, "KDE Connect"@),
{
    match home {
        Some(h) => join_path(&h, "KDE Connect"),
        None => join_path("/tmp", "KDE Connect"),
    }
}

/// Where earlier versions mounted the share of a device.
pub open spec fn legacy_point(runtime_dir: Option<Seq<char>>, device: Seq<char>) -> Seq<char> {
    paths::joined(
        paths::joined(
            if runtime_dir is Some {
                runtime_dir->0
            } else {
                "/tmp"@
            },
            "kdeconnect-sftp"@,
        ),
        device,
    )
}

/// Where earlier versions mounted the share of the device.
pub fn legacy_mount_point(runtime_dir: Option<String>, device_id: &str) -> (r: String)
    ensures
        r@ == legacy_point(runtime_dir.deep_view(), device_id@),
        runtime_dir is Some ==> r@ == paths::joined(
            paths::joined(runtime_dir->0@, "kdeconnect-sftp"@),
            device_id@,
        ),
        runtime_dir is None ==> r@ == paths::joined(
            paths::joined("/tmp"@, "kdeconnect-sftp"@),
            device_id@,
        ),
{
    let base = match runtime_dir {
        Some(d) => join_path(&d, "kdeconnect-sftp"),
        None => join_path("/tmp", "kdeconnect-sftp"),
    };
    join_path(&base, device_id)
}

/// The characters of a device name that stay in a directory name.
pub open spec fn label_char(c: char) -> char {
    if text::alphanumeric(c) || c == ' ' || c == '-' || c == '_' || c == '.' {
        c
    } else {
        '-'
    }
}

/// A text without leading dots.
pub open spec fn undotted_start(s: Seq<char>) -> Seq<char>
    decreases s.len(),
{
    if s.len() > 0 && s[0] == '.' {
        undotted_start(s.skip(1))
    } else {
        s
    }
}

/// A text without trailing dots.
pub open spec fn undotted_end(s: Seq<char>) -> Seq<char>
    decreases s.len(),
{
    if s.len() > 0 && s.last() == '.' {
        undotted_end(s.drop_last())
    } else {
        s
    }
}

/// A device name made fit for a directory name.
pub open spec fn cleaned(name: Seq<char>) -> Seq<char> {
    undotted_end(undotted_start(text::trimmed(name.map_values(|c: char| label_char(c)))))
}

/// How many bytes of an identifier stand in a directory name.
pub open spec fn short_len(id: Seq<char>) -> int {
    let n = vstd::utf8::encode_utf8(id).len();
    if n < 8 {
        n as int
    } else {
        8
    }
}

/// An identifier that can be cut after eight bytes.
pub open spec fn cuttable(id: Seq<char>) -> bool {
    vstd::utf8::is_char_boundary(vstd::utf8::encode_utf8(id), short_len(id))
}

/// A device has a label: something of its name is left, or its identifier can
/// be cut.
pub open spec fn has_label(id: Seq<char>, name: Seq<char>) -> bool {
    cleaned(name).len() == 0 ==> cuttable(id)
}

/// The label of a device's share: its name, or a part of its identifier where
/// nothing of the name is left.
pub open spec fn label(id: Seq<char>, name: Seq<char>) -> Seq<char> {
    if cleaned(name).len() > 0 {
        cleaned(name)
    } else {
        "device-"@ + vstd::utf8::decode_utf8(vstd::utf8::encode_utf8(id).take(short_len(id)))
    }
}

/// A name that can stand as a directory name as it is, is the label.
pub proof fn lemma_plain_names_are_labels(id: Seq<char>, name: Seq<char>)
    requires
        name.len() > 0,
        forall|i: int| 0 <= i < name.len() ==> plain_char(#[trigger] name[i]),
        !text::is_space(name[0]),
        !text::is_space(name.last()),
        name[0] != '.',
        name.last() != '.',
    ensures
        label(id, name) == name,
{
    assert(name.map_values(|c: char| label_char(c)) =~= name);
}

fn undot(s: &str) -> (r: String)
    ensures
        r@ == undotted_end(undotted_start(s@)),
{
    let v = chars_of(s);
    let mut i: usize = 0;
    proof {
        assert(v@.skip(0) == v@);
    }
    while i < v.len() && v[i] == '.'
        invariant
            i <= v@.len(),
            undotted_start(v@.skip(i as int)) == undotted_start(v@),
        decreases v@.len() - i,
    {
        proof {
            assert(v@.skip(i as int).skip(1) == v@.skip(i + 1));
        }
        i = i + 1;
    }
    let mut j: usize = v.len();
    let ghost rest = undotted_start(v@);
    proof {
        assert(v@.subrange(i as int, j as int) == v@.skip(i as int));
    }
    while i < j && v[j - 1] == '.'
        invariant
            i <= j <= v@.len(),
            undotted_end(v@.subrange(i as int, j as int)) == undotted_end(rest),
        decreases j,
    {
        proof {
            assert(v@.subrange(i as int, j as int).drop_last() == v@.subrange(i as int, j - 1));
            assert(v@.subrange(i as int, j as int).last() == v@[j - 1]);
        }
        j = j - 1;
    }
    proof {
        if i < j {
            assert(v@.subrange(i as int, j as int).last() == v@[j - 1]);
        }
    }
    text_of_range(&v, i, j)
}

/// The label under which the share of a device is mounted. The name comes from
/// the network, so nothing in it may lead out of the directory.
pub fn sanitize_name(device_id: &str, device_name: &str) -> (r: String)
    requires
        has_label(device_id@, device_name@),
    ensures
        r@ == label(device_id@, device_name@),
{
    broadcast use vstd::utf8::group_utf8_lib;

    let v = chars_of(device_name);
    let mut s = String::new();
    let mut i: usize = 0;
    while i < v.len()
        invariant
            i <= v@.len(),
            s@ == v@.take(i as int).map_values(|c: char| label_char(c)),
        decreases v@.len() - i,
    {
        let c = v[i];
        let ghost before = s@;
        s.push(
            if is_alphanumeric(c) || c == ' ' || c == '-' || c == '_' || c == '.' {
                c
            } else {
                '-'
            },
        );
        proof {
            assert(v@.take(i + 1).map_values(|c: char| label_char(c)) =~= before.push(
                label_char(c),
            ));
        }
        i = i + 1;
    }
    proof {
        assert(v@.take(i as int) == v@);
    }
    let clean = undot(&trim(&s));
    if !clean.as_str().is_empty() {
        return clean;
    }
    let bytes = device_id.as_bytes();
    let n: usize = if bytes.len() < 8 {
        bytes.len()
    } else {
        8
    };
    let parts = device_id.split_at(n);
    proof {
        let b = vstd::utf8::encode_utf8(device_id@);
        assert(b.subrange(0, n as int) == b.take(n as int));
        assert(vstd::utf8::decode_utf8(vstd::utf8::encode_utf8(parts.0@)) == parts.0@);
    }
    join2("device-", parts.0)
}

/// A character that may stand in a label.
pub open spec fn plain_char(c: char) -> bool {
    text::alphanumeric(c) || c == ' ' || c == '-' || c == '_' || c == '.'
}

/// A text that names something in a directory and nothing outside it: it is not
/// empty, is made of plain characters, so holds no separator, and neither begins
/// nor ends with a dot.
pub open spec fn stays_inside(s: Seq<char>) -> bool {
    &&& s.len() > 0
    &&& forall|i: int| 0 <= i < s.len() ==> plain_char(#[trigger] s[i])
    &&& !s.contains('/')
    &&& !s.contains('\\')
    &&& !s.contains('\0')
    &&& s[0] != '.'
    &&& s.last() != '.'
}

proof fn lemma_cleaned(name: Seq<char>)
    requires
        cleaned(name).len() > 0,
    ensures
        stays_inside(cleaned(name)),
{
    let m = name.map_values(|c: char| label_char(c));
    lemma_trimmed_part(m);
    let t = text::trimmed(m);
    lemma_undotted(t);
    let c = cleaned(name);
    assert forall|i: int| 0 <= i < c.len() implies plain_char(#[trigger] c[i]) by {
        assert(t.contains(c[i]));
        let j = choose|j: int| 0 <= j < t.len() && t[j] == c[i];
        assert(m.contains(t[j]));
        let k = choose|k: int| 0 <= k < m.len() && m[k] == t[j];
        assert(m[k] == label_char(name[k]));
    }
}

proof fn lemma_short_id(id: Seq<char>)
    requires
        device::valid_id(id),
    ensures
        cuttable(id),
        0 < short_len(id) <= id.len(),
        ({
            let part = vstd::utf8::decode_utf8(vstd::utf8::encode_utf8(id).take(short_len(id)));
            part == id.take(short_len(id)) && 0 < part.len()
        }),
{
    broadcast use vstd::utf8::group_utf8_lib;

    assert(vstd::utf8::is_ascii_chars(id)) by {
        assert forall|i: int| 0 <= i < id.len() implies (#[trigger] id[i]) as nat <= 127 by {
            assert(device::id_char(id[i]));
        }
    }
    vstd::utf8::is_ascii_chars_encode_utf8(id);
    let n = short_len(id);
    let bytes = vstd::utf8::encode_utf8(id);
    if n < bytes.len() {
        assert(device::id_char(id[n]));
        assert(vstd::utf8::is_leading_byte_width_1(bytes[n]));
        vstd::utf8::is_char_boundary_iff_is_leading_byte(bytes, n);
    } else {
        vstd::utf8::is_char_boundary_start_end_of_seq(bytes);
    }
    let head = id.take(n);
    assert(vstd::utf8::is_ascii_chars(head)) by {
        assert forall|i: int| 0 <= i < head.len() implies (#[trigger] head[i]) as nat <= 127 by {
            assert(device::id_char(id[i]));
        }
    }
    vstd::utf8::is_ascii_chars_encode_utf8(head);
    assert(vstd::utf8::encode_utf8(id).take(n) =~= vstd::utf8::encode_utf8(head));
    assert(vstd::utf8::decode_utf8(vstd::utf8::encode_utf8(head)) == head);
}

/// A label never leads out of its directory, whatever the phone is called: it is
/// made of plain characters, holds no separator, and is no name of dots. Where
/// nothing of the name is left, the identifier of the device stands in for it.
pub proof fn lemma_label_stays_inside(id: Seq<char>, name: Seq<char>)
    requires
        device::valid_id(id),
    ensures
        has_label(id, name),
        stays_inside(label(id, name)),
{
    lemma_short_id(id);
    if cleaned(name).len() > 0 {
        lemma_cleaned(name);
    } else {
        reveal_strlit("device-");
        let part = id.take(short_len(id));
        let r = label(id, name);
        assert(r =~= "device-"@ + part);
        assert forall|i: int| 0 <= i < r.len() implies plain_char(#[trigger] r[i]) by {
            if i >= 7 {
                assert(r[i] == id[i - 7]);
                assert(device::id_char(id[i - 7]));
            }
        }
        assert(device::id_char(id[part.len() - 1]));
        assert(r.last() == id[part.len() - 1]);
    }
}

proof fn lemma_trimmed_part(s: Seq<char>)
    ensures
        forall|i: int| 0 <= i < text::trimmed(s).len() ==> s.contains(#[trigger] text::trimmed(s)[i]),
{
    lemma_trimmed_start_part(s);
    lemma_trimmed_end_part(text::trimmed_start(s));
}

proof fn lemma_trimmed_start_part(s: Seq<char>)
    ensures
        forall|i: int|
            0 <= i < text::trimmed_start(s).len() ==> s.contains(#[trigger] text::trimmed_start(s)[i]),
        forall|c: char| text::trimmed_start(s).contains(c) ==> #[trigger] s.contains(c),
    decreases s.len(),
{
    if s.len() > 0 && text::is_space(s[0]) {
        lemma_trimmed_start_part(s.skip(1));
        assert forall|c: char| text::trimmed_start(s).contains(c) implies #[trigger] s.contains(c) by {
            assert(s.skip(1).contains(c));
            let j = choose|j: int| 0 <= j < s.skip(1).len() && s.skip(1)[j] == c;
            assert(s[j + 1] == c);
        }
        assert forall|i: int| 0 <= i < text::trimmed_start(s).len() implies s.contains(
            #[trigger] text::trimmed_start(s)[i],
        ) by {
            assert(text::trimmed_start(s).contains(text::trimmed_start(s)[i]));
        }
    }
}

proof fn lemma_trimmed_end_part(s: Seq<char>)
    ensures
        forall|c: char| text::trimmed_end(s).contains(c) ==> #[trigger] s.contains(c),
        forall|i: int|
            0 <= i < text::trimmed_end(s).len() ==> s.contains(#[trigger] text::trimmed_end(s)[i]),
    decreases s.len(),
{
    if s.len() > 0 && text::is_space(s.last()) {
        lemma_trimmed_end_part(s.drop_last());
        assert forall|c: char| text::trimmed_end(s).contains(c) implies #[trigger] s.contains(c) by {
            assert(s.drop_last().contains(c));
            let j = choose|j: int| 0 <= j < s.drop_last().len() && s.drop_last()[j] == c;
            assert(s[j] == c);
        }
        assert forall|i: int| 0 <= i < text::trimmed_end(s).len() implies s.contains(
            #[trigger] text::trimmed_end(s)[i],
        ) by {
            assert(text::trimmed_end(s).contains(text::trimmed_end(s)[i]));
        }
    }
}

proof fn lemma_undotted(s: Seq<char>)
    ensures
        forall|i: int|
            0 <= i < undotted_end(undotted_start(s)).len() ==> s.contains(
                #[trigger] undotted_end(undotted_start(s))[i],
            ),
        undotted_end(undotted_start(s)).len() > 0 ==> undotted_end(undotted_start(s))[0] != '.'
            && undotted_end(undotted_start(s)).last() != '.',
{
    lemma_undotted_start(s);
    lemma_undotted_end(undotted_start(s));
}

proof fn lemma_undotted_start(s: Seq<char>)
    ensures
        forall|c: char| undotted_start(s).contains(c) ==> #[trigger] s.contains(c),
        undotted_start(s).len() > 0 ==> undotted_start(s)[0] != '.',
    decreases s.len(),
{
    if s.len() > 0 && s[0] == '.' {
        lemma_undotted_start(s.skip(1));
        assert forall|c: char| undotted_start(s).contains(c) implies #[trigger] s.contains(c) by {
            assert(s.skip(1).contains(c));
            let j = choose|j: int| 0 <= j < s.skip(1).len() && s.skip(1)[j] == c;
            assert(s[j + 1] == c);
        }
    }
}

proof fn lemma_undotted_end(s: Seq<char>)
    ensures
        forall|c: char| undotted_end(s).contains(c) ==> #[trigger] s.contains(c),
        forall|i: int| 0 <= i < undotted_end(s).len() ==> s.contains(#[trigger] undotted_end(s)[i]),
        undotted_end(s).len() > 0 ==> undotted_end(s).last() != '.' && undotted_end(s)[0] == s[0],
    decreases s.len(),
{
    if s.len() > 0 && s.last() == '.' {
        lemma_undotted_end(s.drop_last());
        assert forall|c: char| undotted_end(s).contains(c) implies #[trigger] s.contains(c) by {
            assert(s.drop_last().contains(c));
            let j = choose|j: int| 0 <= j < s.drop_last().len() && s.drop_last()[j] == c;
            assert(s[j] == c);
        }
        assert forall|i: int| 0 <= i < undotted_end(s).len() implies s.contains(
            #[trigger] undotted_end(s)[i],
        ) by {
            assert(undotted_end(s).contains(undotted_end(s)[i]));
        }
    }
}

/// The value of three octal digits, or of a `+` and two of them, where it fits
/// a byte.
pub open spec fn octal_byte(a: u8, b: u8, c: u8) -> Option<u8> {
    let lead = if a == 43 {
        0int
    } else {
        a - 48
    };
    let value = 64 * lead + 8 * (b - 48) + (c - 48);
    if 0 <= lead <= 7 && 48 <= b <= 55 && 48 <= c <= 55 && value <= 255 {
        Some(value as u8)
    } else {
        None
    }
}

/// The bytes that an escaped mount path stands for: `\` with an octal number is
/// one byte, and every other byte is itself.
pub open spec fn unescaped(b: Seq<u8>) -> Seq<u8>
    decreases b.len(),
{
    if b.len() == 0 {
        Seq::empty()
    } else if b[0] == 92 && b.len() >= 4 && octal_byte(b[1], b[2], b[3]) is Some {
        seq![octal_byte(b[1], b[2], b[3])->0] + unescaped(b.skip(4))
    } else {
        seq![b[0]] + unescaped(b.skip(1))
    }
}

/// The path that an entry of the mount table stands for.
pub open spec fn unescaped_path(s: Seq<char>) -> Seq<char> {
    text::utf8_lossy(unescaped(vstd::utf8::encode_utf8(s)))
}

/// A path without a backslash stands for itself.
pub proof fn lemma_unescaped_plain(b: Seq<u8>)
    requires
        !b.contains(92),
    ensures
        unescaped(b) == b,
    decreases b.len(),
{
    if b.len() > 0 {
        assert(b.contains(b[0]));
        assert forall|x: u8| b.skip(1).contains(x) implies b.contains(x) by {
            let i = choose|i: int| 0 <= i < b.skip(1).len() && b.skip(1)[i] == x;
            assert(b[i + 1] == x);
        }
        lemma_unescaped_plain(b.skip(1));
        assert(seq![b[0]] + b.skip(1) =~= b);
    }
}

/// The escaping that the kernel applies: blanks and backslashes become octal
/// numbers, every other byte stays.
pub open spec fn escaped(b: Seq<u8>) -> Seq<u8>
    decreases b.len(),
{
    if b.len() == 0 {
        Seq::empty()
    } else {
        (if b[0] == 32 {
            seq![92u8, 48u8, 52u8, 48u8]
        } else if b[0] == 9 {
            seq![92u8, 48u8, 49u8, 49u8]
        } else if b[0] == 10 {
            seq![92u8, 48u8, 49u8, 50u8]
        } else if b[0] == 92 {
            seq![92u8, 49u8, 51u8, 52u8]
        } else {
            seq![b[0]]
        }) + escaped(b.skip(1))
    }
}

/// Unescaping undoes the escaping of the kernel, whatever the bytes of the
/// path.
pub proof fn lemma_unescape_undoes_escape(b: Seq<u8>)
    ensures
        unescaped(escaped(b)) == b,
    decreases b.len(),
{
    if b.len() > 0 {
        let rest = b.skip(1);
        lemma_unescape_undoes_escape(rest);
        let e = escaped(b);
        if b[0] == 32 || b[0] == 9 || b[0] == 10 || b[0] == 92 {
            assert(e.skip(4) =~= escaped(rest));
            assert(octal_byte(e[1], e[2], e[3]) == Some(b[0]));
        } else {
            assert(e.skip(1) =~= escaped(rest));
        }
        assert(seq![b[0]] + rest =~= b);
    }
}

fn octal(a: u8, b: u8, c: u8) -> (r: Option<u8>)
    ensures
        r == octal_byte(a, b, c),
{
    if !(48 <= b && b <= 55 && 48 <= c && c <= 55) {
        return None;
    }
    let lead: u16 = if a == 43 {
        0
    } else if 48 <= a && a <= 55 {
        (a - 48) as u16
    } else {
        return None;
    };
    let value: u16 = 64 * lead + 8 * ((b - 48) as u16) + (c - 48) as u16;
    if value <= 255 {
        Some(value as u8)
    } else {
        None
    }
}

/// Undoes the escaping of a path in the mount table. It works on bytes, since
/// a character may be escaped byte by byte.
pub fn unescape_mount_path(s: &str) -> (r: String)
    ensures
        r@ == unescaped_path(s@),
{
    let bytes = s.as_bytes();
    let mut out: Vec<u8> = Vec::new();
    let mut i: usize = 0;
    proof {
        assert(bytes@.skip(0) == bytes@);
        assert(out@ + unescaped(bytes@) =~= unescaped(bytes@));
    }
    while i < bytes.len()
        invariant
            i <= bytes@.len(),
            out@ + unescaped(bytes@.skip(i as int)) == unescaped(bytes@),
        decreases bytes@.len() - i,
    {
        let ghost rest = bytes@.skip(i as int);
        let ghost done = out@;
        proof {
            assert(rest.skip(1) == bytes@.skip(i + 1));
        }
        if bytes[i] == 92 && bytes.len() - i >= 4 {
            proof {
                assert(rest[1] == bytes@[i + 1] && rest[2] == bytes@[i + 2] && rest[3] == bytes@[i + 3]);
                assert(rest.skip(4) == bytes@.skip(i + 4));
            }
            if let Some(x) = octal(bytes[i + 1], bytes[i + 2], bytes[i + 3]) {
                out.push(x);
                proof {
                    assert(out@ + unescaped(bytes@.skip(i + 4)) =~= done + unescaped(rest));
                }
                i = i + 4;
                continue;
            }
        }
        out.push(bytes[i]);
        proof {
            assert(out@ + unescaped(bytes@.skip(i + 1)) =~= done + unescaped(rest));
        }
        i = i + 1;
    }
    proof {
        assert(bytes@.skip(i as int).len() == 0);
        assert(out@ =~= unescaped(bytes@));
    }
    from_utf8_lossy(&out)
}

/// The mount points among the first lines of a mount table: the second word of
/// each line that has one.
pub open spec fn points(ls: Seq<Seq<char>>) -> Seq<Seq<char>>
    decreases ls.len(),
{
    if ls.len() == 0 {
        Seq::empty()
    } else {
        let before = points(ls.drop_last());
        let w = text::words(ls.last());
        if w.len() >= 2 {
            before.push(unescaped_path(w[1]))
        } else {
            before
        }
    }
}

/// The mount points that a mount table lists.
pub fn host_mount_points(table: &Vec<u8>) -> (r: Vec<String>)
    ensures
        r.deep_view() == points(text::lines(text::utf8_lossy(table@))),
{
    let ls = lines_of(&from_utf8_lossy(table));
    let ghost all = ls.deep_view();
    let mut r: Vec<String> = Vec::new();
    let mut i: usize = 0;
    proof {
        assert(all.take(0) =~= Seq::empty());
        assert(r.deep_view() =~= Seq::<Seq<char>>::empty());
    }
    while i < ls.len()
        invariant
            i <= ls@.len(),
            all == ls.deep_view(),
            r.deep_view() == points(all.take(i as int)),
        decreases ls@.len() - i,
    {
        let ghost before = r.deep_view();
        proof {
            assert(all.take(i + 1).drop_last() == all.take(i as int));
            assert(all.take(i + 1).last() == ls@[i as int]@);
        }
        let w = words_of(&ls[i]);
        if w.len() >= 2 {
            proof {
                assert(w.deep_view()[1] == w@[1]@);
            }
            let p = unescape_mount_path(&w[1]);
            let ghost path = p@;
            r.push(p);
            proof {
                assert(r.deep_view() =~= before.push(path));
            }
        }
        i = i + 1;
    }
    proof {
        assert(all.take(i as int) == all);
    }
    r
}

/// The path stands in the list.
pub open spec fn mounted(mounts: Seq<Seq<char>>, path: Seq<char>) -> bool {
    mounts.contains(path)
}

fn is_mounted(mounts: &Vec<String>, path: &str) -> (r: bool)
    ensures
        r == mounted(mounts.deep_view(), path@),
{
    let mut i: usize = 0;
    let ghost all = mounts.deep_view();
    while i < mounts.len()
        invariant
            i <= mounts@.len(),
            all == mounts.deep_view(),
            forall|j: int| 0 <= j < i ==> all[j] != path@,
        decreases mounts@.len() - i,
    {
        proof {
            assert(all[i as int] == mounts@[i as int]@);
        }
        if same(&mounts[i], path) {
            return true;
        }
        i = i + 1;
    }
    false
}

/// The shares that this process has mounted or taken over: the mount point of
/// each device.
#[derive(Debug)]
pub struct Mounts {
    base: String,
    points: TextMap<String>,
}

/// Whether the point belongs to another device.
pub open spec fn taken(m: Map<Seq<char>, Seq<char>>, device: Seq<char>, point: Seq<char>) -> bool {
    exists|d: Seq<char>| #[trigger] m.contains_key(d) && d != device && m[d] == point
}

/// Where the share of a device is or will be mounted.
pub open spec fn point_for(
    base: Seq<char>,
    m: Map<Seq<char>, Seq<char>>,
    device: Seq<char>,
    name: Seq<char>,
) -> Seq<char> {
    let plain = paths::joined(base, label(device, name));
    if m.contains_key(device) {
        m[device]
    } else if taken(m, device, plain) {
        paths::joined(
            base,
            label(device, name) + " ("@ + (if device.len() < 6 {
                device
            } else {
                device.take(6)
            }) + ")"@,
        )
    } else {
        plain
    }
}

impl Mounts {
    /// The mount points by device.
    pub closed spec fn by_device(&self) -> Map<Seq<char>, Seq<char>> {
        self.points@
    }

    /// The entries in the order in which they came.
    pub closed spec fn list(&self) -> Seq<(String, String)> {
        self.points.list()
    }

    /// The directory below which shares are mounted.
    pub closed spec fn dir(&self) -> Seq<char> {
        self.base@
    }

    /// Each device has one mount point.
    pub closed spec fn wf(&self) -> bool {
        self.points.wf()
    }

    /// Nothing mounted, with the home directory of the user.
    pub fn new(home: Option<String>) -> (r: Mounts)
        ensures
            r.wf(),
            r.by_device() == Map::<Seq<char>, Seq<char>>::empty(),
            r.dir() == base_dir(home.deep_view()),
            home is Some ==> r.dir() == paths::joined(home->0@, "KDE Connect"@),
            home is None ==> r.dir() == paths::joined("/tmp"@, "KDE Connect"@),
    {
        Mounts { base: mounts_base_dir(home), points: TextMap::new() }
    }

    fn is_taken(&self, device_id: &str, point: &str) -> (r: bool)
        requires
            self.wf(),
        ensures
            r == taken(self.by_device(), device_id@, point@),
    {
        proof {
            self.points.lemma_list();
        }
        let ghost list = self.points.list();
        let mut i: usize = 0;
        while i < self.points.len()
            invariant
                i <= list.len(),
                list == self.points.list(),
                forall|j: int|
                    0 <= j < i ==> (#[trigger] list[j]).0@ == device_id@ || list[j].1@ != point@,
                forall|n: int|
                    0 <= n < list.len() ==> {
                        &&& self.by_device().contains_key((#[trigger] list[n]).0@)
                        &&& self.by_device()[list[n].0@] == list[n].1@
                    },
            decreases list.len() - i,
        {
            let d = self.points.key_at(i);
            let p = self.points.value_at(i);
            if !same(d, device_id) && same(p, point) {
                proof {
                    assert(self.by_device().contains_key(list[i as int].0@));
                }
                return true;
            }
            i = i + 1;
        }
        proof {
            if taken(self.by_device(), device_id@, point@) {
                let d = choose|d: Seq<char>| #[trigger]
                    self.by_device().contains_key(d) && d != device_id@ && self.by_device()[d]
                        == point@;
                let j = choose|j: int| 0 <= j < list.len() && (#[trigger] list[j]).0@ == d;
                assert(list[j].1@ == point@);
            }
        }
        false
    }

    /// Where the share of the device is or will be mounted. Two devices of one
    /// name get different mount points.
    pub fn mount_point_for(&self, device_id: &str, device_name: &str) -> (r: String)
        requires
            self.wf(),
            self.by_device().contains_key(device_id@) || has_label(device_id@, device_name@),
        ensures
            r@ == point_for(self.dir(), self.by_device(), device_id@, device_name@),
    {
        if let Some(p) = self.points.get(device_id) {
            return p.clone();
        }
        let name = sanitize_name(device_id, device_name);
        let plain = join_path(&self.base, &name);
        if !self.is_taken(device_id, &plain) {
            return plain;
        }
        let v = chars_of(device_id);
        let n: usize = if v.len() < 6 {
            v.len()
        } else {
            6
        };
        let suffix = text_of_range(&v, 0, n);
        proof {
            assert(suffix@ =~= (if device_id@.len() < 6 {
                device_id@
            } else {
                device_id@.take(6)
            }));
        }
        let mut full = name;
        full.append(" (");
        full.append(&suffix);
        full.append(")");
        join_path(&self.base, &full)
    }

    /// Remembers the mount point of a device.
    pub fn register_mount(&mut self, device_id: &str, mount_point: &str)
        requires
            old(self).wf(),
        ensures
            final(self).wf(),
            final(self).dir() == old(self).dir(),
            final(self).by_device() == old(self).by_device().insert(device_id@, mount_point@),
    {
        self.points.insert(device_id.to_owned(), mount_point.to_owned());
    }

    /// Forgets the mount point of a device.
    pub fn unregister_mount(&mut self, device_id: &str)
        requires
            old(self).wf(),
        ensures
            final(self).wf(),
            final(self).dir() == old(self).dir(),
            final(self).by_device() == old(self).by_device().remove(device_id@),
    {
        self.points.remove(device_id);
    }

    /// The devices whose share is mounted, among those given by identifier and
    /// name, and the mount points that exist.
    pub fn mounted_devices(&self, devices: &Vec<(String, String)>, mounts: &Vec<String>) -> (r: Vec<
        String,
    >)
        requires
            self.wf(),
            forall|i: int|
                0 <= i < devices@.len() ==> self.by_device().contains_key(
                    (#[trigger] devices@[i]).0@,
                ) || has_label(devices@[i].0@, devices@[i].1@),
        ensures
            r@ == devices@.filter(
                |d: (String, String)|
                    mounted(
                        mounts.deep_view(),
                        point_for(self.dir(), self.by_device(), d.0@, d.1@),
                    ),
            ).map_values(|d: (String, String)| d.0),
    {
        let mut r: Vec<String> = Vec::new();
        let ghost keep = |d: (String, String)|
            mounted(mounts.deep_view(), point_for(self.dir(), self.by_device(), d.0@, d.1@));
        let ghost id = |d: (String, String)| d.0;
        let mut i: usize = 0;
        while i < devices.len()
            invariant
                i <= devices@.len(),
                self.wf(),
                forall|i: int|
                    0 <= i < devices@.len() ==> self.by_device().contains_key(
                        (#[trigger] devices@[i]).0@,
                    ) || has_label(devices@[i].0@, devices@[i].1@),
                keep == (|d: (String, String)|
                    mounted(
                        mounts.deep_view(),
                        point_for(self.dir(), self.by_device(), d.0@, d.1@),
                    )),
                id == (|d: (String, String)| d.0),
                r@ == devices@.take(i as int).filter(keep).map_values(id),
            decreases devices@.len() - i,
        {
            let ghost done = devices@.take(i as int);
            proof {
                assert(devices@.take(i + 1) == done.push(devices@[i as int]));
                done.lemma_filter_push(devices@[i as int], keep);
            }
            let p = self.mount_point_for(&devices[i].0, &devices[i].1);
            if is_mounted(mounts, &p) {
                r.push(devices[i].0.clone());
                proof {
                    assert(done.filter(keep).push(devices@[i as int]).map_values(id) =~= r@);
                }
            }
            i = i + 1;
        }
        proof {
            assert(devices@.take(i as int) == devices@);
        }
        r
    }

    /// What to unmount when the process ends: every remembered device with its
    /// mount point, and whether it is mounted. Nothing stays remembered.
    pub fn shutdown(&mut self, mounts: &Vec<String>) -> (r: Vec<(String, String, bool)>)
        requires
            old(self).wf(),
        ensures
            final(self).wf(),
            final(self).dir() == old(self).dir(),
            final(self).by_device() == Map::<Seq<char>, Seq<char>>::empty(),
            r@.len() == old(self).list().len(),
            forall|i: int|
                0 <= i < r@.len() ==> {
                    &&& (#[trigger] r@[i]).0 == old(self).list()[i].0
                    &&& r@[i].1 == old(self).list()[i].1
                    &&& r@[i].2 == mounted(mounts.deep_view(), r@[i].1@)
                },
            forall|d: Seq<char>|
                old(self).by_device().contains_key(d) <==> crate::table::has(old(self).list(), d),
    {
        proof {
            self.points.lemma_list();
        }
        let mut r: Vec<(String, String, bool)> = Vec::new();
        let mut i: usize = 0;
        while i < self.points.len()
            invariant
                i <= self.list().len(),
                *self == *old(self),
                r@.len() == i,
                forall|j: int|
                    0 <= j < i ==> {
                        &&& (#[trigger] r@[j]).0 == self.list()[j].0
                        &&& r@[j].1 == self.list()[j].1
                        &&& r@[j].2 == mounted(mounts.deep_view(), r@[j].1@)
                    },
            decreases self.list().len() - i,
        {
            let d = self.points.key_at(i).clone();
            let p = self.points.value_at(i).clone();
            let live = is_mounted(mounts, &p);
            r.push((d, p, live));
            i = i + 1;
        }
        self.points = TextMap::new();
        r
    }
}

/// A device keeps the mount point it has; one without gets the directory of its
/// label, as long as no other device is mounted there.
pub proof fn lemma_points_are_kept(
    base: Seq<char>,
    m: Map<Seq<char>, Seq<char>>,
    device: Seq<char>,
    name: Seq<char>,
)
    ensures
        m.contains_key(device) ==> point_for(base, m, device, name) == m[device],
        !m.contains_key(device) && (forall|d: Seq<char>| #[trigger]
            m.contains_key(d) ==> m[d] != paths::joined(base, label(device, name))) ==> point_for(
            base,
            m,
            device,
            name,
        ) == paths::joined(base, label(device, name)),
{
}

/// Two devices do not share a mount point: where the plain one of a device is
/// taken by another, it gets one that carries its identifier.
pub proof fn lemma_taken_point_is_avoided(
    base: Seq<char>,
    m: Map<Seq<char>, Seq<char>>,
    device: Seq<char>,
    name: Seq<char>,
)
    requires
        !m.contains_key(device),
        taken(m, device, paths::joined(base, label(device, name))),
    ensures
        point_for(base, m, device, name) != paths::joined(base, label(device, name)),
{
    reveal_strlit(" (");
    reveal_strlit(")");
    reveal_strlit("/");
    let l = label(device, name);
    let long = l + " ("@ + (if device.len() < 6 {
        device
    } else {
        device.take(6)
    }) + ")"@;
    assert(long.len() > l.len());
    assert(text::begins(l, "/"@) <==> text::begins(long, "/"@)) by {
        if l.len() > 0 {
            assert(long[0] == l[0]);
            assert(l.take(1) =~= long.take(1));
        } else {
            assert(long[0] == ' ');
            assert(long.take(1)[0] == ' ');
        }
    }
    assert(paths::joined(base, long).len() > paths::joined(base, l).len());
}

/// What unmounting the share of a device comes to: the mount points to take
/// down, in order. The share counts as unmounted when there was one.
pub fn unmount_plan(mounts: &Vec<String>, legacy: &str, point: &str) -> (r: Vec<String>)
    ensures
        r.deep_view() == (if mounted(mounts.deep_view(), legacy@) {
            seq![legacy@]
        } else {
            Seq::empty()
        }) + (if mounted(mounts.deep_view(), point@) {
            seq![point@]
        } else {
            Seq::empty()
        }),
{
    let mut r: Vec<String> = Vec::new();
    if is_mounted(mounts, legacy) {
        r.push(legacy.to_owned());
    }
    if is_mounted(mounts, point) {
        r.push(point.to_owned());
    }
    proof {
        assert(r.deep_view() =~= (if mounted(mounts.deep_view(), legacy@) {
            seq![legacy@]
        } else {
            Seq::empty()
        }) + (if mounted(mounts.deep_view(), point@) {
            seq![point@]
        } else {
            Seq::empty()
        }));
    }
    r
}

/// Whether the share can be opened without asking the phone: it is mounted and
/// answers.
pub fn open_mounted(mounts: &Vec<String>, point: &str, healthy: bool) -> (r: bool)
    ensures
        r == (mounted(mounts.deep_view(), point@) && healthy),
{
    is_mounted(mounts, point) && healthy
}

/// What came of a step of browsing.
#[derive(Debug, PartialEq, Eq)]
pub enum StepOutcome {
    Done,
    Failed(String),
    /// The program could not be started.
    NotStarted(String),
    /// The password could not be handed over.
    PasswordLost(String),
    TimedOut,
}

/// A step of browsing.
#[derive(Debug, PartialEq, Eq)]
pub enum BrowseStep {
    /// Take down the mount of an earlier version, whatever comes of it.
    UnmountLegacy,
    /// See whether the mount answers.
    Probe,
    /// Take down a mount that does not answer, whatever comes of it.
    ForceUnmount,
    /// Make the directory to mount on.
    MakeDirectory,
    /// Mount the share.
    Mount,
    /// Remember the mount point and open it.
    Finish,
    /// Give up with the message, removing the directory where asked to.
    GiveUp { remove_directory: bool, message: String },
}

/// The step after the mount of an earlier version is out of the way.
pub open spec fn second_step(live: bool) -> BrowseStep {
    if live {
        BrowseStep::Probe
    } else {
        BrowseStep::MakeDirectory
    }
}

/// The first step of browsing, given the mount points that exist.
pub open spec fn first_step(mounts: Seq<Seq<char>>, legacy: Seq<char>, point: Seq<char>) -> BrowseStep {
    if mounted(mounts, legacy) {
        BrowseStep::UnmountLegacy
    } else {
        second_step(mounted(mounts, point))
    }
}

fn browse_start(mounts: &Vec<String>, legacy: &str, point: &str) -> (r: BrowseStep)
    ensures
        r == first_step(mounts.deep_view(), legacy@, point@),
{
    if is_mounted(mounts, legacy) {
        BrowseStep::UnmountLegacy
    } else if is_mounted(mounts, point) {
        BrowseStep::Probe
    } else {
        BrowseStep::MakeDirectory
    }
}

/// Whether `next` is what follows `step` with its outcome, where `live` says
/// whether the share was mounted at the start.
pub open spec fn follows(step: BrowseStep, outcome: StepOutcome, live: bool, next: BrowseStep) -> bool {
    match step {
        BrowseStep::UnmountLegacy => next == second_step(live),
        BrowseStep::Probe => next == (if outcome is Done {
            BrowseStep::Finish
        } else {
            BrowseStep::ForceUnmount
        }),
        BrowseStep::ForceUnmount => next == BrowseStep::MakeDirectory,
        BrowseStep::MakeDirectory => match outcome {
            StepOutcome::Done => next == BrowseStep::Mount,
            StepOutcome::Failed(m) => next matches BrowseStep::GiveUp { remove_directory, message }
                && !remove_directory && message@ == text::trimmed(m@),
            StepOutcome::NotStarted(m) => next == (BrowseStep::GiveUp {
                remove_directory: false,
                message: m,
            }),
            StepOutcome::PasswordLost(m) => next == (BrowseStep::GiveUp {
                remove_directory: false,
                message: m,
            }),
            StepOutcome::TimedOut => next matches BrowseStep::GiveUp { remove_directory, message }
                && !remove_directory && message@.len() == 0,
        },
        BrowseStep::Mount => match outcome {
            StepOutcome::Done => next == BrowseStep::Finish,
            StepOutcome::Failed(m) => next matches BrowseStep::GiveUp { remove_directory, message }
                && remove_directory && message@ == "sshfs failed: "@ + text::trimmed(m@),
            StepOutcome::NotStarted(m) => next == (BrowseStep::GiveUp {
                remove_directory: false,
                message: m,
            }),
            StepOutcome::PasswordLost(m) => next == (BrowseStep::GiveUp {
                remove_directory: true,
                message: m,
            }),
            StepOutcome::TimedOut => next matches BrowseStep::GiveUp { remove_directory, message }
                && remove_directory && message@ == "sshfs did not finish mounting within 30s"@,
        },
        BrowseStep::Finish => next == BrowseStep::Finish,
        BrowseStep::GiveUp { remove_directory, message } => next == step,
    }
}

/// The step that follows. A share that answers is opened as it is; one that
/// does not is mounted anew, even where it could not be taken down.
pub fn browse_next(step: BrowseStep, outcome: StepOutcome, live: bool) -> (r: BrowseStep)
    ensures
        follows(step, outcome, live, r),
        step is UnmountLegacy && live ==> r is Probe,
        step is UnmountLegacy && !live ==> r is MakeDirectory,
        step is Probe && outcome is Done ==> r is Finish,
        step is Probe && !(outcome is Done) ==> r is ForceUnmount,
        step is ForceUnmount ==> r is MakeDirectory,
        step is MakeDirectory && outcome is Done ==> r is Mount,
        step is MakeDirectory && !(outcome is Done) ==> r is GiveUp && !r->remove_directory,
        step is Mount && outcome is Done ==> r is Finish,
        step is Mount && !(outcome is Done) ==> r is GiveUp && (r->remove_directory <==> !(outcome
            is NotStarted)),
        step is Finish || step is GiveUp ==> r == step,
        step is Mount ==> (outcome matches StepOutcome::Failed(m) ==> r->message@
            == "sshfs failed: "@ + text::trimmed(m@)),
        step is MakeDirectory ==> (outcome matches StepOutcome::Failed(m) ==> r->message@
            == text::trimmed(m@)),
        step is Mount || step is MakeDirectory ==> (outcome matches StepOutcome::NotStarted(m)
            ==> r->message == m),
        step is Mount || step is MakeDirectory ==> (outcome matches StepOutcome::PasswordLost(m)
            ==> r->message == m),
        step is Mount && outcome is TimedOut ==> r->message@
            == "sshfs did not finish mounting within 30s"@,
        step is MakeDirectory && outcome is TimedOut ==> r->message@.len() == 0,
{
    match step {
        BrowseStep::UnmountLegacy => {
            if live {
                BrowseStep::Probe
            } else {
                BrowseStep::MakeDirectory
            }
        },
        BrowseStep::Probe => match outcome {
            StepOutcome::Done => BrowseStep::Finish,
            _ => BrowseStep::ForceUnmount,
        },
        BrowseStep::ForceUnmount => BrowseStep::MakeDirectory,
        BrowseStep::MakeDirectory => match outcome {
            StepOutcome::Done => BrowseStep::Mount,
            StepOutcome::Failed(m) => BrowseStep::GiveUp {
                remove_directory: false,
                message: trim(&m),
            },
            StepOutcome::NotStarted(m) => BrowseStep::GiveUp { remove_directory: false, message: m },
            StepOutcome::PasswordLost(m) => BrowseStep::GiveUp {
                remove_directory: false,
                message: m,
            },
            StepOutcome::TimedOut => BrowseStep::GiveUp {
                remove_directory: false,
                message: String::new(),
            },
        },
        BrowseStep::Mount => match outcome {
            StepOutcome::Done => BrowseStep::Finish,
            StepOutcome::Failed(m) => BrowseStep::GiveUp {
                remove_directory: true,
                message: join2("sshfs failed: ", &trim(&m)),
            },
            StepOutcome::NotStarted(m) => BrowseStep::GiveUp { remove_directory: false, message: m },
            StepOutcome::PasswordLost(m) => BrowseStep::GiveUp {
                remove_directory: true,
                message: m,
            },
            StepOutcome::TimedOut => BrowseStep::GiveUp {
                remove_directory: true,
                message: "sshfs did not finish mounting within 30s".to_owned(),
            },
        },
        BrowseStep::Finish => BrowseStep::Finish,
        BrowseStep::GiveUp { remove_directory, message } => BrowseStep::GiveUp {
            remove_directory,
            message,
        },
    }
}

/// How far a step is from the end of browsing.
pub open spec fn distance(step: BrowseStep) -> nat {
    match step {
        BrowseStep::UnmountLegacy => 5,
        BrowseStep::Probe => 4,
        BrowseStep::ForceUnmount => 3,
        BrowseStep::MakeDirectory => 2,
        BrowseStep::Mount => 1,
        BrowseStep::Finish => 0,
        BrowseStep::GiveUp { remove_directory, message } => 0,
    }
}

/// Browsing comes to an end: every step that is not the last leads closer to
/// it.
pub proof fn lemma_browsing_ends(step: BrowseStep, outcome: StepOutcome, live: bool, next: BrowseStep)
    requires
        follows(step, outcome, live, next),
        distance(step) > 0,
    ensures
        distance(next) < distance(step),
{
}

/// The identifier of a device without characters that would break an option.
pub open spec fn fs_name(device: Seq<char>) -> Seq<char> {
    device.filter(|c: char| device::id_char(c))
}

/// The path on the phone that is mounted: the first of several, or the only
/// one, or the root.
pub open spec fn remote_path(info: SftpInfo) -> Seq<char> {
    if info.multi_paths is Some && info.multi_paths->0@.len() > 0 {
        info.multi_paths->0@[0]@
    } else if info.path is Some {
        info.path->0@
    } else {
        "/"@
    }
}

/// The arguments with which the share is mounted.
pub open spec fn sshfs_arguments(info: SftpInfo, device: Seq<char>, point: Seq<char>) -> Seq<Seq<char>> {
    seq![
        info.user@ + "@"@ + info.ip@ + ":"@ + remote_path(info),
        point,
        "-p"@,
        text::digits(info.port as nat, 10),
        "-o"@,
        "StrictHostKeyChecking=no"@,
        "-o"@,
        "UserKnownHostsFile=/dev/null"@,
        "-o"@,
        "password_stdin"@,
        "-o"@,
        "ConnectTimeout=10"@,
        "-o"@,
        "reconnect"@,
        "-o"@,
        "ServerAliveInterval=15"@,
        "-o"@,
        "ServerAliveCountMax=3"@,
        "-o"@,
        "auto_cache"@,
        "-o"@,
        "follow_symlinks"@,
        "-o"@,
        "fsname=kdeconnect-"@ + fs_name(device),
    ]
}

fn keep_id_chars(s: &str) -> (r: String)
    ensures
        r@ == fs_name(s@),
{
    let v = chars_of(s);
    let mut r = String::new();
    let ghost keep = |c: char| device::id_char(c);
    let mut i: usize = 0;
    while i < v.len()
        invariant
            i <= v@.len(),
            keep == (|c: char| device::id_char(c)),
            r@ == v@.take(i as int).filter(keep),
        decreases v@.len() - i,
    {
        proof {
            assert(v@.take(i + 1) == v@.take(i as int).push(v@[i as int]));
            v@.take(i as int).lemma_filter_push(v@[i as int], keep);
        }
        if is_id_char(v[i]) {
            r.push(v[i]);
        }
        i = i + 1;
    }
    proof {
        assert(v@.take(i as int) == v@);
    }
    r
}

/// Whether a login may be used. A user name that starts with `-` would be read
/// as an option.
pub open spec fn usable(info: SftpInfo) -> bool {
    !text::begins(info.user@, "-"@)
}

impl SftpInfo {
    fn check_user(&self) -> (r: Result<(), String>)
        ensures
            r is Ok <==> usable(*self),
            r is Err ==> r->Err_0@ == "rejecting sftp user starting with '-': "@ + self.user@,
    {
        if starts_with(&self.user, "-") {
            Err(join2("rejecting sftp user starting with '-': ", &self.user))
        } else {
            Ok(())
        }
    }

    fn remote(&self) -> (r: String)
        ensures
            r@ == remote_path(*self),
    {
        if let Some(ps) = &self.multi_paths {
            if ps.len() > 0 {
                return ps[0].clone();
            }
        }
        match &self.path {
            Some(p) => p.clone(),
            None => "/".to_owned(),
        }
    }

    /// Begins to browse the device, given whether browsing can start and the
    /// mount points that exist: says which step comes first. Where browsing
    /// cannot start, or the login may not be used, there is no step at all.
    pub fn browse(
        &self,
        ready: Result<(), BrowsePreflightError>,
        mounts: &Vec<String>,
        legacy: &str,
        point: &str,
    ) -> (r: Result<BrowseStep, String>)
        ensures
            r is Ok <==> ready is Ok && usable(*self),
            r is Ok ==> r->Ok_0 == first_step(mounts.deep_view(), legacy@, point@),
            r is Ok ==> (r->Ok_0 is UnmountLegacy <==> exists|i: int|
                0 <= i < mounts@.len() && (#[trigger] mounts@[i])@ == legacy@),
            r is Ok ==> (r->Ok_0 is Probe <==> (exists|i: int|
                0 <= i < mounts@.len() && (#[trigger] mounts@[i])@ == point@) && !(exists|i: int|
                0 <= i < mounts@.len() && (#[trigger] mounts@[i])@ == legacy@)),
            r is Ok && !(r->Ok_0 is UnmountLegacy) && !(r->Ok_0 is Probe) ==> r->Ok_0
                is MakeDirectory,
            r is Err ==> r->Err_0@ == (match ready {
                Err(e) => e.wording(),
                Ok(_) => "rejecting sftp user starting with '-': "@ + self.user@,
            }),
    {
        match ready {
            Ok(_) => {},
            Err(e) => {
                return Err(e.message());
            },
        }
        proof {
            let all = mounts.deep_view();
            assert forall|p: Seq<char>| #[trigger] mounted(all, p) <==> exists|i: int|
                0 <= i < mounts@.len() && (#[trigger] mounts@[i])@ == p by {
                if mounted(all, p) {
                    let k = choose|k: int| 0 <= k < all.len() && all[k] == p;
                    assert(mounts@[k]@ == p);
                }
                if exists|i: int| 0 <= i < mounts@.len() && (#[trigger] mounts@[i])@ == p {
                    let k = choose|i: int| 0 <= i < mounts@.len() && (#[trigger] mounts@[i])@ == p;
                    assert(all[k] == p);
                }
            }
        }
        match self.check_user() {
            Ok(_) => Ok(browse_start(mounts, legacy, point)),
            Err(message) => Err(message),
        }
    }

    /// The arguments with which the share is mounted. The first of them is
    /// never read as an option.
    pub fn mount_arguments(&self, device_id: &str, mount_point: &str) -> (r: Vec<String>)
        requires
            usable(*self),
        ensures
            r.deep_view() == sshfs_arguments(*self, device_id@, mount_point@),
            !text::begins(r@[0]@, "-"@),
            r@.len() == 24,
            self.multi_paths is Some && self.multi_paths->0@.len() > 0 ==> r@[0]@ == self.user@
                + "@"@ + self.ip@ + ":"@ + self.multi_paths->0@[0]@,
            (self.multi_paths is None || self.multi_paths->0@.len() == 0) && self.path is Some
                ==> r@[0]@ == self.user@ + "@"@ + self.ip@ + ":"@ + self.path->0@,
            (self.multi_paths is None || self.multi_paths->0@.len() == 0) && self.path is None
                ==> r@[0]@ == self.user@ + "@"@ + self.ip@ + ":"@ + "/"@,
            r@[1]@ == mount_point@,
            r@[2]@ == "-p"@,
            r@[3]@ == text::digits(self.port as nat, 10),
            text::digits_value(r@[3]@) == Some(self.port as int),
            forall|i: int| 4 <= i < 24 && i % 2 == 0 ==> (#[trigger] r@[i])@ == "-o"@,
            r@[5]@ == "StrictHostKeyChecking=no"@,
            r@[7]@ == "UserKnownHostsFile=/dev/null"@,
            r@[9]@ == "password_stdin"@,
            r@[11]@ == "ConnectTimeout=10"@,
            r@[13]@ == "reconnect"@,
            r@[15]@ == "ServerAliveInterval=15"@,
            r@[17]@ == "ServerAliveCountMax=3"@,
            r@[19]@ == "auto_cache"@,
            r@[21]@ == "follow_symlinks"@,
            device::valid_id(device_id@) ==> r@[23]@ == "fsname=kdeconnect-"@ + device_id@,
    {
        let mut target = self.user.clone();
        target.append("@");
        target.append(&self.ip);
        target.append(":");
        target.append(&self.remote());
        let mut r: Vec<String> = Vec::new();
        r.push(target);
        r.push(mount_point.to_owned());
        r.push("-p".to_owned());
        r.push(digits_text(self.port as u128, 10));
        r.push("-o".to_owned());
        r.push("StrictHostKeyChecking=no".to_owned());
        r.push("-o".to_owned());
        r.push("UserKnownHostsFile=/dev/null".to_owned());
        r.push("-o".to_owned());
        r.push("password_stdin".to_owned());
        r.push("-o".to_owned());
        r.push("ConnectTimeout=10".to_owned());
        r.push("-o".to_owned());
        r.push("reconnect".to_owned());
        r.push("-o".to_owned());
        r.push("ServerAliveInterval=15".to_owned());
        r.push("-o".to_owned());
        r.push("ServerAliveCountMax=3".to_owned());
        r.push("-o".to_owned());
        r.push("auto_cache".to_owned());
        r.push("-o".to_owned());
        r.push("follow_symlinks".to_owned());
        r.push("-o".to_owned());
        r.push(join2("fsname=kdeconnect-", &keep_id_chars(device_id)));
        proof {
            assert(r.deep_view() =~= sshfs_arguments(*self, device_id@, mount_point@));
            lemma_target_is_no_option(*self, device_id@, mount_point@);
            assert(r.deep_view()[0] == r@[0]@);
            text::lemma_digits_read_back(self.port as nat);
            if device::valid_id(device_id@) {
                lemma_device_is_named(device_id@);
            }
        }
        r
    }

    /// What is written to the mounting program: the password on a line.
    pub fn password_line(&self) -> (r: String)
        ensures
            r@ == self.password@ + "\n"@,
    {
        join2(&self.password, "\n")
    }
}

proof fn lemma_keeps_every(s: Seq<char>, keep: spec_fn(char) -> bool)
    requires
        forall|i: int| 0 <= i < s.len() ==> keep(#[trigger] s[i]),
    ensures
        s.filter(keep) == s,
    decreases s.len(),
{
    reveal(Seq::filter);
    if s.len() > 0 {
        assert forall|i: int| 0 <= i < s.drop_last().len() implies keep(
            #[trigger] s.drop_last()[i],
        ) by {
            assert(s.drop_last()[i] == s[i]);
        }
        lemma_keeps_every(s.drop_last(), keep);
        assert(keep(s[s.len() - 1]));
        assert(s.drop_last().push(s.last()) =~= s);
    }
}

/// The file system of a device with a valid identifier is named after the whole
/// identifier.
pub proof fn lemma_device_is_named(device: Seq<char>)
    requires
        device::valid_id(device),
    ensures
        fs_name(device) == device,
{
    lemma_keeps_every(device, |c: char| device::id_char(c));
}

/// The share is looked for at the port that the phone announced: the argument
/// behind `-p` reads back as that port, so logins with different ports are never
/// mounted with the same arguments.
pub proof fn lemma_ports_are_told(
    a: SftpInfo,
    b: SftpInfo,
    device: Seq<char>,
    point: Seq<char>,
)
    ensures
        sshfs_arguments(a, device, point)[2] == "-p"@,
        text::digits_value(sshfs_arguments(a, device, point)[3]) == Some(a.port as int),
        a.port != b.port ==> sshfs_arguments(a, device, point) != sshfs_arguments(
            b,
            device,
            point,
        ),
{
    text::lemma_digits_read_back(a.port as nat);
    text::lemma_digits_read_back(b.port as nat);
    if a.port != b.port {
        assert(sshfs_arguments(a, device, point)[3] != sshfs_arguments(b, device, point)[3]);
    }
}

/// The first argument of a login that may be used is never read as an option.
pub proof fn lemma_target_is_no_option(info: SftpInfo, device: Seq<char>, point: Seq<char>)
    requires
        usable(info),
    ensures
        !text::begins(sshfs_arguments(info, device, point)[0], "-"@),
{
    reveal_strlit("-");
    reveal_strlit("@");
    let t = sshfs_arguments(info, device, point)[0];
    if text::begins(t, "-"@) {
        assert(t.take(1)[0] == '-');
        if info.user@.len() > 0 {
            assert(info.user@[0] == t[0]);
            assert(info.user@.take(1) =~= "-"@);
        } else {
            assert(t[0] == '@');
        }
    }
}

/// Whatever cannot stand in a directory name becomes a dash, and everything else
/// stays: a label has the length of its name, where neither end is dropped.
pub proof fn lemma_other_characters_become_dashes(id: Seq<char>, name: Seq<char>)
    requires
        name.len() > 0,
        !text::is_space(name[0]) || !plain_char(name[0]),
        !text::is_space(name.last()) || !plain_char(name.last()),
        name[0] != '.',
        name.last() != '.',
    ensures
        label(id, name).len() == name.len(),
        forall|i: int|
            0 <= i < name.len() ==> (#[trigger] label(id, name)[i]) == (if plain_char(name[i]) {
                name[i]
            } else {
                '-'
            }),
{
    let m = name.map_values(|c: char| label_char(c));
    assert(m[0] == label_char(name[0]));
    assert(m.last() == label_char(name.last()));
    assert(text::trimmed(m) == m);
}

/// Dots at the ends of a name are dropped, however many.
pub proof fn lemma_dots_are_dropped(s: Seq<char>)
    ensures
        undotted_start(seq!['.'] + s) == undotted_start(s),
        undotted_end(s.push('.')) == undotted_end(s),
        s.len() > 0 && s[0] != '.' ==> undotted_start(s) == s,
        s.len() > 0 && s.last() != '.' ==> undotted_end(s) == s,
        undotted_start(Seq::empty()).len() == 0,
        undotted_end(Seq::empty()).len() == 0,
{
    let d = seq!['.'] + s;
    assert(d[0] == '.');
    assert(d.skip(1) =~= s);
    assert(s.push('.').drop_last() =~= s);
}

/// A device of which no name is left goes by the first eight characters of its
/// identifier.
pub proof fn lemma_nameless_devices(id: Seq<char>, name: Seq<char>)
    requires
        device::valid_id(id),
        cleaned(name).len() == 0,
    ensures
        id.len() >= 8 ==> label(id, name) == "device-"@ + id.take(8),
        id.len() < 8 ==> label(id, name) == "device-"@ + id,
{
    lemma_short_id(id);
    assert forall|i: int| 0 <= i < id.len() implies (#[trigger] id[i]) as nat <= 127 by {
        assert(device::id_char(id[i]));
    }
    vstd::utf8::is_ascii_chars_encode_utf8(id);
    assert(vstd::utf8::encode_utf8(id).len() == id.len());
    if id.len() < 8 {
        assert(id.take(id.len() as int) =~= id);
    }
}

/// A backslash and three octal digits stand for the byte that they write.
pub proof fn lemma_octal_numbers_are_read(a: u8, b: u8, c: u8, rest: Seq<u8>)
    requires
        48 <= a <= 51,
        48 <= b <= 55,
        48 <= c <= 55,
    ensures
        unescaped(seq![92u8, a, b, c] + rest) == seq![
            (64 * (a - 48) + 8 * (b - 48) + (c - 48)) as u8,
        ] + unescaped(rest),
{
    let s = seq![92u8, a, b, c] + rest;
    assert(s[0] == 92 && s[1] == a && s[2] == b && s[3] == c);
    assert(s.skip(4) =~= rest);
}

/// A byte that is no backslash stands for itself.
pub proof fn lemma_other_bytes_stay(byte: u8, rest: Seq<u8>)
    requires
        byte != 92,
    ensures
        unescaped(seq![byte] + rest) == seq![byte] + unescaped(rest),
{
    let s = seq![byte] + rest;
    assert(s[0] == byte);
    assert(s.skip(1) =~= rest);
}

/// Every line of the mount table with a second word counts, that word being the
/// mount point, and no other line does.
pub proof fn lemma_mount_tables_are_read(ls: Seq<Seq<char>>, line: Seq<char>)
    ensures
        text::words(line).len() >= 2 ==> points(ls.push(line)) == points(ls).push(
            text::utf8_lossy(unescaped(vstd::utf8::encode_utf8(text::words(line)[1]))),
        ),
        text::words(line).len() < 2 ==> points(ls.push(line)) == points(ls),
        points(Seq::empty()).len() == 0,
{
    assert(ls.push(line).drop_last() =~= ls);
}

/// A path is mounted where the mount table lists it.
pub proof fn lemma_listed_paths_are_mounted(
    mounts: Seq<Seq<char>>,
    point: Seq<char>,
    path: Seq<char>,
)
    ensures
        mounted(mounts.push(point), path) <==> mounted(mounts, path) || path == point,
        !mounted(Seq::empty(), path),
{
    crate::table::lemma_push_contains(mounts, point, path);
}

/// A device whose plain mount point another one has is mounted beside it, under
/// its label and the first six characters of its identifier.
pub proof fn lemma_taken_points_carry_the_identifier(
    base: Seq<char>,
    m: Map<Seq<char>, Seq<char>>,
    device: Seq<char>,
    name: Seq<char>,
    other: Seq<char>,
)
    requires
        !m.contains_key(device),
        m.contains_key(other),
        m[other] == paths::joined(base, label(device, name)),
    ensures
        device.len() >= 6 ==> point_for(base, m, device, name) == paths::joined(
            base,
            label(device, name) + " ("@ + device.take(6) + ")"@,
        ),
        device.len() < 6 ==> point_for(base, m, device, name) == paths::joined(
            base,
            label(device, name) + " ("@ + device + ")"@,
        ),
{
}

} // verus!
