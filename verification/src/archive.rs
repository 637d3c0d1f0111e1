//! How the encoder bundle (a zip archive) is unpacked: which folders are
//! created and which files are written, in archive order.
use vstd::prelude::*;

verus! {

/// Whether an entry named `name` is a directory: its name ends with `/`.
pub open spec fn spec_is_directory_entry(name: Seq<char>) -> bool {
    name.len() > 0 && name.last() == '/'
}

/// Whether an entry named `name` is a directory (created as such) rather than
/// a file (written out, after creating its parent folders).
pub fn is_directory_entry(name: &str) -> (r: bool)
    ensures
        r == spec_is_directory_entry(name@),
{
    let mut last: Option<char> = None;
    for c in it: name.chars()
        invariant
            it.seq() == name@,
            last == (if it.index() == 0 {
                None::<char>
            } else {
                Some(name@[it.index() - 1])
            }),
    {
        last = Some(c);
    }
    match last {
        Some(c) => c == '/',
        None => false,
    }
}

/// Whether `c` separates path components on some platform.
pub open spec fn is_separator(c: char) -> bool {
    c == '/' || c == '\\'
}

/// Whether `p` has, at `i`, a whole component made of `n` dots.
pub open spec fn is_dot_piece_at(p: Seq<char>, i: int, n: int) -> bool {
    &&& 0 <= i
    &&& i + n <= p.len()
    &&& (i == 0 || is_separator(p[i - 1]))
    &&& (i + n == p.len() || is_separator(p[i + n]))
    &&& forall|k: int| i <= k < i + n ==> p[k] == '.'
}

/// Whether `p` is a relative path that stays inside the folder it is joined
/// to, on every platform: it does not begin or end with a separator, has no
/// empty component, and no component is `.` or `..`. With no leading
/// separator it has no root, and with no `..` component it never climbs above
/// the folder.
pub open spec fn is_contained_path(p: Seq<char>) -> bool {
    &&& (p.len() == 0 || (!is_separator(p[0]) && !is_separator(p.last())))
    &&& forall|i: int| 0 <= i < p.len() - 1 ==> !(is_separator(#[trigger] p[i]) && is_separator(p[i + 1]))
    &&& forall|i: int| !#[trigger] is_dot_piece_at(p, i, 1)
    &&& forall|i: int| !#[trigger] is_dot_piece_at(p, i, 2)
}

/// The pieces of `s` between separators (`/` or backslash), in order, empty
/// pieces included: `a//b` gives `a`, the empty piece, `b`.
pub open spec fn pieces(s: Seq<char>) -> Seq<Seq<char>>
    decreases s.len(),
{
    if s.len() == 0 {
        seq![Seq::<char>::empty()]
    } else {
        let r = pieces(s.drop_last());
        if is_separator(s.last()) {
            r.push(Seq::<char>::empty())
        } else {
            r.update(r.len() - 1, r.last().push(s.last()))
        }
    }
}

/// Whether a piece is a normal component: not empty, `.` or `..`.
pub open spec fn is_normal_piece(c: Seq<char>) -> bool {
    c.len() > 0 && c != seq!['.'] && c != seq!['.', '.']
}

/// The normal components of `s`, in order.
pub open spec fn normal_pieces(s: Seq<char>) -> Seq<Seq<char>> {
    pieces(s).filter(|c: Seq<char>| is_normal_piece(c))
}

/// Characters that no platform rewrites in a component: anything but a
/// separator, a character Windows reserves (`<`, `>`, `:`, `"`, `|`, `?`,
/// `*`) or an ASCII control character, within the 16-bit range (so that a
/// component's length is its length in UTF-16 units).
pub open spec fn is_portable_char(c: char) -> bool {
    &&& c != '/'
    &&& c != '\\'
    &&& c != '<'
    &&& c != '>'
    &&& c != ':'
    &&& c != '"'
    &&& c != '|'
    &&& c != '?'
    &&& c != '*'
    &&& c as int >= 0x20
    &&& c as int != 0x7f
    &&& (c as int) < 0x10000
}

/// Whether `c` is the ASCII letter `lower` in either case.
pub open spec fn letter_ci(c: char, lower: char) -> bool {
    c == lower || c as int + 32 == lower as int
}

/// Whether `s` spells the ASCII word `w` (given in lower case) in any case.
pub open spec fn word_ci(s: Seq<char>, w: Seq<char>) -> bool {
    s.len() == w.len() && forall|k: int| 0 <= k < s.len() ==> (#[trigger] s[k] == w[k] || (('a' <= w[k]
        && w[k] <= 'z') && letter_ci(s[k], w[k])))
}

/// Whether `c` is a port digit Windows reserves (`1` to `9`, `¹`, `²`, `³`).
pub open spec fn is_port_digit(c: char) -> bool {
    ('1' <= c && c <= '9') || c == '\u{b9}' || c == '\u{b2}' || c == '\u{b3}'
}

/// Whether `stem` names a Windows device, in any case: `CON`, `PRN`, `AUX`,
/// `NUL`, `CONIN$`, `CONOUT$`, `CLOCK$`, or `COM` or `LPT` followed by a port
/// digit.
pub open spec fn is_device_stem(stem: Seq<char>) -> bool {
    ||| word_ci(stem, seq!['c', 'o', 'n'])
    ||| word_ci(stem, seq!['p', 'r', 'n'])
    ||| word_ci(stem, seq!['a', 'u', 'x'])
    ||| word_ci(stem, seq!['n', 'u', 'l'])
    ||| word_ci(stem, seq!['c', 'o', 'n', 'i', 'n', '$'])
    ||| word_ci(stem, seq!['c', 'o', 'n', 'o', 'u', 't', '$'])
    ||| word_ci(stem, seq!['c', 'l', 'o', 'c', 'k', '$'])
    ||| (stem.len() == 4 && (word_ci(stem.take(3), seq!['c', 'o', 'm']) || word_ci(
        stem.take(3),
        seq!['l', 'p', 't'],
    )) && is_port_digit(stem[3]))
}

/// Whether a normal component is unpacked unchanged on every platform: at most
/// 255 portable characters (spaces included), not ending in `.` or a space,
/// and whose part before its first `.`, without trailing spaces, names no
/// Windows device.
pub open spec fn is_portable_piece(c: Seq<char>) -> bool {
    &&& c.len() <= 255
    &&& forall|k: int| 0 <= k < c.len() ==> is_portable_char(#[trigger] c[k])
    &&& c.last() != '.'
    &&& c.last() != ' '
    &&& forall|m: int, k: int|
        #![trigger c.subrange(m, k)]
        0 <= m <= k <= c.len() && (k == c.len() || c[k] == '.') && (forall|j: int| 0 <= j < k ==> c[j]
            != '.') && (forall|j: int| m <= j < k ==> c[j] == ' ') && (m == 0 || c[m - 1] != ' ')
            ==> !is_device_stem(c.take(m))
}

/// Whether an entry name is unpacked, on every platform, to exactly its normal
/// components: it holds only portable characters and `/`, does not begin with
/// `//` (which Windows reads as a network share), and each of its normal
/// components is portable.
pub open spec fn is_portable_name(name: Seq<char>) -> bool {
    &&& forall|k: int| 0 <= k < name.len() ==> (is_portable_char(#[trigger] name[k]) || name[k] == '/')
    &&& !(name.len() >= 2 && name[0] == '/' && name[1] == '/')
    &&& forall|i: int| 0 <= i < normal_pieces(name).len() ==> is_portable_piece(#[trigger] normal_pieces(name)[i])
}

/// The entries of the zip archive `bytes`, in archive order, as the `zip`
/// crate reads them: for each, its name and its uncompressed content; nothing
/// where the archive or one of its entries cannot be read.
pub uninterp spec fn spec_zip_entries(bytes: Seq<u8>) -> Option<Seq<(Seq<char>, Seq<u8>)>>;

/// The names and contents of a list of archive entries (name, unpack path,
/// content).
pub open spec fn entry_views(v: Seq<(String, String, Vec<u8>)>) -> Seq<(Seq<char>, Seq<u8>)> {
    v.map_values(|e: (String, String, Vec<u8>)| (e.0@, e.2@))
}

/// The names, unpack paths and contents of a list of archive entries.
pub open spec fn full_entry_views(v: Seq<(String, String, Vec<u8>)>) -> Seq<(Seq<char>, Seq<char>, Seq<u8>)> {
    v.map_values(|e: (String, String, Vec<u8>)| (e.0@, e.1@, e.2@))
}

/// Reads the zip archive `bytes` with the `zip` crate (`ZipArchive::new`,
/// then for each entry `by_index`, `name`, `mangled_name` and reading it to
/// its end); on failure, the `zip` crate's error text. The names and contents
/// are stated as the named result `spec_zip_entries`, which depends on the
/// bytes alone. The relative path an entry is unpacked to (`mangled_name`) is
/// built from the name's normal components (split at `/` and at backslashes,
/// without root, prefix, drive letters, `.` and `..`), joined by the platform's
/// separator; on Windows the crate also rewrites reserved characters, trailing
/// dots and spaces, and device names. So what holds on every platform is
/// stated: the path is a contained one (see `is_contained_path`); it depends
/// on the name alone; it is empty where the name has no normal component; and
/// for a portable name (see `is_portable_name`) its components are exactly the
/// name's normal components. For other names, which path it is is left unsaid.
#[verifier::external_body]
fn zip_entries(bytes: &[u8]) -> (r: Result<Vec<(String, String, Vec<u8>)>, String>)
    ensures
        r matches Ok(v) ==> spec_zip_entries(bytes@) == Some(entry_views(v@)),
        r matches Ok(v) ==> forall|i: int| 0 <= i < v@.len() ==> is_contained_path(#[trigger] v@[i].1@),
        r matches Ok(v) ==> forall|i: int, j: int|
            0 <= i < v@.len() && 0 <= j < v@.len() && #[trigger] v@[i].0@ == #[trigger] v@[j].0@ ==> v@[i].1@ == v@[j].1@,
        r matches Ok(v) ==> forall|i: int|
            0 <= i < v@.len() && normal_pieces(#[trigger] v@[i].0@).len() == 0 ==> v@[i].1@.len() == 0,
        r matches Ok(v) ==> forall|i: int|
            0 <= i < v@.len() && is_portable_name(#[trigger] v@[i].0@) ==> normal_pieces(v@[i].1@) == normal_pieces(v@[i].0@),
        r is Err ==> spec_zip_entries(bytes@) is None,
{
    let mut archive = zip::ZipArchive::new(std::io::Cursor::new(bytes)).map_err(|e| e.to_string())?;
    let mut entries = Vec::new();
    for i in 0..archive.len() {
        let mut file = archive.by_index(i).map_err(|e| e.to_string())?;
        let name = file.name().map_err(|e| e.to_string())?.to_string();
        let path = file.mangled_name().map_err(|e| e.to_string())?.to_string_lossy().to_string();
        let mut content = Vec::new();
        std::io::Read::read_to_end(&mut file, &mut content).map_err(|e| e.to_string())?;
        entries.push((name, path, content));
    }
    Ok(entries)
}

/// One step of unpacking an entry: create a folder, or write a file, at the
/// entry's unpack path relative to the destination folder.
pub enum UnpackStep {
    CreateDir { name: String, path: String },
    WriteFile { name: String, path: String, content: Vec<u8> },
}

/// The path, relative to the destination folder, that a step creates or writes.
pub open spec fn step_path(s: UnpackStep) -> Seq<char> {
    match s {
        UnpackStep::CreateDir { path, .. } => path@,
        UnpackStep::WriteFile { path, .. } => path@,
    }
}

/// The name of the entry a step unpacks.
pub open spec fn step_name(s: UnpackStep) -> Seq<char> {
    match s {
        UnpackStep::CreateDir { name, .. } => name@,
        UnpackStep::WriteFile { name, .. } => name@,
    }
}

/// Whether `s` is the step for the archive entry `e` (name, content): a folder
/// for a directory entry, else a file holding the entry's content.
pub open spec fn step_matches(s: UnpackStep, e: (Seq<char>, Seq<u8>)) -> bool {
    if spec_is_directory_entry(e.0) {
        s matches UnpackStep::CreateDir { name, .. } && name@ == e.0
    } else {
        s matches UnpackStep::WriteFile { name, content, .. } && name@ == e.0 && content@ == e.1
    }
}

/// Whether `s` is the step for the archive entry `e` (name, unpack path,
/// content): as `step_matches`, at the entry's unpack path.
pub open spec fn step_for(s: UnpackStep, e: (Seq<char>, Seq<char>, Seq<u8>)) -> bool {
    step_matches(s, (e.0, e.2)) && step_path(s) == e.1 && step_name(s) == e.0
}

/// The steps that unpack the entries `entries` (name, unpack path, content):
/// one per entry, in order, each at the entry's unpack path, a folder for each
/// directory entry and a file for each other entry.
pub fn plan_from_entries(entries: Vec<(String, String, Vec<u8>)>) -> (r: Vec<UnpackStep>)
    ensures
        r@.len() == entries@.len(),
        forall|i: int| 0 <= i < r@.len() ==> step_for(#[trigger] r@[i], full_entry_views(entries@)[i]),
{
    let ghost all = entries@;
    let ghost views = full_entry_views(all);
    let mut steps: Vec<UnpackStep> = Vec::new();
    for e in it: entries.into_iter()
        invariant
            it.seq() == all,
            views == full_entry_views(all),
            steps@.len() == it.index(),
            forall|i: int| 0 <= i < steps@.len() ==> step_for(#[trigger] steps@[i], views[i]),
    {
        let ghost k = steps@.len() as int;
        assert(all[k] == e);
        assert(views[k] == (e.0@, e.1@, e.2@));
        let (name, path, content) = e;
        if is_directory_entry(name.as_str()) {
            steps.push(UnpackStep::CreateDir { name, path });
        } else {
            steps.push(UnpackStep::WriteFile { name, path, content });
        }
        assert(step_for(steps@[k], views[k]));
    }
    steps
}

/// The steps that unpack the archive `bytes`: one per entry, in archive order,
/// a folder for each directory entry and a file holding the entry's content
/// for each other entry, every one at a contained path (so nothing is created
/// or written outside the destination folder) that is fixed by the entry's
/// name: empty where the name has no normal component, and made of exactly the
/// name's normal components where the name is portable; the `zip` crate's
/// error text where the archive or one of its entries cannot be read.
pub fn unpack_plan(bytes: &[u8]) -> (r: Result<Vec<UnpackStep>, String>)
    ensures
        r is Err <==> spec_zip_entries(bytes@) is None,
        r matches Ok(v) ==> v@.len() == spec_zip_entries(bytes@).unwrap().len()
            && forall|i: int|
            0 <= i < v@.len() ==> step_matches(#[trigger] v@[i], spec_zip_entries(bytes@).unwrap()[i]),
        r matches Ok(v) ==> forall|i: int| 0 <= i < v@.len() ==> is_contained_path(step_path(#[trigger] v@[i])),
        r matches Ok(v) ==> forall|i: int, j: int|
            0 <= i < v@.len() && 0 <= j < v@.len() && step_name(#[trigger] v@[i]) == step_name(#[trigger] v@[j])
                ==> step_path(v@[i]) == step_path(v@[j]),
        r matches Ok(v) ==> forall|i: int|
            0 <= i < v@.len() && normal_pieces(step_name(#[trigger] v@[i])).len() == 0 ==> step_path(v@[i]).len() == 0,
        r matches Ok(v) ==> forall|i: int|
            0 <= i < v@.len() && is_portable_name(step_name(#[trigger] v@[i])) ==> normal_pieces(step_path(v@[i]))
                == normal_pieces(step_name(v@[i])),
{
    let entries = match zip_entries(bytes) {
        Ok(v) => v,
        Err(e) => return Err(e),
    };
    let ghost all = entries@;
    assert forall|i: int| 0 <= i < all.len() implies full_entry_views(all)[i].1 == all[i].1@
        && (full_entry_views(all)[i].0, full_entry_views(all)[i].2) == #[trigger] entry_views(all)[i] by {}
    let steps = plan_from_entries(entries);
    assert forall|i: int| 0 <= i < steps@.len() implies is_contained_path(step_path(#[trigger] steps@[i])) by {
        assert(full_entry_views(all)[i].1 == all[i].1@);
    }
    Ok(steps)
}

} // verus!
