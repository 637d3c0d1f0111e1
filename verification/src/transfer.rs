//! The file-transfer wire format.
//!
//! A sender writes, in this order: the length of the file name in UTF-8 bytes as
//! a 32-bit big-endian integer, the file name's UTF-8 bytes, then the file's
//! content until the connection closes. A receiver reads the same three parts
//! back.
use vstd::prelude::*;
use vstd::utf8::*;

verus! {

/// The four bytes of `n`, most significant first.
pub open spec fn be32_bytes(n: u32) -> Seq<u8> {
    seq![(n >> 24u32) as u8, (n >> 16u32) as u8, (n >> 8u32) as u8, n as u8]
}

/// The number whose big-endian bytes are `b0 b1 b2 b3`.
pub open spec fn be32_value(b0: u8, b1: u8, b2: u8, b3: u8) -> u32 {
    ((b0 as u32) << 24u32) | ((b1 as u32) << 16u32) | ((b2 as u32) << 8u32) | (b3 as u32)
}

/// The name-length field that a sender writes for a name of `len` bytes: the
/// length reduced to 32 bits.
pub open spec fn length_field(len: nat) -> u32 {
    (len % 0x1_0000_0000) as u32
}

/// What a sender writes before the content of a file named `name`.
pub open spec fn spec_header(name: Seq<char>) -> Seq<u8> {
    be32_bytes(length_field(encode_utf8(name).len())) + encode_utf8(name)
}

/// Why a receiver could not read a transfer.
pub enum TransferError {
    /// The stream ended before the four bytes of the name length.
    MissingNameLength,
    /// The stream ended before as many name bytes as the length announced.
    TruncatedName,
    /// The name bytes are not valid UTF-8.
    InvalidName,
}

/// A file as a receiver read it from the stream.
pub struct ReceivedFile {
    pub name: String,
    pub content: Vec<u8>,
}

/// The announced name length of a stream of at least four bytes.
pub open spec fn announced_len(frame: Seq<u8>) -> int {
    be32_value(frame[0], frame[1], frame[2], frame[3]) as int
}

/// What a receiver reads from the whole stream `frame`: the file's name and its
/// content, or the reason it cannot.
pub open spec fn spec_parse(frame: Seq<u8>) -> Result<(Seq<char>, Seq<u8>), TransferError> {
    if frame.len() < 4 {
        Err(TransferError::MissingNameLength)
    } else if frame.len() < 4 + announced_len(frame) {
        Err(TransferError::TruncatedName)
    } else if !valid_utf8(frame.subrange(4, 4 + announced_len(frame))) {
        Err(TransferError::InvalidName)
    } else {
        Ok(
            (
                decode_utf8(frame.subrange(4, 4 + announced_len(frame))),
                frame.subrange(4 + announced_len(frame), frame.len() as int),
            ),
        )
    }
}

/// `String::from_utf8` (std): it succeeds exactly when the bytes are valid
/// UTF-8, and the string it then returns holds the characters those bytes
/// encode.
#[verifier::external_body]
fn string_from_utf8(bytes: Vec<u8>) -> (r: Option<String>)
    ensures
        r is Some <==> valid_utf8(bytes@),
        r matches Some(s) ==> s@ == decode_utf8(bytes@),
{
    String::from_utf8(bytes).ok()
}

/// Whether `name` can be the file-name part of `path`: a non-empty stretch of
/// the path's characters that holds no `/`.
pub open spec fn is_file_name_of(path: Seq<char>, name: Seq<char>) -> bool {
    &&& name.len() > 0
    &&& !name.contains('/')
    &&& exists|i: int| 0 <= i && i + name.len() <= path.len() && #[trigger] path.subrange(i, i + name.len()) == name
}

/// Whether `piece` is the plain last piece of `path`: the last component that
/// is neither `.` nor `..`, followed only by separators and `.` components
/// (as in `a/b`, `a/b/` or `a/b/.`), holding no `:`, in a path with only `/`
/// separators (see `is_slash_only_path`). Such a path has no Windows prefix,
/// and its last piece is its final normal component on every platform.
pub open spec fn is_plain_last_piece(path: Seq<char>, piece: Seq<char>) -> bool {
    &&& piece.len() > 0
    &&& !piece.contains('/')
    &&& !piece.contains(':')
    &&& piece != seq!['.']
    &&& piece != seq!['.', '.']
    &&& is_slash_only_path(path)
    &&& exists|i: int| #[trigger] plain_piece_at(path, piece, i)
}

/// Whether `piece` stands in `path` at `i` as a whole component followed only
/// by separators and `.` components.
pub open spec fn plain_piece_at(path: Seq<char>, piece: Seq<char>, i: int) -> bool {
    let end = i + piece.len();
    &&& 0 <= i
    &&& end <= path.len()
    &&& path.subrange(i, end) == piece
    &&& (i == 0 || path[i - 1] == '/')
    &&& forall|k: int| end <= k < path.len() ==> (#[trigger] path[k] == '/' || path[k] == '.')
    &&& forall|k: int|
        end <= k < path.len() && #[trigger] path[k] == '.' ==> path[k - 1] == '/' && (k + 1
            == path.len() || path[k + 1] == '/')
}

/// Whether `path` holds no backslash and does not begin with `//`: on every
/// platform such a path has no verbatim, device or network-share prefix, and
/// `/` separates all of its components.
pub open spec fn is_slash_only_path(path: Seq<char>) -> bool {
    &&& !path.contains('\\')
    &&& !(path.len() >= 2 && path[0] == '/' && path[1] == '/')
}

/// Whether `piece` is the final piece of `path` on every platform's path
/// syntax: the non-empty part after the path's last separator (`/` or a
/// backslash), which is neither `.` nor `..` and holds no `:`, in a path that
/// does not begin with two separators (a verbatim, device or network-share
/// prefix on Windows). Where `/` alone separates components (Unix), the final
/// component is a stretch of the path ending with this piece; where a
/// backslash separates them too (Windows), it is this piece.
pub open spec fn is_final_piece(path: Seq<char>, piece: Seq<char>) -> bool {
    &&& piece.len() > 0
    &&& piece.len() <= path.len()
    &&& path.subrange(path.len() - piece.len(), path.len() as int) == piece
    &&& (piece.len() == path.len() || path[path.len() - piece.len() - 1] == '/' || path[path.len()
        - piece.len() - 1] == '\\')
    &&& !piece.contains('/')
    &&& !piece.contains('\\')
    &&& !piece.contains(':')
    &&& piece != seq!['.']
    &&& piece != seq!['.', '.']
    &&& !(path.len() >= 2 && (path[0] == '/' || path[0] == '\\') && (path[1] == '/' || path[1]
        == '\\'))
}

/// Whether `name` is a stretch at the end of `path`, ending with `piece`.
pub open spec fn is_suffix_name(path: Seq<char>, name: Seq<char>, piece: Seq<char>) -> bool {
    &&& piece.len() <= name.len() <= path.len()
    &&& path.subrange(path.len() - name.len(), path.len() as int) == name
}

/// `Path::new(path).file_name()` (std), turned into a `String`: the final
/// component of the path, if there is one. Which stretch of the path that is
/// depends on the platform's path syntax (a backslash separates components on
/// Windows only, where a path may also begin with a prefix, after which a
/// verbatim path does not treat `/` as a separator), so two facts are stated
/// that hold on every platform: for a path with only `/` separators (see
/// `is_slash_only_path`), a returned name is a non-empty stretch of the path
/// without `/`; and where the path has a plain last piece (see
/// `is_plain_last_piece`), that piece is returned; and where the path has a
/// final piece on every platform's syntax (see `is_final_piece`), a name is
/// returned, a stretch at the end of the path ending with that piece (the
/// piece itself on Windows). What is returned for other paths, and when
/// nothing is, is left unsaid.
#[verifier::external_body]
fn path_file_name_of(path: &str) -> (r: Option<String>)
    ensures
        r matches Some(s) ==> (is_slash_only_path(path@) ==> is_file_name_of(path@, s@)),
        r is Some || !(exists|p: Seq<char>| is_plain_last_piece(path@, p)),
        r matches Some(s) ==> forall|p: Seq<char>| is_plain_last_piece(path@, p) ==> s@ == p,
        r is Some || !(exists|p: Seq<char>| is_final_piece(path@, p)),
        r matches Some(s) ==> forall|p: Seq<char>| is_final_piece(path@, p) ==> is_suffix_name(path@, s@, p),
{
    std::path::Path::new(path).file_name().and_then(|n| n.to_str()).map(|n| n.to_string())
}

/// Copies `s[lo..hi]` into a new vector.
fn copy_range(s: &[u8], lo: usize, hi: usize) -> (r: Vec<u8>)
    requires
        lo <= hi <= s@.len(),
    ensures
        r@ == s@.subrange(lo as int, hi as int),
{
    let mut r: Vec<u8> = Vec::new();
    let mut i = lo;
    while i < hi
        invariant
            lo <= i <= hi <= s@.len(),
            r@ == s@.subrange(lo as int, i as int),
        decreases hi - i,
    {
        r.push(s[i]);
        i = i + 1;
        assert(r@ =~= s@.subrange(lo as int, i as int));
    }
    r
}

/// The bytes a sender writes before the content of a file named `name`.
pub fn encode_header(name: &str) -> (r: Vec<u8>)
    ensures
        r@ == spec_header(name@),
{
    let bytes = name.as_bytes();
    let len = bytes.len();
    let n: u32 = len as u32;
    proof {
        let l64 = len as u64;
        assert(len as u32 == (len as u64) as u32) by (bit_vector);
        assert((l64 as u32) as u64 == l64 % 0x1_0000_0000u64) by (bit_vector);
    }
    assert(n == length_field(encode_utf8(name@).len()));
    let mut r: Vec<u8> = Vec::new();
    r.push((n >> 24u32) as u8);
    r.push((n >> 16u32) as u8);
    r.push((n >> 8u32) as u8);
    r.push(n as u8);
    let mut i: usize = 0;
    while i < len
        invariant
            len == bytes@.len(),
            bytes@ == encode_utf8(name@),
            r@ == be32_bytes(n) + bytes@.take(i as int),
            i <= len,
        decreases len - i,
    {
        r.push(bytes[i]);
        i = i + 1;
        assert(r@ =~= be32_bytes(n) + bytes@.take(i as int));
    }
    assert(bytes@.take(len as int) =~= bytes@);
    r
}

/// The header a sender writes for the file at `path`, built from the path's
/// file name: `None` where the platform finds no file name in the path. Where
/// the path has a plain last piece, that piece is the name.
pub fn header_for_path(path: &str) -> (r: Option<Vec<u8>>)
    ensures
        r matches Some(h) ==> exists|name: Seq<char>| #[trigger] spec_header(name) == h@
            && (is_slash_only_path(path@) ==> is_file_name_of(path@, name)),
        forall|p: Seq<char>| #[trigger] is_plain_last_piece(path@, p) ==> (r matches Some(h) && h@ == spec_header(p)),
        forall|p: Seq<char>| #[trigger] is_final_piece(path@, p) ==> (r matches Some(h) && exists|name: Seq<char>|
            #[trigger] spec_header(name) == h@ && is_suffix_name(path@, name, p)),
{
    match path_file_name_of(path) {
        Some(name) => Some(encode_header(name.as_str())),
        None => None,
    }
}

/// Reads a transfer from the whole stream `frame`.
pub fn parse_transfer(frame: &[u8]) -> (r: Result<ReceivedFile, TransferError>)
    ensures
        match (r, spec_parse(frame@)) {
            (Ok(f), Ok((name, content))) => f.name@ == name && f.content@ == content,
            (Err(TransferError::MissingNameLength), Err(TransferError::MissingNameLength)) => true,
            (Err(TransferError::TruncatedName), Err(TransferError::TruncatedName)) => true,
            (Err(TransferError::InvalidName), Err(TransferError::InvalidName)) => true,
            _ => false,
        },
{
    if frame.len() < 4 {
        return Err(TransferError::MissingNameLength);
    }
    let b0 = frame[0];
    let b1 = frame[1];
    let b2 = frame[2];
    let b3 = frame[3];
    let n: u32 = ((b0 as u32) << 24u32) | ((b1 as u32) << 16u32) | ((b2 as u32) << 8u32) | (b3
        as u32);
    assert(n == be32_value(frame@[0], frame@[1], frame@[2], frame@[3]));
    let len = frame.len();
    if ((len - 4) as u64) < (n as u64) {
        return Err(TransferError::TruncatedName);
    }
    let end: usize = 4 + (n as usize);
    let name_bytes = copy_range(frame, 4, end);
    match string_from_utf8(name_bytes) {
        None => Err(TransferError::InvalidName),
        Some(name) => {
            let content = copy_range(frame, end, len);
            Ok(ReceivedFile { name, content })
        },
    }
}

/// The four bytes of a 32-bit number read back give the number.
pub proof fn lemma_be32_roundtrip(n: u32)
    ensures
        be32_value(be32_bytes(n)[0], be32_bytes(n)[1], be32_bytes(n)[2], be32_bytes(n)[3]) == n,
{
    let b = be32_bytes(n);
    assert(b[0] == (n >> 24u32) as u8);
    assert(b[1] == (n >> 16u32) as u8);
    assert(b[2] == (n >> 8u32) as u8);
    assert(b[3] == n as u8);
    assert(((((n >> 24u32) as u8) as u32) << 24u32) | ((((n >> 16u32) as u8) as u32) << 16u32)
        | ((((n >> 8u32) as u8) as u32) << 8u32) | ((n as u8) as u32) == n) by (bit_vector);
}

/// A receiver reads back exactly the name and content a sender wrote, for every
/// name whose UTF-8 encoding is shorter than 2^32 bytes.
pub proof fn law_transfer_roundtrip(name: Seq<char>, content: Seq<u8>)
    requires
        encode_utf8(name).len() < 0x1_0000_0000,
    ensures
        spec_parse(spec_header(name) + content) == Ok::<(Seq<char>, Seq<u8>), TransferError>(
            (name, content),
        ),
{
    let bytes = encode_utf8(name);
    let n = length_field(bytes.len());
    let frame = spec_header(name) + content;
    assert(n as int == bytes.len());
    lemma_be32_roundtrip(n);
    assert(frame[0] == be32_bytes(n)[0]);
    assert(frame[1] == be32_bytes(n)[1]);
    assert(frame[2] == be32_bytes(n)[2]);
    assert(frame[3] == be32_bytes(n)[3]);
    assert(announced_len(frame) == bytes.len());
    assert(frame.subrange(4, 4 + bytes.len() as int) =~= bytes);
    assert(frame.subrange(4 + bytes.len() as int, frame.len() as int) =~= content);
    encode_utf8_valid_utf8(name);
    encode_utf8_decode_utf8(name);
}

/// Sending the file at `path` and receiving it elsewhere: where the path has a
/// plain last piece `p`, the sender frames the file under `p` (see
/// `header_for_path`), and the receiver reads back `p` and the content.
pub proof fn law_transfer_keeps_last_piece(path: Seq<char>, p: Seq<char>, content: Seq<u8>)
    requires
        is_plain_last_piece(path, p),
        encode_utf8(p).len() < 0x1_0000_0000,
    ensures
        spec_parse(spec_header(p) + content) == Ok::<(Seq<char>, Seq<u8>), TransferError>((p, content)),
{
    law_transfer_roundtrip(p, content);
}

/// Sending the file at any path with a final piece `p` (backslash-separated
/// Windows paths included) and receiving it elsewhere: the receiver reads back
/// the content and a name that is a stretch at the end of the path ending
/// with `p` (the name the sender framed, see `header_for_path`).
pub proof fn law_transfer_keeps_final_piece(
    path: Seq<char>,
    p: Seq<char>,
    name: Seq<char>,
    content: Seq<u8>,
)
    requires
        is_final_piece(path, p),
        is_suffix_name(path, name, p),
        encode_utf8(name).len() < 0x1_0000_0000,
    ensures
        spec_parse(spec_header(name) + content) == Ok::<(Seq<char>, Seq<u8>), TransferError>((name, content)),
        name.subrange(name.len() - p.len(), name.len() as int) == p,
{
    law_transfer_roundtrip(name, content);
    assert(name.subrange(name.len() - p.len(), name.len() as int) =~= path.subrange(
        path.len() - p.len(),
        path.len() as int,
    ));
}

} // verus!
