//! Video metadata and the rules applied to scanned video files.

use sha2::Digest;
use vstd::prelude::*;
use vstd::string::StringSliceAdditionalSpecFns;

use crate::ai::schema::{has_char, last_of};
use crate::text::chars_of;

verus! {

/// Metadata of one video file. Floating-point measurements are held by
/// their IEEE-754 bit patterns (`f64::to_bits`), which this library only
/// carries through.
#[derive(Debug)]
pub struct VideoMeta {
    pub path: String,
    pub name: String,
    pub hash: String,
    /// Bit pattern of the duration in seconds.
    pub duration_bits: u64,
    pub width: u32,
    pub height: u32,
    /// Bit pattern of the frame rate.
    pub fps_bits: u64,
    pub size: u64,
    pub mtime: i64,
}

impl Clone for VideoMeta {
    fn clone(&self) -> (r: Self)
        ensures
            r == *self,
    {
        VideoMeta {
            path: self.path.clone(),
            name: self.name.clone(),
            hash: self.hash.clone(),
            duration_bits: self.duration_bits,
            width: self.width,
            height: self.height,
            fps_bits: self.fps_bits,
            size: self.size,
            mtime: self.mtime,
        }
    }
}

/// The code of `c` with ASCII upper-case letters folded to lower case.
pub open spec fn ascii_folded(c: char) -> u32 {
    let u = c as u32;
    if 65 <= u && u <= 90 {
        (u + 32) as u32
    } else {
        u
    }
}

/// `a` and `b` are equal up to ASCII case (`str::eq_ignore_ascii_case`).
pub open spec fn eq_ignore_ascii_case(a: Seq<char>, b: Seq<char>) -> bool {
    &&& a.len() == b.len()
    &&& forall|i: int| 0 <= i < a.len() ==> ascii_folded(a[i]) == ascii_folded(b[i])
}

/// The lower-case file extensions of the video formats that are scanned.
pub open spec fn video_extensions() -> Seq<Seq<char>> {
    seq!["mp4"@, "mkv"@, "avi"@, "mov"@, "webm"@, "flv"@, "m4v"@, "wmv"@]
}

/// Whether `ext`, lower-cased, is one of the video extensions.
pub open spec fn is_video_extension_text(ext: Seq<char>) -> bool {
    exists|i: int| 0 <= i < video_extensions().len() && eq_ignore_ascii_case(ext, #[trigger] video_extensions()[i])
}

/// An extension is a video extension exactly when it equals, up to ASCII
/// case, one of the eight texts mp4, mkv, avi, mov, webm, flv, m4v, wmv.
pub proof fn law_video_extensions_exact(ext: Seq<char>)
    ensures
        is_video_extension_text(ext) <==> (eq_ignore_ascii_case(ext, seq!['m', 'p', '4'])
            || eq_ignore_ascii_case(ext, seq!['m', 'k', 'v']) || eq_ignore_ascii_case(
            ext,
            seq!['a', 'v', 'i'],
        ) || eq_ignore_ascii_case(ext, seq!['m', 'o', 'v']) || eq_ignore_ascii_case(
            ext,
            seq!['w', 'e', 'b', 'm'],
        ) || eq_ignore_ascii_case(ext, seq!['f', 'l', 'v']) || eq_ignore_ascii_case(
            ext,
            seq!['m', '4', 'v'],
        ) || eq_ignore_ascii_case(ext, seq!['w', 'm', 'v'])),
{
    reveal_strlit("mp4");
    reveal_strlit("mkv");
    reveal_strlit("avi");
    reveal_strlit("mov");
    reveal_strlit("webm");
    reveal_strlit("flv");
    reveal_strlit("m4v");
    reveal_strlit("wmv");
    let e = video_extensions();
    assert(e[0] =~= seq!['m', 'p', '4']);
    assert(e[1] =~= seq!['m', 'k', 'v']);
    assert(e[2] =~= seq!['a', 'v', 'i']);
    assert(e[3] =~= seq!['m', 'o', 'v']);
    assert(e[4] =~= seq!['w', 'e', 'b', 'm']);
    assert(e[5] =~= seq!['f', 'l', 'v']);
    assert(e[6] =~= seq!['m', '4', 'v']);
    assert(e[7] =~= seq!['w', 'm', 'v']);
    assert(e.len() == 8);
    if is_video_extension_text(ext) {
        let i = choose|i: int| 0 <= i < e.len() && eq_ignore_ascii_case(ext, #[trigger] e[i]);
        assert(0 <= i < 8);
    }
}

/// `str::eq_ignore_ascii_case`.
pub fn str_eq_ignore_ascii_case(a: &str, b: &str) -> (r: bool)
    ensures
        r == eq_ignore_ascii_case(a@, b@),
{
    let va = chars_of(a);
    let vb = chars_of(b);
    if va.len() != vb.len() {
        return false;
    }
    let n = va.len();
    for i in 0..n
        invariant
            n == va.len() == vb.len(),
            va@ == a@,
            vb@ == b@,
            forall|j: int| 0 <= j < i ==> ascii_folded(va@[j]) == ascii_folded(vb@[j]),
    {
        let x = va[i] as u32;
        let y = vb[i] as u32;
        let fx = if 65 <= x && x <= 90 {
            x + 32
        } else {
            x
        };
        let fy = if 65 <= y && y <= 90 {
            y + 32
        } else {
            y
        };
        if fx != fy {
            return false;
        }
    }
    true
}

/// Whether a file extension names a video format: `mp4`, `mkv`, `avi`,
/// `mov`, `webm`, `flv`, `m4v` or `wmv`, in any ASCII case.
pub fn is_video_extension(ext: &str) -> (r: bool)
    ensures
        r == is_video_extension_text(ext@),
{
    let names = ["mp4", "mkv", "avi", "mov", "webm", "flv", "m4v", "wmv"];
    let ghost exts = video_extensions();
    assert(names@.map_values(|s: &str| s@) =~= exts);
    for i in 0..8
        invariant
            exts == video_extensions(),
            names@.map_values(|s: &str| s@) == exts,
            names@.len() == 8,
            forall|j: int| 0 <= j < i ==> !eq_ignore_ascii_case(ext@, #[trigger] exts[j]),
    {
        assert(names@[i as int]@ == exts[i as int]);
        if str_eq_ignore_ascii_case(ext, names[i]) {
            return true;
        }
    }
    false
}

/// `ext` stands in `path` right after a dot at position `i`.
pub open spec fn dotted_at(path: Seq<char>, ext: Seq<char>, i: int) -> bool {
    &&& 0 <= i
    &&& i + 1 + ext.len() <= path.len()
    &&& path[i] == '.'
    &&& path.subrange(i + 1, i + 1 + ext.len()) == ext
}

/// A path whose file name does not depend on the platform: it holds no `\`
/// and no `:` and does not start with `//`, so it has no prefix and `/`
/// alone separates its components on every platform.
pub open spec fn is_portable_path(path: Seq<char>) -> bool {
    &&& forall|i: int| 0 <= i < path.len() ==> path[i] != '\\' && path[i] != ':'
    &&& !(path.len() >= 2 && path[0] == '/' && path[1] == '/')
}

/// The part of `path` after its last `/`, or all of it.
pub open spec fn last_segment(path: Seq<char>) -> Seq<char> {
    if has_char(path, '/') {
        path.skip(last_of(path, '/') + 1)
    } else {
        path
    }
}

/// The file name of a portable path, as `Path::file_name` gives it: its
/// last component, after trailing `/` and `.` components are dropped; none
/// when no component is left or the last one is `..`.
pub open spec fn file_name_of(path: Seq<char>) -> Option<Seq<char>>
    decreases path.len(),
{
    if path.len() == 0 {
        None
    } else if path.last() == '/' {
        file_name_of(path.drop_last())
    } else if last_segment(path) == seq!['.'] {
        file_name_of(path.drop_last())
    } else if last_segment(path) == seq!['.', '.'] {
        None
    } else {
        Some(last_segment(path))
    }
}

/// A path separator on some platform.
pub open spec fn is_separator(c: char) -> bool {
    c == '/' || c == '\\'
}

/// The text after the last `/` or `\` of `path`, or all of it.
pub open spec fn tail_name(path: Seq<char>) -> Seq<char>
    decreases path.len(),
{
    if path.len() == 0 || is_separator(path.last()) {
        Seq::empty()
    } else {
        tail_name(path.drop_last()).push(path.last())
    }
}

/// A path whose file name is its tail name on every platform, and whose
/// extension is found alike: it does not start with two separators (so it
/// has no network-share, verbatim or device prefix), and its tail name is
/// not `..`, holds no `:` (so it holds no drive prefix) and has a dot after
/// its first character.
pub open spec fn has_plain_tail_name(path: Seq<char>) -> bool {
    let n = tail_name(path);
    &&& !(path.len() >= 2 && is_separator(path[0]) && is_separator(path[1]))
    &&& n != seq!['.', '.']
    &&& forall|i: int| 0 <= i < n.len() ==> n[i] != ':'
    &&& has_char(n, '.')
    &&& last_of(n, '.') > 0
}

/// The extension of a path with a plain tail name: the text after the last
/// dot of its tail name.
pub open spec fn tail_extension(path: Seq<char>) -> Seq<char> {
    tail_name(path).skip(last_of(tail_name(path), '.') + 1)
}

/// The extension of a portable path: that of its file name.
pub open spec fn path_extension_of(path: Seq<char>) -> Option<Seq<char>> {
    match file_name_of(path) {
        Some(name) => name_extension(name),
        None => None,
    }
}

/// The extension of a file name as `Path::extension` documents it: none for
/// `.` and `..`, none without a dot or when the only dot leads the name,
/// otherwise the part after the last dot.
pub open spec fn name_extension(name: Seq<char>) -> Option<Seq<char>> {
    if name == seq!['.', '.'] {
        None
    } else if has_char(name, '.') && last_of(name, '.') > 0 {
        Some(name.skip(last_of(name, '.') + 1))
    } else {
        None
    }
}

/// The extension of `path`: `Path::extension`, then `OsStr::to_str`. What
/// is stated holds on every platform: an extension is the part of the file
/// name after its last dot, so it stands in the path right after a dot; and
/// for a portable path the file name is found alike on every platform, so
/// the extension is `path_extension_of` it; and for a path with a plain
/// tail name the file name is that tail name on every platform, so the
/// extension is `tail_extension` of it. For other paths which part is the
/// file name is left unsaid, since prefixes and separators differ between
/// platforms.
#[verifier::external_body]
fn path_extension(path: &str) -> (r: Option<String>)
    ensures
        r is Some ==> exists|i: int| dotted_at(path@, r.unwrap()@, i),
        is_portable_path(path@) ==> (r is Some == path_extension_of(path@) is Some),
        is_portable_path(path@) && r is Some ==> r.unwrap()@ == path_extension_of(path@).unwrap(),
        has_plain_tail_name(path@) ==> (r is Some && r.unwrap()@ == tail_extension(path@)),
{
    std::path::Path::new(path).extension().and_then(|e| e.to_str()).map(|e| e.to_string())
}

/// Whether `path` names a video file by its extension. The extension is
/// taken by `Path::extension`; the result is `is_video_extension` of it,
/// and `false` for a path without one.
pub fn is_video_path(path: &str) -> (r: bool)
    ensures
        r ==> exists|ext: Seq<char>, i: int| is_video_extension_text(ext) && dotted_at(path@, ext, i),
        is_portable_path(path@) ==> r == match path_extension_of(path@) {
            Some(ext) => is_video_extension_text(ext),
            None => false,
        },
        has_plain_tail_name(path@) ==> r == is_video_extension_text(tail_extension(path@)),
{
    match path_extension(path) {
        Some(ext) => is_video_extension(ext.as_str()),
        None => false,
    }
}

/// The little-endian bytes of `x`, as `u64::to_le_bytes`.
pub open spec fn le_bytes(x: nat, n: nat) -> Seq<u8>
    decreases n,
{
    if n == 0 {
        Seq::empty()
    } else {
        seq![(x % 256) as u8] + le_bytes(x / 256, (n - 1) as nat)
    }
}

/// The number whose little-endian bytes are `b`.
pub open spec fn le_value(b: Seq<u8>) -> nat
    decreases b.len(),
{
    if b.len() == 0 {
        0
    } else {
        b[0] as nat + 256 * le_value(b.drop_first())
    }
}

/// `256` to the power `n`.
pub open spec fn pow256(n: nat) -> nat
    decreases n,
{
    if n == 0 {
        1
    } else {
        256 * pow256((n - 1) as nat)
    }
}

proof fn lemma_pow256_positive(n: nat)
    ensures
        pow256(n) > 0,
    decreases n,
{
    if n > 0 {
        lemma_pow256_positive((n - 1) as nat);
    }
}

proof fn lemma_le_bytes_value(x: nat, n: nat)
    ensures
        le_bytes(x, n).len() == n,
        le_value(le_bytes(x, n)) == x % pow256(n),
    decreases n,
{
    if n > 0 {
        lemma_le_bytes_value(x / 256, (n - 1) as nat);
        lemma_pow256_positive((n - 1) as nat);
        let b = le_bytes(x, n);
        assert(b.drop_first() =~= le_bytes(x / 256, (n - 1) as nat));
        assert((x % 256) as u8 as nat == x % 256);
        vstd::arithmetic::div_mod::lemma_breakdown(x as int, 256, pow256((n - 1) as nat) as int);
    } else {
        assert(x % 1 == 0) by (nonlinear_arith);
    }
}

/// The hashed bytes are the path's bytes, then eight bytes that read back,
/// little-endian, as the full 64-bit size, then eight that read back as the
/// modification time's 64-bit pattern.
pub proof fn law_identity_bytes_decode(path_bytes: Seq<u8>, size: u64, mtime: i64)
    ensures
        ({
            let b = identity_bytes(path_bytes, size, mtime);
            let p = path_bytes.len() as int;
            &&& b.len() == p + 16
            &&& b.take(p) == path_bytes
            &&& le_value(b.subrange(p, p + 8)) == size
            &&& le_value(b.subrange(p + 8, p + 16)) == mtime as u64
        }),
{
    let b = identity_bytes(path_bytes, size, mtime);
    let p = path_bytes.len() as int;
    lemma_le_bytes_value(size as nat, 8);
    lemma_le_bytes_value((mtime as u64) as nat, 8);
    reveal_with_fuel(pow256, 9);
    assert(pow256(8) == 0x1_0000_0000_0000_0000nat);
    assert(b.take(p) =~= path_bytes);
    assert(b.subrange(p, p + 8) =~= le_bytes(size as nat, 8));
    assert(b.subrange(p + 8, p + 16) =~= le_bytes((mtime as u64) as nat, 8));
}

/// The SHA-256 digest of `data`.
pub uninterp spec fn sha256_of(data: Seq<u8>) -> Seq<u8>;

/// The lower-case hexadecimal digit for `d < 16`.
pub open spec fn hex_digit(d: nat) -> char {
    if d < 10 {
        crate::text::digit_char(d)
    } else if d == 10 {
        'a'
    } else if d == 11 {
        'b'
    } else if d == 12 {
        'c'
    } else if d == 13 {
        'd'
    } else if d == 14 {
        'e'
    } else {
        'f'
    }
}

/// Lower-case hexadecimal text of `data`, two digits per byte, high digit
/// first.
pub open spec fn hex_lower(data: Seq<u8>) -> Seq<char>
    decreases data.len(),
{
    if data.len() == 0 {
        Seq::empty()
    } else {
        hex_lower(data.drop_last()) + seq![
            hex_digit((data.last() / 16) as nat),
            hex_digit((data.last() % 16) as nat),
        ]
    }
}

/// The hexadecimal text of `data` has two digits per byte.
pub proof fn lemma_hex_len(data: Seq<u8>)
    ensures
        hex_lower(data).len() == 2 * data.len(),
    decreases data.len(),
{
    if data.len() > 0 {
        lemma_hex_len(data.drop_last());
    }
}

/// `Sha256::digest` from `sha2`: the result is the SHA-256 digest of
/// `data`, named `sha256_of`, and is 32 bytes long.
#[verifier::external_body]
fn sha256_digest(data: &[u8]) -> (r: Vec<u8>)
    ensures
        r@ == sha256_of(data@),
        r@.len() == 32,
{
    sha2::Sha256::digest(data).to_vec()
}

/// `hex::encode`: lower-case hexadecimal, two digits per byte, high digit
/// first.
#[verifier::external_body]
fn hex_encode(data: &[u8]) -> (r: String)
    ensures
        r@ == hex_lower(data@),
{
    hex::encode(data)
}

/// The bytes that identify a file: its canonical path in UTF-8, then its
/// size and its modification time, each as eight little-endian bytes.
pub open spec fn identity_bytes(path_bytes: Seq<u8>, size: u64, mtime: i64) -> Seq<u8> {
    path_bytes + le_bytes(size as nat, 8) + le_bytes((mtime as u64) as nat, 8)
}

/// The stable hash of a video: the first 16 bytes of the SHA-256 digest of
/// its identity bytes, in lower-case hexadecimal.
pub open spec fn video_hash_text(path_bytes: Seq<u8>, size: u64, mtime: i64) -> Seq<char> {
    hex_lower(sha256_of(identity_bytes(path_bytes, size, mtime)).take(16))
}

fn push_le_bytes(out: &mut Vec<u8>, x: u64)
    ensures
        final(out)@ == old(out)@ + le_bytes(x as nat, 8),
{
    let mut v = x;
    let mut i: usize = 0;
    while i < 8
        invariant
            i <= 8,
            out@ + le_bytes(v as nat, (8 - i) as nat) == old(out)@ + le_bytes(x as nat, 8),
        decreases 8 - i,
    {
        let ghost before = out@;
        out.push((v % 256) as u8);
        proof {
            let rest = le_bytes((v / 256) as nat, (8 - i - 1) as nat);
            assert(le_bytes(v as nat, (8 - i) as nat) == seq![(v % 256) as u8] + rest);
            assert(out@ + rest =~= before + le_bytes(v as nat, (8 - i) as nat));
        }
        v = v / 256;
        i = i + 1;
    }
    assert(le_bytes(v as nat, 0) =~= Seq::<u8>::empty());
    assert(out@ =~= old(out)@ + le_bytes(x as nat, 8));
}

/// The stable hash of a video file from its canonical path, its size in
/// bytes and its modification time in seconds.
pub fn stable_video_hash(canonical_path: &str, size: u64, mtime: i64) -> (r: String)
    ensures
        r@ == video_hash_text(canonical_path.spec_bytes(), size, mtime),
        r@.len() == 32,
{
    let bytes = canonical_path.as_bytes();
    let mut data: Vec<u8> = Vec::new();
    let n = bytes.len();
    for i in 0..n
        invariant
            n == bytes@.len(),
            bytes@ == canonical_path.spec_bytes(),
            data@ == bytes@.take(i as int),
    {
        data.push(bytes[i]);
        assert(data@ =~= bytes@.take(i + 1));
    }
    assert(data@ =~= bytes@);
    push_le_bytes(&mut data, size);
    push_le_bytes(&mut data, mtime as u64);
    let digest = sha256_digest(data.as_slice());
    let mut head: Vec<u8> = Vec::new();
    for i in 0..16
        invariant
            digest@.len() == 32,
            head@ == digest@.take(i as int),
    {
        head.push(digest[i]);
        assert(head@ =~= digest@.take(i + 1));
    }
    proof {
        lemma_hex_len(head@);
    }
    hex_encode(head.as_slice())
}

/// Lexicographic order of texts by code point, which is the order of
/// their UTF-8 bytes: how `String`'s ordering compares two paths.
pub open spec fn text_le(a: Seq<char>, b: Seq<char>) -> bool
    decreases a.len(),
{
    if a.len() == 0 {
        true
    } else if b.len() == 0 {
        false
    } else if (a[0] as u32) < (b[0] as u32) {
        true
    } else if (a[0] as u32) > (b[0] as u32) {
        false
    } else {
        text_le(a.drop_first(), b.drop_first())
    }
}

/// `videos` is in ascending order of path.
pub open spec fn sorted_by_path(videos: Seq<VideoMeta>) -> bool {
    forall|i: int, j: int| 0 <= i < j < videos.len() ==> text_le(videos[i].path@, videos[j].path@)
}

pub proof fn lemma_text_le_total(a: Seq<char>, b: Seq<char>)
    ensures
        text_le(a, b) || text_le(b, a),
    decreases a.len(),
{
    if a.len() > 0 && b.len() > 0 && a[0] as u32 == b[0] as u32 {
        lemma_text_le_total(a.drop_first(), b.drop_first());
    }
}

pub proof fn lemma_text_le_transitive(a: Seq<char>, b: Seq<char>, c: Seq<char>)
    requires
        text_le(a, b),
        text_le(b, c),
    ensures
        text_le(a, c),
    decreases a.len(),
{
    if a.len() > 0 && b.len() > 0 && c.len() > 0 && a[0] as u32 == b[0] as u32 && b[0] as u32
        == c[0] as u32 {
        lemma_text_le_transitive(a.drop_first(), b.drop_first(), c.drop_first());
    }
}

proof fn lemma_text_le_skip(a: Seq<char>, b: Seq<char>, k: int)
    requires
        0 <= k <= a.len(),
        k <= b.len(),
        forall|i: int| 0 <= i < k ==> a[i] as u32 == b[i] as u32,
    ensures
        text_le(a, b) == text_le(a.skip(k), b.skip(k)),
    decreases k,
{
    if k > 0 {
        assert(a.len() > 0 && b.len() > 0);
        assert(a[0] as u32 == b[0] as u32);
        let a1 = a.drop_first();
        let b1 = b.drop_first();
        assert forall|i: int| 0 <= i < k - 1 implies a1[i] as u32 == b1[i] as u32 by {
            assert(a1[i] == a[i + 1]);
            assert(b1[i] == b[i + 1]);
        }
        lemma_text_le_skip(a1, b1, k - 1);
        assert(a1.skip(k - 1) =~= a.skip(k));
        assert(b1.skip(k - 1) =~= b.skip(k));
    } else {
        assert(a.skip(0) =~= a);
        assert(b.skip(0) =~= b);
    }
}

/// Whether `a` orders strictly before `b`.
pub fn text_less(a: &str, b: &str) -> (r: bool)
    ensures
        r == !text_le(b@, a@),
{
    let va = chars_of(a);
    let vb = chars_of(b);
    let na = va.len();
    let nb = vb.len();
    let mut k: usize = 0;
    while k < na && k < nb && va[k] as u32 == vb[k] as u32
        invariant
            k <= na == va@.len(),
            k <= nb == vb@.len(),
            va@ == a@,
            vb@ == b@,
            forall|i: int| 0 <= i < k ==> va@[i] as u32 == vb@[i] as u32,
        decreases na - k,
    {
        k = k + 1;
    }
    proof {
        lemma_text_le_skip(vb@, va@, k as int);
        let a1 = va@.skip(k as int);
        let b1 = vb@.skip(k as int);
        if k < na && k < nb {
            assert(a1[0] == va@[k as int]);
            assert(b1[0] == vb@[k as int]);
            assert(a1.len() > 0 && b1.len() > 0);
        }
    }
    if k == nb {
        false
    } else if k == na {
        true
    } else {
        (va[k] as u32) < (vb[k] as u32)
    }
}

/// Whether a video's path reads `key`.
pub open spec fn path_is(key: Seq<char>) -> spec_fn(VideoMeta) -> bool {
    |v: VideoMeta| v.path@ == key
}

/// Where no element of `b` satisfies `pred`, filtering `b` keeps nothing.
proof fn lemma_filter_none(b: Seq<VideoMeta>, pred: spec_fn(VideoMeta) -> bool)
    requires
        forall|k: int| 0 <= k < b.len() ==> !pred(#[trigger] b[k]),
    ensures
        b.filter(pred).len() == 0,
{
    if b.filter(pred).len() > 0 {
        let e = b.filter(pred)[0];
        b.lemma_filter_pred(pred, 0);
        assert(b.filter(pred).contains(e));
        b.lemma_filter_contains_rev(pred, e);
        let k = choose|k: int| 0 <= k < b.len() && b[k] == e;
        assert(!pred(b[k]));
    }
}

/// Filtering a one-element sequence.
proof fn lemma_filter_single(x: VideoMeta, pred: spec_fn(VideoMeta) -> bool)
    ensures
        seq![x].filter(pred) == if pred(x) {
            seq![x]
        } else {
            Seq::<VideoMeta>::empty()
        },
{
    let e = Seq::<VideoMeta>::empty();
    assert(seq![x] =~= e.push(x));
    e.lemma_filter_push(x, pred);
    e.lemma_filter_len(pred);
    assert(e.filter(pred).len() == 0);
    assert(e.filter(pred) =~= e);
    assert(e.push(x) =~= seq![x]);
}

/// `videos` in ascending order of path, as `sort_by` on the paths leaves
/// them: a permutation in which videos with equal paths keep their order.
pub fn sort_by_path(videos: Vec<VideoMeta>) -> (r: Vec<VideoMeta>)
    ensures
        sorted_by_path(r@),
        r@.to_multiset() == videos@.to_multiset(),
        forall|key: Seq<char>| #[trigger] r@.filter(path_is(key)) == videos@.filter(path_is(key)),
{
    broadcast use vstd::seq_lib::group_to_multiset_ensures;

    let mut out: Vec<VideoMeta> = Vec::new();
    let n = videos.len();
    for i in 0..n
        invariant
            n == videos@.len(),
            sorted_by_path(out@),
            out@.to_multiset() == videos@.take(i as int).to_multiset(),
            forall|key: Seq<char>| #[trigger] out@.filter(path_is(key)) == videos@.take(i as int).filter(path_is(key)),
    {
        let x = videos[i].clone();
        let m = out.len();
        let mut j: usize = 0;
        while j < m && !text_less(x.path.as_str(), out[j].path.as_str())
            invariant
                j <= m == out@.len(),
                forall|k: int| 0 <= k < j ==> text_le(out@[k].path@, x.path@),
            decreases m - j,
        {
            proof {
                lemma_text_le_total(x.path@, out@[j as int].path@);
            }
            j = j + 1;
        }
        let ghost before = out@;
        let ghost xv = x;
        out.insert(j, x);
        proof {
            assert(out@ == before.insert(j as int, xv));
            vstd::seq_lib::to_multiset_insert(before, j as int, xv);
            assert(videos@.take(i + 1) =~= videos@.take(i as int).push(videos@[i as int]));
            vstd::seq_lib::to_multiset_build(videos@.take(i as int), videos@[i as int]);
            if j < m {
                lemma_text_le_total(xv.path@, before[j as int].path@);
            }
            assert forall|a: int, b: int| 0 <= a < b < out@.len() implies text_le(
                out@[a].path@,
                out@[b].path@,
            ) by {
                if b < j {
                    assert(out@[a] == before[a] && out@[b] == before[b]);
                } else if b == j {
                    assert(out@[a] == before[a]);
                } else if a == j {
                    assert(out@[b] == before[b - 1]);
                    if j < m {
                        assert(text_le(xv.path@, before[j as int].path@));
                        if b - 1 > j {
                            lemma_text_le_transitive(xv.path@, before[j as int].path@, before[b - 1].path@);
                        }
                    }
                } else if a < j {
                    assert(out@[a] == before[a] && out@[b] == before[b - 1]);
                } else {
                    assert(out@[a] == before[a - 1] && out@[b] == before[b - 1]);
                }
            }
            let head = before.take(j as int);
            let tail = before.skip(j as int);
            assert(before =~= head + tail);
            assert(out@ =~= head + seq![xv] + tail);
            assert forall|key: Seq<char>| #[trigger] out@.filter(path_is(key)) == videos@.take(
                i + 1,
            ).filter(path_is(key)) by {
                let p = path_is(key);
                videos@.take(i as int).lemma_filter_push(videos@[i as int], p);
                Seq::filter_distributes_over_add(head + seq![xv], tail, p);
                Seq::filter_distributes_over_add(head, seq![xv], p);
                Seq::filter_distributes_over_add(head, tail, p);
                lemma_filter_single(xv, p);
                assert(before.filter(p) == videos@.take(i as int).filter(p));
                if xv.path@ == key {
                    assert forall|k: int| 0 <= k < tail.len() implies !p(#[trigger] tail[k]) by {
                        assert(tail[k] == before[j + k]);
                        if tail[k].path@ == key {
                            assert(text_le(before[j as int].path@, before[j + k].path@));
                        }
                    }
                    lemma_filter_none(tail, p);
                    assert(tail.filter(p) =~= Seq::<VideoMeta>::empty());
                    assert(out@.filter(p) =~= head.filter(p) + seq![xv]);
                    assert(before.filter(p) =~= head.filter(p));
                } else {
                    assert(out@.filter(p) =~= head.filter(p) + tail.filter(p));
                }
            }
        }
    }
    assert(videos@.take(n as int) =~= videos@);
    out
}

} // verus!
