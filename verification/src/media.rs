//! Media: image dimension probing from raw bytes (PNG, GIF, JPEG, WebP),
//! the media configuration and the records of stored uploads.
use vstd::prelude::*;

verus! {

pub open spec fn be16(b: Seq<u8>, i: int) -> int {
    b[i] * 256 + b[i + 1]
}

pub open spec fn be32(b: Seq<u8>, i: int) -> int {
    ((b[i] * 256 + b[i + 1]) * 256 + b[i + 2]) * 256 + b[i + 3]
}

pub open spec fn le16(b: Seq<u8>, i: int) -> int {
    b[i] + b[i + 1] * 256
}

pub open spec fn le24(b: Seq<u8>, i: int) -> int {
    b[i] + b[i + 1] * 256 + b[i + 2] * 65536
}

pub open spec fn le32(b: Seq<u8>, i: int) -> int {
    b[i] + b[i + 1] * 256 + b[i + 2] * 65536 + b[i + 3] * 16777216
}

pub open spec fn png_signature() -> Seq<u8> {
    seq![0x89u8, 0x50u8, 0x4eu8, 0x47u8, 0x0du8, 0x0au8, 0x1au8, 0x0au8]
}

pub open spec fn gif87a() -> Seq<u8> {
    seq![0x47u8, 0x49u8, 0x46u8, 0x38u8, 0x37u8, 0x61u8]
}

pub open spec fn gif89a() -> Seq<u8> {
    seq![0x47u8, 0x49u8, 0x46u8, 0x38u8, 0x39u8, 0x61u8]
}

/// Dimensions from a PNG IHDR chunk, when the signature matches and both are non-zero.
pub open spec fn probe_png(b: Seq<u8>) -> Option<(u32, u32)> {
    if b.len() >= 24 && b.take(8) == png_signature() && be32(b, 16) > 0 && be32(b, 20) > 0 {
        Some((be32(b, 16) as u32, be32(b, 20) as u32))
    } else {
        None
    }
}

/// Dimensions from a GIF logical screen descriptor.
pub open spec fn probe_gif(b: Seq<u8>) -> Option<(u32, u32)> {
    if b.len() >= 10 && (b.take(6) == gif87a() || b.take(6) == gif89a()) && le16(b, 6) > 0
        && le16(b, 8) > 0 {
        Some((le16(b, 6) as u32, le16(b, 8) as u32))
    } else {
        None
    }
}

/// The first index at or after `i` that does not hold a 0xFF fill byte.
pub open spec fn skip_fill(b: Seq<u8>, i: int) -> int
    decreases b.len() - i,
{
    if 0 <= i < b.len() && b[i] == 0xFF {
        skip_fill(b, i + 1)
    } else {
        i
    }
}

pub proof fn lemma_skip_fill_ge(b: Seq<u8>, i: int)
    ensures
        skip_fill(b, i) >= i,
        skip_fill(b, i) < b.len() ==> 0 <= i ==> b[skip_fill(b, i)] != 0xFF,
        0 <= i ==> skip_fill(b, i) <= b.len() || skip_fill(b, i) == i,
    decreases b.len() - i,
{
    if 0 <= i < b.len() && b[i] == 0xFF {
        lemma_skip_fill_ge(b, i + 1);
    }
}

/// The JPEG marker scan starting at position `i`: the first SOF0/SOF2 segment
/// with non-zero dimensions, stopping at end of image, start of scan, or a bad segment.
pub open spec fn jpeg_scan(b: Seq<u8>, i: int) -> Option<(u32, u32)>
    decreases b.len() - i,
{
    if i < 0 || i + 4 >= b.len() {
        None
    } else if b[i] != 0xFF {
        jpeg_scan(b, i + 1)
    } else {
        let j = skip_fill(b, i);
        proof {
            lemma_skip_fill_ge(b, i);
        }
        if j >= b.len() {
            None
        } else {
            let marker = b[j];
            let k = j + 1;
            if marker == 0xD9 || marker == 0xDA {
                None
            } else if k + 2 > b.len() {
                None
            } else {
                let seg = be16(b, k);
                if seg < 2 || k + seg > b.len() {
                    None
                } else if marker == 0xC0 || marker == 0xC2 {
                    if k + 7 >= b.len() {
                        None
                    } else if be16(b, k + 5) > 0 && be16(b, k + 3) > 0 {
                        Some((be16(b, k + 5) as u32, be16(b, k + 3) as u32))
                    } else {
                        None
                    }
                } else {
                    jpeg_scan(b, k + seg)
                }
            }
        }
    }
}

pub open spec fn probe_jpeg(b: Seq<u8>) -> Option<(u32, u32)> {
    if b.len() >= 4 && b[0] == 0xFF && b[1] == 0xD8 {
        jpeg_scan(b, 2)
    } else {
        None
    }
}

pub open spec fn vp8x_tag() -> Seq<u8> {
    seq![0x56u8, 0x50u8, 0x38u8, 0x58u8]
}

/// The RIFF chunk walk of a WebP file from position `i`, looking for a VP8X chunk.
pub open spec fn webp_scan(b: Seq<u8>, i: int) -> Option<(u32, u32)>
    decreases b.len() + 1 - i,
{
    if i < 0 || i + 8 > b.len() {
        None
    } else {
        let size = le32(b, i + 4);
        let k = i + 8;
        if k + size > b.len() {
            None
        } else if b.subrange(i, i + 4) == vp8x_tag() && size >= 10 && k + 10 <= b.len() {
            Some(((le24(b, k + 4) + 1) as u32, (le24(b, k + 7) + 1) as u32))
        } else {
            webp_scan(b, k + size + size % 2)
        }
    }
}

pub open spec fn riff_tag() -> Seq<u8> {
    seq![0x52u8, 0x49u8, 0x46u8, 0x46u8]
}

pub open spec fn webp_tag() -> Seq<u8> {
    seq![0x57u8, 0x45u8, 0x42u8, 0x50u8]
}

pub open spec fn probe_webp(b: Seq<u8>) -> Option<(u32, u32)> {
    if b.len() >= 30 && b.take(4) == riff_tag() && b.subrange(8, 12) == webp_tag() {
        webp_scan(b, 12)
    } else {
        None
    }
}

/// The image dimensions that the formats yield, tried in the order PNG, GIF, JPEG, WebP.
pub open spec fn spec_probe_image_dimensions(b: Seq<u8>) -> Option<(u32, u32)> {
    if probe_png(b) is Some {
        probe_png(b)
    } else if probe_gif(b) is Some {
        probe_gif(b)
    } else if probe_jpeg(b) is Some {
        probe_jpeg(b)
    } else {
        probe_webp(b)
    }
}

/// A PNG whose header holds a non-zero width `w` (big-endian, bytes 16..20)
/// and height `h` (bytes 20..24) probes as `(w, h)`: width first, then height.
pub proof fn law_png_width_then_height(b: Seq<u8>, w: u32, h: u32)
    requires
        b.len() >= 24,
        b[0] == 0x89u8 && b[1] == 0x50u8 && b[2] == 0x4eu8 && b[3] == 0x47u8,
        b[4] == 0x0du8 && b[5] == 0x0au8 && b[6] == 0x1au8 && b[7] == 0x0au8,
        w as int == b[16] * 16777216 + b[17] * 65536 + b[18] * 256 + b[19],
        h as int == b[20] * 16777216 + b[21] * 65536 + b[22] * 256 + b[23],
        w > 0,
        h > 0,
    ensures
        spec_probe_image_dimensions(b) == Some((w, h)),
{
    assert(b.take(8) =~= png_signature());
    assert(be32(b, 16) == w as int);
    assert(be32(b, 20) == h as int);
}

/// A GIF (`GIF87a` or `GIF89a`) whose logical screen holds a non-zero width
/// `w` (little-endian, bytes 6..8) and height `h` (bytes 8..10) probes as `(w, h)`.
pub proof fn law_gif_width_then_height(b: Seq<u8>, w: u32, h: u32)
    requires
        b.len() >= 10,
        b[0] == 0x47u8 && b[1] == 0x49u8 && b[2] == 0x46u8 && b[3] == 0x38u8,
        b[4] == 0x37u8 || b[4] == 0x39u8,
        b[5] == 0x61u8,
        w as int == b[6] + b[7] * 256,
        h as int == b[8] + b[9] * 256,
        w > 0,
        h > 0,
    ensures
        spec_probe_image_dimensions(b) == Some((w, h)),
{
    if b[4] == 0x37u8 {
        assert(b.take(6) =~= gif87a());
    } else {
        assert(b.take(6) =~= gif89a());
    }
    assert(b.take(8) != png_signature()) by {
        assert(b.take(8)[0] != png_signature()[0]);
    }
}

/// A JPEG whose first segment is a baseline or progressive frame header
/// (`FF D8 FF C0` or `FF D8 FF C2`, a segment length of at least 2 that fits)
/// holding a non-zero height `h` (big-endian, bytes 7..9) and width `w`
/// (bytes 9..11) probes as `(w, h)`: width first, then height.
pub proof fn law_jpeg_width_then_height(b: Seq<u8>, w: u32, h: u32)
    requires
        b.len() >= 12,
        b[0] == 0xFFu8 && b[1] == 0xD8u8 && b[2] == 0xFFu8,
        b[3] == 0xC0u8 || b[3] == 0xC2u8,
        2 <= b[4] * 256 + b[5],
        4 + b[4] * 256 + b[5] <= b.len(),
        h as int == b[7] * 256 + b[8],
        w as int == b[9] * 256 + b[10],
        w > 0,
        h > 0,
    ensures
        spec_probe_image_dimensions(b) == Some((w, h)),
{
    assert(b.take(8) != png_signature()) by {
        assert(b.take(8)[0] != png_signature()[0]);
    }
    assert(b.take(6) != gif87a() && b.take(6) != gif89a()) by {
        assert(b.take(6)[0] != gif87a()[0]);
    }
    assert(skip_fill(b, 3) == 3);
    assert(skip_fill(b, 2) == 3);
    assert(jpeg_scan(b, 2) == Some((w, h)));
}

/// A WebP (`RIFF`, `WEBP`) whose first chunk is an extended header (`VP8X`,
/// at least 10 bytes that fit) holding width minus one `w1` and height minus
/// one `h1` (little-endian 24-bit, bytes 24..27 and 27..30) probes as
/// `(w1 + 1, h1 + 1)`.
pub proof fn law_webp_width_then_height(b: Seq<u8>, w1: int, h1: int)
    requires
        b.len() >= 30,
        b[0] == 0x52u8 && b[1] == 0x49u8 && b[2] == 0x46u8 && b[3] == 0x46u8,
        b[8] == 0x57u8 && b[9] == 0x45u8 && b[10] == 0x42u8 && b[11] == 0x50u8,
        b[12] == 0x56u8 && b[13] == 0x50u8 && b[14] == 0x38u8 && b[15] == 0x58u8,
        10 <= b[16] + b[17] * 256 + b[18] * 65536 + b[19] * 16777216,
        20 + b[16] + b[17] * 256 + b[18] * 65536 + b[19] * 16777216 <= b.len(),
        w1 == b[24] + b[25] * 256 + b[26] * 65536,
        h1 == b[27] + b[28] * 256 + b[29] * 65536,
    ensures
        spec_probe_image_dimensions(b) == Some(((w1 + 1) as u32, (h1 + 1) as u32)),
{
    assert(b.take(8) != png_signature()) by {
        assert(b.take(8)[0] != png_signature()[0]);
    }
    assert(b.take(6) != gif87a() && b.take(6) != gif89a()) by {
        assert(b.take(6)[0] != gif87a()[0]);
    }
    assert(b.take(4) =~= riff_tag());
    assert(b.subrange(8, 12) =~= webp_tag());
    assert(b.subrange(12, 16) =~= vp8x_tag());
}

fn bytes_match(b: &[u8], at: usize, pat: &[u8]) -> (r: bool)
    requires
        at + pat@.len() <= b@.len(),
    ensures
        r == (b@.subrange(at as int, at + pat@.len()) == pat@),
{
    let mut i: usize = 0;
    while i < pat.len()
        invariant
            at + pat.len() <= b.len(),
            i <= pat@.len(),
            forall|j: int| 0 <= j < i ==> b@[at + j] == pat@[j],
        decreases pat.len() - i,
    {
        if b[at + i] != pat[i] {
            assert(b@.subrange(at as int, at + pat@.len())[i as int] != pat@[i as int]);
            return false;
        }
        i += 1;
    }
    assert(b@.subrange(at as int, at + pat@.len()) =~= pat@);
    true
}

fn rd_be16(b: &[u8], i: usize) -> (r: u32)
    requires
        i + 2 <= b@.len(),
    ensures
        r == be16(b@, i as int),
{
    (b[i] as u32) * 256 + (b[i + 1] as u32)
}

fn rd_be32(b: &[u8], i: usize) -> (r: u32)
    requires
        i + 4 <= b@.len(),
    ensures
        r == be32(b@, i as int),
{
    (((b[i] as u32) * 256 + (b[i + 1] as u32)) * 256 + (b[i + 2] as u32)) * 256 + (b[i
        + 3] as u32)
}

fn rd_le16(b: &[u8], i: usize) -> (r: u32)
    requires
        i + 2 <= b@.len(),
    ensures
        r == le16(b@, i as int),
{
    (b[i] as u32) + (b[i + 1] as u32) * 256
}

fn rd_le24(b: &[u8], i: usize) -> (r: u32)
    requires
        i + 3 <= b@.len(),
    ensures
        r == le24(b@, i as int),
{
    (b[i] as u32) + (b[i + 1] as u32) * 256 + (b[i + 2] as u32) * 65536
}

fn rd_le32(b: &[u8], i: usize) -> (r: u32)
    requires
        i + 4 <= b@.len(),
    ensures
        r == le32(b@, i as int),
{
    (b[i] as u32) + (b[i + 1] as u32) * 256 + (b[i + 2] as u32) * 65536 + (b[i + 3] as u32)
        * 16777216
}

fn probe_png_exec(b: &[u8]) -> (r: Option<(u32, u32)>)
    ensures
        r == probe_png(b@),
{
    let sig: [u8; 8] = [0x89, 0x50, 0x4e, 0x47, 0x0d, 0x0a, 0x1a, 0x0a];
    if b.len() >= 24 {
        let m = bytes_match(b, 0, sig.as_slice());
        assert(sig@ =~= png_signature());
        assert(b@.subrange(0, 8) =~= b@.take(8));
        if m {
            let w = rd_be32(b, 16);
            let h = rd_be32(b, 20);
            if w > 0 && h > 0 {
                return Some((w, h));
            }
        }
    }
    None
}

fn probe_gif_exec(b: &[u8]) -> (r: Option<(u32, u32)>)
    ensures
        r == probe_gif(b@),
{
    let g7: [u8; 6] = [0x47, 0x49, 0x46, 0x38, 0x37, 0x61];
    let g9: [u8; 6] = [0x47, 0x49, 0x46, 0x38, 0x39, 0x61];
    if b.len() >= 10 {
        assert(g7@ =~= gif87a());
        assert(g9@ =~= gif89a());
        assert(b@.subrange(0, 6) =~= b@.take(6));
        if bytes_match(b, 0, g7.as_slice()) || bytes_match(b, 0, g9.as_slice()) {
            let w = rd_le16(b, 6);
            let h = rd_le16(b, 8);
            if w > 0 && h > 0 {
                return Some((w, h));
            }
        }
    }
    None
}

fn probe_jpeg_exec(b: &[u8]) -> (r: Option<(u32, u32)>)
    ensures
        r == probe_jpeg(b@),
{
    if !(b.len() >= 4 && b[0] == 0xFF && b[1] == 0xD8) {
        return None;
    }
    let n = b.len();
    let mut i: usize = 2;
    loop
        invariant
            n == b@.len(),
            n >= 4,
            2 <= i <= n,
            b@[0] == 0xFF && b@[1] == 0xD8,
            jpeg_scan(b@, 2) == jpeg_scan(b@, i as int),
        decreases n - i,
    {
        if !(i < n && n - i > 4) {
            return None;
        }
        if b[i] != 0xFF {
            i += 1;
            continue;
        }
        let ghost i0 = i as int;
        while i < n && b[i] == 0xFF
            invariant
                n == b@.len(),
                i0 <= i <= n,
                skip_fill(b@, i0) == skip_fill(b@, i as int),
            decreases n - i,
        {
            i += 1;
        }
        if i >= n {
            return None;
        }
        let marker = b[i];
        i += 1;
        if marker == 0xD9 || marker == 0xDA {
            return None;
        }
        if i > n || n - i < 2 {
            return None;
        }
        let seg_len = rd_be16(b, i) as usize;
        if seg_len < 2 || seg_len > n - i {
            return None;
        }
        if marker == 0xC0 || marker == 0xC2 {
            if n - i <= 7 {
                return None;
            }
            let h = rd_be16(b, i + 3);
            let w = rd_be16(b, i + 5);
            if w > 0 && h > 0 {
                return Some((w, h));
            }
            return None;
        }
        i += seg_len;
    }
}

fn probe_webp_exec(b: &[u8]) -> (r: Option<(u32, u32)>)
    ensures
        r == probe_webp(b@),
{
    let riff: [u8; 4] = [0x52, 0x49, 0x46, 0x46];
    let webp: [u8; 4] = [0x57, 0x45, 0x42, 0x50];
    let vp8x: [u8; 4] = [0x56, 0x50, 0x38, 0x58];
    assert(riff@ =~= riff_tag());
    assert(webp@ =~= webp_tag());
    assert(vp8x@ =~= vp8x_tag());
    if b.len() < 30 {
        return None;
    }
    assert(b@.subrange(0, 4) =~= b@.take(4));
    if !(bytes_match(b, 0, riff.as_slice()) && bytes_match(b, 8, webp.as_slice())) {
        return None;
    }
    let n = b.len();
    let mut i: usize = 12;
    loop
        invariant
            n == b@.len(),
            12 <= i,
            vp8x@ == vp8x_tag(),
            probe_webp(b@) == webp_scan(b@, i as int),
        decreases n - i,
    {
        if i > n || n - i < 8 {
            return None;
        }
        let size = rd_le32(b, i + 4) as usize;
        let k = i + 8;
        if size > n - k {
            return None;
        }
        let is_vp8x = bytes_match(b, i, vp8x.as_slice());
        if is_vp8x && size >= 10 && k + 10 <= n {
            let w = rd_le24(b, k + 4);
            let h = rd_le24(b, k + 7);
            return Some((w + 1, h + 1));
        }
        let nxt = k + size;
        if size % 2 == 1 {
            if nxt == n {
                assert(webp_scan(b@, n + 1) is None);
                return None;
            }
            i = nxt + 1;
        } else {
            i = nxt;
        }
    }
}

/// Reads the pixel dimensions (width, height) of a PNG, GIF, JPEG or WebP image
/// from its leading bytes, without decoding it.
pub fn probe_image_dimensions(bytes: &[u8]) -> (r: Option<(u32, u32)>)
    ensures
        r == spec_probe_image_dimensions(bytes@),
{
    let png = probe_png_exec(bytes);
    if png.is_some() {
        return png;
    }
    let gif = probe_gif_exec(bytes);
    if gif.is_some() {
        return gif;
    }
    let jpeg = probe_jpeg_exec(bytes);
    if jpeg.is_some() {
        return jpeg;
    }
    probe_webp_exec(bytes)
}

/// Where and how uploaded media are stored.
#[derive(Debug, Clone)]
pub struct MediaConfig {
    /// "local" (default), "relay" or "webdav"
    pub backend: Option<String>,
    pub max_local_cache_bytes: Option<u64>,
    pub webdav_base_url: Option<String>,
    pub webdav_username: Option<String>,
    pub webdav_password: Option<String>,
    pub webdav_bearer_token: Option<String>,
    pub relay_base_url: Option<String>,
    pub relay_token: Option<String>,
}

impl Default for MediaConfig {
    /// Local storage with a 50 GiB cache and no remote settings.
    fn default() -> (r: Self)
        ensures
            r.backend matches Some(b) && b@ == "local"@,
            r.max_local_cache_bytes == Some(53_687_091_200u64),
            r.webdav_base_url is None && r.webdav_username is None && r.webdav_password is None,
            r.webdav_bearer_token is None && r.relay_base_url is None && r.relay_token is None,
    {
        MediaConfig {
            backend: Some("local".to_owned()),
            max_local_cache_bytes: Some(50 * 1024 * 1024 * 1024),
            webdav_base_url: None,
            webdav_username: None,
            webdav_password: None,
            webdav_bearer_token: None,
            relay_base_url: None,
            relay_token: None,
        }
    }
}

/// What an upload endpoint answers.
#[derive(Debug, Clone)]
pub struct MediaUploadResponse {
    pub id: String,
    pub url: String,
    pub media_type: String,
    pub size: u64,
    pub width: Option<u32>,
    pub height: Option<u32>,
    pub blurhash: Option<String>,
}

/// A stored upload: the answer, and the local file name when kept on disk.
#[derive(Debug, Clone)]
pub struct MediaSaved {
    pub response: MediaUploadResponse,
    pub local_name: Option<String>,
}

#[verifier::external_type_specification]
#[verifier::external_body]
pub struct ExPathBuf(std::path::PathBuf);

/// The path `std::path::Path::join` makes of `base` and `part`, as text.
pub uninterp spec fn path_join_of(base: Seq<char>, part: Seq<char>) -> Seq<char>;

/// `std::path::Path::new(base).join(part)`, as text (joining two UTF-8
/// paths gives a UTF-8 path, so nothing is lost).
#[verifier::external_body]
fn path_join(base: &str, part: &str) -> (r: String)
    ensures
        r@ == path_join_of(base@, part@),
{
    std::path::Path::new(base).join(part).to_string_lossy().into_owned()
}

/// The media directory under a data directory: the directory joined with `media`.
pub fn media_dir(data_dir: &str) -> (r: String)
    ensures
        r@ == path_join_of(data_dir@, "media"@),
{
    path_join(data_dir, "media")
}

/// Media kept on the local disk, under the data directory.
pub struct LocalFsMediaBackend {
    data_dir: std::path::PathBuf,
}

impl LocalFsMediaBackend {
    pub closed spec fn dir(&self) -> std::path::PathBuf {
        self.data_dir
    }

    pub fn new(data_dir: std::path::PathBuf) -> (r: Self)
        ensures
            r.dir() == data_dir,
    {
        LocalFsMediaBackend { data_dir }
    }

    /// The data directory the media live under.
    pub fn data_dir(&self) -> (r: &std::path::PathBuf)
        ensures
            *r == self.dir(),
    {
        &self.data_dir
    }
}

/// The extension of a file name as `Path::extension` finds it, when it is text.
pub uninterp spec fn file_extension_of(name: Seq<char>) -> Option<Seq<char>>;

/// The media type `mime_guess` associates first with a file name's extension.
pub uninterp spec fn guessed_mime_of(name: Seq<char>) -> Option<Seq<char>>;

/// `std::path::Path::extension` followed by `OsStr::to_str`.
#[verifier::external_body]
pub(crate) fn file_extension(name: &str) -> (r: Option<String>)
    ensures
        match r {
            Some(e) => file_extension_of(name@) == Some(e@),
            None => file_extension_of(name@) is None,
        },
{
    std::path::Path::new(name).extension().and_then(|s| s.to_str()).map(|s| s.to_owned())
}

/// `mime_guess::from_path(name).first()`, as text.
#[verifier::external_body]
pub(crate) fn guess_mime(name: &str) -> (r: Option<String>)
    ensures
        match r {
            Some(m) => guessed_mime_of(name@) == Some(m@),
            None => guessed_mime_of(name@) is None,
        },
{
    mime_guess::from_path(name).first().map(|m| m.to_string())
}

/// The name a local upload is stored under: the id, with the uploaded
/// file's extension when it has a non-empty one.
pub open spec fn spec_stored_name(id: Seq<char>, filename: Seq<char>) -> Seq<char> {
    match file_extension_of(filename) {
        Some(e) => if e.len() > 0 { id + "."@ + e } else { id },
        None => id,
    }
}

/// The media type of an upload: the declared one, else the guess from the
/// file name, else `application/octet-stream`.
pub open spec fn spec_upload_media_type(content_type: Option<Seq<char>>, filename: Seq<char>) -> Seq<char> {
    match content_type {
        Some(c) => c,
        None => match guessed_mime_of(filename) {
            Some(m) => m,
            None => "application/octet-stream"@,
        },
    }
}

/// The public URL of a local upload.
pub open spec fn spec_local_media_url(base: Seq<char>, username: Seq<char>, stored: Seq<char>) -> Seq<char> {
    crate::text::trim_end_char(base, '/') + "/users/"@ + username + "/media/"@ + stored
}

/// The record of an upload stored locally as `id` (see the spec functions above).
pub fn local_media_saved(id: &str, filename: &str, content_type: Option<&str>, public_base_url: &str, username: &str, size: u64) -> (r: MediaSaved)
    ensures
        r.response.id@ == spec_stored_name(id@, filename@),
        r.response.url@ == spec_local_media_url(public_base_url@, username@, spec_stored_name(id@, filename@)),
        r.response.media_type@ == spec_upload_media_type(crate::urls::opt_view(content_type), filename@),
        r.response.size == size,
        r.response.width is None && r.response.height is None && r.response.blurhash is None,
        r.local_name matches Some(n) && n@ == spec_stored_name(id@, filename@),
{
    let mut stored = crate::text::str_chars(id);
    match file_extension(filename) {
        Some(e) => {
            if crate::text::str_chars(e.as_str()).len() > 0 {
                crate::text::append_str(&mut stored, ".");
                crate::text::append_str(&mut stored, e.as_str());
            }
        },
        None => {},
    }
    let media_type = match content_type {
        Some(c) => c.to_owned(),
        None => match guess_mime(filename) {
            Some(m) => m,
            None => "application/octet-stream".to_owned(),
        },
    };
    let mut url = crate::text::trim_end_char_chars(&crate::text::str_chars(public_base_url), '/');
    crate::text::append_str(&mut url, "/users/");
    crate::text::append_str(&mut url, username);
    crate::text::append_str(&mut url, "/media/");
    crate::text::append_chars(&mut url, &stored);
    let stored_s = crate::text::string_from_chars(&stored);
    MediaSaved {
        response: MediaUploadResponse {
            id: crate::text::string_from_chars(&stored),
            url: crate::text::string_from_chars(&url),
            media_type,
            size,
            width: None,
            height: None,
            blurhash: None,
        },
        local_name: Some(stored_s),
    }
}

/// The storage a media configuration selects.
pub enum MediaBackendChoice {
    Local,
    WebDav { base_url: String, username: Option<String>, password: Option<String>, bearer_token: Option<String> },
    Relay { base_url: String, token: String },
}

/// Why a media configuration is refused.
#[derive(PartialEq, Eq, Structural, Clone, Copy, Debug)]
pub enum MediaConfigError {
    WebDavNeedsBaseUrl,
    RelayNeedsBaseUrl,
    RelayNeedsToken,
    UnsupportedBackend,
}

/// The backend named by a configuration (ASCII case ignored; `local` when unset).
pub open spec fn backend_name(cfg: MediaConfig) -> Seq<char> {
    match cfg.backend {
        Some(b) => crate::text::lower(b@),
        None => "local"@,
    }
}

/// Selects the media storage of a configuration: local, WebDAV (which needs
/// a base URL) or the relay (which needs a base URL and a token). Backend
/// names are compared case-insensitively; for these ASCII names ASCII case
/// folding decides as Unicode lowercasing does.
pub fn choose_media_backend(cfg: &MediaConfig) -> (r: Result<MediaBackendChoice, MediaConfigError>)
    ensures
        backend_name(*cfg) == "local"@ <==> r matches Ok(MediaBackendChoice::Local),
        backend_name(*cfg) == "webdav"@ ==> match r {
            Ok(MediaBackendChoice::WebDav { base_url, .. }) => cfg.webdav_base_url matches Some(b) && b@ == base_url@,
            Err(e) => e == MediaConfigError::WebDavNeedsBaseUrl && cfg.webdav_base_url is None,
            _ => false,
        },
        backend_name(*cfg) == "relay"@ ==> match r {
            Ok(MediaBackendChoice::Relay { base_url, token }) => (cfg.relay_base_url matches Some(b) && b@ == base_url@)
                && (cfg.relay_token matches Some(t) && t@ == token@),
            Err(e) => (e == MediaConfigError::RelayNeedsBaseUrl && cfg.relay_base_url is None)
                || (e == MediaConfigError::RelayNeedsToken && cfg.relay_base_url is Some && cfg.relay_token is None),
            _ => false,
        },
        backend_name(*cfg) != "local"@ && backend_name(*cfg) != "webdav"@ && backend_name(*cfg) != "relay"@
            ==> r == Err::<MediaBackendChoice, MediaConfigError>(MediaConfigError::UnsupportedBackend),
{
    let name = match &cfg.backend {
        Some(b) => crate::text::lower_chars(&crate::text::str_chars(b.as_str())),
        None => crate::text::str_chars("local"),
    };
    assert(name@ == backend_name(*cfg));
    let local = crate::text::str_chars("local");
    let webdav = crate::text::str_chars("webdav");
    let relay = crate::text::str_chars("relay");
    proof {
        reveal_strlit("local");
        reveal_strlit("webdav");
        reveal_strlit("relay");
    }
    if crate::text::chars_eq(&name, &local) {
        assert("local"@.len() == 5 && "webdav"@.len() == 6);
        assert("local"@[0] == 'l' && "relay"@[0] == 'r');
        assert(backend_name(*cfg) != "webdav"@ && backend_name(*cfg) != "relay"@);
        return Ok(MediaBackendChoice::Local);
    }
    if crate::text::chars_eq(&name, &webdav) {
        return match &cfg.webdav_base_url {
            Some(b) => Ok(MediaBackendChoice::WebDav {
                base_url: b.clone(),
                username: cfg.webdav_username.clone(),
                password: cfg.webdav_password.clone(),
                bearer_token: cfg.webdav_bearer_token.clone(),
            }),
            None => Err(MediaConfigError::WebDavNeedsBaseUrl),
        };
    }
    if crate::text::chars_eq(&name, &relay) {
        let base = match &cfg.relay_base_url {
            Some(b) => b.clone(),
            None => return Err(MediaConfigError::RelayNeedsBaseUrl),
        };
        let token = match &cfg.relay_token {
            Some(t) => t.clone(),
            None => return Err(MediaConfigError::RelayNeedsToken),
        };
        return Ok(MediaBackendChoice::Relay { base_url: base, token });
    }
    Err(MediaConfigError::UnsupportedBackend)
}

} // verus!
