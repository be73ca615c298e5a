//! Photos: where a downloaded photo is stored, whether a download succeeded, and the
//! perceptual hash by which copies of a photo are recognised.

use vstd::prelude::*;

use crate::entropy::random_uuid;
use crate::error::ArachneError;
use crate::ids::{is_v4_uuid, uuid_hyphenated, uuid_string};
use crate::text::{chars_of, concat, decimal, push_decimal, seq_eq_exec, split_chars, split_on, string_of, views, lemma_split_nonempty};

verus! {

/// The image formats whose extension a stored photo keeps.
pub open spec fn is_known_extension(e: Seq<char>) -> bool {
    e == "jpg"@ || e == "jpeg"@ || e == "png"@ || e == "webp"@
}

/// The extension of a photo URL: what follows its last `.`, where that is a known
/// image extension, else `jpg`.
pub open spec fn photo_extension_spec(url: Seq<char>) -> Seq<char> {
    let last = split_on(url, '.').last();
    if is_known_extension(last) {
        last
    } else {
        "jpg"@
    }
}

/// The extension under which a photo from `url` is stored.
pub fn photo_extension(url: &str) -> (r: String)
    ensures
        r@ == photo_extension_spec(url@),
{
    let c = chars_of(url);
    let pieces = split_chars(&c, '.');
    proof {
        lemma_split_nonempty(url@, '.');
    }
    let last = &pieces[pieces.len() - 1];
    assert(views(pieces@)[pieces.len() - 1] == last@);
    let jpg = chars_of("jpg");
    let jpeg = chars_of("jpeg");
    let png = chars_of("png");
    let webp = chars_of("webp");
    if seq_eq_exec(last, &jpg) || seq_eq_exec(last, &jpeg) || seq_eq_exec(last, &png)
        || seq_eq_exec(last, &webp) {
        string_of(last)
    } else {
        "jpg".to_string()
    }
}

/// The object key of a stored photo: `arachne/{site}/{profile}/{photo}.{ext}`.
pub open spec fn photo_key_spec(site: Seq<char>, profile_id: u128, photo_id: u128, url: Seq<char>) -> Seq<char> {
    "arachne/"@ + site + "/"@ + uuid_hyphenated(profile_id) + "/"@ + uuid_hyphenated(photo_id) + "."@
        + photo_extension_spec(url)
}

/// The object key of photo `photo_id` of profile `profile_id`, downloaded from `url`.
pub fn photo_key(site: &str, profile_id: u128, photo_id: u128, url: &str) -> (r: String)
    ensures
        r@ == photo_key_spec(site@, profile_id, photo_id, url@),
{
    let a = chars_of("arachne/");
    let b = chars_of(site);
    let slash = chars_of("/");
    let p = uuid_string(profile_id);
    let pc = chars_of(p.as_str());
    let q = uuid_string(photo_id);
    let qc = chars_of(q.as_str());
    let dot = chars_of(".");
    let e = photo_extension(url);
    let ec = chars_of(e.as_str());
    let k1 = concat(&a, &b);
    let k2 = concat(&k1, &slash);
    let k3 = concat(&k2, &pc);
    let k4 = concat(&k3, &slash);
    let k5 = concat(&k4, &qc);
    let k6 = concat(&k5, &dot);
    string_of(&concat(&k6, &ec))
}

/// The object key for a new photo of profile `profile_id` downloaded from `url`,
/// under a fresh random photo id.
pub fn new_photo_key(site: &str, profile_id: u128, url: &str) -> (r: String)
    ensures
        exists|photo_id: u128| is_v4_uuid(photo_id) && r@ == photo_key_spec(site@, profile_id, photo_id, url@),
{
    let photo_id = random_uuid();
    photo_key(site, profile_id, photo_id, url)
}

/// A photo download succeeded with an HTTP status in `200..=299`; any other status is
/// an error that names the URL and the status line.
pub fn check_download_status(photo_url: &str, status: u16, status_line: &str) -> (r: Result<(), ArachneError>)
    ensures
        200 <= status <= 299 ==> r is Ok,
        !(200 <= status <= 299) ==> (r matches Err(ArachneError::S3(m)) && m@ == "failed to download photo "@
            + photo_url@ + ": HTTP "@ + status_line@),
{
    if 200 <= status && status <= 299 {
        Ok(())
    } else {
        let a = chars_of("failed to download photo ");
        let b = chars_of(photo_url);
        let c = chars_of(": HTTP ");
        let d = chars_of(status_line);
        let ab = concat(&a, &b);
        let abc = concat(&ab, &c);
        Err(ArachneError::S3(string_of(&concat(&abc, &d))))
    }
}

/// The perceptual hash that image_hasher's DoubleGradient algorithm gives, at the
/// given hash size, for the image that `bytes` decode to; `None` where they do not
/// decode.
pub uninterp spec fn double_gradient_hash(bytes: Seq<u8>, width: u32, height: u32) -> Option<Seq<u8>>;

/// Decodes `bytes` as an image of the format that `image::ImageReader` guesses
/// (`with_guessed_format`, `decode`) and hashes it with image_hasher's DoubleGradient
/// algorithm at `width` x `height` (`HasherConfig`, `Hasher::hash_image`,
/// `ImageHash::as_bytes`). The claim is that the result is a function of the
/// arguments, named `double_gradient_hash`; the decoding and the hash are the two
/// crates' own. The size is kept small so that image_hasher's size arithmetic does not
/// overflow.
#[verifier::external_body]
fn perceptual_hash(bytes: &[u8], width: u32, height: u32) -> (r: Option<Vec<u8>>)
    requires
        1 <= width <= 1024,
        1 <= height <= 1024,
    ensures
        r matches Some(h) ==> double_gradient_hash(bytes@, width, height) == Some(h@),
        r is None ==> double_gradient_hash(bytes@, width, height) is None,
{
    let reader = image::ImageReader::new(std::io::Cursor::new(bytes)).with_guessed_format().ok()?;
    let img = reader.decode().ok()?;
    let config = image_hasher::HasherConfig::new().hash_alg(image_hasher::HashAlg::DoubleGradient);
    let hash = config.hash_size(width, height).to_hasher().hash_image(&img);
    Some(hash.as_bytes().to_vec())
}

/// The number that the eight bytes of `h` spell big-endian, as two's complement
/// (what `i64::from_be_bytes` gives).
pub open spec fn be_i64(h: Seq<u8>) -> i64
    recommends
        h.len() == 8,
{
    let u = h[0] * 72057594037927936int + h[1] * 281474976710656int + h[2] * 1099511627776int
        + h[3] * 4294967296int + h[4] * 16777216int + h[5] * 65536int + h[6] * 256int + h[7];
    if u >= 9223372036854775808int {
        (u - 18446744073709551616int) as i64
    } else {
        u as i64
    }
}

/// The first eight bytes of `h`, with zero bytes after it where it is shorter.
pub open spec fn first_eight(h: Seq<u8>) -> Seq<u8> {
    Seq::new(8, |i: int| if i < h.len() { h[i] } else { 0u8 })
}

/// The phash that hash bytes give: their first eight bytes big-endian, a shorter hash
/// filling the high bytes and zeros the rest.
pub open spec fn phash_from_bytes_spec(h: Seq<u8>) -> i64 {
    be_i64(first_eight(h))
}

/// The phash that hash bytes give.
pub fn phash_from_bytes(h: &Vec<u8>) -> (r: i64)
    ensures
        r == phash_from_bytes_spec(h@),
{
    let mut b: Vec<u8> = Vec::new();
    let mut i: usize = 0;
    while i < 8
        invariant
            i <= 8,
            b@.len() == i,
            forall|j: int| 0 <= j < i ==> b@[j] == first_eight(h@)[j],
        decreases 8 - i,
    {
        if i < h.len() {
            b.push(h[i]);
        } else {
            b.push(0u8);
        }
        i = i + 1;
    }
    assert(b@ == first_eight(h@));
    let u: u64 = b[0] as u64 * 72057594037927936u64 + b[1] as u64 * 281474976710656u64 + b[2] as u64
        * 1099511627776u64 + b[3] as u64 * 4294967296u64 + b[4] as u64 * 16777216u64 + b[5] as u64
        * 65536u64 + b[6] as u64 * 256u64 + b[7] as u64;
    if u >= 9223372036854775808u64 {
        ((u - 9223372036854775808u64) as i64) - 9223372036854775807i64 - 1
    } else {
        u as i64
    }
}

/// The perceptual hash of an image: the DoubleGradient hash at 8 x 8, as a number;
/// `None` where the bytes are no image.
pub open spec fn phash_spec(bytes: Seq<u8>) -> Option<i64> {
    match double_gradient_hash(bytes, 8, 8) {
        Some(h) => Some(phash_from_bytes_spec(h)),
        None => None,
    }
}

/// Compute a perceptual hash from image bytes.
pub fn compute_phash(bytes: &[u8]) -> (r: Option<i64>)
    ensures
        r == phash_spec(bytes@),
{
    match perceptual_hash(bytes, 8, 8) {
        Some(h) => Some(phash_from_bytes(&h)),
        None => None,
    }
}

} // verus!
