//! Type validation: classifying a filename as an allowed media asset.
//!
//! A filename is accepted when, after ASCII case folding, its UTF-8 bytes
//! end in one of three fixed allow-lists of extensions: images, audio and
//! video. Everything else, including names without an extension and the
//! empty name, is rejected.

use vstd::prelude::*;
use vstd::string::*;
use vstd::slice::slice_index_get;

verus! {

/// ASCII case folding of one byte: the uppercase letters 'A' (65) through
/// 'Z' (90) map to their lowercase counterparts; every other byte is kept.
pub open spec fn fold_byte(b: u8) -> u8 {
    if 65 <= b && b <= 90 {
        (b + 32) as u8
    } else {
        b
    }
}

/// ASCII case folding of a whole byte sequence.
pub open spec fn fold_bytes(s: Seq<u8>) -> Seq<u8> {
    Seq::new(s.len(), |i: int| fold_byte(s[i]))
}

/// Whether `s` ends with `suffix`.
pub open spec fn ends_with(s: Seq<u8>, suffix: Seq<u8>) -> bool {
    &&& suffix.len() <= s.len()
    &&& s.subrange(s.len() - suffix.len(), s.len() as int) =~= suffix
}

/// The bytes of an ASCII string, byte for byte its characters.
pub open spec fn ascii_bytes_of(s: &str) -> Seq<u8> {
    Seq::new(s@.len(), |i: int| s@[i] as u8)
}

/// Whether the case-folded name ends in the given (lowercase ASCII)
/// extension.
pub open spec fn has_suffix_folded(name: Seq<u8>, ext: &str) -> bool {
    ends_with(fold_bytes(name), ascii_bytes_of(ext))
}

/// The image extension allow-list.
pub open spec fn is_image_name(name: Seq<u8>) -> bool {
    ||| has_suffix_folded(name, ".jpg")
    ||| has_suffix_folded(name, ".jpeg")
    ||| has_suffix_folded(name, ".png")
    ||| has_suffix_folded(name, ".gif")
    ||| has_suffix_folded(name, ".bmp")
    ||| has_suffix_folded(name, ".webp")
    ||| has_suffix_folded(name, ".svg")
    ||| has_suffix_folded(name, ".tiff")
    ||| has_suffix_folded(name, ".tif")
    ||| has_suffix_folded(name, ".ico")
}

/// The audio extension allow-list.
pub open spec fn is_audio_name(name: Seq<u8>) -> bool {
    ||| has_suffix_folded(name, ".mp3")
    ||| has_suffix_folded(name, ".wav")
    ||| has_suffix_folded(name, ".flac")
    ||| has_suffix_folded(name, ".aac")
    ||| has_suffix_folded(name, ".ogg")
    ||| has_suffix_folded(name, ".m4a")
    ||| has_suffix_folded(name, ".wma")
    ||| has_suffix_folded(name, ".opus")
}

/// The video extension allow-list.
pub open spec fn is_video_name(name: Seq<u8>) -> bool {
    ||| has_suffix_folded(name, ".mp4")
    ||| has_suffix_folded(name, ".avi")
    ||| has_suffix_folded(name, ".mov")
    ||| has_suffix_folded(name, ".wmv")
    ||| has_suffix_folded(name, ".flv")
    ||| has_suffix_folded(name, ".webm")
    ||| has_suffix_folded(name, ".mkv")
    ||| has_suffix_folded(name, ".m4v")
    ||| has_suffix_folded(name, ".3gp")
    ||| has_suffix_folded(name, ".ogv")
}

/// A name is a valid asset type when it carries an image, audio or video
/// extension, compared case-insensitively.
pub open spec fn is_valid_asset_type_spec(name: Seq<u8>) -> bool {
    is_image_name(name) || is_audio_name(name) || is_video_name(name)
}

/// All listed extensions in one sequence, images first, then audio, then
/// video.
pub open spec fn allowed_extensions() -> Seq<Seq<u8>> {
    seq![
        ascii_bytes_of(".jpg"),
        ascii_bytes_of(".jpeg"),
        ascii_bytes_of(".png"),
        ascii_bytes_of(".gif"),
        ascii_bytes_of(".bmp"),
        ascii_bytes_of(".webp"),
        ascii_bytes_of(".svg"),
        ascii_bytes_of(".tiff"),
        ascii_bytes_of(".tif"),
        ascii_bytes_of(".ico"),
        ascii_bytes_of(".mp3"),
        ascii_bytes_of(".wav"),
        ascii_bytes_of(".flac"),
        ascii_bytes_of(".aac"),
        ascii_bytes_of(".ogg"),
        ascii_bytes_of(".m4a"),
        ascii_bytes_of(".wma"),
        ascii_bytes_of(".opus"),
        ascii_bytes_of(".mp4"),
        ascii_bytes_of(".avi"),
        ascii_bytes_of(".mov"),
        ascii_bytes_of(".wmv"),
        ascii_bytes_of(".flv"),
        ascii_bytes_of(".webm"),
        ascii_bytes_of(".mkv"),
        ascii_bytes_of(".m4v"),
        ascii_bytes_of(".3gp"),
        ascii_bytes_of(".ogv"),
    ]
}

/// Every filename that ends, after ASCII case folding, in any listed
/// extension is classified as a valid asset type.
pub proof fn lemma_listed_suffix_accepted(name: Seq<u8>, ext: Seq<u8>)
    requires
        allowed_extensions().contains(ext),
        ends_with(fold_bytes(name), ext),
    ensures
        is_valid_asset_type_spec(name),
{
    let i = choose|i: int| 0 <= i < allowed_extensions().len() && allowed_extensions()[i] == ext;
    assert(0 <= i < allowed_extensions().len());
}

/// A filename is a valid asset type exactly when its case-folded bytes end
/// in one of the listed extensions: the allow-list is complete as well as
/// sound.
pub proof fn lemma_valid_iff_listed_suffix(name: Seq<u8>)
    ensures
        is_valid_asset_type_spec(name) <==> exists|i: int|
            0 <= i < allowed_extensions().len() && ends_with(
                fold_bytes(name),
                #[trigger] allowed_extensions()[i],
            ),
{
    assert(allowed_extensions()[0] == ascii_bytes_of(".jpg"));
    assert(allowed_extensions()[1] == ascii_bytes_of(".jpeg"));
    assert(allowed_extensions()[2] == ascii_bytes_of(".png"));
    assert(allowed_extensions()[3] == ascii_bytes_of(".gif"));
    assert(allowed_extensions()[4] == ascii_bytes_of(".bmp"));
    assert(allowed_extensions()[5] == ascii_bytes_of(".webp"));
    assert(allowed_extensions()[6] == ascii_bytes_of(".svg"));
    assert(allowed_extensions()[7] == ascii_bytes_of(".tiff"));
    assert(allowed_extensions()[8] == ascii_bytes_of(".tif"));
    assert(allowed_extensions()[9] == ascii_bytes_of(".ico"));
    assert(allowed_extensions()[10] == ascii_bytes_of(".mp3"));
    assert(allowed_extensions()[11] == ascii_bytes_of(".wav"));
    assert(allowed_extensions()[12] == ascii_bytes_of(".flac"));
    assert(allowed_extensions()[13] == ascii_bytes_of(".aac"));
    assert(allowed_extensions()[14] == ascii_bytes_of(".ogg"));
    assert(allowed_extensions()[15] == ascii_bytes_of(".m4a"));
    assert(allowed_extensions()[16] == ascii_bytes_of(".wma"));
    assert(allowed_extensions()[17] == ascii_bytes_of(".opus"));
    assert(allowed_extensions()[18] == ascii_bytes_of(".mp4"));
    assert(allowed_extensions()[19] == ascii_bytes_of(".avi"));
    assert(allowed_extensions()[20] == ascii_bytes_of(".mov"));
    assert(allowed_extensions()[21] == ascii_bytes_of(".wmv"));
    assert(allowed_extensions()[22] == ascii_bytes_of(".flv"));
    assert(allowed_extensions()[23] == ascii_bytes_of(".webm"));
    assert(allowed_extensions()[24] == ascii_bytes_of(".mkv"));
    assert(allowed_extensions()[25] == ascii_bytes_of(".m4v"));
    assert(allowed_extensions()[26] == ascii_bytes_of(".3gp"));
    assert(allowed_extensions()[27] == ascii_bytes_of(".ogv"));
    if exists|i: int|
        0 <= i < allowed_extensions().len() && ends_with(
            fold_bytes(name),
            #[trigger] allowed_extensions()[i],
        ) {
        let i = choose|i: int|
            0 <= i < allowed_extensions().len() && ends_with(
                fold_bytes(name),
                #[trigger] allowed_extensions()[i],
            );
        lemma_listed_suffix_accepted(name, allowed_extensions()[i]);
    }
}

/// ASCII case folding of one byte.
fn fold_byte_exec(b: u8) -> (r: u8)
    ensures
        r == fold_byte(b),
{
    if 65 <= b && b <= 90 {
        b + 32
    } else {
        b
    }
}

/// Whether the case-folded `name` ends with the ASCII extension `ext`.
fn ends_with_folded(name: &[u8], ext: &str) -> (r: bool)
    requires
        is_ascii(ext),
    ensures
        r == has_suffix_folded(name@, ext),
{
    let eb: &[u8] = ext.as_bytes();
    proof {
        is_ascii_spec_bytes(ext);
        assert(eb@ =~= ascii_bytes_of(ext));
    }
    let n = name.len();
    let m = eb.len();
    if m > n {
        return false;
    }
    let start = n - m;
    let mut i: usize = 0;
    while i < m
        invariant
            eb@ =~= ascii_bytes_of(ext),
            n == name@.len(),
            m == eb@.len(),
            m <= n,
            start == n - m,
            i <= m,
            forall|j: int| 0 <= j < i ==> fold_byte(name@[start + j]) == eb@[j],
        decreases m - i,
    {
        let nb = *slice_index_get(name, start + i);
        let fb = fold_byte_exec(nb);
        let xb = *slice_index_get(eb, i);
        if fb != xb {
            proof {
                let fs = fold_bytes(name@);
                assert(fs.subrange(start as int, n as int)[i as int] == fold_byte(
                    name@[start + i],
                ));
                assert(!ends_with(fs, eb@));
            }
            return false;
        }
        i += 1;
    }
    proof {
        assert(fold_bytes(name@).subrange(start as int, n as int) =~= eb@);
    }
    true
}

/// Classify a filename: true exactly when its UTF-8 bytes end, after ASCII
/// case folding, in one of the listed image, audio or video extensions.
pub fn is_valid_asset_type(filename: &str) -> (r: bool)
    ensures
        r == is_valid_asset_type_spec(filename.spec_bytes()),
{
    proof {
        reveal_strlit(".jpg");
        reveal_strlit(".jpeg");
        reveal_strlit(".png");
        reveal_strlit(".gif");
        reveal_strlit(".bmp");
        reveal_strlit(".webp");
        reveal_strlit(".svg");
        reveal_strlit(".tiff");
        reveal_strlit(".tif");
        reveal_strlit(".ico");
        reveal_strlit(".mp3");
        reveal_strlit(".wav");
        reveal_strlit(".flac");
        reveal_strlit(".aac");
        reveal_strlit(".ogg");
        reveal_strlit(".m4a");
        reveal_strlit(".wma");
        reveal_strlit(".opus");
        reveal_strlit(".mp4");
        reveal_strlit(".avi");
        reveal_strlit(".mov");
        reveal_strlit(".wmv");
        reveal_strlit(".flv");
        reveal_strlit(".webm");
        reveal_strlit(".mkv");
        reveal_strlit(".m4v");
        reveal_strlit(".3gp");
        reveal_strlit(".ogv");
    }
    let b: &[u8] = filename.as_bytes();
    let image = ends_with_folded(b, ".jpg") || ends_with_folded(b, ".jpeg")
        || ends_with_folded(b, ".png") || ends_with_folded(b, ".gif") || ends_with_folded(
        b,
        ".bmp",
    ) || ends_with_folded(b, ".webp") || ends_with_folded(b, ".svg") || ends_with_folded(
        b,
        ".tiff",
    ) || ends_with_folded(b, ".tif") || ends_with_folded(b, ".ico");
    let audio = ends_with_folded(b, ".mp3") || ends_with_folded(b, ".wav") || ends_with_folded(
        b,
        ".flac",
    ) || ends_with_folded(b, ".aac") || ends_with_folded(b, ".ogg") || ends_with_folded(
        b,
        ".m4a",
    ) || ends_with_folded(b, ".wma") || ends_with_folded(b, ".opus");
    let video = ends_with_folded(b, ".mp4") || ends_with_folded(b, ".avi") || ends_with_folded(
        b,
        ".mov",
    ) || ends_with_folded(b, ".wmv") || ends_with_folded(b, ".flv") || ends_with_folded(
        b,
        ".webm",
    ) || ends_with_folded(b, ".mkv") || ends_with_folded(b, ".m4v") || ends_with_folded(
        b,
        ".3gp",
    ) || ends_with_folded(b, ".ogv");
    image || audio || video
}

} // verus!
