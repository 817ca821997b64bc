use asset_gateway::validate::is_valid_asset_type;

#[test]
fn accepts_image_extensions() {
    assert!(is_valid_asset_type("photo.jpg"));
    assert!(is_valid_asset_type("photo.jpeg"));
    assert!(is_valid_asset_type("logo.png"));
    assert!(is_valid_asset_type("anim.gif"));
    assert!(is_valid_asset_type("scan.bmp"));
    assert!(is_valid_asset_type("art.webp"));
    assert!(is_valid_asset_type("icon.svg"));
    assert!(is_valid_asset_type("page.tiff"));
    assert!(is_valid_asset_type("page.tif"));
    assert!(is_valid_asset_type("favicon.ico"));
}

#[test]
fn accepts_audio_extensions() {
    assert!(is_valid_asset_type("song.mp3"));
    assert!(is_valid_asset_type("take.wav"));
    assert!(is_valid_asset_type("master.flac"));
    assert!(is_valid_asset_type("stream.aac"));
    assert!(is_valid_asset_type("clip.ogg"));
    assert!(is_valid_asset_type("voice.m4a"));
    assert!(is_valid_asset_type("old.wma"));
    assert!(is_valid_asset_type("talk.opus"));
}

#[test]
fn accepts_video_extensions() {
    assert!(is_valid_asset_type("movie.mp4"));
    assert!(is_valid_asset_type("cam.avi"));
    assert!(is_valid_asset_type("reel.mov"));
    assert!(is_valid_asset_type("cast.wmv"));
    assert!(is_valid_asset_type("flash.flv"));
    assert!(is_valid_asset_type("web.webm"));
    assert!(is_valid_asset_type("rip.mkv"));
    assert!(is_valid_asset_type("pod.m4v"));
    assert!(is_valid_asset_type("phone.3gp"));
    assert!(is_valid_asset_type("theora.ogv"));
}

#[test]
fn accepts_uppercase_and_mixed_case() {
    assert!(is_valid_asset_type("PHOTO.JPG"));
    assert!(is_valid_asset_type("Photo.PnG"));
    assert!(is_valid_asset_type("SONG.Mp3"));
    assert!(is_valid_asset_type("MOVIE.WEBM"));
}

#[test]
fn rejects_unlisted_extensions() {
    assert!(!is_valid_asset_type("doc.pdf"));
    assert!(!is_valid_asset_type("script.exe"));
    assert!(!is_valid_asset_type("archive.tar.gz"));
    assert!(!is_valid_asset_type("page.html"));
}

#[test]
fn rejects_names_without_extension() {
    assert!(!is_valid_asset_type("noext"));
    assert!(!is_valid_asset_type("jpg"));
    assert!(!is_valid_asset_type("png."));
}

#[test]
fn rejects_empty_name() {
    assert!(!is_valid_asset_type(""));
}

#[test]
fn extension_alone_counts_as_suffix() {
    assert!(is_valid_asset_type(".png"));
    assert!(is_valid_asset_type("a.b.png"));
}

#[test]
fn non_ascii_stems_do_not_disturb_the_suffix() {
    assert!(is_valid_asset_type("caf\u{e9}.png"));
    assert!(!is_valid_asset_type("caf\u{e9}.pdf"));
}
