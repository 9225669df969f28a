use video_dispatch::ingress::{fresh_upload_key, upload_key_for};
use video_dispatch::worker::{dest_key_for, encoder_args, source_stem, transcode_profiles};

#[test]
fn stem_drops_the_extension() {
    assert_eq!(source_stem("upload-abc.mp4"), "upload-abc");
}

#[test]
fn stem_keeps_earlier_dots() {
    assert_eq!(source_stem("dir/movie.tar.mp4"), "movie.tar");
}

#[test]
fn stem_of_a_name_without_extension_is_the_name() {
    assert_eq!(source_stem("noext"), "noext");
}

#[test]
fn stem_keeps_a_leading_dot_name_whole() {
    assert_eq!(source_stem(".hidden"), ".hidden");
}

#[test]
fn stem_takes_the_part_after_the_last_slash() {
    assert_eq!(source_stem("a/b/c/video.mp4"), "video");
}

#[test]
fn dest_key_joins_stem_profile_and_suffix() {
    assert_eq!(dest_key_for("upload-x.mp4", "720p"), "upload-x/720p.mp4");
}

#[test]
fn profile_table_is_the_three_renditions() {
    let ps = transcode_profiles();
    let rows: Vec<(&str, &str, &str)> =
        ps.iter().map(|p| (p.name.as_str(), p.scale.as_str(), p.bitrate.as_str())).collect();
    assert_eq!(
        rows,
        vec![
            ("480p", "scale=854:480", "1000k"),
            ("720p", "scale=1280:720", "2500k"),
            ("1080p", "scale=1920:1080", "5000k"),
        ]
    );
}

#[test]
fn encoder_arguments_are_laid_out_in_order() {
    let args = encoder_args("/tmp/input.mp4", "/tmp/output_720p.mp4", "scale=1280:720", "2500k");
    let views: Vec<&str> = args.iter().map(|a| a.as_str()).collect();
    assert_eq!(
        views,
        vec![
            "-i",
            "/tmp/input.mp4",
            "-vf",
            "scale=1280:720",
            "-c:v",
            "libx264",
            "-b:v",
            "2500k",
            "-preset",
            "medium",
            "-crf",
            "23",
            "-c:a",
            "aac",
            "-b:a",
            "128k",
            "-movflags",
            "+faststart",
            "-y",
            "/tmp/output_720p.mp4",
        ]
    );
}

#[test]
fn upload_key_wraps_the_token() {
    assert_eq!(upload_key_for("t-1"), "upload-t-1.mp4");
}

#[test]
fn fresh_upload_keys_have_the_fixed_shape() {
    let k = fresh_upload_key();
    assert_eq!(k.chars().count(), 47);
    assert!(k.starts_with("upload-"));
    assert!(k.ends_with(".mp4"));
    let again = fresh_upload_key();
    assert_ne!(k, again);
}
