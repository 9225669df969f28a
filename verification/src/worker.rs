//! Destination keys and encoder invocations of the transcoding worker.
//!
//! The worker downloads a source object, produces one rendition per
//! profile and uploads each under `<source-stem>/<profile-name>.mp4`.
//! The stem computation, the profile table and the encoder's argument
//! list are fixed here; the downloads, uploads and the encoder process
//! are the surrounding application's part.

use vstd::prelude::*;

verus! {

/// The position right after the last `/`, or the start when there is
/// none: where the file name begins.
pub open spec fn file_start(k: Seq<char>) -> int
    decreases k.len(),
{
    if k.len() == 0 {
        0
    } else if k[k.len() - 1] == '/' {
        k.len() as int
    } else {
        file_start(k.drop_last())
    }
}

/// The position of the last `.`, or `-1` when there is none.
pub open spec fn last_dot(f: Seq<char>) -> int
    decreases f.len(),
{
    if f.len() == 0 {
        -1
    } else if f[f.len() - 1] == '.' {
        (f.len() - 1) as int
    } else {
        last_dot(f.drop_last())
    }
}

/// The stem of an object key: the file name after the last `/`, with
/// everything from its last `.` on removed — unless that `.` leads the
/// file name, which then stays whole.
pub open spec fn stem_of(k: Seq<char>) -> Seq<char> {
    let f = k.subrange(file_start(k), k.len() as int);
    let d = last_dot(f);
    if d <= 0 {
        f
    } else {
        f.subrange(0, d)
    }
}

/// Where the file name of `key` begins.
fn find_file_start(key: &str) -> (r: usize)
    ensures
        r == file_start(key@),
        r <= key@.len(),
{
    let n = key.unicode_len();
    let mut fs: usize = 0;
    let mut j: usize = 0;
    while j < n
        invariant
            j <= n,
            n == key@.len(),
            fs <= j,
            fs == file_start(key@.subrange(0, j as int)),
        decreases n - j,
    {
        let c = key.get_char(j);
        if c == '/' {
            fs = j + 1;
        }
        proof {
            let pre1 = key@.subrange(0, j as int + 1);
            assert(pre1.drop_last() =~= key@.subrange(0, j as int));
            assert(pre1[pre1.len() - 1] == key@[j as int]);
            assert(fs == file_start(pre1));
        }
        j = j + 1;
    }
    proof {
        assert(key@.subrange(0, n as int) =~= key@);
    }
    fs
}

/// The stem of an object key, as [`stem_of`] says.  A key whose file
/// name is empty yields an empty stem.
pub fn source_stem(key: &str) -> (r: String)
    ensures
        r@ == stem_of(key@),
{
    let n = key.unicode_len();
    let fs = find_file_start(key);
    let ghost f = key@.subrange(fs as int, n as int);
    let mut found = false;
    let mut d: usize = 0;
    let mut j: usize = fs;
    while j < n
        invariant
            fs <= j <= n,
            n == key@.len(),
            f == key@.subrange(fs as int, n as int),
            found ==> fs <= d && (d as int) < j && last_dot(
                key@.subrange(fs as int, j as int),
            ) == d - fs,
            !found ==> last_dot(key@.subrange(fs as int, j as int)) == -1,
        decreases n - j,
    {
        let c = key.get_char(j);
        if c == '.' {
            found = true;
            d = j;
        }
        proof {
            let pre1 = key@.subrange(fs as int, j as int + 1);
            assert(pre1.drop_last() =~= key@.subrange(fs as int, j as int));
            assert(pre1[pre1.len() - 1] == key@[j as int]);
            if found {
                assert(last_dot(pre1) == d - fs);
            } else {
                assert(last_dot(pre1) == -1);
            }
        }
        j = j + 1;
    }
    proof {
        assert(key@.subrange(fs as int, n as int) == f);
    }
    let stem_end: usize = if found && d > fs {
        d
    } else {
        n
    };
    let s = key.substring_char(fs, stem_end);
    proof {
        if found && d > fs {
            assert(last_dot(f) == d - fs);
            assert(stem_of(key@) =~= f.subrange(0, d - fs));
            assert(s@ =~= stem_of(key@));
        } else {
            assert(stem_of(key@) =~= f);
            assert(s@ =~= stem_of(key@));
        }
    }
    s.to_owned()
}

/// The destination key of one rendition: the source key's stem, `/`,
/// the profile name, `.mp4`.
pub fn dest_key_for(source_key: &str, profile: &str) -> (k: String)
    ensures
        k@ == stem_of(source_key@) + "/"@ + profile@ + ".mp4"@,
{
    let mut k = source_stem(source_key);
    k.append("/");
    k.append(profile);
    k.append(".mp4");
    proof {
        assert(k@ =~= stem_of(source_key@) + "/"@ + profile@ + ".mp4"@);
    }
    k
}

/// One target rendition: its name, its scale filter, its video
/// bitrate.
pub struct RenditionProfile {
    pub name: String,
    pub scale: String,
    pub bitrate: String,
}

/// The three renditions the worker produces for every source.
pub fn transcode_profiles() -> (r: Vec<RenditionProfile>)
    ensures
        r@.len() == 3,
        r@[0].name@ == "480p"@ && r@[0].scale@ == "scale=854:480"@ && r@[0].bitrate@ == "1000k"@,
        r@[1].name@ == "720p"@ && r@[1].scale@ == "scale=1280:720"@ && r@[1].bitrate@ == "2500k"@,
        r@[2].name@ == "1080p"@ && r@[2].scale@ == "scale=1920:1080"@ && r@[2].bitrate@
            == "5000k"@,
{
    let mut out: Vec<RenditionProfile> = Vec::new();
    out.push(
        RenditionProfile {
            name: String::from_str("480p"),
            scale: String::from_str("scale=854:480"),
            bitrate: String::from_str("1000k"),
        },
    );
    out.push(
        RenditionProfile {
            name: String::from_str("720p"),
            scale: String::from_str("scale=1280:720"),
            bitrate: String::from_str("2500k"),
        },
    );
    out.push(
        RenditionProfile {
            name: String::from_str("1080p"),
            scale: String::from_str("scale=1920:1080"),
            bitrate: String::from_str("5000k"),
        },
    );
    out
}

/// The views of an argument list, in order.
pub open spec fn string_views(v: Seq<String>) -> Seq<Seq<char>> {
    Seq::new(v.len(), |i: int| v[i]@)
}

/// The encoder's argument list for one rendition.
pub open spec fn encoder_args_model(
    input: Seq<char>,
    output: Seq<char>,
    scale: Seq<char>,
    bitrate: Seq<char>,
) -> Seq<Seq<char>> {
    seq![
        "-i"@,
        input,
        "-vf"@,
        scale,
        "-c:v"@,
        "libx264"@,
        "-b:v"@,
        bitrate,
        "-preset"@,
        "medium"@,
        "-crf"@,
        "23"@,
        "-c:a"@,
        "aac"@,
        "-b:a"@,
        "128k"@,
        "-movflags"@,
        "+faststart"@,
        "-y"@,
        output,
    ]
}

/// Builds the encoder's argument list for one rendition, exactly as
/// [`encoder_args_model`] lays it out.
pub fn encoder_args(input: &str, output: &str, scale: &str, bitrate: &str) -> (r: Vec<String>)
    ensures
        string_views(r@) == encoder_args_model(input@, output@, scale@, bitrate@),
{
    let mut out: Vec<String> = Vec::new();
    out.push(String::from_str("-i"));
    out.push(String::from_str(input));
    out.push(String::from_str("-vf"));
    out.push(String::from_str(scale));
    out.push(String::from_str("-c:v"));
    out.push(String::from_str("libx264"));
    out.push(String::from_str("-b:v"));
    out.push(String::from_str(bitrate));
    out.push(String::from_str("-preset"));
    out.push(String::from_str("medium"));
    out.push(String::from_str("-crf"));
    out.push(String::from_str("23"));
    out.push(String::from_str("-c:a"));
    out.push(String::from_str("aac"));
    out.push(String::from_str("-b:a"));
    out.push(String::from_str("128k"));
    out.push(String::from_str("-movflags"));
    out.push(String::from_str("+faststart"));
    out.push(String::from_str("-y"));
    out.push(String::from_str(output));
    proof {
        assert(string_views(out@) =~= encoder_args_model(input@, output@, scale@, bitrate@));
    }
    out
}

} // verus!
