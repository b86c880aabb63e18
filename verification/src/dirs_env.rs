//! The user's directories, as the `dirs` crate finds them, and the paths
//! the client keeps its files under. Local paths are held as the bytes the
//! platform stores them as, so a directory whose name is not UTF-8 text is
//! joined exactly as `PathBuf::join` joins it.
use vstd::prelude::*;
use vstd::utf8::encode_utf8;

verus! {

/// The byte that separates the components of a local path.
pub const PATH_SEPARATOR: u8 = 0x2f;

/// `dirs::config_dir()`, the path's bytes as the platform holds them. It
/// depends on the environment and the platform, so nothing is claimed of it.
#[verifier::external_body]
pub(crate) fn config_dir() -> Option<Vec<u8>> {
    dirs::config_dir().map(|p| p.into_os_string().into_encoded_bytes())
}

/// `dirs::home_dir()`, the path's bytes as the platform holds them. It
/// depends on the environment and the platform, so nothing is claimed of it.
#[verifier::external_body]
pub(crate) fn home_dir() -> Option<Vec<u8>> {
    dirs::home_dir().map(|p| p.into_os_string().into_encoded_bytes())
}

/// `dirs::cache_dir()`, the path's bytes as the platform holds them. It
/// depends on the environment and the platform, so nothing is claimed of it.
#[verifier::external_body]
fn cache_dir() -> Option<Vec<u8>> {
    dirs::cache_dir().map(|p| p.into_os_string().into_encoded_bytes())
}

/// `PathBuf::join` of a relative `part`: a `/` goes between them unless
/// `base` is empty or already ends with one.
pub open spec fn path_join(base: Seq<u8>, part: Seq<u8>) -> Seq<u8> {
    if base.len() == 0 || base.last() == PATH_SEPARATOR {
        base + part
    } else {
        base + seq![PATH_SEPARATOR] + part
    }
}

/// The UTF-8 bytes of a text, as a local path component.
pub fn bytes_of(s: &str) -> (b: Vec<u8>)
    ensures
        b@ == encode_utf8(s@),
{
    let src = s.as_bytes();
    let mut out: Vec<u8> = Vec::new();
    let mut i: usize = 0;
    while i < src.len()
        invariant
            i <= src@.len(),
            src@ == encode_utf8(s@),
            out@ == src@.take(i as int),
        decreases src@.len() - i,
    {
        out.push(src[i]);
        proof {
            assert(src@.take(i + 1) =~= src@.take(i as int).push(src@[i as int]));
        }
        i = i + 1;
    }
    proof {
        assert(src@.take(src@.len() as int) =~= src@);
    }
    out
}

/// Joins the relative component `part` to the local path `base`.
pub fn join(base: &[u8], part: &str) -> (p: Vec<u8>)
    ensures
        p@ == path_join(base@, encode_utf8(part@)),
{
    let mut out: Vec<u8> = Vec::new();
    let mut i: usize = 0;
    while i < base.len()
        invariant
            i <= base@.len(),
            out@ == base@.take(i as int),
        decreases base@.len() - i,
    {
        out.push(base[i]);
        proof {
            assert(base@.take(i + 1) =~= base@.take(i as int).push(base@[i as int]));
        }
        i = i + 1;
    }
    proof {
        assert(base@.take(base@.len() as int) =~= base@);
    }
    if base.len() > 0 && base[base.len() - 1] != PATH_SEPARATOR {
        out.push(PATH_SEPARATOR);
    }
    let tail = bytes_of(part);
    let ghost head = out@;
    let mut j: usize = 0;
    while j < tail.len()
        invariant
            j <= tail@.len(),
            out@ == head + tail@.take(j as int),
        decreases tail@.len() - j,
    {
        out.push(tail[j]);
        proof {
            assert(tail@.take(j + 1) =~= tail@.take(j as int).push(tail@[j as int]));
        }
        j = j + 1;
    }
    proof {
        assert(tail@.take(tail@.len() as int) =~= tail@);
        if base@.len() == 0 || base@.last() == PATH_SEPARATOR {
            assert(out@ =~= base@ + tail@);
        } else {
            assert(out@ =~= base@ + seq![PATH_SEPARATOR] + tail@);
        }
    }
    out
}

/// An optional local path as bytes.
pub open spec fn opt_view(o: Option<Vec<u8>>) -> Option<Seq<u8>> {
    match o {
        Some(s) => Some(s@),
        None => None,
    }
}

/// The directory used where the user has none: `/tmp`.
pub open spec fn fallback_dir() -> Seq<u8> {
    encode_utf8("/tmp"@)
}

/// Where the dark-mode flag is stored:
/// `<config dir or /tmp>/pdrive/dark_mode`.
pub open spec fn dark_mode_path_of(config: Option<Seq<u8>>) -> Seq<u8> {
    let base = match config {
        Some(c) => c,
        None => fallback_dir(),
    };
    path_join(path_join(base, encode_utf8("pdrive"@)), encode_utf8("dark_mode"@))
}

/// The file that holds the dark-mode flag, given what
/// `dirs::config_dir()` returned.
pub fn dark_mode_path_from(config: Option<Vec<u8>>) -> (p: Vec<u8>)
    ensures
        p@ == dark_mode_path_of(opt_view(config)),
{
    let base = match config {
        Some(d) => d,
        None => bytes_of("/tmp"),
    };
    let dir = join(base.as_slice(), "pdrive");
    join(dir.as_slice(), "dark_mode")
}

/// The file that holds the dark-mode flag, for the user's configuration
/// directory.
pub fn dark_mode_path() -> (p: Vec<u8>)
    ensures
        exists|c: Option<Seq<u8>>| p@ == dark_mode_path_of(c),
{
    let config = config_dir();
    let ghost c = opt_view(config);
    dark_mode_path_from(config)
}

/// Where downloaded files are saved: `<cache dir or /tmp>/pdrive`.
pub open spec fn download_dir_of(cache: Option<Seq<u8>>) -> Seq<u8> {
    let base = match cache {
        Some(c) => c,
        None => fallback_dir(),
    };
    path_join(base, encode_utf8("pdrive"@))
}

/// The directory downloaded files are saved to, given what
/// `dirs::cache_dir()` returned.
pub fn download_dir_from(cache: Option<Vec<u8>>) -> (p: Vec<u8>)
    ensures
        p@ == download_dir_of(opt_view(cache)),
{
    let base = match cache {
        Some(d) => d,
        None => bytes_of("/tmp"),
    };
    join(base.as_slice(), "pdrive")
}

/// The directory downloaded files are saved to before they are opened,
/// for the user's cache directory.
pub fn expected_cache_dir() -> (p: Vec<u8>)
    ensures
        exists|c: Option<Seq<u8>>| p@ == download_dir_of(c),
{
    let cache = cache_dir();
    let ghost c = opt_view(cache);
    download_dir_from(cache)
}

/// The dark-mode file and the download directory lie inside the
/// configuration and cache directories when the platform reports them.
pub proof fn law_client_files_inside_user_directories(c: Seq<u8>)
    ensures
        dark_mode_path_of(Some(c)).take(c.len() as int) == c,
        download_dir_of(Some(c)).take(c.len() as int) == c,
{
    let d = path_join(c, encode_utf8("pdrive"@));
    assert(d.take(c.len() as int) =~= c);
    assert(path_join(d, encode_utf8("dark_mode"@)).take(c.len() as int) =~= c);
}

} // verus!
