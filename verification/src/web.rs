//! How a requested asset path is normalised before lookup, and the
//! content type served with it. Serving the bytes over HTTP is the
//! surrounding program's business.
use vstd::prelude::*;

use vstd::string::StrSliceExecFns;
use vstd::string::StringExecFns;

verus! {

/// `/app/` stripped from the front of the path, repeatedly.
pub open spec fn strip_app_prefix(path: Seq<char>) -> Seq<char>
    decreases path.len(),
{
    if path.len() >= 5 && path.take(5) == "/app/"@ {
        strip_app_prefix(path.skip(5))
    } else {
        path
    }
}

/// The asset a request path names: a path already under `assets/` is
/// kept as it is; any other has every leading `/app/` removed.
pub open spec fn spec_normalize(path: Seq<char>) -> Seq<char> {
    if path.len() >= 7 && path.take(7) == "assets/"@ {
        path
    } else {
        strip_app_prefix(path)
    }
}

fn strip_app<'a>(s: &'a str) -> (r: &'a str)
    ensures
        r@ == strip_app_prefix(s@),
    decreases s@.len(),
{
    let m = s.unicode_len();
    if m >= 5 && s.get_char(0) == '/' && s.get_char(1) == 'a' && s.get_char(2) == 'p'
        && s.get_char(3) == 'p' && s.get_char(4) == '/' {
        proof {
            reveal_strlit("/app/");
            assert(s@.take(5) =~= "/app/"@);
        }
        strip_app(s.substring_char(5, m))
    } else {
        proof {
            reveal_strlit("/app/");
            assert(!(s@.len() >= 5 && s@.take(5) == "/app/"@)) by {
                if s@.len() >= 5 && s@.take(5) == "/app/"@ {
                    assert(s@[0] == s@.take(5)[0]);
                    assert(s@[1] == s@.take(5)[1]);
                    assert(s@[2] == s@.take(5)[2]);
                    assert(s@[3] == s@.take(5)[3]);
                    assert(s@[4] == s@.take(5)[4]);
                }
            }
        }
        s
    }
}

/// Normalise a requested path to the asset it names.
pub fn normalize_asset_path(path: &str) -> (r: String)
    ensures
        r@ == spec_normalize(path@),
{
    let n = path.unicode_len();
    let is_assets = n >= 7 && path.get_char(0) == 'a' && path.get_char(1) == 's' && path.get_char(
        2,
    ) == 's' && path.get_char(3) == 'e' && path.get_char(4) == 't' && path.get_char(5) == 's'
        && path.get_char(6) == '/';
    proof {
        reveal_strlit("assets/");
        if is_assets {
            assert(path@.take(7) =~= "assets/"@);
        } else {
            assert(!(path@.len() >= 7 && path@.take(7) == "assets/"@)) by {
                if path@.len() >= 7 && path@.take(7) == "assets/"@ {
                    assert(path@[0] == path@.take(7)[0]);
                    assert(path@[1] == path@.take(7)[1]);
                    assert(path@[2] == path@.take(7)[2]);
                    assert(path@[3] == path@.take(7)[3]);
                    assert(path@[4] == path@.take(7)[4]);
                    assert(path@[5] == path@.take(7)[5]);
                    assert(path@[6] == path@.take(7)[6]);
                }
            }
        }
    }
    if is_assets {
        path.to_owned()
    } else {
        let stripped = strip_app(path);
        stripped.to_owned()
    }
}

/// The content type mime_guess assigns to a path, octet-stream when it
/// knows none. A fixed function of the path's extension.
pub uninterp spec fn mime_of(path: Seq<char>) -> Seq<char>;

/// Relies on mime_guess::from_path (taking first_or_octet_stream of the
/// guess): the result is drawn from a built-in table by the path's
/// extension alone, so it depends on nothing but the argument.
#[verifier::external_body]
fn mime_for_path(path: &str) -> (r: String)
    ensures
        r@ == mime_of(path@),
{
    mime_guess::from_path(path).first_or_octet_stream().to_string()
}

/// The content type an asset request is answered with: the mime type
/// of the normalised path.
pub fn asset_content_type(path: &str) -> (r: String)
    ensures
        r@ == mime_of(spec_normalize(path@)),
{
    let normalized = normalize_asset_path(path);
    mime_for_path(normalized.as_str())
}

} // verus!
