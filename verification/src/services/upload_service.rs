//! Image uploads: which files are accepted, how large they may grow, and where they go.

use vstd::prelude::*;
use std::path::PathBuf;
use crate::error::AppError;
use crate::text::{ascii_alnum, ascii_lower, chars_of, is_ascii_alnum, str_eq, string_of, to_ascii_lower};

verus! {

broadcast use vstd::string::group_string_axioms;

/// The largest image accepted, in bytes (5 MiB).
pub const MAX_IMAGE_BYTES: usize = 5_242_880;

/// A stored upload and the asset row that records it.
#[derive(Debug)]
pub struct UploadedAsset {
    pub asset_id: i64,
    pub public_path: String,
    pub disk_path: PathBuf,
    pub mime: String,
    pub bytes: i64,
    pub original: String,
}

/// The image types accepted: PNG, JPEG, GIF and WebP.
pub open spec fn is_allowed_image_mime(mime: Seq<char>) -> bool {
    mime == "image/png"@ || mime == "image/jpeg"@ || mime == "image/gif"@ || mime
        == "image/webp"@
}

/// The file extension used for an image type; `bin` for any other type.
pub open spec fn image_extension(mime: Seq<char>) -> Seq<char> {
    if mime == "image/png"@ {
        "png"@
    } else if mime == "image/jpeg"@ {
        "jpg"@
    } else if mime == "image/gif"@ {
        "gif"@
    } else if mime == "image/webp"@ {
        "webp"@
    } else {
        "bin"@
    }
}

/// The ASCII letters and digits of `s`, in order.
pub open spec fn ascii_alnum_only(s: Seq<char>) -> Seq<char>
    decreases s.len(),
{
    if s.len() == 0 {
        seq![]
    } else if is_ascii_alnum(s.last()) {
        ascii_alnum_only(s.drop_last()).push(s.last())
    } else {
        ascii_alnum_only(s.drop_last())
    }
}

/// An extension made safe: only ASCII letters and digits, at most eight, lowered.
pub open spec fn sanitized_extension(ext: Seq<char>) -> Seq<char> {
    let kept = ascii_alnum_only(ext);
    let kept = if kept.len() <= 8 {
        kept
    } else {
        kept.take(8)
    };
    kept.map_values(|c: char| ascii_lower(c))
}

/// Accepts the allowed image types and refuses any other with `BadRequest`.
pub fn validate_image_mime(mime: &str) -> (r: Result<(), AppError>)
    ensures
        r is Ok <==> is_allowed_image_mime(mime@),
        r matches Err(e) ==> e matches AppError::BadRequest(m) && m@ == "Unsupported mime type: "@
            + mime@,
{
    if str_eq(mime, "image/png") || str_eq(mime, "image/jpeg") || str_eq(mime, "image/gif")
        || str_eq(mime, "image/webp") {
        Ok(())
    } else {
        let mut m = String::from_str("Unsupported mime type: ");
        m.append(mime);
        Err(AppError::BadRequest(m))
    }
}

/// The extension for an image type.
pub fn guess_image_extension(mime: &str) -> (r: &'static str)
    ensures
        r@ == image_extension(mime@),
{
    if str_eq(mime, "image/png") {
        "png"
    } else if str_eq(mime, "image/jpeg") {
        "jpg"
    } else if str_eq(mime, "image/gif") {
        "gif"
    } else if str_eq(mime, "image/webp") {
        "webp"
    } else {
        "bin"
    }
}

/// Keeps the ASCII letters and digits of `ext`, at most eight, lowered.
pub fn sanitize_extension(ext: &str) -> (r: String)
    ensures
        r@ == sanitized_extension(ext@),
{
    let v = chars_of(ext);
    let mut kept: Vec<char> = Vec::new();
    let mut i: usize = 0;
    while i < v.len()
        invariant
            i <= v.len(),
            kept@ == ascii_alnum_only(v@.take(i as int)),
        decreases v.len() - i,
    {
        proof {
            let t = v@.take(i + 1);
            assert(t.drop_last() =~= v@.take(i as int));
            assert(t.last() == v@[i as int]);
        }
        if ascii_alnum(v[i]) {
            kept.push(v[i]);
        }
        i += 1;
    }
    assert(v@.take(v.len() as int) =~= v@);
    let ghost all = kept@;
    let mut out: Vec<char> = Vec::new();
    let mut j: usize = 0;
    while j < kept.len() && j < 8
        invariant
            j <= kept.len(),
            j <= 8,
            kept@ == all,
            out@ == all.take(j as int).map_values(|c: char| ascii_lower(c)),
        decreases kept.len() - j,
    {
        out.push(to_ascii_lower(kept[j]));
        j += 1;
        assert(out@ =~= all.take(j as int).map_values(|c: char| ascii_lower(c)));
    }
    assert(out@ =~= sanitized_extension(ext@)) by {
        if all.len() <= 8 {
            assert(all.take(all.len() as int) =~= all);
        }
    }
    string_of(&out)
}

/// Adds a received chunk to the bytes stored so far; refuses with `File too large.` once
/// the total would pass `MAX_IMAGE_BYTES`.
pub fn add_chunk_len(total: usize, chunk_len: usize) -> (r: Result<usize, AppError>)
    ensures
        r is Ok <==> total + chunk_len <= MAX_IMAGE_BYTES,
        r matches Ok(n) ==> n == total + chunk_len,
        r matches Err(e) ==> e matches AppError::BadRequest(m) && m@ == "File too large."@,
{
    match total.checked_add(chunk_len) {
        Some(b) => {
            if b <= MAX_IMAGE_BYTES {
                Ok(b)
            } else {
                Err(AppError::BadRequest(String::from_str("File too large.")))
            }
        },
        None => Err(AppError::BadRequest(String::from_str("File too large."))),
    }
}

/// The name an upload is stored under: the random token, a dot, and the safe extension
/// of its image type.
pub fn stored_file_name(token: &str, mime: &str) -> (r: String)
    ensures
        r@ == token@ + "."@ + sanitized_extension(image_extension(mime@)),
{
    let ext = sanitize_extension(guess_image_extension(mime));
    let mut name = String::from_str(token);
    name.append(".");
    name.append(ext.as_str());
    name
}

/// Where a stored file is served: `/static/uploads/` and its name.
pub fn public_upload_path(file_name: &str) -> (r: String)
    ensures
        r@ == "/static/uploads/"@ + file_name@,
{
    let mut p = String::from_str("/static/uploads/");
    p.append(file_name);
    p
}

/// The file a stream is written to before it is renamed into place.
pub fn partial_file_name(file_name: &str) -> (r: String)
    ensures
        r@ == file_name@ + ".part"@,
{
    let mut p = String::from_str(file_name);
    p.append(".part");
    p
}

/// The recorded original name of an upload: its file name, or `upload.bin`.
pub fn upload_original_name(file_name: Option<&str>) -> (r: String)
    ensures
        r@ == match file_name {
            Some(n) => n@,
            None => "upload.bin"@,
        },
{
    match file_name {
        Some(n) => String::from_str(n),
        None => String::from_str("upload.bin"),
    }
}

/// The recorded type of an upload: its content type, or `application/octet-stream`.
pub fn upload_mime(content_type: Option<&str>) -> (r: String)
    ensures
        r@ == match content_type {
            Some(m) => m@,
            None => "application/octet-stream"@,
        },
{
    match content_type {
        Some(m) => String::from_str(m),
        None => String::from_str("application/octet-stream"),
    }
}

/// No accepted image has an unsafe extension: the extension of an allowed type survives
/// sanitizing unchanged.
pub proof fn law_allowed_types_keep_their_extension(mime: Seq<char>)
    requires
        is_allowed_image_mime(mime),
    ensures
        sanitized_extension(image_extension(mime)) == image_extension(mime),
{
    reveal_strlit("png");
    reveal_strlit("jpg");
    reveal_strlit("gif");
    reveal_strlit("webp");
    let e = image_extension(mime);
    assert(ascii_alnum_only(e) =~= e) by {
        lemma_ascii_alnum_only_keeps(e);
    }
    assert(e.map_values(|c: char| ascii_lower(c)) =~= e);
}

proof fn lemma_ascii_alnum_only_keeps(s: Seq<char>)
    requires
        forall|i: int| 0 <= i < s.len() ==> is_ascii_alnum(#[trigger] s[i]),
    ensures
        ascii_alnum_only(s) == s,
    decreases s.len(),
{
    if s.len() > 0 {
        lemma_ascii_alnum_only_keeps(s.drop_last());
        assert(s.drop_last().push(s.last()) =~= s);
    }
}

proof fn lemma_ascii_alnum_only_chars(s: Seq<char>)
    ensures
        forall|i: int|
            0 <= i < ascii_alnum_only(s).len() ==> is_ascii_alnum(#[trigger] ascii_alnum_only(s)[i]),
    decreases s.len(),
{
    if s.len() > 0 {
        let init = ascii_alnum_only(s.drop_last());
        lemma_ascii_alnum_only_chars(s.drop_last());
        if is_ascii_alnum(s.last()) {
            assert forall|i: int| 0 <= i < init.push(s.last()).len() implies is_ascii_alnum(
                #[trigger] init.push(s.last())[i],
            ) by {
                if i < init.len() {
                    assert(init.push(s.last())[i] == init[i]);
                }
            }
        }
    }
}

/// A small ASCII letter or a digit.
pub open spec fn is_lower_alnum(c: char) -> bool {
    ('a' <= c && c <= 'z') || ('0' <= c && c <= '9')
}

/// A sanitized extension is at most eight small ASCII letters and digits, and sanitizing
/// it again changes nothing.
pub proof fn law_sanitized_extension_is_stable(ext: Seq<char>)
    ensures
        sanitized_extension(ext).len() <= 8,
        forall|i: int|
            0 <= i < sanitized_extension(ext).len() ==> is_lower_alnum(
                #[trigger] sanitized_extension(ext)[i],
            ),
        sanitized_extension(sanitized_extension(ext)) == sanitized_extension(ext),
{
    let kept0 = ascii_alnum_only(ext);
    lemma_ascii_alnum_only_chars(ext);
    let kept = if kept0.len() <= 8 {
        kept0
    } else {
        kept0.take(8)
    };
    assert forall|i: int| 0 <= i < kept.len() implies is_ascii_alnum(#[trigger] kept[i]) by {
        assert(kept[i] == kept0[i]);
    }
    let r = sanitized_extension(ext);
    assert(r == kept.map_values(|c: char| ascii_lower(c)));
    assert forall|i: int| 0 <= i < r.len() implies is_lower_alnum(#[trigger] r[i]) by {
        assert(r[i] == ascii_lower(kept[i]));
        assert(is_ascii_alnum(kept[i]));
    }
    assert forall|i: int| 0 <= i < r.len() implies is_ascii_alnum(#[trigger] r[i]) by {
        assert(is_lower_alnum(r[i]));
    }
    lemma_ascii_alnum_only_keeps(r);
    assert forall|i: int| 0 <= i < r.len() implies ascii_lower(#[trigger] r[i]) == r[i] by {
        assert(is_lower_alnum(r[i]));
    }
    assert(r.map_values(|c: char| ascii_lower(c)) =~= r);
}

/// Each allowed image type is stored under its own name: the extension is the subtype
/// after `image/` (`jpg` for `image/jpeg`), so distinct allowed types get distinct
/// extensions.
pub proof fn law_image_extension_names_the_type(mime: Seq<char>, other: Seq<char>)
    requires
        is_allowed_image_mime(mime),
    ensures
        mime == "image/jpeg"@ ==> image_extension(mime) == "jpg"@,
        mime != "image/jpeg"@ ==> "image/"@ + image_extension(mime) == mime,
        is_allowed_image_mime(other) && other != mime ==> image_extension(other)
            != image_extension(mime),
{
    reveal_strlit("image/png");
    reveal_strlit("image/jpeg");
    reveal_strlit("image/gif");
    reveal_strlit("image/webp");
    reveal_strlit("image/");
    reveal_strlit("png");
    reveal_strlit("jpg");
    reveal_strlit("gif");
    reveal_strlit("webp");
    if mime == "image/jpeg"@ {
        assert(mime[6] != "image/png"@[6]);
    }
    if mime != "image/jpeg"@ {
        assert("image/"@ + image_extension(mime) =~= mime);
    }
    if is_allowed_image_mime(other) && other != mime {
        let a = image_extension(other);
        let b = image_extension(mime);
        if a == b {
            assert(a.len() == b.len());
            assert(a[0] == b[0]);
            assert(a[1] == b[1]);
        }
    }
}

} // verus!
