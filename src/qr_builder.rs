use vstd::prelude::*;
use crate::error::VehicleError;
use crate::repository::require_exists;
use crate::text::{decimal, decimal_text, lemma_decimal_text_injective, lemma_decimal_text_len};
use qrcode::types::QrError;
use qrcode::QrCode;
use vstd::string::StringExecFns;

verus! {

#[verifier::external_type_specification]
#[verifier::external_body]
pub struct ExQrError(QrError);

/// The link that the artifact of a record encodes.
pub open spec fn qr_url(id: i32) -> Seq<char> {
    "local.cymn.com:8080/"@ + decimal_text(id as int)
}

/// Where the artifact of a record is kept: a path that depends on the id alone.
pub open spec fn qr_path(id: i32) -> Seq<char> {
    "./results/qr_codes/id_"@ + decimal_text(id as int) + ".png"@
}

/// The grey-level image that `qrcode` renders for the given data: its width,
/// its height and its pixels, row by row. It depends on the data alone.
pub uninterp spec fn qr_image_of(data: Seq<char>) -> (u32, u32, Seq<u8>);

/// A rendered artifact: the link it encodes, where it is to be written, and
/// its pixels, one grey level per pixel, row by row.
pub struct QrArtifact {
    pub path: String,
    pub payload: String,
    pub width: u32,
    pub height: u32,
    pub pixels: Vec<u8>,
}

/// `a` is the artifact of the record with this id.
pub open spec fn is_artifact_for(a: QrArtifact, id: i32) -> bool {
    &&& a.payload@ == qr_url(id)
    &&& a.path@ == qr_path(id)
    &&& (a.width, a.height, a.pixels@) == qr_image_of(qr_url(id))
    &&& a.pixels@.len() == a.width as int * a.height as int
}

/// The directory that holds every artifact.
pub fn qr_directory() -> (r: &'static str)
    ensures
        r@ == "./results/qr_codes"@,
{
    "./results/qr_codes"
}

/// The link that the artifact of a record encodes.
pub fn qr_url_for(id: i32) -> (r: String)
    ensures
        r@ == qr_url(id),
{
    let mut url = "local.cymn.com:8080/".to_string();
    let digits = decimal(id);
    url.append(digits.as_str());
    url
}

/// Where the artifact of a record is kept.
pub fn qr_path_for(id: i32) -> (r: String)
    ensures
        r@ == qr_path(id),
{
    let mut path = "./results/qr_codes/id_".to_string();
    let digits = decimal(id);
    path.append(digits.as_str());
    path.append(".png");
    path
}

/// Relies on `qrcode::QrCode::new`, then `render::<image::Luma<u8>>().build()`
/// on the code it returns. `new` encodes the bytes at the medium error
/// correction level in the smallest symbol that holds them, and refuses only
/// data too long for the largest symbol, far above 100 characters (at most 400
/// bytes). The rendered buffer holds one byte per pixel; the image depends on
/// the data alone.
#[verifier::external_body]
fn render_qr(data: &str) -> (r: Result<(u32, u32, Vec<u8>), QrError>)
    ensures
        data@.len() <= 100 ==> r is Ok,
        r matches Ok(img) ==> (img.0, img.1, img.2@) == qr_image_of(data@),
        r matches Ok(img) ==> img.2@.len() == img.0 as int * img.1 as int,
{
    let code = QrCode::new(data)?;
    let img = code.render::<image::Luma<u8>>().build();
    let (width, height) = img.dimensions();
    Ok((width, height, img.into_raw()))
}

/// Renders the artifact of a record: its link, encoded as a barcode image, and
/// the path where it belongs. Writing it there is left to the caller. The link
/// is short, so encoding it always succeeds.
pub fn create_qr_for_id(id: i32) -> (r: Result<QrArtifact, VehicleError>)
    ensures
        r matches Ok(a) && is_artifact_for(a, id),
{
    let payload = qr_url_for(id);
    proof {
        lemma_decimal_text_len(id);
        reveal_strlit("local.cymn.com:8080/");
        assert(payload@.len() <= 31);
    }
    match render_qr(payload.as_str()) {
        Ok((width, height, pixels)) => {
            let path = qr_path_for(id);
            Ok(QrArtifact { path, payload, width, height, pixels })
        },
        Err(_) => Err(VehicleError::EncodingFault),
    }
}

/// The artifact of a record after an existence check, decided from the rows of
/// an `EXISTS` query: `NotFound`, and nothing rendered, unless the first row
/// says that the record exists.
pub fn qr_for_existing(flags: &Vec<bool>, id: i32) -> (r: Result<QrArtifact, VehicleError>)
    ensures
        (flags@.len() > 0 && flags@[0]) ==> (r matches Ok(a) && is_artifact_for(a, id)),
        !(flags@.len() > 0 && flags@[0]) ==> r matches Err(VehicleError::NotFound),
{
    match require_exists(flags) {
        Ok(()) => create_qr_for_id(id),
        Err(e) => Err(e),
    }
}

/// Generating the artifact of one id twice gives the same link at the same
/// path.
pub proof fn law_artifact_is_stable(id: i32, a: QrArtifact, b: QrArtifact)
    requires
        is_artifact_for(a, id),
        is_artifact_for(b, id),
    ensures
        a.payload@ == b.payload@,
        a.path@ == b.path@,
{
}

/// Each record has an artifact of its own: different ids give different links
/// and different paths.
pub proof fn law_artifact_keyed_by_id(a: i32, b: i32)
    requires
        a != b,
    ensures
        qr_url(a) != qr_url(b),
        qr_path(a) != qr_path(b),
{
    let head = "local.cymn.com:8080/"@;
    let dir = "./results/qr_codes/id_"@;
    let ext = ".png"@;
    let da = decimal_text(a as int);
    let db = decimal_text(b as int);
    if qr_url(a) == qr_url(b) {
        assert(qr_url(a).subrange(head.len() as int, qr_url(a).len() as int) =~= da);
        assert(qr_url(b).subrange(head.len() as int, qr_url(b).len() as int) =~= db);
        lemma_decimal_text_injective(a as int, b as int);
    }
    if qr_path(a) == qr_path(b) {
        assert(qr_path(a).len() == dir.len() + da.len() + ext.len());
        assert(qr_path(b).len() == dir.len() + db.len() + ext.len());
        assert(da.len() == db.len());
        assert(qr_path(a).subrange(dir.len() as int, (dir.len() + da.len()) as int) =~= da);
        assert(qr_path(b).subrange(dir.len() as int, (dir.len() + db.len()) as int) =~= db);
        lemma_decimal_text_injective(a as int, b as int);
    }
}

} // verus!
