//! ICC conversion to sRGB with relative colorimetric intent, by Little CMS,
//! whose results depend on the profile bytes and pixels alone.
//! The soft variant leaves the pixels unchanged when the conversion fails.

use vstd::prelude::*;

use crate::error::ImageError;
use crate::text::chars_contain;
use crate::text::chars_of;
use crate::text::contains_seq;
use crate::text::extend_chars;
use crate::text::lower_seq;
use crate::text::lower_vec;
use crate::text::string_from_chars;

verus! {

/// The errors of Little CMS.
#[derive(Debug, Clone, Copy, PartialEq, Eq, Structural)]
pub enum IccError {
    ObjectCreation,
    MissingData,
    InvalidString,
}

/// The text of a Little CMS error, as it displays it.
pub open spec fn icc_error_text(e: IccError) -> Seq<char> {
    match e {
        IccError::ObjectCreation => "Could not create the object.\nThe reason is not known, but it's usually caused by wrong input parameters."@,
        IccError::InvalidString => "String is not valid. Contains unsupported characters or is too long."@,
        IccError::MissingData => "Requested data is empty or does not exist."@,
    }
}

fn icc_error_str(e: IccError) -> (r: &'static str)
    ensures
        r@ == icc_error_text(e),
{
    match e {
        IccError::ObjectCreation => "Could not create the object.\nThe reason is not known, but it's usually caused by wrong input parameters.",
        IccError::InvalidString => "String is not valid. Contains unsupported characters or is too long.",
        IccError::MissingData => "Requested data is empty or does not exist.",
    }
}

/// Whether Little CMS opens the profile held in `bytes`.
pub uninterp spec fn icc_opens(bytes: Seq<u8>) -> bool;

/// The description text Little CMS reads from the profile held in `bytes`
/// (none when the profile has none, or does not open).
pub uninterp spec fn icc_description(bytes: Seq<u8>) -> Option<Seq<char>>;

/// Whether Little CMS builds the RGBA8 transform from the profile held in
/// `bytes` to sRGB, relative colorimetric.
pub uninterp spec fn icc_transform_builds(bytes: Seq<u8>) -> bool;

/// The RGBA8 pixels `px` (whole pixels) converted by that transform.
pub uninterp spec fn icc_to_srgb(bytes: Seq<u8>, px: Seq<u8>) -> Seq<u8>;

/// `lcms2::Profile::new_icc`: opens a profile from memory. Empty data is
/// missing data; otherwise the profile opens, or object creation failed.
#[verifier::external_body]
fn open_profile(bytes: &[u8]) -> (r: Result<(), IccError>)
    ensures
        bytes@.len() == 0 ==> (r matches Err(IccError::MissingData)),
        bytes@.len() > 0 ==> (r is Ok <==> icc_opens(bytes@)),
        bytes@.len() > 0 ==> (r is Err ==> (r matches Err(IccError::ObjectCreation))),
{
    match lcms2::Profile::new_icc(bytes) {
        Ok(_) => Ok(()),
        Err(lcms2::Error::ObjectCreationError) => Err(IccError::ObjectCreation),
        Err(lcms2::Error::MissingData) => Err(IccError::MissingData),
        Err(lcms2::Error::InvalidString) => Err(IccError::InvalidString),
    }
}

/// `lcms2::Profile::info` for the description, without a locale, of the
/// profile opened from `bytes` by `lcms2::Profile::new_icc`.
#[verifier::external_body]
fn profile_description(bytes: &[u8]) -> (r: Option<String>)
    ensures
        match icc_description(bytes@) {
            Some(d) => r matches Some(s) && s@ == d,
            None => r is None,
        },
{
    match lcms2::Profile::new_icc(bytes) {
        Ok(p) => p.info(lcms2::InfoType::Description, lcms2::Locale::none()),
        Err(_) => None,
    }
}

/// The bytes of the whole pixels of an RGBA buffer.
pub open spec fn whole_pixel_len(px: Seq<u8>) -> int {
    ((px.len() / 4) * 4) as int
}

/// `lcms2::Transform::new` from the profile opened from `bytes` to
/// `lcms2::Profile::new_srgb`, RGBA8 on both sides, relative colorimetric,
/// then `lcms2::Transform::transform_in_place` over the whole pixels of
/// `rgba` (a trailing partial pixel is left). When the transform cannot be
/// built, object creation failed (the only error `Transform::new` returns)
/// and the pixels are left.
#[verifier::external_body]
fn convert_to_srgb(bytes: &[u8], rgba: &mut [u8]) -> (r: Result<(), IccError>)
    requires
        icc_opens(bytes@),
        old(rgba)@.len() / 4 <= u32::MAX,
    ensures
        r is Ok <==> icc_transform_builds(bytes@),
        r is Err ==> (r matches Err(IccError::ObjectCreation)) && final(rgba)@ == old(rgba)@,
        r is Ok ==> final(rgba)@ == icc_to_srgb(bytes@, old(rgba)@.take(whole_pixel_len(old(rgba)@)))
            + old(rgba)@.skip(whole_pixel_len(old(rgba)@)),
{
    let Ok(source) = lcms2::Profile::new_icc(bytes) else { return Err(IccError::ObjectCreation) };
    let srgb = lcms2::Profile::new_srgb();
    let t: lcms2::Transform<[u8; 4], [u8; 4]> = lcms2::Transform::new(
        &source,
        lcms2::PixelFormat::RGBA_8,
        &srgb,
        lcms2::PixelFormat::RGBA_8,
        lcms2::Intent::RelativeColorimetric,
    ).map_err(|_| IccError::ObjectCreation)?;
    let n = rgba.len() / 4;
    t.transform_in_place(bytemuck::cast_slice_mut(&mut rgba[..n * 4]));
    Ok(())
}

/// Whether a profile description names sRGB: it holds `srgb` in any case.
pub open spec fn names_srgb_spec(desc: Seq<char>) -> bool {
    contains_seq(lower_seq(desc), "srgb"@)
}

/// Whether a profile description names sRGB (see [`names_srgb_spec`]).
pub fn names_srgb(desc: &str) -> (r: bool)
    ensures
        r == names_srgb_spec(desc@),
{
    let v = lower_vec(&chars_of(desc));
    let pat = chars_of("srgb");
    chars_contain(&v, &pat)
}

fn icc_error(prefix: &str, e: IccError) -> (r: ImageError)
    ensures
        r matches ImageError::Icc(m) && m@ == prefix@ + icc_error_text(e),
{
    let mut v = chars_of(prefix);
    let t = chars_of(icc_error_str(e));
    extend_chars(&mut v, &t);
    ImageError::Icc(string_from_chars(&v))
}

/// Whether the profile held in `bytes` describes itself as sRGB.
pub open spec fn describes_srgb(bytes: Seq<u8>) -> bool {
    icc_description(bytes) matches Some(d) && names_srgb_spec(d)
}

/// Converting RGBA pixels `px` to sRGB with an embedded profile: without a
/// profile, or with one whose description names sRGB, nothing is converted;
/// empty or unreadable profile bytes, or a transform that cannot be built,
/// are errors with their message; otherwise the whole pixels are converted
/// (a trailing partial pixel is kept).
pub open spec fn srgb_conversion(icc: Option<Seq<u8>>, px: Seq<u8>) -> Result<(bool, Seq<u8>), Seq<char>> {
    match icc {
        None => Ok((false, px)),
        Some(b) => if b.len() == 0 {
            Err("load embedded profile: "@ + icc_error_text(IccError::MissingData))
        } else if !icc_opens(b) {
            Err("load embedded profile: "@ + icc_error_text(IccError::ObjectCreation))
        } else if describes_srgb(b) {
            Ok((false, px))
        } else if !icc_transform_builds(b) {
            Err("build transform: "@ + icc_error_text(IccError::ObjectCreation))
        } else {
            Ok((true, icc_to_srgb(b, px.take(whole_pixel_len(px))) + px.skip(whole_pixel_len(px))))
        },
    }
}

/// The bytes of an optional profile.
pub open spec fn icc_view(icc: Option<&[u8]>) -> Option<Seq<u8>> {
    match icc {
        Some(b) => Some(b@),
        None => None,
    }
}

/// Converts RGBA pixels to sRGB in place (see [`srgb_conversion`]): the
/// result says whether pixels were converted; an error leaves them.
pub fn to_srgb_inplace(rgba: &mut [u8], icc: Option<&[u8]>) -> (r: Result<bool, ImageError>)
    requires
        old(rgba)@.len() / 4 <= u32::MAX,
    ensures
        match srgb_conversion(icc_view(icc), old(rgba)@) {
            Ok((applied, px)) => r == Ok::<bool, ImageError>(applied) && final(rgba)@ == px,
            Err(m) => (r matches Err(ImageError::Icc(s)) && s@ == m) && final(rgba)@ == old(rgba)@,
        },
{
    let profile_bytes = match icc {
        Some(b) => b,
        None => {
            assert(old(rgba)@ == rgba@);
            return Ok(false);
        },
    };
    match open_profile(profile_bytes) {
        Ok(()) => {},
        Err(e) => {
            return Err(icc_error("load embedded profile: ", e));
        },
    }
    match profile_description(profile_bytes) {
        Some(name) => {
            if names_srgb(name.as_str()) {
                return Ok(false);
            }
        },
        None => {},
    }
    match convert_to_srgb(profile_bytes, rgba) {
        Ok(()) => Ok(true),
        Err(e) => Err(icc_error("build transform: ", e)),
    }
}

/// Converts to sRGB like [`to_srgb_inplace`], but a failure leaves the
/// pixels unchanged and reports no conversion.
pub fn to_srgb_inplace_soft(rgba: &mut [u8], icc: Option<&[u8]>) -> (applied: bool)
    requires
        old(rgba)@.len() / 4 <= u32::MAX,
    ensures
        match srgb_conversion(icc_view(icc), old(rgba)@) {
            Ok((a, px)) => applied == a && final(rgba)@ == px,
            Err(_) => !applied && final(rgba)@ == old(rgba)@,
        },
{
    match to_srgb_inplace(rgba, icc) {
        Ok(applied) => applied,
        Err(_) => false,
    }
}

} // verus!
