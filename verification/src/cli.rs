//! The decisions of the command-line tool: how the pages of a floor plan are
//! named and found when importing it, and which map objects are written out,
//! and where, when exporting the cropped floor maps.
use vstd::prelude::*;
use vstd::string::*;
use crate::flexuuid::FlexUuid;
use crate::models::{FloorMap, MapObject};
use crate::text::{decimal_string, decimal_string_width2, int_decimal, int_decimal_width2};

verus! {

/// The directory that holds the page images of an import: `{dir}/images`.
pub fn images_dir(dirname: &str) -> (s: String)
    ensures
        s@ == dirname@ + "/images"@,
{
    String::from_str(dirname).concat("/images")
}

/// The files that may make up page `n` of an import.
pub struct PagePaths {
    /// `{dir}/page-{n}.txt`: the page's text, whose first line describes it.
    pub text: String,
    /// `{dir}/page-{n}.png-thumb.png`.
    pub thumb: String,
    /// `{dir}/page-{n}.png`.
    pub image: String,
    /// `{dir}/page-{nn}.png-thumb.png`, the number in two digits.
    pub thumb_two_digits: String,
    /// `{dir}/page-{nn}.png`, the number in two digits.
    pub image_two_digits: String,
}

/// The names of the files of page `page_nr` under `images_dir`.
pub fn page_paths(images_dir: &str, page_nr: i32) -> (p: PagePaths)
    ensures
        p.text@ == images_dir@ + "/page-"@ + int_decimal(page_nr as int) + ".txt"@,
        p.thumb@ == images_dir@ + "/page-"@ + int_decimal(page_nr as int) + ".png-thumb.png"@,
        p.image@ == images_dir@ + "/page-"@ + int_decimal(page_nr as int) + ".png"@,
        p.thumb_two_digits@ == images_dir@ + "/page-"@ + int_decimal_width2(page_nr as int)
            + ".png-thumb.png"@,
        p.image_two_digits@ == images_dir@ + "/page-"@ + int_decimal_width2(page_nr as int) + ".png"@,
{
    let one = String::from_str(images_dir).concat("/page-").concat(decimal_string(page_nr).as_str());
    let two = String::from_str(images_dir).concat("/page-").concat(
        decimal_string_width2(page_nr).as_str(),
    );
    PagePaths {
        text: one.clone().concat(".txt"),
        thumb: one.clone().concat(".png-thumb.png"),
        image: one.concat(".png"),
        thumb_two_digits: two.clone().concat(".png-thumb.png"),
        image_two_digits: two.concat(".png"),
    }
}

/// The name of page `n`: `Page {nn}`, the number in two digits.
pub fn page_name(page_nr: i32) -> (s: String)
    ensures
        s@ == "Page "@ + int_decimal_width2(page_nr as int),
{
    String::from_str("Page ").concat(decimal_string_width2(page_nr).as_str())
}

/// Which image stands for a page, given which of its files exist: where the
/// one-digit thumbnail exists, the one-digit image (if it exists); otherwise
/// the two-digit image, if both it and its thumbnail exist. `None` ends the
/// import.
pub fn choose_page_image(
    p: &PagePaths,
    thumb_exists: bool,
    image_exists: bool,
    thumb_two_digits_exists: bool,
    image_two_digits_exists: bool,
) -> (r: Option<String>)
    ensures
        thumb_exists && image_exists ==> r == Some(p.image),
        thumb_exists && !image_exists ==> r is None,
        !thumb_exists && thumb_two_digits_exists && image_two_digits_exists ==> r == Some(
            p.image_two_digits,
        ),
        !thumb_exists && !(thumb_two_digits_exists && image_two_digits_exists) ==> r is None,
{
    if thumb_exists {
        if image_exists {
            Some(p.image.clone())
        } else {
            None
        }
    } else if thumb_two_digits_exists && image_two_digits_exists {
        Some(p.image_two_digits.clone())
    } else {
        None
    }
}

/// The first line of a text: up to the first `\n`, without a `\r` before it;
/// `None` for an empty text (as `str::lines` gives it).
pub open spec fn first_line(s: Seq<char>) -> Option<Seq<char>> {
    if s.len() == 0 {
        None
    } else {
        let i = first_newline_from(s, 0);
        if i < s.len() && i > 0 && s[i - 1] == '\r' {
            Some(s.subrange(0, i - 1))
        } else {
            Some(s.subrange(0, i))
        }
    }
}

/// The first position at or after `p` that holds a `\n`, or the length.
pub open spec fn first_newline_from(s: Seq<char>, p: int) -> int
    decreases s.len() - p,
{
    if p >= s.len() {
        s.len() as int
    } else if s[p] == '\n' {
        p
    } else {
        first_newline_from(s, p + 1)
    }
}

proof fn lemma_first_newline_from(s: Seq<char>, p: int)
    requires
        0 <= p <= s.len(),
    ensures
        p <= first_newline_from(s, p) <= s.len(),
    decreases s.len() - p,
{
    if p < s.len() && s[p] != '\n' {
        lemma_first_newline_from(s, p + 1);
    }
}

/// Whether a character has the Unicode `White_Space` property, the white
/// space that `char::is_whitespace` and `str::trim` go by.
pub open spec fn is_white_space(c: char) -> bool {
    let n = c as u32;
    (9 <= n <= 13) || n == 32 || n == 0x85 || n == 0xa0 || n == 0x1680 || (0x2000 <= n <= 0x200a)
        || n == 0x2028 || n == 0x2029 || n == 0x202f || n == 0x205f || n == 0x3000
}

/// The first position at or after `p` that holds no white space, or the length.
pub open spec fn trim_start_pos(s: Seq<char>, p: int) -> int
    decreases s.len() - p,
{
    if p >= s.len() {
        s.len() as int
    } else if is_white_space(s[p]) {
        trim_start_pos(s, p + 1)
    } else {
        p
    }
}

/// The end of the text up to `e` without its trailing white space.
pub open spec fn trim_end_pos(s: Seq<char>, e: int) -> int
    decreases e,
{
    if e <= 0 {
        0
    } else if is_white_space(s[e - 1]) {
        trim_end_pos(s, e - 1)
    } else {
        e
    }
}

/// The text without its leading and trailing white space.
pub open spec fn trimmed(s: Seq<char>) -> Seq<char> {
    let a = trim_start_pos(s, 0);
    if a >= s.len() {
        Seq::empty()
    } else {
        s.subrange(a, trim_end_pos(s, s.len() as int))
    }
}

/// Calls `str::trim`: claims, as std documents it, that the result is the text
/// without its leading and trailing characters of the Unicode `White_Space`
/// property.
#[verifier::external_body]
fn trim(s: &str) -> (r: String)
    ensures
        r@ == trimmed(s@),
{
    s.trim().to_string()
}

/// The description of an imported page: the first line of its text, trimmed;
/// empty where the text is empty.
pub fn page_description(contents: &str) -> (d: String)
    ensures
        d@ == match first_line(contents@) {
            Some(l) => trimmed(l),
            None => Seq::<char>::empty(),
        },
{
    let n = contents.unicode_len();
    if n == 0 {
        return String::new();
    }
    let mut i: usize = 0;
    while i < n && contents.get_char(i) != '\n'
        invariant
            n == contents@.len(),
            i <= n,
            first_newline_from(contents@, i as int) == first_newline_from(contents@, 0),
        decreases n - i,
    {
        i = i + 1;
    }
    proof {
        lemma_first_newline_from(contents@, 0);
    }
    let end = if i < n && i > 0 && contents.get_char(i - 1) == '\r' {
        i - 1
    } else {
        i
    };
    trim(contents.substring_char(0, end))
}

/// A map object as written to the CSV file of an exported floor.
#[derive(Debug)]
pub struct ExportMapObject {
    pub Label: String,
    pub PositionX: i32,
    pub PositionY: i32,
}

/// Whether any of the map objects lies on the floor map.
pub fn floor_has_objects(objects: &Vec<MapObject>, floor_uuid: &FlexUuid) -> (b: bool)
    ensures
        b == exists|k: int| 0 <= k < objects@.len() && objects@[k].ParentMapUUID == *floor_uuid,
{
    let mut k: usize = 0;
    while k < objects.len()
        invariant
            k <= objects.len(),
            forall|j: int| 0 <= j < k ==> objects@[j].ParentMapUUID != *floor_uuid,
        decreases objects.len() - k,
    {
        if objects[k].ParentMapUUID == *floor_uuid {
            return true;
        }
        k = k + 1;
    }
    false
}

/// The crop rectangle of a floor map over an image of the given size: the
/// clip origin (a negative one counts as zero), and the clip size where it is
/// set (non-zero, taken as unsigned) or else the image size.
pub fn crop_rect(fm: &FloorMap, image_width: u32, image_height: u32) -> (r: (u32, u32, u32, u32))
    ensures
        r == crop_rect_spec(*fm, image_width, image_height),
        r.0 == (if fm.ClipLeft >= 0 { fm.ClipLeft as u32 } else { 0 }),
        r.1 == (if fm.ClipTop >= 0 { fm.ClipTop as u32 } else { 0 }),
        r.2 == (if fm.ClipWidth != 0 { fm.ClipWidth as u32 } else { image_width }),
        r.3 == (if fm.ClipHeight != 0 { fm.ClipHeight as u32 } else { image_height }),
{
    let w: u32 = if fm.ClipWidth != 0 { fm.ClipWidth as u32 } else { image_width };
    let h: u32 = if fm.ClipHeight != 0 { fm.ClipHeight as u32 } else { image_height };
    let x: u32 = if fm.ClipLeft >= 0 { fm.ClipLeft as u32 } else { 0 };
    let y: u32 = if fm.ClipTop >= 0 { fm.ClipTop as u32 } else { 0 };
    (x, y, w, h)
}

/// The crop rectangle that `crop_rect` gives for an image of the given size.
pub open spec fn crop_rect_spec(fm: FloorMap, image_width: u32, image_height: u32) -> (u32, u32, u32, u32) {
    (
        if fm.ClipLeft >= 0 { fm.ClipLeft as u32 } else { 0 },
        if fm.ClipTop >= 0 { fm.ClipTop as u32 } else { 0 },
        if fm.ClipWidth != 0 { fm.ClipWidth as u32 } else { image_width },
        if fm.ClipHeight != 0 { fm.ClipHeight as u32 } else { image_height },
    )
}

/// The crop of a floor map's image: a set (non-zero) clip width or height is
/// the crop's width or height, whatever the image's size; an unset one (zero)
/// takes the image's; the crop starts at the clip origin, a negative
/// coordinate counting as zero.
pub proof fn lemma_crop_follows_clip(fm: FloorMap, image_width: u32, image_height: u32)
    ensures
        fm.ClipWidth != 0 ==> crop_rect_spec(fm, image_width, image_height).2 == fm.ClipWidth as u32,
        fm.ClipWidth == 0 ==> crop_rect_spec(fm, image_width, image_height).2 == image_width,
        fm.ClipHeight != 0 ==> crop_rect_spec(fm, image_width, image_height).3 == fm.ClipHeight as u32,
        fm.ClipHeight == 0 ==> crop_rect_spec(fm, image_width, image_height).3 == image_height,
        fm.ClipLeft >= 0 ==> crop_rect_spec(fm, image_width, image_height).0 == fm.ClipLeft as u32,
        fm.ClipLeft < 0 ==> crop_rect_spec(fm, image_width, image_height).0 == 0,
        fm.ClipTop >= 0 ==> crop_rect_spec(fm, image_width, image_height).1 == fm.ClipTop as u32,
        fm.ClipTop < 0 ==> crop_rect_spec(fm, image_width, image_height).1 == 0,
{
}

/// The width and height of the image that the bytes encode, where `image`
/// can decode them.
pub uninterp spec fn png_size(png: Seq<u8>) -> Option<(u32, u32)>;

/// The PNG bytes of the part of the image at (`x`, `y`) of size `w` by `h`
/// (clamped to the image), in RGBA, where `image` can decode and encode it.
pub uninterp spec fn png_cropped(png: Seq<u8>, x: u32, y: u32, w: u32, h: u32) -> Option<Seq<u8>>;

/// Calls `image::load_from_memory` and the decoded image's `dimensions`.
/// Claims only that the result is the one named `png_size` of the bytes.
#[verifier::external_body]
fn image_size(png: &Vec<u8>) -> (r: Option<(u32, u32)>)
    ensures
        r == png_size(png@),
{
    match image::load_from_memory(png.as_slice()) {
        Ok(img) => Some(image::GenericImageView::dimensions(&img)),
        Err(_) => None,
    }
}

/// Calls `image::load_from_memory`, `image::imageops::crop_imm` and, on the
/// RGBA copy of the crop, `DynamicImage::write_to` as PNG. Claims only that the
/// result is the one named `png_cropped` of the bytes and the rectangle.
#[verifier::external_body]
fn image_crop(png: &Vec<u8>, x: u32, y: u32, w: u32, h: u32) -> (r: Option<Vec<u8>>)
    ensures
        (r is None) == (png_cropped(png@, x, y, w, h) is None),
        r matches Some(v) ==> png_cropped(png@, x, y, w, h) == Some(v@),
{
    let img = match image::load_from_memory(png.as_slice()) {
        Ok(img) => img,
        Err(_) => return None,
    };
    let sub = image::imageops::crop_imm(&img, x, y, w, h).to_image();
    let mut out: Vec<u8> = Vec::new();
    match image::DynamicImage::ImageRgba8(sub).write_to(&mut out, image::ImageOutputFormat::Png) {
        Ok(_) => Some(out),
        Err(_) => None,
    }
}

/// The crop rectangle of a floor map over its image (the bytes of its file):
/// `crop_rect` over the image's size; `None` where the image cannot be read.
pub fn floor_crop_rect(fm: &FloorMap, png: &Vec<u8>) -> (r: Option<(u32, u32, u32, u32)>)
    ensures
        r == match png_size(png@) {
            Some(s) => Some(crop_rect_spec(*fm, s.0, s.1)),
            None => None,
        },
{
    match image_size(png) {
        Some((w, h)) => Some(crop_rect(fm, w, h)),
        None => None,
    }
}

/// The exported image of a floor map: its image (the bytes of its file)
/// cropped to the floor map's crop rectangle, as PNG bytes; `None` where the
/// image cannot be read or the crop cannot be written.
pub fn export_floor_image(fm: &FloorMap, png: &Vec<u8>) -> (r: Option<Vec<u8>>)
    ensures
        png_size(png@) is None ==> r is None,
        png_size(png@) matches Some(s) ==> {
            let c = crop_rect_spec(*fm, s.0, s.1);
            &&& (r is None) == (png_cropped(png@, c.0, c.1, c.2, c.3) is None)
            &&& r matches Some(v) ==> png_cropped(png@, c.0, c.1, c.2, c.3) == Some(v@)
        },
{
    match floor_crop_rect(fm, png) {
        Some((x, y, w, h)) => image_crop(png, x, y, w, h),
        None => None,
    }
}

/// The position of a map object's arrow tip within the crop of its floor map.
pub open spec fn export_x(o: MapObject, fm: FloorMap) -> int {
    o.MapX + o.ArrowX - fm.ClipLeft
}

/// See `export_x`.
pub open spec fn export_y(o: MapObject, fm: FloorMap) -> int {
    o.MapY + o.ArrowY - fm.ClipTop
}

/// The export position of an object on the floor can be computed in `i32`
/// (each sum and difference fits), and the bounds it is compared with fit too
/// where the comparison is reached.
pub open spec fn export_fits(o: MapObject, fm: FloorMap, clip_w: u32, clip_h: u32) -> bool {
    &&& i32::MIN <= o.MapX + o.ArrowX <= i32::MAX
    &&& i32::MIN <= export_x(o, fm) <= i32::MAX
    &&& i32::MIN <= o.MapY + o.ArrowY <= i32::MAX
    &&& i32::MIN <= export_y(o, fm) <= i32::MAX
    &&& (export_x(o, fm) >= 0 && export_y(o, fm) >= 0) ==> clip_w <= i32::MAX
    &&& (export_x(o, fm) >= 0 && export_y(o, fm) >= 0 && export_x(o, fm) <= clip_w) ==> clip_h
        <= i32::MAX
}

/// Whether the export position of an object can be computed and compared
/// (see `export_fits`).
pub fn export_fits_check(o: &MapObject, fm: &FloorMap, clip_w: u32, clip_h: u32) -> (b: bool)
    ensures
        b == export_fits(*o, *fm, clip_w, clip_h),
{
    let sx: i64 = o.MapX as i64 + o.ArrowX as i64;
    let sy: i64 = o.MapY as i64 + o.ArrowY as i64;
    if sx < i32::MIN as i64 || sx > i32::MAX as i64 || sy < i32::MIN as i64 || sy > i32::MAX as i64 {
        return false;
    }
    let x: i64 = sx - fm.ClipLeft as i64;
    let y: i64 = sy - fm.ClipTop as i64;
    if x < i32::MIN as i64 || x > i32::MAX as i64 || y < i32::MIN as i64 || y > i32::MAX as i64 {
        return false;
    }
    if x >= 0 && y >= 0 && clip_w > i32::MAX as u32 {
        return false;
    }
    if x >= 0 && y >= 0 && x <= clip_w as i64 && clip_h > i32::MAX as u32 {
        return false;
    }
    true
}

/// The object is on the floor and its arrow tip lies within the crop.
pub open spec fn exported_here(o: MapObject, floor_uuid: FlexUuid, fm: FloorMap, clip_w: u32, clip_h: u32) -> bool {
    o.ParentMapUUID == floor_uuid && export_x(o, fm) >= 0 && export_y(o, fm) >= 0 && export_x(o, fm)
        <= clip_w && export_y(o, fm) <= clip_h
}

/// The CSV rows of a floor: its objects whose arrow tips lie within the crop,
/// labelled with their names and placed relative to the crop, in table order.
pub open spec fn exported_objects(
    objects: Seq<MapObject>,
    floor_uuid: FlexUuid,
    fm: FloorMap,
    clip_w: u32,
    clip_h: u32,
) -> Seq<ExportMapObject>
    decreases objects.len(),
{
    if objects.len() == 0 {
        Seq::empty()
    } else {
        let prev = exported_objects(objects.drop_last(), floor_uuid, fm, clip_w, clip_h);
        let o = objects.last();
        if exported_here(o, floor_uuid, fm, clip_w, clip_h) {
            prev.push(
                ExportMapObject {
                    Label: o.Name,
                    PositionX: export_x(o, fm) as i32,
                    PositionY: export_y(o, fm) as i32,
                },
            )
        } else {
            prev
        }
    }
}

/// The CSV rows of a floor whose floor map `fm` is cropped to `clip_w` by
/// `clip_h`.
pub fn export_floor_objects(
    objects: &Vec<MapObject>,
    floor_uuid: &FlexUuid,
    fm: &FloorMap,
    clip_w: u32,
    clip_h: u32,
) -> (r: Vec<ExportMapObject>)
    requires
        forall|k: int|
            0 <= k < objects@.len() && (#[trigger] objects@[k]).ParentMapUUID == *floor_uuid
                ==> export_fits(objects@[k], *fm, clip_w, clip_h),
    ensures
        r@ == exported_objects(objects@, *floor_uuid, *fm, clip_w, clip_h),
{
    let mut r: Vec<ExportMapObject> = Vec::new();
    let mut k: usize = 0;
    while k < objects.len()
        invariant
            k <= objects.len(),
            r@ == exported_objects(objects@.take(k as int), *floor_uuid, *fm, clip_w, clip_h),
            forall|k: int|
                0 <= k < objects@.len() && (#[trigger] objects@[k]).ParentMapUUID == *floor_uuid
                    ==> export_fits(objects@[k], *fm, clip_w, clip_h),
        decreases objects.len() - k,
    {
        proof {
            assert(objects@.take(k + 1).drop_last() == objects@.take(k as int));
            assert(objects@.take(k + 1).last() == objects@[k as int]);
        }
        let o = &objects[k];
        if o.ParentMapUUID == *floor_uuid {
            let x = o.MapX + o.ArrowX - fm.ClipLeft;
            let y = o.MapY + o.ArrowY - fm.ClipTop;
            if x >= 0 && y >= 0 && x <= clip_w as i32 && y <= clip_h as i32 {
                r.push(ExportMapObject { Label: o.Name.clone(), PositionX: x, PositionY: y });
            }
        }
        k = k + 1;
    }
    proof {
        assert(objects@.take(objects.len() as int) == objects@);
    }
    r
}

} // verus!
