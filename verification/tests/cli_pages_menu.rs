use floormap::cli::{
    choose_page_image, crop_rect, export_floor_image, export_floor_objects, floor_crop_rect,
    floor_has_objects, images_dir, page_description, page_name, page_paths,
};
use floormap::flexuuid::FlexUuid;
use floormap::models::{FloorMap, MapObject};
use floormap::pages::fileupload::{self, upload_request, PostedFile};
use floormap::pages::root::{self, return_url};
use floormap::template::menu::{get_page_menu, MenuItem};

#[test]
fn import_page_file_names() {
    let dir = images_dir("/var/plans/1572690030");
    assert_eq!(dir, "/var/plans/1572690030/images");
    let p = page_paths(&dir, 3);
    assert_eq!(p.text, "/var/plans/1572690030/images/page-3.txt");
    assert_eq!(p.thumb, "/var/plans/1572690030/images/page-3.png-thumb.png");
    assert_eq!(p.image, "/var/plans/1572690030/images/page-3.png");
    assert_eq!(p.thumb_two_digits, "/var/plans/1572690030/images/page-03.png-thumb.png");
    assert_eq!(p.image_two_digits, "/var/plans/1572690030/images/page-03.png");
    assert_eq!(page_paths("d", 12).image_two_digits, "d/page-12.png");
    assert_eq!(page_name(4), "Page 04");
    assert_eq!(page_name(10), "Page 10");
}

#[test]
fn import_page_image_choice() {
    let p = page_paths("d", 1);
    assert_eq!(choose_page_image(&p, true, true, true, true), Some("d/page-1.png".to_string()));
    assert_eq!(choose_page_image(&p, true, false, true, true), None);
    assert_eq!(choose_page_image(&p, false, true, true, true), Some("d/page-01.png".to_string()));
    assert_eq!(choose_page_image(&p, false, true, true, false), None);
    assert_eq!(choose_page_image(&p, false, false, false, true), None);
}

#[test]
fn import_page_description_is_trimmed_first_line() {
    assert_eq!(page_description("  Floor 3 west \r\nmore text\n"), "Floor 3 west");
    assert_eq!(page_description("\tonly line"), "only line");
    assert_eq!(page_description(""), "");
    assert_eq!(page_description("\nsecond"), "");
    assert_eq!(page_description("\u{3000}\u{a0} Halle 5\u{2003}\u{85}\nrest"), "Halle 5");
    assert_eq!(page_description("\u{200b}x "), "\u{200b}x");
    assert_eq!(page_description(" \u{2028}\u{205f} "), "");
}

fn obj(name: &str, floor: u128, x: i32, y: i32, ax: i32, ay: i32) -> MapObject {
    let mut o = MapObject::default();
    o.Name = name.to_string();
    o.ParentMapUUID = FlexUuid::from_bits(floor);
    o.MapX = x;
    o.MapY = y;
    o.ArrowX = ax;
    o.ArrowY = ay;
    o
}

#[test]
fn export_crop_and_objects() {
    let mut fm = FloorMap::default();
    fm.FloorMapUUID = FlexUuid::from_bits(1);
    fm.ClipLeft = 100;
    fm.ClipTop = -20;
    fm.ClipWidth = 300;
    assert_eq!(crop_rect(&fm, 1000, 800), (100, 0, 300, 800));
    fm.ClipWidth = -1;
    assert_eq!(crop_rect(&fm, 1000, 800).2, u32::MAX);
    fm.ClipWidth = 300;
    fm.ClipTop = 0;
    let objects = vec![
        obj("in", 1, 150, 50, 10, 5),
        obj("left", 1, 50, 50, 0, 0),
        obj("other floor", 2, 150, 50, 0, 0),
        obj("edge", 1, 400, 800, 0, 0),
        obj("below", 1, 200, 801, 0, 0),
    ];
    assert!(floor_has_objects(&objects, &FlexUuid::from_bits(2)));
    assert!(!floor_has_objects(&objects, &FlexUuid::from_bits(3)));
    let rows = export_floor_objects(&objects, &FlexUuid::from_bits(1), &fm, 300, 800);
    let got: Vec<(&str, i32, i32)> = rows.iter().map(|r| (r.Label.as_str(), r.PositionX, r.PositionY)).collect();
    assert_eq!(got, vec![("in", 60, 55), ("edge", 300, 800)]);
}

#[test]
fn upload_page_takes_a_single_non_empty_file() {
    let u = "1e79ba6e-fb3a-11e9-b124-03c84357f69a";
    let file = |size: u64, name: Option<&str>| PostedFile {
        filename: name.map(|s| s.to_string()),
        path: Some("/tmp/abc".to_string()),
        size,
    };
    let one = vec![file(10, Some("plan.pdf"))];
    let r = upload_request(Some(&one), Some(u), Some("hi")).unwrap();
    assert_eq!(r.upload_for_uuid, FlexUuid::from_str(u).unwrap());
    assert_eq!((r.orig_fname.as_str(), r.real_fname.as_str(), r.upload_comments.as_str()), ("plan.pdf", "/tmp/abc", "hi"));
    let unnamed = vec![PostedFile { filename: None, path: None, size: 1 }];
    let r = upload_request(Some(&unnamed), Some(u), Some("")).unwrap();
    assert_eq!((r.orig_fname.as_str(), r.real_fname.as_str()), ("unknown", "x"));
    assert!(upload_request(Some(&vec![file(0, None)]), Some(u), Some("")).is_none());
    assert!(upload_request(Some(&vec![file(1, None), file(1, None)]), Some(u), Some("")).is_none());
    assert!(upload_request(Some(&one), Some("bad"), Some("")).is_none());
    assert!(upload_request(None, Some(u), Some("")).is_none());
    assert!(upload_request(Some(&one), Some(u), None).is_none());
}

#[test]
fn page_state_and_return_url() {
    assert_eq!(root::PageState::get_state(root::PageKey {}), root::PageState {});
    assert_eq!(fileupload::PageState::get_state(fileupload::PageKey {}), fileupload::PageState {});
    assert_eq!(return_url(Some(&vec!["/maps".to_string(), "/x".to_string()])), "/maps");
    assert_eq!(return_url(Some(&vec![])), "/");
    assert_eq!(return_url(None), "/");
}

#[test]
fn menu_has_home_only() {
    let m = get_page_menu("ann", "admin");
    assert_eq!(m.len(), 1);
    assert_eq!((m[0].title.as_str(), m[0].link.as_str()), ("Home", "/Default.aspx"));
    assert!(m[0].sub.is_empty());
    let mut top = MenuItem::new("Maps", "/maps");
    top.item("Floor 1", "/maps/1");
    top.item("Floor 2", "/maps/2");
    assert_eq!(top.sub.len(), 2);
    assert_eq!(top.sub[1].link, "/maps/2");
    assert_eq!(top.title, "Maps");
}

fn png_of(w: u32, h: u32) -> Vec<u8> {
    let img = image::RgbaImage::from_fn(w, h, |x, y| image::Rgba([x as u8, y as u8, 7, 255]));
    let mut out = Vec::new();
    image::DynamicImage::ImageRgba8(img).write_to(&mut out, image::ImageOutputFormat::Png).unwrap();
    out
}

#[test]
fn export_floor_image_is_the_cropped_part() {
    let png = png_of(6, 5);
    let mut fm = FloorMap::default();
    fm.ClipLeft = 1;
    fm.ClipTop = 2;
    fm.ClipWidth = 3;
    fm.ClipHeight = 0;
    assert_eq!(floor_crop_rect(&fm, &png), Some((1, 2, 3, 5)));
    let out = export_floor_image(&fm, &png).unwrap();
    let img = image::load_from_memory(&out).unwrap().to_rgba8();
    // the height is clamped to the image: rows 2, 3 and 4
    assert_eq!(img.dimensions(), (3, 3));
    assert_eq!(*img.get_pixel(0, 0), image::Rgba([1, 2, 7, 255]));
    assert_eq!(*img.get_pixel(2, 2), image::Rgba([3, 4, 7, 255]));
    // no clip: the whole image
    let whole = export_floor_image(&FloorMap::default(), &png).unwrap();
    assert_eq!(image::load_from_memory(&whole).unwrap().to_rgba8().dimensions(), (6, 5));
    // not an image
    let junk = vec![1u8, 2, 3];
    assert_eq!(floor_crop_rect(&fm, &junk), None);
    assert_eq!(export_floor_image(&fm, &junk), None);
}
