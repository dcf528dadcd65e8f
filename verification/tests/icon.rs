//! The window's icon.
use incline_design::effects::{Channel, Level, Notice, NoticeKind};
use incline_design::icon::{flattened, icon_of, window_icon, Raster};

fn drawn(svg: &[u8]) -> Result<Raster, String> {
    let image = egui_extras::image::load_svg_bytes(svg, &Default::default())?;
    let [width, height] = image.size;
    let pixels = image.pixels.iter().map(|color| color.to_tuple()).collect();
    Ok(Raster { width, height, pixels })
}

#[test]
fn a_drawing_becomes_bytes() {
    let svg = br##"<svg xmlns="http://www.w3.org/2000/svg" width="3" height="2">
        <rect width="3" height="2" fill="#ff8000"/></svg>"##;
    let Ok(icon) = window_icon(drawn(svg)) else {
        panic!("the drawing can be read");
    };
    assert_eq!((icon.width, icon.height), (3, 2));
    assert_eq!(icon.rgba.len(), 24);
    assert_eq!(icon.rgba[0..4], [255, 128, 0, 255]);
    assert_eq!(icon.rgba[20..24], [255, 128, 0, 255]);
}

#[test]
fn what_is_no_drawing_has_a_reason() {
    assert!(window_icon(drawn(b"not a drawing")).is_err());
    let Err(notice) = window_icon(Err("no root".to_string())) else {
        panic!("there is no picture");
    };
    assert_eq!(
        notice,
        Notice { kind: NoticeKind::IconDrawingFailed, detail: "no root".to_string() }
    );
    assert_eq!(notice.kind.level(), Level::Error);
    assert_eq!(notice.kind.channel(), Channel::Log);
    assert_eq!(NoticeKind::SessionSaveFailed.channel(), Channel::Log);
    assert_eq!(NoticeKind::BrowserSessionSaveFailed.channel(), Channel::Console);
    assert_eq!(NoticeKind::BrowserSaved.channel(), Channel::Console);
}

#[test]
fn colours_are_parted_from_their_alpha() {
    let pixels = vec![(10, 20, 30, 255), (0, 0, 0, 0), (64, 32, 0, 128)];
    assert_eq!(flattened(&pixels), vec![10, 20, 30, 255, 0, 0, 0, 0, 128, 64, 0, 128]);
    let icon = icon_of(&Raster { width: 3, height: 1, pixels });
    assert_eq!((icon.width, icon.height, icon.rgba.len()), (3, 1, 12));
}
