use say2::ui::{centered_rect, footer_fit, tag_palette_slot, FooterFit, Rect};

#[test]
fn popups_are_centred() {
    let area = Rect { x: 0, y: 0, width: 100, height: 40 };
    assert_eq!(centered_rect(60, 11, area), Rect { x: 20, y: 14, width: 60, height: 11 });
    let small = Rect { x: 5, y: 3, width: 10, height: 4 };
    assert_eq!(centered_rect(50, 11, small), Rect { x: 7, y: 3, width: 5, height: 4 });
}

#[test]
fn footer_shows_what_fits() {
    let ws = vec![5, 5, 5];
    assert_eq!(footer_fit(4, &ws, 3, 19), FooterFit { shown: 3, ellipsis: false });
    assert_eq!(footer_fit(4, &ws, 3, 18), FooterFit { shown: 2, ellipsis: true });
    assert_eq!(footer_fit(4, &ws, 3, 11), FooterFit { shown: 0, ellipsis: true });
    assert_eq!(footer_fit(30, &ws, 3, 10), FooterFit { shown: 0, ellipsis: true });
    assert_eq!(footer_fit(0, &Vec::new(), 3, 0), FooterFit { shown: 0, ellipsis: false });
}

#[test]
fn tag_colours_cycle_through_the_palette() {
    assert_eq!(tag_palette_slot(0), 0);
    assert_eq!(tag_palette_slot(13), 1);
    assert_eq!(tag_palette_slot(u64::MAX), (u64::MAX % 6) as usize);
}
