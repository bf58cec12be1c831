use typst_ts_cli::renderer::TypstRendererBuilder;

#[test]
fn fonts_are_kept_in_order() {
    let mut b = TypstRendererBuilder::new();
    assert_eq!(b.font_count(), 0);
    b.add_raw_font_internal(vec![1, 2, 3]);
    b.add_raw_font_internal(vec![]);
    b.add_raw_font_internal(vec![9]);
    assert_eq!(b.font_count(), 3);
    assert_eq!(b.font_data(0), &vec![1, 2, 3]);
    assert!(b.font_data(1).is_empty());
    assert_eq!(b.font_data(2), &vec![9]);
}
