use skia_canvas::recorder::PageLog;

#[test]
fn new_log_is_empty() {
    let log: PageLog<u32, String> = PageLog::new();
    assert_eq!(log.layer_count(), 0);
    assert!(!log.needs_flush());
    assert!(log.needs_image());
}

#[test]
fn drawing_marks_the_log_changed() {
    let mut log: PageLog<u32, String> = PageLog::new();
    log.record_drawing(false);
    assert!(!log.needs_flush());
    log.record_drawing(true);
    assert!(log.needs_flush());
    log.record_drawing(false);
    assert!(log.needs_flush());
}

#[test]
fn flush_adds_a_layer_and_drops_the_image() {
    let mut log: PageLog<u32, String> = PageLog::new();
    log.store_image(Some("image".to_string()));
    assert!(!log.needs_image());
    log.record_drawing(true);
    log.flush(Some(10));
    assert_eq!(log.layer_list(), &vec![10]);
    assert!(!log.needs_flush());
    assert!(log.needs_image());
    assert_eq!(log.cached_image(), &None);
}

#[test]
fn flush_without_picture_keeps_layers() {
    let mut log: PageLog<u32, String> = PageLog::new();
    log.record_drawing(true);
    log.flush(Some(1));
    log.record_drawing(true);
    log.flush(None);
    assert_eq!(log.layer_list(), &vec![1]);
    assert!(!log.needs_flush());
}

#[test]
fn taking_a_page_twice_gives_the_same_layers() {
    let mut log: PageLog<u32, String> = PageLog::new();
    log.record_drawing(true);
    if log.needs_flush() {
        log.flush(Some(5));
    }
    let first = log.page(3u8);
    if log.needs_flush() {
        log.flush(Some(6));
    }
    let second = log.page(3u8);
    assert_eq!(first.layers, second.layers);
    assert_eq!(first.layers, vec![5]);
    assert_eq!(second.bounds, 3);
}

#[test]
fn layers_stay_in_order() {
    let mut log: PageLog<u32, ()> = PageLog::new();
    for i in 0..5 {
        log.record_drawing(true);
        log.flush(Some(i));
    }
    assert_eq!(log.layer_list(), &vec![0, 1, 2, 3, 4]);
    assert_eq!(log.page("bounds").layers, vec![0, 1, 2, 3, 4]);
}

#[test]
fn stored_image_is_kept_until_flush() {
    let mut log: PageLog<u32, &str> = PageLog::new();
    log.store_image(Some("img"));
    log.record_drawing(true);
    assert_eq!(log.cached_image(), &Some("img"));
    log.flush(None);
    assert_eq!(log.cached_image(), &None);
}

#[test]
fn image_is_handed_out_only_for_its_layers() {
    let mut log: PageLog<u32, &str> = PageLog::new();
    log.record_drawing(true);
    log.flush(Some(1));
    log.store_image(Some("one layer"));
    assert_eq!(log.cached_image(), &Some("one layer"));
    log.record_drawing(true);
    log.flush(Some(2));
    assert_eq!(log.cached_image(), &None);
    assert!(log.needs_image());
}
