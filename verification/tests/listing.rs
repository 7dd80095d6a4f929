use meme_watcher::order::{Direction, Order};
use meme_watcher::page_data::{
    rows_of_file, data_for, index_items, tags_for, FileDataRecord, FileRecord, FileTagRecord, PageDataIndexItem,
    PageDataIndexOrderBy,
};
use meme_watcher::pagination::{
    Pagination, DEFAULT_PAGE, DEFAULT_PER_PAGE, MAX_PER_PAGE, MIN_PER_PAGE,
};

fn pagination(page: Option<u32>, per_page: Option<u32>) -> Pagination {
    Pagination { page, per_page, total_pages: None }
}

#[test]
fn pagination_defaults_when_nothing_is_given() {
    let p = Pagination::default();
    assert_eq!(p.page(), DEFAULT_PAGE as u64);
    assert_eq!(p.per_page(), DEFAULT_PER_PAGE as u64);
    assert_eq!(p.offset(), 0);
}

#[test]
fn pagination_bounds_the_page_size() {
    assert_eq!(pagination(None, Some(0)).per_page(), MIN_PER_PAGE as u64);
    assert_eq!(pagination(None, Some(1000)).per_page(), MAX_PER_PAGE as u64);
    assert_eq!(pagination(None, Some(37)).per_page(), 37);
}

#[test]
fn pagination_offset_skips_earlier_pages() {
    assert_eq!(pagination(Some(3), Some(10)).offset(), 20);
    assert_eq!(pagination(Some(1), Some(250)).offset(), 0);
    assert_eq!(pagination(Some(2), Some(500)).offset(), 250);
}

#[test]
fn pagination_with_defaults_fills_only_missing_fields() {
    let p = pagination(None, None).with_defaults();
    assert_eq!(p.page, Some(1));
    assert_eq!(p.per_page, Some(20));
    let q = pagination(Some(4), Some(7)).with_defaults();
    assert_eq!(q.page, Some(4));
    assert_eq!(q.per_page, Some(7));
}

#[test]
fn pagination_counts_pages_rounding_up() {
    let p = pagination(None, None);
    assert_eq!(p.calculate_total_pages(0), 0);
    assert_eq!(p.calculate_total_pages(40), 2);
    assert_eq!(p.calculate_total_pages(41), 3);
    let mut q = pagination(Some(1), Some(10));
    q.set_total_pages(95);
    assert_eq!(q.total_pages, Some(10));
}

#[test]
fn pagination_last_page_holds_the_last_item() {
    // 41 items at 20 a page: the third page starts at item 40, the last one
    let p = pagination(Some(3), Some(20));
    assert_eq!(p.calculate_total_pages(41), 3);
    assert!(p.offset() < 41);
    assert!(p.offset() + p.per_page() >= 41);
}

#[test]
fn order_defaults_to_descending_by_default_column() {
    let o: Order<PageDataIndexOrderBy> = Order::default();
    assert_eq!(o.direction(), Direction::Desc);
    assert_eq!(o.by(), PageDataIndexOrderBy::Modified);
    let o2 = Order { by: Some(PageDataIndexOrderBy::Size), direction: Some(Direction::Asc) };
    assert_eq!(o2.by(), PageDataIndexOrderBy::Size);
    assert_eq!(o2.direction(), Direction::Asc);
    assert_eq!(Direction::default(), Direction::Desc);
}

fn record(id: i32, ulid: &str, path: &str, size: Option<i64>) -> FileRecord {
    FileRecord {
        id,
        ulid: ulid.to_string(),
        path: path.to_string(),
        hash: "h".to_string(),
        file_type: Some("image/png".to_string()),
        file_size: size,
        file_ctime: Some("2023-01-01T00:00:00+00:00".to_string()),
        file_mtime: None,
    }
}

#[test]
fn index_item_of_a_file_row() {
    let item = PageDataIndexItem::from_record(record(1, "01ARZ3NDEKTSV4RRFFQ69G5FAV", "memes/cat.png", Some(-12)));
    assert_eq!(item.id, "01arz3ndektsv4rrffq69g5fav");
    assert_eq!(item.name, "cat.png");
    assert_eq!(item.file_size, Some("-12".to_string()));
    assert_eq!(item.file_type, Some("image/png".to_string()));
    assert_eq!(item.created, Some("2023-01-01T00:00:00+00:00".to_string()));
    assert_eq!(item.modified, None);
    assert!(item.tags.is_empty());
    assert!(item.data.is_empty());
    let root = PageDataIndexItem::from_record(record(2, "A", "/", None));
    assert_eq!(root.name, "");
    assert_eq!(root.file_size, None);
}

#[test]
fn index_items_group_tags_and_data_by_file() {
    let items = vec![record(1, "A", "a.png", Some(1)), record(2, "B", "b/c.gif", Some(2))];
    let tags = vec![
        FileTagRecord { file_id: 2, tag_id: 7 },
        FileTagRecord { file_id: 1, tag_id: 3 },
        FileTagRecord { file_id: 2, tag_id: 5 },
    ];
    let data = vec![FileDataRecord {
        file_id: 1,
        key: "blurhash".to_string(),
        value: "LKO2".to_string(),
        meta: String::new(),
    }];
    assert_eq!(tags_for(&tags, 2), vec![7, 5]);
    assert_eq!(data_for(&data, 2).len(), 0);
    let out = index_items(items, &tags, &data);
    assert_eq!(out.len(), 2);
    assert_eq!(out[0].id, "a");
    assert_eq!(out[0].tags, vec![3]);
    assert_eq!(out[0].data.len(), 1);
    assert_eq!(out[0].data[0].key, "blurhash");
    assert_eq!(out[0].data[0].value, "LKO2");
    assert_eq!(out[1].name, "c.gif");
    assert_eq!(out[1].tags, vec![7, 5]);
    assert!(out[1].data.is_empty());
}

#[test]
fn stored_rows_grouped_by_file() {
    assert_eq!(rows_of_file(&vec![3, 1, 3, 2, 3], 3), vec![0, 2, 4]);
    assert!(rows_of_file(&vec![1, 2], 9).is_empty());
}
