//! The listing of indexed files that the index page shows: one item per
//! file with its name, size, type, dates, tags and stored data.
use vstd::prelude::*;
use crate::paths::{file_name, path_file_name};
use crate::text::{dec_signed, i64_to_string};

verus! {

broadcast use vstd::string::group_string_axioms;

/// A file row of the index.
#[derive(Clone, Debug)]
pub struct FileRecord {
    pub id: i32,
    pub ulid: String,
    pub path: String,
    pub hash: String,
    pub file_type: Option<String>,
    pub file_size: Option<i64>,
    pub file_ctime: Option<String>,
    pub file_mtime: Option<String>,
}

/// A tag given to a file.
#[derive(Clone, Copy, Debug, PartialEq, Eq, Structural)]
pub struct FileTagRecord {
    pub file_id: i32,
    pub tag_id: i32,
}

/// A piece of data stored for a file: a key, a value and JSON metadata.
#[derive(Clone, Debug)]
pub struct FileDataRecord {
    pub file_id: i32,
    pub key: String,
    pub value: String,
    pub meta: String,
}

/// A piece of data as the listing shows it; the metadata stays JSON text.
#[derive(Clone, Debug)]
pub struct PageDataIndexItemDataItem {
    pub key: String,
    pub value: String,
    pub meta: String,
}

/// One file as the listing shows it.
#[derive(Clone, Debug)]
pub struct PageDataIndexItem {
    pub id: String,
    pub name: String,
    pub file_size: Option<String>,
    pub file_type: Option<String>,
    pub created: Option<String>,
    pub modified: Option<String>,
    pub tags: Vec<i32>,
    pub data: Vec<PageDataIndexItemDataItem>,
}

/// What the listing can be sorted by.
#[derive(Clone, Copy, Debug, PartialEq, Eq, Structural)]
pub enum PageDataIndexOrderBy {
    Modified,
    Created,
    Size,
    Id,
}

impl Default for PageDataIndexOrderBy {
    fn default() -> (r: Self)
        ensures
            r == PageDataIndexOrderBy::Modified,
    {
        PageDataIndexOrderBy::Modified
    }
}

/// What `str::to_lowercase` gives for `s`.
pub uninterp spec fn lowercase(s: Seq<char>) -> Seq<char>;

/// `str::to_lowercase`. Claimed: the result is `lowercase` of the input.
#[verifier::external_body]
fn to_lowercase(s: &str) -> (r: String)
    ensures
        r@ == lowercase(s@),
{
    s.to_lowercase()
}

/// The texts of a piece of data.
pub open spec fn data_item_view(d: PageDataIndexItemDataItem) -> (Seq<char>, Seq<char>, Seq<char>) {
    (d.key@, d.value@, d.meta@)
}

/// The texts of a stored piece of data.
pub open spec fn data_record_view(d: FileDataRecord) -> (Seq<char>, Seq<char>, Seq<char>) {
    (d.key@, d.value@, d.meta@)
}

impl<'a> From<&'a FileDataRecord> for PageDataIndexItemDataItem {
    fn from(x: &'a FileDataRecord) -> (r: Self) {
        PageDataIndexItemDataItem { key: x.key.clone(), value: x.value.clone(), meta: x.meta.clone() }
    }
}

impl<'a> vstd::std_specs::convert::FromSpecImpl<&'a FileDataRecord> for PageDataIndexItemDataItem {
    open spec fn obeys_from_spec() -> bool {
        true
    }

    open spec fn from_spec(x: &'a FileDataRecord) -> Self {
        PageDataIndexItemDataItem { key: x.key, value: x.value, meta: x.meta }
    }
}

/// The text of an optional string.
pub open spec fn opt_text(o: Option<String>) -> Option<Seq<char>> {
    match o {
        Some(s) => Some(s@),
        None => None,
    }
}

/// The listing item of a file row, before tags and data are added: the id
/// in lower case, the name the last component of the path (empty when the
/// path has none), the size in decimal.
pub open spec fn item_fields_match(item: PageDataIndexItem, x: FileRecord) -> bool {
    &&& item.id@ == lowercase(x.ulid@)
    &&& item.name@ == match file_name(x.path@) {
        Some(n) => n,
        None => Seq::<char>::empty(),
    }
    &&& opt_text(item.file_size) == match x.file_size {
        Some(n) => Some(dec_signed(n as int)),
        None => None,
    }
    &&& opt_text(item.file_type) == opt_text(x.file_type)
    &&& opt_text(item.created) == opt_text(x.file_ctime)
    &&& opt_text(item.modified) == opt_text(x.file_mtime)
}

impl PageDataIndexItem {
    /// The listing item of a file row, with no tags and no data.
    pub fn from_record(x: FileRecord) -> (r: Self)
        ensures
            item_fields_match(r, x),
            r.tags@.len() == 0,
            r.data@.len() == 0,
    {
        let id = to_lowercase(x.ulid.as_str());
        let name = match path_file_name(x.path.as_str()) {
            Some(n) => n,
            None => String::new(),
        };
        let file_size = match x.file_size {
            Some(n) => Some(i64_to_string(n)),
            None => None,
        };
        PageDataIndexItem {
            id,
            name,
            file_size,
            file_type: x.file_type,
            created: x.file_ctime,
            modified: x.file_mtime,
            tags: Vec::new(),
            data: Vec::new(),
        }
    }

    /// The item with its tags replaced.
    pub fn with_tags(self, tags: Vec<i32>) -> (r: Self)
        ensures
            r.tags == tags,
            r.id == self.id && r.name == self.name && r.file_size == self.file_size,
            r.file_type == self.file_type && r.created == self.created && r.modified == self.modified,
            r.data == self.data,
    {
        let mut item = self;
        item.tags = tags;
        item
    }

    /// The item with its data replaced.
    pub fn with_data(self, data: Vec<PageDataIndexItemDataItem>) -> (r: Self)
        ensures
            r.data == data,
            r.id == self.id && r.name == self.name && r.file_size == self.file_size,
            r.file_type == self.file_type && r.created == self.created && r.modified == self.modified,
            r.tags == self.tags,
    {
        let mut item = self;
        item.data = data;
        item
    }
}

/// The tags of file `id`, in the order they are listed.
pub open spec fn tags_of(tags: Seq<FileTagRecord>, id: i32) -> Seq<i32>
    decreases tags.len(),
{
    if tags.len() == 0 {
        Seq::empty()
    } else if tags.last().file_id == id {
        tags_of(tags.drop_last(), id).push(tags.last().tag_id)
    } else {
        tags_of(tags.drop_last(), id)
    }
}

/// The data of file `id`, in the order they are listed.
pub open spec fn data_of(data: Seq<FileDataRecord>, id: i32) -> Seq<(Seq<char>, Seq<char>, Seq<char>)>
    decreases data.len(),
{
    if data.len() == 0 {
        Seq::empty()
    } else if data.last().file_id == id {
        data_of(data.drop_last(), id).push(data_record_view(data.last()))
    } else {
        data_of(data.drop_last(), id)
    }
}

/// The positions, in order, of the rows whose file id is `id`.
pub open spec fn rows_of(file_ids: Seq<i32>, id: i32) -> Seq<int>
    decreases file_ids.len(),
{
    if file_ids.len() == 0 {
        Seq::empty()
    } else if file_ids.last() == id {
        rows_of(file_ids.drop_last(), id).push(file_ids.len() - 1)
    } else {
        rows_of(file_ids.drop_last(), id)
    }
}

/// The positions of the rows of one file, given the file id of each row:
/// how the full index listing groups stored data by file.
pub fn rows_of_file(file_ids: &Vec<i32>, id: i32) -> (r: Vec<usize>)
    ensures
        r@.map_values(|k: usize| k as int) == rows_of(file_ids@, id),
{
    let mut r: Vec<usize> = Vec::new();
    let mut i: usize = 0;
    while i < file_ids.len()
        invariant
            0 <= i <= file_ids@.len(),
            r@.map_values(|k: usize| k as int) == rows_of(file_ids@.take(i as int), id),
        decreases file_ids@.len() - i,
    {
        assert(file_ids@.take(i + 1).drop_last() =~= file_ids@.take(i as int));
        if file_ids[i] == id {
            let ghost before = r@;
            r.push(i);
            assert(r@.map_values(|k: usize| k as int) =~= before.map_values(|k: usize| k as int).push(
                i as int,
            ));
        }
        i = i + 1;
    }
    assert(file_ids@.take(file_ids@.len() as int) =~= file_ids@);
    r
}

/// The tags of one file.
pub fn tags_for(tags: &Vec<FileTagRecord>, id: i32) -> (r: Vec<i32>)
    ensures
        r@ == tags_of(tags@, id),
{
    let mut r: Vec<i32> = Vec::new();
    let mut i: usize = 0;
    while i < tags.len()
        invariant
            0 <= i <= tags@.len(),
            r@ == tags_of(tags@.take(i as int), id),
        decreases tags@.len() - i,
    {
        assert(tags@.take(i + 1).drop_last() =~= tags@.take(i as int));
        if tags[i].file_id == id {
            r.push(tags[i].tag_id);
        }
        i = i + 1;
    }
    assert(tags@.take(tags@.len() as int) =~= tags@);
    r
}

/// The data of one file, as the listing shows it.
pub fn data_for(data: &Vec<FileDataRecord>, id: i32) -> (r: Vec<PageDataIndexItemDataItem>)
    ensures
        r@.map_values(|d: PageDataIndexItemDataItem| data_item_view(d)) == data_of(data@, id),
{
    let mut r: Vec<PageDataIndexItemDataItem> = Vec::new();
    let mut i: usize = 0;
    while i < data.len()
        invariant
            0 <= i <= data@.len(),
            r@.map_values(|d: PageDataIndexItemDataItem| data_item_view(d)) == data_of(
                data@.take(i as int),
                id,
            ),
        decreases data@.len() - i,
    {
        assert(data@.take(i + 1).drop_last() =~= data@.take(i as int));
        if data[i].file_id == id {
            let ghost before = r@;
            let d = PageDataIndexItemDataItem::from(&data[i]);
            r.push(d);
            assert(r@.map_values(|d: PageDataIndexItemDataItem| data_item_view(d)) =~= before.map_values(
                |d: PageDataIndexItemDataItem| data_item_view(d),
            ).push(data_record_view(data@[i as int])));
        }
        i = i + 1;
    }
    assert(data@.take(data@.len() as int) =~= data@);
    r
}

/// The listing of a page of file rows: each row's item with the tags and
/// data of that file, in the order the rows, tags and data are given.
pub fn index_items(items: Vec<FileRecord>, tags: &Vec<FileTagRecord>, data: &Vec<FileDataRecord>) -> (r:
    Vec<PageDataIndexItem>)
    ensures
        r@.len() == items@.len(),
        forall|i: int|
            0 <= i < items@.len() ==> {
                &&& item_fields_match(#[trigger] r@[i], items@[i])
                &&& r@[i].tags@ == tags_of(tags@, items@[i].id)
                &&& r@[i].data@.map_values(|d: PageDataIndexItemDataItem| data_item_view(d)) == data_of(
                    data@,
                    items@[i].id,
                )
            },
{
    let mut r: Vec<PageDataIndexItem> = Vec::new();
    let mut rest = items;
    let ghost all = rest@;
    let n = rest.len();
    // consume the rows from the back, then reverse
    let mut back: Vec<PageDataIndexItem> = Vec::new();
    while rest.len() > 0
        invariant
            all.len() == n,
            rest@ == all.take(rest@.len() as int),
            back@.len() == n - rest@.len(),
            forall|j: int|
                0 <= j < back@.len() ==> {
                    let x = all[n - 1 - j];
                    &&& item_fields_match(#[trigger] back@[j], x)
                    &&& back@[j].tags@ == tags_of(tags@, x.id)
                    &&& back@[j].data@.map_values(|d: PageDataIndexItemDataItem| data_item_view(d))
                        == data_of(data@, x.id)
                },
        decreases rest@.len(),
    {
        let x = rest.pop().unwrap();
        let id = x.id;
        let item = PageDataIndexItem::from_record(x);
        let item = item.with_tags(tags_for(tags, id));
        let item = item.with_data(data_for(data, id));
        back.push(item);
        assert(rest@ =~= all.take(rest@.len() as int));
    }
    while back.len() > 0
        invariant
            all.len() == n,
            back@.len() + r@.len() == n,
            forall|j: int|
                0 <= j < back@.len() ==> {
                    let x = all[n - 1 - j];
                    &&& item_fields_match(#[trigger] back@[j], x)
                    &&& back@[j].tags@ == tags_of(tags@, x.id)
                    &&& back@[j].data@.map_values(|d: PageDataIndexItemDataItem| data_item_view(d))
                        == data_of(data@, x.id)
                },
            forall|j: int|
                0 <= j < r@.len() ==> {
                    let x = all[j];
                    &&& item_fields_match(#[trigger] r@[j], x)
                    &&& r@[j].tags@ == tags_of(tags@, x.id)
                    &&& r@[j].data@.map_values(|d: PageDataIndexItemDataItem| data_item_view(d))
                        == data_of(data@, x.id)
                },
        decreases back@.len(),
    {
        let item = back.pop().unwrap();
        r.push(item);
    }
    r
}

/// The data listed for a file are exactly its stored rows, in their order,
/// each with the row's key, value and JSON metadata.
pub proof fn lemma_data_items_are_the_file_rows(data: Seq<FileDataRecord>, id: i32)
    ensures
        data_of(data, id) == data.filter(|r: FileDataRecord| r.file_id == id).map_values(
            |r: FileDataRecord| (r.key@, r.value@, r.meta@),
        ),
    decreases data.len(),
{
    reveal(Seq::filter);
    if data.len() > 0 {
        lemma_data_items_are_the_file_rows(data.drop_last(), id);
        let f = |r: FileDataRecord| (r.key@, r.value@, r.meta@);
        let rest = data.drop_last().filter(|r: FileDataRecord| r.file_id == id);
        if data.last().file_id == id {
            assert(rest.push(data.last()).map_values(f) =~= rest.map_values(f).push(f(data.last())));
        }
    } else {
        assert(data.filter(|r: FileDataRecord| r.file_id == id).map_values(
            |r: FileDataRecord| (r.key@, r.value@, r.meta@),
        ) =~= Seq::empty());
    }
}

/// The tags listed for a file are exactly the tag ids of its tag rows, in
/// their order.
pub proof fn lemma_tags_are_the_file_tag_rows(tags: Seq<FileTagRecord>, id: i32)
    ensures
        tags_of(tags, id) == tags.filter(|t: FileTagRecord| t.file_id == id).map_values(
            |t: FileTagRecord| t.tag_id,
        ),
    decreases tags.len(),
{
    reveal(Seq::filter);
    if tags.len() > 0 {
        lemma_tags_are_the_file_tag_rows(tags.drop_last(), id);
        let f = |t: FileTagRecord| t.tag_id;
        let rest = tags.drop_last().filter(|t: FileTagRecord| t.file_id == id);
        if tags.last().file_id == id {
            assert(rest.push(tags.last()).map_values(f) =~= rest.map_values(f).push(f(tags.last())));
        }
    } else {
        assert(tags.filter(|t: FileTagRecord| t.file_id == id).map_values(|t: FileTagRecord| t.tag_id)
            =~= Seq::empty());
    }
}

} // verus!
