use bucket_store::account::Account;
use bucket_store::database::bucket::config::{BucketConfiguration, DriveType};
use bucket_store::database::bucket::descriptor::{BucketDescription, BucketDesriptor};
use bucket_store::database::bucket::document::field::descriptor::FieldDescriptor;
use bucket_store::database::bucket::document::field::fieldtype::FieldType;
use bucket_store::database::bucket::document::field::Field;
use bucket_store::database::bucket::document::{Document, DocumentConvert};
use bucket_store::database::bucket::writer::queued::{QueuedWriter, WriterAction};
use bucket_store::database::bucket::{Bucket, MIN_FREE_BYTES, QUEUE_CAPACITY};
use bucket_store::database::descriptor::DBDescriptor;
use bucket_store::database::{bucket_file_name, Database};
use bucket_store::error::DbError;
use bucket_store::utils::numbers::round_to_multiple;
use bucket_store::utils::pool::Pool;

const PAGE: u64 = 4096;
const FREE: u64 = 1 << 30;

fn text_schema(names: &[&str]) -> BucketDescription {
    BucketDescription::new(names.iter().map(|n| FieldDescriptor::new(n, FieldType::Text)).collect())
}

fn point_schema() -> BucketDescription {
    BucketDescription::new(vec![
        FieldDescriptor::new("x", FieldType::Int32),
        FieldDescriptor::new("y", FieldType::Int32),
    ])
}

fn name_document(text: &str) -> Document {
    Document::new(vec![Field::new("name", text).unwrap()])
}

fn new_bucket(schema: BucketDescription) -> (Bucket, QueuedWriter, Vec<u8>) {
    match Bucket::new("b", PAGE, true, Some(schema), FREE, &[]) {
        Ok((bucket, writer, page)) => (bucket, writer, page.unwrap()),
        Err(e) => panic!("the bucket should open: {:?}", e),
    }
}

fn write_at(file: &mut Vec<u8>, at: u64, bytes: &[u8]) {
    let at = at as usize;
    if file.len() < at + bytes.len() {
        file.resize(at + bytes.len(), 0);
    }
    file[at..at + bytes.len()].copy_from_slice(bytes);
}

fn run_writer(writer: &mut QueuedWriter, file: &mut Vec<u8>) -> usize {
    let mut written = 0;
    loop {
        match writer.poll() {
            WriterAction::Write(plan) => {
                for chunk in plan.chunks.iter() {
                    write_at(file, chunk.start, &chunk.bytes);
                }
                if let Some(cursor) = plan.cursor {
                    write_at(file, PAGE - 16, &cursor.to_le_bytes());
                }
                written += plan.items;
                writer.finish(plan.items);
            }
            _ => return written,
        }
    }
}

#[test]
fn descriptor_defaults() {
    assert_eq!(DBDescriptor::new(), DBDescriptor { page_size: 0, header_size: 1040 });
    assert_eq!(DBDescriptor::default(), DBDescriptor { page_size: 8192, header_size: 1040 });
    assert_eq!(DBDescriptor::with_page_size(512), DBDescriptor { page_size: 512, header_size: 1040 });
    let dynamic = DBDescriptor::dynamic();
    assert_eq!(dynamic.header_size, 1040);
    assert_eq!(dynamic.page_size, page_size::get() as u64);
}

#[test]
fn descriptor_bytes_are_its_two_numbers() {
    let d = DBDescriptor { page_size: 4096, header_size: 1040 };
    let bytes = d.serialize().unwrap();
    assert_eq!(bytes, vec![0, 16, 0, 0, 0, 0, 0, 0, 16, 4, 0, 0, 0, 0, 0, 0]);
    assert_eq!(DBDescriptor::deserialize(&bytes), Ok(d));
    assert!(matches!(DBDescriptor::deserialize(&bytes[..15]), Err(DbError::CodecFailure(_))));
}

#[test]
fn descriptor_file_skips_eight_bytes() {
    let d = DBDescriptor { page_size: 4096, header_size: 1040 };
    let file = d.save().unwrap();
    assert_eq!(file.len(), 32);
    assert_eq!(&file[..8], &[16, 0, 0, 0, 0, 0, 0, 0]);
    assert_eq!(&file[8..16], &[0; 8]);
    assert_eq!(&file[16..], &[0, 16, 0, 0, 0, 0, 0, 0, 16, 4, 0, 0, 0, 0, 0, 0]);
    assert_eq!(DBDescriptor::load(&file), Ok(d));
    let mut allocated = file.clone();
    allocated.resize(1040, 0);
    assert_eq!(DBDescriptor::load(&allocated), Ok(d));
}

#[test]
fn descriptor_file_that_is_short_or_damaged_fails() {
    let file = DBDescriptor::default().save().unwrap();
    assert!(matches!(DBDescriptor::load(&[]), Err(DbError::IoFailure(_))));
    assert!(matches!(DBDescriptor::load(&file[..15]), Err(DbError::IoFailure(_))));
    assert!(matches!(DBDescriptor::load(&file[..31]), Err(DbError::IoFailure(_))));
    let mut short_length = file.clone();
    short_length[0] = 8;
    assert!(matches!(DBDescriptor::load(&short_length), Err(DbError::CodecFailure(_))));
}

#[test]
fn configuration_keeps_the_drive_type() {
    assert_eq!(BucketConfiguration::new(DriveType::SSD).get_drive_type(), DriveType::SSD);
    assert_eq!(BucketConfiguration::new(DriveType::HDD).get_drive_type(), DriveType::HDD);
    assert_ne!(BucketConfiguration::new(DriveType::HDD), BucketConfiguration::new(DriveType::SSD));
}

#[test]
fn pool_lends_and_takes_back() {
    let mut pool = Pool::new(3, || vec![0u8; 2]);
    assert_eq!(pool.available(), 3);
    let mut a = pool.pull();
    a[0] = 7;
    assert_eq!(pool.available(), 2);
    let _b = pool.pull();
    let _c = pool.pull();
    assert_eq!(pool.available(), 0);
    pool.attach(a);
    assert_eq!(pool.available(), 1);
    assert_eq!(pool.pull(), vec![7, 0]);
    let empty: Pool<u8> = Pool::new(0, || 1);
    assert_eq!(empty.available(), 0);
}

#[test]
fn initialise_needs_space_and_schema() {
    assert_eq!(Bucket::initialize(MIN_FREE_BYTES - 1, Some(point_schema())), Err(DbError::InsufficientSpace));
    assert_eq!(Bucket::initialize(0, None), Err(DbError::InsufficientSpace));
    assert_eq!(Bucket::initialize(MIN_FREE_BYTES, None), Err(DbError::SchemaMissing));
    assert_eq!(Bucket::initialize(MIN_FREE_BYTES, Some(point_schema())), Ok(point_schema()));
    assert_eq!(MIN_FREE_BYTES, 1_048_576);
}

#[test]
fn free_space_of_one_byte_less_than_the_minimum_fails() {
    let r = Bucket::new("b", PAGE, true, Some(point_schema()), 1_048_575, &[]);
    assert!(matches!(r, Err(DbError::InsufficientSpace)));
    let r = Bucket::new("b", PAGE, true, Some(point_schema()), 1_048_576, &[]);
    assert!(r.is_ok());
    let r = Bucket::new("b", PAGE, true, None, 1_048_576, &[]);
    assert!(matches!(r, Err(DbError::SchemaMissing)));
}

#[test]
fn header_page_round_trips_the_schema() {
    let schema = text_schema(&["first_name", "last_name", "email"]);
    let page = Bucket::initialize_page(&schema, PAGE).unwrap();
    assert_eq!(page.len(), PAGE as usize);
    let encoded = schema.serialize().unwrap();
    assert_eq!(&page[..2], &(encoded.len() as u16).to_le_bytes());
    assert_eq!(&page[2..2 + encoded.len()], &encoded[..]);
    assert_eq!(&page[4080..4088], &PAGE.to_le_bytes());
    assert_eq!(Bucket::load_page(&page, PAGE), Ok((schema, PAGE)));
}

#[test]
fn header_page_without_room_fails() {
    let schema = text_schema(&["a_rather_long_name_of_a_field"]);
    assert!(matches!(Bucket::initialize_page(&schema, 32), Err(DbError::CodecFailure(_))));
    assert!(matches!(Bucket::initialize_page(&schema, 0), Err(DbError::CodecFailure(_))));
    assert!(Bucket::initialize_page(&BucketDescription::new(vec![]), 26).is_ok());
    assert!(matches!(
        Bucket::initialize_page(&BucketDescription::new(vec![]), 25),
        Err(DbError::CodecFailure(_))
    ));
}

#[test]
fn damaged_header_page_fails_to_load() {
    let page = Bucket::initialize_page(&point_schema(), PAGE).unwrap();
    assert!(matches!(Bucket::load_page(&page[..1], PAGE), Err(DbError::IoFailure(_))));
    assert!(matches!(Bucket::load_page(&page[..4087], PAGE), Err(DbError::IoFailure(_))));
    assert!(Bucket::load_page(&page[..4088], PAGE).is_ok());
    let mut bad = page.clone();
    bad[0] = 3;
    assert!(matches!(Bucket::load_page(&bad, PAGE), Err(DbError::CodecFailure(_))));
    assert!(matches!(
        Bucket::new("b", PAGE, false, None, 0, &bad),
        Err(DbError::CodecFailure(_))
    ));
}

#[test]
fn new_bucket_starts_at_the_end_of_the_page() {
    let (bucket, writer, page) = new_bucket(point_schema());
    assert_eq!(bucket.get_name(), "b");
    assert_eq!(bucket.get_page_size(), PAGE);
    assert_eq!(bucket.get_offset(), PAGE);
    assert_eq!(writer.persisted_tail(), PAGE);
    assert_eq!(*bucket.borrow_description(), point_schema());
    assert_eq!(bucket.get_description(), point_schema());
    assert_eq!(bucket.borrow_writer_thread().q.capacity(), QUEUE_CAPACITY);
    assert_eq!(QUEUE_CAPACITY, 10_000);
    assert_eq!(bucket.count_documents(&page), 0);
}

#[test]
fn frame_is_the_record_of_the_encoded_document() {
    let doc = name_document("abc");
    let payload = doc.serialize().unwrap();
    let record = Bucket::frame(&doc).unwrap();
    assert_eq!(record.len(), round_to_multiple(8 + payload.len(), 8));
    assert_eq!(&record[..8], &(payload.len() as u64).to_le_bytes());
    assert_eq!(&record[8..8 + payload.len()], &payload[..]);
}

#[test]
fn inserts_take_adjacent_ranges() {
    let (bucket, _writer, _page) = new_bucket(text_schema(&["name"]));
    let mut tail = PAGE;
    for text in ["a", "bb", "a much longer text than the others", ""] {
        let doc = name_document(text);
        let len = round_to_multiple(8 + doc.serialize().unwrap().len(), 8) as u64;
        let (end, id) = bucket.insert(&doc).unwrap();
        assert_eq!(end, tail + len);
        assert_eq!(id, [0u8; 16]);
        tail = end;
        assert_eq!(bucket.get_offset(), tail);
    }
    let q = &bucket.borrow_writer_thread().q;
    assert_eq!(q.len(), 4);
    let mut last_end = PAGE;
    while let Some(job) = q.pop() {
        assert_eq!(job.seek.0, last_end);
        assert_eq!(job.seek.1 - job.seek.0, job.bytes.len() as u64);
        assert_eq!(job.len, job.bytes.len());
        last_end = job.seek.1;
    }
    assert_eq!(last_end, tail);
}

#[test]
fn place_queues_the_record() {
    let (bucket, _writer, _page) = new_bucket(point_schema());
    assert_eq!(bucket.place(5000, vec![1, 2, 3]), Ok((5003, [0u8; 16])));
    let job = bucket.borrow_writer_thread().q.pop().unwrap();
    assert_eq!(job.seek, (5000, 5003));
    assert_eq!(job.bytes, vec![1, 2, 3]);
    assert!(matches!(bucket.place(u64::MAX, vec![1]), Err(DbError::IoFailure(_))));
    assert_eq!(bucket.borrow_writer_thread().q.len(), 0);
}

#[test]
fn full_queue_fails_until_the_writer_drains() {
    let (bucket, mut writer, page) = new_bucket(text_schema(&["name"]));
    let doc = name_document("x");
    for _ in 0..QUEUE_CAPACITY {
        assert!(bucket.insert(&doc).is_ok());
    }
    assert_eq!(bucket.insert(&doc), Err(DbError::QueueFull));
    assert_eq!(writer.drain(1).len(), 1);
    assert!(bucket.insert(&doc).is_ok());
    assert_eq!(bucket.insert(&doc), Err(DbError::QueueFull));
    let mut file = page;
    assert!(run_writer(&mut writer, &mut file) > 0);
    assert!(bucket.insert(&doc).is_ok());
}

#[test]
fn clones_share_the_tail_and_the_queue() {
    let (bucket, _writer, _page) = new_bucket(text_schema(&["name"]));
    let copy = bucket.clone();
    let (end, _) = bucket.insert(&name_document("a")).unwrap();
    assert_eq!(copy.get_offset(), end);
    let (end2, _) = copy.insert(&name_document("b")).unwrap();
    assert!(end2 > end);
    assert_eq!(bucket.get_offset(), end2);
    assert_eq!(bucket.borrow_writer_thread().q.len(), 2);
}

#[test]
fn file_holds_the_page_and_the_records() {
    let (bucket, mut writer, page) = new_bucket(text_schema(&["name"]));
    let mut file = page.clone();
    let mut expected = page;
    let texts = ["one", "two", "three", "", "five and a little more"];
    for text in texts {
        let doc = name_document(text);
        expected.extend(Bucket::frame(&doc).unwrap());
        bucket.insert(&doc).unwrap();
    }
    assert_eq!(run_writer(&mut writer, &mut file), texts.len());
    let tail = bucket.get_offset();
    write_at(&mut expected, PAGE - 16, &tail.to_le_bytes());
    assert_eq!(file, expected);
    assert_eq!(file.len() as u64, tail);
    assert_eq!(writer.persisted_tail(), tail);
    assert_eq!(bucket.count_documents(&file), texts.len());
    assert_eq!(bucket.borrow_writer_thread().pending(), 0);
}

#[test]
fn reopened_bucket_counts_what_was_inserted() {
    let schema = text_schema(&["name"]);
    let (bucket, mut writer, page) = new_bucket(schema.clone());
    let mut file = page;
    for i in 0..5 {
        bucket.insert(&name_document(&format!("document {}", i))).unwrap();
    }
    bucket.borrow_writer_thread().request_exit();
    assert_eq!(run_writer(&mut writer, &mut file), 5);
    assert!(matches!(writer.poll(), WriterAction::Stop));
    let tail = bucket.get_offset();
    match Bucket::new("b", PAGE, false, None, 0, &file[..PAGE as usize]) {
        Ok((reopened, second_writer, first_page)) => {
            assert!(first_page.is_none());
            assert_eq!(*reopened.borrow_description(), schema);
            assert_eq!(reopened.get_offset(), tail);
            assert_eq!(second_writer.persisted_tail(), tail);
            assert_eq!(reopened.count_documents(&file), 5);
            let (end, _) = reopened.insert(&name_document("one more")).unwrap();
            assert!(end > tail);
        }
        Err(e) => panic!("the bucket should load: {:?}", e),
    }
}

#[test]
fn many_handles_reserve_disjoint_ranges() {
    let (bucket, mut writer, page) = new_bucket(text_schema(&["name"]));
    let handles = 8;
    let each = 500;
    let copies: Vec<Bucket> = (0..handles).map(|_| bucket.clone()).collect();
    let mut last = 0;
    for round in 0..each {
        for (t, handle) in copies.iter().enumerate() {
            let doc = name_document(&format!("handle {}", (t + round) % handles));
            let (end, _) = handle.insert(&doc).unwrap();
            assert!(end > last);
            last = end;
        }
    }
    let mut file = page;
    assert_eq!(run_writer(&mut writer, &mut file), handles * each);
    assert_eq!(file.len() as u64, bucket.get_offset());
    assert_eq!(bucket.count_documents(&file), handles * each);
    let record = Bucket::frame(&name_document("handle 0")).unwrap().len() as u64;
    assert_eq!(bucket.get_offset(), PAGE + (handles * each) as u64 * record);
}

#[test]
fn database_opens_new_and_existing() {
    let (db, file) = match Database::open("./t1", None) {
        Ok(opened) => opened,
        Err(e) => panic!("the database should open: {:?}", e),
    };
    let file = file.unwrap();
    assert_eq!(db.get_store_dir(), "./t1");
    assert_eq!(db.get_descriptor().header_size, 1040);
    assert_eq!(db.get_descriptor().page_size, page_size::get() as u64);
    assert_eq!(db.borrow_buckets().len(), 0);
    let (again, nothing) = match Database::open("./t1", Some(&file)) {
        Ok(opened) => opened,
        Err(e) => panic!("the database should open: {:?}", e),
    };
    assert!(nothing.is_none());
    assert_eq!(again.get_descriptor(), db.get_descriptor());
    assert!(matches!(Database::open("./t1", Some(&[])), Err(DbError::IoFailure(_))));
    assert_eq!(bucket_file_name("accounts"), "accounts.page");
}

#[test]
fn accounts_are_stored_and_counted() {
    let mut db = Database::with_descriptor("./t1", DBDescriptor::with_page_size(PAGE));
    let schema = BucketDescription::new(vec![
        FieldDescriptor::new("first_name", FieldType::Text),
        FieldDescriptor::new("last_name", FieldType::Text),
        FieldDescriptor::new("email", FieldType::Text),
        FieldDescriptor::new("data", FieldType::Bytes),
    ]);
    let (mut writer, page) = match db.open_bucket("accounts", Some(schema.clone()), None, FREE) {
        Ok(opened) => opened,
        Err(e) => panic!("the bucket should open: {:?}", e),
    };
    let mut file = page.unwrap();
    let account = Account::new("Anton", "Hagsér", "anton@example.se", vec![1, 2, 3]);
    let (end, id) = db.insert("accounts", 0, account).unwrap();
    assert_eq!(id, [0u8; 16]);
    assert_eq!(run_writer(&mut writer, &mut file), 1);
    assert_eq!(file.len() as u64, end);
    let mut reopened = Database::with_descriptor("./t1", DBDescriptor::with_page_size(PAGE));
    assert!(reopened.open_bucket("accounts", None, Some(&file[..PAGE as usize]), 0).is_ok());
    let bucket = reopened.get_bucket("accounts").unwrap();
    assert_eq!(*bucket.borrow_description(), schema);
    assert_eq!(bucket.count_documents(&file), 1);
    assert_eq!(bucket.get_offset(), end);
    let payload_len = u64::from_le_bytes(file[4096..4104].try_into().unwrap()) as usize;
    let stored = Document::deserialize(&file[4104..4104 + payload_len]).unwrap();
    let back = Account::convert_from(&stored).unwrap();
    assert_eq!(back.get_first_name(), "Anton");
    assert_eq!(back.get_last_name(), "Hagsér");
    assert_eq!(back.get_email(), "anton@example.se");
    assert_eq!(back.get_data(), &[1, 2, 3]);
}

#[test]
fn insert_checks_bucket_conversion_and_schema() {
    let mut db = Database::with_descriptor("./t3", DBDescriptor::with_page_size(PAGE));
    assert!(db.open_bucket("b", Some(point_schema()), None, FREE).is_ok());
    let good = Document::new(vec![Field::new("x", 1i32).unwrap(), Field::new("y", 2i32).unwrap()]);
    let short = Document::new(vec![Field::new("x", 1i32).unwrap()]);
    let other = Document::new(vec![Field::new("x", 1i32).unwrap(), Field::new("z", 2i32).unwrap()]);
    assert!(db.insert_document("b", Some(good.clone())).is_ok());
    assert_eq!(
        db.insert_document("b", Some(short)),
        Err(DbError::SchemaArity { expected: 2, actual: 1 })
    );
    assert_eq!(
        db.insert_document("b", Some(other)),
        Err(DbError::SchemaFieldUnknown { name: b"z\0".to_vec() })
    );
    assert_eq!(db.insert_document("b", None), Err(DbError::ConversionFailed));
    assert_eq!(db.insert_document("c", Some(good)), Err(DbError::UnknownBucket));
    assert_eq!(db.insert_document("c", None), Err(DbError::UnknownBucket));
    let account = Account::new("a", "b", "c", vec![]);
    assert_eq!(db.insert("c", 0, account), Err(DbError::UnknownBucket));
    let account = Account::new("a", "b", "c", vec![]);
    assert_eq!(db.insert("b", 0, account), Err(DbError::SchemaArity { expected: 2, actual: 4 }));
    assert_eq!(db.get_bucket("b").unwrap().borrow_writer_thread().q.len(), 1);
}

#[test]
fn empty_document_is_inserted_into_a_bucket_without_fields() {
    let mut db = Database::with_descriptor("./t", DBDescriptor::with_page_size(PAGE));
    let (mut writer, page) = match db.open_bucket("b", Some(BucketDescription::new(vec![])), None, FREE) {
        Ok(opened) => opened,
        Err(e) => panic!("the bucket should open: {:?}", e),
    };
    assert_eq!(db.insert_document("b", Some(Document::new(vec![]))), Ok((PAGE + 16, [0u8; 16])));
    let mut file = page.unwrap();
    assert_eq!(run_writer(&mut writer, &mut file), 1);
    assert_eq!(db.get_bucket("b").unwrap().count_documents(&file), 1);
}

#[test]
fn opening_a_bucket_registers_it() {
    let mut db = Database::with_descriptor("./t", DBDescriptor::with_page_size(PAGE));
    assert!(db.get_bucket("b").is_none());
    assert!(matches!(db.open_bucket("b", None, None, FREE), Err(DbError::SchemaMissing)));
    assert!(matches!(
        db.open_bucket("b", Some(point_schema()), None, 10),
        Err(DbError::InsufficientSpace)
    ));
    assert!(matches!(
        db.open_bucket("b", None, Some(&[1, 2, 3]), FREE),
        Err(DbError::IoFailure(_))
    ));
    assert!(db.get_bucket("b").is_none());
    assert!(db.open_bucket("b", Some(point_schema()), None, FREE).is_ok());
    assert!(db.get_bucket("b").is_some());
    assert!(db.get_bucket("c").is_none());
    let registry = db.borrow_buckets();
    assert_eq!(registry.len(), 1);
    assert!(registry.contains_key("b"));
}

#[test]
fn find_and_drop_are_unimplemented() {
    let mut db = Database::with_descriptor("./t", DBDescriptor::default());
    assert_eq!(db.find::<u8>("b", 0), Err(DbError::Unimplemented));
    assert_eq!(db.drop::<u8>("b", 0), Err(DbError::Unimplemented));
}

#[test]
fn account_converts_to_a_document_and_back() {
    let account = Account::new("Anton", "Hagsér", "anton@example.se", vec![0, 255]);
    let doc = account.convert_to().unwrap();
    assert_eq!(doc.len(), 4);
    assert_eq!(doc.read_field("first_name").unwrap().get_value::<&str>(), Some("Anton"));
    assert_eq!(*doc.read_field("data").unwrap().get_type(), FieldType::Bytes);
    assert_eq!(doc.get_fields()[1].get_key(), b"last_name\0");
    let back = Account::convert_from(&doc).unwrap();
    assert_eq!(back.get_email(), "anton@example.se");
    assert_eq!(back.get_data(), &[0, 255]);
    assert!(Account::convert_from(&Document::new(vec![])).is_none());
}
