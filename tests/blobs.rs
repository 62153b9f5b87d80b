use passkey_files::app_html::{AppHtml, ViteChunk, ViteConfig};
use passkey_files::blob::{blob_dir_path, is_final_download, uploaded_file_path, BlobRow};
use passkey_files::error::ApiError;
use passkey_files::prf_seed::PrfSeed;
use passkey_files::reconcile::files_to_delete;
use passkey_files::table::BlobTable;

const OWNER: i64 = 7;

fn row(uuid: u128, downloads_remaining: Option<i64>, expires_at: Option<i64>) -> BlobRow {
    BlobRow {
        uuid,
        user_id: OWNER,
        e2ee_passkey_id: None,
        tombstoned: false,
        downloads_remaining,
        expires_at,
    }
}

#[test]
fn single_download_budget() {
    let mut table = BlobTable::new();
    let u1: u128 = 0x11;
    table.insert(row(u1, Some(1), None)).unwrap();
    assert_eq!(table.download(OWNER, u1, 100), Ok(true));
    assert_eq!(table.download(OWNER, u1, 100), Err(ApiError::NotFoundError));
    assert_eq!(table.get(u1).unwrap().downloads_remaining, Some(0));
}

#[test]
fn two_downloads_then_exhausted() {
    let r = row(0x12, Some(2), None);
    let (after, last) = r.download(OWNER, 0).unwrap();
    assert!(!last);
    let (after, last) = after.download(OWNER, 0).unwrap();
    assert!(last);
    assert_eq!(after.download(OWNER, 0), Err(ApiError::NotFoundError));
}

#[test]
fn unlimited_download_is_never_final() {
    let r = row(0x13, None, None);
    assert_eq!(r.download(OWNER, 0), Ok((r, false)));
    assert_eq!(r.download(OWNER + 1, 0), Err(ApiError::NotFoundError));
}

#[test]
fn expired_upload_is_swept() {
    let mut table = BlobTable::new();
    let u2: u128 = 0x22;
    let keep: u128 = 0x33;
    table.insert(row(u2, None, Some(50))).unwrap();
    table.insert(row(keep, None, Some(500))).unwrap();
    assert_eq!(table.download(OWNER, u2, 100), Err(ApiError::NotFoundError));
    let names = vec![
        uuid_text(u2),
        uuid_text(keep),
        "README".to_string(),
    ];
    assert_eq!(files_to_delete(&table, &names, 100), vec![0]);
    assert_eq!(table.prune_rows(100), vec![u2]);
    assert_eq!(table.get(u2), None);
    assert!(table.get(keep).is_some());
    let remaining = vec![names[1].clone(), names[2].clone()];
    assert_eq!(files_to_delete(&table, &remaining, 100), Vec::<usize>::new());
}

fn uuid_text(u: u128) -> String {
    let path = uploaded_file_path("r", u);
    path.rsplit('/').next().unwrap().to_string()
}

#[test]
fn delete_is_idempotent() {
    let mut table = BlobTable::new();
    table.insert(row(0x44, None, None)).unwrap();
    assert_eq!(table.delete(OWNER + 1, 0x44), Err(ApiError::NotFoundError));
    assert_eq!(table.delete(OWNER, 0x44), Ok(()));
    assert!(table.get(0x44).unwrap().tombstoned);
    assert_eq!(table.delete(OWNER, 0x44), Err(ApiError::NotFoundError));
    assert_eq!(table.download(OWNER, 0x44, 0), Err(ApiError::NotFoundError));
    assert_eq!(table.delete(OWNER, 0x45), Err(ApiError::NotFoundError));
}

#[test]
fn reused_uuid_is_refused() {
    let mut table = BlobTable::new();
    table.insert(row(0x55, None, None)).unwrap();
    assert_eq!(table.insert(row(0x55, Some(3), None)), Err(ApiError::BadRequestError));
    assert_eq!(table.rows().len(), 1);
}

#[test]
fn delete_all_tombstones_owned_rows() {
    let mut table = BlobTable::new();
    table.insert(row(1, None, None)).unwrap();
    let mut other = row(2, None, None);
    other.user_id = OWNER + 1;
    table.insert(other).unwrap();
    table.insert(row(3, None, None)).unwrap();
    assert_eq!(table.delete_all(OWNER), vec![1, 3]);
    assert!(table.get(1).unwrap().tombstoned);
    assert!(!table.get(2).unwrap().tombstoned);
    assert_eq!(table.prune_rows(0), vec![1, 3]);
    assert_eq!(table.rows().len(), 1);
}

#[test]
fn listing_respects_owner_binding_and_liveness() {
    let mut table = BlobTable::new();
    let mut bound = row(1, None, None);
    bound.e2ee_passkey_id = Some(9);
    table.insert(bound).unwrap();
    table.insert(row(2, Some(0), None)).unwrap();
    table.insert(row(3, None, Some(10))).unwrap();
    table.insert(row(4, None, None)).unwrap();
    let listed: Vec<u128> = table.list(OWNER, 9, 5).iter().map(|r| r.uuid).collect();
    assert_eq!(listed, vec![1, 3, 4]);
    let listed: Vec<u128> = table.list(OWNER, 8, 20).iter().map(|r| r.uuid).collect();
    assert_eq!(listed, vec![4]);
    assert!(table.list(OWNER + 1, 9, 5).is_empty());
}

#[test]
fn visibility_and_liveness() {
    let r = row(1, Some(1), Some(100));
    assert!(r.is_live(99));
    assert!(!r.is_live(100));
    assert!(r.is_visible_to(OWNER, 0, 0));
    assert!(!r.is_visible_to(OWNER + 1, 0, 0));
    assert_eq!(r.delete(OWNER).unwrap().tombstoned, true);
    assert_eq!(r.delete(OWNER + 1), Err(ApiError::NotFoundError));
}

#[test]
fn sharded_paths() {
    let u: u128 = 0x0123_4567_89ab_cdef_0123_4567_89ab_cdef;
    assert_eq!(
        uploaded_file_path("uploads", u),
        "uploads/01/23/01234567-89ab-cdef-0123-456789abcdef"
    );
    assert_eq!(blob_dir_path("uploads", u), "uploads/01/23");
}

#[test]
fn dev_footer_text() {
    let footer = AppHtml::get_vite_dev_footer("http://localhost:5173");
    assert_eq!(
        footer,
        "\n<script type=\"module\">\n  import RefreshRuntime from 'http://localhost:5173/@react-refresh'\n  RefreshRuntime.injectIntoGlobalHook(window)\n  window.$RefreshReg$ = () => {}\n  window.$RefreshSig$ = () => (type) => type\n  window.__vite_plugin_react_preamble_installed__ = true\n</script>\n<script type=\"module\" src=\"http://localhost:5173/@vite/client\"></script>\n<script type=\"module\" src=\"http://localhost:5173/app.tsx\"></script>\n"
    );
}

#[test]
fn release_footer_text() {
    let chunk = ViteChunk {
        file: "assets/app-1.js".to_string(),
        css: Some(vec!["assets/a.css".to_string(), "assets/b.css".to_string()]),
    };
    assert_eq!(
        AppHtml::get_vite_release_footer(&chunk),
        "\n            <link rel='stylesheet' href='/assets/a.css'>\n<link rel='stylesheet' href='/assets/b.css'>\n            <script type=\"module\" src=\"/assets/app-1.js\"></script>\n            "
    );
    let bare = ViteChunk { file: "x.js".to_string(), css: None };
    assert_eq!(
        AppHtml::get_vite_release_footer(&bare),
        "\n            \n            <script type=\"module\" src=\"/x.js\"></script>\n            "
    );
}

#[test]
fn page_gets_its_footer() {
    let config = ViteConfig::Dev { origin: "o".to_string() };
    let html = AppHtml::init("<body>{{GENERATED_VITE_FOOTER}}</body>", &config, None).unwrap();
    let footer = AppHtml::get_vite_dev_footer("o");
    assert_eq!(html.as_str(), format!("<body>{}</body>", footer));
    let release = ViteConfig::Release { root: "dist".to_string() };
    assert!(AppHtml::init("x", &release, None).is_none());
    let chunk = ViteChunk { file: "a.js".to_string(), css: None };
    let page = AppHtml::init("[{{GENERATED_VITE_FOOTER}}]", &release, Some(&chunk)).unwrap();
    assert!(page.as_str().starts_with("[\n"));
    assert!(page.as_str().contains("src=\"/a.js\""));
    assert!(!page.as_str().contains("GENERATED_VITE_FOOTER"));
}

#[test]
fn prf_seed_from_stored_bytes() {
    assert!(PrfSeed::from_stored(&[0u8; 31]).is_none());
    let seed = PrfSeed::from_stored(&[0u8; 32]).unwrap();
    assert_eq!(seed.get(), &[0u8; 32]);
    assert_eq!(seed.encoded(), "A".repeat(43));
    let fresh = PrfSeed::generate();
    assert_eq!(fresh.get().len(), 32);
    assert_ne!(fresh.get(), PrfSeed::generate().get());
}

#[test]
fn uploads_bind_to_session_passkey_when_encrypted() {
    let bound = BlobRow::new_upload(9, OWNER, 4, true, Some(2), Some(100));
    assert_eq!(bound.e2ee_passkey_id, Some(4));
    assert!(!bound.tombstoned);
    assert_eq!(bound.downloads_remaining, Some(2));
    assert_eq!(bound.expires_at, Some(100));
    let open = BlobRow::new_upload(9, OWNER, 4, false, None, None);
    assert_eq!(open.e2ee_passkey_id, None);
    assert_eq!(open.user_id, OWNER);
}

#[test]
fn final_download_is_budget_reaching_zero() {
    assert!(is_final_download(Some(0)));
    assert!(!is_final_download(Some(1)));
    assert!(!is_final_download(None));
}
