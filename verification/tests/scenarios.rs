use ping0::handlers::{
    admin_delete_item, admin_items, short_handler, upload_handler, AppState, CodeParams,
};
use ping0::registry::Registry;
use ping0::reply::{RedirectKind, Reply};
use ping0::resolve::{resolve, Action};
use ping0::templates::Page;
use ping0::upload::{Rejection, Upload};

fn state() -> AppState {
    AppState { db_path: String::new(), base_url: "https://0.id.vn".to_string() }
}

#[test]
fn upload_round_trip() {
    let mut registry = Registry::new();
    let mut upload = Upload::begin("report.final.PDF", 100).unwrap();
    assert_eq!(upload.accept_chunk(60), Ok(()));
    assert_eq!(upload.accept_chunk(40), Ok(()));
    let file = upload.finish();
    let name = file.generated_name.clone();
    let reply = upload_handler(&state(), &mut registry.store, &Some(Ok(file)), 1).reply;
    assert!(matches!(reply, Reply::Text { .. }));
    let code = registry.store.list(1)[0].code.clone();
    match resolve(&registry.store, &code, "text/html", "https://0.id.vn") {
        Action::RenderFileInfo(page) => {
            assert_eq!(page.file_url, format!("https://0.id.vn/files/{}", name));
            assert_eq!(page.filename, name);
            assert_eq!(page.mime, "application/pdf");
        }
        other => panic!("unexpected {:?}", other),
    }
}

#[test]
fn oversized_upload_registers_nothing() {
    let mut registry = Registry::new();
    let mut upload = Upload::begin("clip.mp4", 100).unwrap();
    assert_eq!(upload.accept_chunk(100), Ok(()));
    let refused = upload.accept_chunk(1).unwrap_err();
    assert_eq!(refused, Rejection::TooLarge);
    let reply = upload_handler(&state(), &mut registry.store, &Some(Err(refused)), 1).reply;
    assert!(matches!(reply, Reply::Text { .. }));
    assert_eq!(registry.store.len(), 0);
}

#[test]
fn same_image_two_answers() {
    let mut registry = Registry::new();
    let file = Upload::begin("cat.webp", 10).unwrap().finish();
    let name = file.generated_name.clone();
    upload_handler(&state(), &mut registry.store, &Some(Ok(file)), 1).reply;
    let code = registry.store.list(1)[0].code.clone();
    let browser = "text/html,application/xhtml+xml,application/xml;q=0.9,image/webp,*/*;q=0.8";
    match short_handler(&state(), &registry.store, &code, browser) {
        Reply::Page(Page::ImageOg(page)) => {
            assert_eq!(page.full_image_url, format!("https://0.id.vn/files/{}", name));
            assert_eq!(page.page_url, format!("https://0.id.vn/s/{}", code));
        }
        other => panic!("unexpected {:?}", other),
    }
    match short_handler(&state(), &registry.store, &code, "image/webp,*/*") {
        Reply::Redirect { kind, to, cookie } => {
            assert_eq!(kind, RedirectKind::Permanent);
            assert_eq!(to, format!("https://0.id.vn/files/{}", name));
            assert_eq!(cookie, None);
        }
        other => panic!("unexpected {:?}", other),
    }
}

#[test]
fn session_from_login_administers() {
    let mut registry = Registry::new();
    assert!(registry.auth.login("alice", "secret1", 1).is_ok());
    assert!(registry.auth.login("alice", "wrongpass", 2).is_err());
    let token = registry.auth.login("alice", "secret1", 3).unwrap();
    let file = Upload::begin("cat.png", 10).unwrap().finish();
    let name = file.generated_name.clone();
    upload_handler(&state(), &mut registry.store, &Some(Ok(file)), 4).reply;
    let code = registry.store.list(1)[0].code.clone();
    match admin_items(&registry, Some(&token)) {
        Reply::Page(Page::AdminItems(page)) => {
            assert_eq!(page.items.len(), 1);
            assert_eq!(page.items[0].code, code);
        }
        other => panic!("unexpected {:?}", other),
    }
    let d = admin_delete_item(&mut registry, &CodeParams { code: code.clone() }, Some(&token));
    assert_eq!(d.file, Some(name));
    assert!(matches!(resolve(&registry.store, &code, "text/html", "https://0.id.vn"), Action::NotFound));
    registry.auth.logout(Some(&token));
    let d = admin_delete_item(&mut registry, &CodeParams { code }, Some(&token));
    assert!(matches!(d.reply, Reply::Redirect { .. }));
    assert_eq!(d.file, None);
}
