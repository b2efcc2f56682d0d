use ipcmanview::devinfo::{ICamera, NotFound};
use ipcmanview::page::{Page, PageResult};
use ipcmanview::registry::IpcStore;
use ipcmanview::session::State;

#[test]
fn page_clamps_its_bounds() {
    let p = Page::new(0, 0);
    assert_eq!((p.page, p.per_page), (1, 5));
    let p = Page::new(3, 1000);
    assert_eq!((p.page, p.per_page), (3, 100));
    let p = Page::new(2, 25);
    assert_eq!(p.offset(), 25);
    assert_eq!(p.limit(), 25);
}

#[test]
fn page_result_counts_pages() {
    let p = Page::new(1, 10);
    let r: PageResult<i32> = p.new_result(vec![1, 2, 3], 42);
    assert_eq!(r.total_pages, 5);
    assert_eq!(r.total_items, 42);
    assert_eq!(r.items, vec![1, 2, 3]);
    let r: PageResult<i32> = p.new_result(vec![], 0);
    assert_eq!(r.total_pages, 1);
}

fn cam(id: i64) -> ICamera {
    ICamera {
        id,
        ip: format!("192.0.2.{}", id),
        username: "admin".to_string(),
        password: "123".to_string(),
    }
}

#[test]
fn registry_refresh_adds_updates_and_removes() {
    let mut store = IpcStore::new(vec![cam(1), cam(2)]);
    assert_eq!(store.mans.len(), 2);
    assert!(store.find(1).is_some());
    assert!(store.find(9).is_none());

    // An edit replaces the manager with a fresh, logged-out one.
    let displaced = store.refresh(1, Some(cam(1))).unwrap();
    assert_eq!(displaced.id, 1);
    assert_eq!(store.mans.len(), 2);
    assert!(matches!(store.mans[0].client.state, State::Logout));

    // An unknown camera gains a manager.
    assert!(store.refresh(3, Some(cam(3))).is_none());
    assert_eq!(store.mans.len(), 3);

    // A deleted camera loses its manager.
    let gone = store.refresh(2, None).unwrap();
    assert_eq!(gone.id, 2);
    assert_eq!(store.mans.len(), 2);
    assert!(store.find(2).is_none());

    // Refreshing a camera that never existed does nothing.
    assert!(store.refresh(42, None).is_none());
    assert_eq!(store.mans.len(), 2);
}

#[test]
fn registry_shutdown_hands_every_manager_back() {
    let mut store = IpcStore::new(vec![cam(1), cam(2)]);
    let mut all = store.shutdown();
    assert_eq!(all.len(), 2);
    assert_eq!(store.mans.len(), 0);
    // Closing blocks each manager; a logged-out one has no logout to send.
    let mut first = all.remove(0);
    assert!(first.close().is_none());
    assert!(matches!(first.client.state, State::Error(_)));
    // A second shutdown hands back nothing.
    assert_eq!(store.shutdown().len(), 0);
}

#[test]
fn manager_file_handle_carries_cookie_and_url() {
    let store = IpcStore::new(vec![cam(1)]);
    let f = store.mans[0].file("/mnt/sd/x.jpg");
    assert_eq!(f.url, "http://192.0.2.1/RPC_Loadfile/mnt/sd/x.jpg");
    assert_eq!(
        f.cookie,
        "WebClientSessionID=; DWebClientSessionID=; DhWebClientSessionID="
    );
}

#[test]
fn not_found_checks_rows_affected() {
    assert!(NotFound::check_query(1).is_ok());
    assert!(NotFound::check_query(0).is_err());
}
