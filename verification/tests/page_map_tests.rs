use sandbox_controller::page_map::AllocatorEvent;
use sandbox_controller::page_map::Memory;
use sandbox_controller::page_map::Page;
use sandbox_controller::page_map::PageMap;
use sandbox_controller::page_map::copy_bytes;

#[test]
fn empty_page_map_has_no_pages() {
    let pm = PageMap::new();
    assert!(pm.get_page(0).is_none());
    assert!(pm.get_page(17).is_none());
}

#[test]
fn set_page_stores_and_replaces() {
    let mut pm = PageMap::new();
    pm.set_page(1, vec![1, 1]);
    pm.set_page(2, vec![2]);
    assert_eq!(pm.get_page(1), Some(&vec![1u8, 1]));
    assert_eq!(pm.get_page(2), Some(&vec![2u8]));
    pm.set_page(1, vec![9, 9, 9]);
    assert_eq!(pm.get_page(1), Some(&vec![9u8, 9, 9]));
    assert!(pm.get_page(3).is_none());
}

#[test]
fn update_applies_delta_bit_exact() {
    let mut pm = PageMap::new();
    pm.set_page(1, vec![1, 1]);
    pm.set_page(2, vec![2]);
    let delta = vec![
        Page { index: 2, bytes: vec![9] },
        Page { index: 5, bytes: vec![5, 5, 5] },
    ];
    let (changed, _event) = pm.update(&delta);
    assert_eq!(changed, vec![2, 5]);
    assert_eq!(pm.get_page(1), Some(&vec![1u8, 1]));
    assert_eq!(pm.get_page(2), Some(&vec![9u8]));
    assert_eq!(pm.get_page(5), Some(&vec![5u8, 5, 5]));
    assert!(pm.get_page(3).is_none());
}

#[test]
fn later_entries_of_one_delta_win() {
    let mut pm = PageMap::new();
    let delta = vec![
        Page { index: 4, bytes: vec![1] },
        Page { index: 4, bytes: vec![2] },
    ];
    let (changed, _event) = pm.update(&delta);
    assert_eq!(changed, vec![4, 4]);
    assert_eq!(pm.get_page(4), Some(&vec![2u8]));
}

#[test]
fn allocator_created_by_first_commit_only() {
    let mut pm = PageMap::new();
    let (_, first) = pm.update(&vec![]);
    assert_eq!(first, AllocatorEvent::Created);
    let (_, second) = pm.update(&vec![Page { index: 0, bytes: vec![0] }]);
    assert_eq!(second, AllocatorEvent::Unchanged);
}

#[test]
fn serialize_lists_every_written_page() {
    let mut pm = PageMap::new();
    pm.set_page(3, vec![3]);
    pm.set_page(8, vec![8, 8]);
    let full = pm.serialize();
    assert_eq!(full.len(), 2);
    assert_eq!(full[0], Page { index: 3, bytes: vec![3] });
    assert_eq!(full[1], Page { index: 8, bytes: vec![8, 8] });
}

#[test]
fn serialize_pages_picks_the_listed_pages() {
    let mut pm = PageMap::new();
    pm.set_page(1, vec![1]);
    pm.set_page(2, vec![2]);
    pm.set_page(3, vec![3]);
    let picked = pm.serialize_pages(&vec![3, 1]);
    assert_eq!(picked.len(), 2);
    assert_eq!(picked[0], Page { index: 3, bytes: vec![3] });
    assert_eq!(picked[1], Page { index: 1, bytes: vec![1] });
}

#[test]
fn copy_bytes_is_exact() {
    let src: Vec<u8> = vec![0, 255, 7, 7];
    assert_eq!(copy_bytes(&src), src);
    let empty: Vec<u8> = vec![];
    assert_eq!(copy_bytes(&empty), empty);
}

#[test]
fn fresh_memory_is_empty() {
    let m = Memory::new();
    assert_eq!(m.size, 0);
    assert!(m.page_map.get_page(0).is_none());
}
