use rusted_kernel::fs::fat16::{
    fat16_create_file, fat16_mc, fat16_read, fat16_save, fat16_save_input_as_file,
    ramfs_list_files, refresh_mc_list, Fat16DirEntry, FsStatus, MemoryFilesystem,
};
use rusted_kernel::vga::{Cell, Screen};

fn name(text: &str) -> [u8; 8] {
    let mut out = [b' '; 8];
    for (i, b) in text.bytes().take(8).enumerate() {
        out[i] = b;
    }
    out
}

fn numbered(i: usize) -> [u8; 8] {
    let text = format!("F{:07}", i);
    name(&text)
}

fn chars(screen: &Screen, col: usize, row: usize, len: usize) -> Vec<u8> {
    (0..len).map(|i| screen.get(col + i, row).unwrap().ch).collect()
}

fn colors(screen: &Screen, col: usize, row: usize, len: usize) -> Vec<u8> {
    (0..len).map(|i| screen.get(col + i, row).unwrap().color).collect()
}

#[test]
fn formatted_store_has_reserved_markers_and_free_clusters() {
    let fs = MemoryFilesystem::new();
    assert_eq!(fs.marker(0), Some(0xFFF8));
    assert_eq!(fs.marker(1), Some(0xFFFF));
    assert_eq!(fs.marker(2), Some(0x0000));
    assert_eq!(fs.marker(4095), Some(0x0000));
    assert_eq!(fs.marker(4096), None);
    assert_eq!(fs.entry(0).unwrap(), Fat16DirEntry::empty());
    assert_eq!(fs.entry(511).unwrap(), Fat16DirEntry::empty());
    assert!(fs.entry(512).is_none());
    assert!(fs.list(512).is_empty());
}

#[test]
fn create_writes_a_zero_size_entry_and_ends_the_cluster_chain() {
    let mut fs = MemoryFilesystem::new();
    assert_eq!(fat16_create_file(&mut fs, &name("NOTES")), FsStatus::Done);
    let e = fs.entry(0).unwrap();
    assert_eq!(&e.name, b"NOTES   ");
    assert_eq!(&e.ext, b"TXT");
    assert_eq!(e.attr, 0x20);
    assert_eq!(e.first_cluster, 2);
    assert_eq!(e.cluster_high, 0);
    assert_eq!(e.file_size, 0);
    assert_eq!(fs.marker(2), Some(0xFFFF));
    assert_eq!(fs.marker(3), Some(0x0000));

    assert_eq!(fat16_create_file(&mut fs, &name("MORE")), FsStatus::Done);
    let e = fs.entry(1).unwrap();
    assert_eq!(&e.name, b"MORE    ");
    assert_eq!(e.first_cluster, 3);
    assert_eq!(fs.marker(3), Some(0xFFFF));
}

#[test]
fn create_then_load_is_empty() {
    let mut fs = MemoryFilesystem::new();
    assert_eq!(fat16_create_file(&mut fs, &name("A")), FsStatus::Done);
    let (bytes, status) = fs.load(&name("A"), 512);
    assert_eq!(status, FsStatus::Done);
    assert!(bytes.is_empty());
}

#[test]
fn save_then_load_returns_the_payload() {
    let mut fs = MemoryFilesystem::new();
    assert_eq!(fat16_save(&mut fs, b"LOG1    ", b"HELLOWORLD"), FsStatus::Done);
    let (bytes, status) = fs.load(b"LOG1    ", 512);
    assert_eq!(status, FsStatus::Done);
    assert_eq!(bytes, b"HELLOWORLD".to_vec());
    assert_eq!(bytes.len(), 10);
    let e = fs.entry(0).unwrap();
    assert_eq!(e.file_size, 10);
    assert_eq!(e.first_cluster, 2);
    assert_eq!(&e.ext, b"TXT");
}

#[test]
fn save_of_a_full_cluster_comes_back_whole() {
    let mut fs = MemoryFilesystem::new();
    let data: Vec<u8> = (0..512u32).map(|i| (i % 251) as u8).collect();
    assert_eq!(fat16_save(&mut fs, &name("FULL"), &data), FsStatus::Done);
    let (bytes, status) = fs.load(&name("FULL"), 512);
    assert_eq!(status, FsStatus::Done);
    assert_eq!(bytes, data);
}

#[test]
fn scenario_log1_create_save_load() {
    let mut fs = MemoryFilesystem::new();
    assert_eq!(fat16_create_file(&mut fs, b"LOG1    "), FsStatus::Done);
    assert_eq!(fat16_save(&mut fs, b"LOG1    ", b"HELLOWORLD"), FsStatus::Done);
    // The save takes a slot and a cluster of its own, with the size recorded.
    let saved = fs.entry(1).unwrap();
    assert_eq!(&saved.name, b"LOG1    ");
    assert_eq!(saved.file_size, 10);
    assert_eq!(saved.first_cluster, 3);
    assert_eq!(fs.list(512).len(), 2);
    // The lookup stops at the first slot with the name: the empty file.
    let (bytes, status) = fs.load(b"LOG1    ", 512);
    assert_eq!(status, FsStatus::Done);
    assert!(bytes.is_empty());
}

#[test]
fn save_of_nothing_writes_an_empty_file() {
    let mut fs = MemoryFilesystem::new();
    assert_eq!(fat16_save(&mut fs, &name("EMPTY"), b""), FsStatus::Done);
    let e = fs.entry(0).unwrap();
    assert_eq!(&e.name, b"EMPTY   ");
    assert_eq!(&e.ext, b"TXT");
    assert_eq!(e.attr, 0x20);
    assert_eq!(e.first_cluster, 2);
    assert_eq!(e.file_size, 0);
    assert_eq!(fs.marker(2), Some(0xFFFF));
    assert_eq!(fs.list(512).len(), 1);
    assert_eq!(fs.load(&name("EMPTY"), 512), (Vec::new(), FsStatus::Done));

    // The same store comes of a create.
    let mut created = MemoryFilesystem::new();
    assert_eq!(fat16_create_file(&mut created, &name("EMPTY")), FsStatus::Done);
    assert_eq!(created.entry(0), fs.entry(0));
    assert_eq!(created.marker(2), fs.marker(2));
    assert_eq!(created.marker(3), fs.marker(3));
}

#[test]
fn save_of_nothing_fails_as_a_create_does() {
    let mut fs = MemoryFilesystem::new();
    for i in 0..512 {
        fat16_create_file(&mut fs, &numbered(i));
    }
    assert_eq!(fat16_save(&mut fs, &name("EMPTY"), b""), FsStatus::SlotExhausted);
    assert_eq!(fs.list(512).len(), 512);
}

#[test]
fn load_of_an_unknown_name_is_not_found() {
    let mut fs = MemoryFilesystem::new();
    fat16_save(&mut fs, &name("A"), b"abc");
    assert_eq!(fs.load(&name("B"), 512), (Vec::new(), FsStatus::NotFound));
    assert_eq!(fs.load(b"A      \0", 512), (Vec::new(), FsStatus::NotFound));
}

#[test]
fn load_cuts_to_the_capacity_and_says_so() {
    let mut fs = MemoryFilesystem::new();
    fat16_save(&mut fs, &name("A"), b"HELLOWORLD");
    assert_eq!(fs.load(&name("A"), 4), (b"HELL".to_vec(), FsStatus::Truncated));
    assert_eq!(fs.load(&name("A"), 0), (Vec::new(), FsStatus::Truncated));
    assert_eq!(fs.load(&name("A"), 10), (b"HELLOWORLD".to_vec(), FsStatus::Done));
    assert_eq!(fs.load(&name("A"), 11), (b"HELLOWORLD".to_vec(), FsStatus::Done));
}

#[test]
fn full_directory_refuses_one_more_create() {
    let mut fs = MemoryFilesystem::new();
    for i in 0..512 {
        assert_eq!(fat16_create_file(&mut fs, &numbered(i)), FsStatus::Done);
    }
    let before = fs.list(512);
    assert_eq!(before.len(), 512);
    assert_eq!(fat16_create_file(&mut fs, &name("ONEMORE")), FsStatus::SlotExhausted);
    let after = fs.list(512);
    assert_eq!(after.len(), 512);
    assert_eq!(after, before);
    assert_eq!(fs.load(&name("ONEMORE"), 512).1, FsStatus::NotFound);
    assert_eq!(fs.marker(2 + 512), Some(0));
    assert_eq!(fat16_save(&mut fs, &name("ONEMORE"), b"x"), FsStatus::SlotExhausted);
    assert_eq!(fs.list(512), before);
}

#[test]
fn exhausted_clusters_refuse_a_create() {
    let mut fs = MemoryFilesystem::new();
    // A name that starts with a zero byte leaves its slot free, so that every
    // create takes one more cluster and the same slot.
    let hidden = [0u8, b'X', b' ', b' ', b' ', b' ', b' ', b' '];
    for _ in 0..4094 {
        assert_eq!(fat16_create_file(&mut fs, &hidden), FsStatus::Done);
    }
    assert_eq!(fs.marker(4095), Some(0xFFFF));
    assert_eq!(fs.entry(0).unwrap().first_cluster, 4095);
    let before = fs.entry(0).unwrap();
    assert_eq!(fat16_create_file(&mut fs, &name("A")), FsStatus::ClusterExhausted);
    assert_eq!(fs.entry(0).unwrap(), before);
    assert_eq!(fat16_save(&mut fs, &name("A"), b"abc"), FsStatus::ClusterExhausted);
    assert!(fs.list(512).is_empty());
}

#[test]
fn overlong_payload_runs_over_the_next_cluster() {
    let mut fs = MemoryFilesystem::new();
    let long: Vec<u8> = (0..600u32).map(|i| (i % 200) as u8 + 1).collect();
    assert_eq!(fat16_save(&mut fs, &name("LONG"), &long), FsStatus::Overrun);
    assert_eq!(fs.entry(0).unwrap().file_size, 600);
    assert_eq!(fs.load(&name("LONG"), 8192), (long.clone(), FsStatus::Done));

    assert_eq!(fat16_save(&mut fs, &name("NEXT"), b"0123456789"), FsStatus::Done);
    assert_eq!(fs.entry(1).unwrap().first_cluster, 3);
    let mut spoiled = long.clone();
    spoiled[512..522].copy_from_slice(b"0123456789");
    assert_eq!(fs.load(&name("LONG"), 8192), (spoiled, FsStatus::Done));
}

#[test]
fn payload_past_the_end_of_the_data_region_is_cut() {
    let mut fs = MemoryFilesystem::new();
    let hidden = [0u8; 8];
    for _ in 0..4093 {
        fat16_create_file(&mut fs, &hidden);
    }
    let long = vec![7u8; 600];
    assert_eq!(fat16_save(&mut fs, &name("LAST"), &long), FsStatus::Overrun);
    let e = fs.entry(0).unwrap();
    assert_eq!(e.first_cluster, 4095);
    assert_eq!(e.file_size, 600);
    assert_eq!(fs.load(&name("LAST"), 8192), (vec![7u8; 512], FsStatus::Truncated));
}

#[test]
fn listing_skips_unused_and_deleted_slots() {
    let mut fs = MemoryFilesystem::new();
    fat16_create_file(&mut fs, &name("A"));
    let deleted = [0xE5u8, b'B', b' ', b' ', b' ', b' ', b' ', b' '];
    fat16_create_file(&mut fs, &deleted);
    assert_eq!(fs.entry(1).unwrap().name, deleted);
    let listed = fs.list(512);
    assert_eq!(listed.len(), 1);
    assert_eq!(&listed[0].name, b"A       ");
    // The slot marked deleted is the first free one, and is taken next.
    fat16_create_file(&mut fs, &name("C"));
    assert_eq!(&fs.entry(1).unwrap().name, b"C       ");
    let listed = fs.list(512);
    assert_eq!(listed.len(), 2);
    for e in listed.iter() {
        assert_ne!(e.name[0], 0x00);
        assert_ne!(e.name[0], 0xE5);
    }
}

#[test]
fn listing_stops_after_the_given_number_of_slots() {
    let mut fs = MemoryFilesystem::new();
    for i in 0..20 {
        fat16_create_file(&mut fs, &numbered(i));
    }
    assert_eq!(fs.list(15).len(), 15);
    assert_eq!(fs.list(0).len(), 0);
    assert_eq!(fs.list(1000).len(), 20);
    let listed = fs.list(3);
    assert_eq!(listed[0].name, numbered(0));
    assert_eq!(listed[2].name, numbered(2));
}

#[test]
fn entry_layout_is_32_bytes_little_endian() {
    let e = Fat16DirEntry {
        name: *b"LOG1    ",
        ext: *b"TXT",
        attr: 0x20,
        reserved: 0x11,
        creation_time_ms: 0x22,
        creation_time: 0x3344,
        creation_date: 0x5566,
        last_access_date: 0x7788,
        cluster_high: 0x99AA,
        m_time: 0xBBCC,
        m_date: 0xDDEE,
        first_cluster: 0x0102,
        file_size: 0x0A0B0C0D,
    };
    let bytes = e.to_bytes();
    assert_eq!(
        bytes,
        [
            b'L', b'O', b'G', b'1', b' ', b' ', b' ', b' ', b'T', b'X', b'T', 0x20, 0x11, 0x22,
            0x44, 0x33, 0x66, 0x55, 0x88, 0x77, 0xAA, 0x99, 0xCC, 0xBB, 0xEE, 0xDD, 0x02, 0x01,
            0x0D, 0x0C, 0x0B, 0x0A,
        ]
    );
    assert_eq!(Fat16DirEntry::from_bytes(&bytes, 0), Some(e));
    let mut padded = vec![0xFFu8; 5];
    padded.extend_from_slice(&bytes);
    assert_eq!(Fat16DirEntry::from_bytes(&padded, 5), Some(e));
    assert_eq!(Fat16DirEntry::from_bytes(&padded, 6), None);
    assert_eq!(Fat16DirEntry::from_bytes(&bytes[..31], 0), None);
    assert_eq!(Fat16DirEntry::from_bytes(&bytes, usize::MAX), None);
}

#[test]
fn save_input_as_file_saves_the_captured_text() {
    let mut fs = MemoryFilesystem::new();
    assert_eq!(fat16_save_input_as_file(&mut fs, &name("INPUT"), b"TYPED"), FsStatus::Done);
    assert_eq!(fs.load(&name("INPUT"), 512), (b"TYPED".to_vec(), FsStatus::Done));
    assert_eq!(fs.entry(0).unwrap().file_size, 5);
}

#[test]
fn save_input_as_file_writes_nothing_where_nothing_was_captured() {
    let mut fs = MemoryFilesystem::new();
    assert_eq!(fat16_save_input_as_file(&mut fs, &name("NONE"), b""), FsStatus::Done);
    assert!(fs.list(512).is_empty());
    assert_eq!(fs.marker(2), Some(0));
    assert_eq!(fs.load(&name("NONE"), 512), (Vec::new(), FsStatus::NotFound));
    // Not even on a full directory is anything reported.
    for i in 0..512 {
        fat16_create_file(&mut fs, &numbered(i));
    }
    assert_eq!(fat16_save_input_as_file(&mut fs, &name("NONE"), b""), FsStatus::Done);
    assert_eq!(fat16_save_input_as_file(&mut fs, &name("NONE"), b"x"), FsStatus::SlotExhausted);
}

#[test]
fn mini_commander_list_shows_names_and_highlights_the_selection() {
    let mut fs = MemoryFilesystem::new();
    fat16_create_file(&mut fs, &name("ALPHA"));
    fat16_create_file(&mut fs, &name("BETA"));
    let mut screen = Screen::new();
    assert_eq!(refresh_mc_list(&fs, &mut screen, 1), 2);
    assert_eq!(chars(&screen, 4, 4, 8), b"ALPHA   ".to_vec());
    assert_eq!(colors(&screen, 4, 4, 8), vec![0x1F; 8]);
    assert_eq!(chars(&screen, 13, 4, 4), b".TXT".to_vec());
    assert_eq!(colors(&screen, 13, 4, 4), vec![0x1F; 4]);
    assert_eq!(chars(&screen, 4, 5, 8), b"BETA    ".to_vec());
    assert_eq!(colors(&screen, 4, 5, 8), vec![0x70; 8]);
    assert_eq!(colors(&screen, 13, 5, 4), vec![0x70; 4]);
    assert_eq!(screen.get(12, 4), Some(Cell { ch: 0x20, color: 0x07 }));
    let footer = b" [UP/DOWN] Wybor  [ENTER] Otworz  [F7] Nowy  [ESC] Wyjdz ";
    assert_eq!(chars(&screen, 2, 22, footer.len()), footer.to_vec());
    assert_eq!(colors(&screen, 2, 22, footer.len()), vec![0x0F; footer.len()]);
}

#[test]
fn mini_commander_list_counts_fifteen_slots_at_most() {
    let mut fs = MemoryFilesystem::new();
    for i in 0..20 {
        fat16_create_file(&mut fs, &numbered(i));
    }
    let mut screen = Screen::new();
    assert_eq!(refresh_mc_list(&fs, &mut screen, 0), 15);
    assert_eq!(chars(&screen, 4, 18, 8), numbered(14).to_vec());
    assert_eq!(screen.get(4, 19), Some(Cell { ch: 0x20, color: 0x07 }));
}

#[test]
fn mini_commander_on_an_empty_store_says_so() {
    let fs = MemoryFilesystem::new();
    let mut screen = Screen::new();
    assert_eq!(fat16_mc(&fs, &mut screen, 0), 0);
    let footer = b" Brak plikow. [F7] Nowy  [ESC] Wyjdz ";
    assert_eq!(chars(&screen, 2, 22, footer.len()), footer.to_vec());
    assert_eq!(colors(&screen, 2, 22, footer.len()), vec![0x0E; footer.len()]);
    // What is left of the longer footer drawn before it stays.
    assert_eq!(chars(&screen, 39, 22, 4), b"jdz ".to_vec());
    assert_eq!(colors(&screen, 39, 22, 4), vec![0x0F; 4]);
    let title = b" FAT16 MINI-COMMANDER ";
    assert_eq!(chars(&screen, 2, 1, title.len()), title.to_vec());
    assert_eq!(colors(&screen, 2, 1, title.len()), vec![0x1F; title.len()]);
    assert_eq!(screen.get(0, 0), Some(Cell { ch: 0x20, color: 0x00 }));
    assert_eq!(screen.get(1, 1), Some(Cell { ch: 0xDB, color: 0x11 }));
    assert_eq!(screen.get(78, 22), Some(Cell { ch: 0xDB, color: 0x11 }));
    assert_eq!(screen.get(79, 22), Some(Cell { ch: 0x20, color: 0x00 }));
    assert_eq!(screen.get(1, 23), Some(Cell { ch: 0x20, color: 0x00 }));
}

#[test]
fn plain_listing_writes_names_from_row_ten_and_keeps_colours() {
    let mut fs = MemoryFilesystem::new();
    for i in 0..12 {
        fat16_create_file(&mut fs, &numbered(i));
    }
    let mut screen = Screen::new();
    ramfs_list_files(&fs, &mut screen);
    assert_eq!(chars(&screen, 0, 10, 8), numbered(0).to_vec());
    assert_eq!(chars(&screen, 0, 19, 8), numbered(9).to_vec());
    assert_eq!(colors(&screen, 0, 10, 8), vec![0x07; 8]);
    assert_eq!(chars(&screen, 0, 20, 8), vec![0x20; 8]);
    assert_eq!(screen.get(8, 10), Some(Cell { ch: 0x20, color: 0x07 }));
}

#[test]
fn file_view_shows_caption_and_content() {
    let mut fs = MemoryFilesystem::new();
    fat16_save(&mut fs, &name("A"), b"HELLOWORLD");
    let mut screen = Screen::new();
    assert_eq!(fat16_read(&fs, &mut screen, &name("A")), FsStatus::Done);
    assert_eq!(chars(&screen, 0, 14, 16), b"ZAWARTOSC PLIKU:".to_vec());
    assert_eq!(colors(&screen, 0, 14, 16), vec![0x0B; 16]);
    assert_eq!(chars(&screen, 0, 15, 10), b"HELLOWORLD".to_vec());
    assert_eq!(colors(&screen, 0, 15, 10), vec![0x0F; 10]);
    assert_eq!(screen.get(10, 15), Some(Cell { ch: 0x20, color: 0x07 }));

    let mut untouched = Screen::new();
    assert_eq!(fat16_read(&fs, &mut untouched, &name("B")), FsStatus::NotFound);
    for row in 0..25 {
        assert_eq!(chars(&untouched, 0, row, 80), vec![0x20; 80]);
        assert_eq!(colors(&untouched, 0, row, 80), vec![0x07; 80]);
    }
}
