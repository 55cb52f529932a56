use yalter_bot::demos::{
    demo_report, ends_with_dem, handle_attachment, played_times, read_demo, summarise, until_nul,
    DemoSummary,
};
use yalter_bot::model::{Attachment, Message, User};

fn demo_bytes(map: &str, game: &str, entries: &[(i32, f32)]) -> Vec<u8> {
    let mut bytes = Vec::new();
    bytes.extend_from_slice(b"HLDEMO\0\0");
    bytes.extend_from_slice(&5i32.to_le_bytes());
    bytes.extend_from_slice(&48i32.to_le_bytes());
    let mut field = [0u8; 260];
    field[..map.len()].copy_from_slice(map.as_bytes());
    bytes.extend_from_slice(&field);
    let mut field = [0u8; 260];
    field[..game.len()].copy_from_slice(game.as_bytes());
    field[game.len() + 1] = b'x';
    bytes.extend_from_slice(&field);
    bytes.extend_from_slice(&0i32.to_le_bytes());
    bytes.extend_from_slice(&548i32.to_le_bytes());
    bytes.extend_from_slice(&[1, 2, 3, 4]);
    bytes.extend_from_slice(&(entries.len() as i32).to_le_bytes());
    for (entry_type, time) in entries {
        bytes.extend_from_slice(&entry_type.to_le_bytes());
        bytes.extend_from_slice(&[0u8; 64]);
        bytes.extend_from_slice(&0i32.to_le_bytes());
        bytes.extend_from_slice(&0i32.to_le_bytes());
        bytes.extend_from_slice(&time.to_le_bytes());
        bytes.extend_from_slice(&0i32.to_le_bytes());
        bytes.extend_from_slice(&0i32.to_le_bytes());
        bytes.extend_from_slice(&0i32.to_le_bytes());
    }
    bytes
}

#[test]
fn demo_is_read() {
    let bytes = demo_bytes("c1a0", "valve", &[(0, 1.5), (1, 12.25), (1, 0.125)]);
    let facts = read_demo(&bytes).unwrap();
    assert_eq!(b"valve".to_vec(), facts.game);
    assert_eq!(b"c1a0".to_vec(), facts.map);
    let times: Vec<f32> = facts.times.iter().map(|bits| f32::from_bits(*bits)).collect();
    assert_eq!(vec![12.25f32, 0.125], times);
}

#[test]
fn bytes_that_are_no_demo_are_refused() {
    let error = read_demo(&b"not a demo".to_vec()).unwrap_err();
    assert!(error.starts_with("error parsing demo: "), "{}", error);
    assert!(error.len() > "error parsing demo: ".len());
    let mut wrong_protocol = demo_bytes("c1a0", "valve", &[(1, 1.0)]);
    wrong_protocol[8] = 4;
    let error = read_demo(&wrong_protocol).unwrap_err();
    assert!(error.starts_with("error parsing demo: "), "{}", error);
    assert!(read_demo(&Vec::new()).is_err());
}

#[test]
fn demo_files_are_told_by_their_name() {
    assert!(ends_with_dem("run.dem"));
    assert!(ends_with_dem(".dem"));
    assert!(ends_with_dem("日本語.dem"));
    assert!(!ends_with_dem("dem"));
    assert!(!ends_with_dem("run.DEM"));
    assert!(!ends_with_dem("run.dem "));
    assert!(!ends_with_dem("run.demo"));
    assert!(!ends_with_dem(""));
}

#[test]
fn demo_attachments_are_listed_in_order() {
    let attachment =
        |url: &str, filename: &str| Attachment { url: url.to_string(), filename: filename.to_string() };
    let message = Message {
        id: 1,
        channel_id: 2,
        author: User { id: 3, name: "a".to_string() },
        content: String::new(),
        attachments: vec![
            attachment("u1", "a.dem"),
            attachment("u2", "b.txt"),
            attachment("u3", "c.dem"),
            attachment("u4", "dem"),
        ],
        mentions: vec![],
        mention_roles: vec![],
    };
    assert_eq!(vec!["u1".to_string(), "u3".to_string()], handle_attachment(&message));
}

#[test]
fn bytes_up_to_the_first_zero() {
    assert_eq!(b"abc".to_vec(), until_nul(&b"abc\0def\0".to_vec()));
    assert_eq!(b"abc".to_vec(), until_nul(&b"abc".to_vec()));
    assert!(until_nul(&b"\0abc".to_vec()).is_empty());
    assert!(until_nul(&Vec::new()).is_empty());
}

#[test]
fn only_played_entries_count() {
    assert_eq!(vec![7u32, 9], played_times(&vec![(0, 5), (1, 7), (0, 8), (-1, 9)]));
    assert!(played_times(&vec![(0, 5)]).is_empty());
    let facts = summarise(&DemoSummary {
        game_dir: b"g\0h".to_vec(),
        map_name: b"m".to_vec(),
        entries: vec![(2, 1), (0, 2)],
    });
    assert_eq!((b"g".to_vec(), b"m".to_vec(), vec![1u32]), (facts.game, facts.map, facts.times));
}

#[test]
fn demo_report_text() {
    assert_eq!(
        "```\nGame: valve\nMap:  c1a0\nTime: 12.375s\n```",
        demo_report("valve", "c1a0", "12.375")
    );
}
