use oplus_combat::health::Health;
use oplus_combat::movement::movement_input;
use oplus_combat::geometry::{UnitVec, Vec2};
use oplus_combat::pool::VfxPool;
use oplus_combat::save_slots::{
    generate_slot_display_name, is_auto_slot, is_save_file, next_sequence, parse_slot_name,
    slot_display_of, SlotDate, SlotName,
};
use oplus_combat::vfx::{update_slash_vfx, LiveVfx, SlashVfx, VfxOrder};

fn date(year: u32, month: u32, day: u32) -> SlotDate {
    SlotDate { year, month, day }
}

#[test]
fn display_name_has_two_digits_at_least() {
    assert_eq!(generate_slot_display_name(&date(25, 12, 6), 1), b"25.12.06.1".to_vec());
    assert_eq!(generate_slot_display_name(&date(5, 1, 1), 12), b"05.01.01.12".to_vec());
    assert_eq!(generate_slot_display_name(&date(0, 0, 0), 0), b"00.00.00.0".to_vec());
    assert_eq!(generate_slot_display_name(&date(123, 10, 31), 4_294_967_296), b"123.10.31.4294967296".to_vec());
    assert_eq!(
        generate_slot_display_name(&date(u32::MAX, 9, 10), u64::MAX),
        b"4294967295.09.10.18446744073709551615".to_vec()
    );
}

#[test]
fn parse_reads_what_generate_writes() {
    for (d, n) in [(date(25, 12, 6), 1u32), (date(0, 1, 31), 0), (date(99, 12, 31), u32::MAX)] {
        let name = generate_slot_display_name(&d, n as u64);
        assert_eq!(parse_slot_name(&name), Some(SlotName { date: d, sequence: n }));
    }
}

#[test]
fn parse_wants_four_numbers() {
    assert_eq!(parse_slot_name(b""), None);
    assert_eq!(parse_slot_name(b"25"), None);
    assert_eq!(parse_slot_name(b"25.12"), None);
    assert_eq!(parse_slot_name(b"25.12.06"), None);
    assert_eq!(parse_slot_name(b"25.12.06.1.2"), None);
    assert_eq!(parse_slot_name(b"25.12.06."), None);
    assert_eq!(parse_slot_name(b".12.06.1"), None);
    assert_eq!(parse_slot_name(b"25..06.1"), None);
    assert_eq!(parse_slot_name(b"..."), None);
    assert_eq!(parse_slot_name(b"a.b.c.d"), None);
    assert_eq!(parse_slot_name(b"25.12.06.1a"), None);
    assert_eq!(parse_slot_name(b"25.12.06. 1"), None);
    assert_eq!(parse_slot_name(b"25.12.06.-1"), None);
    assert_eq!(parse_slot_name(b"autosave"), None);
}

#[test]
fn parse_reads_numbers_as_the_standard_library_does() {
    assert_eq!(
        parse_slot_name(b"+25.012.6.+0001"),
        Some(SlotName { date: date(25, 12, 6), sequence: 1 })
    );
    assert_eq!(parse_slot_name(b"25.12.06.+"), None);
    assert_eq!(parse_slot_name(b"25.12.06.++1"), None);
    assert_eq!(
        parse_slot_name(b"25.12.06.4294967295"),
        Some(SlotName { date: date(25, 12, 6), sequence: u32::MAX })
    );
    assert_eq!(parse_slot_name(b"25.12.06.4294967296"), None);
    assert_eq!(parse_slot_name(b"25.12.06.99999999999999999999999999"), None);
    assert_eq!(
        parse_slot_name(b"25.12.06.00000000000000000000000007"),
        Some(SlotName { date: date(25, 12, 6), sequence: 7 })
    );
    for text in ["7", "+7", "007", "", "+", "4294967295", "4294967296", "-7", "7 "] {
        let name = format!("1.2.3.{}", text);
        let expected = text.parse::<u32>().ok();
        assert_eq!(parse_slot_name(name.as_bytes()).map(|n| n.sequence), expected);
    }
}

#[test]
fn next_sequence_counts_the_slots_of_the_day() {
    let names: Vec<Vec<u8>> = vec![
        b"25.12.06.1".to_vec(),
        b"25.12.06.7".to_vec(),
        b"25.12.05.9".to_vec(),
        b"autosave".to_vec(),
        b"25.12.06.3".to_vec(),
        b"25.12.6.2".to_vec(),
    ];
    assert_eq!(next_sequence(&names, &date(25, 12, 6)), 8);
    assert_eq!(next_sequence(&names, &date(25, 12, 5)), 10);
    assert_eq!(next_sequence(&names, &date(25, 12, 7)), 1);
    assert_eq!(next_sequence(&Vec::new(), &date(25, 12, 6)), 1);
    let full: Vec<Vec<u8>> = vec![b"1.1.1.4294967295".to_vec()];
    assert_eq!(next_sequence(&full, &date(1, 1, 1)), 4_294_967_296);
}

#[test]
fn save_files_end_in_json() {
    assert!(is_save_file(b"25.12.06.1.json"));
    assert!(is_save_file(b".json"));
    assert!(!is_save_file(b"json"));
    assert!(!is_save_file(b"25.12.06.1.jso"));
    assert!(!is_save_file(b"25.12.06.1.json "));
    assert!(!is_save_file(b""));
}

#[test]
fn display_name_drops_every_json_ending() {
    assert_eq!(slot_display_of(b"25.12.06.1.json"), b"25.12.06.1".to_vec());
    assert_eq!(slot_display_of(b"a.json.json"), b"a".to_vec());
    assert_eq!(slot_display_of(b".json"), b"".to_vec());
    assert_eq!(slot_display_of(b"json"), b"json".to_vec());
    assert_eq!(slot_display_of(b"autosave.json"), b"autosave".to_vec());
    assert_eq!(slot_display_of(b"a.jsonx"), b"a.jsonx".to_vec());
    assert_eq!(slot_display_of(b""), b"".to_vec());
    for name in ["x.json", "x.json.json.json", "json.json", "x.JSON", ".json.", "ab"] {
        assert_eq!(
            slot_display_of(name.as_bytes()),
            name.trim_end_matches(".json").as_bytes().to_vec()
        );
    }
}

#[test]
fn automatic_slots() {
    assert!(is_auto_slot(b"autosave"));
    assert!(is_auto_slot(b"auto_"));
    assert!(is_auto_slot(b"auto_25.12.06"));
    assert!(!is_auto_slot(b"autosave2"));
    assert!(!is_auto_slot(b"autosav"));
    assert!(!is_auto_slot(b"auto"));
    assert!(!is_auto_slot(b"25.12.06.1"));
    assert!(!is_auto_slot(b""));
    assert!(!is_auto_slot(b"Autosave"));
}

#[test]
fn saved_health_is_brought_into_range() {
    assert_eq!(Health::restored(50_000, 100_000), Health { current: 50_000, max: 100_000 });
    assert_eq!(Health::restored(150_000, 100_000), Health { current: 100_000, max: 100_000 });
    assert_eq!(Health::restored(-1, 100_000), Health { current: 0, max: 100_000 });
    assert_eq!(Health::restored(5_000, 0), Health { current: 1_000, max: 1_000 });
    assert_eq!(Health::restored(500, -7), Health { current: 500, max: 1_000 });
}

#[test]
fn keys_add_up_to_a_direction() {
    assert_eq!(movement_input(false, false, false, false), Vec2::new(0, 0));
    assert_eq!(movement_input(true, false, false, false), Vec2::new(0, 1_000));
    assert_eq!(movement_input(false, true, false, false), Vec2::new(0, -1_000));
    assert_eq!(movement_input(false, false, true, false), Vec2::new(-1_000, 0));
    assert_eq!(movement_input(false, false, false, true), Vec2::new(1_000, 0));
    assert_eq!(movement_input(true, true, true, true), Vec2::new(0, 0));
    assert_eq!(movement_input(true, false, false, true), Vec2::new(1_000, 1_000));
    assert_eq!(
        movement_input(true, false, false, true).normalize_or_zero(),
        UnitVec { x: 707_106_781, y: 707_106_781 }
    );
}

#[test]
fn effects_run_out_and_go_back_to_the_pool() {
    let order = VfxOrder {
        recycled: None,
        center: Vec2::new(0, 0),
        direction: UnitVec::up(),
        length: 1,
        width: 1,
        lifetime_ms: 200,
    };
    assert_eq!(SlashVfx::of(&order), SlashVfx { remaining: 200_000 });
    assert_eq!(
        SlashVfx::of(&VfxOrder { lifetime_ms: 4_294_968, ..order }),
        SlashVfx { remaining: u32::MAX }
    );
    let mut effects = vec![
        LiveVfx { handle: 1, vfx: SlashVfx { remaining: 200_000 } },
        LiveVfx { handle: 2, vfx: SlashVfx { remaining: 16_000 } },
        LiveVfx { handle: 3, vfx: SlashVfx { remaining: 16_001 } },
        LiveVfx { handle: 4, vfx: SlashVfx { remaining: 0 } },
    ];
    let mut pool = VfxPool::new();
    update_slash_vfx(16_000, &mut effects, &mut pool);
    assert_eq!(
        effects,
        vec![
            LiveVfx { handle: 1, vfx: SlashVfx { remaining: 184_000 } },
            LiveVfx { handle: 3, vfx: SlashVfx { remaining: 1 } },
        ]
    );
    assert_eq!(pool.free, vec![2, 4]);
    update_slash_vfx(0, &mut effects, &mut pool);
    assert_eq!(effects.len(), 2);
    update_slash_vfx(u32::MAX, &mut effects, &mut pool);
    assert!(effects.is_empty());
    assert_eq!(pool.free, vec![2, 4, 1, 3]);
}
