use css2mp4_core::ymmp::{
    first_remark_match, strip_utf8_bom, with_utf8_bom, FieldMap, Item, Timeline, VideoInfo, YmmpProject, UTF8_BOM,
};
use serde_json::Value;

fn item(remark: Option<&str>, frame: i64) -> Item {
    let mut fields = FieldMap::new();
    if let Some(r) = remark {
        fields.insert("Remark".to_string(), Value::String(r.to_string()));
    }
    fields.insert("X".to_string(), Value::from(0));
    Item {
        item_type: "YukkuriMovieMaker.Project.Items.VideoItem, YukkuriMovieMaker".to_string(),
        frame,
        layer: 0,
        length: 100,
        fields,
    }
}

fn project() -> YmmpProject {
    let timeline = Timeline {
        id: "t0".to_string(),
        name: "main".to_string(),
        video_info: VideoInfo {
            fps: 24,
            hz: 48000,
            width: 1920,
            height: 1080,
            background_color: "#FF000000".to_string(),
        },
        items: vec![item(None, 0), item(Some("box"), 10), item(Some("box"), 20)],
        extra: FieldMap::new(),
    };
    YmmpProject { file_path: None, timelines: vec![timeline], extra: FieldMap::new() }
}

#[test]
fn field_map_insert_and_get() {
    let mut m = FieldMap::new();
    assert!(m.get("X").is_none());
    assert!(m.insert("X".to_string(), Value::from(1)).is_none());
    assert_eq!(m.get("X"), Some(&Value::from(1)));
    assert!(m.contains_key("X"));
    assert!(!m.contains_key("Y"));
    let old = m.insert("X".to_string(), Value::from(2));
    assert_eq!(old, Some(Value::from(1)));
    assert_eq!(m.get("X"), Some(&Value::from(2)));
    assert_eq!(m.into_entries().len(), 1);
}

#[test]
fn field_map_from_entries_last_wins() {
    let m = FieldMap::from_entries(vec![
        ("A".to_string(), Value::from(1)),
        ("B".to_string(), Value::from(2)),
        ("A".to_string(), Value::from(3)),
    ]);
    assert_eq!(m.get("A"), Some(&Value::from(3)));
    assert_eq!(m.get("B"), Some(&Value::from(2)));
    let entries = m.into_entries();
    assert_eq!(entries.len(), 2);
}

#[test]
fn field_map_entries_round_trip() {
    let entries = vec![
        ("Remark".to_string(), Value::String("a".to_string())),
        ("Opacity".to_string(), Value::from(100)),
    ];
    let back = FieldMap::from_entries(entries.clone()).into_entries();
    let rebuilt = FieldMap::from_entries(back);
    for (k, v) in entries {
        assert_eq!(rebuilt.get(&k), Some(&v));
    }
}

#[test]
fn set_field_replaces_only_that_field() {
    let mut it = item(Some("box"), 5);
    it.set_field("X", Value::from(42));
    it.set_field("Zoom", Value::from(150));
    assert_eq!(it.field("X"), Some(&Value::from(42)));
    assert_eq!(it.field("Zoom"), Some(&Value::from(150)));
    assert_eq!(it.field("Remark"), Some(&Value::String("box".to_string())));
    assert_eq!(it.frame, 5);
}

#[test]
fn item_mut_edits_only_that_item() {
    let mut p = project();
    {
        let it = p.item_mut(0, 1).unwrap();
        it.set_field("X", Value::from(7));
    }
    assert_eq!(p.timelines[0].items[1].field("X"), Some(&Value::from(7)));
    assert_eq!(p.timelines[0].items[0].field("X"), Some(&Value::from(0)));
    assert_eq!(p.timelines[0].items[2].field("X"), Some(&Value::from(0)));
    assert!(p.item_mut(0, 3).is_none());
    assert!(p.item_mut(1, 0).is_none());
}

#[test]
fn item_by_remark_finds_first_match() {
    let mut p = project();
    let it = p.item_by_remark_mut(0, "box").unwrap();
    assert_eq!(it.frame, 10);
    assert!(p.item_by_remark_mut(0, "nothing").is_none());
    assert!(p.item_by_remark_mut(4, "box").is_none());
}

#[test]
fn bom_framing() {
    assert_eq!(UTF8_BOM, "\u{feff}");
    assert_eq!(with_utf8_bom("{\"a\":1}"), "\u{feff}{\"a\":1}");
    assert_eq!(strip_utf8_bom("\u{feff}{}"), "{}");
    assert_eq!(strip_utf8_bom("{}"), "{}");
    assert_eq!(strip_utf8_bom(""), "");
    let json = "{\"Timelines\":[]}";
    assert_eq!(strip_utf8_bom(&with_utf8_bom(json)), json);
}

#[test]
fn first_remark_match_picks_first_equal_text() {
    let remarks = vec![None, Some("a".to_string()), Some("box".to_string()), Some("box".to_string())];
    assert_eq!(first_remark_match(&remarks, "box"), Some(2));
    assert_eq!(first_remark_match(&remarks, "a"), Some(1));
    assert_eq!(first_remark_match(&remarks, "zz"), None);
    assert_eq!(first_remark_match(&vec![], "box"), None);
}

#[test]
fn item_by_remark_skips_non_text_remarks() {
    let mut p = project();
    p.timelines[0].items[0].set_field("Remark", Value::from(3));
    p.timelines[0].items[1].set_field("Remark", Value::String("other".to_string()));
    let it = p.item_by_remark_mut(0, "box").unwrap();
    assert_eq!(it.frame, 20);
}
