use walk_the_dog::Cell;
use walk_the_dog::Sheet;
use walk_the_dog::SheetRect;
use walk_the_dog::display_name;
use walk_the_dog::sheet_complete;

fn cell(x: i16, y: i16, w: i16, h: i16) -> Cell {
    Cell {
        frame: SheetRect { x, y, w, h },
        sprite_source_size: SheetRect { x: 0, y: 0, w, h },
    }
}

fn full_sheet() -> Sheet {
    let mut sheet = Sheet::new();
    let groups: [(&str, u32); 5] =
        [("Idle", 10), ("Run", 8), ("Slide", 5), ("Jump", 12), ("Dead", 10)];
    for (label, count) in groups {
        for i in 1..=count {
            sheet.insert(format!("{} ({}).png", label, i), cell(0, 0, 100, 100));
        }
    }
    sheet
}

#[test]
fn display_name_formats_label_and_index() {
    assert_eq!(display_name("Run", 3), "Run (3).png");
    assert_eq!(display_name("Idle", 1), "Idle (1).png");
    assert_eq!(display_name("Jump", 12), "Jump (12).png");
}

#[test]
fn sheet_lookup_finds_inserted_cells() {
    let mut sheet = Sheet::new();
    assert!(sheet.cell("13.png").is_none());
    sheet.insert(String::from("13.png"), cell(10, 20, 30, 40));
    sheet.insert(String::from("14.png"), cell(50, 20, 30, 40));
    let found = sheet.cell("13.png").unwrap();
    assert_eq!(found.frame.x, 10);
    let other = sheet.cell("14.png").unwrap();
    assert_eq!(other.frame.x, 50);
    assert!(sheet.cell("15.png").is_none());
    assert!(sheet.cell("13.pn").is_none());
}

#[test]
fn later_insert_shadows_earlier_one() {
    let mut sheet = Sheet::new();
    sheet.insert(String::from("13.png"), cell(10, 20, 30, 40));
    sheet.insert(String::from("13.png"), cell(99, 20, 30, 40));
    assert_eq!(sheet.cell("13.png").unwrap().frame.x, 99);
}

#[test]
fn complete_sheet_is_accepted() {
    assert!(sheet_complete(&full_sheet()));
}

#[test]
fn sheet_missing_one_sprite_is_rejected() {
    let mut sheet = Sheet::new();
    let groups: [(&str, u32); 5] =
        [("Idle", 10), ("Run", 8), ("Slide", 5), ("Jump", 12), ("Dead", 10)];
    for (label, count) in groups {
        for i in 1..=count {
            if label == "Jump" && i == 12 {
                continue;
            }
            sheet.insert(format!("{} ({}).png", label, i), cell(0, 0, 100, 100));
        }
    }
    assert!(!sheet_complete(&sheet));
    assert!(sheet_complete(&full_sheet()));
}

#[test]
fn empty_sheet_is_rejected() {
    assert!(!sheet_complete(&Sheet::new()));
}
