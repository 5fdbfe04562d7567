use lil_miss::{fits_tile, load_tile, Square, Tile};

#[test]
fn new_tile_is_empty() {
  let tile = Tile::new();
  for y in 0..7 {
    for x in 0..3 {
      assert_eq!(tile.get((x, y)), Some(&Square::False));
    }
  }
  assert_eq!(tile.to_text(), "...\n...\n...\n...\n...\n...\n...\n");
}

#[test]
fn get_outside_the_tile_is_none() {
  let tile = Tile::new();
  assert_eq!(tile.get((3, 0)), None);
  assert_eq!(tile.get((0, 7)), None);
  assert_eq!(tile.get((3, 7)), None);
  assert_eq!(tile.get((2, 6)), Some(&Square::False));
}

#[test]
fn set_changes_one_cell() {
  let mut tile = Tile::new();
  tile.set((2, 5), Square::True);
  tile.set((0, 0), Square::Unknown);
  for y in 0..7 {
    for x in 0..3 {
      let expected = if (x, y) == (2, 5) {
        Square::True
      } else if (x, y) == (0, 0) {
        Square::Unknown
      } else {
        Square::False
      };
      assert_eq!(tile.get((x, y)), Some(&expected));
    }
  }
  assert_eq!(tile.to_text(), "?..\n...\n...\n...\n...\n..#\n...\n");
}

#[test]
fn load_tile_places_columns_and_rows() {
  let tile = load_tile("#.?\n.#.\n..#\n?..\n...\n###\n.?.".to_string()).unwrap();
  assert_eq!(tile.get((0, 0)), Some(&Square::True));
  assert_eq!(tile.get((1, 0)), Some(&Square::False));
  assert_eq!(tile.get((2, 0)), Some(&Square::Unknown));
  assert_eq!(tile.get((1, 1)), Some(&Square::True));
  assert_eq!(tile.get((2, 2)), Some(&Square::True));
  assert_eq!(tile.get((0, 3)), Some(&Square::Unknown));
  assert_eq!(tile.get((0, 5)), Some(&Square::True));
  assert_eq!(tile.get((1, 6)), Some(&Square::Unknown));
  assert_eq!(tile.to_text(), "#.?\n.#.\n..#\n?..\n...\n###\n.?.\n");
}

#[test]
fn load_tile_round_trips_through_text() {
  let text = "#.?\n.#.\n..#\n?..\n...\n###\n.?.\n";
  let tile = load_tile(text.to_string()).unwrap();
  assert_eq!(tile.to_text(), text);
  let again = load_tile(tile.to_text()).unwrap();
  assert_eq!(again.to_text(), text);
}

#[test]
fn load_tile_leaves_missing_cells_empty() {
  let tile = load_tile("#\n\n.#".to_string()).unwrap();
  assert_eq!(tile.to_text(), "#..\n...\n.#.\n...\n...\n...\n...\n");
  let tile = load_tile(String::new()).unwrap();
  assert_eq!(tile.to_text(), Tile::new().to_text());
}

#[test]
fn load_tile_takes_both_line_endings() {
  let tile = load_tile("#.#\r\n.#.\r\n###\n".to_string()).unwrap();
  assert_eq!(tile.to_text(), "#.#\n.#.\n###\n...\n...\n...\n...\n");
}

#[test]
fn load_tile_reports_the_first_invalid_symbol() {
  assert_eq!(
    load_tile("...\n.a.\nb..".to_string()).unwrap_err(),
    "Invalid square in the input: a"
  );
  assert_eq!(
    load_tile("..1".to_string()).unwrap_err(),
    "Invalid square in the input: 1"
  );
}

#[test]
fn load_tile_refuses_a_lone_carriage_return() {
  assert_eq!(
    load_tile("..\r".to_string()).unwrap_err(),
    "Invalid square in the input: \r"
  );
  assert_eq!(
    load_tile(".\r.\n".to_string()).unwrap_err(),
    "Invalid square in the input: \r"
  );
}

#[test]
fn fits_tile_measures_lines() {
  assert!(fits_tile(""));
  assert!(fits_tile("...\n...\n...\n...\n...\n...\n..."));
  assert!(fits_tile("...\n...\n...\n...\n...\n...\n...\n"));
  assert!(fits_tile("...\r\n...\r\n...\r\n...\r\n...\r\n...\r\n...\r\n"));
  assert!(fits_tile("abc\n\n\n\n\n\n"));
  assert!(!fits_tile("...."));
  assert!(!fits_tile("...\n....\n"));
  assert!(!fits_tile("...\n...\n...\n...\n...\n...\n...\n."));
  assert!(!fits_tile("\n\n\n\n\n\n\n\n"));
  assert!(!fits_tile("...\r"));
  assert!(fits_tile("..\r"));
}
