use lil_miss::{
  load_tile, load_tile_binarystring, packed_string, tally_verdicts, validate_tile, InvalidInput,
  Status, Tally, Tile, CONFIGURATIONS,
};

#[test]
fn binarystring_fills_row_by_row() {
  let mut tile = Tile::new();
  let loaded = load_tile_binarystring(&mut tile, "100010001000000000111").unwrap();
  assert_eq!(loaded.to_text(), "#..\n.#.\n..#\n...\n...\n...\n###\n");
  assert_eq!(tile.to_text(), loaded.to_text());
}

#[test]
fn binarystring_digits_agree_with_symbols() {
  let mut a = Tile::new();
  let mut b = Tile::new();
  let digits = load_tile_binarystring(&mut a, "000000010010010000000").unwrap();
  let symbols = load_tile_binarystring(&mut b, ".......#..#..#.......").unwrap();
  assert_eq!(digits.to_text(), symbols.to_text());
  let text = load_tile("...\n...\n.#.\n.#.\n.#.\n...\n...".to_string()).unwrap();
  assert_eq!(digits.to_text(), text.to_text());
  assert!(validate_tile(&digits).unwrap() == Status::True);
}

#[test]
fn binarystring_keeps_cells_it_does_not_reach() {
  let mut tile = load_tile("###\n###\n###\n###\n###\n###\n###".to_string()).unwrap();
  let loaded = load_tile_binarystring(&mut tile, "0000?").unwrap();
  assert_eq!(loaded.to_text(), "...\n.?#\n###\n###\n###\n###\n###\n");
  let same = load_tile_binarystring(&mut tile, "").unwrap();
  assert_eq!(same.to_text(), loaded.to_text());
}

#[test]
fn binarystring_fails_at_the_first_invalid_symbol() {
  let mut tile = Tile::new();
  let result = load_tile_binarystring(&mut tile, "1112113");
  assert_eq!(result.unwrap_err(), InvalidInput { symbol: '2' });
  assert_eq!(tile.to_text(), "###\n...\n...\n...\n...\n...\n...\n");
}

#[test]
fn packed_string_is_21_binary_digits() {
  assert_eq!(packed_string(0), "000000000000000000000");
  assert_eq!(packed_string(1), "000000000000000000001");
  assert_eq!(packed_string(5), "000000000000000000101");
  assert_eq!(packed_string(1 << 20), "100000000000000000000");
  assert_eq!(packed_string(CONFIGURATIONS - 1), "111111111111111111111");
  assert_eq!(packed_string(1234567), format!("{:021b}", 1234567));
}

#[test]
fn tally_of_small_ranges() {
  assert_eq!(tally_verdicts(0), Tally { trues: 0, falses: 0 });
  assert_eq!(tally_verdicts(1), Tally { trues: 0, falses: 1 });
  // Below 512 neither the centre nor its right neighbour is occupied. From
  // 512 to 1023 the neighbour is, and rows 0 to 3 of the middle column are
  // free. From 1024 on the centre itself is occupied.
  assert_eq!(tally_verdicts(512), Tally { trues: 0, falses: 512 });
  assert_eq!(tally_verdicts(513), Tally { trues: 1, falses: 512 });
  assert_eq!(tally_verdicts(1024), Tally { trues: 512, falses: 512 });
  assert_eq!(tally_verdicts(2048), Tally { trues: 1536, falses: 512 });
}

#[test]
fn tally_counts_every_configuration_once() {
  assert_eq!(CONFIGURATIONS, 2_097_152);
  let tally = tally_verdicts(CONFIGURATIONS);
  assert_eq!(tally.trues + tally.falses, 2_097_152);
  assert_eq!(tally.trues, 1_212_416);
  assert_eq!(tally.falses, 884_736);
}
