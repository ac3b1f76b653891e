use std::collections::HashMap;

use disc_remuxer::nav_cells::CellKey;

#[test]
fn cell_key_round_trips_in_hashmap() {
    let mut m = HashMap::new();
    let k = CellKey {
        title_set_nr: 3,
        pgcn: 1,
        cell_nr: 5,
    };
    let v = 42u32;
    m.insert(k, v);
    assert_eq!(m.get(&k), Some(&42));
    assert_eq!(
        m.get(&CellKey {
            title_set_nr: 3,
            pgcn: 1,
            cell_nr: 6
        }),
        None
    );
}
