//! Tests of the results-file layout arithmetic and name decoding.

use epanet_rs::utils::binfile::{
    read_fixed_string, read_out_layout, OutFileLayout, OutRecord, MAGIC_NUMBER,
};

#[test]
fn fixed_strings_stop_at_zero_and_trim() {
    let mut field = [0u8; 32];
    field[..5].copy_from_slice(b"PUMP1");
    assert_eq!(read_fixed_string(&field), "PUMP1");

    let mut padded = [0u8; 32];
    padded[..4].copy_from_slice(b"AB  ");
    assert_eq!(read_fixed_string(&padded), "AB");

    assert_eq!(read_fixed_string(b"NOZERO"), "NOZERO");
    assert_eq!(read_fixed_string(b"END \t\r\n"), "END");
    assert_eq!(read_fixed_string(b"\0HIDDEN"), "");
}

#[test]
fn layout_word_counts() {
    let layout = OutFileLayout { n_nodes: 9, n_tanks: 0, n_links: 9, n_pumps: 1, n_periods: 1 };
    assert_eq!(layout.prolog_words(), (884 + 36 * 9 + 52 * 9) / 4);
    assert_eq!(layout.energy_words(), 8);
    assert_eq!(layout.period_words(), (16 * 9 + 32 * 9) / 4);
}

#[test]
fn words_classify_into_blocks() {
    let layout = OutFileLayout { n_nodes: 2, n_tanks: 0, n_links: 1, n_pumps: 0, n_periods: 2 };
    let pw = layout.prolog_words();
    let ew = layout.energy_words();
    let per = layout.period_words();
    assert_eq!(per, (16 * 2 + 32) / 4);
    // Everything before the first period block is skipped.
    assert_eq!(layout.classify_word(0), OutRecord::Skip);
    assert_eq!(layout.classify_word(pw + ew - 1), OutRecord::Skip);
    // First period: two demands, two heads, then skipped node figures,
    // then the flow block.
    let base = pw + ew;
    assert_eq!(layout.classify_word(base), OutRecord::Demand { period: 0, node: 0 });
    assert_eq!(layout.classify_word(base + 1), OutRecord::Demand { period: 0, node: 1 });
    assert_eq!(layout.classify_word(base + 2), OutRecord::Head { period: 0, node: 0 });
    assert_eq!(layout.classify_word(base + 3), OutRecord::Head { period: 0, node: 1 });
    assert_eq!(layout.classify_word(base + 4), OutRecord::Skip);
    assert_eq!(layout.classify_word(base + 8), OutRecord::Flow { period: 0, link: 0 });
    // Second period repeats the pattern one block later.
    assert_eq!(layout.classify_word(base + per), OutRecord::Demand { period: 1, node: 0 });
    assert_eq!(layout.classify_word(base + per + 8), OutRecord::Flow { period: 1, link: 0 });
    // Past the last period everything is the epilog.
    assert_eq!(layout.classify_word(base + 2 * per), OutRecord::Skip);
}

fn put_u32(data: &mut [u8], at: usize, value: u32) {
    data[at..at + 4].copy_from_slice(&value.to_le_bytes());
}

#[test]
fn layout_is_read_from_header_and_epilog() {
    let mut data = vec![0u8; 64];
    put_u32(&mut data, 8, 7);
    put_u32(&mut data, 12, 2);
    put_u32(&mut data, 16, 6);
    put_u32(&mut data, 20, 1);
    let n = data.len();
    put_u32(&mut data, n - 12, 24);
    put_u32(&mut data, n - 4, MAGIC_NUMBER);
    let layout = read_out_layout(&data).unwrap();
    assert_eq!(
        layout,
        OutFileLayout { n_nodes: 7, n_tanks: 2, n_links: 6, n_pumps: 1, n_periods: 24 },
    );

    // A wrong magic number is rejected.
    put_u32(&mut data, n - 4, MAGIC_NUMBER + 1);
    assert_eq!(read_out_layout(&data), None);

    // A file shorter than one epilog is rejected.
    assert_eq!(read_out_layout(&[0u8; 27]), None);

    // An unreasonably large count is rejected.
    put_u32(&mut data, n - 4, MAGIC_NUMBER);
    put_u32(&mut data, 8, 0x200000);
    assert_eq!(read_out_layout(&data), None);
}
