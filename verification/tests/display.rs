use hex_world::display::{chunk_label, chunk_label_chars, update_chunk_display};
use hex_world::hex::{ChunkIndex, TileCoordinate};

#[test]
fn the_label_names_the_chunk() {
    assert_eq!(chunk_label(ChunkIndex { cq: 0, cr: 0 }), "Chunk: (0, 0)");
    assert_eq!(chunk_label(ChunkIndex { cq: 1, cr: 0 }), "Chunk: (1, 0)");
    assert_eq!(chunk_label(ChunkIndex { cq: -1, cr: 12 }), "Chunk: (-1, 12)");
    assert_eq!(chunk_label(ChunkIndex { cq: 10, cr: -100 }), "Chunk: (10, -100)");
    assert_eq!(chunk_label(ChunkIndex { cq: 909, cr: 1000 }), "Chunk: (909, 1000)");
}

#[test]
fn the_label_holds_the_extreme_indices() {
    assert_eq!(
        chunk_label(ChunkIndex { cq: i32::MIN, cr: i32::MAX }),
        "Chunk: (-2147483648, 2147483647)"
    );
}

#[test]
fn the_label_agrees_with_the_standard_formatting() {
    let samples = [0, 1, -1, 9, 10, -10, 99, 100, 101, -999, 123456789, i32::MAX, i32::MIN];
    for cq in samples {
        for cr in samples {
            assert_eq!(chunk_label(ChunkIndex { cq, cr }), format!("Chunk: ({}, {})", cq, cr));
        }
    }
}

#[test]
fn the_label_and_its_characters_agree() {
    let index = ChunkIndex { cq: -42, cr: 7 };
    let chars = chunk_label_chars(index);
    assert_eq!(chars.len(), 15);
    assert_eq!(chars[0], 'C');
    assert_eq!(chars[8], '-');
    assert_eq!(chars[14], ')');
    let text: String = chars.into_iter().collect();
    assert_eq!(chunk_label(index), text);
    assert_eq!(text, "Chunk: (-42, 7)");
}

#[test]
fn the_display_changes_only_with_the_chunk() {
    let shown = ChunkIndex { cq: 0, cr: 0 };
    assert_eq!(update_chunk_display(shown, TileCoordinate::new(0, 0)), None);
    assert_eq!(update_chunk_display(shown, TileCoordinate::new(6, 6)), None);
    assert_eq!(
        update_chunk_display(shown, TileCoordinate::new(7, 0)),
        Some(ChunkIndex { cq: 1, cr: 0 })
    );
    assert_eq!(
        update_chunk_display(shown, TileCoordinate::new(-1, 0)),
        Some(ChunkIndex { cq: -1, cr: 0 })
    );
    assert_eq!(
        update_chunk_display(ChunkIndex { cq: 1, cr: 0 }, TileCoordinate::new(6, 0)),
        Some(ChunkIndex { cq: 0, cr: 0 })
    );
}
