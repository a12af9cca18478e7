use bevy_liminal::IndirectParametersBuffer;
use bevy_liminal::IndirectParametersMetadata;
use bevy_liminal::indirect_parameters_metadata;
use nonmax::NonMaxU32;

#[test]
fn indexed_batches_use_the_indexed_buffer() {
    let set = NonMaxU32::new(7).map(u32::from);
    assert_eq!(
        indirect_parameters_metadata(true, 3, set),
        (
            IndirectParametersBuffer::Indexed,
            IndirectParametersMetadata { base_output_index: 3, batch_set_index: 7 }
        )
    );
}

#[test]
fn missing_batch_set_is_all_ones() {
    let (buffer, metadata) = indirect_parameters_metadata(false, 0, None);
    assert_eq!(buffer, IndirectParametersBuffer::NonIndexed);
    assert_eq!(metadata.batch_set_index, !0);
}

#[test]
fn largest_batch_set_index_stays_distinct_from_none() {
    let largest = NonMaxU32::MAX;
    let (_, metadata) = indirect_parameters_metadata(true, 0, Some(u32::from(largest)));
    assert_eq!(metadata.batch_set_index, u32::MAX - 1);
}
