use vstd::prelude::*;

verus! {

/// Which indirect-parameters buffer a batch's metadata goes to.
#[derive(Debug, Clone, Copy, PartialEq, Eq, Structural)]
pub enum IndirectParametersBuffer {
    /// The buffer of indexed draws.
    Indexed,
    /// The buffer of non-indexed draws.
    NonIndexed,
}

/// CPU-side metadata of an indirect draw batch.
#[derive(Debug, Clone, Copy, PartialEq, Eq, Structural)]
pub struct IndirectParametersMetadata {
    /// Index of the batch's first output.
    pub base_output_index: u32,
    /// Index of the batch set, or `u32::MAX` when the batch belongs to none.
    pub batch_set_index: u32,
}

/// The metadata of an indirect draw batch and the buffer it is written to: indexed
/// batches go to the indexed buffer; a missing batch set is encoded as `u32::MAX`,
/// which no batch set index equals.
pub fn indirect_parameters_metadata(
    indexed: bool,
    base_output_index: u32,
    batch_set_index: Option<u32>,
) -> (r: (IndirectParametersBuffer, IndirectParametersMetadata))
    requires
        batch_set_index matches Some(i) ==> i != u32::MAX,
    ensures
        r.0 == (if indexed {
            IndirectParametersBuffer::Indexed
        } else {
            IndirectParametersBuffer::NonIndexed
        }),
        r.1.base_output_index == base_output_index,
        r.1.batch_set_index == match batch_set_index {
            Some(i) => i,
            None => u32::MAX,
        },
        (r.1.batch_set_index == u32::MAX) <==> batch_set_index is None,
{
    let metadata = IndirectParametersMetadata {
        base_output_index,
        batch_set_index: match batch_set_index {
            Some(i) => i,
            None => u32::MAX,
        },
    };
    let buffer = if indexed {
        IndirectParametersBuffer::Indexed
    } else {
        IndirectParametersBuffer::NonIndexed
    };
    (buffer, metadata)
}

} // verus!
