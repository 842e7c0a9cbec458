use crate::models::draft_data::{DraftRecord, DraftRecordView};
use crate::text::same_texts;
use vstd::prelude::*;

verus! {

/// What `stored` stands for, where there is one.
pub open spec fn stored_view(stored: Option<DraftRecord>) -> Option<DraftRecordView> {
    match stored {
        Some(record) => Some(record@),
        None => None,
    }
}

/// The record to keep, and whether it has to be written, when `observed` has
/// just been seen and `stored` is what was kept for the same pick of the
/// same game.
///
/// With nothing stored, what was seen is written. Otherwise a choice that
/// was stored stays, and a write is due only where the cards on offer differ
/// from the stored ones or the stored record still lacks its picture.
pub open spec fn reconciled(observed: DraftRecordView, stored: Option<DraftRecordView>) -> (
    DraftRecordView,
    bool,
) {
    match stored {
        None => (observed, true),
        Some(kept) => (
            DraftRecordView {
                selected_card: if kept.selected_card is Some {
                    kept.selected_card
                } else {
                    observed.selected_card
                },
                ..observed
            },
            kept.selection_vec != observed.selection_vec || kept.image_url is None,
        ),
    }
}

/// Merges what was just seen with what was stored for the same pick, and
/// says whether the result has to be written.
pub fn reconcile(observed: DraftRecord, stored: Option<DraftRecord>) -> (r: (DraftRecord, bool))
    ensures
        (r.0@, r.1) == reconciled(observed@, stored_view(stored)),
{
    match stored {
        None => (observed, true),
        Some(kept) => {
            let differs = !same_texts(&kept.selection_vec, &observed.selection_vec);
            let should_overwrite = differs || kept.image_url.is_none();
            let mut merged = observed;
            if let Some(chosen) = kept.selected_card {
                merged.pick_card(chosen);
            }
            (merged, should_overwrite)
        },
    }
}

/// A record that has its picture, seen again unchanged, needs no write and
/// comes back as it is.
pub proof fn lemma_reconcile_idempotent(record: DraftRecordView)
    requires
        record.image_url is Some,
    ensures
        reconciled(record, Some(record)) == (record, false),
{
}

/// A choice that was stored is never lost: it stands in the merged record,
/// whatever was seen.
pub proof fn lemma_reconcile_keeps_commitment(
    observed: DraftRecordView,
    stored: DraftRecordView,
    chosen: u8,
)
    requires
        stored.selected_card == Some(chosen),
    ensures
        reconciled(observed, Some(stored)).0.selected_card == Some(chosen),
{
}

/// Merging changes nothing of what was seen but the choice.
pub proof fn lemma_reconcile_keeps_observation(
    observed: DraftRecordView,
    stored: Option<DraftRecordView>,
)
    ensures
        reconciled(observed, stored).0 == (DraftRecordView {
            selected_card: reconciled(observed, stored).0.selected_card,
            ..observed
        }),
        stored is None ==> reconciled(observed, stored) == (observed, true),
{
}

/// Merging a second time with the same stored record gives the same record
/// and the same decision.
pub proof fn lemma_reconcile_stable(observed: DraftRecordView, stored: Option<DraftRecordView>)
    ensures
        reconciled(reconciled(observed, stored).0, stored) == reconciled(observed, stored),
{
}

} // verus!
