//! A liveness/heartbeat registry.
//!
//! Independent units of work ("beats") register themselves with a central
//! authority, emit heartbeat events, and can be queried: which units exist,
//! which are active (have a non-empty heartbeat history), and what each one's
//! record holds.
//!
//! The library is the verified core of that system:
//!
//! - [`Record`], [`Beat`] and [`Registry`] model the data: an id-keyed record
//!   map with unique, monotonically allocated ids and append-only histories.
//! - [`deck_step`] is the keeper's dispatch: the sole writer of the registry
//!   applies one command at a time and produces at most one reply.
//! - [`interpret_id_reply`] and [`interpret_init_reply`] are the facade's side
//!   of the request/reply pairing, including the failure kinds for a broken
//!   or misbehaving channel.
//! - [`TheDJ`] is the facade itself, here driving the keeper step directly;
//!   a concurrent runtime routes the same commands over channels instead.
//! - [`block_poll_step`] is the decision taken on each tick of the
//!   poll-with-deadline primitive; the clock and the sleeping between ticks
//!   belong to the runtime around the library.

mod dj;
mod errors;
mod protocol;
mod record;
mod registry;

pub use dj::{block_poll_step, poll_updated_count, spec_poll_step, PollStep, TheDJ};
pub use dj::{lemma_poll_count_monotone, lemma_poll_deadline_expires, lemma_poll_ready_is_stable};
pub use errors::Error;
pub use protocol::{deck_step, interpret_id_reply, interpret_init_reply, DM2Deck, DM2DJ};
pub use record::{Beat, Record, RecordView};
pub use registry::{active_ids_of, remove_id_from, roster_as_ints, Registry, RegistryView};
pub use registry::{
    lemma_active_ids_membership, lemma_contains_iff_roster, lemma_deregister_removes,
    lemma_empty_roster_is_error, lemma_fresh_registration_inactive, lemma_ids_distinct,
    lemma_register_allocates_fresh, lemma_registered_id_in_roster,
};
